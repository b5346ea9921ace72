//! What inlining directives keeps: statements without a `return` outside
//! the body's value, the original body under `Enter`, the order in which
//! directives nest, and the items that no applicable directive names.

use vstd::prelude::*;

use crate::ast::{SExpr, SpecExpr};
use crate::directives::{
    for_action, for_function, spec_defs_action, spec_defs_lambda, spec_directives_action,
    spec_directives_lambda, spec_enter_action, spec_exits_action, spec_lookup,
    spec_transform_arms, spec_transform_returns, spec_transform_seq, Hook, SpecActionStmt,
    SpecDirectiveDef, SpecReflection,
};

verus! {

/// No `return` is reachable in `e` through the nodes that the exit
/// transform searches (bindings, applications, matches, blocks, loops).
pub open spec fn spec_returns_free(e: SExpr) -> bool
    decreases e,
{
    match e.node {
        SpecExpr::Return(_) => false,
        SpecExpr::Let { value, .. } => spec_returns_free(*value),
        SpecExpr::Var { value, .. } => spec_returns_free(*value),
        SpecExpr::Reassign { value, .. } => spec_returns_free(*value),
        SpecExpr::Apply { callee, args } => spec_returns_free(*callee) && (forall|i: int|
            0 <= i < args.len() ==> spec_returns_free(#[trigger] args[i])),
        SpecExpr::Match { scrutinee, arms } => spec_returns_free(*scrutinee) && (forall|i: int|
            0 <= i < arms.len() ==> (match #[trigger] arms[i].guard {
                Some(g) => spec_returns_free(g),
                None => true,
            }) && spec_returns_free(arms[i].body)),
        SpecExpr::Block { stmts } => forall|i: int| 0 <= i < stmts.len() ==> spec_returns_free(#[trigger] stmts[i]),
        SpecExpr::Loop { body } => forall|i: int| 0 <= i < body.len() ==> spec_returns_free(#[trigger] body[i]),
        SpecExpr::ForIn { iterable, body, .. } => spec_returns_free(*iterable) && (forall|i: int|
            0 <= i < body.len() ==> spec_returns_free(#[trigger] body[i])),
        _ => true,
    }
}

/// The exit transform leaves an expression without `return` as it is.
pub proof fn law_transform_leaves_return_free_unchanged(e: SExpr, h: Hook, d: SpecDirectiveDef, r: SpecReflection)
    requires
        spec_returns_free(e),
    ensures
        spec_transform_returns(e, h, d, r) == e,
    decreases e,
{
    match e.node {
        SpecExpr::Let { value, .. } => {
            law_transform_leaves_return_free_unchanged(*value, h, d, r);
        },
        SpecExpr::Var { value, .. } => {
            law_transform_leaves_return_free_unchanged(*value, h, d, r);
        },
        SpecExpr::Reassign { value, .. } => {
            law_transform_leaves_return_free_unchanged(*value, h, d, r);
        },
        SpecExpr::Apply { callee, args } => {
            law_transform_leaves_return_free_unchanged(*callee, h, d, r);
            assert forall|i: int| 0 <= i < args.len() implies #[trigger] spec_transform_seq(args, h, d, r)[i]
                == args[i] by {
                law_transform_leaves_return_free_unchanged(args[i], h, d, r);
            }
            assert(spec_transform_seq(args, h, d, r) =~= args);
        },
        SpecExpr::Match { scrutinee, arms } => {
            law_transform_leaves_return_free_unchanged(*scrutinee, h, d, r);
            assert forall|i: int| 0 <= i < arms.len() implies #[trigger] spec_transform_arms(arms, h, d, r)[i]
                == arms[i] by {
                match arms[i].guard {
                    Some(g) => law_transform_leaves_return_free_unchanged(g, h, d, r),
                    None => {},
                }
                law_transform_leaves_return_free_unchanged(arms[i].body, h, d, r);
            }
            assert(spec_transform_arms(arms, h, d, r) =~= arms);
        },
        SpecExpr::Block { stmts } => {
            assert forall|i: int| 0 <= i < stmts.len() implies #[trigger] spec_transform_seq(stmts, h, d, r)[i]
                == stmts[i] by {
                law_transform_leaves_return_free_unchanged(stmts[i], h, d, r);
            }
            assert(spec_transform_seq(stmts, h, d, r) =~= stmts);
        },
        SpecExpr::Loop { body } => {
            assert forall|i: int| 0 <= i < body.len() implies #[trigger] spec_transform_seq(body, h, d, r)[i]
                == body[i] by {
                law_transform_leaves_return_free_unchanged(body[i], h, d, r);
            }
            assert(spec_transform_seq(body, h, d, r) =~= body);
        },
        SpecExpr::ForIn { iterable, body, .. } => {
            law_transform_leaves_return_free_unchanged(*iterable, h, d, r);
            assert forall|i: int| 0 <= i < body.len() implies #[trigger] spec_transform_seq(body, h, d, r)[i]
                == body[i] by {
                law_transform_leaves_return_free_unchanged(body[i], h, d, r);
            }
            assert(spec_transform_seq(body, h, d, r) =~= body);
        },
        _ => {},
    }
}

/// `Exit` and `Transform` keep the number of statements and their
/// semicolons, and leave as it is every statement that is not the body's
/// value and holds no `return`.
pub proof fn law_exits_keep_plain_statements(body: Seq<SpecActionStmt>, h: Hook, d: SpecDirectiveDef, r: SpecReflection)
    ensures
        spec_exits_action(body, h, d, r).len() == body.len(),
        forall|i: int|
            0 <= i < body.len() ==> (#[trigger] spec_exits_action(body, h, d, r)[i]).has_semicolon
                == body[i].has_semicolon,
        forall|i: int|
            0 <= i < body.len() && (i < body.len() - 1 || body[i].has_semicolon) && spec_returns_free(body[i].expr)
                ==> #[trigger] spec_exits_action(body, h, d, r)[i] == body[i],
{
    assert forall|i: int|
        0 <= i < body.len() && (i < body.len() - 1 || body[i].has_semicolon) && spec_returns_free(
            body[i].expr,
        ) implies #[trigger] spec_exits_action(body, h, d, r)[i] == body[i] by {
        law_transform_leaves_return_free_unchanged(body[i].expr, h, d, r);
    }
}

/// `Enter` runs before the body and leaves the body itself unchanged: it is
/// what ends the result.
pub proof fn law_enter_keeps_body(body: Seq<SpecActionStmt>, d: SpecDirectiveDef, r: SpecReflection)
    ensures
        spec_enter_action(body, d, r).len() >= body.len(),
        spec_enter_action(body, d, r).subrange(
            spec_enter_action(body, d, r).len() - body.len(),
            spec_enter_action(body, d, r).len() as int,
        ) == body,
{
    let res = spec_enter_action(body, d, r);
    assert(res.subrange(res.len() - body.len(), res.len() as int) =~= body);
}

/// The first directive named on an action is the outermost: it is inlined
/// after all the others.
pub proof fn law_first_directive_outermost_action(
    body: Seq<SpecActionStmt>,
    names: Seq<Seq<char>>,
    r: SpecReflection,
    reg: Seq<SpecDirectiveDef>,
)
    requires
        names.len() > 0,
    ensures
        spec_directives_action(body, names, r, reg) == spec_defs_action(
            spec_directives_action(body, names.drop_first(), r, reg),
            spec_lookup(reg, names[0]),
            r,
        ),
    decreases names.len(),
{
    if names.len() > 1 {
        let inner = spec_defs_action(body, spec_lookup(reg, names.last()), r);
        let rest = names.drop_first();
        law_first_directive_outermost_action(inner, names.drop_last(), r, reg);
        assert(names.drop_last().drop_first() =~= rest.drop_last());
        assert(rest.last() == names.last());
        assert(names.drop_last()[0] == names[0]);
        assert(spec_directives_action(body, rest, r, reg) == spec_directives_action(inner, rest.drop_last(), r, reg));
        assert(spec_directives_action(body, names, r, reg) == spec_directives_action(inner, names.drop_last(), r, reg));
        assert(spec_directives_action(inner, names.drop_last(), r, reg) == spec_defs_action(spec_directives_action(inner, names.drop_last().drop_first(), r, reg), spec_lookup(reg, names.drop_last()[0]), r));
        assert(spec_directives_action(inner, names.drop_last().drop_first(), r, reg) == spec_directives_action(inner, rest.drop_last(), r, reg));
    } else {
        assert(names.drop_first() =~= Seq::<Seq<char>>::empty());
        assert(names.drop_last() =~= Seq::<Seq<char>>::empty());
        assert(names.last() == names[0]);
        assert(spec_directives_action(body, names.drop_first(), r, reg) == body);
        assert(spec_directives_action(body, names, r, reg) == spec_directives_action(spec_defs_action(body, spec_lookup(reg, names.last()), r), names.drop_last(), r, reg));
    }
}

/// The first directive named on a function is the outermost.
pub proof fn law_first_directive_outermost_function(
    body: SExpr,
    names: Seq<Seq<char>>,
    r: SpecReflection,
    reg: Seq<SpecDirectiveDef>,
)
    requires
        names.len() > 0,
    ensures
        spec_directives_lambda(body, names, r, reg) == spec_defs_lambda(
            spec_directives_lambda(body, names.drop_first(), r, reg),
            spec_lookup(reg, names[0]),
            r,
        ),
    decreases names.len(),
{
    if names.len() > 1 {
        let inner = spec_defs_lambda(body, spec_lookup(reg, names.last()), r);
        let rest = names.drop_first();
        law_first_directive_outermost_function(inner, names.drop_last(), r, reg);
        assert(names.drop_last().drop_first() =~= rest.drop_last());
        assert(rest.last() == names.last());
        assert(names.drop_last()[0] == names[0]);
        assert(spec_directives_lambda(body, rest, r, reg) == spec_directives_lambda(inner, rest.drop_last(), r, reg));
        assert(spec_directives_lambda(body, names, r, reg) == spec_directives_lambda(inner, names.drop_last(), r, reg));
        assert(spec_directives_lambda(inner, names.drop_last(), r, reg) == spec_defs_lambda(spec_directives_lambda(inner, names.drop_last().drop_first(), r, reg), spec_lookup(reg, names.drop_last()[0]), r));
        assert(spec_directives_lambda(inner, names.drop_last().drop_first(), r, reg) == spec_directives_lambda(inner, rest.drop_last(), r, reg));
    } else {
        assert(names.drop_first() =~= Seq::<Seq<char>>::empty());
        assert(names.drop_last() =~= Seq::<Seq<char>>::empty());
        assert(names.last() == names[0]);
        assert(spec_directives_lambda(body, names.drop_first(), r, reg) == body);
        assert(spec_directives_lambda(body, names, r, reg) == spec_directives_lambda(spec_defs_lambda(body, spec_lookup(reg, names.last()), r), names.drop_last(), r, reg));
    }
}

/// Definitions that may not decorate an action leave its body unchanged.
pub proof fn law_action_ignores_other_targets(body: Seq<SpecActionStmt>, defs: Seq<SpecDirectiveDef>, r: SpecReflection)
    requires
        forall|i: int| 0 <= i < defs.len() ==> !for_action(#[trigger] defs[i]),
    ensures
        spec_defs_action(body, defs, r) == body,
    decreases defs.len(),
{
    if defs.len() > 0 {
        assert(!for_action(defs[defs.len() - 1]));
        law_action_ignores_other_targets(body, defs.drop_last(), r);
    }
}

/// Definitions that may not decorate a function, and those whose hook is
/// `ShortCircuit` or `Transform`, leave a function body unchanged.
pub proof fn law_function_ignores_other_definitions(body: SExpr, defs: Seq<SpecDirectiveDef>, r: SpecReflection)
    requires
        forall|i: int|
            0 <= i < defs.len() ==> !for_function(#[trigger] defs[i]) || defs[i].when == Hook::ShortCircuit
                || defs[i].when == Hook::Transform,
    ensures
        spec_defs_lambda(body, defs, r) == body,
    decreases defs.len(),
{
    if defs.len() > 0 {
        let last = defs[defs.len() - 1];
        assert(!for_function(last) || last.when == Hook::ShortCircuit || last.when == Hook::Transform);
        law_function_ignores_other_definitions(body, defs.drop_last(), r);
    }
}

/// Looking a name up gives only definitions of that name, and all of them.
pub proof fn law_lookup_by_name(defs: Seq<SpecDirectiveDef>, name: Seq<char>)
    ensures
        forall|i: int| 0 <= i < spec_lookup(defs, name).len() ==> (#[trigger] spec_lookup(defs, name)[i]).name == name,
        forall|i: int| 0 <= i < defs.len() && defs[i].name == name ==> spec_lookup(defs, name).contains(#[trigger] defs[i]),
        spec_lookup(defs, name).len() <= defs.len(),
    decreases defs.len(),
{
    if defs.len() > 0 {
        let prev = defs.drop_last();
        law_lookup_by_name(prev, name);
        assert forall|i: int| 0 <= i < defs.len() && defs[i].name == name implies spec_lookup(defs, name).contains(
            #[trigger] defs[i],
        ) by {
            if i < defs.len() - 1 {
                assert(prev[i] == defs[i]);
                let k = choose|k: int| 0 <= k < spec_lookup(prev, name).len() && spec_lookup(prev, name)[k] == prev[i];
                if defs.last().name == name {
                    assert(spec_lookup(defs, name)[k] == defs[i]);
                }
            } else {
                assert(spec_lookup(defs, name).last() == defs[i]);
            }
        }
    }
}

} // verus!
