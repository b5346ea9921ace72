//! Smart constructors: `data Pessoa (nome::Text idade::Int)` gets the
//! overload `Pessoa :: Text Int => Pessoa`, whose body builds the struct
//! from its parameters; `alias Float as Altura` gets `Altura :: Float =>
//! Altura`, whose body is its parameter. Each is registered in the
//! dispatch table and returned as a typed function.

use vstd::prelude::*;

use crate::ascription::{spec_field_tys, StructInfo, StructRegistry};
use crate::ast::{spec_synthetic, Span, Spanned};
use crate::tast::{TypedExpr, TypedExprKind, TypedFunction, TypedGuardClause, TypedLambdaClause, TypedPattern};
use crate::text::{owned, push_decimal, spec_decimal};
use crate::ty::{string_clone, ty_clone, tys_view, SpecStructKey, SpecTy, StructKey, Ty};
use crate::tyops::EscapeTarget;

verus! {

/// An entry of the dispatch table: an overload of a name.
pub struct OverloadInfo {
    pub name: String,
    pub params: Vec<Ty>,
    pub ret: Ty,
    pub ffi_symbol: Option<String>,
    pub is_action: bool,
    pub is_generic: bool,
    pub is_constructor: bool,
}

/// The name of the constructor's parameter at position `i`.
pub open spec fn spec_field_param_name(i: int) -> Seq<char> {
    "__field_"@ + spec_decimal(i as nat)
}

/// The type that the latest binding of `name` in `env` gives.
pub open spec fn spec_env_lookup(env: Seq<(String, Ty)>, name: Seq<char>) -> Option<SpecTy>
    decreases env.len(),
{
    if env.len() == 0 {
        None
    } else if env.last().0@ == name {
        Some(env.last().1@)
    } else {
        spec_env_lookup(env.drop_last(), name)
    }
}

/// A constructor to synthesise: its name, its parameter types, and whether
/// it is the identity (the constructor of an alias of a type without fields).
pub type CtorPlan = (Seq<char>, Seq<SpecTy>, bool);

/// The constructors of the structs with fields that are no alias, in
/// registry order.
pub open spec fn spec_struct_ctors(s: Seq<StructInfo>) -> Seq<CtorPlan>
    decreases s.len(),
{
    if s.len() == 0 {
        Seq::empty()
    } else {
        let last = s.last();
        spec_struct_ctors(s.drop_last()) + if last.alias_of is None && last.fields@.len() > 0 {
            seq![(last.name@, spec_field_tys(last), false)]
        } else {
            Seq::empty()
        }
    }
}

/// The constructors of the aliases that are not refined, in registry
/// order: the identity on the aliased type for an alias without fields,
/// else a constructor from the fields.
pub open spec fn spec_alias_ctors(s: Seq<StructInfo>, env: Seq<(String, Ty)>) -> Seq<CtorPlan>
    decreases s.len(),
{
    if s.len() == 0 {
        Seq::empty()
    } else {
        let last = s.last();
        spec_alias_ctors(s.drop_last(), env) + if last.alias_of is Some && !last.has_predicates {
            if last.fields@.len() == 0 {
                seq![(last.name@, seq![spec_env_lookup(env, last.alias_of->0@)->0], true)]
            } else {
                seq![(last.name@, spec_field_tys(last), false)]
            }
        } else {
            Seq::empty()
        }
    }
}

/// All the constructors, structs first, then aliases.
pub open spec fn spec_constructors(reg: StructRegistry, env: Seq<(String, Ty)>) -> Seq<CtorPlan> {
    spec_struct_ctors(reg.structs@) + spec_alias_ctors(reg.structs@, env)
}

/// Every alias without fields that gets a constructor aliases a type that
/// the environment binds.
pub open spec fn spec_alias_targets_bound(reg: StructRegistry, env: Seq<(String, Ty)>) -> bool {
    forall|i: int|
        0 <= i < reg.structs@.len() && (#[trigger] reg.structs@[i]).alias_of is Some && !reg.structs@[i].has_predicates
            && reg.structs@[i].fields@.len() == 0 ==> spec_env_lookup(env, reg.structs@[i].alias_of->0@) is Some
}

/// `p` is the synthetic parameter `__field_<j>` of type `ty`.
pub open spec fn spec_param_pattern(p: Spanned<TypedPattern>, j: int, ty: SpecTy) -> bool {
    &&& p.span == spec_synthetic()
    &&& p.node is Ident
    &&& p.node->Ident_name@ == spec_field_param_name(j)
    &&& p.node->Ident_ty@ == ty
}

/// `v` reads the parameter `__field_<j>` of type `ty`.
pub open spec fn spec_param_value(v: Spanned<TypedExpr>, j: int, ty: SpecTy) -> bool {
    &&& v.span == spec_synthetic()
    &&& v.node.span == spec_synthetic()
    &&& v.node.ty@ == ty
    &&& !v.node.tail_pos
    &&& v.node.escape == EscapeTarget::Local
    &&& v.node.kind is Ident
    &&& v.node.kind->Ident_name@ == spec_field_param_name(j)
}

/// The type of the values a constructor of `name` builds.
pub open spec fn spec_ctor_ret(name: Seq<char>) -> SpecTy {
    SpecTy::Struct(SpecStructKey::Plain(name))
}

/// `f` is the constructor `c`: one clause, no guard, one parameter per
/// parameter type, and a body in tail position, escaping to the caller,
/// that is the parameter (identity) or builds the struct from the
/// parameters in order.
pub open spec fn spec_is_constructor(f: TypedFunction, c: CtorPlan) -> bool {
    let (name, params, identity) = c;
    &&& f.name@ == name
    &&& tys_view(f.param_types@) == params
    &&& f.ret_ty@ == spec_ctor_ret(name)
    &&& f.clauses@.len() == 1
    &&& {
        let cl = f.clauses@[0];
        &&& cl.guards@.len() == 0
        &&& cl.patterns@.len() == params.len()
        &&& forall|j: int| 0 <= j < params.len() ==> spec_param_pattern(#[trigger] cl.patterns@[j], j, params[j])
        &&& cl.body.span == spec_synthetic()
        &&& cl.body.node.span == spec_synthetic()
        &&& cl.body.node.ty@ == spec_ctor_ret(name)
        &&& cl.body.node.tail_pos
        &&& cl.body.node.escape == EscapeTarget::Caller
        &&& if identity {
            &&& cl.body.node.kind is Ident
            &&& cl.body.node.kind->Ident_name@ == spec_field_param_name(0)
        } else {
            &&& cl.body.node.kind is StructConstruct
            &&& cl.body.node.kind->StructConstruct_struct_name@ == name
            &&& cl.body.node.kind->StructConstruct_values@.len() == params.len()
            &&& forall|j: int|
                0 <= j < params.len() ==> spec_param_value(
                    #[trigger] cl.body.node.kind->StructConstruct_values@[j],
                    j,
                    params[j],
                )
        }
    }
}

/// `o` is the overload of the constructor `c`: a pure function of the
/// Kata program, neither generic nor foreign, marked as a constructor.
pub open spec fn spec_is_ctor_overload(o: OverloadInfo, c: CtorPlan) -> bool {
    &&& o.name@ == c.0
    &&& tys_view(o.params@) == c.1
    &&& o.ret@ == spec_ctor_ret(c.0)
    &&& o.ffi_symbol is None
    &&& !o.is_action
    &&& !o.is_generic
    &&& o.is_constructor
}

fn field_param_name(i: usize) -> (r: String)
    ensures
        r@ == spec_field_param_name(i as int),
{
    let mut r = owned("__field_");
    push_decimal(&mut r, i as u64);
    r
}

/// The constructor `name` with parameters of types `params`.
fn constructor_function(name: &String, params: &Vec<Ty>, identity: bool) -> (r: TypedFunction)
    requires
        identity ==> params@.len() == 1,
    ensures
        spec_is_constructor(r, (name@, tys_view(params@), identity)),
{
    let synthetic = Span::synthetic();
    let mut patterns: Vec<Spanned<TypedPattern>> = Vec::new();
    let mut values: Vec<Spanned<TypedExpr>> = Vec::new();
    let mut j: usize = 0;
    while j < params.len()
        invariant
            j <= params@.len(),
            synthetic == spec_synthetic(),
            patterns@.len() == j,
            values@.len() == j,
            forall|k: int| 0 <= k < j ==> spec_param_pattern(#[trigger] patterns@[k], k, tys_view(params@)[k]),
            forall|k: int| 0 <= k < j ==> spec_param_value(#[trigger] values@[k], k, tys_view(params@)[k]),
        decreases params@.len() - j,
    {
        patterns.push(Spanned::new(TypedPattern::Ident { name: field_param_name(j), ty: ty_clone(&params[j]) }, synthetic));
        values.push(
            Spanned::new(
                TypedExpr {
                    span: synthetic,
                    ty: ty_clone(&params[j]),
                    tail_pos: false,
                    escape: EscapeTarget::Local,
                    kind: TypedExprKind::Ident { name: field_param_name(j) },
                },
                synthetic,
            ),
        );
        j += 1;
    }
    let ret = Ty::Struct(StructKey::Plain(string_clone(name)));
    proof {
        crate::ty::lemma_ty_view(ret);
    }
    let kind = if identity {
        TypedExprKind::Ident { name: field_param_name(0) }
    } else {
        TypedExprKind::StructConstruct { struct_name: string_clone(name), values }
    };
    let body = TypedExpr { span: synthetic, ty: ty_clone(&ret), tail_pos: true, escape: EscapeTarget::Caller, kind };
    let mut clauses: Vec<TypedLambdaClause> = Vec::new();
    clauses.push(TypedLambdaClause { patterns, body: Spanned::new(body, synthetic), guards: Vec::new() });
    let r = TypedFunction { name: string_clone(name), param_types: crate::ty::tys_clone(params), ret_ty: ret, clauses };
    r
}

/// The dispatch-table overload of the constructor `name`.
fn constructor_overload(name: &String, params: &Vec<Ty>) -> (r: OverloadInfo)
    ensures
        spec_is_ctor_overload(r, (name@, tys_view(params@), false)),
{
    let ret = Ty::Struct(StructKey::Plain(string_clone(name)));
    proof {
        crate::ty::lemma_ty_view(ret);
    }
    OverloadInfo {
        name: string_clone(name),
        params: crate::ty::tys_clone(params),
        ret,
        ffi_symbol: None,
        is_action: false,
        is_generic: false,
        is_constructor: true,
    }
}

/// The type that the latest binding of `name` in `env` gives.
fn env_lookup(env: &Vec<(String, Ty)>, name: &String) -> (r: Option<Ty>)
    ensures
        r matches Some(t) ==> spec_env_lookup(env@, name@) == Some(t@),
        r is None ==> spec_env_lookup(env@, name@) is None,
{
    let mut i: usize = env.len();
    assert(env@.take(i as int) =~= env@);
    while i > 0
        invariant
            i <= env@.len(),
            spec_env_lookup(env@.take(i as int), name@) == spec_env_lookup(env@, name@),
        decreases i,
    {
        assert(env@.take(i as int).drop_last() =~= env@.take(i - 1));
        if env[i - 1].0 == *name {
            return Some(ty_clone(&env[i - 1].1));
        }
        i -= 1;
    }
    None
}

/// Appends the constructor `c` to `out` and its overload to `table`.
fn add_constructor(
    name: &String,
    params: &Vec<Ty>,
    identity: bool,
    out: &mut Vec<TypedFunction>,
    table: &mut Vec<OverloadInfo>,
)
    requires
        identity ==> params@.len() == 1,
    ensures
        final(out)@ == old(out)@.push(final(out)@.last()),
        spec_is_constructor(final(out)@.last(), (name@, tys_view(params@), identity)),
        final(table)@ == old(table)@.push(final(table)@.last()),
        spec_is_ctor_overload(final(table)@.last(), (name@, tys_view(params@), identity)),
{
    table.push(constructor_overload(name, params));
    out.push(constructor_function(name, params, identity));
}

/// `out` holds the constructors `done`, and `table` holds the entries of
/// `old_table` followed by the overloads of `done`.
pub open spec fn spec_ctors_added(
    out: Seq<TypedFunction>,
    table: Seq<OverloadInfo>,
    old_table: Seq<OverloadInfo>,
    done: Seq<CtorPlan>,
) -> bool {
    &&& out.len() == done.len()
    &&& forall|k: int| 0 <= k < done.len() ==> spec_is_constructor(#[trigger] out[k], done[k])
    &&& table.len() == old_table.len() + done.len()
    &&& forall|k: int| 0 <= k < old_table.len() ==> #[trigger] table[k] == old_table[k]
    &&& forall|k: int| 0 <= k < done.len() ==> spec_is_ctor_overload(#[trigger] table[old_table.len() + k], done[k])
}

/// Synthesises the smart constructors of the registry (see
/// [`spec_constructors`]), appends their overloads to the dispatch table
/// `table` in the same order, and returns them. `type_env` binds type
/// names to types; an alias without fields is a constructor from the type
/// it aliases, which must be bound there.
pub fn synthesize_constructors(
    registry: &StructRegistry,
    type_env: &Vec<(String, Ty)>,
    table: &mut Vec<OverloadInfo>,
) -> (r: Vec<TypedFunction>)
    requires
        spec_alias_targets_bound(*registry, type_env@),
    ensures
        spec_ctors_added(r@, final(table)@, old(table)@, spec_constructors(*registry, type_env@)),
{
    let ghost structs = registry.structs@;
    let mut out: Vec<TypedFunction> = Vec::new();
    let mut i: usize = 0;
    while i < registry.structs.len()
        invariant
            structs == registry.structs@,
            i <= structs.len(),
            spec_ctors_added(out@, table@, old(table)@, spec_struct_ctors(structs.take(i as int))),
        decreases structs.len() - i,
    {
        assert(structs.take(i + 1).drop_last() =~= structs.take(i as int));
        assert(structs.take(i + 1).last() == structs[i as int]);
        let info = &registry.structs[i];
        if info.alias_of.is_none() && info.fields.len() > 0 {
            let params = crate::ascription::field_tys(info);
            let ghost before = out@;
            let ghost tbefore = table@;
            add_constructor(&info.name, &params, false, &mut out, table);
            let ghost done = spec_struct_ctors(structs.take(i + 1));
            assert(done == spec_struct_ctors(structs.take(i as int)).push((info.name@, spec_field_tys(*info), false)));
            assert forall|k: int| 0 <= k < done.len() implies spec_is_constructor(#[trigger] out@[k], done[k]) by {
                if k < done.len() - 1 {
                    assert(out@[k] == before[k]);
                }
            }
            assert forall|k: int| 0 <= k < done.len() implies spec_is_ctor_overload(
                #[trigger] table@[old(table)@.len() + k],
                done[k],
            ) by {
                if k < done.len() - 1 {
                    assert(table@[old(table)@.len() + k] == tbefore[old(table)@.len() + k]);
                }
            }
            assert forall|k: int| 0 <= k < old(table)@.len() implies #[trigger] table@[k] == old(table)@[k] by {
                assert(table@[k] == tbefore[k]);
            }
        } else {
            assert(spec_struct_ctors(structs.take(i + 1)) =~= spec_struct_ctors(structs.take(i as int)));
        }
        i += 1;
    }
    assert(structs.take(structs.len() as int) =~= structs);
    let ghost first = spec_struct_ctors(structs);
    let mut i: usize = 0;
    while i < registry.structs.len()
        invariant
            structs == registry.structs@,
            first == spec_struct_ctors(structs),
            spec_alias_targets_bound(*registry, type_env@),
            i <= structs.len(),
            spec_ctors_added(out@, table@, old(table)@, first + spec_alias_ctors(structs.take(i as int), type_env@)),
        decreases structs.len() - i,
    {
        assert(structs.take(i + 1).drop_last() =~= structs.take(i as int));
        assert(structs.take(i + 1).last() == structs[i as int]);
        let info = &registry.structs[i];
        let ghost prev = first + spec_alias_ctors(structs.take(i as int), type_env@);
        let ghost done = first + spec_alias_ctors(structs.take(i + 1), type_env@);
        match &info.alias_of {
            Some(target) => {
                if !info.has_predicates {
                    let ghost before = out@;
                    let ghost tbefore = table@;
                    if info.fields.len() == 0 {
                        let target_ty = match env_lookup(type_env, target) {
                            Some(t) => t,
                            None => {
                                assert(false);
                                Ty::Unit
                            },
                        };
                        let mut params: Vec<Ty> = Vec::new();
                        params.push(target_ty);
                        assert(tys_view(params@) =~= seq![spec_env_lookup(type_env@, target@)->0]);
                        add_constructor(&info.name, &params, true, &mut out, table);
                        assert(done =~= prev.push((info.name@, seq![spec_env_lookup(type_env@, target@)->0], true)));
                    } else {
                        let params = crate::ascription::field_tys(info);
                        add_constructor(&info.name, &params, false, &mut out, table);
                        assert(done =~= prev.push((info.name@, spec_field_tys(*info), false)));
                    }
                    assert forall|k: int| 0 <= k < done.len() implies spec_is_constructor(#[trigger] out@[k], done[k]) by {
                        if k < done.len() - 1 {
                            assert(out@[k] == before[k]);
                        }
                    }
                    assert forall|k: int| 0 <= k < done.len() implies spec_is_ctor_overload(
                        #[trigger] table@[old(table)@.len() + k],
                        done[k],
                    ) by {
                        if k < done.len() - 1 {
                            assert(table@[old(table)@.len() + k] == tbefore[old(table)@.len() + k]);
                        }
                    }
                    assert forall|k: int| 0 <= k < old(table)@.len() implies #[trigger] table@[k] == old(table)@[k] by {
                        assert(table@[k] == tbefore[k]);
                    }
                } else {
                    assert(done =~= prev);
                }
            },
            None => {
                assert(done =~= prev);
            },
        }
        i += 1;
    }
    assert(structs.take(structs.len() as int) =~= structs);
    out
}

/// A registered entry that gets a constructor: a struct with fields that is
/// no alias, or an alias that is not refined.
pub open spec fn spec_gets_constructor(info: StructInfo) -> bool {
    ||| info.alias_of is None && info.fields@.len() > 0
    ||| info.alias_of is Some && !info.has_predicates
}

proof fn lemma_struct_ctors_from(s: Seq<StructInfo>, k: int)
    requires
        0 <= k < spec_struct_ctors(s).len(),
    ensures
        exists|i: int| 0 <= i < s.len() && #[trigger] s[i].name@ == spec_struct_ctors(s)[k].0 && spec_gets_constructor(s[i]),
    decreases s.len(),
{
    let p = s.drop_last();
    if k < spec_struct_ctors(p).len() {
        lemma_struct_ctors_from(p, k);
        let i = choose|i: int| 0 <= i < p.len() && #[trigger] p[i].name@ == spec_struct_ctors(p)[k].0 && spec_gets_constructor(p[i]);
        assert(s[i] == p[i]);
    } else {
        assert(s[s.len() - 1] == s.last());
    }
}

proof fn lemma_alias_ctors_from(s: Seq<StructInfo>, env: Seq<(String, Ty)>, k: int)
    requires
        0 <= k < spec_alias_ctors(s, env).len(),
    ensures
        exists|i: int| 0 <= i < s.len() && #[trigger] s[i].name@ == spec_alias_ctors(s, env)[k].0 && spec_gets_constructor(s[i]),
    decreases s.len(),
{
    let p = s.drop_last();
    if k < spec_alias_ctors(p, env).len() {
        lemma_alias_ctors_from(p, env, k);
        let i = choose|i: int| 0 <= i < p.len() && #[trigger] p[i].name@ == spec_alias_ctors(p, env)[k].0 && spec_gets_constructor(p[i]);
        assert(s[i] == p[i]);
    } else {
        assert(s[s.len() - 1] == s.last());
    }
}

/// Every constructor is named after a registered entry that gets one: a
/// struct without fields (an opaque type) and a refined type get none.
pub proof fn law_constructors_come_from_registry(reg: StructRegistry, env: Seq<(String, Ty)>, k: int)
    requires
        0 <= k < spec_constructors(reg, env).len(),
    ensures
        exists|i: int|
            0 <= i < reg.structs@.len() && #[trigger] reg.structs@[i].name@ == spec_constructors(reg, env)[k].0
                && spec_gets_constructor(reg.structs@[i]),
{
    let s = reg.structs@;
    let n = spec_struct_ctors(s).len();
    if k < n {
        lemma_struct_ctors_from(s, k);
    } else {
        lemma_alias_ctors_from(s, env, k - n);
    }
}

} // verus!
