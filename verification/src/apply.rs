//! Prefix application `callee args`: what the callee is (an inline lambda,
//! a qualified variant, an ascribed lambda, a name, a function of an
//! imported module), the names that inference builds itself, and a call
//! through a local variable of function type.

use vstd::prelude::*;

use crate::ast::{Expr, SpecDotIndex, SpecExpr, Span, Spanned};
use crate::constructors::OverloadInfo;
use crate::expr_utils::{peel_grouping_expr, spec_peel_grouping_expr};
use crate::module_checks::spec_table_has;
use crate::tast::{TypedExpr, TypedExprKind};
use crate::text::{contains_name, names_view, owned, push_str};
use crate::ty::{string_clone, ty_clone, ty_eq, tys_clone, tys_view, SpecTy, Ty};
use crate::tyops::{fits_return, spec_fits_return, EscapeTarget};

verus! {

/// What the callee of an application is.
pub enum ApplyCallee {
    /// A lambda written in place, parentheses aside.
    InlineLambda,
    /// A qualified variant `Enum::Variant`, applied to its payload.
    VariantConstruct,
    /// A lambda with a type ascription, whose type gives the parameters.
    AscribedLambda,
    /// A name, looked up by dispatch; `mod.f` of an imported module is the
    /// qualified name `mod.f`.
    Named(String),
}

/// Mathematical counterpart of [`ApplyCallee`].
pub enum SpecApplyCallee {
    InlineLambda,
    VariantConstruct,
    AscribedLambda,
    Named(Seq<char>),
}

/// Why an application is refused.
pub enum ApplyError {
    /// The callee names nothing that can be called.
    UnboundName { name: String, span: Span },
    /// A function value called with another number of arguments.
    ArityMismatch { expected: usize, found: usize, span: Span },
    /// A function value called with an argument of another type.
    TypeMismatch { expected: Ty, found: Ty, span: Span },
    /// No overload of `name` with as many parameters as arguments returns
    /// a type that fits the expected type `hint`.
    NoReturnFit { name: String, hint: Ty, span: Span },
}

/// The qualified name `m.f`.
pub open spec fn spec_qualified(m: Seq<char>, f: Seq<char>) -> Seq<char> {
    m + "."@ + f
}

/// What the callee `c` is, given the local variables `locals` and the
/// dispatch table `table`: `Ok` with the kind (and the name called), or
/// `Err` with the name reported as unbound.
pub open spec fn spec_apply_callee(c: SpecExpr, locals: Seq<Seq<char>>, table: Seq<OverloadInfo>) -> Result<
    SpecApplyCallee,
    Seq<char>,
> {
    match spec_peel_grouping_expr(c) {
        SpecExpr::Lambda { .. } => Ok(SpecApplyCallee::InlineLambda),
        SpecExpr::VariantQual { .. } => Ok(SpecApplyCallee::VariantConstruct),
        SpecExpr::TypeAscription { expr, .. } if spec_peel_grouping_expr(expr.node) is Lambda => Ok(
            SpecApplyCallee::AscribedLambda,
        ),
        SpecExpr::Ident { name } => Ok(SpecApplyCallee::Named(name)),
        SpecExpr::DotAccess { expr, index: SpecDotIndex::Field(f) } => match expr.node {
            SpecExpr::Ident { name: m } => if locals.contains(m) {
                Err("<non-ident callee>"@)
            } else if spec_table_has(table, spec_qualified(m, f)) {
                Ok(SpecApplyCallee::Named(spec_qualified(m, f)))
            } else {
                Err("`"@ + spec_qualified(m, f) + "` não encontrado no DispatchTable"@)
            },
            _ => Err("<non-ident callee>"@),
        },
        _ => Err("<non-ident callee>"@),
    }
}

impl ApplyCallee {
    /// The callee's mathematical form.
    pub open spec fn spec_kind(&self) -> SpecApplyCallee {
        match self {
            ApplyCallee::InlineLambda => SpecApplyCallee::InlineLambda,
            ApplyCallee::VariantConstruct => SpecApplyCallee::VariantConstruct,
            ApplyCallee::AscribedLambda => SpecApplyCallee::AscribedLambda,
            ApplyCallee::Named(n) => SpecApplyCallee::Named(n@),
        }
    }
}

fn table_has_name(table: &Vec<OverloadInfo>, name: &String) -> (r: bool)
    ensures
        r == spec_table_has(table@, name@),
{
    let mut i: usize = 0;
    while i < table.len()
        invariant
            i <= table@.len(),
            forall|k: int| 0 <= k < i ==> (#[trigger] table@[k]).name@ != name@,
        decreases table@.len() - i,
    {
        if table[i].name == *name {
            return true;
        }
        i += 1;
    }
    false
}

/// What the callee of `callee args` is (see [`spec_apply_callee`]):
/// `locals` are the names of the local variables, `table` the dispatch
/// table. A callee that names nothing callable is refused at its span.
pub fn apply_callee(callee: &Spanned<Expr>, locals: &Vec<String>, table: &Vec<OverloadInfo>) -> (r: Result<
    ApplyCallee,
    ApplyError,
>)
    ensures
        spec_apply_callee(callee@.node, names_view(locals@), table@) matches Ok(k) ==> (r matches Ok(c) && c.spec_kind() == k),
        spec_apply_callee(callee@.node, names_view(locals@), table@) matches Err(n) ==> (r matches Err(ApplyError::UnboundName { name, span })
            && name@ == n && span == callee.span),
{
    let core = peel_grouping_expr(&callee.node);
    match core {
        Expr::Lambda { .. } => Ok(ApplyCallee::InlineLambda),
        Expr::VariantQual { .. } => Ok(ApplyCallee::VariantConstruct),
        Expr::Ident { name } => Ok(ApplyCallee::Named(string_clone(name))),
        Expr::TypeAscription { expr, .. } => {
            proof {
                assert(crate::ast::sexpr_view(**expr).node == crate::ast::expr_view(expr.node));
            }
            match peel_grouping_expr(&expr.node) {
                Expr::Lambda { .. } => Ok(ApplyCallee::AscribedLambda),
                _ => Err(ApplyError::UnboundName { name: owned("<non-ident callee>"), span: callee.span }),
            }
        },
        Expr::DotAccess { expr, index } => {
            proof {
                assert(crate::ast::sexpr_view(**expr).node == crate::ast::expr_view(expr.node));
            }
            match (&expr.node, index) {
                (Expr::Ident { name: m }, crate::ast::DotIndex::Field(f)) => {
                    if contains_name(locals.as_slice(), m) {
                        return Err(ApplyError::UnboundName { name: owned("<non-ident callee>"), span: callee.span });
                    }
                    let mut q = string_clone(m);
                    push_str(&mut q, ".");
                    push_str(&mut q, f.as_str());
                    if table_has_name(table, &q) {
                        Ok(ApplyCallee::Named(q))
                    } else {
                        let mut msg = owned("`");
                        push_str(&mut msg, q.as_str());
                        push_str(&mut msg, "` não encontrado no DispatchTable");
                        Err(ApplyError::UnboundName { name: msg, span: callee.span })
                    }
                },
                _ => Err(ApplyError::UnboundName { name: owned("<non-ident callee>"), span: callee.span }),
            }
        },
        _ => Err(ApplyError::UnboundName { name: owned("<non-ident callee>"), span: callee.span }),
    }
}

/// The applications that inference builds itself, by name and number of
/// arguments, before any dispatch.
#[derive(Clone, Copy, Debug, PartialEq, Eq, Structural)]
pub enum ApplyBuiltin {
    /// `format template args`.
    Format,
    /// `map f xs`.
    MapEach,
    /// `filter p xs`.
    Filter,
    /// `fold f init xs`.
    Fold,
}

/// The built-in that `name` applied to `n` arguments is, if any.
pub open spec fn spec_apply_builtin(name: Seq<char>, n: nat) -> Option<ApplyBuiltin> {
    if name == "format"@ && n == 2 {
        Some(ApplyBuiltin::Format)
    } else if name == "map"@ && n == 2 {
        Some(ApplyBuiltin::MapEach)
    } else if name == "filter"@ && n == 2 {
        Some(ApplyBuiltin::Filter)
    } else if name == "fold"@ && n == 3 {
        Some(ApplyBuiltin::Fold)
    } else {
        None
    }
}

/// The built-in that `name` applied to `n` arguments is, if any.
pub fn apply_builtin(name: &str, n: usize) -> (r: Option<ApplyBuiltin>)
    ensures
        r == spec_apply_builtin(name@, n as nat),
{
    let name = owned(name);
    if name == owned("format") && n == 2 {
        Some(ApplyBuiltin::Format)
    } else if name == owned("map") && n == 2 {
        Some(ApplyBuiltin::MapEach)
    } else if name == owned("filter") && n == 2 {
        Some(ApplyBuiltin::Filter)
    } else if name == owned("fold") && n == 3 {
        Some(ApplyBuiltin::Fold)
    } else {
        None
    }
}

/// The position of the first argument whose type differs from its
/// parameter's, if any.
pub open spec fn spec_first_mismatch(params: Seq<SpecTy>, args: Seq<Spanned<TypedExpr>>) -> Option<int> {
    if exists|i: int| 0 <= i < args.len() && #[trigger] args[i].node.ty@ != params[i] {
        Some(choose|i: int| 0 <= i < args.len() && args[i].node.ty@ != params[i] && forall|j: int| 0 <= j < i ==> #[trigger] args[j].node.ty@ == params[j])
    } else {
        None
    }
}

/// `kind` calls the local function `name` (its callee typed with the
/// function type and spanning `callee_span`) on `args`.
pub open spec fn spec_indirect_call(
    kind: TypedExprKind,
    name: Seq<char>,
    callee_span: Span,
    params: Seq<SpecTy>,
    ret: SpecTy,
    args: Seq<Spanned<TypedExpr>>,
) -> bool {
    kind matches TypedExprKind::Closure { callee, args: a, ffi_symbol } && ffi_symbol is None && a@ == args
        && callee.span == callee_span && callee.node.span == callee_span && !callee.node.tail_pos
        && callee.node.escape == EscapeTarget::Local && callee.node.ty@ == SpecTy::Function(params, Box::new(ret))
        && callee.node.kind is Ident && callee.node.kind->Ident_name@ == name
}

/// `name args`, where `name` is a local variable of function type
/// `params => ret` and `args` are the typed arguments: the number of
/// arguments must be that of the parameters (else refused at `span`), and
/// each argument's type its parameter's (else the first that differs is
/// refused at its span). The call's type is `ret`.
pub fn indirect_function_call(
    name: &String,
    callee_span: Span,
    params: &Vec<Ty>,
    ret: &Ty,
    args: Vec<Spanned<TypedExpr>>,
    span: Span,
) -> (r: Result<(Ty, TypedExprKind), ApplyError>)
    ensures
        args@.len() != params@.len() ==> (r matches Err(ApplyError::ArityMismatch { expected, found, span: s })
            && expected == params@.len() && found == args@.len() && s == span),
        args@.len() == params@.len() && spec_first_mismatch(tys_view(params@), args@) is Some ==> (r matches Err(
            ApplyError::TypeMismatch { expected, found, span: s },
        ) && expected@ == params@[spec_first_mismatch(tys_view(params@), args@)->0]@
            && found@ == args@[spec_first_mismatch(tys_view(params@), args@)->0].node.ty@
            && s == args@[spec_first_mismatch(tys_view(params@), args@)->0].span),
        args@.len() == params@.len() && spec_first_mismatch(tys_view(params@), args@) is None ==> (r matches Ok((t, kind))
            && t@ == ret@ && spec_indirect_call(kind, name@, callee_span, tys_view(params@), ret@, args@)),
{
    if args.len() != params.len() {
        return Err(ApplyError::ArityMismatch { expected: params.len(), found: args.len(), span });
    }
    let mut i: usize = 0;
    while i < args.len()
        invariant
            args@.len() == params@.len(),
            i <= args@.len(),
            forall|j: int| 0 <= j < i ==> #[trigger] args@[j].node.ty@ == tys_view(params@)[j],
        decreases args@.len() - i,
    {
        if !ty_eq(&args[i].node.ty, &params[i]) {
            let ghost k = i as int;
            assert(args@[k].node.ty@ != tys_view(params@)[k]);
            assert(spec_first_mismatch(tys_view(params@), args@) == Some(k)) by {
                let c = choose|c: int| 0 <= c < args@.len() && args@[c].node.ty@ != tys_view(params@)[c] && forall|j: int| 0 <= j < c ==> #[trigger] args@[j].node.ty@ == tys_view(params@)[j];
                if c < k {
                } else if c > k {
                    assert(args@[k].node.ty@ == tys_view(params@)[k]);
                }
            }
            return Err(ApplyError::TypeMismatch { expected: ty_clone(&params[i]), found: ty_clone(&args[i].node.ty), span: args[i].span });
        }
        i += 1;
    }
    assert(spec_first_mismatch(tys_view(params@), args@) is None);
    let callee = TypedExpr {
        span: callee_span,
        ty: Ty::Function(tys_clone(params), Box::new(ty_clone(ret))),
        tail_pos: false,
        escape: EscapeTarget::Local,
        kind: TypedExprKind::Ident { name: string_clone(name) },
    };
    proof {
        crate::ty::lemma_ty_view(callee.ty);
    }
    Ok((ty_clone(ret), TypedExprKind::Closure { callee: Box::new(Spanned::new(callee, callee_span)), args, ffi_symbol: None }))
}

// ── return-directed dispatch ────────────────────────────────────────

/// Overload `o` is a candidate for `name` applied to `n` arguments where
/// the result must fit `hint`.
pub open spec fn spec_return_fits(o: OverloadInfo, name: Seq<char>, n: nat, hint: SpecTy) -> bool {
    o.name@ == name && o.params@.len() == n && spec_fits_return(o.ret@, hint)
}

/// The positions in `table`, in order, of the candidates for `name`
/// applied to `n` arguments where the result must fit `hint`.
pub open spec fn spec_return_fit_positions(table: Seq<OverloadInfo>, name: Seq<char>, n: nat, hint: SpecTy) -> Seq<int>
    decreases table.len(),
{
    if table.len() == 0 {
        Seq::empty()
    } else {
        spec_return_fit_positions(table.drop_last(), name, n, hint) + if spec_return_fits(table.last(), name, n, hint) {
            seq![table.len() - 1]
        } else {
            Seq::empty()
        }
    }
}

/// The first step of dispatch through the table when the expected type
/// `hint` of the result is known: `None` where the table holds no
/// function `name` (the caller then looks among the local variables);
/// else the positions in `table`, in order, of the overloads of `name`
/// with `n` parameters whose return type fits `hint`, which must not be
/// empty (else refused at `span`). Scoring the arguments against them is
/// the next step.
pub fn return_fit_overloads(name: &String, table: &Vec<OverloadInfo>, n: usize, hint: &Ty, span: Span) -> (r: Option<
    Result<Vec<usize>, ApplyError>,
>)
    ensures
        !spec_table_has(table@, name@) ==> r is None,
        spec_table_has(table@, name@) && spec_return_fit_positions(table@, name@, n as nat, hint@).len() == 0 ==> (r matches Some(
            Err(ApplyError::NoReturnFit { name: m, hint: h, span: s }),
        ) && m@ == name@ && h@ == hint@ && s == span),
        spec_table_has(table@, name@) && spec_return_fit_positions(table@, name@, n as nat, hint@).len() > 0 ==> (r matches Some(Ok(ps))
            && ps@.len() == spec_return_fit_positions(table@, name@, n as nat, hint@).len()
            && forall|k: int| 0 <= k < ps@.len() ==> #[trigger] ps@[k] as int == spec_return_fit_positions(
                table@,
                name@,
                n as nat,
                hint@,
            )[k]),
{
    if !table_has_name(table, name) {
        return None;
    }
    let mut ps: Vec<usize> = Vec::new();
    let mut i: usize = 0;
    while i < table.len()
        invariant
            i <= table@.len(),
            ps@.len() == spec_return_fit_positions(table@.take(i as int), name@, n as nat, hint@).len(),
            forall|k: int| 0 <= k < ps@.len() ==> #[trigger] ps@[k] as int == spec_return_fit_positions(
                table@.take(i as int),
                name@,
                n as nat,
                hint@,
            )[k],
        decreases table@.len() - i,
    {
        assert(table@.take(i + 1).drop_last() =~= table@.take(i as int));
        assert(table@.take(i + 1).last() == table@[i as int]);
        let o = &table[i];
        if o.name == *name && o.params.len() == n && fits_return(&o.ret, hint) {
            ps.push(i);
        }
        i += 1;
    }
    assert(table@.take(table@.len() as int) =~= table@);
    if ps.len() == 0 {
        Some(Err(ApplyError::NoReturnFit { name: string_clone(name), hint: ty_clone(hint), span }))
    } else {
        Some(Ok(ps))
    }
}

} // verus!
