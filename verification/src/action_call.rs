//! `callee!(args)`: which path an action call takes (a built-in, a local
//! receiver factory, a local overload set, a local action, or the dispatch
//! table), the shape its arguments are handed on in, and the typed call
//! once the dispatch table has resolved it.

use vstd::prelude::*;

use crate::ascription::spec_element_tys;
use crate::ast::{Expr, Span, Spanned};
use crate::const_eval::TypeMismatch;
use crate::expr_utils::{describe_expr, spec_describe_expr};
use crate::tast::{TypedExpr, TypedExprKind};
use crate::text::{owned, push_str};
use crate::ty::{string_clone, ty_clone, tys_view, SpecTy, Ty};
use crate::tyops::EscapeTarget;

verus! {

// ── routing ─────────────────────────────────────────────────────────

/// The actions that inference handles itself, before the dispatch table.
#[derive(Clone, Copy, Debug, PartialEq, Eq, Structural)]
pub enum ActionBuiltin {
    Assert,
    Channel,
    Queue,
    Broadcast,
    Fork,
    Spawn,
    Log,
    LogRecv,
    LogConfig,
    Now,
}

/// The built-in an action name calls, if any.
pub open spec fn spec_action_builtin(callee: Seq<char>) -> Option<ActionBuiltin> {
    if callee == "assert"@ {
        Some(ActionBuiltin::Assert)
    } else if callee == "channel"@ {
        Some(ActionBuiltin::Channel)
    } else if callee == "queue"@ {
        Some(ActionBuiltin::Queue)
    } else if callee == "broadcast"@ {
        Some(ActionBuiltin::Broadcast)
    } else if callee == "fork"@ {
        Some(ActionBuiltin::Fork)
    } else if callee == "spawn"@ {
        Some(ActionBuiltin::Spawn)
    } else if callee == "log"@ {
        Some(ActionBuiltin::Log)
    } else if callee == "log_recv"@ {
        Some(ActionBuiltin::LogRecv)
    } else if callee == "log_config"@ {
        Some(ActionBuiltin::LogConfig)
    } else if callee == "now"@ {
        Some(ActionBuiltin::Now)
    } else {
        None
    }
}

/// The path an action call takes.
#[derive(Clone, Copy, Debug, PartialEq, Eq, Structural)]
pub enum ActionRoute {
    /// A built-in.
    Builtin(ActionBuiltin),
    /// A local variable holding a receiver factory.
    ReceiverFactory,
    /// A local variable holding an overload set, dispatched on the arguments.
    OverloadSet,
    /// A local variable holding an action, called indirectly.
    IndirectAction,
    /// The dispatch table.
    Table,
}

/// The path of `callee!(..)`: a built-in first; then, for a name that the
/// dispatch table does not hold, the type of the local variable of that
/// name; else the dispatch table.
pub open spec fn spec_action_route(callee: Seq<char>, in_table: bool, local_ty: Option<SpecTy>) -> ActionRoute {
    match spec_action_builtin(callee) {
        Some(b) => ActionRoute::Builtin(b),
        None => if in_table {
            ActionRoute::Table
        } else {
            match local_ty {
                Some(SpecTy::ReceiverFactory(_)) => ActionRoute::ReceiverFactory,
                Some(SpecTy::OverloadSet { .. }) => ActionRoute::OverloadSet,
                Some(SpecTy::Action(_, _)) => ActionRoute::IndirectAction,
                _ => ActionRoute::Table,
            }
        },
    }
}

/// The built-in an action name calls, if any.
pub fn action_builtin(callee: &str) -> (r: Option<ActionBuiltin>)
    ensures
        r == spec_action_builtin(callee@),
{
    let name = owned(callee);
    if name == owned("assert") {
        Some(ActionBuiltin::Assert)
    } else if name == owned("channel") {
        Some(ActionBuiltin::Channel)
    } else if name == owned("queue") {
        Some(ActionBuiltin::Queue)
    } else if name == owned("broadcast") {
        Some(ActionBuiltin::Broadcast)
    } else if name == owned("fork") {
        Some(ActionBuiltin::Fork)
    } else if name == owned("spawn") {
        Some(ActionBuiltin::Spawn)
    } else if name == owned("log") {
        Some(ActionBuiltin::Log)
    } else if name == owned("log_recv") {
        Some(ActionBuiltin::LogRecv)
    } else if name == owned("log_config") {
        Some(ActionBuiltin::LogConfig)
    } else if name == owned("now") {
        Some(ActionBuiltin::Now)
    } else {
        None
    }
}

/// The path of `callee!(..)`, where `in_table` says whether the dispatch
/// table holds a function of that name and `local_ty` is the type of the
/// local variable of that name, if there is one.
pub fn route_action_call(callee: &str, in_table: bool, local_ty: Option<&Ty>) -> (r: ActionRoute)
    ensures
        r == spec_action_route(
            callee@,
            in_table,
            match local_ty {
                Some(t) => Some(t@),
                None => None,
            },
        ),
{
    match action_builtin(callee) {
        Some(b) => ActionRoute::Builtin(b),
        None => {
            if in_table {
                return ActionRoute::Table;
            }
            match local_ty {
                Some(t) => {
                    proof {
                        crate::ty::lemma_ty_view(*t);
                    }
                    match t {
                        Ty::ReceiverFactory(_) => ActionRoute::ReceiverFactory,
                        Ty::OverloadSet { .. } => ActionRoute::OverloadSet,
                        Ty::Action(_, _) => ActionRoute::IndirectAction,
                        _ => ActionRoute::Table,
                    }
                },
                None => ActionRoute::Table,
            }
        },
    }
}

// ── arguments ───────────────────────────────────────────────────────

/// `r` is the argument expression `a` in the shape an action call hands
/// on: a parenthesised argument becomes a tuple of one; a tuple or `()`
/// stays; any other argument becomes a tuple of one (spanning `args_span`)
/// where `wrap_single` says so, and stays otherwise. The span, tail
/// position and escape are `a`'s.
pub open spec fn spec_normalized_args(r: TypedExpr, a: TypedExpr, args_span: Span, wrap_single: bool) -> bool {
    match a.kind {
        TypedExprKind::Grouping { inner } => {
            &&& r.ty@ == SpecTy::Tuple(seq![inner.node.ty@])
            &&& r.kind matches TypedExprKind::Tuple { elements } && elements@ == seq![*inner]
            &&& r.span == a.span && r.tail_pos == a.tail_pos && r.escape == a.escape
        },
        TypedExprKind::Tuple { .. } | TypedExprKind::Unit => r == a,
        _ => if wrap_single {
            &&& r.ty@ == SpecTy::Tuple(seq![a.ty@])
            &&& r.kind matches TypedExprKind::Tuple { elements } && elements@ == seq![Spanned { node: a, span: args_span }]
            &&& r.span == a.span && r.tail_pos == a.tail_pos && r.escape == a.escape
        } else {
            r == a
        },
    }
}

/// Puts the typed argument of an action call in the shape that code
/// generation unpacks (see [`spec_normalized_args`]): the dispatch-table
/// path wraps only a parenthesised argument, the indirect paths wrap any
/// argument that is not a tuple.
pub fn normalize_action_args(a: TypedExpr, args_span: Span, wrap_single: bool) -> (r: TypedExpr)
    ensures
        spec_normalized_args(r, a, args_span, wrap_single),
{
    let span = a.span;
    let tail_pos = a.tail_pos;
    let escape = a.escape;
    match a.kind {
        TypedExprKind::Grouping { inner } => {
            let ghost g = *inner;
            let mut tys: Vec<Ty> = Vec::new();
            tys.push(ty_clone(&inner.node.ty));
            assert(tys_view(tys@) =~= seq![g.node.ty@]);
            let mut elements: Vec<Spanned<TypedExpr>> = Vec::new();
            elements.push(*inner);
            assert(elements@ =~= seq![g]);
            TypedExpr { ty: Ty::Tuple(tys), kind: TypedExprKind::Tuple { elements }, span, tail_pos, escape }
        },
        TypedExprKind::Tuple { elements } => TypedExpr { kind: TypedExprKind::Tuple { elements }, ..a },
        TypedExprKind::Unit => TypedExpr { kind: TypedExprKind::Unit, ..a },
        kind => {
            let a = TypedExpr { kind, ..a };
            if !wrap_single {
                return a;
            }
            let ghost old_a = a;
            let mut tys: Vec<Ty> = Vec::new();
            tys.push(ty_clone(&a.ty));
            assert(tys_view(tys@) =~= seq![old_a.ty@]);
            let mut elements: Vec<Spanned<TypedExpr>> = Vec::new();
            elements.push(Spanned::new(a, args_span));
            assert(elements@ =~= seq![Spanned { node: old_a, span: args_span }]);
            TypedExpr { ty: Ty::Tuple(tys), kind: TypedExprKind::Tuple { elements }, span, tail_pos, escape }
        },
    }
}

/// The types of the arguments that an action call dispatches on: the
/// element types of a tuple, none for `()`, else the argument's type.
pub open spec fn spec_action_arg_tys(a: TypedExpr) -> Seq<SpecTy> {
    match a.kind {
        TypedExprKind::Tuple { elements } => spec_element_tys(elements@),
        TypedExprKind::Unit => Seq::empty(),
        _ => seq![a.ty@],
    }
}

/// The types of the arguments that an action call dispatches on.
pub fn action_arg_tys(a: &TypedExpr) -> (r: Vec<Ty>)
    ensures
        tys_view(r@) == spec_action_arg_tys(*a),
{
    let mut r: Vec<Ty> = Vec::new();
    match &a.kind {
        TypedExprKind::Tuple { elements } => {
            let mut i: usize = 0;
            while i < elements.len()
                invariant
                    i <= elements@.len(),
                    r@.len() == i,
                    forall|j: int| 0 <= j < i ==> #[trigger] r@[j]@ == elements@[j].node.ty@,
                decreases elements@.len() - i,
            {
                r.push(ty_clone(&elements[i].node.ty));
                i += 1;
            }
            assert forall|k: int| 0 <= k < r@.len() implies tys_view(r@)[k] == spec_element_tys(elements@)[k] by {
                assert(r@[k]@ == elements@[k].node.ty@);
            }
            assert(tys_view(r@) =~= spec_element_tys(elements@));
        },
        TypedExprKind::Unit => {
            assert(tys_view(r@) =~= Seq::<SpecTy>::empty());
        },
        _ => {
            r.push(ty_clone(&a.ty));
            assert(tys_view(r@) =~= seq![a.ty@]);
        },
    }
    r
}

// ── the call through the dispatch table ────────────────────────────

/// `a` with the two elements of a pair swapped where the dispatch table
/// resolved the call by swapping a commutative pair; else `a`.
pub open spec fn spec_swapped_args(r: TypedExpr, a: TypedExpr, swapped: bool) -> bool {
    if swapped && a.kind is Tuple && a.kind->Tuple_elements@.len() == 2 {
        let es = a.kind->Tuple_elements@;
        &&& r.kind is Tuple && r.kind->Tuple_elements@ == seq![es[1], es[0]]
        &&& r.ty == a.ty && r.span == a.span && r.tail_pos == a.tail_pos && r.escape == a.escape
    } else {
        r == a
    }
}

fn swap_pair(a: TypedExpr, swapped: bool) -> (r: TypedExpr)
    ensures
        spec_swapped_args(r, a, swapped),
{
    if !swapped {
        return a;
    }
    match a.kind {
        TypedExprKind::Tuple { elements } => {
            if elements.len() != 2 {
                return TypedExpr { kind: TypedExprKind::Tuple { elements }, ..a };
            }
            let ghost es = elements@;
            let mut elements = elements;
            let second = elements.pop().unwrap();
            let first = elements.pop().unwrap();
            let mut out: Vec<Spanned<TypedExpr>> = Vec::new();
            out.push(second);
            out.push(first);
            assert(out@ =~= seq![es[1], es[0]]);
            TypedExpr { kind: TypedExprKind::Tuple { elements: out }, ..a }
        },
        kind => TypedExpr { kind, ..a },
    }
}

/// The error for a pure function called as an action: the text that was
/// expected and the text that was found.
pub open spec fn spec_pure_function_texts(callee: Seq<char>) -> (Seq<char>, Seq<char>) {
    ("Action `"@ + callee + "` (is_action=true)"@, "função pura `"@ + callee + "` — use sem `!`"@)
}

/// `kind` calls the action `callee` directly, with the arguments `args`
/// (spanning `args_span`) as [`spec_swapped_args`] puts them, and the
/// foreign symbol `ffi_symbol`.
pub open spec fn spec_table_action_call(
    kind: TypedExprKind,
    callee: Seq<char>,
    args: TypedExpr,
    args_span: Span,
    swapped: bool,
    ffi_symbol: Option<String>,
) -> bool {
    kind matches TypedExprKind::ActionCall { callee: c, args: a, caller_arena, ffi_symbol: f, indirect_callee }
        && c@ == callee && a.span == args_span && spec_swapped_args(a.node, args, swapped) && caller_arena == 0
        && f == ffi_symbol && indirect_callee is None
}

/// The typed call `callee!(args)` once the dispatch table has resolved it
/// to an overload: `is_action` says whether the overload is an action,
/// `swapped` whether it was found by swapping a commutative pair of
/// arguments, `ret` is its return type with the enum defaults filled in,
/// and `ffi_symbol` its foreign symbol. A pure function called with `!` is
/// refused; else the call's type is `ret`, and its arguments (`args`, put
/// in shape, spanning `args_span`) are swapped back where the overload was
/// found by a swap.
pub fn finish_table_action_call(
    callee: &str,
    args: TypedExpr,
    args_span: Span,
    is_action: bool,
    swapped: bool,
    ret: Ty,
    ffi_symbol: Option<String>,
    span: Span,
) -> (r: Result<(Ty, TypedExprKind), TypeMismatch>)
    ensures
        !is_action ==> (r matches Err(m) && (m.expected@, m.found@) == spec_pure_function_texts(callee@)
            && m.span == span),
        is_action ==> (r matches Ok((ty, kind)) && ty == ret && spec_table_action_call(
            kind,
            callee@,
            args,
            args_span,
            swapped,
            ffi_symbol,
        )),
{
    if !is_action {
        let mut expected = owned("Action `");
        push_str(&mut expected, callee);
        push_str(&mut expected, "` (is_action=true)");
        let mut found = owned("função pura `");
        push_str(&mut found, callee);
        push_str(&mut found, "` — use sem `!`");
        return Err(TypeMismatch { expected, found, span });
    }
    let args = swap_pair(args, swapped);
    Ok((
        ret,
        TypedExprKind::ActionCall {
            callee: owned(callee),
            args: Box::new(Spanned::new(args, args_span)),
            caller_arena: 0,
            ffi_symbol,
            indirect_callee: None,
        },
    ))
}

// ── receiver factories ──────────────────────────────────────────────

/// The text expected of the argument of `rxf!()`.
pub open spec fn spec_factory_args_text() -> Seq<char> {
    "`()` — rxf!() não recebe argumentos"@
}

/// `kind` asks the factory held by the local `callee`, of type
/// `factory_ty`, for a receiver of its element type.
pub open spec fn spec_factory_call(kind: TypedExprKind, callee: Seq<char>, factory_ty: SpecTy, span: Span) -> bool {
    kind matches TypedExprKind::ReceiverFactoryCall { factory, elem_ty } && elem_ty@ == *factory_ty->ReceiverFactory_0
        && factory.span == span && factory.node.span == span && factory.node.ty@ == factory_ty
        && !factory.node.tail_pos && factory.node.escape == EscapeTarget::Local
        && factory.node.kind is Ident && factory.node.kind->Ident_name@ == callee
}

/// `rxf!()`, where `rxf` is a local variable of type `factory_ty`, a
/// receiver factory of some element type: a receiver of that element type,
/// asked of the factory. The call takes no argument: anything but `()` is
/// refused, with the argument shown as found.
pub fn receiver_factory_call(callee: &str, factory_ty: Ty, args: &Spanned<Expr>, span: Span) -> (r: Result<
    TypedExpr,
    TypeMismatch,
>)
    requires
        factory_ty@ is ReceiverFactory,
    ensures
        !(args.node is Unit) ==> (r matches Err(m) && m.expected@ == spec_factory_args_text() && m.found@
            == spec_describe_expr(args@.node) && m.span == args.span),
        args.node is Unit ==> (r matches Ok(te) && te.span == span && te.ty@ == SpecTy::Receiver(factory_ty@->ReceiverFactory_0) && !te.tail_pos && te.escape == EscapeTarget::Local && spec_factory_call(te.kind, callee@, factory_ty@, span)),
{
    match &args.node {
        Expr::Unit => {},
        _ => {
            return Err(TypeMismatch {
                expected: owned("`()` — rxf!() não recebe argumentos"),
                found: describe_expr(&args.node),
                span: args.span,
            });
        },
    }
    proof {
        crate::ty::lemma_ty_view(factory_ty);
    }
    let elem: Ty = match &factory_ty {
        Ty::ReceiverFactory(inner) => ty_clone(inner),
        _ => Ty::Unit,
    };
    let receiver_elem = ty_clone(&elem);
    let factory = TypedExpr {
        span,
        ty: factory_ty,
        tail_pos: false,
        escape: EscapeTarget::Local,
        kind: TypedExprKind::Ident { name: owned(callee) },
    };
    let r = TypedExpr {
        span,
        ty: Ty::Receiver(Box::new(receiver_elem)),
        tail_pos: false,
        escape: EscapeTarget::Local,
        kind: TypedExprKind::ReceiverFactoryCall { factory: Box::new(Spanned::new(factory, span)), elem_ty: elem },
    };
    proof {
        crate::ty::lemma_ty_view(r.ty);
    }
    Ok(r)
}

// ── laws ────────────────────────────────────────────────────────────

/// On the indirect paths, the arguments are always handed on as a tuple
/// (or `()`), and the types dispatched on are its element types.
pub proof fn law_indirect_args_are_tuples(r: TypedExpr, a: TypedExpr, args_span: Span)
    requires
        spec_normalized_args(r, a, args_span, true),
    ensures
        r.kind is Tuple || r.kind is Unit,
        r.kind is Tuple ==> spec_action_arg_tys(r) == spec_element_tys(r.kind->Tuple_elements@),
{
}

/// Swapping the arguments of a call twice gives them back in their first
/// order.
pub proof fn law_swap_twice_restores(a: TypedExpr, r: TypedExpr, r2: TypedExpr)
    requires
        spec_swapped_args(r, a, true),
        spec_swapped_args(r2, r, true),
    ensures
        spec_action_arg_tys(r2) == spec_action_arg_tys(a),
        a.kind is Tuple ==> (r2.kind is Tuple && r2.kind->Tuple_elements@ == a.kind->Tuple_elements@),
        !(a.kind is Tuple) ==> r2 == a,
{
    if a.kind is Tuple && a.kind->Tuple_elements@.len() == 2 {
        let es = a.kind->Tuple_elements@;
        assert(r.kind->Tuple_elements@ == seq![es[1], es[0]]);
        assert(r2.kind->Tuple_elements@ =~= es);
        assert(spec_element_tys(r2.kind->Tuple_elements@) =~= spec_element_tys(es));
    }
}

} // verus!
