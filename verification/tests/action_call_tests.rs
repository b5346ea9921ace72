use lib::action_call::{
    action_arg_tys, action_builtin, finish_table_action_call, normalize_action_args, receiver_factory_call,
    route_action_call, ActionBuiltin, ActionRoute,
};
use lib::ast::{Expr, Span, Spanned};
use lib::tast::{TypedExpr, TypedExprKind};
use lib::ty::{PrimTy, Ty};
use lib::tyops::EscapeTarget;

const ARGS_SPAN: Span = Span { start: 5, end: 9 };
const CALL_SPAN: Span = Span { start: 0, end: 10 };

fn lit(n: i64) -> TypedExpr {
    TypedExpr {
        kind: TypedExprKind::IntLit(n),
        ty: Ty::Prim(PrimTy::Int),
        span: ARGS_SPAN,
        tail_pos: false,
        escape: EscapeTarget::Local,
    }
}

fn text_lit(t: &str) -> TypedExpr {
    TypedExpr {
        kind: TypedExprKind::TextLit(t.to_string()),
        ty: Ty::Prim(PrimTy::Text),
        span: ARGS_SPAN,
        tail_pos: false,
        escape: EscapeTarget::Local,
    }
}

fn pair(a: TypedExpr, b: TypedExpr) -> TypedExpr {
    TypedExpr {
        kind: TypedExprKind::Tuple { elements: vec![Spanned::new(a, ARGS_SPAN), Spanned::new(b, ARGS_SPAN)] },
        ty: Ty::Tuple(vec![Ty::Prim(PrimTy::Int), Ty::Prim(PrimTy::Text)]),
        span: ARGS_SPAN,
        tail_pos: false,
        escape: EscapeTarget::Local,
    }
}

#[test]
fn builtins_are_recognised_by_name() {
    assert_eq!(action_builtin("assert"), Some(ActionBuiltin::Assert));
    assert_eq!(action_builtin("queue"), Some(ActionBuiltin::Queue));
    assert_eq!(action_builtin("log_recv"), Some(ActionBuiltin::LogRecv));
    assert_eq!(action_builtin("now"), Some(ActionBuiltin::Now));
    assert_eq!(action_builtin("print"), None);
}

#[test]
fn routes_follow_builtins_table_then_local_type() {
    let factory = Ty::ReceiverFactory(Box::new(Ty::Prim(PrimTy::Int)));
    let action = Ty::Action(vec![], Box::new(Ty::Unit));
    assert_eq!(route_action_call("channel", false, Some(&factory)), ActionRoute::Builtin(ActionBuiltin::Channel));
    assert_eq!(route_action_call("rxf", false, Some(&factory)), ActionRoute::ReceiverFactory);
    assert_eq!(route_action_call("rxf", true, Some(&factory)), ActionRoute::Table);
    assert_eq!(route_action_call("job", false, Some(&action)), ActionRoute::IndirectAction);
    let overloads = Ty::OverloadSet { name: "f".to_string(), overloads: vec![] };
    assert_eq!(route_action_call("f", false, Some(&overloads)), ActionRoute::OverloadSet);
    assert_eq!(route_action_call("main", false, None), ActionRoute::Table);
    assert_eq!(route_action_call("x", false, Some(&Ty::Prim(PrimTy::Int))), ActionRoute::Table);
}

#[test]
fn grouping_becomes_a_tuple_of_one() {
    let grouped = TypedExpr {
        kind: TypedExprKind::Grouping { inner: Box::new(Spanned::new(lit(4), ARGS_SPAN)) },
        ty: Ty::Prim(PrimTy::Int),
        span: ARGS_SPAN,
        tail_pos: false,
        escape: EscapeTarget::Local,
    };
    let r = normalize_action_args(grouped, ARGS_SPAN, false);
    assert!(matches!(&r.ty, Ty::Tuple(ts) if ts.len() == 1));
    match r.kind {
        TypedExprKind::Tuple { elements } => {
            assert_eq!(elements.len(), 1);
            assert!(matches!(elements[0].node.kind, TypedExprKind::IntLit(4)));
        }
        _ => panic!("expected a tuple"),
    }
}

#[test]
fn single_argument_is_wrapped_only_on_indirect_paths() {
    let kept = normalize_action_args(lit(42), ARGS_SPAN, false);
    assert!(matches!(kept.kind, TypedExprKind::IntLit(42)));
    let wrapped = normalize_action_args(lit(42), ARGS_SPAN, true);
    match wrapped.kind {
        TypedExprKind::Tuple { elements } => {
            assert_eq!(elements.len(), 1);
            assert_eq!(elements[0].span, ARGS_SPAN);
        }
        _ => panic!("expected a tuple"),
    }
}

#[test]
fn argument_types_of_tuple_unit_and_single() {
    let tys = action_arg_tys(&pair(lit(1), text_lit("a")));
    assert_eq!(tys.len(), 2);
    assert!(matches!(tys[1], Ty::Prim(PrimTy::Text)));
    let unit = TypedExpr {
        kind: TypedExprKind::Unit,
        ty: Ty::Unit,
        span: ARGS_SPAN,
        tail_pos: false,
        escape: EscapeTarget::Local,
    };
    assert!(action_arg_tys(&unit).is_empty());
    assert_eq!(action_arg_tys(&lit(3)).len(), 1);
}

#[test]
fn pure_function_called_as_action_is_refused() {
    match finish_table_action_call("dobrar", lit(1), ARGS_SPAN, false, false, Ty::Unit, None, CALL_SPAN) {
        Err(m) => {
            assert_eq!(m.expected, "Action `dobrar` (is_action=true)");
            assert_eq!(m.found, "função pura `dobrar` — use sem `!`");
            assert_eq!(m.span, CALL_SPAN);
        }
        Ok(_) => panic!("expected a refusal"),
    }
}

#[test]
fn swapped_overload_swaps_the_pair_back() {
    let r = finish_table_action_call(
        "somar",
        pair(lit(1), text_lit("a")),
        ARGS_SPAN,
        true,
        true,
        Ty::Prim(PrimTy::Int),
        Some("kata_somar".to_string()),
        CALL_SPAN,
    );
    match r {
        Ok((ty, TypedExprKind::ActionCall { callee, args, caller_arena, ffi_symbol, indirect_callee })) => {
            assert!(matches!(ty, Ty::Prim(PrimTy::Int)));
            assert_eq!(callee, "somar");
            assert_eq!(caller_arena, 0);
            assert_eq!(ffi_symbol.as_deref(), Some("kata_somar"));
            assert!(indirect_callee.is_none());
            match &args.node.kind {
                TypedExprKind::Tuple { elements } => {
                    assert!(matches!(elements[0].node.kind, TypedExprKind::TextLit(_)));
                    assert!(matches!(elements[1].node.kind, TypedExprKind::IntLit(1)));
                }
                _ => panic!("expected a tuple"),
            }
        }
        _ => panic!("expected an action call"),
    }
}

#[test]
fn unswapped_overload_keeps_the_order() {
    match finish_table_action_call("somar", pair(lit(1), text_lit("a")), ARGS_SPAN, true, false, Ty::Unit, None, CALL_SPAN) {
        Ok((_, TypedExprKind::ActionCall { args, .. })) => match &args.node.kind {
            TypedExprKind::Tuple { elements } => assert!(matches!(elements[0].node.kind, TypedExprKind::IntLit(1))),
            _ => panic!("expected a tuple"),
        },
        _ => panic!("expected an action call"),
    }
}

#[test]
fn receiver_factory_call_gives_a_receiver() {
    let factory = Ty::ReceiverFactory(Box::new(Ty::Prim(PrimTy::Text)));
    let args = Spanned::new(Expr::Unit, ARGS_SPAN);
    match receiver_factory_call("rxf", factory, &args, CALL_SPAN) {
        Ok(te) => {
            assert!(matches!(&te.ty, Ty::Receiver(e) if matches!(**e, Ty::Prim(PrimTy::Text))));
            match te.kind {
                TypedExprKind::ReceiverFactoryCall { factory, elem_ty } => {
                    assert!(matches!(elem_ty, Ty::Prim(PrimTy::Text)));
                    assert!(matches!(&factory.node.kind, TypedExprKind::Ident { name } if name == "rxf"));
                }
                _ => panic!("expected a receiver factory call"),
            }
        }
        Err(_) => panic!("expected a receiver"),
    }
}

#[test]
fn receiver_factory_call_refuses_arguments() {
    let factory = Ty::ReceiverFactory(Box::new(Ty::Prim(PrimTy::Text)));
    let args = Spanned::new(Expr::Ident { name: "x".to_string() }, ARGS_SPAN);
    match receiver_factory_call("rxf", factory, &args, CALL_SPAN) {
        Err(m) => {
            assert_eq!(m.expected, "`()` — rxf!() não recebe argumentos");
            assert_eq!(m.span, ARGS_SPAN);
            assert_eq!(m.found, "Ident { name: \"x\" }");
        }
        Ok(_) => panic!("expected a refusal"),
    }
}
