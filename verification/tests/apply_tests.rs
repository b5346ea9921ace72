use lib::apply::{
    apply_builtin, apply_callee, indirect_function_call, return_fit_overloads, ApplyBuiltin, ApplyCallee, ApplyError,
};
use lib::ast::{DotIndex, Expr, Span, Spanned, TypeExpr};
use lib::constructors::OverloadInfo;
use lib::tast::{TypedExpr, TypedExprKind};
use lib::ty::{PrimTy, Ty};
use lib::tyops::EscapeTarget;

fn sp(a: usize, b: usize) -> Span {
    Span { start: a, end: b }
}

fn node(e: Expr) -> Spanned<Expr> {
    Spanned::new(e, sp(0, 4))
}

fn ident(n: &str) -> Spanned<Expr> {
    node(Expr::Ident { name: n.to_string() })
}

fn lambda() -> Spanned<Expr> {
    node(Expr::Lambda { patterns: vec![], body: Box::new(ident("x")), guards: vec![], with_bindings: vec![] })
}

fn overload(name: &str) -> OverloadInfo {
    OverloadInfo {
        name: name.to_string(),
        params: vec![],
        ret: Ty::Unit,
        ffi_symbol: None,
        is_action: false,
        is_generic: false,
        is_constructor: false,
    }
}

fn module_access(m: &str, f: &str) -> Spanned<Expr> {
    node(Expr::DotAccess { expr: Box::new(ident(m)), index: DotIndex::Field(f.to_string()) })
}

#[test]
fn callee_kinds() {
    let none: Vec<String> = vec![];
    let table = vec![overload("mock_math.dobrar")];
    assert!(matches!(apply_callee(&lambda(), &none, &table), Ok(ApplyCallee::InlineLambda)));
    let grouped = node(Expr::Grouping { inner: Box::new(lambda()) });
    assert!(matches!(apply_callee(&grouped, &none, &table), Ok(ApplyCallee::InlineLambda)));
    let variant = node(Expr::VariantQual { enum_name: "Option".to_string(), variant: "Some".to_string() });
    assert!(matches!(apply_callee(&variant, &none, &table), Ok(ApplyCallee::VariantConstruct)));
    let ascribed = node(Expr::TypeAscription { expr: Box::new(lambda()), ty: Spanned::new(TypeExpr::Named("F".to_string()), sp(0, 1)) });
    assert!(matches!(apply_callee(&ascribed, &none, &table), Ok(ApplyCallee::AscribedLambda)));
    assert!(matches!(apply_callee(&ident("soma"), &none, &table), Ok(ApplyCallee::Named(n)) if n == "soma"));
}

#[test]
fn module_function_is_called_by_its_qualified_name() {
    let table = vec![overload("mock_math.dobrar")];
    let r = apply_callee(&module_access("mock_math", "dobrar"), &vec![], &table);
    assert!(matches!(r, Ok(ApplyCallee::Named(n)) if n == "mock_math.dobrar"));
}

#[test]
fn unknown_module_function_is_refused() {
    match apply_callee(&module_access("mock_math", "triplicar"), &vec![], &vec![]) {
        Err(ApplyError::UnboundName { name, span }) => {
            assert_eq!(name, "`mock_math.triplicar` não encontrado no DispatchTable");
            assert_eq!(span, sp(0, 4));
        }
        _ => panic!("expected an unbound name"),
    }
}

#[test]
fn field_of_a_local_is_no_callee() {
    let table = vec![overload("p.f")];
    match apply_callee(&module_access("p", "f"), &vec!["p".to_string()], &table) {
        Err(ApplyError::UnboundName { name, .. }) => assert_eq!(name, "<non-ident callee>"),
        _ => panic!("expected a refused callee"),
    }
    let ascribed_value = node(Expr::TypeAscription { expr: Box::new(ident("x")), ty: Spanned::new(TypeExpr::Named("Int".to_string()), sp(0, 1)) });
    assert!(matches!(apply_callee(&ascribed_value, &vec![], &table), Err(ApplyError::UnboundName { .. })));
    let lit = node(Expr::IntLit { text: "3".to_string() });
    assert!(matches!(apply_callee(&lit, &vec![], &table), Err(ApplyError::UnboundName { .. })));
}

#[test]
fn builtins_by_name_and_arity() {
    assert_eq!(apply_builtin("format", 2), Some(ApplyBuiltin::Format));
    assert_eq!(apply_builtin("map", 2), Some(ApplyBuiltin::MapEach));
    assert_eq!(apply_builtin("filter", 2), Some(ApplyBuiltin::Filter));
    assert_eq!(apply_builtin("fold", 3), Some(ApplyBuiltin::Fold));
    assert_eq!(apply_builtin("fold", 2), None);
    assert_eq!(apply_builtin("format", 1), None);
}

fn arg(ty: Ty, at: usize) -> Spanned<TypedExpr> {
    Spanned::new(
        TypedExpr { kind: TypedExprKind::IntLit(0), ty, span: sp(at, at + 1), tail_pos: false, escape: EscapeTarget::Local },
        sp(at, at + 1),
    )
}

#[test]
fn function_value_call_checks_arity_and_types() {
    let params = vec![Ty::Prim(PrimTy::Int), Ty::Prim(PrimTy::Text)];
    let ret = Ty::Prim(PrimTy::Int);
    let name = "f".to_string();
    match indirect_function_call(&name, sp(0, 1), &params, &ret, vec![arg(Ty::Prim(PrimTy::Int), 2)], sp(0, 9)) {
        Err(ApplyError::ArityMismatch { expected, found, span }) => {
            assert_eq!((expected, found), (2, 1));
            assert_eq!(span, sp(0, 9));
        }
        _ => panic!("expected an arity mismatch"),
    }
    let args = vec![arg(Ty::Prim(PrimTy::Int), 2), arg(Ty::Prim(PrimTy::Int), 4)];
    match indirect_function_call(&name, sp(0, 1), &params, &ret, args, sp(0, 9)) {
        Err(ApplyError::TypeMismatch { expected, found, span }) => {
            assert!(matches!(expected, Ty::Prim(PrimTy::Text)));
            assert!(matches!(found, Ty::Prim(PrimTy::Int)));
            assert_eq!(span, sp(4, 5));
        }
        _ => panic!("expected a type mismatch"),
    }
    let args = vec![arg(Ty::Prim(PrimTy::Int), 2), arg(Ty::Prim(PrimTy::Text), 4)];
    match indirect_function_call(&name, sp(0, 1), &params, &ret, args, sp(0, 9)) {
        Ok((ty, TypedExprKind::Closure { callee, args, ffi_symbol })) => {
            assert!(matches!(ty, Ty::Prim(PrimTy::Int)));
            assert!(ffi_symbol.is_none());
            assert_eq!(args.len(), 2);
            assert!(matches!(&callee.node.kind, TypedExprKind::Ident { name } if name == "f"));
            assert!(matches!(&callee.node.ty, Ty::Function(ps, _) if ps.len() == 2));
        }
        _ => panic!("expected an indirect call"),
    }
}

fn typed_overload(name: &str, params: Vec<Ty>, ret: Ty) -> OverloadInfo {
    OverloadInfo { params, ret, ..overload(name) }
}

#[test]
fn return_directed_dispatch_keeps_fitting_overloads_in_order() {
    let int = || Ty::Prim(PrimTy::Int);
    let float = || Ty::Prim(PrimTy::Float);
    let table = vec![
        typed_overload("parse", vec![Ty::Prim(PrimTy::Text)], int()),
        typed_overload("other", vec![Ty::Prim(PrimTy::Text)], float()),
        typed_overload("parse", vec![Ty::Prim(PrimTy::Text)], float()),
        typed_overload("parse", vec![], float()),
        typed_overload("parse", vec![Ty::Prim(PrimTy::Text)], Ty::Var("T".to_string())),
    ];
    match return_fit_overloads(&"parse".to_string(), &table, 1, &float(), sp(0, 5)) {
        Some(Ok(ps)) => assert_eq!(ps, vec![2, 4]),
        _ => panic!("expected candidates"),
    }
    match return_fit_overloads(&"parse".to_string(), &table, 0, &Ty::Prim(PrimTy::Text), sp(0, 5)) {
        Some(Err(ApplyError::NoReturnFit { name, hint, span })) => {
            assert_eq!(name, "parse");
            assert!(matches!(hint, Ty::Prim(PrimTy::Text)));
            assert_eq!(span, sp(0, 5));
        }
        _ => panic!("expected no fitting overload"),
    }
    assert!(return_fit_overloads(&"nada".to_string(), &table, 1, &float(), sp(0, 5)).is_none());
}
