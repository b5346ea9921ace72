use lib::ast::{Span, Spanned};
use lib::constructors::OverloadInfo;
use lib::module_checks::{check_constant_names, check_refines_bases, split_entry, ModuleError};
use lib::registry::{InterfaceRegistry, RefinesEntry, RefinesRegistry};
use lib::tast::{TypedExpr, TypedExprKind};
use lib::ty::{PrimTy, StructKey, Ty};
use lib::tyops::EscapeTarget;

fn refines(base: Ty, iface: &str) -> RefinesEntry {
    RefinesEntry { tname: "Idade".to_string(), interface_name: iface.to_string(), base_ty: base }
}

fn sp(a: usize, b: usize) -> Span {
    Span { start: a, end: b }
}

#[test]
fn refines_to_an_implementing_base_passes() {
    let mut ifaces = InterfaceRegistry::new();
    ifaces.register("Int".to_string(), "NUM".to_string());
    let mut r = RefinesRegistry::new();
    r.register(refines(Ty::Prim(PrimTy::Int), "NUM"));
    r.register(refines(Ty::Unit, "SHOW"));
    assert!(check_refines_bases(&r, &ifaces).is_ok());
}

#[test]
fn refines_to_a_base_without_the_interface_is_refused() {
    let mut ifaces = InterfaceRegistry::new();
    ifaces.register("Int".to_string(), "NUM".to_string());
    let mut r = RefinesRegistry::new();
    r.register(refines(Ty::Prim(PrimTy::Int), "NUM"));
    r.register(refines(Ty::Struct(StructKey::Plain("Ponto".to_string())), "ORD"));
    r.register(refines(Ty::Prim(PrimTy::Text), "NUM"));
    match check_refines_bases(&r, &ifaces) {
        Err(ModuleError::NoOverload { name, span }) => {
            assert_eq!(name, "refines: tipo base Ponto não implementa a interface ORD");
            assert_eq!(span, Span::synthetic());
        }
        _ => panic!("expected a refused delegation"),
    }
}

fn overload(name: &str) -> OverloadInfo {
    OverloadInfo {
        name: name.to_string(),
        params: vec![],
        ret: Ty::Unit,
        ffi_symbol: None,
        is_action: false,
        is_generic: false,
        is_constructor: false,
    }
}

#[test]
fn distinct_constant_names_pass() {
    let cs = vec![("PI".to_string(), sp(0, 1)), ("E".to_string(), sp(2, 3))];
    assert!(check_constant_names(&cs, &vec![overload("main")]).is_ok());
}

#[test]
fn repeated_constant_is_refused_at_its_second_use() {
    let cs = vec![("PI".to_string(), sp(0, 1)), ("E".to_string(), sp(2, 3)), ("PI".to_string(), sp(4, 5))];
    match check_constant_names(&cs, &vec![]) {
        Err(ModuleError::DuplicateConstant { name, span }) => {
            assert_eq!(name, "PI");
            assert_eq!(span, sp(4, 5));
        }
        _ => panic!("expected a duplicate constant"),
    }
}

#[test]
fn constant_named_like_a_function_is_refused() {
    let cs = vec![("PI".to_string(), sp(0, 1)), ("dobrar".to_string(), sp(2, 3)), ("PI".to_string(), sp(4, 5))];
    match check_constant_names(&cs, &vec![overload("dobrar")]) {
        Err(ModuleError::ConstantNameCollision { name, span }) => {
            assert_eq!(name, "dobrar");
            assert_eq!(span, sp(2, 3));
        }
        _ => panic!("expected a name collision"),
    }
}

fn entry(n: i64) -> Spanned<TypedExpr> {
    Spanned::new(
        TypedExpr {
            kind: TypedExprKind::IntLit(n),
            ty: Ty::Prim(PrimTy::Int),
            span: sp(0, 1),
            tail_pos: true,
            escape: EscapeTarget::Caller,
        },
        sp(0, 1),
    )
}

#[test]
fn last_entry_expression_is_the_entry_point() {
    match split_entry(vec![entry(1), entry(2), entry(3)], sp(0, 0)) {
        Ok((pre, e)) => {
            assert_eq!(pre.len(), 2);
            assert!(matches!(pre[0].node.kind, TypedExprKind::IntLit(1)));
            assert!(matches!(e.node.kind, TypedExprKind::IntLit(3)));
        }
        Err(_) => panic!("expected an entry point"),
    }
}

#[test]
fn module_without_entry_expression_is_refused() {
    match split_entry(vec![], sp(7, 9)) {
        Err(ModuleError::UnboundName { name, span }) => {
            assert_eq!(name, "<entry point>");
            assert_eq!(span, sp(7, 9));
        }
        _ => panic!("expected a missing entry point"),
    }
}
