use lib::ascription::{
    resolve_ascription, Ascribed, AscriptionError, FieldInfo, InstanceInfo, StructInfo, StructRegistry,
};
use lib::ast::{Span, Spanned};
use lib::tast::{TypedExpr, TypedExprKind};
use lib::ty::{PrimTy, StructKey, Ty};
use lib::tyops::EscapeTarget;

const VALUE_SPAN: Span = Span { start: 1, end: 3 };
const WHOLE_SPAN: Span = Span { start: 1, end: 8 };

fn typed(kind: TypedExprKind, ty: Ty) -> TypedExpr {
    TypedExpr { kind, ty, span: VALUE_SPAN, tail_pos: false, escape: EscapeTarget::Local }
}

fn prim_int() -> Ty {
    Ty::Prim(PrimTy::Int)
}

fn prim_text() -> Ty {
    Ty::Prim(PrimTy::Text)
}

fn plain(name: &str) -> Ty {
    Ty::Struct(StructKey::Plain(name.to_string()))
}

fn info(name: &str, fields: Vec<(&str, Ty)>, alias_of: Option<&str>, has_predicates: bool) -> StructInfo {
    StructInfo {
        name: name.to_string(),
        fields: fields.into_iter().map(|(n, ty)| FieldInfo { name: n.to_string(), ty }).collect(),
        alias_of: alias_of.map(|a| a.to_string()),
        has_predicates,
        is_instance_of: None,
    }
}

fn registry() -> StructRegistry {
    let mut non_zero = info("NonZero", vec![], None, true);
    non_zero.is_instance_of = Some("NonZero".to_string());
    StructRegistry {
        structs: vec![
            info("Pessoa", vec![("nome", prim_text()), ("idade", prim_int())], None, false),
            info("PositiveInt", vec![], Some("Int"), true),
            info("Idade", vec![], Some("PositiveInt"), false),
            non_zero,
        ],
        instances: vec![InstanceInfo {
            family: "NonZero".to_string(),
            concrete: "Int".to_string(),
            info: info("NonZero", vec![], Some("Int"), true),
        }],
    }
}

fn ascribe(inner: TypedExpr, target: Ty) -> Result<Ascribed, AscriptionError> {
    resolve_ascription(inner, VALUE_SPAN, target, &registry(), WHOLE_SPAN, true, false)
}

fn expect_ascription(r: Result<Ascribed, AscriptionError>) -> TypedExpr {
    match r {
        Ok(Ascribed::Typed(te)) => {
            assert_eq!(te.span, WHOLE_SPAN);
            assert_eq!(te.escape, EscapeTarget::Local);
            assert!(!te.tail_pos);
            te
        }
        _ => panic!("expected a typed ascription"),
    }
}

#[test]
fn int_literal_widens_to_float_and_rational() {
    for target in [Ty::Prim(PrimTy::Float), Ty::Prim(PrimTy::Rational), prim_int()] {
        let te = expect_ascription(ascribe(typed(TypedExprKind::IntLit(42), prim_int()), target));
        match te.kind {
            TypedExprKind::TypeAscription { expr, pending_predicates, .. } => {
                assert!(matches!(expr.node.kind, TypedExprKind::IntLit(42)));
                assert_eq!(expr.span, VALUE_SPAN);
                assert!(pending_predicates.is_empty());
            }
            _ => panic!("expected a type ascription"),
        }
    }
}

#[test]
fn float_literal_does_not_narrow_to_int() {
    let r = ascribe(typed(TypedExprKind::FloatLit("1.5".to_string()), Ty::Prim(PrimTy::Float)), prim_int());
    match r {
        Err(AscriptionError::TypeMismatch { expected, found, span }) => {
            assert!(matches!(expected, Ty::Prim(PrimTy::Int)));
            assert!(matches!(found, Ty::Prim(PrimTy::Float)));
            assert_eq!(span, VALUE_SPAN);
        }
        _ => panic!("expected a type mismatch"),
    }
}

#[test]
fn text_variable_at_int_is_refused() {
    let r = ascribe(typed(TypedExprKind::Ident { name: "s".to_string() }, prim_text()), prim_int());
    assert!(matches!(r, Err(AscriptionError::TypeMismatch { .. })));
}

#[test]
fn family_is_promoted_to_the_instance() {
    let r = ascribe(
        typed(TypedExprKind::IntLit(3), prim_int()),
        Ty::Struct(StructKey::Family("NonZero".to_string())),
    );
    match r {
        Ok(Ascribed::RefinedLiteral { target_ty, .. }) => {
            assert!(matches!(target_ty, Ty::Struct(StructKey::Instance(ref f, ref c)) if f == "NonZero" && c == "Int"));
        }
        _ => panic!("expected the literal at the instance"),
    }
}

#[test]
fn family_without_instance_stays() {
    let r = ascribe(
        typed(TypedExprKind::TextLit("x".to_string()), prim_text()),
        Ty::Struct(StructKey::Family("NonZero".to_string())),
    );
    match r {
        Err(AscriptionError::RefinedNeedsLiteral { name, .. }) => assert_eq!(name, "NonZero"),
        _ => panic!("expected a refusal of the text"),
    }
}

#[test]
fn refined_literal_is_left_for_its_predicates() {
    let r = ascribe(typed(TypedExprKind::IntLit(5), prim_int()), plain("PositiveInt"));
    match r {
        Ok(Ascribed::RefinedLiteral { inner, target_ty }) => {
            assert!(matches!(inner.kind, TypedExprKind::IntLit(5)));
            assert!(matches!(target_ty, Ty::Struct(StructKey::Plain(ref n)) if n == "PositiveInt"));
        }
        _ => panic!("expected a refined literal"),
    }
}

#[test]
fn refined_target_needs_a_literal() {
    let r = ascribe(typed(TypedExprKind::Ident { name: "x".to_string() }, prim_int()), plain("PositiveInt"));
    match r {
        Err(AscriptionError::RefinedNeedsLiteral { name, span }) => {
            assert_eq!(name, "PositiveInt");
            assert_eq!(span, VALUE_SPAN);
        }
        _ => panic!("expected a refusal of the non-literal"),
    }
}

#[test]
fn alias_chain_downcasts_to_its_base() {
    // Idade -> PositiveInt -> Int
    let te = expect_ascription(ascribe(typed(TypedExprKind::Ident { name: "a".to_string() }, plain("Idade")), prim_int()));
    assert!(matches!(te.ty, Ty::Prim(PrimTy::Int)));
    assert!(matches!(te.kind, TypedExprKind::TypeAscription { .. }));
}

#[test]
fn instance_downcasts_to_its_base() {
    let inner_ty = Ty::Struct(StructKey::Instance("NonZero".to_string(), "Int".to_string()));
    let te = expect_ascription(ascribe(typed(TypedExprKind::Ident { name: "i".to_string() }, inner_ty), prim_int()));
    assert!(matches!(te.ty, Ty::Prim(PrimTy::Int)));
}

fn pair(a: TypedExpr, b: TypedExpr) -> TypedExpr {
    let tys = vec![
        match a.ty {
            Ty::Prim(p) => Ty::Prim(p),
            _ => Ty::Unit,
        },
        match b.ty {
            Ty::Prim(p) => Ty::Prim(p),
            _ => Ty::Unit,
        },
    ];
    typed(
        TypedExprKind::Tuple { elements: vec![Spanned::new(a, VALUE_SPAN), Spanned::new(b, VALUE_SPAN)] },
        Ty::Tuple(tys),
    )
}

#[test]
fn tuple_builds_a_struct() {
    let t = pair(typed(TypedExprKind::TextLit("Ana".to_string()), prim_text()), typed(TypedExprKind::IntLit(30), prim_int()));
    let te = expect_ascription(ascribe(t, plain("Pessoa")));
    match te.kind {
        TypedExprKind::StructConstruct { struct_name, values } => {
            assert_eq!(struct_name, "Pessoa");
            assert_eq!(values.len(), 2);
            assert!(matches!(values[1].node.kind, TypedExprKind::IntLit(30)));
        }
        _ => panic!("expected a struct construction"),
    }
}

#[test]
fn tuple_with_wrong_field_types_is_refused() {
    let t = pair(typed(TypedExprKind::IntLit(30), prim_int()), typed(TypedExprKind::TextLit("Ana".to_string()), prim_text()));
    match ascribe(t, plain("Pessoa")) {
        Err(AscriptionError::FieldTypesMismatch { name, fields, elements, .. }) => {
            assert_eq!(name, "Pessoa");
            assert!(matches!(fields[0], Ty::Prim(PrimTy::Text)));
            assert!(matches!(elements[0], Ty::Prim(PrimTy::Int)));
        }
        _ => panic!("expected a field type mismatch"),
    }
}

#[test]
fn tuple_with_wrong_length_is_refused() {
    let t = typed(
        TypedExprKind::Tuple { elements: vec![Spanned::new(typed(TypedExprKind::IntLit(1), prim_int()), VALUE_SPAN)] },
        Ty::Tuple(vec![prim_int()]),
    );
    match ascribe(t, plain("Pessoa")) {
        Err(AscriptionError::FieldCountMismatch { name, fields, elements, span }) => {
            assert_eq!(name, "Pessoa");
            assert_eq!(fields, 2);
            assert_eq!(elements, 1);
            assert_eq!(span, VALUE_SPAN);
        }
        _ => panic!("expected a field count mismatch"),
    }
}

#[test]
fn tail_value_escapes_to_the_caller() {
    let r = resolve_ascription(typed(TypedExprKind::IntLit(1), prim_int()), VALUE_SPAN, prim_int(), &registry(), WHOLE_SPAN, true, true);
    match r {
        Ok(Ascribed::Typed(te)) => {
            assert_eq!(te.escape, EscapeTarget::Caller);
            assert!(te.tail_pos);
        }
        _ => panic!("expected a typed ascription"),
    }
}
