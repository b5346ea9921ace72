use lib::ascription::{FieldInfo, StructInfo, StructRegistry};
use lib::ast::{DotIndex, Span};
use lib::dot_access::{resolve_dot_access, DotAccess, DotAccessError};
use lib::tast::{TypedExpr, TypedExprKind};
use lib::ty::{PrimTy, StructKey, Ty};
use lib::tyops::EscapeTarget;

const RECV_SPAN: Span = Span { start: 0, end: 1 };
const ACCESS_SPAN: Span = Span { start: 0, end: 3 };

fn receiver(ty: Ty) -> TypedExpr {
    TypedExpr {
        kind: TypedExprKind::Ident { name: "p".to_string() },
        ty,
        span: RECV_SPAN,
        tail_pos: false,
        escape: EscapeTarget::Caller,
    }
}

fn registry() -> StructRegistry {
    StructRegistry {
        structs: vec![
            StructInfo {
                name: "Pessoa".to_string(),
                fields: vec![
                    FieldInfo { name: "nome".to_string(), ty: Ty::Prim(PrimTy::Text) },
                    FieldInfo { name: "idade".to_string(), ty: Ty::Prim(PrimTy::Int) },
                ],
                alias_of: None,
                has_predicates: false,
                is_instance_of: None,
            },
        ],
        instances: vec![],
    }
}

fn access(ty: Ty, index: DotIndex) -> Result<DotAccess, DotAccessError> {
    resolve_dot_access(receiver(ty), RECV_SPAN, &index, &registry(), ACCESS_SPAN, true)
}

fn triple() -> Ty {
    Ty::Tuple(vec![Ty::Prim(PrimTy::Int), Ty::Prim(PrimTy::Text), Ty::Unit])
}

#[test]
fn struct_field_is_read_at_its_position() {
    match access(Ty::Struct(StructKey::Plain("Pessoa".to_string())), DotIndex::Field("idade".to_string())) {
        Ok(DotAccess::Typed(te)) => {
            assert!(matches!(te.ty, Ty::Prim(PrimTy::Int)));
            assert_eq!(te.span, ACCESS_SPAN);
            assert!(te.tail_pos);
            assert_eq!(te.escape, EscapeTarget::Caller);
            match te.kind {
                TypedExprKind::FieldAccess { expr, struct_name, field_name, field_index } => {
                    assert_eq!(expr.span, RECV_SPAN);
                    assert_eq!(struct_name, "Pessoa");
                    assert_eq!(field_name, "idade");
                    assert_eq!(field_index, 1);
                }
                _ => panic!("expected a field access"),
            }
        }
        _ => panic!("expected a typed access"),
    }
}

#[test]
fn instance_reads_fields_of_its_concrete_type() {
    let ty = Ty::Struct(StructKey::Instance("NonZero".to_string(), "Pessoa".to_string()));
    match access(ty, DotIndex::Field("nome".to_string())) {
        Ok(DotAccess::Typed(te)) => assert!(matches!(te.ty, Ty::Prim(PrimTy::Text))),
        _ => panic!("expected a typed access"),
    }
}

#[test]
fn unknown_field_is_refused() {
    match access(Ty::Struct(StructKey::Plain("Pessoa".to_string())), DotIndex::Field("altura".to_string())) {
        Err(DotAccessError::UnknownField { struct_name, field_name, span }) => {
            assert_eq!(struct_name, "Pessoa");
            assert_eq!(field_name, "altura");
            assert_eq!(span, ACCESS_SPAN);
        }
        _ => panic!("expected an unknown field"),
    }
}

#[test]
fn unregistered_struct_is_refused() {
    match access(Ty::Struct(StructKey::Plain("Carro".to_string())), DotIndex::Field("x".to_string())) {
        Err(DotAccessError::UnregisteredStruct { name, .. }) => assert_eq!(name, "Carro"),
        _ => panic!("expected an unregistered struct"),
    }
}

#[test]
fn index_on_struct_is_refused() {
    let r = access(Ty::Struct(StructKey::Plain("Pessoa".to_string())), DotIndex::Int(0));
    assert!(matches!(r, Err(DotAccessError::IndexAccessOnStruct { span }) if span == ACCESS_SPAN));
}

#[test]
fn tuple_index_reads_its_element() {
    match access(triple(), DotIndex::Int(1)) {
        Ok(DotAccess::Typed(te)) => {
            assert!(matches!(te.ty, Ty::Prim(PrimTy::Text)));
            assert!(matches!(te.kind, TypedExprKind::IndexAccess { index: 1, element_index: 1, .. }));
        }
        _ => panic!("expected a typed access"),
    }
}

#[test]
fn negative_tuple_index_counts_from_the_end() {
    match access(triple(), DotIndex::Int(-1)) {
        Ok(DotAccess::Typed(te)) => {
            assert!(matches!(te.ty, Ty::Unit));
            assert!(matches!(te.kind, TypedExprKind::IndexAccess { index: -1, element_index: 2, .. }));
        }
        _ => panic!("expected a typed access"),
    }
    match access(triple(), DotIndex::Int(-3)) {
        Ok(DotAccess::Typed(te)) => {
            assert!(matches!(te.kind, TypedExprKind::IndexAccess { index: -3, element_index: 0, .. }))
        }
        _ => panic!("expected a typed access"),
    }
}

#[test]
fn tuple_index_out_of_bounds_is_refused() {
    for n in [3i64, -4, i64::MAX, i64::MIN] {
        match access(triple(), DotIndex::Int(n)) {
            Err(DotAccessError::IndexOutOfBounds { index, len, span }) => {
                assert_eq!(index, n);
                assert_eq!(len, 3);
                assert_eq!(span, ACCESS_SPAN);
            }
            _ => panic!("expected an index out of bounds"),
        }
    }
}

#[test]
fn field_on_tuple_or_collection_is_refused() {
    for ty in [triple(), Ty::List(Box::new(Ty::Unit)), Ty::Prim(PrimTy::Text), Ty::Range(Box::new(Ty::Unit))] {
        assert!(matches!(access(ty, DotIndex::Field("x".to_string())), Err(DotAccessError::FieldAccessOnTuple { .. })));
    }
}

#[test]
fn collection_index_goes_to_at() {
    match access(Ty::List(Box::new(Ty::Prim(PrimTy::Int))), DotIndex::Int(-2)) {
        Ok(DotAccess::AtDispatch { receiver, index }) => {
            assert_eq!(index, -2);
            assert!(matches!(receiver.ty, Ty::List(_)));
        }
        _ => panic!("expected an index for `at`"),
    }
}

#[test]
fn range_and_int_are_not_indexable() {
    for ty in [Ty::Range(Box::new(Ty::Prim(PrimTy::Int))), Ty::Prim(PrimTy::Int)] {
        assert!(matches!(access(ty, DotIndex::Int(0)), Err(DotAccessError::NotIndexable { .. })));
    }
    assert!(matches!(
        access(Ty::Prim(PrimTy::Int), DotIndex::Field("x".to_string())),
        Err(DotAccessError::NotIndexable { .. })
    ));
}
