use lib::tyops::EscapeTarget;
use lib::ast::{Span, Spanned};
use lib::tast::{wrap_entry_with_show, TypedExpr, TypedExprKind, TypedModule};
use lib::ty::{PrimTy, StructKey, Ty};

fn entry(ty: Ty) -> TypedModule {
    TypedModule {
        entry: Spanned::new(
            TypedExpr {
                kind: TypedExprKind::IntLit(7),
                ty,
                span: Span { start: 4, end: 9 },
                tail_pos: true,
                escape: EscapeTarget::Local,
            },
            Span { start: 4, end: 9 },
        ),
    }
}

fn assert_shown(m: &TypedModule) {
    assert_eq!(m.entry.span, Span { start: 4, end: 9 });
    assert!(matches!(m.entry.node.ty, Ty::Prim(PrimTy::Text)));
    assert_eq!(m.entry.node.escape, EscapeTarget::Caller);
    assert!(!m.entry.node.tail_pos);
    match &m.entry.node.kind {
        TypedExprKind::Closure { callee, args, ffi_symbol } => {
            assert!(ffi_symbol.is_none());
            assert!(matches!(&callee.node.kind, TypedExprKind::Ident { name } if name == "show"));
            match &callee.node.ty {
                Ty::Function(params, ret) => {
                    assert_eq!(params.len(), 1);
                    assert!(matches!(**ret, Ty::Prim(PrimTy::Text)));
                }
                _ => panic!("callee should be a function"),
            }
            assert_eq!(args.len(), 1);
            assert!(matches!(args[0].node.kind, TypedExprKind::IntLit(7)));
            assert!(args[0].node.tail_pos);
            assert_eq!(callee.node.escape, EscapeTarget::Local);
            assert_eq!(args[0].span, Span { start: 4, end: 9 });
        }
        _ => panic!("entry should call show"),
    }
}

fn assert_untouched(m: &TypedModule) {
    assert!(matches!(m.entry.node.kind, TypedExprKind::IntLit(7)));
}

#[test]
fn list_entry_is_shown() {
    let mut m = entry(Ty::List(Box::new(Ty::Prim(PrimTy::Int))));
    wrap_entry_with_show(&mut m);
    assert_shown(&m);
}

#[test]
fn tuple_and_struct_entries_are_shown() {
    let mut t = entry(Ty::Tuple(vec![Ty::Unit, Ty::Unit]));
    wrap_entry_with_show(&mut t);
    assert_shown(&t);
    let mut s = entry(Ty::Struct(StructKey::Plain("Point".to_string())));
    wrap_entry_with_show(&mut s);
    assert_shown(&s);
}

#[test]
fn sum_entry_is_shown_but_not_boolean() {
    let mut o = entry(Ty::Sum("Optional".to_string()));
    wrap_entry_with_show(&mut o);
    assert_shown(&o);
    let mut b = entry(Ty::Sum("Boolean".to_string()));
    wrap_entry_with_show(&mut b);
    assert_untouched(&b);
}

#[test]
fn primitive_and_unit_entries_are_untouched() {
    for ty in [Ty::Prim(PrimTy::Int), Ty::Prim(PrimTy::Text), Ty::Unit, Ty::File] {
        let mut m = entry(ty);
        wrap_entry_with_show(&mut m);
        assert_untouched(&m);
    }
}
