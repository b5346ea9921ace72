use lib::ast::{Expr, Span, Spanned};
use lib::channels::{infer_channel_builtin, infer_queue_builtin, ChannelKind, ChannelTypeVarCounter};
use lib::ty::Ty;

fn at(node: Expr, n: usize) -> Spanned<Expr> {
    Spanned::new(node, Span { start: n, end: n + 1 })
}

fn lit_int(text: &str) -> Expr {
    Expr::IntLit { text: text.to_string() }
}

#[test]
fn channel_takes_unit() {
    let mut c = ChannelTypeVarCounter::new();
    let made = infer_channel_builtin(ChannelKind::Broadcast, &at(Expr::Unit, 1), &mut c).unwrap();
    assert_eq!(made.kind, ChannelKind::Broadcast);
    assert!(matches!(&made.elem_ty, Ty::Var(n) if n == "T0"));
    match &made.ty {
        Ty::Tuple(v) => assert!(matches!(v[1], Ty::ReceiverFactory(_))),
        _ => panic!("expected a pair"),
    }
}

#[test]
fn channel_refuses_arguments() {
    let mut c = ChannelTypeVarCounter::new();
    let e = infer_channel_builtin(ChannelKind::Rendezvous, &at(lit_int("3"), 7), &mut c).err().unwrap();
    assert_eq!(e.expected, "`()` — channel!()/broadcast!() não recebem argumentos");
    assert_eq!(e.found, "IntLit { text: \"3\" }");
    assert_eq!(e.span, Span { start: 7, end: 8 });
    // The counter did not move: the next channel still gets `T0`.
    let ok = infer_channel_builtin(ChannelKind::Rendezvous, &at(Expr::Unit, 1), &mut c).unwrap();
    assert!(matches!(&ok.elem_ty, Ty::Var(n) if n == "T0"));
}

#[test]
fn queue_reads_its_capacity() {
    let mut c = ChannelTypeVarCounter::new();
    let g = at(Expr::Grouping { inner: Box::new(at(lit_int("4"), 2)) }, 1);
    let made = infer_queue_builtin(&g, &mut c).unwrap();
    assert_eq!(made.kind, ChannelKind::Buffered(4));
    let bare = infer_queue_builtin(&at(lit_int("2"), 1), &mut c).unwrap();
    assert_eq!(bare.kind, ChannelKind::Buffered(2));
    assert!(matches!(&bare.elem_ty, Ty::Var(n) if n == "T1"));
}

#[test]
fn queue_refuses_non_positive_or_non_literal() {
    let mut c = ChannelTypeVarCounter::new();
    let zero = infer_queue_builtin(&at(lit_int("0"), 5), &mut c).err().unwrap();
    assert_eq!(zero.expected, "Int positivo (capacidade do queue > 0)");
    assert_eq!(zero.found, "0");
    assert_eq!(zero.span, Span { start: 5, end: 6 });
    let neg = infer_queue_builtin(&at(lit_int("-3"), 5), &mut c).err().unwrap();
    assert_eq!(neg.found, "-3");
    let unread = infer_queue_builtin(&at(lit_int("9999999999999999999999"), 5), &mut c).err().unwrap();
    assert_eq!(unread.found, "0");
    let g = at(Expr::Grouping { inner: Box::new(at(Expr::Ident { name: "n".to_string() }, 3)) }, 1);
    let lit = infer_queue_builtin(&g, &mut c).err().unwrap();
    assert_eq!(lit.expected, "Int literal (capacidade do queue)");
    assert_eq!(lit.found, "Ident { name: \"n\" }");
    assert_eq!(lit.span, Span { start: 3, end: 4 });
}
