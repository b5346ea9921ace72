use lib::ast::{Expr, Span, Spanned, TypeExpr};
use lib::const_eval::{
    compare_ints, compare_rationals, compare_texts, eval_int_literal, parse_i64, relation_holds, substitute_hole, ConstOrder,
};

fn sp() -> Span {
    Span { start: 2, end: 3 }
}

#[test]
fn parses_decimal_integers_like_std() {
    for s in ["0", "42", "-42", "+7", "007", "9223372036854775807", "-9223372036854775808", "", "-", "+",
        "9223372036854775808", "-9223372036854775809", "12a", " 1", "1 ", "--1", "99999999999999999999999"] {
        assert_eq!(parse_i64(s), s.parse::<i64>().ok(), "input {:?}", s);
    }
}

#[test]
fn integer_literal_value() {
    assert_eq!(eval_int_literal(&Expr::IntLit { text: "12".to_string() }).ok(), Some(12));
}

#[test]
fn bad_integer_literal_is_a_mismatch() {
    let e = eval_int_literal(&Expr::IntLit { text: "1x".to_string() }).err().unwrap();
    assert_eq!(e.expected, "literal inteiro");
    assert_eq!(e.found, "não-integer literal: 1x");
    assert_eq!(e.span, Span { start: 0, end: 0 });
}

#[test]
fn non_literal_index_is_a_mismatch() {
    let e = eval_int_literal(&Expr::Ident { name: "i".to_string() }).err().unwrap();
    assert_eq!(e.expected, "literal inteiro em índice de range de tensor");
    assert_eq!(e.found, "expressão não-literal");
}

#[test]
fn hole_is_replaced_by_the_value() {
    let pred = Spanned::new(
        Expr::Apply {
            callee: Box::new(Spanned::new(Expr::Ident { name: ">".to_string() }, sp())),
            args: vec![
                Spanned::new(Expr::Hole, Span { start: 4, end: 5 }),
                Spanned::new(Expr::IntLit { text: "0".to_string() }, sp()),
            ],
        },
        Span { start: 0, end: 9 },
    );
    let value = Spanned::new(Expr::IntLit { text: "5".to_string() }, Span { start: 20, end: 21 });
    let r = substitute_hole(&pred, &value);
    match &r.node {
        Expr::Apply { args, .. } => {
            assert!(matches!(&args[0].node, Expr::IntLit { text } if text == "5"));
            assert_eq!(args[0].span, Span { start: 4, end: 5 });
            assert!(matches!(&args[1].node, Expr::IntLit { text } if text == "0"));
        }
        other => panic!("unexpected {:?}", other),
    }
    assert_eq!(r.span, Span { start: 0, end: 9 });
}

#[test]
fn hole_under_ascription_and_tuple_is_replaced_by_a_name() {
    let ty = Spanned::new(TypeExpr::Named("Int".to_string()), sp());
    let e = Spanned::new(
        Expr::Tuple {
            elements: vec![Spanned::new(
                Expr::TypeAscription { expr: Box::new(Spanned::new(Expr::Hole, sp())), ty },
                sp(),
            )],
        },
        sp(),
    );
    let r = lib::expr_utils::substitute_hole(&e, "v");
    let s = format!("{:?}", r.node);
    assert!(s.contains("Ident { name: \"v\" }"));
    assert!(!s.contains("Hole"));
}

#[test]
fn hole_under_let_is_left_alone() {
    let e = Spanned::new(Expr::Let { name: "x".to_string(), value: Box::new(Spanned::new(Expr::Hole, sp())) }, sp());
    let r = lib::expr_utils::substitute_hole(&e, "v");
    assert!(format!("{:?}", r.node).contains("Hole"));
}

#[test]
fn constants_compare_by_kind() {
    assert_eq!(compare_ints(-3, 2), ConstOrder::Less);
    assert_eq!(compare_ints(i64::MAX, i64::MAX), ConstOrder::Equal);
    // 1/2 < 2/3; with a negative denominator the cross product flips.
    assert_eq!(compare_rationals(1, 2, 2, 3), ConstOrder::Less);
    assert_eq!(compare_rationals(1, -2, 1, 3), ConstOrder::Less);
    assert_eq!(compare_rationals(2, 4, 1, 2), ConstOrder::Equal);
    assert_eq!(compare_rationals(i64::MAX, 1, i64::MIN, 1), ConstOrder::Greater);
    assert_eq!(compare_texts(&"abc".to_string(), &"abd".to_string()), ConstOrder::Less);
    assert_eq!(compare_texts(&"ab".to_string(), &"abc".to_string()), ConstOrder::Less);
    assert_eq!(compare_texts(&"é".to_string(), &"z".to_string()), ConstOrder::Greater);
    assert_eq!(compare_texts(&"x".to_string(), &"x".to_string()), ConstOrder::Equal);
}

#[test]
fn ordering_operators() {
    assert_eq!(relation_holds("<", ConstOrder::Less), Some(true));
    assert_eq!(relation_holds(">=", ConstOrder::Less), Some(false));
    assert_eq!(relation_holds("<=", ConstOrder::Equal), Some(true));
    assert_eq!(relation_holds(">", ConstOrder::Equal), Some(false));
    assert_eq!(relation_holds("=", ConstOrder::Equal), None);
}
