use lib::ast::{Expr, Span, Spanned};
use lib::expr_utils::{describe_expr, extract_callee_name, extract_positional_elements, extract_tuple_elements};

fn sp(n: usize) -> Span {
    Span { start: n, end: n + 1 }
}

fn text(t: &str) -> Spanned<Expr> {
    Spanned::new(Expr::TextLit { text: t.to_string() }, sp(1))
}

fn ident(n: &str) -> Spanned<Expr> {
    Spanned::new(Expr::Ident { name: n.to_string() }, sp(2))
}

fn tuple(es: Vec<Spanned<Expr>>) -> Spanned<Expr> {
    Spanned::new(Expr::Tuple { elements: es }, sp(3))
}

fn group(e: Spanned<Expr>) -> Spanned<Expr> {
    Spanned::new(Expr::Grouping { inner: Box::new(e) }, sp(4))
}

fn unit() -> Spanned<Expr> {
    Spanned::new(Expr::Unit, sp(5))
}

fn shape(v: &[Spanned<Expr>]) -> Vec<String> {
    v.iter().map(|e| format!("{:?}", e.node)).collect()
}

#[test]
fn callee_name_of_an_application() {
    let body = group(Spanned::new(Expr::Apply { callee: Box::new(group(ident("f"))), args: vec![] }, sp(0)));
    assert_eq!(extract_callee_name(&body), Some("f".to_string()));
    assert_eq!(extract_callee_name(&ident("f")), None);
}

#[test]
fn positional_elements_of_a_tuple() {
    let r = extract_positional_elements(&tuple(vec![text("tpl"), ident("a"), ident("b")]));
    assert_eq!(r.len(), 3);
}

#[test]
fn template_with_unit_has_no_arguments() {
    let r = extract_positional_elements(&tuple(vec![text("tpl"), unit()]));
    assert_eq!(shape(&r), shape(&[text("tpl")]));
}

#[test]
fn template_with_one_element_tuple_is_unwrapped() {
    let r = extract_positional_elements(&tuple(vec![text("tpl"), tuple(vec![ident("a")])]));
    assert_eq!(shape(&r), shape(&[text("tpl"), ident("a")]));
}

#[test]
fn unit_and_single_expression() {
    assert!(extract_positional_elements(&unit()).is_empty());
    let r = extract_positional_elements(&group(text("only")));
    assert_eq!(shape(&r), shape(&[text("only")]));
    assert_eq!(r[0].span, sp(1));
    let r = extract_positional_elements(&ident("x"));
    assert_eq!(shape(&r), shape(&[ident("x")]));
}

#[test]
fn tuple_elements_of_builtin_arguments() {
    assert_eq!(extract_tuple_elements(&tuple(vec![ident("a"), ident("b")])).ok().unwrap().len(), 2);
    assert_eq!(extract_tuple_elements(&group(tuple(vec![ident("a")]))).ok().unwrap().len(), 1);
    assert_eq!(shape(&extract_tuple_elements(&group(text("x"))).ok().unwrap()), shape(&[text("x")]));
    assert!(extract_tuple_elements(&unit()).ok().unwrap().is_empty());
}

#[test]
fn other_builtin_arguments_are_refused() {
    let e = extract_tuple_elements(&ident("x")).err().unwrap();
    assert_eq!(e.expected, "Tuple");
    assert_eq!(e.found, "Ident { name: \"x\" }");
    assert_eq!(e.span, sp(2));
}

#[test]
fn predicate_is_shown_in_prefix_form() {
    let pred = Spanned::new(
        Expr::Apply {
            callee: Box::new(ident(">")),
            args: vec![
                Spanned::new(Expr::Hole, sp(6)),
                Spanned::new(Expr::IntLit { text: "0".to_string() }, sp(7)),
            ],
        },
        sp(0),
    );
    assert_eq!(lib::expr_utils::expr_to_string(&pred), "> _ 0");
    assert_eq!(lib::expr_utils::expr_to_string(&group(text("a"))), "\"a\"");
    assert_eq!(lib::expr_utils::expr_to_string(&unit()), "{?}");
}

#[test]
fn refused_arguments_are_described() {
    assert_eq!(describe_expr(&Expr::TextLit { text: "a\"b\\c".to_string() }), "TextLit { text: \"a\\\"b\\\\c\" }");
    assert_eq!(
        describe_expr(&Expr::VariantQual { enum_name: "Boolean".to_string(), variant: "True".to_string() }),
        "VariantQual { enum_name: \"Boolean\", variant: \"True\" }"
    );
    assert_eq!(describe_expr(&Expr::Hole), "Hole");
    assert_eq!(describe_expr(&Expr::Loop { body: vec![] }), "Loop { .. }");
}
