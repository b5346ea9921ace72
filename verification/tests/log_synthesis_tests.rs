use lib::ast::{Expr, Span};
use lib::log_synthesis::{check_enter_placeholders, level_tag, log_message_args};

fn names(xs: &[&str]) -> Vec<String> {
    xs.iter().map(|x| x.to_string()).collect()
}

#[test]
fn level_defaults_to_info() {
    assert_eq!(level_tag(None).unwrap(), 1);
}

#[test]
fn level_names_map_to_tags() {
    for (name, tag) in [("Debug", 0), ("Info", 1), ("Warn", 2), ("Error", 3)] {
        let l = name.to_string();
        assert_eq!(level_tag(Some(&l)).unwrap(), tag);
    }
}

#[test]
fn unknown_level_is_refused() {
    let l = "Trace".to_string();
    let e = level_tag(Some(&l)).unwrap_err();
    assert_eq!(e.expected, "LogLevel variant (Debug, Info, Warn, Error)");
    assert_eq!(e.found, "Trace");
    assert_eq!(e.span, Span::synthetic());
}

#[test]
fn message_without_placeholders_gets_unit_tuple() {
    let (args, ps) = log_message_args(1, "started").unwrap();
    assert!(ps.is_empty());
    assert_eq!(args.len(), 2);
    assert!(matches!(&args[0].node, Expr::TextLit { text } if text == "started"));
    assert!(matches!(args[1].node, Expr::Unit));
}

#[test]
fn one_placeholder_is_a_grouped_tuple() {
    let (args, ps) = log_message_args(1, "got {x}").unwrap();
    assert_eq!(ps, names(&["x"]));
    assert!(matches!(&args[0].node, Expr::TextLit { text } if text == "got {}"));
    match &args[1].node {
        Expr::Grouping { inner } => match &inner.node {
            Expr::Tuple { elements } => {
                assert_eq!(elements.len(), 1);
                assert!(matches!(&elements[0].node, Expr::Ident { name } if name == "x"));
            }
            other => panic!("expected a tuple, got {:?}", other),
        },
        other => panic!("expected a grouping, got {:?}", other),
    }
}

#[test]
fn log_level_placeholder_becomes_level_name() {
    let (args, ps) = log_message_args(2, "[{log_level}] {a.b}").unwrap();
    assert_eq!(ps, names(&["log_level", "a.b"]));
    match &args[1].node {
        Expr::Tuple { elements } => {
            assert_eq!(elements.len(), 2);
            assert!(matches!(&elements[0].node, Expr::TextLit { text } if text == "Warn"));
            assert!(matches!(&elements[1].node, Expr::DotAccess { .. }));
        }
        other => panic!("expected a tuple, got {:?}", other),
    }
}

#[test]
fn bad_template_is_refused() {
    let e = log_message_args(1, "a {b").unwrap_err();
    assert_eq!(e.expected, "template válido: {expr}, {{ escapa {");
    assert_eq!(e.found, "template: { sem } correspondente em \"a {b\"");
}

#[test]
fn bad_placeholder_is_refused() {
    let e = log_message_args(1, "a {x.}").unwrap_err();
    assert_eq!(e.expected, "placeholder válido: {expr} ou {expr.field}");
    assert_eq!(e.found, "placeholder inválido: x.");
}

#[test]
fn enter_accepts_params_and_level() {
    let ps = names(&["a", "b.c", "log_level"]);
    let params = names(&["a", "b"]);
    assert!(check_enter_placeholders(&ps, &params).is_ok());
}

#[test]
fn enter_refuses_body_variable() {
    let ps = names(&["a", "tmp.x", "other"]);
    let params = names(&["a"]);
    let e = check_enter_placeholders(&ps, &params).unwrap_err();
    assert_eq!(
        e.expected,
        "when: \"enter\" só pode referenciar params [[\"a\"]], mas \"tmp\" não é param"
    );
    assert_eq!(e.found, "placeholder {tmp.x} referencia var do corpo");
}
