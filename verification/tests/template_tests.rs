use lib::ast::{DotIndex, Expr};
use lib::log_template::{log_level_name, parse_placeholder, parse_template};

#[test]
fn template_with_two_placeholders() {
    let (t, ps) = parse_template("processando {x}, resultado: {y}").unwrap();
    assert_eq!(t, "processando {}, resultado: {}");
    assert_eq!(ps, vec!["x".to_string(), "y".to_string()]);
}

#[test]
fn doubled_braces_are_literal() {
    let (t, ps) = parse_template("literal {{ escapado }}").unwrap();
    assert_eq!(t, "literal { escapado }");
    assert!(ps.is_empty());
}

#[test]
fn placeholder_is_trimmed() {
    let (t, ps) = parse_template("a { x.y } b").unwrap();
    assert_eq!(t, "a {} b");
    assert_eq!(ps, vec!["x.y".to_string()]);
}

#[test]
fn unclosed_brace_is_refused() {
    let e = parse_template("a {b").unwrap_err();
    assert_eq!(e, "template: { sem } correspondente em \"a {b\"");
}

#[test]
fn empty_placeholder_is_refused() {
    let e = parse_template("x { } y").unwrap_err();
    assert_eq!(e, "template: placeholder vazio {} em \"x { } y\"");
}

#[test]
fn stray_closing_brace_is_refused() {
    let e = parse_template("a } b").unwrap_err();
    assert_eq!(e, "template: } sem { correspondente em \"a } b\"");
}

#[test]
fn empty_template() {
    let (t, ps) = parse_template("").unwrap();
    assert_eq!(t, "");
    assert!(ps.is_empty());
}

#[test]
fn placeholder_name_is_an_identifier() {
    match parse_placeholder("count").unwrap() {
        Expr::Ident { name } => assert_eq!(name, "count"),
        other => panic!("unexpected {:?}", other),
    }
}

#[test]
fn placeholder_with_dot_is_a_field_access() {
    match parse_placeholder("foo . bar").unwrap() {
        Expr::DotAccess { expr, index } => {
            match &expr.node {
                Expr::Ident { name } => assert_eq!(name, "foo"),
                other => panic!("unexpected {:?}", other),
            }
            match index {
                DotIndex::Field(f) => assert_eq!(f, "bar"),
                other => panic!("unexpected {:?}", other),
            }
        }
        other => panic!("unexpected {:?}", other),
    }
}

#[test]
fn placeholder_ending_in_dot_is_refused() {
    assert_eq!(parse_placeholder("foo.").unwrap_err(), "placeholder inválido: foo.");
}

#[test]
fn log_level_names() {
    assert_eq!(log_level_name(0), "Debug");
    assert_eq!(log_level_name(1), "Info");
    assert_eq!(log_level_name(2), "Warn");
    assert_eq!(log_level_name(3), "Error");
    assert_eq!(log_level_name(4), "Unknown");
    assert_eq!(log_level_name(-1), "Unknown");
}

#[test]
fn unicode_white_space_is_trimmed() {
    let (t, ps) = parse_template("a {\u{3000}x\u{a0}} b").unwrap();
    assert_eq!(t, "a {} b");
    assert_eq!(ps, vec!["x".to_string()]);
    assert!(parse_template("{\u{2003}\t}").is_err());
    let (_, ps) = parse_template("{\u{200b}}").unwrap();
    assert_eq!(ps, vec!["\u{200b}".to_string()]);
}
