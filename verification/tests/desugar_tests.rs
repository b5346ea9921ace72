use lib::ast::{Expr, Pattern, Span, Spanned, TypeExpr};
use lib::desugar::{apply_pipe, desugar, desugar_holes, desugar_pipes, is_hole_or_ascribed_hole};

fn sp(start: usize, end: usize) -> Span {
    Span { start, end }
}

fn ident(name: &str) -> Spanned<Expr> {
    Spanned::new(Expr::Ident { name: name.to_string() }, sp(1, 2))
}

fn int_lit(text: &str) -> Spanned<Expr> {
    Spanned::new(Expr::IntLit { text: text.to_string() }, sp(3, 4))
}

fn hole() -> Spanned<Expr> {
    Spanned::new(Expr::Hole, sp(5, 6))
}

fn apply(callee: Spanned<Expr>, args: Vec<Spanned<Expr>>) -> Spanned<Expr> {
    Spanned::new(Expr::Apply { callee: Box::new(callee), args }, sp(0, 10))
}

fn pipe(lhs: Spanned<Expr>, rhs: Spanned<Expr>) -> Spanned<Expr> {
    Spanned::new(Expr::Pipe { lhs: Box::new(lhs), rhs: Box::new(rhs) }, sp(0, 20))
}

fn show(e: &Spanned<Expr>) -> String {
    match &e.node {
        Expr::Ident { name } => name.clone(),
        Expr::IntLit { text } => text.clone(),
        Expr::Hole => "_".to_string(),
        Expr::Apply { callee, args } => {
            let a: Vec<String> = args.iter().map(show).collect();
            format!("{}({})", show(callee), a.join(", "))
        }
        Expr::Pipe { lhs, rhs } => format!("{} |> {}", show(lhs), show(rhs)),
        Expr::Grouping { inner } => format!("({})", show(inner)),
        Expr::TypeAscription { expr, ty } => {
            let t = match &ty.node {
                TypeExpr::Named(n) => n.clone(),
                TypeExpr::Applied { name, .. } => name.clone(),
            };
            format!("{}::{}", show(expr), t)
        }
        Expr::Lambda { patterns, body, guards, with_bindings } => {
            let ps: Vec<String> = patterns
                .iter()
                .map(|p| match &p.node {
                    Pattern::Ident(n) => n.clone(),
                    _ => "?".to_string(),
                })
                .collect();
            assert!(guards.is_empty() && with_bindings.is_empty());
            format!("\\{} -> {}", ps.join(" "), show(body))
        }
        Expr::Let { name, value } => format!("let {} = {}", name, show(value)),
        other => format!("{:?}", other),
    }
}

#[test]
fn pipe_into_a_name_applies_it() {
    let e = pipe(ident("x"), ident("f"));
    let d = desugar_pipes(&e);
    assert_eq!(show(&d), "f(x)");
    assert_eq!(d.span, sp(0, 20));
}

#[test]
fn pipe_fills_the_first_hole() {
    let e = pipe(ident("x"), apply(ident("f"), vec![hole(), int_lit("1"), hole()]));
    assert_eq!(show(&desugar_pipes(&e)), "f(x, 1, _)");
}

#[test]
fn pipe_without_hole_becomes_first_argument() {
    let e = pipe(ident("x"), apply(ident("f"), vec![int_lit("1")]));
    assert_eq!(show(&desugar_pipes(&e)), "f(x, 1)");
}

#[test]
fn pipe_looks_through_parentheses() {
    let g = Spanned::new(Expr::Grouping { inner: Box::new(ident("f")) }, sp(7, 9));
    let d = apply_pipe(&ident("x"), &g, sp(0, 30));
    assert_eq!(show(&d), "f(x)");
    match &d.node {
        Expr::Apply { callee, .. } => assert_eq!(callee.span, sp(1, 2)),
        _ => panic!("expected an application"),
    }
}

#[test]
fn pipe_into_other_expression_applies_it_whole() {
    let e = pipe(ident("x"), int_lit("3"));
    assert_eq!(show(&desugar_pipes(&e)), "3(x)");
}

#[test]
fn nested_pipes_chain_left_to_right() {
    let e = pipe(pipe(ident("x"), ident("f")), ident("g"));
    assert_eq!(show(&desugar_pipes(&e)), "g(f(x))");
}

#[test]
fn holes_become_lambda_parameters_in_order() {
    let e = apply(ident("f"), vec![hole(), int_lit("1"), hole()]);
    assert_eq!(show(&desugar_holes(&e)), "\\__hole_0 __hole_1 -> f(__hole_0, 1, __hole_1)");
}

#[test]
fn ascribed_hole_keeps_its_ascription() {
    let ty = Spanned::new(TypeExpr::Named("Int".to_string()), sp(8, 9));
    let asc = Spanned::new(Expr::TypeAscription { expr: Box::new(hole()), ty }, sp(5, 9));
    assert!(is_hole_or_ascribed_hole(&asc.node));
    let e = apply(ident("f"), vec![asc]);
    let d = desugar_holes(&e);
    assert_eq!(show(&d), "\\__hole_0 -> f(__hole_0::Int)");
    match &d.node {
        Expr::Lambda { body, .. } => match &body.node {
            Expr::Apply { args, .. } => assert_eq!(args[0].span, sp(5, 9)),
            _ => panic!("expected an application"),
        },
        _ => panic!("expected a lambda"),
    }
}

#[test]
fn application_without_holes_is_unchanged() {
    let e = apply(ident("f"), vec![int_lit("1"), ident("y")]);
    assert_eq!(show(&desugar_holes(&e)), "f(1, y)");
}

#[test]
fn holes_in_nested_applications_get_their_own_lambda() {
    let inner = apply(ident("g"), vec![hole()]);
    let e = apply(ident("f"), vec![inner, hole()]);
    assert_eq!(show(&desugar_holes(&e)), "\\__hole_0 -> f(\\__hole_0 -> g(__hole_0), __hole_0)");
}

#[test]
fn desugar_runs_pipes_then_holes() {
    let e = pipe(ident("x"), apply(ident("f"), vec![hole(), hole()]));
    assert_eq!(show(&desugar(&e)), "\\__hole_0 -> f(x, __hole_0)");
}

#[test]
fn desugar_leaves_no_pipe_inside_let() {
    let e = Spanned::new(
        Expr::Let { name: "y".to_string(), value: Box::new(pipe(ident("x"), ident("f"))) },
        sp(0, 40),
    );
    assert_eq!(show(&desugar(&e)), "let y = f(x)");
}

#[test]
fn hole_names_count_past_nine() {
    let args: Vec<Spanned<Expr>> = (0..11).map(|_| hole()).collect();
    let d = desugar_holes(&apply(ident("f"), args));
    let s = show(&d);
    assert!(s.starts_with("\\__hole_0 __hole_1"));
    assert!(s.contains("__hole_10 -> f("));
}

#[test]
fn desugaring_twice_changes_nothing() {
    let e = pipe(pipe(ident("x"), apply(ident("f"), vec![hole(), int_lit("2"), hole()])), ident("g"));
    let once = desugar(&e);
    let twice = desugar(&once);
    assert_eq!(show(&once), show(&twice));
    assert_eq!(format!("{:?}", once), format!("{:?}", twice));
}

#[test]
fn lone_hole_becomes_identity_lambda() {
    let d = desugar_holes(&hole());
    assert_eq!(show(&d), "\\__hole_0 -> __hole_0");
    assert_eq!(d.span, sp(5, 6));
    let asc = Spanned::new(
        Expr::TypeAscription {
            expr: Box::new(hole()),
            ty: Spanned::new(TypeExpr::Named("Int".to_string()), sp(7, 8)),
        },
        sp(5, 8),
    );
    assert_eq!(show(&desugar_holes(&asc)), "\\__hole_0 -> __hole_0::Int");
}

#[test]
fn holes_outside_arguments_are_removed() {
    let t = Spanned::new(Expr::Tuple { elements: vec![hole(), int_lit("1")] }, sp(0, 9));
    match desugar_holes(&t).node {
        Expr::Tuple { elements } => assert_eq!(show(&elements[0]), "\\__hole_0 -> __hole_0"),
        other => panic!("expected a tuple, got {:?}", other),
    }
    let l = Spanned::new(Expr::Let { name: "x".to_string(), value: Box::new(hole()) }, sp(0, 9));
    assert_eq!(show(&desugar(&l)), "let x = \\__hole_0 -> __hole_0");
}

#[test]
fn range_step_hole_becomes_default_step() {
    let r = Spanned::new(
        Expr::RangeLit {
            start: Box::new(int_lit("1")),
            step: Box::new(hole()),
            end: Box::new(int_lit("9")),
            inclusive: false,
        },
        sp(0, 9),
    );
    match desugar(&r).node {
        Expr::RangeLit { step, .. } => {
            assert!(matches!(step.node, Expr::DefaultStep));
            assert_eq!(step.span, hole().span);
        }
        other => panic!("expected a range, got {:?}", other),
    }
}
