use lib::tyops::EscapeTarget;
use lib::ast::{Span, Spanned};
use lib::subst::Substitutions;
use lib::tast::{
    collect_pattern_binds, collect_pattern_binds_one, collect_pattern_tys, contains_break, NameSet,
    TypedExpr, TypedExprKind, TypedMatchArm, TypedPattern,
};
use lib::ty::{PrimTy, Ty};

fn sp() -> Span {
    Span { start: 0, end: 1 }
}

fn te(kind: TypedExprKind) -> Spanned<TypedExpr> {
    Spanned::new(TypedExpr { kind, ty: Ty::Unit, span: sp(), tail_pos: false, escape: EscapeTarget::Local }, sp())
}

fn pid(name: &str, ty: Ty) -> Spanned<TypedPattern> {
    Spanned::new(TypedPattern::Ident { name: name.to_string(), ty }, sp())
}

#[test]
fn break_leaves_the_loop() {
    assert!(contains_break(&TypedExprKind::Break));
    assert!(!contains_break(&TypedExprKind::Continue));
}

#[test]
fn break_of_an_inner_loop_does_not_count() {
    let k = TypedExprKind::Loop { body: vec![te(TypedExprKind::Break)] };
    assert!(!contains_break(&k));
}

#[test]
fn break_under_let_and_return_counts() {
    let k = TypedExprKind::Let { name: "x".to_string(), value: Box::new(te(TypedExprKind::Break)) };
    assert!(contains_break(&k));
    let k = TypedExprKind::Return(Box::new(te(TypedExprKind::IntLit(1))));
    assert!(!contains_break(&k));
}

#[test]
fn break_in_a_match_arm_or_guard_counts() {
    let arm = |guard: Option<Spanned<TypedExpr>>, body: TypedExprKind| TypedMatchArm {
        pattern: Spanned::new(TypedPattern::Wildcard, sp()),
        guard,
        body: te(body),
    };
    let in_body = TypedExprKind::Match {
        scrutinee: Box::new(te(TypedExprKind::Unit)),
        arms: vec![arm(None, TypedExprKind::Unit), arm(None, TypedExprKind::Break)],
    };
    assert!(contains_break(&in_body));
    let in_guard = TypedExprKind::Match {
        scrutinee: Box::new(te(TypedExprKind::Unit)),
        arms: vec![arm(Some(te(TypedExprKind::Break)), TypedExprKind::Unit)],
    };
    assert!(contains_break(&in_guard));
    let none = TypedExprKind::Match {
        scrutinee: Box::new(te(TypedExprKind::Unit)),
        arms: vec![arm(None, TypedExprKind::Unit)],
    };
    assert!(!contains_break(&none));
}

#[test]
fn break_inside_an_application_is_not_looked_for() {
    let k = TypedExprKind::Apply { callee: Box::new(te(TypedExprKind::Break)), args: vec![] };
    assert!(!contains_break(&k));
}

#[test]
fn pattern_binds_each_name_once() {
    let p = TypedPattern::Tuple {
        elements: vec![
            pid("a", Ty::Unit),
            Spanned::new(
                TypedPattern::Cons { head: Box::new(pid("b", Ty::Unit)), tail: Box::new(pid("a", Ty::Unit)) },
                sp(),
            ),
            Spanned::new(TypedPattern::Wildcard, sp()),
        ],
    };
    let mut out = NameSet::new();
    collect_pattern_binds_one(&p, &mut out);
    assert_eq!(out.len(), 2);
    assert!(out.contains(&"a".to_string()));
    assert!(out.contains(&"b".to_string()));
    assert!(!out.contains(&"c".to_string()));
}

#[test]
fn variant_without_sub_patterns_binds_nothing() {
    let p = TypedPattern::Variant { variant: "None".to_string(), sub_patterns: None };
    let mut out = NameSet::new();
    collect_pattern_binds_one(&p, &mut out);
    assert_eq!(out.len(), 0);
    let q = vec![Spanned::new(
        TypedPattern::Variant { variant: "Some".to_string(), sub_patterns: Some(vec![pid("v", Ty::Unit)]) },
        sp(),
    )];
    collect_pattern_binds(&q, &mut out);
    assert!(out.contains(&"v".to_string()));
}

#[test]
fn later_binding_takes_the_type() {
    let ps = vec![pid("x", Ty::Prim(PrimTy::Int)), pid("y", Ty::Unit), pid("x", Ty::Prim(PrimTy::Text))];
    let mut m = Substitutions::new();
    collect_pattern_tys(&ps, &mut m);
    assert_eq!(m.len(), 2);
    assert_eq!(format!("{:?}", m.get(&"x".to_string())), "Some(Prim(Text))");
    assert_eq!(format!("{:?}", m.get(&"y".to_string())), "Some(Unit)");
}
