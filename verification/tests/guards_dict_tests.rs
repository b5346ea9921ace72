use lib::tyops::EscapeTarget;
use lib::ast::{Span, Spanned};
use lib::dict_args::{reorder_dict_args_to_tuple, DictArgsError, OverloadParams};
use lib::guards::{check_guard_completeness, check_guard_coverage, check_guard_implication, GuardError, Ternary};
use lib::tast::{TypedExpr, TypedExprKind, TypedGuardClause};
use lib::ty::{PrimTy, Ty};

fn sp(n: usize) -> Span {
    Span { start: n, end: n + 1 }
}

fn te(kind: TypedExprKind, ty: Ty) -> Spanned<TypedExpr> {
    Spanned::new(TypedExpr { kind, ty, span: sp(0), tail_pos: false, escape: EscapeTarget::Local }, sp(0))
}

fn guard(cond: bool) -> TypedGuardClause {
    TypedGuardClause {
        condition: if cond { Some(te(TypedExprKind::Ident { name: "c".to_string() }, Ty::Unit)) } else { None },
        body: te(TypedExprKind::Unit, Ty::Unit),
    }
}

#[test]
fn otherwise_needs_no_proof() {
    let gs = vec![guard(true), guard(false)];
    assert!(check_guard_completeness(&gs, sp(1), Ternary::Refuted, &"x = 0".to_string()).is_ok());
    assert!(check_guard_completeness(&vec![], sp(1), Ternary::Unknown, &String::new()).is_ok());
}

#[test]
fn refuted_guards_report_the_missing_case() {
    let gs = vec![guard(true)];
    match check_guard_completeness(&gs, sp(2), Ternary::Refuted, &"x = 0".to_string()) {
        Err(GuardError::NonExhaustiveMatch { missing, span, hint }) => {
            assert_eq!(missing, vec!["x = 0".to_string()]);
            assert_eq!(span, sp(2));
            assert_eq!(
                hint.unwrap(),
                "guards não cobrem todos os casos. Adicione um guard ou use `otherwise:` como fallback"
            );
        }
        _ => panic!("expected a non-exhaustive match"),
    }
}

#[test]
fn undecided_guards_need_otherwise() {
    let gs = vec![guard(true)];
    assert!(matches!(
        check_guard_completeness(&gs, sp(3), Ternary::Unknown, &String::new()),
        Err(GuardError::MissingOtherwise { span }) if span == sp(3)
    ));
    assert!(check_guard_completeness(&gs, sp(3), Ternary::Proven, &String::new()).is_ok());
}

#[test]
fn implication_needs_guards_and_a_proof() {
    assert!(check_guard_implication(&vec![guard(true)], Ternary::Proven));
    assert!(!check_guard_implication(&vec![guard(true)], Ternary::Unknown));
    assert!(!check_guard_implication(&vec![], Ternary::Proven));
}

#[test]
fn coverage_over_arms() {
    let arms = vec![vec![guard(true)], vec![guard(false)]];
    assert!(check_guard_coverage(&arms, sp(4), Ternary::Refuted, &String::new()).is_ok());
    let arms = vec![vec![], vec![]];
    assert!(check_guard_coverage(&arms, sp(4), Ternary::Refuted, &String::new()).is_ok());
    let arms = vec![vec![guard(true)], vec![]];
    assert!(check_guard_coverage(&arms, sp(4), Ternary::Refuted, &"y".to_string()).is_err());
}

fn text_key(t: &str, at: usize) -> Spanned<TypedExpr> {
    Spanned::new(
        TypedExpr {
            kind: TypedExprKind::TextLit(t.to_string()),
            ty: Ty::Prim(PrimTy::Text),
            span: sp(0),
            tail_pos: false,
            escape: EscapeTarget::Local,
        },
        sp(at),
    )
}

fn int_val(v: i64) -> Spanned<TypedExpr> {
    te(TypedExprKind::IntLit(v), Ty::Prim(PrimTy::Int))
}

fn action(names: &[&str]) -> Vec<OverloadParams> {
    vec![
        OverloadParams { is_action: false, param_names: vec![Some("z".to_string())] },
        OverloadParams { is_action: true, param_names: names.iter().map(|n| Some(n.to_string())).collect() },
    ]
}

fn mismatch(r: Result<TypedExpr, DictArgsError>) -> (String, String, Span) {
    match r {
        Err(DictArgsError::TypeMismatch(m)) => (m.expected, m.found, m.span),
        _ => panic!("expected a type mismatch"),
    }
}

#[test]
fn named_arguments_are_put_in_parameter_order() {
    let ovs = action(&["a", "b"]);
    let entries = vec![(text_key("b", 1), int_val(2)), (text_key("a", 2), int_val(1))];
    let t = reorder_dict_args_to_tuple("f", Some(&ovs), entries, sp(9), true, EscapeTarget::Caller).ok().unwrap();
    assert_eq!(t.span, sp(9));
    assert!(t.tail_pos);
    assert_eq!(t.escape, EscapeTarget::Caller);
    match t.kind {
        TypedExprKind::Tuple { elements } => {
            assert!(matches!(elements[0].node.kind, TypedExprKind::IntLit(1)));
            assert!(matches!(elements[1].node.kind, TypedExprKind::IntLit(2)));
        }
        _ => panic!("expected a tuple"),
    }
    assert_eq!(format!("{:?}", t.ty), format!("{:?}", Ty::Tuple(vec![Ty::Prim(PrimTy::Int), Ty::Prim(PrimTy::Int)])));
}

#[test]
fn unknown_callee_is_unbound() {
    match reorder_dict_args_to_tuple("g", None, vec![], sp(9), true, EscapeTarget::Caller) {
        Err(DictArgsError::UnboundName { name, span }) => {
            assert_eq!(name, "Action `g` não declarada");
            assert_eq!(span, sp(9));
        }
        _ => panic!("expected an unbound name"),
    }
}

#[test]
fn callee_without_named_parameters_is_refused() {
    let ovs = vec![OverloadParams { is_action: true, param_names: vec![] }];
    let (e, f, s) = mismatch(reorder_dict_args_to_tuple("g", Some(&ovs), vec![], sp(9), true, EscapeTarget::Caller));
    assert_eq!(e, "Action `g` com params nomeados para chamada via Dict");
    assert_eq!(f, "`g` não tem params nomeados — use chamada posicional g!(...)");
    assert_eq!(s, sp(9));
}

#[test]
fn key_must_be_a_text_literal() {
    let ovs = action(&["a"]);
    let (e, f, s) = mismatch(reorder_dict_args_to_tuple("f", Some(&ovs), vec![(int_val(3), int_val(1))], sp(9), true, EscapeTarget::Caller));
    assert_eq!((e.as_str(), f.as_str()), ("chave literal de Text", "expressão como chave"));
    assert_eq!(s, sp(0));
}

#[test]
fn key_must_name_a_parameter() {
    let ovs = action(&["a"]);
    let (e, f, s) = mismatch(reorder_dict_args_to_tuple("f", Some(&ovs), vec![(text_key("q", 4), int_val(1))], sp(9), true, EscapeTarget::Caller));
    assert_eq!(e, "parâmetro de `f`");
    assert_eq!(f, "`q` não é parâmetro de `f`");
    assert_eq!(s, sp(4));
}

#[test]
fn parameter_given_twice_is_refused() {
    let ovs = action(&["a"]);
    let entries = vec![(text_key("a", 4), int_val(1)), (text_key("a", 6), int_val(2))];
    let (e, f, s) = mismatch(reorder_dict_args_to_tuple("f", Some(&ovs), entries, sp(9), true, EscapeTarget::Caller));
    assert_eq!(e, "parâmetro `a` fornecido uma vez");
    assert_eq!(f, "parâmetro `a` duplicado");
    assert_eq!(s, sp(6));
}

#[test]
fn missing_parameter_is_refused() {
    let ovs = action(&["a", "b"]);
    let (e, f, s) = mismatch(reorder_dict_args_to_tuple("f", Some(&ovs), vec![(text_key("b", 4), int_val(1))], sp(9), true, EscapeTarget::Caller));
    assert_eq!(e, "parâmetro `a` de `f`");
    assert_eq!(f, "parâmetro não fornecido");
    assert_eq!(s, sp(9));
}
