use lib::ast::Span;
use lib::cycle::{detect_cycle, find_node, CallEdge, CallNode};

fn node(name: &str, calls: &[(&str, usize)]) -> CallNode {
    CallNode {
        name: name.to_string(),
        callees: calls
            .iter()
            .map(|(c, at)| CallEdge { callee: c.to_string(), span: Span { start: *at, end: *at + 1 } })
            .collect(),
    }
}

#[test]
fn acyclic_graph_is_accepted() {
    let g = vec![node("A", &[("B", 1), ("C", 2)]), node("B", &[("C", 3)]), node("C", &[])];
    assert!(detect_cycle(&g).is_ok());
}

#[test]
fn empty_graph_is_accepted() {
    assert!(detect_cycle(&Vec::new()).is_ok());
}

#[test]
fn self_call_is_a_cycle() {
    let g = vec![node("A", &[("A", 7)])];
    let e = detect_cycle(&g).unwrap_err();
    assert_eq!(e.action, "A");
    assert_eq!(e.cycle, "A → A");
    assert_eq!(e.span, Span { start: 7, end: 8 });
}

#[test]
fn two_node_cycle_reports_chain_and_closing_call() {
    let g = vec![node("A", &[("B", 1)]), node("B", &[("A", 5)])];
    let e = detect_cycle(&g).unwrap_err();
    assert_eq!(e.action, "A");
    assert_eq!(e.cycle, "A → B → A");
    assert_eq!(e.span, Span { start: 5, end: 6 });
}

#[test]
fn cycle_below_the_start_is_cut_at_its_first_node() {
    let g = vec![node("main", &[("B", 1)]), node("B", &[("C", 2)]), node("C", &[("B", 3)])];
    let e = detect_cycle(&g).unwrap_err();
    assert_eq!(e.action, "B");
    assert_eq!(e.cycle, "B → C → B");
}

#[test]
fn calls_to_unknown_names_are_ignored() {
    let g = vec![node("A", &[("print", 1), ("B", 2)]), node("B", &[("print", 3)])];
    assert!(detect_cycle(&g).is_ok());
}

#[test]
fn diamond_is_not_a_cycle() {
    let g = vec![
        node("A", &[("B", 1), ("C", 2)]),
        node("B", &[("D", 3)]),
        node("C", &[("D", 4)]),
        node("D", &[]),
    ];
    assert!(detect_cycle(&g).is_ok());
}

#[test]
fn find_node_by_name() {
    let g = vec![node("A", &[]), node("B", &[])];
    assert_eq!(find_node(&g, &"B".to_string()), Some(1));
    assert_eq!(find_node(&g, &"Z".to_string()), None);
}
