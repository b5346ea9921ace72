use lib::format::{format_failure_detail, preprocess_escape, PartialDispatchFailure, PartialDispatchReason};

#[test]
fn escaped_braces_become_literal() {
    assert_eq!(preprocess_escape("a {{b}} c"), "a {b} c");
    assert_eq!(preprocess_escape("{} and {{}}"), "{} and {}");
    assert_eq!(preprocess_escape("{{{"), "{{");
    assert_eq!(preprocess_escape("plain"), "plain");
}

fn failure(reason: PartialDispatchReason) -> PartialDispatchFailure {
    PartialDispatchFailure {
        callee: "add".to_string(),
        arg_types: vec![Some("Int".to_string()), None],
        reason,
    }
}

#[test]
fn failure_without_overloads() {
    let s = format_failure_detail(failure(PartialDispatchReason::NoOverload { overloads: vec![] }));
    assert_eq!(s, "partial dispatch tentou `add` com args [Int, ?] mas não resolveu todos os parâmetros");
}

#[test]
fn failure_listing_overloads() {
    let s = format_failure_detail(failure(PartialDispatchReason::NoOverload {
        overloads: vec!["Int -> Int".to_string(), "Float -> Float".to_string()],
    }));
    assert_eq!(
        s,
        "partial dispatch tentou `add` com args [Int, ?] — nenhuma overload casa. Overloads: Int -> Int, Float -> Float"
    );
}

#[test]
fn ambiguous_failure() {
    let s = format_failure_detail(failure(PartialDispatchReason::Ambiguous));
    assert_eq!(s, "partial dispatch tentou `add` com args [Int, ?] — múltiplas overloads casam (ambíguo)");
}

#[test]
fn failure_with_no_arguments() {
    let f = PartialDispatchFailure { callee: "f".to_string(), arg_types: vec![], reason: PartialDispatchReason::Ambiguous };
    assert_eq!(format_failure_detail(f), "partial dispatch tentou `f` com args [] — múltiplas overloads casam (ambíguo)");
}

#[test]
fn single_braces_are_kept_for_interpolation() {
    assert_eq!(preprocess_escape("{{chave}} e {chave}"), "{chave} e {chave}");
    assert_eq!(preprocess_escape("}}}"), "}}");
}

#[test]
fn control_characters_are_kept() {
    assert_eq!(preprocess_escape("a\u{0}b\u{1}c"), "a\u{0}b\u{1}c");
    assert_eq!(preprocess_escape("{x} {y}"), "{x} {y}");
}
