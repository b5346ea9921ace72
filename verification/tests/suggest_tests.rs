use lib::suggest::suggest_similar;

fn names(v: &[&str]) -> Vec<String> {
    v.iter().map(|s| s.to_string()).collect()
}

#[test]
fn close_name_is_suggested() {
    let r = suggest_similar("lenght", &names(&["length", "width", "len"]));
    assert_eq!(r, Some("você quis dizer `length`?".to_string()));
}

#[test]
fn nothing_close_gives_none() {
    assert_eq!(suggest_similar("alpha", &names(&["omega", "zeta"])), None);
}

#[test]
fn exact_name_is_not_a_suggestion() {
    assert_eq!(suggest_similar("x", &names(&["x"])), None);
}

#[test]
fn closest_first_then_by_name_at_most_three() {
    let r = suggest_similar("ab", &names(&["ax", "ac", "b", "abcd", "zz"]));
    assert_eq!(r, Some("você quis dizer `ac`, `ax`, `b`?".to_string()));
}

#[test]
fn order_of_candidates_does_not_matter() {
    let a = suggest_similar("ab", &names(&["ax", "ac", "b", "abcd"]));
    let b = suggest_similar("ab", &names(&["abcd", "b", "ac", "ax"]));
    assert_eq!(a, b);
}

#[test]
fn longer_names_allow_more_edits() {
    let r = suggest_similar("transformer", &names(&["transfrm"]));
    assert_eq!(r, Some("você quis dizer `transfrm`?".to_string()));
}
