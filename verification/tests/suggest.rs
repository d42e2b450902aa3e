use wasm_bindgen_cli_support::suggest::{
    format_suggestions, levenshtein, rank_suggestions, suggest, suggestion_threshold,
    MAX_SUGGESTIONS,
};

#[test]
fn distance_basic() {
    assert_eq!(levenshtein("", ""), 0);
    assert_eq!(levenshtein("a", ""), 1);
    assert_eq!(levenshtein("", "a"), 1);
    assert_eq!(levenshtein("kitten", "sitting"), 3);
    assert_eq!(levenshtein("Point", "Pont"), 1);
    assert_eq!(levenshtein("Point", "Pont2"), 2);
}

#[test]
fn threshold_short_inputs_strict() {
    // 2-char input: threshold 0 so nothing fuzzy-matches.
    let s = suggest("ab", &["ax", "ay", "az"]);
    assert!(s.is_empty(), "got: {s:?}");
}

#[test]
fn threshold_longer_inputs_tolerant() {
    let s = suggest("Pont", &["Point", "Status", "Sphere"]);
    assert!(s.contains("Point"), "got: {s:?}");
    assert!(!s.contains("Status"), "got: {s:?}");
}

#[test]
fn caps_at_max_suggestions() {
    let s = suggest("Foo", &["Foa", "Fob", "Foc", "Fod", "Foe"]);
    let count = s.matches("  - ").count();
    assert!(count <= MAX_SUGGESTIONS, "got: {s:?}");
}

#[test]
fn excludes_exact_match() {
    let s = suggest("Foo", &["Foo", "Foa"]);
    assert!(!s.contains("`Foo`"), "got: {s:?}");
    assert!(s.contains("Foa"), "got: {s:?}");
}

#[test]
fn empty_when_no_match() {
    let s = suggest("Banana", &["Carburetor", "Pneumatic", "Xylophone"]);
    assert!(s.is_empty(), "got: {s:?}");
}

#[test]
fn single_vs_plural_phrasing() {
    let single = suggest("Pont", &["Point", "Sphere"]);
    assert!(single.contains("did you mean `Point`?"), "got: {single:?}");
    let multi = suggest("Pont", &["Point", "Pent"]);
    assert!(multi.contains("one of these"), "got: {multi:?}");
}

#[test]
fn levenshtein_is_symmetric_and_zero_on_equal_inputs() {
    for (a, b) in [("kitten", "sitting"), ("", "abc"), ("flaw", "lawn"), ("same", "same")] {
        assert_eq!(levenshtein(a, b), levenshtein(b, a));
        assert_eq!(levenshtein(a, a), 0);
        assert!(levenshtein(a, b) <= a.len().max(b.len()));
    }
}

#[test]
fn threshold_values() {
    assert_eq!(suggestion_threshold(0), 0);
    assert_eq!(suggestion_threshold(2), 0);
    assert_eq!(suggestion_threshold(3), 1);
    assert_eq!(suggestion_threshold(5), 1);
    assert_eq!(suggestion_threshold(6), 2);
}

#[test]
fn ranking_orders_by_distance_then_input_order() {
    let ranked = rank_suggestions("Pont", &["Pent", "Point", "Pint", "Zzzz"]);
    assert_eq!(ranked, vec!["Pent", "Point", "Pint"]);
    let ranked = rank_suggestions("Foo", &["Foo", "Fo", "Fooo"]);
    assert_eq!(ranked, vec!["Fo", "Fooo"]);
}

#[test]
fn formatting_of_suggestion_lists() {
    assert_eq!(format_suggestions(&[]), "");
    assert_eq!(format_suggestions(&["Point"]), "\nhelp: did you mean `Point`?");
    let multi = format_suggestions(&["Point", "Pent"]);
    assert!(multi.contains("one of these"));
    assert_eq!(multi, "\nhelp: did you mean one of these?\n  - Point\n  - Pent");
}

#[test]
fn suggest_is_empty_exactly_when_nothing_is_close() {
    // "opitons" is within the threshold of "options" (distance 2, threshold 2).
    assert!(!suggest("opitons", &["options", "zzzzzzzz"]).is_empty());
    // Only the input itself, an empty candidate and a far one: nothing.
    assert_eq!(suggest("opitons", &["opitons", "", "zzzzzzzz"]), "");
    // Short inputs have threshold 0: only an exact (and so excluded) match.
    assert_eq!(suggest("ab", &["ac", "ab"]), "");
}
