use wasm_bindgen_cli_support::strings::{push_debug_quoted, push_escape_default, push_hex, text_lt};

#[test]
fn debug_quoting_matches_the_debug_format() {
    for t in ["plain", "quote\"d", "back\\slash", "line\nfeed\ttab\r", "nul\0", "bell\u{7}", "del\u{7f}", "é"] {
        let mut out = String::from(">");
        push_debug_quoted(&mut out, t);
        assert_eq!(out, format!(">{:?}", t));
    }
}

#[test]
fn escape_default_matches_std() {
    for t in ["", "abc", "it's \"x\"", "\t\r\n\\", "\u{1}\u{7f}", "\u{e9}\u{1F600}"] {
        let mut out = String::new();
        push_escape_default(&mut out, t);
        assert_eq!(out, t.escape_default().to_string());
    }
}

#[test]
fn hex_digits_are_lowercase_without_leading_zeros() {
    let mut out = String::new();
    push_hex(&mut out, 0);
    push_hex(&mut out, 0x1f600);
    push_hex(&mut out, u32::MAX);
    assert_eq!(out, "01f600ffffffff");
}

#[test]
fn texts_compare_by_code_points() {
    assert!(text_lt("Mid", "alpha"));
    assert!(text_lt("ab", "abc"));
    assert!(!text_lt("abc", "abc"));
    assert!(!text_lt("b", "a"));
    assert!(text_lt("z", "\u{e9}"));
    assert!(text_lt("", "a"));
}
