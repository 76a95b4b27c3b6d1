use pdf_oxide::text::{decimal_string, escape, str_contains, str_eq};

#[test]
fn escape_backslash_quote_newline() {
    assert_eq!(escape("a\\b\"c\nd"), "a\\\\b\\\"c\\nd");
    assert_eq!(escape("plain"), "plain");
}

#[test]
fn escape_control_characters() {
    assert_eq!(escape("a\tb\rc"), "a\\tb\\rc");
    assert_eq!(escape("\u{8}\u{c}"), "\\b\\f");
    assert_eq!(escape("\u{1}\u{1f}"), "\\u0001\\u001f");
    assert_eq!(escape("\u{7f} é"), "\u{7f} é");
}

#[test]
fn decimal_strings() {
    assert_eq!(decimal_string(0), "0");
    assert_eq!(decimal_string(1234567890), "1234567890");
    assert_eq!(decimal_string(u64::MAX), "18446744073709551615");
}

#[test]
fn string_search_and_equality() {
    assert!(str_contains("Helvetica-Bold", "-Bold"));
    assert!(!str_contains("Helvetica", "-Bold"));
    assert!(str_contains("abc", ""));
    assert!(str_eq("é", "é"));
    assert!(!str_eq("e", "é"));
}
