use pdf_oxide::regression::{
    count_non_whitespace, error_line, json_str, page_error_line, page_line, page_stats,
    summary_line,
};
use std::collections::hash_map::DefaultHasher;
use std::hash::{Hash, Hasher};

#[test]
fn json_strings_are_escaped() {
    assert_eq!(json_str("a\"b\\c\nd"), r#""a\"b\\c\nd""#);
    assert_eq!(json_str(""), "\"\"");
    assert_eq!(json_str("a\tb"), r#""a\tb""#);
    assert_eq!(json_str("\u{1b}"), r#""\u001b""#);
}

#[test]
fn non_whitespace_characters_are_counted() {
    assert_eq!(count_non_whitespace(" a b\tc\n\u{3000}é "), 4);
    assert_eq!(count_non_whitespace(""), 0);
}

#[test]
fn page_stats_hash_with_default_hasher() {
    let text = "Hello, world";
    let mut h = DefaultHasher::new();
    text.hash(&mut h);
    let st = page_stats(text);
    assert_eq!(st.hash, h.finish());
    assert_eq!(st.nonws, 11);
    assert_ne!(page_stats("other").hash, st.hash);
}

#[test]
fn record_lines() {
    assert_eq!(
        page_line("a.pdf", 2, 10, 77, 5),
        r#"{"type":"page","path":"a.pdf","page":2,"nonws":10,"hash":77,"ms":5}"#
    );
    assert_eq!(
        page_error_line("a.pdf", 1, "bad \"x\""),
        r#"{"type":"page_err","path":"a.pdf","page":1,"msg":"bad \"x\""}"#
    );
    assert_eq!(
        error_line("b.pdf", "open", "nope"),
        r#"{"type":"error","path":"b.pdf","stage":"open","msg":"nope"}"#
    );
    assert_eq!(
        summary_line("a.pdf", 3, 100, 1, 42),
        r#"{"type":"summary","path":"a.pdf","pages":3,"total_nonws":100,"errors":1,"total_ms":42}"#
    );
}

#[test]
fn json_strings_decode_back() {
    for s in ["", "plain", "a\"b\\c", "tab\there\r\n", "\u{0}\u{1f}\u{7f}", "é ✓ \u{2028}", "\\u0041"] {
        let decoded: String = serde_json::from_str(&json_str(s)).unwrap();
        assert_eq!(decoded, s);
    }
}
