use pdf_oxide::writer::document_builder::{wrap_text, writer_config_for, DocumentMetadata};

#[test]
fn test_document_metadata() {
    let meta = DocumentMetadata::new()
        .title("Test Title")
        .author("Test Author")
        .subject("Test Subject");

    assert_eq!(meta.title, Some("Test Title".to_string()));
    assert_eq!(meta.author, Some("Test Author".to_string()));
    assert_eq!(meta.subject, Some("Test Subject".to_string()));
}

#[test]
fn test_wrap_text() {
    let text = "This is a test of the word wrapping function";
    let wrapped = wrap_text(text, 20);
    assert!(wrapped.len() > 1);
    for line in &wrapped {
        assert!(line.len() <= 20 || line.split_whitespace().count() == 1);
    }
}

#[test]
fn test_wrap_text_empty() {
    let wrapped = wrap_text("", 20);
    assert_eq!(wrapped.len(), 1);
    assert_eq!(wrapped[0], "");
}

#[test]
fn wrap_text_exact_lines() {
    let wrapped = wrap_text("This is a test of the word wrapping function", 20);
    assert_eq!(wrapped, vec!["This is a test of", "the word wrapping", "function"]);
}

#[test]
fn wrap_text_long_word_gets_own_line() {
    let wrapped = wrap_text("a supercalifragilistic b", 5);
    assert_eq!(wrapped, vec!["a", "supercalifragilistic", "b"]);
}

#[test]
fn wrap_text_keeps_words_in_order() {
    let text = "  several   spaced\twords\nhere ";
    let wrapped = wrap_text(text, 9);
    let rejoined = wrapped.join(" ");
    let words: Vec<&str> = text.split_whitespace().collect();
    assert_eq!(rejoined, words.join(" "));
}

#[test]
fn wrap_text_counts_bytes() {
    // "é" takes two bytes: "éé éé" is 9 bytes, so it does not fit in 8.
    assert_eq!(wrap_text("éé éé", 8), vec!["éé", "éé"]);
    assert_eq!(wrap_text("éé éé", 9), vec!["éé éé"]);
}

#[test]
fn metadata_builders_keep_other_fields() {
    let meta = DocumentMetadata::new().keywords("k1, k2").creator("me").title("T");
    assert_eq!(meta.keywords, Some("k1, k2".to_string()));
    assert_eq!(meta.creator, Some("me".to_string()));
    assert_eq!(meta.title, Some("T".to_string()));
    assert_eq!(meta.author, None);
    assert_eq!(meta.version, None);
}

#[test]
fn writer_config_defaults_from_metadata() {
    let cfg = writer_config_for(&DocumentMetadata::new().title("T"));
    assert_eq!(cfg.version, "1.7");
    assert_eq!(cfg.title, Some("T".to_string()));
    assert_eq!(cfg.creator, Some("pdf_oxide".to_string()));
    assert!(!cfg.compress);
    let cfg = writer_config_for(&DocumentMetadata::new().creator("tool").keywords("k"));
    assert_eq!(cfg.creator, Some("tool".to_string()));
    assert_eq!(cfg.keywords, Some("k".to_string()));
}
