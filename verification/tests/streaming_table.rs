use pdf_oxide::error::Error;
use pdf_oxide::writer::document_builder::TextAlign;
use pdf_oxide::writer::streaming_table::{
    cell_to_text_align, check_row_width, header_font_name, CellAlign, StreamingRow,
};

#[test]
fn row_collects_cells_in_order() {
    let mut r = StreamingRow::new();
    r.cell("a").cell("b");
    r.cell("c");
    assert_eq!(r.into_cells(), vec!["a".to_string(), "b".to_string(), "c".to_string()]);
}

#[test]
fn row_width_mismatch_message() {
    match check_row_width(1, 2) {
        Err(Error::InvalidOperation(m)) => {
            assert_eq!(m, "streaming_table: row has 1 cells, expected 2")
        },
        other => panic!("unexpected {other:?}"),
    }
    match check_row_width(3, 0) {
        Err(Error::InvalidOperation(m)) => assert_eq!(m, "streaming_table: no columns configured"),
        other => panic!("unexpected {other:?}"),
    }
    assert!(check_row_width(2, 2).is_ok());
}

#[test]
fn header_font_is_bold_variant() {
    assert_eq!(header_font_name("Helvetica"), "Helvetica-Bold");
    assert_eq!(header_font_name("Helvetica-Bold"), "Helvetica-Bold");
    assert_eq!(header_font_name("Times-BoldItalic"), "Times-BoldItalic");
}

#[test]
fn cell_alignment_maps_to_text_alignment() {
    assert_eq!(cell_to_text_align(CellAlign::Left), TextAlign::Left);
    assert_eq!(cell_to_text_align(CellAlign::Center), TextAlign::Center);
    assert_eq!(cell_to_text_align(CellAlign::Right), TextAlign::Right);
}
