use pdf_oxide::object::Object;
use pdf_oxide::writer::font_pdf_objects::{
    allocate_embedded_font_ids, build_embedded_font_objects, parse_widths_string_to_array,
    EmbeddedFontData,
};

#[test]
fn parse_widths_simple() {
    let parsed = parse_widths_string_to_array("[ 36 [ 600 600 ] 65 [ 720 ] ]");
    // Outer is an array of: integer 36, inner-array [600,600], integer 65, inner [720].
    match parsed {
        Object::Array(items) => assert_eq!(items.len(), 4),
        other => panic!("expected array, got {other:?}"),
    }
}

#[test]
fn parse_widths_empty() {
    let parsed = parse_widths_string_to_array("[]");
    match parsed {
        Object::Array(items) => assert!(items.is_empty()),
        other => panic!("expected empty array, got {other:?}"),
    }
}

fn ints(o: &Object) -> Vec<i64> {
    match o {
        Object::Array(v) => v
            .iter()
            .map(|x| match x {
                Object::Integer(n) => *n,
                other => panic!("expected integer, got {other:?}"),
            })
            .collect(),
        other => panic!("expected array, got {other:?}"),
    }
}

#[test]
fn parse_widths_values() {
    match parse_widths_string_to_array("[ 36 [ 600 600 ] 65 [ 720 ] ]") {
        Object::Array(items) => {
            assert!(matches!(items[0], Object::Integer(36)));
            assert_eq!(ints(&items[1]), vec![600, 600]);
            assert!(matches!(items[2], Object::Integer(65)));
            assert_eq!(ints(&items[3]), vec![720]);
        },
        other => panic!("expected array, got {other:?}"),
    }
}

#[test]
fn parse_widths_negative_and_unparsable_tokens() {
    match parse_widths_string_to_array("[1 [ -5 x 7 ]]") {
        Object::Array(items) => {
            assert_eq!(items.len(), 2);
            assert!(matches!(items[0], Object::Integer(1)));
            assert_eq!(ints(&items[1]), vec![-5, 7]);
        },
        other => panic!("expected array, got {other:?}"),
    }
}

#[test]
fn embedded_font_ids_are_consecutive() {
    let (ids, next) = allocate_embedded_font_ids(10);
    assert_eq!(ids.font_file, 10);
    assert_eq!(ids.descriptor, 11);
    assert_eq!(ids.cidfont, 12);
    assert_eq!(ids.tounicode, 13);
    assert_eq!(ids.type0, 14);
    assert_eq!(next, 15);
}

fn sample_font() -> EmbeddedFontData {
    EmbeddedFontData {
        base_font: "ABCDEF+DejaVuSans".to_string(),
        font_bytes: vec![0, 1, 0, 0, 9, 9, 9],
        flags: 32,
        font_bbox: ("-1021".to_string(), "-463".to_string(), "1793".to_string(), "1232".to_string()),
        italic_angle: "0".to_string(),
        ascent: 928,
        descent: -236,
        cap_height: 729,
        x_height: 547,
        stem_v: 80,
        widths: "[ 36 [ 600 610 ] ]".to_string(),
        tounicode_cmap: b"begincmap endcmap".to_vec(),
    }
}

fn entry<'a>(d: &'a [(String, Object)], key: &str) -> &'a Object {
    &d.iter().find(|(k, _)| k == key).unwrap().1
}

#[test]
fn embedded_font_graph_is_linked() {
    let (ids, objs, next) = build_embedded_font_objects(sample_font(), 10);
    assert_eq!(next, 15);
    let numbers: Vec<u32> = objs.iter().map(|o| o.0).collect();
    assert_eq!(numbers, vec![10, 11, 12, 13, 14]);
    assert_eq!((ids.font_file, ids.descriptor, ids.cidfont, ids.tounicode, ids.type0), (10, 11, 12, 13, 14));
    match &objs[0].1 {
        Object::Stream(d, data) => {
            assert_eq!(data.len(), 7);
            assert!(matches!(entry(d, "Length"), Object::Integer(7)));
            assert!(matches!(entry(d, "Length1"), Object::Integer(7)));
        },
        other => panic!("unexpected {other:?}"),
    }
    match &objs[1].1 {
        Object::Dictionary(d) => {
            assert!(matches!(entry(d, "FontFile2"), Object::Reference(10, 0)));
            assert!(matches!(entry(d, "Descent"), Object::Integer(-236)));
            assert!(matches!(entry(d, "FontName"), Object::Name(n) if n == "ABCDEF+DejaVuSans"));
            match entry(d, "FontBBox") {
                Object::Array(a) => assert!(matches!(&a[0], Object::Real(r) if r == "-1021")),
                other => panic!("unexpected {other:?}"),
            }
        },
        other => panic!("unexpected {other:?}"),
    }
    match &objs[2].1 {
        Object::Dictionary(d) => {
            assert!(matches!(entry(d, "FontDescriptor"), Object::Reference(11, 0)));
            match entry(d, "W") {
                Object::Array(a) => {
                    assert!(matches!(a[0], Object::Integer(36)));
                    assert!(matches!(&a[1], Object::Array(w) if w.len() == 2));
                },
                other => panic!("unexpected {other:?}"),
            }
            match entry(d, "CIDSystemInfo") {
                Object::Dictionary(c) => assert!(matches!(entry(c, "Ordering"), Object::Str(s) if s == "Identity")),
                other => panic!("unexpected {other:?}"),
            }
        },
        other => panic!("unexpected {other:?}"),
    }
    match &objs[3].1 {
        Object::Stream(d, data) => {
            assert_eq!(data.as_slice(), b"begincmap endcmap");
            assert!(matches!(entry(d, "Length"), Object::Integer(17)));
        },
        other => panic!("unexpected {other:?}"),
    }
    match &objs[4].1 {
        Object::Dictionary(d) => {
            assert!(matches!(entry(d, "Encoding"), Object::Name(n) if n == "Identity-H"));
            assert!(matches!(entry(d, "ToUnicode"), Object::Reference(13, 0)));
            match entry(d, "DescendantFonts") {
                Object::Array(a) => assert!(matches!(a.as_slice(), [Object::Reference(12, 0)])),
                other => panic!("unexpected {other:?}"),
            }
        },
        other => panic!("unexpected {other:?}"),
    }
}
