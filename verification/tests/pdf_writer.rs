use pdf_oxide::object::Object;
use pdf_oxide::writer::pdf_writer::{
    append_objects, catalog_dict, content_stream_dict, encode_content_stream,
    image_content_to_xobject_stream, info_entries, pages_dict, pdf_header, plan_object_ids,
    sort_xref_entries, startxref_tail, trailer_dict, write_pdf_file, xref_section,
    ElementColorSpace, ElementImageFormat, ImageContent, PdfWriterConfig, XObjectColorSpace,
    XObjectImageFormat,
};
use std::io::Read;

#[test]
fn writer_config_default_values() {
    let c = PdfWriterConfig::default();
    assert_eq!(c.version, "1.7");
    assert_eq!(c.creator, Some("pdf_oxide".to_string()));
    assert_eq!(c.title, None);
    assert!(!c.compress);
}

#[test]
fn writer_config_builders() {
    let c = PdfWriterConfig::default()
        .with_title("T")
        .with_author("A")
        .with_subject("S")
        .with_compress(true);
    assert_eq!(c.title, Some("T".to_string()));
    assert_eq!(c.author, Some("A".to_string()));
    assert_eq!(c.subject, Some("S".to_string()));
    assert!(c.compress);
    assert_eq!(c.version, "1.7");
}

#[test]
fn info_dictionary_skips_keywords() {
    let mut c = PdfWriterConfig::default().with_title("T").with_author("A");
    c.keywords = Some("k".to_string());
    let e = info_entries(&c);
    assert_eq!(
        e,
        vec![
            ("Title".to_string(), "T".to_string()),
            ("Author".to_string(), "A".to_string()),
            ("Creator".to_string(), "pdf_oxide".to_string()),
        ]
    );
}

#[test]
fn header_bytes() {
    assert_eq!(pdf_header("1.7"), b"%PDF-1.7\n%\xE2\xE3\xCF\xD3\n".to_vec());
}

#[test]
fn xref_section_is_sorted_and_padded() {
    let s = xref_section(4, &vec![(3, 300), (1, 15), (2, 1234567)]);
    assert_eq!(
        s,
        "xref\n0 4\n0000000000 65535 f \n0000000015 00000 n \n0001234567 00000 n \n0000000300 00000 n \n"
    );
}

#[test]
fn sort_is_stable_by_object_number() {
    let v = sort_xref_entries(&vec![(2, 1), (1, 2), (2, 3), (0, 4)]);
    assert_eq!(v, vec![(0, 4), (1, 2), (2, 1), (2, 3)]);
}

#[test]
fn startxref_tail_text() {
    assert_eq!(startxref_tail(987), "startxref\n987\n%%EOF");
}

#[test]
fn content_stream_uncompressed_is_raw() {
    let (b, c) = encode_content_stream(b"BT ET".to_vec(), false);
    assert_eq!(b, b"BT ET".to_vec());
    assert!(!c);
}

#[test]
fn content_stream_compressed_inflates_back() {
    let raw = b"q 1 0 0 1 0 0 cm BT /F1 12 Tf (hello hello hello hello) Tj ET Q".to_vec();
    let (b, c) = encode_content_stream(raw.clone(), true);
    assert!(c);
    assert_ne!(b, raw);
    let mut out = Vec::new();
    flate2::read::ZlibDecoder::new(&b[..]).read_to_end(&mut out).unwrap();
    assert_eq!(out, raw);
}

#[test]
fn content_stream_dictionary_entries() {
    let d = content_stream_dict(42, true);
    assert_eq!(d.len(), 2);
    assert_eq!(d[0].0, "Length");
    assert!(matches!(d[0].1, Object::Integer(42)));
    assert_eq!(d[1].0, "Filter");
    assert!(matches!(&d[1].1, Object::Name(n) if n == "FlateDecode"));
    assert_eq!(content_stream_dict(7, false).len(), 1);
}

#[test]
fn objects_are_found_at_their_offsets() {
    let mut out = b"HEAD".to_vec();
    let objs = vec![(3u32, b"3 0 obj\nA\nendobj\n".to_vec()), (1u32, b"1 0 obj\nBB\nendobj\n".to_vec())];
    let offsets = append_objects(&mut out, &objs);
    assert_eq!(offsets, vec![(3, 4), (1, 4 + objs[0].1.len())]);
    for ((id, off), (oid, bytes)) in offsets.iter().zip(objs.iter()) {
        assert_eq!(id, oid);
        assert_eq!(&out[*off..*off + bytes.len()], &bytes[..]);
    }
}

#[test]
fn whole_file_layout() {
    let objs = vec![(1u32, b"1 0 obj\n<<>>\nendobj\n".to_vec()), (2u32, b"2 0 obj\n<<>>\nendobj\n".to_vec())];
    let file = write_pdf_file("1.7", &objs, 3, b"<</Size 3/Root 1 0 R>>");
    let text = String::from_utf8_lossy(&file).to_string();
    let header_len = b"%PDF-1.7\n%\xE2\xE3\xCF\xD3\n".len();
    assert!(file.starts_with(b"%PDF-1.7\n%\xE2\xE3\xCF\xD3\n1 0 obj\n"));
    let xref_at = header_len + objs[0].1.len() + objs[1].1.len();
    let expected_tail = format!(
        "xref\n0 3\n0000000000 65535 f \n{:010} 00000 n \n{:010} 00000 n \ntrailer\n<</Size 3/Root 1 0 R>>\nstartxref\n{}\n%%EOF",
        header_len,
        header_len + objs[0].1.len(),
        xref_at
    );
    assert!(text.ends_with(&expected_tail), "{text}");
    assert_eq!(&file[xref_at..xref_at + 4], b"xref");
}

#[test]
fn object_numbers_are_consecutive_in_writer_order() {
    let p = plan_object_ids(7, &vec![2, 0], &vec![0, 1], &vec![vec![true], vec![false, false]]);
    assert_eq!((p.catalog, p.pages), (7, 8));
    assert_eq!(p.page_ids, vec![(9, 10), (11, 12)]);
    assert_eq!(p.annot_ids, vec![vec![13, 14], vec![]]);
    assert_eq!(p.field_ids, vec![vec![], vec![15]]);
    assert_eq!(p.image_ids, vec![vec![(16, Some(17))], vec![(18, None), (19, None)]]);
    assert_eq!(p.acroform, Some(20));
    assert_eq!(p.info, 21);
    assert_eq!(p.size, 22);
    let q = plan_object_ids(1, &vec![0], &vec![0], &vec![vec![]]);
    assert_eq!(q.acroform, None);
    assert_eq!((q.catalog, q.pages, q.page_ids.clone(), q.info, q.size), (1, 2, vec![(3, 4)], 5, 6));
}

#[test]
fn catalog_pages_and_trailer_dictionaries() {
    let c = catalog_dict(2, Some(9));
    assert_eq!(c.len(), 3);
    assert!(matches!(&c[0].1, Object::Name(n) if n == "Catalog"));
    assert!(matches!(c[1].1, Object::Reference(2, 0)));
    assert!(matches!(c[2].1, Object::Reference(9, 0)));
    assert_eq!(catalog_dict(2, None).len(), 2);
    let p = pages_dict(&vec![(3, 4), (5, 6)]);
    assert_eq!(p[1].0, "Kids");
    match &p[1].1 {
        Object::Array(k) => {
            assert_eq!(k.len(), 2);
            assert!(matches!(k[1], Object::Reference(5, 0)));
        },
        other => panic!("unexpected {other:?}"),
    }
    assert!(matches!(p[2].1, Object::Integer(2)));
    let t = trailer_dict(12, 1, 11);
    assert_eq!(t.iter().map(|e| e.0.as_str()).collect::<Vec<_>>(), vec!["Size", "Root", "Info"]);
    assert!(matches!(t[0].1, Object::Integer(12)));
    assert!(matches!(t[2].1, Object::Reference(11, 0)));
}

#[test]
fn image_elements_become_xobject_payloads() {
    let img = ImageContent {
        width: 4,
        height: 2,
        bits_per_component: 8,
        color_space: ElementColorSpace::Lab,
        format: ElementImageFormat::Other,
        data: vec![1, 2, 3],
        soft_mask: Some(vec![9]),
    };
    let (d, sm) = image_content_to_xobject_stream(&img);
    assert_eq!(d.color_space, XObjectColorSpace::DeviceRGB);
    assert_eq!(d.format, XObjectImageFormat::Raw);
    assert_eq!((d.width, d.height, d.bits_per_component), (4, 2, 8));
    assert_eq!(d.data, vec![1, 2, 3]);
    assert_eq!(d.soft_mask, Some(vec![9]));
    assert_eq!(sm, Some(vec![9]));
    let gray = ImageContent { color_space: ElementColorSpace::Gray, format: ElementImageFormat::Jpeg, soft_mask: None, ..img };
    let (d, sm) = image_content_to_xobject_stream(&gray);
    assert_eq!(d.color_space, XObjectColorSpace::DeviceGray);
    assert_eq!(d.format, XObjectImageFormat::Jpeg);
    assert_eq!(sm, None);
}

#[test]
fn setters_of_different_fields_commute() {
    let c = PdfWriterConfig::default().with_author("Ann");
    let a = c.clone().with_title("T").with_subject("S");
    let b = c.with_subject("S").with_title("T");
    assert_eq!(a.title, b.title);
    assert_eq!(a.subject, b.subject);
    assert_eq!(a.author, b.author);
    assert_eq!(a.version, b.version);
    assert_eq!(a.keywords, b.keywords);
    assert_eq!(a.creator, b.creator);
    assert_eq!(a.compress, b.compress);
    assert_eq!(a.title.as_deref(), Some("T"));
    assert_eq!(a.subject.as_deref(), Some("S"));
}
