use pdf_oxide::writer::document_objects::document_objects;
use pdf_oxide::writer::pdf_writer::{plan_object_ids, write_pdf_file};

#[test]
fn document_objects_follow_the_plan_and_cover_the_xref() {
    // Two font objects were numbered 1 and 2; the plan starts at 3.
    let plan = plan_object_ids(3, &vec![1, 0], &vec![0, 1], &vec![vec![true], vec![]]);
    let fonts = vec![(1u32, b"F1".to_vec()), (2u32, b"F2".to_vec())];
    let objs = document_objects(
        &plan,
        &b"CAT".to_vec(),
        &b"PAGES".to_vec(),
        &fonts,
        &vec![(b"P0".to_vec(), b"C0".to_vec()), (b"P1".to_vec(), b"C1".to_vec())],
        &vec![vec![(b"I0".to_vec(), Some(b"M0".to_vec()))], vec![]],
        &vec![vec![b"A0".to_vec()], vec![]],
        &vec![vec![], vec![b"W1".to_vec()]],
        &Some(b"FORM".to_vec()),
        &b"INFO".to_vec(),
    );
    let order: Vec<(u32, &[u8])> = objs.iter().map(|(i, b)| (*i, b.as_slice())).collect();
    assert_eq!(
        order,
        vec![
            (3, &b"CAT"[..]),
            (4, &b"PAGES"[..]),
            (1, &b"F1"[..]),
            (2, &b"F2"[..]),
            (5, &b"P0"[..]),
            (6, &b"C0"[..]),
            (7, &b"P1"[..]),
            (8, &b"C1"[..]),
            (11, &b"I0"[..]),
            (12, &b"M0"[..]),
            (9, &b"A0"[..]),
            (10, &b"W1"[..]),
            (13, &b"FORM"[..]),
            (14, &b"INFO"[..]),
        ]
    );
    assert_eq!(plan.size, 15);
    let file = write_pdf_file("1.7", &objs, plan.size, b"<<>>");
    let text = String::from_utf8_lossy(&file);
    let xref = &text[text.find("xref\n").unwrap()..text.find("trailer").unwrap()];
    assert!(xref.starts_with("xref\n0 15\n0000000000 65535 f \n"));
    assert_eq!(xref.lines().filter(|l| l.ends_with(" 00000 n ")).count(), 14);
}
