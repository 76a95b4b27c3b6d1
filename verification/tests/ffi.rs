use pdf_oxide::ffi::{
    barcode_dimensions, barcode_type, classify_error, ffi_parse_stamp_type, hash_algo_from_i32,
    log_level_code, log_level_from_code, outline_to_json, owner_password_or_user, pdf_oxide_get_log_level,
    pdf_oxide_set_log_level, pdf_signature_verify, qr_error_correction, qr_size, render_settings,
    tsa_timeout_secs, RenderImageFormat, RenderSettings,
    xmp_metadata_json, BarcodeType, Destination, FfiBarcodeImage, FfiDocumentBuilder,
    FfiFontList, HashAlgorithm, LogLevel, OutlineItem, QrErrorCorrection, StampType, XmpMetadata,
    ERR_INTERNAL, ERR_INVALID_ARG, ERR_INVALID_PAGE, ERR_IO, ERR_PARSE, ERR_SEARCH,
    ERR_UNSUPPORTED,
};

#[test]
fn error_messages_classify_in_priority_order() {
    assert_eq!(classify_error("file not found"), ERR_IO);
    assert_eq!(classify_error("IO error: broken pipe"), ERR_IO);
    assert_eq!(classify_error("Parse error at offset 3"), ERR_PARSE);
    assert_eq!(classify_error("Invalid PDF: bad xref"), ERR_PARSE);
    assert_eq!(classify_error("page 9 out of range"), ERR_INVALID_PAGE);
    assert_eq!(classify_error("bad index"), ERR_INVALID_PAGE);
    assert_eq!(classify_error("Search failed"), ERR_SEARCH);
    assert_eq!(classify_error("something else"), ERR_INTERNAL);
    // I/O wins over page.
    assert_eq!(classify_error("page file not found"), ERR_IO);
}

#[test]
fn log_level_codes_round_trip() {
    for code in 0..=5 {
        assert_eq!(log_level_code(log_level_from_code(code)), code);
    }
    assert_eq!(log_level_from_code(42), LogLevel::Trace);
    assert_eq!(log_level_from_code(-1), LogLevel::Trace);
}

#[test]
fn global_log_level_reads_back() {
    assert_eq!(pdf_oxide_set_log_level(2), LogLevel::Warn);
    assert_eq!(pdf_oxide_get_log_level(), 2);
    pdf_oxide_set_log_level(9);
    assert_eq!(pdf_oxide_get_log_level(), 5);
    pdf_oxide_set_log_level(0);
    assert_eq!(pdf_oxide_get_log_level(), 0);
}

#[test]
fn hash_algorithm_codes() {
    assert_eq!(hash_algo_from_i32(1), HashAlgorithm::Sha1);
    assert_eq!(hash_algo_from_i32(2), HashAlgorithm::Sha256);
    assert_eq!(hash_algo_from_i32(3), HashAlgorithm::Sha384);
    assert_eq!(hash_algo_from_i32(4), HashAlgorithm::Sha512);
    assert_eq!(hash_algo_from_i32(0), HashAlgorithm::Sha256);
}

#[test]
fn stamp_type_names() {
    assert_eq!(ffi_parse_stamp_type("Approved"), StampType::Approved);
    assert_eq!(ffi_parse_stamp_type("TopSecret"), StampType::TopSecret);
    assert_eq!(ffi_parse_stamp_type("ForPublicRelease"), StampType::ForPublicRelease);
    assert_eq!(ffi_parse_stamp_type("approved"), StampType::Custom("approved".to_string()));
    assert_eq!(ffi_parse_stamp_type(""), StampType::Custom(String::new()));
}

#[test]
fn outline_json_nests_and_escapes() {
    let items = vec![
        OutlineItem {
            title: "Intro \"A\"".to_string(),
            dest: Some(Destination::PageIndex(0)),
            children: vec![OutlineItem {
                title: "Sub".to_string(),
                dest: Some(Destination::Named("sec\"1".to_string())),
                children: vec![],
            }],
        },
        OutlineItem { title: "End".to_string(), dest: None, children: vec![] },
    ];
    assert_eq!(
        outline_to_json(&items),
        r#"[{"title":"Intro \"A\"","dest":0,"children":[{"title":"Sub","dest":"sec\"1","children":[]}]},{"title":"End","dest":null,"children":[]}]"#
    );
    assert_eq!(outline_to_json(&vec![]), "[]");
}

#[test]
fn outline_json_escapes_backslash_and_controls() {
    let items = vec![OutlineItem {
        title: "\\".to_string(),
        dest: Some(Destination::Named("a\tb\n".to_string())),
        children: vec![],
    }];
    assert_eq!(
        outline_to_json(&items),
        r#"[{"title":"\\","dest":"a\tb\n","children":[]}]"#
    );
}

#[test]
fn xmp_json_fields() {
    let x = XmpMetadata {
        dc_title: Some("A \"T\"".to_string()),
        dc_description: None,
        dc_creator: vec!["Ann".to_string(), "Bo".to_string()],
        dc_subject: vec![],
        xmp_creator_tool: Some("Tool".to_string()),
        xmp_create_date: None,
        xmp_modify_date: Some("2024".to_string()),
        pdf_producer: None,
    };
    assert_eq!(
        xmp_metadata_json(&Some(x)),
        r#"{"title":"A \"T\"","description":"","creators":["Ann","Bo"],"subjects":[],"creatorTool":"Tool","createDate":"","modifyDate":"2024","producer":""}"#
    );
    assert_eq!(xmp_metadata_json(&None), "{}");
}

#[test]
fn fonts_from_span_names() {
    let names: Vec<String> =
        ["ABCDEF+Arial", "", "Helvetica", "ABCDEF+Arial", "Times"].iter().map(|s| s.to_string()).collect();
    let list = FfiFontList::from_span_font_names(&names);
    assert_eq!(list.count(), 3);
    let f = list.font_at(0).unwrap();
    assert_eq!(f.name(), "ABCDEF+Arial");
    assert!(f.is_subset());
    assert!(f.is_embedded());
    assert_eq!(f.subtype(), "Unknown");
    assert_eq!(f.encoding(), "Unknown");
    assert!(!list.font_at(1).unwrap().is_subset());
    assert_eq!(list.font_at(2).unwrap().name(), "Times");
    assert_eq!(list.font_at(-1).err(), Some(ERR_INVALID_ARG));
    assert_eq!(list.font_at(3).err(), Some(ERR_INVALID_PAGE));
}

#[test]
fn barcode_option_codes() {
    assert_eq!(qr_error_correction(0), QrErrorCorrection::Low);
    assert_eq!(qr_error_correction(3), QrErrorCorrection::High);
    assert_eq!(qr_error_correction(9), QrErrorCorrection::Medium);
    assert_eq!(barcode_type(4), BarcodeType::UpcA);
    assert_eq!(barcode_type(77), BarcodeType::Code128);
    assert_eq!(qr_size(-3), 1);
    assert_eq!(qr_size(256), 256);
    assert_eq!(barcode_dimensions(300), (300, 100));
    assert_eq!(barcode_dimensions(60), (60, 30));
    assert_eq!(barcode_dimensions(0), (1, 30));
}

#[test]
fn barcode_image_keeps_its_parts() {
    let b = FfiBarcodeImage::new(vec![0x89, 0x50], 2, "4006381333931");
    assert_eq!(b.image_png(), &[0x89, 0x50]);
    assert_eq!(b.format(), 2);
    assert_eq!(b.source_data(), "4006381333931");
}

#[test]
fn signature_verify_codes() {
    assert_eq!(pdf_signature_verify(None), (-1, ERR_UNSUPPORTED));
    assert_eq!(pdf_signature_verify(Some(b"junk")), (-1, ERR_INVALID_ARG));
}

#[test]
fn builder_handle_allows_one_page_at_a_time() {
    let mut h = FfiDocumentBuilder::new(Vec::<u32>::new());
    assert_eq!(h.apply(|mut v| {
        v.push(1);
        v
    }), Ok(()));
    assert_eq!(h.begin_page(), Ok(()));
    assert_eq!(h.begin_page(), Err(ERR_INVALID_ARG));
    assert_eq!(h.apply(|v| v), Err(ERR_INVALID_ARG));
    assert_eq!(h.consume().err(), Some(ERR_INVALID_ARG));
    assert_eq!(h.commit_page(|mut v| {
        v.push(2);
        v
    }), Ok(()));
    assert_eq!(h.begin_page(), Ok(()));
    h.discard_page();
    assert_eq!(h.check_usable(), Ok(()));
    assert_eq!(h.consume(), Ok(vec![1, 2]));
    assert_eq!(h.check_usable(), Err(ERR_INVALID_ARG));
    assert_eq!(h.begin_page(), Err(ERR_INVALID_ARG));
    assert_eq!(h.consume().err(), Some(ERR_INVALID_ARG));
}

#[test]
fn render_options_are_checked() {
    assert_eq!(render_settings(0, 0, 0, 0, 90), Err(ERR_INVALID_ARG));
    assert_eq!(render_settings(150, 0, 0, 0, 0), Err(ERR_INVALID_ARG));
    assert_eq!(render_settings(150, 0, 0, 0, 101), Err(ERR_INVALID_ARG));
    assert_eq!(
        render_settings(150, 1, 1, 0, 85),
        Ok(RenderSettings {
            dpi: 150,
            format: RenderImageFormat::Jpeg,
            transparent_background: true,
            render_annotations: false,
            jpeg_quality: 85,
        })
    );
    assert_eq!(render_settings(72, 7, 0, 2, 1).unwrap().format, RenderImageFormat::Png);
    assert!(render_settings(72, 7, 0, 2, 1).unwrap().render_annotations);
}

#[test]
fn tsa_timeout_defaults_to_thirty_seconds() {
    assert_eq!(tsa_timeout_secs(5), 5);
    assert_eq!(tsa_timeout_secs(0), 30);
    assert_eq!(tsa_timeout_secs(-4), 30);
}

#[test]
fn outline_json_parses_back() {
    let items = vec![OutlineItem {
        title: "a\\b\"c\td\u{1}".to_string(),
        dest: Some(Destination::Named("n\\\n".to_string())),
        children: vec![],
    }];
    let v: serde_json::Value = serde_json::from_str(&outline_to_json(&items)).unwrap();
    assert_eq!(v[0]["title"], "a\\b\"c\td\u{1}");
    assert_eq!(v[0]["dest"], "n\\\n");
}

#[test]
fn owner_password_falls_back_to_user() {
    assert_eq!(owner_password_or_user("user", Some("owner")), "owner");
    assert_eq!(owner_password_or_user("user", None), "user");
    assert_eq!(owner_password_or_user("user", Some("")), "");
}
