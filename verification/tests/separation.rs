use pdf_oxide::error::Error;
use pdf_oxide::object::Object;
use pdf_oxide::rendering::separation_renderer::{
    blend_mode_name, collect_page_inks, combine_clip_masks, has_cmyk_content, line_cap_style,
    line_join_style, lookup_color_space, plate_from_rgba, render_separations, tint_for_ink,
    merge_color_spaces, separation_step, ColorOp, InkTracker, LineCapStyle, LineJoinStyle,
    SepAction, SepColorOp, SepPaintOp, SeparationState, TintSource,
};

fn s(v: &[&str]) -> Vec<String> {
    v.iter().map(|x| x.to_string()).collect()
}

fn name(n: &str) -> Object {
    Object::Name(n.to_string())
}

#[test]
fn cmyk_content_is_detected() {
    assert!(has_cmyk_content(&[ColorOp::Other, ColorOp::SetStrokeCmyk]));
    assert!(has_cmyk_content(&[ColorOp::SetFillColorSpace("CMYK".to_string())]));
    assert!(has_cmyk_content(&[ColorOp::SetStrokeColorSpace("DeviceCMYK".to_string())]));
    assert!(!has_cmyk_content(&[ColorOp::SetFillColorSpace("DeviceRGB".to_string()), ColorOp::Other]));
    assert!(!has_cmyk_content(&[]));
}

#[test]
fn page_inks_put_process_inks_first_without_duplicates() {
    let inks = collect_page_inks(&[ColorOp::SetFillCmyk], &s(&["PANTONE 185 C", "Cyan", "Dieline", "PANTONE 185 C"]));
    assert_eq!(inks, s(&["Cyan", "Magenta", "Yellow", "Black", "PANTONE 185 C", "Dieline"]));
}

#[test]
fn page_inks_without_cmyk_are_spot_inks() {
    let inks = collect_page_inks(&[ColorOp::Other], &s(&["Gold", "Silver", "Gold"]));
    assert_eq!(inks, s(&["Gold", "Silver"]));
    assert!(collect_page_inks(&[], &vec![]).is_empty());
}

#[test]
fn plate_takes_the_red_channel() {
    let rgba = vec![10, 1, 1, 255, 20, 2, 2, 255, 30, 3, 3, 255, 40, 4, 4, 255, 50, 5, 5, 255, 60, 6, 6, 255];
    let p = plate_from_rgba("Cyan", &rgba, 3, 2);
    assert_eq!(p.ink_name, "Cyan");
    assert_eq!((p.width, p.height), (3, 2));
    assert_eq!(p.data, vec![10, 20, 30, 40, 50, 60]);
}

#[test]
fn tint_from_cmyk_channels() {
    let cs = vec![];
    assert_eq!(tint_for_ink("DeviceCMYK", true, &cs, "Magenta", 4), Some(TintSource::CmykChannel(1)));
    assert_eq!(tint_for_ink("CMYK", true, &cs, "Black", 4), Some(TintSource::CmykChannel(3)));
    assert_eq!(tint_for_ink("DeviceCMYK", false, &cs, "Cyan", 4), None);
    assert_eq!(tint_for_ink("DeviceCMYK", true, &cs, "Gold", 4), None);
    assert_eq!(tint_for_ink("DeviceRGB", true, &cs, "Cyan", 3), None);
    assert_eq!(tint_for_ink("G", true, &cs, "Black", 1), None);
}

#[test]
fn tint_from_separation_and_devicen() {
    let cs = vec![
        ("CS0".to_string(), Object::Array(vec![name("Separation"), name("Gold"), name("DeviceCMYK")])),
        (
            "CS1".to_string(),
            Object::Array(vec![name("DeviceN"), Object::Array(vec![name("Cyan"), name("Gold"), name("Silver")])]),
        ),
        ("CS2".to_string(), Object::Array(vec![name("ICCBased"), Object::Reference(12, 0)])),
    ];
    assert_eq!(tint_for_ink("CS0", false, &cs, "Gold", 1), Some(TintSource::Component(0)));
    assert_eq!(tint_for_ink("CS0", false, &cs, "Gold", 0), None);
    assert_eq!(tint_for_ink("CS0", false, &cs, "Silver", 1), None);
    assert_eq!(tint_for_ink("CS1", false, &cs, "Silver", 3), Some(TintSource::Component(2)));
    assert_eq!(tint_for_ink("CS1", false, &cs, "Silver", 2), None);
    assert_eq!(tint_for_ink("CS2", false, &cs, "Yellow", 4), Some(TintSource::Component(2)));
    assert_eq!(tint_for_ink("CS2", false, &cs, "Yellow", 3), None);
    assert_eq!(tint_for_ink("CS9", false, &cs, "Gold", 1), None);
}

#[test]
fn later_color_space_entry_wins() {
    let cs = vec![
        ("CS0".to_string(), Object::Array(vec![name("Separation"), name("Gold")])),
        ("CS0".to_string(), Object::Array(vec![name("Separation"), name("Silver")])),
    ];
    assert!(matches!(lookup_color_space(&cs, "CS0"), Some(Object::Array(a)) if matches!(&a[1], Object::Name(n) if n == "Silver")));
    assert_eq!(tint_for_ink("CS0", false, &cs, "Silver", 1), Some(TintSource::Component(0)));
    assert_eq!(tint_for_ink("CS0", false, &cs, "Gold", 1), None);
}

#[test]
fn clip_masks_multiply() {
    let mut m = vec![255, 128, 0, 200];
    combine_clip_masks(&mut m, &[255, 255, 255, 100]);
    assert_eq!(m, vec![255, 128, 0, 78]);
    let mut m = vec![10, 250];
    combine_clip_masks(&mut m, &[0, 128, 99]);
    assert_eq!(m, vec![0, 125]);
}

#[test]
fn line_styles_from_codes() {
    assert_eq!(line_cap_style(0), LineCapStyle::Butt);
    assert_eq!(line_cap_style(1), LineCapStyle::Round);
    assert_eq!(line_cap_style(2), LineCapStyle::Square);
    assert_eq!(line_cap_style(7), LineCapStyle::Butt);
    assert_eq!(line_join_style(1), LineJoinStyle::Round);
    assert_eq!(line_join_style(2), LineJoinStyle::Bevel);
    assert_eq!(line_join_style(-1), LineJoinStyle::Miter);
}

#[test]
fn blend_mode_from_name_or_array() {
    assert_eq!(blend_mode_name(&name("Multiply")), "Multiply");
    assert_eq!(blend_mode_name(&Object::Array(vec![name("Screen"), name("Normal")])), "Screen");
    assert_eq!(blend_mode_name(&Object::Array(vec![])), "Normal");
    assert_eq!(blend_mode_name(&Object::Integer(3)), "Normal");
}

#[test]
fn ink_tracker_follows_colour_operators() {
    let cs = vec![(
        "CS0".to_string(),
        Object::Array(vec![name("Separation"), name("Gold"), name("DeviceCMYK")]),
    )];
    let mut t: InkTracker<u32> = InkTracker::new();
    assert_eq!(t.tint(true, &cs, "Cyan"), None);
    t.apply(&SepColorOp::SetFillCmyk(10, 20, 30, 40));
    assert_eq!(t.tint(true, &cs, "Yellow"), Some(30));
    assert_eq!(t.tint(false, &cs, "Yellow"), None);
    t.apply(&SepColorOp::Save);
    t.apply(&SepColorOp::SetFillColorSpace("CS0".to_string()));
    assert_eq!(t.tint(true, &cs, "Gold"), Some(10));
    t.apply(&SepColorOp::SetFillColor(vec![77]));
    assert_eq!(t.tint(true, &cs, "Gold"), Some(77));
    assert_eq!(t.tint(true, &cs, "Cyan"), None);
    t.apply(&SepColorOp::Restore);
    assert_eq!(t.tint(true, &cs, "Black"), Some(40));
    t.apply(&SepColorOp::Restore);
    assert_eq!(t.tint(true, &cs, "Black"), Some(40));
    t.apply(&SepColorOp::SetStrokeColorSpace("DeviceCMYK".to_string()));
    assert_eq!(t.tint(false, &cs, "Cyan"), None);
    t.apply(&SepColorOp::SetStrokeColor(vec![1, 2, 3, 4, 5]));
    assert_eq!(t.tint(false, &cs, "Black"), Some(4));
    t.apply(&SepColorOp::SetStrokeRgb(9, 9, 9));
    assert_eq!(t.tint(false, &cs, "Black"), None);
    assert_eq!(t.current().stroke_space, "DeviceRGB");
}

#[test]
fn one_plate_per_ink_in_ink_order() {
    let plates = render_separations(&[ColorOp::SetFillCmyk], &s(&["Gold", "Cyan"]), |ink: String| {
        Ok(plate_from_rgba(&ink, &[7, 0, 0, 255], 1, 1))
    })
    .unwrap();
    let names: Vec<&str> = plates.iter().map(|p| p.ink_name.as_str()).collect();
    assert_eq!(names, vec!["Cyan", "Magenta", "Yellow", "Black", "Gold"]);
    assert!(render_separations(&[], &vec![], |_ink: String| -> Result<_, Error> { panic!("no inks") })
        .unwrap()
        .is_empty());
}

#[test]
fn first_render_error_is_returned() {
    let r = render_separations(&[], &s(&["A", "B", "C"]), |ink: String| {
        if ink == "A" {
            Ok(plate_from_rgba(&ink, &[], 0, 0))
        } else {
            Err(Error::InvalidPdf(format!("cannot render {ink}")))
        }
    });
    match r {
        Err(Error::InvalidPdf(m)) => assert_eq!(m, "cannot render B"),
        other => panic!("unexpected {other:?}"),
    }
}

fn gold_space() -> Vec<(String, Object)> {
    vec![(
        "CS0".to_string(),
        Object::Array(vec![name("Separation"), name("Gold"), name("DeviceCMYK")]),
    )]
}

fn paint(fill: Option<bool>, stroke: bool, path_nonempty: bool) -> SepPaintOp<u32> {
    SepPaintOp::Paint { fill, stroke, path_nonempty }
}

fn color(op: SepColorOp<u32>) -> SepPaintOp<u32> {
    SepPaintOp::Color(op)
}

#[test]
fn separation_step_paints_only_the_target_ink() {
    let cs = gold_space();
    let mut st: SeparationState<u32> = SeparationState::new();
    let none = SepAction::Paint { clip: None, fill: None, stroke: None };
    assert_eq!(separation_step(&mut st, &paint(Some(false), true, true), &cs, "Gold"), none);
    assert_eq!(
        separation_step(&mut st, &color(SepColorOp::SetFillColorSpace("CS0".to_string())), &cs, "Gold"),
        SepAction::Nothing
    );
    separation_step(&mut st, &color(SepColorOp::SetFillColor(vec![200])), &cs, "Gold");
    assert_eq!(
        separation_step(&mut st, &paint(Some(true), true, true), &cs, "Gold"),
        SepAction::Paint { clip: None, fill: Some((200, true)), stroke: None }
    );
    assert_eq!(separation_step(&mut st, &paint(Some(false), true, true), &cs, "Cyan"), none);
    assert_eq!(separation_step(&mut st, &paint(Some(false), true, false), &cs, "Gold"), none);
    separation_step(&mut st, &color(SepColorOp::SetStrokeCmyk(5, 6, 7, 8)), &cs, "Gold");
    assert_eq!(
        separation_step(&mut st, &paint(None, true, true), &cs, "Black"),
        SepAction::Paint { clip: None, fill: None, stroke: Some(8) }
    );
    assert_eq!(
        separation_step(&mut st, &paint(Some(false), true, true), &cs, "Gold"),
        SepAction::Paint { clip: None, fill: Some((200, false)), stroke: None }
    );
}

#[test]
fn separation_step_applies_a_pending_clip_once() {
    let cs = gold_space();
    let mut st: SeparationState<u32> = SeparationState::new();
    let clip = |even_odd, path_nonempty| SepPaintOp::Clip { even_odd, path_nonempty };
    assert_eq!(separation_step(&mut st, &clip(true, true), &cs, "Gold"), SepAction::RememberClip {
        even_odd: true
    });
    assert_eq!(st.pending_clip(), Some(true));
    assert_eq!(separation_step(&mut st, &clip(false, false), &cs, "Gold"), SepAction::Nothing);
    assert_eq!(st.pending_clip(), Some(true));
    assert_eq!(
        separation_step(&mut st, &SepPaintOp::EndPath, &cs, "Gold"),
        SepAction::Paint { clip: Some(true), fill: None, stroke: None }
    );
    assert_eq!(st.pending_clip(), None);
    separation_step(&mut st, &clip(false, true), &cs, "Gold");
    assert_eq!(
        separation_step(&mut st, &paint(Some(false), false, true), &cs, "Gold"),
        SepAction::Paint { clip: Some(false), fill: None, stroke: None }
    );
    assert_eq!(
        separation_step(&mut st, &paint(Some(false), false, true), &cs, "Gold"),
        SepAction::Paint { clip: None, fill: None, stroke: None }
    );
}

#[test]
fn separation_step_saves_and_restores_the_colour() {
    let cs = gold_space();
    let mut st: SeparationState<u32> = SeparationState::new();
    assert_eq!(separation_step(&mut st, &color(SepColorOp::Save), &cs, "Magenta"), SepAction::Save);
    separation_step(&mut st, &color(SepColorOp::SetFillCmyk(1, 2, 3, 4)), &cs, "Magenta");
    assert_eq!(
        separation_step(&mut st, &paint(Some(false), false, true), &cs, "Magenta"),
        SepAction::Paint { clip: None, fill: Some((2, false)), stroke: None }
    );
    assert_eq!(
        separation_step(&mut st, &color(SepColorOp::Restore), &cs, "Magenta"),
        SepAction::Restore { pop: true }
    );
    assert_eq!(
        separation_step(&mut st, &paint(Some(false), false, true), &cs, "Magenta"),
        SepAction::Paint { clip: None, fill: None, stroke: None }
    );
    assert_eq!(
        separation_step(&mut st, &color(SepColorOp::Restore), &cs, "Magenta"),
        SepAction::Restore { pop: false }
    );
}

#[test]
fn separation_step_runs_only_form_xobjects() {
    let cs = gold_space();
    let mut st: SeparationState<u32> = SeparationState::new();
    assert_eq!(separation_step(&mut st, &SepPaintOp::Do { is_form: true }, &cs, "Gold"), SepAction::RunForm);
    assert_eq!(separation_step(&mut st, &SepPaintOp::Do { is_form: false }, &cs, "Gold"), SepAction::Nothing);
    assert_eq!(separation_step(&mut st, &SepPaintOp::Geometry, &cs, "Gold"), SepAction::Geometry);
    assert_eq!(separation_step(&mut st, &SepPaintOp::Other, &cs, "Gold"), SepAction::Nothing);
}

#[test]
fn absent_ink_is_never_painted() {
    let cs = gold_space();
    let mut st: SeparationState<u32> = SeparationState::new();
    let ops = vec![
        color(SepColorOp::SetFillCmyk(9, 9, 9, 9)),
        paint(Some(false), true, true),
        color(SepColorOp::SetFillColorSpace("CS0".to_string())),
        color(SepColorOp::SetFillColor(vec![255])),
        paint(Some(true), true, true),
    ];
    for op in &ops {
        let a = separation_step(&mut st, op, &cs, "Silver");
        if let SepAction::Paint { fill, stroke, .. } = a {
            assert_eq!((fill, stroke), (None, None));
        }
    }
}

#[test]
fn merged_color_spaces_prefer_the_form() {
    let parent = vec![("CS0".to_string(), name("DeviceRGB")), ("CS1".to_string(), name("DeviceGray"))];
    let form = vec![("CS0".to_string(), name("DeviceCMYK"))];
    let merged = merge_color_spaces(parent, form);
    assert_eq!(merged.len(), 3);
    match lookup_color_space(&merged, "CS0") {
        Some(Object::Name(n)) => assert_eq!(n, "DeviceCMYK"),
        other => panic!("unexpected {other:?}"),
    }
    match lookup_color_space(&merged, "CS1") {
        Some(Object::Name(n)) => assert_eq!(n, "DeviceGray"),
        other => panic!("unexpected {other:?}"),
    }
}

#[test]
fn rgb_and_gray_streams_paint_nothing() {
    let cs = gold_space();
    for target in ["Cyan", "Black", "Gold"] {
        let mut st: SeparationState<u32> = SeparationState::new();
        let ops = vec![
            color(SepColorOp::SetFillRgb(1, 2, 3)),
            paint(Some(false), true, true),
            color(SepColorOp::Save),
            color(SepColorOp::SetStrokeGray(7)),
            SepPaintOp::Clip { even_odd: false, path_nonempty: true },
            paint(Some(true), true, true),
            color(SepColorOp::SetFillColorSpace("DeviceGray".to_string())),
            color(SepColorOp::SetFillColor(vec![1, 2, 3, 4])),
            color(SepColorOp::Restore),
            paint(Some(false), true, true),
        ];
        for op in &ops {
            match separation_step(&mut st, op, &cs, target) {
                SepAction::Paint { fill, stroke, .. } => assert_eq!((fill, stroke), (None, None)),
                SepAction::RunForm => panic!("no form"),
                _ => {},
            }
        }
    }
}

#[test]
fn earlier_inks_render_before_the_first_error() {
    let seen = std::cell::RefCell::new(Vec::new());
    let r = render_separations(&[ColorOp::SetFillCmyk], &vec![], |ink: String| {
        seen.borrow_mut().push(ink.clone());
        if ink == "Yellow" {
            Err(Error::InvalidPdf("no yellow".to_string()))
        } else {
            Ok(plate_from_rgba(&ink, &[0, 0, 0, 0], 1, 1))
        }
    });
    assert!(r.is_err());
    assert_eq!(seen.into_inner(), vec!["Cyan", "Magenta", "Yellow"]);
}
