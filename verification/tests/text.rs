use liteparse_ooxml::model::color::{DrawingColor, SchemeColorVal};
use liteparse_ooxml::model::run::{Alignment, RunProperties, ThemeFontRef};
use liteparse_ooxml::pptx::text::{
    AutoNumberScheme, Bullet, Inline, Spacing, TextBody, MAX_LIST_LEVEL,
};
use liteparse_ooxml::pptx::text_parse::parse_text_body;

fn body(inner: &str) -> TextBody {
    let xml = format!(
        r#"<p:txBody xmlns:a="http://schemas.openxmlformats.org/drawingml/2006/main"
                         xmlns:p="http://schemas.openxmlformats.org/presentationml/2006/main"
                         xmlns:r="http://schemas.openxmlformats.org/officeDocument/2006/relationships">{inner}</p:txBody>"#
    );
    parse_text_body(xml.as_bytes()).expect("parses")
}

fn run_props(b: &TextBody, para: usize, run: usize) -> RunProperties {
    match &b.paragraphs[para].content[run] {
        Inline::TextRun(r) => r.properties.clone(),
        other => panic!("expected a run, got {other:?}"),
    }
}

#[test]
fn font_size_is_hundredths_of_a_point_not_half_points() {
    let b = body(r#"<a:p><a:r><a:rPr sz="1800"/><a:t>x</a:t></a:r></a:p>"#);
    let size = run_props(&b, 0, 0).font_size.expect("size present");
    assert_eq!(size.raw() as f32 / 2.0, 18.0);
}

#[test]
fn break_keeps_its_position_between_runs() {
    let b = body(r#"<a:p><a:r><a:t>one</a:t></a:r><a:br/><a:r><a:t>two</a:t></a:r></a:p>"#);
    assert_eq!(b.paragraphs[0].text(), "one\ntwo");
}

#[test]
fn field_emits_its_cached_value() {
    let b = body(r#"<a:p><a:fld id="{1}" type="slidenum"><a:t>7</a:t></a:fld></a:p>"#);
    assert_eq!(b.paragraphs[0].text(), "7");
}

#[test]
fn field_without_cached_value_is_dropped() {
    let b = body(r#"<a:p><a:fld id="{1}" type="datetime"/></a:p>"#);
    assert!(b.paragraphs[0].content.is_empty());
}

#[test]
fn bu_none_is_distinct_from_absent() {
    let explicit = body(r#"<a:p><a:pPr><a:buNone/></a:pPr><a:r><a:t>x</a:t></a:r></a:p>"#);
    assert_eq!(explicit.paragraphs[0].properties.bullet, Some(Bullet::NoBullet));

    let absent = body(r#"<a:p><a:pPr/><a:r><a:t>x</a:t></a:r></a:p>"#);
    assert_eq!(absent.paragraphs[0].properties.bullet, None);
}

#[test]
fn bullet_char_carries_its_font() {
    let b = body(
        r#"<a:p><a:pPr><a:buFont typeface="Wingdings"/><a:buChar char="v"/></a:pPr></a:p>"#,
    );
    assert_eq!(
        b.paragraphs[0].properties.bullet,
        Some(Bullet::Character {
            char: "v".to_string(),
            font: Some("Wingdings".to_string()),
        })
    );
}

#[test]
fn auto_number_scheme_and_start() {
    let b =
        body(r#"<a:p><a:pPr><a:buAutoNum type="alphaLcParenR" startAt="3"/></a:pPr></a:p>"#);
    assert_eq!(
        b.paragraphs[0].properties.bullet,
        Some(Bullet::AutoNumber {
            scheme: AutoNumberScheme::AlphaLcParenR,
            start_at: Some(3),
        })
    );
}

#[test]
fn unknown_auto_number_scheme_is_preserved_not_fatal() {
    let b = body(r#"<a:p><a:pPr><a:buAutoNum type="ealphaFullWidth"/></a:pPr></a:p>"#);
    let Some(Bullet::AutoNumber { scheme, .. }) = &b.paragraphs[0].properties.bullet else {
        panic!("expected an auto-number bullet");
    };
    assert_eq!(scheme, &AutoNumberScheme::Other("ealphaFullWidth".into()));
}

#[test]
fn list_style_levels_are_zero_indexed() {
    let b = body(
        r#"<a:lstStyle>
                 <a:lvl1pPr marL="111"/>
                 <a:lvl3pPr marL="333"/>
               </a:lstStyle>"#,
    );
    assert_eq!(
        b.list_style.level(0).unwrap().margin_left.unwrap().raw(),
        111
    );
    assert!(b.list_style.level(1).is_none());
    assert_eq!(
        b.list_style.level(2).unwrap().margin_left.unwrap().raw(),
        333
    );
    assert!(
        b.list_style.level(9).is_none(),
        "out of range yields None, not a panic"
    );
}

#[test]
fn out_of_range_level_clamps() {
    let b = body(r#"<a:p><a:pPr lvl="42"/></a:p>"#);
    assert_eq!(b.paragraphs[0].properties.level, Some(MAX_LIST_LEVEL - 1));
}

#[test]
fn consecutive_runs_sharing_a_target_merge_into_one_link() {
    let b = body(
        r#"<a:p>
                 <a:r><a:rPr><a:hlinkClick r:id="rId2"/></a:rPr><a:t>lite</a:t></a:r>
                 <a:r><a:rPr><a:hlinkClick r:id="rId2"/></a:rPr><a:t>parse</a:t></a:r>
               </a:p>"#,
    );
    assert_eq!(b.paragraphs[0].content.len(), 1);
    let Inline::Hyperlink(link) = &b.paragraphs[0].content[0] else {
        panic!("expected a hyperlink");
    };
    assert_eq!(link.content.len(), 2);
    assert_eq!(b.paragraphs[0].text(), "liteparse");
}

#[test]
fn different_targets_do_not_merge() {
    let b = body(
        r#"<a:p>
                 <a:r><a:rPr><a:hlinkClick r:id="rId2"/></a:rPr><a:t>a</a:t></a:r>
                 <a:r><a:rPr><a:hlinkClick r:id="rId3"/></a:rPr><a:t>b</a:t></a:r>
               </a:p>"#,
    );
    assert_eq!(b.paragraphs[0].content.len(), 2);
}

#[test]
fn empty_relationship_id_is_not_a_link() {
    let b = body(r#"<a:p><a:r><a:rPr><a:hlinkClick r:id=""/></a:rPr><a:t>x</a:t></a:r></a:p>"#);
    assert!(matches!(b.paragraphs[0].content[0], Inline::TextRun(_)));
}

#[test]
fn theme_font_reference_is_not_an_explicit_family() {
    let b = body(
        r#"<a:p><a:r><a:rPr><a:latin typeface="+mn-lt"/></a:rPr><a:t>x</a:t></a:r></a:p>"#,
    );
    let fonts = run_props(&b, 0, 0).fonts;
    assert_eq!(fonts.ascii.explicit, None);
    assert_eq!(fonts.ascii.theme, Some(ThemeFontRef::MinorHAnsi));
}

#[test]
fn explicit_font_family_survives() {
    let b = body(
        r#"<a:p><a:r><a:rPr><a:latin typeface="Calibri"/></a:rPr><a:t>x</a:t></a:r></a:p>"#,
    );
    let fonts = run_props(&b, 0, 0).fonts;
    assert_eq!(fonts.ascii.explicit.as_deref(), Some("Calibri"));
    assert_eq!(
        fonts.high_ansi.explicit.as_deref(),
        Some("Calibri"),
        "a:latin fills both latin slots"
    );
}

#[test]
fn leading_and_trailing_whitespace_is_content() {
    let b = body(r#"<a:p><a:r><a:t>one </a:t></a:r><a:r><a:t> two</a:t></a:r></a:p>"#);
    assert_eq!(b.paragraphs[0].text(), "one  two");
}

#[test]
fn scheme_color_is_carried_unresolved() {
    let b = body(
        r#"<a:p><a:r><a:rPr><a:solidFill><a:schemeClr val="tx1"/></a:solidFill></a:rPr><a:t>x</a:t></a:r></a:p>"#,
    );
    assert!(matches!(
        run_props(&b, 0, 0).drawing_color,
        Some(DrawingColor::Scheme {
            name: SchemeColorVal::Tx1,
            ..
        })
    ));
}

#[test]
fn scheme_color_keeps_its_transforms() {
    let b = body(
        r#"<a:p><a:r><a:rPr><a:solidFill><a:schemeClr val="accent1"><a:lumMod val="65000"/></a:schemeClr></a:solidFill></a:rPr><a:t>x</a:t></a:r></a:p>"#,
    );
    let props = run_props(&b, 0, 0);
    let color = props.drawing_color.as_ref().expect("colour");
    assert_eq!(color.transforms().len(), 1);
}

#[test]
fn srgb_color_is_read() {
    let b = body(
        r#"<a:p><a:r><a:rPr><a:solidFill><a:srgbClr val="FF6600"/></a:solidFill></a:rPr><a:t>x</a:t></a:r></a:p>"#,
    );
    assert!(matches!(
        run_props(&b, 0, 0).drawing_color,
        Some(DrawingColor::Srgb { rgb: 0xFF6600, .. })
    ));
}

#[test]
fn drawingml_does_not_populate_the_word_color_field() {
    let b = body(
        r#"<a:p><a:r><a:rPr><a:solidFill><a:srgbClr val="FF6600"/></a:solidFill></a:rPr><a:t>x</a:t></a:r></a:p>"#,
    );
    assert_eq!(run_props(&b, 0, 0).color, None);
}

#[test]
fn caps_none_is_explicit_off() {
    let b = body(r#"<a:p><a:r><a:rPr cap="none"/><a:t>x</a:t></a:r></a:p>"#);
    assert_eq!(run_props(&b, 0, 0).all_caps, Some(false));

    let inherit = body(r#"<a:p><a:r><a:rPr/><a:t>x</a:t></a:r></a:p>"#);
    assert_eq!(run_props(&inherit, 0, 0).all_caps, None);
}

#[test]
fn caps_all_sets_all_caps() {
    let b = body(r#"<a:p><a:r><a:rPr cap="all"/><a:t>x</a:t></a:r></a:p>"#);
    assert_eq!(run_props(&b, 0, 0).all_caps, Some(true));
}

#[test]
fn end_para_run_properties_are_kept() {
    let b = body(r#"<a:p><a:endParaRPr sz="2400" b="1"/></a:p>"#);
    let end = b.paragraphs[0]
        .end_run_properties
        .as_ref()
        .expect("present");
    assert_eq!(end.font_size.unwrap().raw() as f32 / 2.0, 24.0);
    assert_eq!(end.bold, Some(true));
}

#[test]
fn spacing_percent_and_points_are_distinguished() {
    let b = body(
        r#"<a:p><a:pPr>
                 <a:lnSpc><a:spcPct val="90000"/></a:lnSpc>
                 <a:spcBef><a:spcPts val="600"/></a:spcBef>
               </a:pPr></a:p>"#,
    );
    let p = &b.paragraphs[0].properties;
    assert!(matches!(p.line_spacing, Some(Spacing::Percent(_))));
    let Some(Spacing::Points(pts)) = p.space_before else {
        panic!("expected an absolute spacing");
    };
    assert_eq!(pts.raw() as f32 / 100.0, 6.0);
}

#[test]
fn alignment_maps_onto_the_shared_vocabulary() {
    for (algn, expected) in [
        ("l", Alignment::Start),
        ("ctr", Alignment::Center),
        ("r", Alignment::End),
        ("just", Alignment::Both),
    ] {
        let b = body(&format!(r#"<a:p><a:pPr algn="{algn}"/></a:p>"#));
        assert_eq!(
            b.paragraphs[0].properties.alignment,
            Some(expected),
            "algn={algn}"
        );
    }
}

#[test]
fn unknown_attribute_values_degrade_to_inherit() {
    let b = body(
        r#"<a:p><a:pPr algn="bogus" lvl="notanumber"/><a:r><a:rPr sz="huge"/><a:t>x</a:t></a:r></a:p>"#,
    );
    assert_eq!(b.paragraphs[0].properties.alignment, None);
    assert_eq!(b.paragraphs[0].properties.level, None);
    assert_eq!(run_props(&b, 0, 0).font_size, None);
    assert_eq!(
        b.paragraphs[0].text(),
        "x",
        "content survives a bad attribute"
    );
}

#[test]
fn drawingml_spelling_parses_the_same_as_the_presentationml_one() {
    let xml = r#"<a:txBody xmlns:a="http://schemas.openxmlformats.org/drawingml/2006/main">
                       <a:bodyPr/><a:p><a:r><a:t>cell</a:t></a:r></a:p>
                     </a:txBody>"#;
    let b = parse_text_body(xml.as_bytes()).expect("parses");
    assert_eq!(b.paragraphs[0].text(), "cell");
}

#[test]
fn unmodeled_elements_are_ignored_not_fatal() {
    let b = body(
        r#"<a:p><a:pPr><a:tabLst><a:tab pos="100" algn="l"/></a:tabLst></a:pPr>
                 <a:r><a:rPr><a:effectLst/><a:sym typeface="Wingdings"/></a:rPr><a:t>x</a:t></a:r>
               </a:p>"#,
    );
    assert_eq!(b.paragraphs[0].text(), "x");
}

#[test]
fn body_properties_come_through_the_shared_docx_schema() {
    let b = body(
        r#"<a:bodyPr lIns="0" anchor="ctr"><a:normAutofit fontScale="62500"/></a:bodyPr><a:p/>"#,
    );
    let bp = b.body_pr.expect("present");
    assert_eq!(bp.left_inset.unwrap().raw(), 0);
    assert!(bp.anchor.is_some());
    assert!(bp.auto_fit.is_some());
}

#[test]
fn empty_body_is_reported_empty() {
    assert!(body(r#"<a:bodyPr/><a:p><a:endParaRPr/></a:p>"#).is_empty());
    assert!(!body(r#"<a:p><a:r><a:t>x</a:t></a:r></a:p>"#).is_empty());
}
