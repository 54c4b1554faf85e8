use liteparse_ooxml::dimension::{Dimension, HalfPoints};
use liteparse_ooxml::model::run::{Alignment, RunProperties};
use liteparse_ooxml::pptx::shape_parse::parse_shape_tree;
use liteparse_ooxml::pptx::shapes::{Placeholder, PlaceholderKind, Shape};
use liteparse_ooxml::pptx::text::{Bullet, ListStyle, TextParagraphProperties, TextStyles};
use liteparse_ooxml::pptx::text_parse::{
    parse_default_text_style, parse_text_body, parse_text_styles,
};
use liteparse_ooxml::pptx::textcascade::{
    DeckTextDefaults, PlaceholderTextStyles, ResolvedTextStyle, SizeSource, TextCascade,
    SPEC_DEFAULT_FONT_SIZE,
};

fn pt(half_points: i64) -> Dimension<HalfPoints> {
    Dimension::new(half_points)
}

fn size_of(r: &ResolvedTextStyle) -> i64 {
    r.run_defaults.font_size.expect("always resolved").raw()
}

fn shape_style(inner: &str) -> ListStyle {
    parse_text_body(
        format!(
            r#"<p:txBody xmlns:p="p" xmlns:a="a"><a:lstStyle><a:lvl1pPr>{inner}</a:lvl1pPr></a:lstStyle></p:txBody>"#
        )
        .as_bytes(),
    )
    .expect("parses")
    .list_style
}

fn part(shapes: &[(&str, &str, &str)]) -> Vec<Shape> {
    let body: String = shapes
        .iter()
        .map(|(ty, idx, inner)| {
            format!(
                r#"<p:sp><p:nvSpPr><p:cNvPr id="1" name="s"/>
                       <p:nvPr><p:ph type="{ty}" idx="{idx}"/></p:nvPr></p:nvSpPr>
                       <p:spPr/><p:txBody><a:bodyPr/>
                       <a:lstStyle><a:lvl1pPr>{inner}</a:lvl1pPr></a:lstStyle></p:txBody></p:sp>"#
            )
        })
        .collect();
    parse_shape_tree(
        format!(
            r#"<p:sld xmlns:p="p" xmlns:a="a"><p:cSld><p:spTree>{body}</p:spTree></p:cSld></p:sld>"#
        )
        .as_bytes(),
    )
    .expect("parses")
}

fn ph(kind: PlaceholderKind, idx: u32) -> Placeholder {
    Placeholder { kind, idx }
}

fn empty() -> TextParagraphProperties {
    TextParagraphProperties::default()
}

#[test]
fn an_empty_chain_lands_on_the_spec_default_and_records_it() {
    let cascade = TextCascade {
        shape: None,
        layout: None,
        master: None,
        deck: None,
    };
    let r = cascade.resolve(&empty(), None);
    assert_eq!(r.run_defaults.font_size, Some(Dimension::new(SPEC_DEFAULT_FONT_SIZE)));
    assert_eq!(size_of(&r), 36, "18pt in half-points");
    assert_eq!(r.size_source, SizeSource::SpecDefault);
}

#[test]
fn a_non_placeholder_shape_reaches_default_text_style() {
    let deck = DeckTextDefaults {
        master_styles: TextStyles::default(),
        default_text_style: parse_default_text_style(
            br#"<p:presentation xmlns:p="p" xmlns:a="a"><p:defaultTextStyle>
                      <a:lvl1pPr><a:defRPr sz="1400"/></a:lvl1pPr>
                    </p:defaultTextStyle></p:presentation>"#,
        )
        .unwrap(),
    };
    let cascade = TextCascade {
        shape: None,
        layout: None,
        master: None,
        deck: Some(&deck),
    };
    let r = cascade.resolve(&empty(), None);
    assert_eq!(size_of(&r), 28, "14pt");
    assert_eq!(r.size_source, SizeSource::DefaultTextStyle);
}

#[test]
fn placeholder_rungs_are_invisible_to_a_non_placeholder_shape() {
    let layout_shapes = part(&[("title", "0", r#"<a:defRPr sz="4000"/>"#)]);
    let layout = PlaceholderTextStyles::from_part(&layout_shapes);
    let deck = DeckTextDefaults {
        master_styles: parse_text_styles(
            br#"<p:sldMaster xmlns:p="p" xmlns:a="a"><p:txStyles>
                      <p:bodyStyle><a:lvl1pPr><a:defRPr sz="9900"/></a:lvl1pPr></p:bodyStyle>
                    </p:txStyles></p:sldMaster>"#,
        )
        .unwrap(),
        default_text_style: parse_default_text_style(
            br#"<p:presentation xmlns:p="p" xmlns:a="a"><p:defaultTextStyle>
                      <a:lvl1pPr><a:defRPr sz="1800"/></a:lvl1pPr>
                    </p:defaultTextStyle></p:presentation>"#,
        )
        .unwrap(),
    };
    let cascade = TextCascade {
        shape: None,
        layout: Some(&layout),
        master: None,
        deck: Some(&deck),
    };
    let r = cascade.resolve(&empty(), None);
    assert_eq!(
        size_of(&r),
        36,
        "took defaultTextStyle, not the placeholders"
    );
    assert_eq!(r.size_source, SizeSource::DefaultTextStyle);
}

#[test]
fn the_layout_rung_matches_idx_not_type() {
    let layout_shapes = part(&[
        ("title", "0", r#"<a:defRPr sz="4400"/>"#),
        ("body", "1", r#"<a:defRPr sz="1800"/>"#),
    ]);
    let layout = PlaceholderTextStyles::from_part(&layout_shapes);
    let cascade = TextCascade {
        shape: None,
        layout: Some(&layout),
        master: None,
        deck: None,
    };
    let r = cascade.resolve(&empty(), Some(&ph(PlaceholderKind::Body, 0)));
    assert_eq!(size_of(&r), 88, "22pt — the title's, reached by idx");
    assert_eq!(r.size_source, SizeSource::LayoutPlaceholder);
}

#[test]
fn the_master_placeholder_rung_beats_tx_styles() {
    let master_shapes = part(&[("body", "1", r#"<a:defRPr sz="3200"/>"#)]);
    let master = PlaceholderTextStyles::from_part(&master_shapes);
    let deck = DeckTextDefaults {
        master_styles: parse_text_styles(
            br#"<p:sldMaster xmlns:p="p" xmlns:a="a"><p:txStyles>
                      <p:bodyStyle><a:lvl1pPr><a:defRPr sz="1400"/></a:lvl1pPr></p:bodyStyle>
                    </p:txStyles></p:sldMaster>"#,
        )
        .unwrap(),
        default_text_style: ListStyle::default(),
    };
    let cascade = TextCascade {
        shape: None,
        layout: None,
        master: Some(&master),
        deck: Some(&deck),
    };
    let r = cascade.resolve(&empty(), Some(&ph(PlaceholderKind::Body, 7)));
    assert_eq!(size_of(&r), 64, "32pt from the master shape, not 14pt");
    assert_eq!(r.size_source, SizeSource::MasterPlaceholder);
}

#[test]
fn body_ish_kinds_collapse_at_the_master_rung() {
    let master_shapes = part(&[("body", "1", r#"<a:defRPr sz="2000"/>"#)]);
    let master = PlaceholderTextStyles::from_part(&master_shapes);
    let cascade = TextCascade {
        shape: None,
        layout: None,
        master: Some(&master),
        deck: None,
    };
    for kind in [
        PlaceholderKind::SubTitle,
        PlaceholderKind::Obj,
        PlaceholderKind::Tbl,
        PlaceholderKind::Chart,
        PlaceholderKind::Pic,
    ] {
        let r = cascade.resolve(&empty(), Some(&ph(kind, 5)));
        assert_eq!(size_of(&r), 40, "{kind:?} should collapse onto body");
    }
}

#[test]
fn tx_styles_routes_title_body_and_chrome_separately() {
    let deck = DeckTextDefaults {
        master_styles: parse_text_styles(
            br#"<p:sldMaster xmlns:p="p" xmlns:a="a"><p:txStyles>
                      <p:titleStyle><a:lvl1pPr><a:defRPr sz="4400"/></a:lvl1pPr></p:titleStyle>
                      <p:bodyStyle><a:lvl1pPr><a:defRPr sz="2800"/></a:lvl1pPr></p:bodyStyle>
                      <p:otherStyle><a:lvl1pPr><a:defRPr sz="1200"/></a:lvl1pPr></p:otherStyle>
                    </p:txStyles></p:sldMaster>"#,
        )
        .unwrap(),
        default_text_style: ListStyle::default(),
    };
    let cascade = TextCascade {
        shape: None,
        layout: None,
        master: None,
        deck: Some(&deck),
    };
    let cases = [
        (PlaceholderKind::Title, 88),
        (PlaceholderKind::CtrTitle, 88),
        (PlaceholderKind::Body, 56),
        (PlaceholderKind::SubTitle, 56),
        (PlaceholderKind::Dt, 24),
        (PlaceholderKind::Ftr, 24),
        (PlaceholderKind::SldNum, 24),
    ];
    for (kind, expected) in cases {
        let r = cascade.resolve(&empty(), Some(&ph(kind, 0)));
        assert_eq!(size_of(&r), expected, "{kind:?}");
        assert_eq!(r.size_source, SizeSource::MasterTextStyles);
    }
}

#[test]
fn a_partial_rung_does_not_stop_the_walk() {
    let layout_shapes = part(&[("body", "1", r#"<a:defRPr b="1"/>"#)]);
    let layout = PlaceholderTextStyles::from_part(&layout_shapes);
    let deck = DeckTextDefaults {
        master_styles: parse_text_styles(
            br#"<p:sldMaster xmlns:p="p" xmlns:a="a"><p:txStyles>
                      <p:bodyStyle><a:lvl1pPr algn="ctr"><a:defRPr sz="2800" i="1"/></a:lvl1pPr></p:bodyStyle>
                    </p:txStyles></p:sldMaster>"#,
        )
        .unwrap(),
        default_text_style: ListStyle::default(),
    };
    let cascade = TextCascade {
        shape: None,
        layout: Some(&layout),
        master: None,
        deck: Some(&deck),
    };
    let r = cascade.resolve(&empty(), Some(&ph(PlaceholderKind::Body, 1)));
    assert_eq!(r.run_defaults.bold, Some(true), "from the layout");
    assert_eq!(
        size_of(&r),
        56,
        "size continued past the layout to txStyles"
    );
    assert_eq!(r.run_defaults.italic, Some(true), "also from txStyles");
    assert_eq!(r.alignment, Some(Alignment::Center));
    assert_eq!(r.size_source, SizeSource::MasterTextStyles);
}

#[test]
fn an_explicit_off_overrides_an_inherited_on() {
    let shape = shape_style(r#"<a:defRPr b="0"/>"#);
    let deck = DeckTextDefaults {
        master_styles: TextStyles::default(),
        default_text_style: parse_default_text_style(
            br#"<p:presentation xmlns:p="p" xmlns:a="a"><p:defaultTextStyle>
                      <a:lvl1pPr><a:defRPr sz="1800" b="1"/></a:lvl1pPr>
                    </p:defaultTextStyle></p:presentation>"#,
        )
        .unwrap(),
    };
    let cascade = TextCascade {
        shape: Some(&shape),
        layout: None,
        master: None,
        deck: Some(&deck),
    };
    let r = cascade.resolve(&empty(), None);
    assert_eq!(r.run_defaults.bold, Some(false), "not re-inherited as true");
    assert_eq!(size_of(&r), 36, "size still came from the outer rung");
}

#[test]
fn apply_to_run_fills_only_what_the_run_left_unset() {
    let deck = DeckTextDefaults {
        master_styles: TextStyles::default(),
        default_text_style: parse_default_text_style(
            br#"<p:presentation xmlns:p="p" xmlns:a="a"><p:defaultTextStyle>
                      <a:lvl1pPr><a:defRPr sz="1800" b="1" i="1"/></a:lvl1pPr>
                    </p:defaultTextStyle></p:presentation>"#,
        )
        .unwrap(),
    };
    let cascade = TextCascade {
        shape: None,
        layout: None,
        master: None,
        deck: Some(&deck),
    };
    let resolved = cascade.resolve(&empty(), None);

    let mut run = RunProperties {
        font_size: Some(pt(48)),
        bold: Some(false),
        ..Default::default()
    };
    resolved.apply_to_run(&mut run);
    assert_eq!(run.font_size, Some(pt(48)), "direct size untouched");
    assert_eq!(run.bold, Some(false), "explicit off untouched");
    assert_eq!(run.italic, Some(true), "unset field inherited");
}

#[test]
fn each_level_resolves_independently() {
    let deck = DeckTextDefaults {
        master_styles: parse_text_styles(
            br#"<p:sldMaster xmlns:p="p" xmlns:a="a"><p:txStyles><p:bodyStyle>
                      <a:lvl1pPr><a:defRPr sz="2800"/></a:lvl1pPr>
                      <a:lvl2pPr><a:defRPr sz="2400"/></a:lvl2pPr>
                      <a:lvl3pPr><a:defRPr sz="2000"/></a:lvl3pPr>
                    </p:bodyStyle></p:txStyles></p:sldMaster>"#,
        )
        .unwrap(),
        default_text_style: ListStyle::default(),
    };
    let cascade = TextCascade {
        shape: None,
        layout: None,
        master: None,
        deck: Some(&deck),
    };
    for (level, expected) in [(0u8, 56), (1, 48), (2, 40)] {
        let props = TextParagraphProperties {
            level: Some(level),
            ..Default::default()
        };
        let r = cascade.resolve(&props, Some(&ph(PlaceholderKind::Body, 1)));
        assert_eq!(size_of(&r), expected, "lvl {level}");
        assert_eq!(r.level, level);
    }
}

#[test]
fn an_out_of_range_level_falls_through_to_the_spec_default() {
    let deck = DeckTextDefaults {
        master_styles: parse_text_styles(
            br#"<p:sldMaster xmlns:p="p" xmlns:a="a"><p:txStyles>
                      <p:bodyStyle><a:lvl1pPr><a:defRPr sz="2800"/></a:lvl1pPr></p:bodyStyle>
                    </p:txStyles></p:sldMaster>"#,
        )
        .unwrap(),
        default_text_style: ListStyle::default(),
    };
    let cascade = TextCascade {
        shape: None,
        layout: None,
        master: None,
        deck: Some(&deck),
    };
    let props = TextParagraphProperties {
        level: Some(200),
        ..Default::default()
    };
    let r = cascade.resolve(&props, Some(&ph(PlaceholderKind::Body, 1)));
    assert_eq!(r.size_source, SizeSource::SpecDefault);
    assert_eq!(size_of(&r), 36);
}

#[test]
fn an_explicit_bu_none_overrides_an_inherited_bullet() {
    let shape = shape_style("<a:buNone/>");
    let deck = DeckTextDefaults {
        master_styles: parse_text_styles(
            br#"<p:sldMaster xmlns:p="p" xmlns:a="a"><p:txStyles><p:bodyStyle>
                      <a:lvl1pPr><a:buChar char="&#8226;"/><a:defRPr sz="1800"/></a:lvl1pPr>
                    </p:bodyStyle></p:txStyles></p:sldMaster>"#,
        )
        .unwrap(),
        default_text_style: ListStyle::default(),
    };
    let cascade = TextCascade {
        shape: Some(&shape),
        layout: None,
        master: None,
        deck: Some(&deck),
    };
    let r = cascade.resolve(&empty(), Some(&ph(PlaceholderKind::Body, 1)));
    assert_eq!(r.bullet, Some(Bullet::NoBullet), "explicit un-bullet held");
}

#[test]
fn an_empty_source_behaves_as_an_absent_one() {
    let empty_index = PlaceholderTextStyles::from_part(&[]);
    assert!(empty_index.is_empty());
    let empty_deck = DeckTextDefaults::default();

    let with = TextCascade {
        shape: None,
        layout: Some(&empty_index),
        master: Some(&empty_index),
        deck: Some(&empty_deck),
    };
    let without = TextCascade {
        shape: None,
        layout: None,
        master: None,
        deck: None,
    };
    let a = with.resolve(&empty(), Some(&ph(PlaceholderKind::Body, 1)));
    let b = without.resolve(&empty(), Some(&ph(PlaceholderKind::Body, 1)));
    assert_eq!(a.size_source, b.size_source);
    assert_eq!(size_of(&a), size_of(&b));
}

#[test]
fn a_placeholder_without_a_list_style_is_not_indexed() {
    let shapes = parse_shape_tree(
        br#"<p:sld xmlns:p="p" xmlns:a="a"><p:cSld><p:spTree>
                 <p:sp><p:nvSpPr><p:cNvPr id="1" name="s"/>
                 <p:nvPr><p:ph type="body" idx="1"/></p:nvPr></p:nvSpPr>
                 <p:spPr/><p:txBody><a:bodyPr/><a:p/></p:txBody></p:sp>
               </p:spTree></p:cSld></p:sld>"#,
    )
    .unwrap();
    assert!(PlaceholderTextStyles::from_part(&shapes).is_empty());
}

#[test]
fn textcascade_duplicate_idx_resolves_first_in_document_order() {
    let shapes = part(&[
        ("body", "1", r#"<a:defRPr sz="1100"/>"#),
        ("body", "1", r#"<a:defRPr sz="2200"/>"#),
    ]);
    let layout = PlaceholderTextStyles::from_part(&shapes);
    let cascade = TextCascade {
        shape: None,
        layout: Some(&layout),
        master: None,
        deck: None,
    };
    let r = cascade.resolve(&empty(), Some(&ph(PlaceholderKind::Body, 1)));
    assert_eq!(size_of(&r), 22);
}
