use liteparse_ooxml::dimension::{Dimension, Emu};
use liteparse_ooxml::model::color::DrawingColor;
use liteparse_ooxml::model::drawing::{DrawingFill, StyleMatrixRef};
use liteparse_ooxml::model::geometry::{Offset, Size};
use liteparse_ooxml::model::theme::Theme;
use liteparse_ooxml::pptx::cascade::{
    apply_inherited_geometry, background_fill, resolve_background, BackgroundSource, MatchRule,
    PlaceholderGeometry,
};
use liteparse_ooxml::pptx::shape_parse::parse_shape_tree;
use liteparse_ooxml::pptx::shapes::{Background, PlaceholderKind, Shape};
use liteparse_ooxml::render::shape_visuals::ResolvedFill;

fn xfrm(x: i64, y: i64, cx: i64, cy: i64) -> String {
    format!(r#"<a:xfrm><a:off x="{x}" y="{y}"/><a:ext cx="{cx}" cy="{cy}"/></a:xfrm>"#)
}

fn part(shapes: &[(&str, &str, Option<String>)]) -> Vec<Shape> {
    let body: String = shapes
        .iter()
        .map(|(ty, idx, x)| {
            let ph = match (*ty, *idx) {
                ("", "") => "<p:ph/>".to_string(),
                ("", i) => format!(r#"<p:ph idx="{i}"/>"#),
                (t, "") => format!(r#"<p:ph type="{t}"/>"#),
                (t, i) => format!(r#"<p:ph type="{t}" idx="{i}"/>"#),
            };
            format!(
                r#"<p:sp><p:nvSpPr><p:cNvPr id="1" name="s"/><p:nvPr>{ph}</p:nvPr></p:nvSpPr>
                       <p:spPr>{}</p:spPr></p:sp>"#,
                x.clone().unwrap_or_default()
            )
        })
        .collect();
    parse_shape_tree(
        format!(
            r#"<p:sld xmlns:p="p" xmlns:a="a"><p:cSld><p:spTree>{body}</p:spTree></p:cSld></p:sld>"#
        )
        .as_bytes(),
    )
    .expect("parses")
}

fn offset_of(s: &Shape) -> Option<Offset<Emu>> {
    s.transform.and_then(|t| t.offset)
}

fn emu(v: i64) -> Dimension<Emu> {
    Dimension::new(v)
}

#[test]
fn slide_inherits_from_layout_by_idx() {
    let layout = part(&[
        ("title", "0", Some(xfrm(100, 200, 10, 20))),
        ("body", "1", Some(xfrm(300, 400, 30, 40))),
    ]);
    let index = PlaceholderGeometry::from_layout(&layout, None);

    let mut slide = part(&[("body", "1", None)]);
    let stats = apply_inherited_geometry(&mut slide, Some(&index), MatchRule::Idx);

    assert_eq!(stats.inherited, 1);
    assert_eq!(stats.unresolved, 0);
    assert_eq!(offset_of(&slide[0]).unwrap().x, emu(300));
    assert!(slide[0].transform_inherited);
}

#[test]
fn idx_match_ignores_a_disagreeing_type() {
    let layout = part(&[
        ("title", "0", Some(xfrm(100, 200, 10, 20))),
        ("body", "1", Some(xfrm(300, 400, 30, 40))),
    ]);
    let index = PlaceholderGeometry::from_layout(&layout, None);

    let mut slide = part(&[("", "", None)]);
    assert_eq!(
        slide[0].placeholder.as_ref().unwrap().kind,
        PlaceholderKind::Body
    );
    assert_eq!(slide[0].placeholder.as_ref().unwrap().idx, 0);

    apply_inherited_geometry(&mut slide, Some(&index), MatchRule::Idx);
    assert_eq!(
        offset_of(&slide[0]).unwrap().x,
        emu(100),
        "took the title's box"
    );
}

#[test]
fn layout_folds_the_master_in_before_the_slide_asks() {
    let master = part(&[("body", "9", Some(xfrm(700, 800, 70, 80)))]);
    let master_index = PlaceholderGeometry::from_master(&master);

    let layout = part(&[("body", "1", None)]);
    let layout_index = PlaceholderGeometry::from_layout(&layout, Some(&master_index));

    let mut slide = part(&[("body", "1", None)]);
    let stats = apply_inherited_geometry(&mut slide, Some(&layout_index), MatchRule::Idx);

    assert_eq!(stats.inherited, 1);
    assert_eq!(offset_of(&slide[0]).unwrap().y, emu(800));
}

#[test]
fn layout_to_master_collapses_body_ish_types() {
    let master = part(&[("body", "1", Some(xfrm(700, 800, 70, 80)))]);
    let master_index = PlaceholderGeometry::from_master(&master);

    for ty in ["subTitle", "obj", "tbl", "chart", "pic", "dgm"] {
        let mut layout = part(&[(ty, "5", None)]);
        let stats = apply_inherited_geometry(
            &mut layout,
            Some(&master_index),
            MatchRule::CollapsedKind,
        );
        assert_eq!(stats.inherited, 1, "{ty} should collapse onto body");
        assert_eq!(offset_of(&layout[0]).unwrap().x, emu(700));
    }
}

#[test]
fn an_unmatched_placeholder_stays_none() {
    let master = part(&[("title", "0", Some(xfrm(100, 200, 10, 20)))]);
    let master_index = PlaceholderGeometry::from_master(&master);

    let mut layout = part(&[("ftr", "11", None)]);
    let stats =
        apply_inherited_geometry(&mut layout, Some(&master_index), MatchRule::CollapsedKind);

    assert_eq!(stats.unresolved, 1);
    assert_eq!(stats.inherited, 0);
    assert!(layout[0].transform.is_none());
    assert!(!layout[0].transform_inherited);
}

#[test]
fn an_empty_or_absent_source_resolves_nothing() {
    let empty = PlaceholderGeometry::from_master(&[]);
    assert!(empty.is_empty());

    for source in [Some(&empty), None] {
        let mut notes = part(&[("sldImg", "0", None), ("body", "1", None)]);
        let stats = apply_inherited_geometry(&mut notes, source, MatchRule::CollapsedKind);
        assert_eq!(stats.unresolved, 2);
        assert!(notes.iter().all(|s| s.transform.is_none()));
    }
}

#[test]
fn a_declared_transform_is_never_overwritten() {
    let layout = part(&[("body", "1", Some(xfrm(100, 200, 10, 20)))]);
    let index = PlaceholderGeometry::from_layout(&layout, None);

    let mut slide = part(&[("body", "1", Some(xfrm(999, 999, 99, 99)))]);
    let stats = apply_inherited_geometry(&mut slide, Some(&index), MatchRule::Idx);

    assert_eq!(stats.declared, 1);
    assert_eq!(stats.inherited, 0);
    assert_eq!(offset_of(&slide[0]).unwrap().x, emu(999));
    assert!(!slide[0].transform_inherited);
}

#[test]
fn cascade_duplicate_idx_resolves_first_in_document_order() {
    let layout = part(&[
        ("body", "1", Some(xfrm(111, 111, 11, 11))),
        ("body", "1", Some(xfrm(222, 222, 22, 22))),
    ]);
    let index = PlaceholderGeometry::from_layout(&layout, None);

    let mut slide = part(&[("body", "1", None)]);
    apply_inherited_geometry(&mut slide, Some(&index), MatchRule::Idx);
    assert_eq!(offset_of(&slide[0]).unwrap().x, emu(111));
}

#[test]
fn rotation_rides_along_with_the_inherited_transform() {
    let shapes = parse_shape_tree(
        br#"<p:sld xmlns:p="p" xmlns:a="a"><p:cSld><p:spTree>
                 <p:sp><p:nvSpPr><p:cNvPr id="1" name="s"/><p:nvPr><p:ph type="body" idx="1"/></p:nvPr></p:nvSpPr>
                 <p:spPr><a:xfrm rot="-4320000"><a:off x="1" y="2"/><a:ext cx="3" cy="4"/></a:xfrm></p:spPr></p:sp>
               </p:spTree></p:cSld></p:sld>"#,
    )
    .unwrap();
    let index = PlaceholderGeometry::from_layout(&shapes, None);

    let mut slide = part(&[("body", "1", None)]);
    apply_inherited_geometry(&mut slide, Some(&index), MatchRule::Idx);
    let t = slide[0].transform.unwrap();
    assert_eq!(t.rotation.map(|r| r.raw()), Some(-4320000));
    assert_eq!(t.extent.map(|e: Size<Emu>| e.width), Some(emu(3)));
}

#[test]
fn a_non_placeholder_without_geometry_is_an_orphan() {
    let mut shapes = parse_shape_tree(
        br#"<p:sld xmlns:p="p" xmlns:a="a"><p:cSld><p:spTree>
                 <p:sp><p:nvSpPr><p:cNvPr id="1" name="s"/></p:nvSpPr><p:spPr/></p:sp>
               </p:spTree></p:cSld></p:sld>"#,
    )
    .unwrap();
    let stats = apply_inherited_geometry(&mut shapes, None, MatchRule::Idx);
    assert_eq!(stats.orphans, 1);
    assert_eq!(stats.unresolved, 0);
}

fn srgb(rgb: u32) -> DrawingFill {
    DrawingFill::Solid(DrawingColor::srgb(rgb))
}

fn solid(rgb: u32) -> Background {
    Background::Properties(srgb(rgb))
}

fn solid_rgb(f: &ResolvedFill) -> u32 {
    match f {
        ResolvedFill::Solid(c) => c.rgb,
        other => panic!("expected a solid fill, got {other:?}"),
    }
}

#[test]
fn nearest_declared_background_wins() {
    let (s, l, m) = (solid(0x111111), solid(0x222222), solid(0x333333));
    for (slide, layout, master, want_src, want_rgb) in [
        (
            Some(&s),
            Some(&l),
            Some(&m),
            BackgroundSource::Slide,
            0x111111,
        ),
        (None, Some(&l), Some(&m), BackgroundSource::Layout, 0x222222),
        (None, None, Some(&m), BackgroundSource::Master, 0x333333),
    ] {
        let (src, bg) = resolve_background(slide, layout, master).expect("resolves");
        assert_eq!(src, want_src);
        assert_eq!(solid_rgb(&background_fill(bg, None, None, None)), want_rgb);
    }
}

#[test]
fn a_chain_declaring_nothing_resolves_to_none() {
    assert!(resolve_background(None, None, None).is_none());
}

#[test]
fn bg_ref_1001_reads_the_background_matrix_not_the_shape_matrix() {
    let theme = Theme {
        fill_styles: vec![srgb(0xAA0000), srgb(0xBB0000), srgb(0xCC0000)],
        bg_fill_styles: vec![srgb(0x00AA00), srgb(0x00BB00)],
        ..Theme::default()
    };
    let bg = Background::Reference(StyleMatrixRef {
        idx: 1001,
        color: None,
    });
    assert_eq!(
        solid_rgb(&background_fill(&bg, Some(&theme), None, None)),
        0x00AA00
    );

    let bg2 = Background::Reference(StyleMatrixRef {
        idx: 1002,
        color: None,
    });
    assert_eq!(
        solid_rgb(&background_fill(&bg2, Some(&theme), None, None)),
        0x00BB00
    );

    let bg3 = Background::Reference(StyleMatrixRef {
        idx: 2,
        color: None,
    });
    assert_eq!(
        solid_rgb(&background_fill(&bg3, Some(&theme), None, None)),
        0xBB0000
    );
}

#[test]
fn bg_ref_zero_is_no_background() {
    let bg = Background::Reference(StyleMatrixRef {
        idx: 0,
        color: None,
    });
    assert!(matches!(
        background_fill(&bg, Some(&Theme::default()), None, None),
        ResolvedFill::NoFill
    ));
}

#[test]
fn bg_ref_past_the_end_resolves_to_none() {
    let theme = Theme {
        bg_fill_styles: vec![srgb(0x00AA00)],
        ..Theme::default()
    };
    let bg = Background::Reference(StyleMatrixRef {
        idx: 1009,
        color: None,
    });
    assert!(matches!(
        background_fill(&bg, Some(&theme), None, None),
        ResolvedFill::NoFill
    ));
}
