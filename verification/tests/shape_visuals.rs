use std::rc::Rc;

use liteparse_ooxml::dimension::{Dimension, Emu};
use liteparse_ooxml::model::color::{DrawingColor, SchemeColorVal};
use liteparse_ooxml::model::drawing::{
    Blip, BlipFill, BlipFillKind, DrawingFill, Effect, EffectList, LineCap, LineDash, LineJoin,
    OuterShadowEffect, Outline, PresetLineDashVal, RelId, RelativeRect, ShapeProperties,
    StyleMatrixRef,
};
use liteparse_ooxml::model::image::{ImageFormat, MediaEntry, PartMedia};
use liteparse_ooxml::model::theme::Theme;
use liteparse_ooxml::render::color::{DrawingColorContext, ResolvedColor};
use liteparse_ooxml::render::pixels::CropRect;
use liteparse_ooxml::render::shape_visuals::{
    resolve_blip_fill, resolve_shape_visuals, ResolvedDashPattern, ResolvedEffect, ResolvedFill,
    ResolvedLineCap, ResolvedLineJoin,
};

fn pt(points: f32) -> Dimension<Emu> {
    Dimension::new((points * 12_700.0).round() as i64)
}

fn empty_outline() -> Outline {
    Outline {
        width: None,
        cap: None,
        fill: None,
        dash: None,
        join: None,
    }
}

fn shape_props(
    fill: Option<DrawingFill>,
    outline: Option<Outline>,
    effects: Option<EffectList>,
) -> ShapeProperties {
    ShapeProperties {
        transform: None,
        geometry: None,
        fill,
        outline,
        effect_list: effects,
    }
}

#[test]
fn empty_props_resolves_to_none_visuals() {
    let v = resolve_shape_visuals(
        None,
        None,
        None,
        None,
        &DrawingColorContext::new(None),
        None,
        None,
    );
    assert!(matches!(v.fill, ResolvedFill::NoFill));
    assert!(v.stroke.is_none());
    assert!(v.effects.is_empty());
}

#[test]
fn solid_fill_srgb_resolves_to_rgba() {
    let props = shape_props(
        Some(DrawingFill::Solid(DrawingColor::srgb(0xD99F34))),
        None,
        None,
    );
    let v = resolve_shape_visuals(
        Some(&props),
        None,
        None,
        None,
        &DrawingColorContext::new(None),
        None,
        None,
    );
    let ResolvedFill::Solid(c) = v.fill else {
        panic!()
    };
    assert_eq!(c.rgb, 0xD99F34);
}

#[test]
fn outline_with_solid_fill_resolves_to_stroke() {
    let outline = Outline {
        width: Some(Dimension::new(9525)),
        cap: Some(LineCap::Round),
        fill: Some(DrawingFill::Solid(DrawingColor::srgb(0x0000FF))),
        dash: Some(LineDash::Preset(PresetLineDashVal::Dash)),
        join: Some(LineJoin::Miter { limit: None }),
    };
    let props = shape_props(None, Some(outline), None);
    let v = resolve_shape_visuals(
        Some(&props),
        None,
        None,
        None,
        &DrawingColorContext::new(None),
        None,
        None,
    );
    let s = v.stroke.unwrap();
    assert_eq!(s.width, pt(0.75));
    assert_eq!(s.color.rgb, 0x0000FF);
    assert_eq!(s.cap, ResolvedLineCap::Round);
    assert_eq!(s.join, ResolvedLineJoin::Miter);
    match s.dash {
        ResolvedDashPattern::Dashes(_) => {}
        _ => panic!("expected dashed pattern"),
    }
}

#[test]
fn outline_defaults_when_no_width_or_fill() {
    let outline = Outline {
        width: None,
        cap: None,
        fill: None,
        dash: None,
        join: None,
    };
    let props = shape_props(None, Some(outline), None);
    let v = resolve_shape_visuals(
        Some(&props),
        None,
        None,
        None,
        &DrawingColorContext::new(None),
        None,
        None,
    );
    let s = v.stroke.unwrap();
    assert_eq!(s.width, pt(0.75));
    assert_eq!(s.color, ResolvedColor::black());
    assert_eq!(s.cap, ResolvedLineCap::Butt);
    assert_eq!(s.join, ResolvedLineJoin::Round);
    assert!(matches!(s.dash, ResolvedDashPattern::Solid));
}

#[test]
fn outline_nofill_suppresses_stroke() {
    let outline = Outline {
        width: Some(Dimension::new(9525)),
        cap: None,
        fill: Some(DrawingFill::NoFill),
        dash: None,
        join: None,
    };
    let props = shape_props(None, Some(outline), None);
    let v = resolve_shape_visuals(
        Some(&props),
        None,
        None,
        None,
        &DrawingColorContext::new(None),
        None,
        None,
    );
    assert!(v.stroke.is_none());
}


#[test]
fn outline_width_falls_back_to_theme_ln_ref() {
    let outline = Outline {
        width: None,
        cap: None,
        fill: Some(DrawingFill::Solid(DrawingColor::srgb(0xD99F34))),
        dash: None,
        join: None,
    };
    let theme_ln = Outline {
        width: Some(Dimension::new(25_400)),
        cap: Some(LineCap::Flat),
        fill: None,
        dash: None,
        join: None,
    };
    let theme = Theme {
        line_styles: vec![empty_outline(), theme_ln, empty_outline()],
        ..Theme::default()
    };
    let props = shape_props(None, Some(outline), None);
    let ln_ref = StyleMatrixRef {
        idx: 2,
        color: None,
    };
    let v = resolve_shape_visuals(
        Some(&props),
        Some(&ln_ref),
        None,
        None,
        &DrawingColorContext::new(Some(&theme)),
        None,
        None,
    );
    let s = v.stroke.unwrap();
    assert_eq!(s.width, pt(2.0));
    assert_eq!(s.color.rgb, 0xD99F34);
    assert_eq!(s.cap, ResolvedLineCap::Butt);
    assert!(!v.stroke_color_defaulted, "the shape declared the colour");
}

fn theme_with_phclr_line(width_emu: i64) -> Theme {
    Theme {
        line_styles: vec![Outline {
            width: Some(Dimension::new(width_emu)),
            fill: Some(DrawingFill::Solid(DrawingColor::scheme(SchemeColorVal::PhClr))),
            ..empty_outline()
        }],
        ..Theme::default()
    }
}

#[test]
fn colourless_outline_takes_its_colour_from_the_line_ref() {
    let props = shape_props(
        None,
        Some(Outline {
            width: Some(Dimension::new(12_700)),
            ..empty_outline()
        }),
        None,
    );
    let theme = theme_with_phclr_line(25_400);
    let ln_ref = StyleMatrixRef {
        idx: 1,
        color: Some(DrawingColor::srgb(0x4472C4)),
    };
    let v = resolve_shape_visuals(
        Some(&props),
        Some(&ln_ref),
        None,
        None,
        &DrawingColorContext::new(Some(&theme)),
        None,
        None,
    );
    let s = v.stroke.expect("a colourless outline is still an outline");
    assert_eq!(s.color.rgb, 0x4472C4, "phClr := the lnRef's colour");
    assert_eq!(s.width, pt(1.0));
    assert!(!v.stroke_color_defaulted);
}

#[test]
fn line_ref_supplies_the_whole_outline_when_there_is_no_ln() {
    let props = shape_props(None, None, None);
    let theme = theme_with_phclr_line(25_400);
    let ln_ref = StyleMatrixRef {
        idx: 1,
        color: Some(DrawingColor::srgb(0xED7D31)),
    };
    let v = resolve_shape_visuals(
        Some(&props),
        Some(&ln_ref),
        None,
        None,
        &DrawingColorContext::new(Some(&theme)),
        None,
        None,
    );
    let s = v.stroke.expect("the theme line style is the outline");
    assert_eq!(s.color.rgb, 0xED7D31);
    assert_eq!(s.width, pt(2.0), "width comes from the theme too");
    assert!(!v.stroke_color_defaulted);
}

#[test]
fn colourless_outline_with_no_line_ref_reports_a_defaulted_colour() {
    let props = shape_props(
        None,
        Some(Outline {
            width: Some(Dimension::new(12_700)),
            ..empty_outline()
        }),
        None,
    );
    let v = resolve_shape_visuals(
        Some(&props),
        None,
        None,
        None,
        &DrawingColorContext::new(None),
        None,
        None,
    );
    assert_eq!(v.stroke.unwrap().color.rgb, 0x000000);
    assert!(
        v.stroke_color_defaulted,
        "black here is a guess, not a fact"
    );
}

#[test]
fn line_ref_out_of_range_leaves_the_shape_unstroked() {
    let props = shape_props(None, None, None);
    let theme = theme_with_phclr_line(25_400);
    let ln_ref = StyleMatrixRef {
        idx: 3,
        color: None,
    };
    let v = resolve_shape_visuals(
        Some(&props),
        Some(&ln_ref),
        None,
        None,
        &DrawingColorContext::new(Some(&theme)),
        None,
        None,
    );
    assert!(v.stroke.is_none());
    assert!(!v.stroke_color_defaulted);
}

#[test]
fn empty_effect_list_falls_back_to_theme_via_effect_ref() {
    let props = shape_props(None, None, Some(EffectList { effects: vec![] }));
    let theme = Theme {
        effect_styles: vec![EffectList {
            effects: vec![Effect::OuterShdw(OuterShadowEffect {
                blur_radius: Dimension::new(25_400),
                distance: Dimension::new(12_700),
                direction: Dimension::new(0),
                color: DrawingColor::srgb(0x000000),
            })],
        }],
        ..Theme::default()
    };
    let er = StyleMatrixRef {
        idx: 1,
        color: None,
    };
    let v = resolve_shape_visuals(
        Some(&props),
        None,
        Some(&er),
        None,
        &DrawingColorContext::new(Some(&theme)),
        None,
        None,
    );
    assert_eq!(v.effects.len(), 1);
}

#[test]
fn direct_effect_list_overrides_theme() {
    let own = Effect::OuterShdw(OuterShadowEffect {
        blur_radius: Dimension::new(50_800),
        distance: Dimension::new(0),
        direction: Dimension::new(0),
        color: DrawingColor::srgb(0xFF0000),
    });
    let props = shape_props(None, None, Some(EffectList { effects: vec![own] }));
    let theme = Theme {
        effect_styles: vec![EffectList {
            effects: vec![Effect::OuterShdw(OuterShadowEffect {
                blur_radius: Dimension::new(12_700),
                distance: Dimension::new(12_700),
                direction: Dimension::new(0),
                color: DrawingColor::srgb(0x000000),
            })],
        }],
        ..Theme::default()
    };
    let er = StyleMatrixRef {
        idx: 1,
        color: None,
    };
    let v = resolve_shape_visuals(
        Some(&props),
        None,
        Some(&er),
        None,
        &DrawingColorContext::new(Some(&theme)),
        None,
        None,
    );
    let ResolvedEffect::OuterShadow {
        blur_radius, color, ..
    } = &v.effects[0];
    assert_eq!(*blur_radius, pt(4.0));
    assert_eq!(color.rgb, 0xFF0000);
}

#[test]
fn outer_shadow_resolves_with_offset_from_angle() {
    let sh = OuterShadowEffect {
        blur_radius: Dimension::new(25_400),
        distance: Dimension::new(38_100),
        direction: Dimension::new(0),
        color: DrawingColor::srgb(0x000000),
    };
    let props = shape_props(
        None,
        None,
        Some(EffectList {
            effects: vec![Effect::OuterShdw(sh)],
        }),
    );
    let v = resolve_shape_visuals(
        Some(&props),
        None,
        None,
        None,
        &DrawingColorContext::new(None),
        None,
        None,
    );
    assert_eq!(v.effects.len(), 1);
    let ResolvedEffect::OuterShadow { blur_radius, color, .. } = &v.effects[0];
    assert_eq!(*blur_radius, pt(2.0));
    let offset = v.effects[0].offset().expect("a right angle");
    assert_eq!(offset.x, pt(3.0));
    assert_eq!(offset.y, pt(0.0));
    assert_eq!(color.rgb, 0x000000);
}

#[test]
fn a_shadow_turns_with_its_direction() {
    let cast = |direction: i64| {
        let sh = OuterShadowEffect {
            blur_radius: Dimension::new(0),
            distance: Dimension::new(100),
            direction: Dimension::new(direction),
            color: DrawingColor::srgb(0x000000),
        };
        let list = EffectList { effects: vec![Effect::OuterShdw(sh)] };
        let v = resolve_shape_visuals(
            Some(&shape_props(None, None, Some(list))),
            None,
            None,
            None,
            &DrawingColorContext::new(None),
            None,
            None,
        );
        v.effects[0].offset().map(|o| (o.x.raw(), o.y.raw()))
    };
    assert_eq!(cast(0), Some((100, 0)));
    assert_eq!(cast(5_400_000), Some((0, 100)));
    assert_eq!(cast(10_800_000), Some((-100, 0)));
    assert_eq!(cast(-5_400_000), Some((0, -100)));
    assert_eq!(cast(2_700_000), None);
}

#[test]
fn a_shape_without_properties_is_not_painted() {
    let theme = ph_theme();
    let fill_ref = StyleMatrixRef { idx: 1, color: Some(DrawingColor::srgb(0xFF0000)) };
    let v = resolve_shape_visuals(
        None,
        None,
        None,
        Some(&fill_ref),
        &DrawingColorContext::new(Some(&theme)),
        None,
        None,
    );
    assert!(matches!(v.fill, ResolvedFill::NoFill));
    assert!(v.stroke.is_none() && v.effects.is_empty() && !v.stroke_color_defaulted);
}

fn ph_theme() -> Theme {
    Theme {
        fill_styles: vec![DrawingFill::Solid(DrawingColor::scheme(SchemeColorVal::PhClr))],
        ..Default::default()
    }
}

#[test]
fn fill_ref_resolves_theme_fill_with_phclr_substitution() {
    let theme = ph_theme();
    let fill_ref = StyleMatrixRef {
        idx: 1,
        color: Some(DrawingColor::srgb(0xFF0000)),
    };
    let props = shape_props(None, None, None);
    let v = resolve_shape_visuals(
        Some(&props),
        None,
        None,
        Some(&fill_ref),
        &DrawingColorContext::new(Some(&theme)),
        None,
        None,
    );
    let ResolvedFill::Solid(c) = v.fill else {
        panic!("expected solid theme fill, got {:?}", v.fill);
    };
    assert_eq!(c.rgb, 0xFF0000, "phClr substituted by fillRef color");
}

#[test]
fn grp_fill_takes_the_enclosing_group_fill() {
    let props = shape_props(Some(DrawingFill::Group), None, None);
    let group = ResolvedFill::Solid(ResolvedColor::from_rgb24(0x00FF00));
    let v = resolve_shape_visuals(
        Some(&props),
        None,
        None,
        None,
        &DrawingColorContext::new(None),
        None,
        Some(&group),
    );
    let ResolvedFill::Solid(c) = v.fill else {
        panic!("expected the group's fill, got {:?}", v.fill);
    };
    assert_eq!(c.rgb, 0x00FF00);
}

#[test]
fn unanswered_grp_fill_does_not_fall_through_to_fill_ref() {
    let theme = ph_theme();
    let fill_ref = StyleMatrixRef {
        idx: 1,
        color: Some(DrawingColor::srgb(0xFF0000)),
    };
    let props = shape_props(Some(DrawingFill::Group), None, None);
    let v = resolve_shape_visuals(
        Some(&props),
        None,
        None,
        Some(&fill_ref),
        &DrawingColorContext::new(Some(&theme)),
        None,
        None,
    );
    assert!(
        matches!(v.fill, ResolvedFill::NoFill),
        "grpFill with no group must not inherit the theme fill, got {:?}",
        v.fill
    );
}

#[test]
fn direct_fill_wins_over_fill_ref() {
    let theme = ph_theme();
    let fill_ref = StyleMatrixRef {
        idx: 1,
        color: Some(DrawingColor::srgb(0xFF0000)),
    };
    let props = shape_props(
        Some(DrawingFill::Solid(DrawingColor::srgb(0x00FF00))),
        None,
        None,
    );
    let v = resolve_shape_visuals(
        Some(&props),
        None,
        None,
        Some(&fill_ref),
        &DrawingColorContext::new(Some(&theme)),
        None,
        None,
    );
    let ResolvedFill::Solid(c) = v.fill else {
        panic!("expected solid fill");
    };
    assert_eq!(c.rgb, 0x00FF00, "direct spPr fill overrides fillRef");
}

#[test]
fn fill_ref_idx_zero_is_no_fill() {
    let theme = ph_theme();
    let fill_ref = StyleMatrixRef {
        idx: 0,
        color: None,
    };
    let props = shape_props(None, None, None);
    let v = resolve_shape_visuals(
        Some(&props),
        None,
        None,
        Some(&fill_ref),
        &DrawingColorContext::new(Some(&theme)),
        None,
        None,
    );
    assert!(matches!(v.fill, ResolvedFill::NoFill));
}

fn blip_fill(embed: Option<&str>, kind: BlipFillKind) -> BlipFill {
    BlipFill {
        blip: embed.map(|e| Blip {
            embed: Some(RelId::new(e)),
            link: None,
        }),
        src_rect: None,
        fill_kind: kind,
    }
}

fn media_with(id: &str) -> PartMedia {
    let mut m = PartMedia::new();
    m.insert(
        id.to_string(),
        MediaEntry {
            data: Rc::new(b"\x89PNG\r\n\x1a\n".to_vec()),
            format: ImageFormat::Png,
        },
    );
    m
}

#[test]
fn blip_resolves_against_its_own_parts_table() {
    let media = media_with("rId7");
    let fill = blip_fill(Some("rId7"), BlipFillKind::Unspecified);
    let ResolvedFill::Blip(b) = resolve_blip_fill(&fill, Some(&media)) else {
        panic!("expected a blip fill");
    };
    assert_eq!(b.format, ImageFormat::Png);
    assert!(b.src_rect.is_none(), "no a:srcRect declared");
}

#[test]
fn blip_embed_absent_from_this_parts_table_is_not_painted() {
    let media = media_with("rId1");
    let fill = blip_fill(Some("rId9"), BlipFillKind::Unspecified);
    assert!(matches!(
        resolve_blip_fill(&fill, Some(&media)),
        ResolvedFill::NoFill
    ));
}

#[test]
fn blip_fill_with_no_blip_child_is_an_empty_placeholder() {
    let fill = blip_fill(None, BlipFillKind::Unspecified);
    assert!(matches!(
        resolve_blip_fill(&fill, Some(&media_with("rId1"))),
        ResolvedFill::NoFill
    ));
}

#[test]
fn tiled_blip_is_refused_rather_than_stretched() {
    let media = media_with("rId7");
    let fill = blip_fill(Some("rId7"), BlipFillKind::Tile);
    assert!(matches!(
        resolve_blip_fill(&fill, Some(&media)),
        ResolvedFill::NoFill
    ));
}

#[test]
fn blip_with_no_media_channel_is_not_painted() {
    let fill = blip_fill(Some("rId7"), BlipFillKind::Unspecified);
    assert!(matches!(resolve_blip_fill(&fill, None), ResolvedFill::NoFill));
}

#[test]
fn blip_src_rect_uses_the_shared_converter() {
    let media = media_with("rId7");
    let mut fill = blip_fill(Some("rId7"), BlipFillKind::Unspecified);
    fill.src_rect = Some(RelativeRect {
        left: Some(Dimension::new(25000)),
        top: None,
        right: Some(Dimension::new(10000)),
        bottom: Some(Dimension::new(10000)),
    });
    let ResolvedFill::Blip(b) = resolve_blip_fill(&fill, Some(&media)) else {
        panic!("expected a blip fill");
    };
    let r = CropRect::from_cut(&b.src_rect.expect("crop present"));
    assert_eq!(r.x, 25_000);
    assert_eq!(r.width, 65_000);
}
