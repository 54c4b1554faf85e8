use liteparse_ooxml::dimension::{Dimension, Emu};
use liteparse_ooxml::model::drawing::{BodyProperties, TextAnchoringType, TextVertOverflow};
use liteparse_ooxml::model::geometry::Size;
use liteparse_ooxml::render::shape_body::{
    layout_shape_body, measure_shape_body, BodyAnchor, BodyInsets, StackedBody, DEFAULT_INSET_LR,
    DEFAULT_INSET_TB,
};

fn pt(points: i64) -> i64 {
    points * 12_700
}

fn size(width: i64, height: i64) -> Size<Emu> {
    Size { width: Dimension::new(width), height: Dimension::new(height) }
}

fn body_pr() -> BodyProperties {
    BodyProperties {
        rotation: None,
        vert: None,
        wrap: None,
        left_inset: None,
        top_inset: None,
        right_inset: None,
        bottom_inset: None,
        anchor: None,
        vert_overflow: None,
        auto_fit: None,
    }
}

#[test]
fn absent_bodypr_takes_spec_default_insets() {
    let insets = BodyInsets::resolve(None);
    assert_eq!(insets.left, DEFAULT_INSET_LR);
    assert_eq!(insets.top, DEFAULT_INSET_TB);
    assert_eq!(insets.right, DEFAULT_INSET_LR);
    assert_eq!(insets.bottom, DEFAULT_INSET_TB);
}

#[test]
fn present_bodypr_with_absent_attrs_still_takes_defaults() {
    let insets = BodyInsets::resolve(Some(&body_pr()));
    assert_eq!(insets, BodyInsets::resolve(None));
}

#[test]
fn content_box_floors_at_zero() {
    let insets = BodyInsets::resolve(None);
    let tiny = size(pt(1), pt(1));
    assert_eq!(insets.content_width(tiny), 0);
    assert_eq!(insets.content_height(tiny), 0);
}

#[test]
fn anchor_defaults_to_top_and_degrades_justified() {
    assert_eq!(BodyAnchor::resolve(None), BodyAnchor::Top);
    assert_eq!(
        BodyAnchor::resolve(Some(TextAnchoringType::Center)),
        BodyAnchor::Center
    );
    assert_eq!(
        BodyAnchor::resolve(Some(TextAnchoringType::Justified)),
        BodyAnchor::Top
    );
    assert_eq!(
        BodyAnchor::resolve(Some(TextAnchoringType::Distributed)),
        BodyAnchor::Top
    );
}

#[test]
fn anchor_offset_splits_slack_and_floors_at_zero() {
    let box_h = pt(100) as u128;
    assert_eq!(BodyAnchor::Top.offset(box_h, pt(40) as u128), 0);
    assert_eq!(BodyAnchor::Center.offset(box_h, pt(40) as u128), pt(30) as u128);
    assert_eq!(BodyAnchor::Bottom.offset(box_h, pt(40) as u128), pt(60) as u128);
    assert_eq!(BodyAnchor::Bottom.offset(box_h, pt(160) as u128), 0);
}

#[test]
fn zero_width_body_lays_out_nothing() {
    let stacked = StackedBody { height: 0, spans: vec![None, Some((0, pt(12)))] };
    assert!(layout_shape_body(&stacked, size(pt(2), pt(50)), None).kept.is_empty());
}

#[test]
fn overflow_default_keeps_everything() {
    assert_eq!(TextVertOverflow::default(), TextVertOverflow::Overflow);
}

fn three_lines() -> StackedBody {
    StackedBody {
        height: pt(60) as u64,
        spans: vec![Some((0, pt(20))), None, Some((pt(20), pt(40))), Some((pt(40), pt(60)))],
    }
}

#[test]
fn a_body_that_clips_draws_what_fits() {
    let mut pr = body_pr();
    pr.top_inset = Some(Dimension::new(0));
    pr.bottom_inset = Some(Dimension::new(0));
    pr.anchor = Some(TextAnchoringType::Bottom);
    let shape = size(pt(100), pt(45));
    let all = layout_shape_body(&three_lines(), shape, Some(&pr));
    assert_eq!((all.left, all.top), (91_440, 0));
    assert_eq!(all.kept, vec![0, 1, 2, 3]);
    for overflow in [TextVertOverflow::Clip, TextVertOverflow::Ellipsis] {
        pr.vert_overflow = Some(overflow);
        assert_eq!(layout_shape_body(&three_lines(), shape, Some(&pr)).kept, vec![0, 1, 2]);
    }
}

#[test]
fn an_anchored_body_stands_in_what_the_insets_leave() {
    let mut pr = body_pr();
    pr.anchor = Some(TextAnchoringType::Center);
    let placed = layout_shape_body(&three_lines(), size(pt(100), pt(100) + 2 * 45_720), Some(&pr));
    assert_eq!(placed.top, 45_720 + pt(20) as i128);
}

#[test]
fn a_body_needs_its_text_and_its_insets() {
    assert_eq!(measure_shape_body(pt(60) as u64, pt(100), None), pt(60) as i128 + 91_440);
    assert_eq!(measure_shape_body(pt(60) as u64, pt(2), None), 91_440);
}

#[test]
fn a_negative_inset_widens_the_body() {
    let mut pr = body_pr();
    pr.left_inset = Some(Dimension::new(-100));
    pr.right_inset = Some(Dimension::new(0));
    assert_eq!(BodyInsets::resolve(Some(&pr)).content_width(size(1_000, 1_000)), 1_100);
}
