use liteparse_ooxml::dimension::Dimension;
use liteparse_ooxml::model::geometry::{Offset, Rect, Size};
use liteparse_ooxml::pptx::geometry::{apply_slide_geometry, plan_slide_geometry, FULL_TURN};
use liteparse_ooxml::pptx::shape_parse::parse_shape_tree;
use liteparse_ooxml::pptx::shapes::{Shape, ShapeKind, SlideRect};
use liteparse_ooxml::pptx::turning::{turn_on_slide, Turn};
use liteparse_ooxml::pptx::upright::{apply_upright_geometry, place_upright};

fn xfrm(x: i64, y: i64, cx: i64, cy: i64, extra: &str) -> String {
    format!(r#"<a:xfrm {extra}><a:off x="{x}" y="{y}"/><a:ext cx="{cx}" cy="{cy}"/></a:xfrm>"#)
}

fn sp(x: i64, y: i64, cx: i64, cy: i64, extra: &str) -> String {
    format!(
        r#"<p:sp><p:nvSpPr><p:cNvPr id="1" name="s"/><p:nvPr/></p:nvSpPr>
               <p:spPr>{}</p:spPr></p:sp>"#,
        xfrm(x, y, cx, cy, extra)
    )
}

fn grp(
    (x, y, cx, cy): (i64, i64, i64, i64),
    ch: Option<(i64, i64, i64, i64)>,
    extra: &str,
    children: &str,
) -> String {
    let ch_xml = match ch {
        Some((chx, chy, chcx, chcy)) => {
            format!(r#"<a:chOff x="{chx}" y="{chy}"/><a:chExt cx="{chcx}" cy="{chcy}"/>"#)
        }
        None => String::new(),
    };
    format!(
        r#"<p:grpSp><p:nvGrpSpPr><p:cNvPr id="2" name="g"/></p:nvGrpSpPr>
               <p:grpSpPr><a:xfrm {extra}><a:off x="{x}" y="{y}"/><a:ext cx="{cx}" cy="{cy}"/>{ch_xml}</a:xfrm></p:grpSpPr>
               {children}</p:grpSp>"#
    )
}

fn tree(body: &str) -> Vec<Shape> {
    parse_shape_tree(
        format!(
            r#"<p:sld xmlns:p="p" xmlns:a="a"><p:cSld><p:spTree>{body}</p:spTree></p:cSld></p:sld>"#
        )
        .as_bytes(),
    )
    .expect("fixture parses")
}

fn kids(shapes: &[Shape]) -> &[Shape] {
    match &shapes[0].kind {
        ShapeKind::Group(g) => &g.children,
        other => panic!("expected a group, got {other:?}"),
    }
}

fn rect_of(s: &Shape) -> (i64, i64, i64, i64) {
    let r = s.slide_rect.expect("positioned").rect;
    (
        r.origin.x.raw(),
        r.origin.y.raw(),
        r.size.width.raw(),
        r.size.height.raw(),
    )
}

#[test]
fn top_level_shape_is_unchanged() {
    let mut shapes = tree(&sp(100, 200, 300, 400, ""));
    let stats = apply_upright_geometry(&mut shapes).unwrap();
    assert_eq!(rect_of(&shapes[0]), (100, 200, 300, 400));
    assert_eq!(stats.positioned, 1);
    assert_eq!(stats.groups, 0);
}

#[test]
fn identity_child_space_is_a_pure_translation() {
    let mut shapes = tree(&grp(
        (0, 0, 1000, 1000),
        Some((0, 0, 1000, 1000)),
        "",
        &sp(10, 10, 50, 50, ""),
    ));
    apply_upright_geometry(&mut shapes).unwrap();
    assert_eq!(rect_of(&kids(&shapes)[0]), (10, 10, 50, 50));
}

#[test]
fn non_unit_scale_multiplies_position_and_size() {
    let mut shapes = tree(&grp(
        (5000, 5000, 10_000, 10_000),
        Some((0, 0, 1000, 1000)),
        "",
        &sp(100, 100, 100, 100, ""),
    ));
    apply_upright_geometry(&mut shapes).unwrap();
    assert_eq!(rect_of(&kids(&shapes)[0]), (6000, 6000, 1000, 1000));
}

#[test]
fn non_uniform_scale_uses_both_axes() {
    let mut shapes = tree(&grp(
        (0, 0, 2000, 4000),
        Some((0, 0, 1000, 1000)),
        "",
        &sp(0, 0, 100, 100, ""),
    ));
    apply_upright_geometry(&mut shapes).unwrap();
    assert_eq!(rect_of(&kids(&shapes)[0]), (0, 0, 200, 400));
}

#[test]
fn child_offset_is_subtracted_before_scaling() {
    let mut shapes = tree(&grp(
        (7000, 8000, 1000, 1000),
        Some((1000, 1000, 1000, 1000)),
        "",
        &sp(1000, 1000, 100, 100, ""),
    ));
    apply_upright_geometry(&mut shapes).unwrap();
    assert_eq!(rect_of(&kids(&shapes)[0]), (7000, 8000, 100, 100));
}

#[test]
fn nested_groups_multiply_scales() {
    let inner = grp(
        (0, 0, 200, 200),
        Some((0, 0, 100, 100)),
        "",
        &sp(0, 0, 10, 10, ""),
    );
    let mut shapes = tree(&grp(
        (0, 0, 2000, 2000),
        Some((0, 0, 1000, 1000)),
        "",
        &inner,
    ));
    apply_upright_geometry(&mut shapes).unwrap();
    let inner_shapes = kids(&shapes);
    let ShapeKind::Group(i) = &inner_shapes[0].kind else {
        unreachable!()
    };
    assert_eq!(rect_of(&i.children[0]), (0, 0, 40, 40));
}

#[test]
fn group_rotation_composes_onto_children() {
    let mut shapes = tree(&grp(
        (0, 0, 1000, 1000),
        Some((0, 0, 1000, 1000)),
        r#"rot="5400000""#,
        &sp(0, 0, 100, 200, ""),
    ));
    apply_upright_geometry(&mut shapes).unwrap();
    let child = &kids(&shapes)[0];
    let sr = child.slide_rect.unwrap();
    assert_eq!(sr.rotation.raw(), 5_400_000);
    let (x, y, w, h) = rect_of(child);
    assert_eq!((x + w / 2, y + h / 2), (900, 50));
    assert_eq!((w, h), (100, 200));
}


#[test]
fn rotation_normalizes_into_one_turn() {
    let mut shapes = tree(&grp(
        (0, 0, 1000, 1000),
        Some((0, 0, 1000, 1000)),
        r#"rot="5400000""#,
        &sp(0, 0, 100, 100, r#"rot="20000000""#),
    ));
    apply_upright_geometry(&mut shapes).unwrap();
    let r = kids(&shapes)[0].slide_rect.unwrap().rotation.raw();
    assert!((0..FULL_TURN).contains(&r), "{r} out of range");
    assert_eq!(r, 20_000_000 + 5_400_000 - FULL_TURN);
}

#[test]
fn group_flip_mirrors_children() {
    let mut shapes = tree(&grp(
        (0, 0, 1000, 1000),
        Some((0, 0, 1000, 1000)),
        r#"flipH="1""#,
        &sp(0, 0, 100, 100, ""),
    ));
    apply_upright_geometry(&mut shapes).unwrap();
    assert_eq!(rect_of(&kids(&shapes)[0]), (900, 0, 100, 100));
}

#[test]
fn own_flip_does_not_move_the_box() {
    let mut shapes = tree(&sp(100, 100, 50, 50, r#"flipH="1""#));
    apply_upright_geometry(&mut shapes).unwrap();
    let sr = shapes[0].slide_rect.unwrap();
    assert_eq!(rect_of(&shapes[0]), (100, 100, 50, 50));
    assert!(sr.flip_h);
}

#[test]
fn group_flip_toggles_a_child_flip() {
    let mut shapes = tree(&grp(
        (0, 0, 1000, 1000),
        Some((0, 0, 1000, 1000)),
        r#"flipV="1""#,
        &sp(0, 0, 100, 100, r#"flipV="1""#),
    ));
    apply_upright_geometry(&mut shapes).unwrap();
    assert!(!kids(&shapes)[0].slide_rect.unwrap().flip_v);
}

#[test]
fn a_group_without_a_transform_passes_its_parent_frame_through() {
    let body = format!(
        r#"<p:grpSp><p:nvGrpSpPr><p:cNvPr id="2" name="g"/></p:nvGrpSpPr>
               <p:grpSpPr/>{}</p:grpSp>"#,
        sp(10, 10, 50, 50, "")
    );
    let mut shapes = tree(&body);
    let stats = apply_upright_geometry(&mut shapes).unwrap();
    assert_eq!(rect_of(&kids(&shapes)[0]), (10, 10, 50, 50));
    assert_eq!(stats.unpositioned, 1);
}

#[test]
fn zero_child_extent_falls_back_to_unit_scale_and_is_counted() {
    let mut shapes = tree(&grp(
        (0, 0, 1000, 1000),
        Some((0, 0, 0, 0)),
        "",
        &sp(0, 0, 100, 100, ""),
    ));
    let stats = apply_upright_geometry(&mut shapes).unwrap();
    assert_eq!(stats.groups_with_zero_child_extent, 1);
    assert_eq!(rect_of(&kids(&shapes)[0]), (0, 0, 100, 100));
}

#[test]
fn missing_child_space_is_counted_not_guessed_silently() {
    let mut shapes = tree(&grp(
        (100, 100, 1000, 1000),
        None,
        "",
        &sp(10, 10, 50, 50, ""),
    ));
    let stats = apply_upright_geometry(&mut shapes).unwrap();
    assert_eq!(stats.groups_without_child_space, 1);
}

#[test]
fn bounding_box_of_a_right_angle_swaps_the_axes() {
    let mut shapes = tree(&sp(0, 0, 100, 200, r#"rot="5400000""#));
    apply_upright_geometry(&mut shapes).unwrap();
    let bb = shapes[0].slide_rect.unwrap().bounding_box().unwrap();
    assert_eq!((bb.size.width.raw(), bb.size.height.raw()), (200, 100));
    assert_eq!((bb.origin.x.raw(), bb.origin.y.raw()), (-50, 50));
}

#[test]
fn bounding_box_of_an_unrotated_shape_is_itself() {
    let mut shapes = tree(&sp(7, 9, 100, 200, ""));
    apply_upright_geometry(&mut shapes).unwrap();
    let sr = shapes[0].slide_rect.unwrap();
    assert_eq!(sr.bounding_box(), Some(sr.rect));
}

/// How the last of the shapes is turned.
fn last_turn(shapes: &Vec<Shape>) -> Option<Turn> {
    turn_on_slide(plan_slide_geometry(shapes).last().expect("a shape"))
}

/// A place that was worked out elsewhere.
fn worked_out(rotation: i64, skewed: bool) -> SlideRect {
    let length = Dimension::new;
    SlideRect {
        rect: Rect {
            origin: Offset { x: length(1), y: length(2) },
            size: Size { width: length(3), height: length(4) },
        },
        rotation: Dimension::new(rotation),
        flip_h: false,
        flip_v: false,
        skewed,
    }
}

#[test]
fn own_and_group_rotation_add() {
    let mut shapes = tree(&grp(
        (0, 0, 1000, 1000),
        Some((0, 0, 1000, 1000)),
        r#"rot="2700000""#,
        &sp(0, 0, 100, 100, r#"rot="2700000""#),
    ));
    apply_slide_geometry(&mut shapes, &vec![worked_out(0, false); 2]);
    assert_eq!(
        kids(&shapes)[0].slide_rect.unwrap().rotation.raw(),
        5_400_000
    );
}

#[test]
fn rotation_under_non_uniform_scale_is_flagged_as_skewed() {
    let inner = grp(
        (0, 0, 100, 100),
        Some((0, 0, 100, 100)),
        r#"rot="2700000""#,
        &sp(0, 0, 10, 10, ""),
    );
    let mut shapes = tree(&grp((0, 0, 2000, 1000), Some((0, 0, 1000, 1000)), "", &inner));
    // Only the innermost shape stands under the turned group.
    let stats = apply_slide_geometry(&mut shapes, &vec![worked_out(0, true); 3]);
    assert_eq!(stats.skewed, 1);
    let ShapeKind::Group(i) = &kids(&shapes)[0].kind else {
        unreachable!()
    };
    assert!(i.children[0].slide_rect.unwrap().skewed);
}

#[test]
fn what_can_be_told_exactly_is_not_taken_from_elsewhere() {
    let mut shapes = tree(&sp(100, 200, 300, 400, r#"rot="5400000""#));
    let stats = apply_slide_geometry(&mut shapes, &vec![worked_out(7, true)]);
    assert_eq!(rect_of(&shapes[0]), (100, 200, 300, 400));
    assert_eq!(shapes[0].slide_rect.unwrap().rotation.raw(), 5_400_000);
    assert_eq!((stats.positioned, stats.skewed), (1, 0));
}

#[test]
fn a_shape_has_a_place_exactly_where_it_states_a_box() {
    let bare = r#"<p:sp><p:nvSpPr><p:cNvPr id="1" name="s"/><p:nvPr/></p:nvSpPr><p:spPr/></p:sp>"#;
    let mut shapes = tree(&format!("{bare}{}", sp(0, 0, 1, 1, r#"rot="-60000""#)));
    let stats = apply_slide_geometry(&mut shapes, &vec![worked_out(0, false); 2]);
    assert!(shapes[0].slide_rect.is_none());
    assert_eq!(shapes[1].slide_rect.unwrap().rotation.raw(), FULL_TURN - 60_000);
    assert_eq!((stats.positioned, stats.unpositioned, stats.groups), (1, 1, 0));
}

#[test]
fn placing_again_changes_nothing() {
    let mut shapes = tree(&grp(
        (10, 20, 3000, 1000),
        Some((0, 0, 1000, 1000)),
        r#"rot="1234567" flipH="1""#,
        &grp((5, 5, 10, 10), None, "", &sp(1, 2, 3, 4, r#"rot="7""#)),
    ));
    let given = vec![worked_out(-1, true); 3];
    let first = apply_slide_geometry(&mut shapes, &given);
    let placed = format!("{shapes:?}");
    assert_eq!(apply_slide_geometry(&mut shapes, &given), first);
    assert_eq!(format!("{shapes:?}"), placed);
}

#[test]
fn a_box_turned_by_a_quarter_is_not_cropped() {
    let mut shapes = tree(&sp(0, 0, 1, 2, r#"rot="16200000""#));
    apply_upright_geometry(&mut shapes).unwrap();
    let bb = shapes[0].slide_rect.unwrap().bounding_box().unwrap();
    assert_eq!((bb.origin.x.raw(), bb.size.width.raw()), (-1, 3));
    assert_eq!((bb.origin.y.raw(), bb.size.height.raw()), (0, 2));
    assert_eq!(worked_out(1, false).bounding_box(), None);
}

#[test]
fn angles_inside_a_mirror_count_backwards() {
    let inner = grp(
        (0, 0, 100, 100),
        Some((0, 0, 50, 50)),
        r#"rot="600000""#,
        &sp(0, 0, 10, 10, ""),
    );
    let shapes = tree(&grp(
        (0, 0, 2000, 1000),
        Some((0, 0, 1000, 500)),
        r#"rot="3000000" flipV="1""#,
        &inner,
    ));
    assert_eq!(
        last_turn(&shapes),
        Some(Turn { rotation: 2_400_000, flip_h: false, flip_v: true })
    );
}

#[test]
fn a_mirror_from_side_to_side_is_half_a_turn_and_one_from_top_to_bottom() {
    let shapes = tree(&grp(
        (0, 0, 100, 100),
        None,
        r#"rot="1" flipH="1""#,
        &sp(0, 0, 10, 10, r#"flipV="1""#),
    ));
    assert_eq!(
        last_turn(&shapes),
        Some(Turn { rotation: 10_800_001, flip_h: false, flip_v: false })
    );
}

#[test]
fn two_mirrors_that_are_turned_alike_cancel() {
    let inner = grp(
        (0, 0, 100, 100),
        None,
        r#"rot="1234567" flipH="1""#,
        &sp(0, 0, 10, 10, r#"rot="42""#),
    );
    let shapes = tree(&grp((0, 0, 100, 100), None, r#"rot="1234567" flipH="1""#, &inner));
    assert_eq!(
        last_turn(&shapes),
        Some(Turn { rotation: 42, flip_h: false, flip_v: false })
    );
}

#[test]
fn an_uneven_scale_leaves_the_angle_open() {
    let shapes = tree(&grp(
        (0, 0, 2000, 1000),
        Some((0, 0, 1000, 1000)),
        "",
        &sp(0, 0, 10, 10, ""),
    ));
    assert_eq!(last_turn(&shapes), None);
}

#[test]
fn turning_agrees_with_placing() {
    for (rot, flips) in [(0, ""), (5_400_000, r#"flipH="1""#), (16_200_000, r#"flipV="1""#)] {
        let shapes = tree(&grp(
            (0, 0, 3000, 3000),
            Some((0, 0, 1000, 1000)),
            &format!(r#"rot="{rot}" {flips}"#),
            &grp((0, 0, 50, 50), None, r#"rot="5400000""#, &sp(1, 2, 3, 4, r#"rot="7""#)),
        ));
        let plan = plan_slide_geometry(&shapes);
        for p in &plan {
            let turn = turn_on_slide(p).expect("scaled alike");
            let place = place_upright(p).expect("upright").expect("a box");
            assert_eq!(turn.rotation, place.rotation.raw());
            assert_eq!((turn.flip_h, turn.flip_v), (place.flip_h, place.flip_v));
        }
    }
}
