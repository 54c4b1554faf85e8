use liteparse_ooxml::dimension::{Dimension, Emu};
use liteparse_ooxml::model::drawing::{
    AdjCoord, AdjPoint, CustomGeometry, GeomGuide, PathCommand, PathDef, PathFillMode,
    PresetGeometry, TextRect,
};
use liteparse_ooxml::model::geometry::{Offset, Size};
use liteparse_ooxml::render::shape_geometry::custom::{
    build_custom, GuideValue, PathVerb, ShapePath, EMU_PER_POINT,
};
use liteparse_ooxml::render::shape_geometry::pen::{
    arc_pieces, build_path, is_filled, pair_dashes, PenStep,
};
use liteparse_ooxml::render::shape_geometry::presets::{
    build_preset, merge_adjust_values, PresetEntry, PresetTable,
};
use liteparse_ooxml::render::shape_geometry::{ellipse, round_rect};

fn pt(points: i64) -> i64 {
    points * EMU_PER_POINT
}

fn size(width: i64, height: i64) -> Size<Emu> {
    Size { width: Dimension::new(pt(width)), height: Dimension::new(pt(height)) }
}

fn at(x: i64, y: i64) -> Offset<Emu> {
    Offset { x: Dimension::new(pt(x)), y: Dimension::new(pt(y)) }
}

fn lit_point(x: i64, y: i64) -> AdjPoint {
    AdjPoint { x: AdjCoord::Lit(x), y: AdjCoord::Lit(y) }
}

fn emu(v: i64) -> Dimension<Emu> {
    Dimension::new(v)
}

fn rect_path() -> PathDef {
    PathDef {
        w: emu(100),
        h: emu(50),
        fill: PathFillMode::Norm,
        stroke: true,
        extrusion_ok: true,
        commands: vec![
            PathCommand::MoveTo(lit_point(0, 0)),
            PathCommand::LineTo(lit_point(100, 0)),
            PathCommand::LineTo(lit_point(100, 50)),
            PathCommand::LineTo(lit_point(0, 50)),
            PathCommand::Close,
        ],
    }
}

fn geometry(paths: Vec<PathDef>) -> CustomGeometry {
    CustomGeometry { av_list: vec![], gd_list: vec![], rect: None, paths }
}

fn no_guides(geom: &CustomGeometry) -> Vec<Vec<GuideValue>> {
    geom.paths.iter().map(|_| Vec::new()).collect()
}

/// What the formula `*/ w 1 2`, and the names `w` and `h`, come to in a path.
fn guides_of(path: &PathDef) -> Vec<GuideValue> {
    let value = |name: &str, value: i64| GuideValue { name: name.to_string(), value };
    vec![
        value("w", path.w.raw() * EMU_PER_POINT),
        value("h", path.h.raw() * EMU_PER_POINT),
        value("mid", path.w.raw() * EMU_PER_POINT / 2),
    ]
}

#[test]
fn scales_path_coords_to_shape_extent() {
    let geom = geometry(vec![rect_path()]);
    let s = build_custom(&geom, size(200, 100), &no_guides(&geom)).unwrap();
    let sub = &s.paths[0];
    let PathVerb::LineTo(p) = sub.verbs[1] else { panic!() };
    assert_eq!(p, at(200, 0));
    let PathVerb::LineTo(p) = sub.verbs[3] else { panic!() };
    assert_eq!(p, at(0, 100));
}

#[test]
fn empty_paths_return_none() {
    let geom = geometry(vec![]);
    assert!(build_custom(&geom, size(10, 10), &vec![]).is_none());
}

#[test]
fn zero_width_path_resolves_in_shape_space() {
    let mut path = rect_path();
    path.w = emu(0);
    let geom = geometry(vec![path]);
    let built = build_custom(&geom, size(10, 10), &no_guides(&geom))
        .expect("a zero-width path space is the shape's, not nothing");
    let PathVerb::LineTo(p) = built.paths[0].verbs[1] else {
        panic!("expected a lnTo second")
    };
    assert_eq!(p, at(100, 0));
}

#[test]
fn guide_reference_resolved_via_gd_list() {
    let path = PathDef {
        w: emu(100),
        h: emu(50),
        fill: PathFillMode::Norm,
        stroke: true,
        extrusion_ok: true,
        commands: vec![
            PathCommand::MoveTo(AdjPoint {
                x: AdjCoord::Guide("mid".into()),
                y: AdjCoord::Lit(0),
            }),
            PathCommand::LineTo(AdjPoint {
                x: AdjCoord::Guide("mid".into()),
                y: AdjCoord::Guide("h".into()),
            }),
        ],
    };
    let guides = vec![guides_of(&path)];
    let mut geom = geometry(vec![path]);
    geom.gd_list = vec![GeomGuide { name: "mid".into(), formula: "*/ w 1 2".into() }];
    let s = build_custom(&geom, size(200, 100), &guides).unwrap();
    let PathVerb::MoveTo(p) = s.paths[0].verbs[0] else { panic!() };
    assert_eq!(p.x, emu(pt(100)));
    let PathVerb::LineTo(p) = s.paths[0].verbs[1] else { panic!() };
    assert_eq!(p.y, emu(pt(100)));
}

#[test]
fn arc_to_preserves_angle_in_60k_deg() {
    let geom = geometry(vec![PathDef {
        w: emu(100),
        h: emu(100),
        fill: PathFillMode::Norm,
        stroke: true,
        extrusion_ok: true,
        commands: vec![PathCommand::ArcTo {
            wr: AdjCoord::Lit(25),
            hr: AdjCoord::Lit(25),
            start_angle: AdjCoord::Lit(0),
            swing_angle: AdjCoord::Lit(5_400_000),
        }],
    }]);
    let s = build_custom(&geom, size(100, 100), &no_guides(&geom)).unwrap();
    let PathVerb::ArcTo { radii, start_angle, swing_angle } = s.paths[0].verbs[0] else { panic!() };
    assert_eq!(radii, size(25, 25));
    assert_eq!(start_angle.raw(), 0);
    assert_eq!(swing_angle.raw(), 5_400_000);
}

#[test]
fn text_rect_resolves_and_scales() {
    let mut geom = geometry(vec![rect_path()]);
    geom.rect = Some(TextRect {
        left: AdjCoord::Lit(0),
        top: AdjCoord::Lit(0),
        right: AdjCoord::Lit(100),
        bottom: AdjCoord::Lit(50),
    });
    let s = build_custom(&geom, size(200, 100), &no_guides(&geom)).unwrap();
    let tr = s.text_rect.unwrap();
    assert_eq!(tr.origin.x, emu(0));
    assert_eq!(tr.size, size(200, 100));
}

#[test]
fn a_line_without_a_width_falls_together() {
    let mut path = rect_path();
    path.w = emu(0);
    let geom = geometry(vec![path]);
    let s = build_custom(&geom, size(0, 100), &no_guides(&geom)).unwrap();
    assert!(matches!(s.paths[0].verbs[1], PathVerb::LineTo(p) if p == at(0, 0)));
    assert!(matches!(s.paths[0].verbs[2], PathVerb::LineTo(p) if p == at(0, 100)));
}

#[test]
fn a_guide_of_no_name_is_nothing() {
    let mut path = rect_path();
    path.commands = vec![PathCommand::MoveTo(AdjPoint {
        x: AdjCoord::Guide("nowhere".into()),
        y: AdjCoord::Lit(25),
    })];
    let geom = geometry(vec![path]);
    let s = build_custom(&geom, size(200, 100), &no_guides(&geom)).unwrap();
    assert!(matches!(s.paths[0].verbs[0], PathVerb::MoveTo(p) if p == at(0, 50)));
}

#[test]
fn the_outline_is_two_half_turns_from_the_left_quadrant() {
    let p = ellipse::build(size(200, 100));
    let verbs = &p.paths[0].verbs;
    assert_eq!(verbs.len(), 4);
    let PathVerb::MoveTo(start) = verbs[0] else {
        panic!("an ellipse starts with a moveTo")
    };
    assert_eq!(start, at(0, 50));
    let mut swept = 0i64;
    for verb in verbs {
        if let PathVerb::ArcTo { radii, swing_angle, .. } = verb {
            assert_eq!(*radii, size(100, 50));
            swept += swing_angle.raw();
        }
    }
    assert_eq!(swept, 21_600_000, "the two arcs must close the figure");
}

#[test]
fn the_text_rectangle_is_inscribed_not_the_bounding_box() {
    let p = ellipse::build(size(200, 100));
    let tr = p.text_rect.unwrap();
    assert!(tr.size.width.raw() < pt(200) && tr.size.height.raw() < pt(100));
    let centre = |o: i64, l: i64| o as f64 + l as f64 * 0.5;
    let near = |v: f64, points: f64| (v / 12_700.0 - points).abs() < 0.01;
    assert!(
        near(centre(tr.origin.x.raw(), tr.size.width.raw()), 100.0),
        "the inscribed rect shares the ellipse's centre"
    );
    assert!(near(centre(tr.origin.y.raw(), tr.size.height.raw()), 50.0));
}

#[test]
fn a_zero_dimension_still_builds() {
    let p = ellipse::build(size(40, 0));
    assert_eq!(p.paths.len(), 1);
}

fn adj(value: i64) -> Vec<GuideValue> {
    vec![GuideValue { name: "adj".to_string(), value: value * EMU_PER_POINT }]
}

fn radius(path: &ShapePath) -> f32 {
    let PathVerb::MoveTo(p) = path.paths[0].verbs[0] else {
        panic!("a roundRect starts with a moveTo")
    };
    p.y.raw() as f32 / 12_700.0
}

#[test]
fn corners_are_a_fraction_of_the_shortest_side() {
    let wide = round_rect::build(&adj(25_000), size(400, 40));
    let tall = round_rect::build(&adj(25_000), size(40, 400));
    assert_eq!(radius(&wide), 10.0);
    assert_eq!(radius(&tall), 10.0);
}

#[test]
fn no_adjust_list_takes_the_spec_default() {
    let p = round_rect::build(&vec![], size(120, 60));
    assert!((radius(&p) - 60.0 * 0.16667).abs() < 0.01);
}

#[test]
fn an_oversized_adjustment_is_pinned_at_half_the_short_side() {
    let p = round_rect::build(&adj(90_000), size(200, 100));
    assert_eq!(radius(&p), 50.0);
    let flat = round_rect::build(&adj(-5_000), size(200, 100));
    assert_eq!(radius(&flat), 0.0);
}

#[test]
fn only_its_own_adjustment_rounds_a_box() {
    let other = GuideValue { name: "adj1".to_string(), value: 40_000 * EMU_PER_POINT };
    let mut guides = adj(10_000);
    guides.push(other);
    assert_eq!(radius(&round_rect::build(&guides, size(200, 100))), 10.0);
    guides.remove(0);
    let usual = round_rect::build(&vec![], size(200, 100));
    assert_eq!(radius(&round_rect::build(&guides, size(200, 100))), radius(&usual));
}

#[test]
fn the_outline_is_four_arcs_joined_by_four_edges() {
    let p = round_rect::build(&adj(10_000), size(200, 100));
    let verbs = &p.paths[0].verbs;
    assert_eq!(verbs.len(), 9);
    let arcs = verbs.iter().filter(|v| matches!(v, PathVerb::ArcTo { .. })).count();
    assert_eq!(arcs, 4, "one quarter turn per corner");
    assert!(matches!(verbs[8], PathVerb::Close));
    for verb in verbs {
        if let PathVerb::ArcTo { swing_angle, .. } = verb {
            assert_eq!(swing_angle.raw(), 5_400_000);
        }
    }
}

#[test]
fn the_text_rectangle_clears_the_corners() {
    let p = round_rect::build(&adj(20_000), size(200, 100));
    let tr = p.text_rect.unwrap();
    assert_eq!(tr.origin, at(20, 20));
    assert_eq!(tr.size, size(160, 60));
}

fn guide(name: &str, formula: &str) -> GeomGuide {
    GeomGuide { name: name.to_string(), formula: formula.to_string() }
}

fn entry(name: &str, av_list: Vec<GeomGuide>) -> PresetEntry {
    let mut geometry = geometry(vec![rect_path()]);
    geometry.av_list = av_list;
    PresetEntry { name: name.to_string(), geometry }
}

fn table() -> PresetTable {
    PresetTable {
        entries: vec![
            entry("line", vec![]),
            entry("rect", vec![]),
            entry("star12", vec![guide("adj", "val 37500")]),
            entry("roundRect", vec![guide("adj", "val 16667")]),
            entry("round2DiagRect", vec![guide("adj1", "val 16667"), guide("adj2", "val 0")]),
        ],
    }
}

fn def(preset: &str) -> PresetGeometry {
    PresetGeometry { preset: preset.to_string(), adjust_values: vec![] }
}

fn built(preset: &str) -> Option<ShapePath> {
    build_preset(&table(), &def(preset), size(10, 20), &vec![vec![]])
}

#[test]
fn line_dispatches() {
    assert!(built("line").is_some());
}

#[test]
fn rect_dispatches() {
    assert!(built("rect").is_some());
}

#[test]
fn table_preset_dispatches() {
    assert!(built("star12").is_some());
}

#[test]
fn preset_without_a_definition_returns_none() {
    assert!(built("nonesuch").is_none());
}

#[test]
fn resolve_applies_adjust_value_overrides() {
    let table = table();
    let geom = table
        .resolve("roundRect", &vec![guide("adj", "val 25000")])
        .expect("roundRect is in the table");
    assert_eq!(geom.av_list.len(), 1);
    assert_eq!(geom.av_list[0].name, "adj");
    assert_eq!(geom.av_list[0].formula, "val 25000");
}

#[test]
fn resolve_keeps_defaults_for_unspecified_adjustments() {
    let table = table();
    let geom = table
        .resolve("round2DiagRect", &vec![guide("adj2", "val 10000")])
        .expect("round2DiagRect is in the table");
    let names: Vec<_> = geom.av_list.iter().map(|g| g.name.as_str()).collect();
    assert_eq!(names, ["adj1", "adj2"]);
    assert_eq!(geom.av_list[0].formula, "val 16667");
    assert_eq!(geom.av_list[1].formula, "val 10000");
}

#[test]
fn unknown_preset_is_not_in_the_table() {
    assert!(table().resolve("nonesuch", &vec![]).is_none());
}

#[test]
fn adjustments_that_only_the_shape_has_come_last() {
    let merged = merge_adjust_values(
        &vec![guide("a", "1"), guide("b", "2")],
        &vec![guide("z", "9"), guide("b", "3"), guide("b", "4")],
    );
    let said: Vec<_> =
        merged.iter().map(|g| (g.name.as_str(), g.formula.as_str())).collect();
    assert_eq!(said, [("a", "1"), ("b", "3"), ("z", "9")]);
    assert_eq!(merge_adjust_values(&vec![guide("a", "1")], &vec![]).len(), 1);
}

#[test]
fn a_pen_leaves_out_arcs_that_it_cannot_draw() {
    let arc = |w: i64, h: i64| PathVerb::ArcTo {
        radii: size(w, h),
        start_angle: Dimension::new(0),
        swing_angle: Dimension::new(-10_800_000),
    };
    let steps = build_path(&vec![
        arc(5, 5),
        PathVerb::MoveTo(at(1, 2)),
        arc(0, 5),
        arc(5, 5),
        PathVerb::Close,
    ]);
    assert_eq!(steps.len(), 3);
    assert_eq!(steps[0], PenStep::MoveTo(at(1, 2)));
    assert!(matches!(steps[1], PenStep::Arc { pieces: 36, .. }));
    assert_eq!(steps[2], PenStep::Close);
}

#[test]
fn an_arc_is_drawn_in_pieces_of_five_degrees() {
    assert_eq!(arc_pieces(0), 1);
    assert_eq!(arc_pieces(300_000), 1);
    assert_eq!(arc_pieces(300_001), 2);
    assert_eq!(arc_pieces(-5_400_000), 18);
    assert_eq!(arc_pieces(i64::MIN), 30_744_573_456_183);
}

#[test]
fn an_odd_number_of_dashes_is_said_twice() {
    assert_eq!(pair_dashes(&vec![4, 3, 1]), vec![4, 3, 1, 4, 3, 1]);
    assert_eq!(pair_dashes(&vec![4, 3]), vec![4, 3]);
}

#[test]
fn a_path_may_be_left_open_inside() {
    let mut path = rect_path();
    path.fill = PathFillMode::NoFill;
    let geom = geometry(vec![path, rect_path()]);
    let s = build_custom(&geom, size(10, 10), &no_guides(&geom)).unwrap();
    assert!(!is_filled(&s.paths[0]));
    assert!(is_filled(&s.paths[1]));
}
