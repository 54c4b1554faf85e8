//! What outlines are drawn of.
use vstd::prelude::*;

use crate::dimension::{
    divide_nearest, hold, nearest, Dimension, Emu, HalfPoints, HundredthPoints,
};
use crate::model::drawing::{AdjCoord, AdjPoint, CustomGeometry, GeomGuide, PathCommand, PathDef};
use crate::model::geometry::{Offset, Size};
use crate::render::shape_geometry::custom::{
    build_custom, known_guide, look_up_guide, GuideValue, PathVerb, ShapePath, SubPath,
};
use crate::render::shape_geometry::ellipse;
use crate::render::shape_geometry::pen::{
    arc_pieces, build_path, is_filled, pair_dashes, PenStep,
};
use crate::render::shape_geometry::presets::{
    first_named, guide_texts, merge_adjust_values, preset_place, unknown_to, GuideText,
    PresetEntry, PresetTable, ResolvedPreset,
};
use crate::render::shape_geometry::round_rect;

verus! {

proof fn a_quotient_is_near(n: int, d: int)
    requires
        d > 0,
    ensures
        -d <= 2 * (d * nearest(n, d) - n) <= d,
        n >= 0 ==> nearest(n, d) >= 0,
        n <= 0 ==> nearest(n, d) <= 0,
{
    let m = if n >= 0 {
        n
    } else {
        -n
    };
    let q = (2 * m + d) / (2 * d);
    assert(2 * d * q <= 2 * m + d < 2 * d * q + 2 * d && q >= 0) by (nonlinear_arith)
        requires
            d > 0,
            m >= 0,
            q == (2 * m + d) / (2 * d),
    ;
    if m == 0 {
        assert(q == 0) by (nonlinear_arith)
            requires
                2 * d * q <= d,
                d > 0,
                q >= 0,
        ;
    }
    assert(2 * d * q == 2 * (d * q)) by (nonlinear_arith);
    assert(d * -q == -(d * q)) by (nonlinear_arith);
}

/// A rounded quotient is within half a unit of what it is of, and on the same side
/// of nothing.
pub proof fn a_rounded_quotient_is_near(n: i128, d: i128, r: i128)
    requires
        call_ensures(divide_nearest, (n, d), r),
        d > 0,
    ensures
        -d <= 2 * (d * r - n) <= d,
        n >= 0 ==> r >= 0,
        n <= 0 ==> r <= 0,
{
    a_quotient_is_near(n as int, d as int);
}

/// A number is held only at the ends of its range.
pub proof fn a_number_is_held_at_the_ends(n: i128, r: i64)
    requires
        call_ensures(hold, (n,), r),
    ensures
        -0x8000_0000_0000_0000 <= n <= 0x7fff_ffff_ffff_ffff ==> r == n,
        n > 0x7fff_ffff_ffff_ffff ==> r == 0x7fff_ffff_ffff_ffff,
        n < -0x8000_0000_0000_0000 ==> r == -0x8000_0000_0000_0000,
{
}

/// A half-point is fifty hundredths of a point, and what is left over is dropped.
pub proof fn half_points_are_fifty_hundredths(
    d: Dimension<HundredthPoints>,
    r: Dimension<HalfPoints>,
)
    requires
        call_ensures(Dimension::<HundredthPoints>::to_half_points, (d,), r),
    ensures
        d.value >= 0 ==> 50 * r.value <= d.value < 50 * r.value + 50,
        d.value < 0 ==> 50 * r.value - 50 < d.value <= 50 * r.value,
{
}

/// The last value under a name is that of the guide.
pub proof fn a_later_guide_takes_the_place_of_an_earlier_one(
    few: &Vec<GuideValue>,
    more: &Vec<GuideValue>,
    g: GuideValue,
    name: &str,
    a: Option<i64>,
    b: Option<i64>,
)
    requires
        call_ensures(look_up_guide, (few, name), a),
        call_ensures(look_up_guide, (more, name), b),
        more@ == few@.push(g),
    ensures
        few@.len() == 0 ==> a is None,
        g.name@ == name@ ==> b == Some(g.value),
        g.name@ != name@ ==> b == a,
{
    assert(more@.drop_last() =~= few@);
}

/// Whether a coordinate of a path lands on a shape where its share of the path's
/// own length is, to the nearest unit. In a path without a length of its own a
/// number is in points, and a guide, told in parts of a point, is itself.
pub open spec fn lands(
    c: AdjCoord,
    values: Seq<GuideValue>,
    declared: int,
    extent: int,
    at: int,
) -> bool {
    i64::MIN < at < i64::MAX ==> match c {
        AdjCoord::Lit(v) => {
            &&& declared > 0 ==> -declared <= 2 * (declared * at - v * extent) <= declared
            &&& declared <= 0 && extent > 0 ==> at == 12_700 * v
        },
        AdjCoord::Guide(n) => {
            let v = match known_guide(values, n@) {
                Some(g) => g,
                None => 0i64,
            };
            &&& declared > 0 ==> -(declared * 12_700) <= 2 * ((declared * 12_700) * at - v
                * extent) <= declared * 12_700
            &&& declared <= 0 && extent > 0 ==> at == v
        },
    }
}

/// Whether a point of a path lands on a shape by its share of both lengths.
pub open spec fn point_lands(
    p: AdjPoint,
    values: Seq<GuideValue>,
    path: PathDef,
    extent: Size<Emu>,
    at: Offset<Emu>,
) -> bool {
    &&& lands(p.x, values, path.w.value as int, extent.width.value as int, at.x.value as int)
    &&& lands(p.y, values, path.h.value as int, extent.height.value as int, at.y.value as int)
}

proof fn how_a_coordinate_lands(
    c: AdjCoord,
    values: Seq<GuideValue>,
    declared: int,
    extent: int,
)
    ensures
        lands(
            c,
            values,
            declared,
            extent,
            crate::render::shape_geometry::custom::coordinate(
                c,
                values,
                declared,
                extent,
            ).value as int,
        ),
{
    match c {
        AdjCoord::Lit(v) => {
            if declared > 0 {
                a_quotient_is_near(v * extent, declared);
                assert(declared * 1 == declared) by (nonlinear_arith);
            } else if extent > 0 {
                let n = v * 12_700;
                a_quotient_is_near(n, 1);
                assert(1 * nearest(n, 1) == nearest(n, 1)) by (nonlinear_arith);
            }
        },
        AdjCoord::Guide(n) => {
            let v = match known_guide(values, n@) {
                Some(g) => g,
                None => 0i64,
            };
            if declared > 0 {
                assert(declared * 12_700 > 0);
                a_quotient_is_near(v * extent, declared * 12_700);
            } else if extent > 0 {
                crate::render::shape_geometry::custom::a_guide_in_the_shapes_own_space(
                    v as int,
                    extent,
                );
            }
        },
    }
}

proof fn how_a_point_lands(
    p: AdjPoint,
    values: Seq<GuideValue>,
    path: PathDef,
    extent: Size<Emu>,
)
    ensures
        point_lands(
            p,
            values,
            path,
            extent,
            crate::render::shape_geometry::custom::point(
                p,
                values,
                crate::render::shape_geometry::custom::space_of(path, extent),
            ),
        ),
{
    how_a_coordinate_lands(p.x, values, path.w.value as int, extent.width.value as int);
    how_a_coordinate_lands(p.y, values, path.h.value as int, extent.height.value as int);
}

/// Each step of a path is drawn as a step of its kind, with each of its points
/// where it lands on the shape.
pub proof fn steps_are_drawn_as_their_kind(
    geom: &CustomGeometry,
    extent: Size<Emu>,
    guides: &Vec<Vec<GuideValue>>,
    o: ShapePath,
    i: int,
    j: int,
)
    requires
        call_ensures(build_custom, (geom, extent, guides), Some(o)),
        0 <= i < geom.paths@.len(),
        0 <= j < geom.paths@[i].commands@.len(),
    ensures
        o.paths@.len() == geom.paths@.len(),
        o.paths@[i].fill_mode == geom.paths@[i].fill,
        o.paths@[i].stroked == geom.paths@[i].stroke,
        o.paths@[i].verbs@.len() == geom.paths@[i].commands@.len(),
        ({
            let path = geom.paths@[i];
            let g = guides@[i]@;
            let drawn = o.paths@[i].verbs@[j];
            match path.commands@[j] {
                PathCommand::MoveTo(p) => drawn matches PathVerb::MoveTo(a) && point_lands(
                    p,
                    g,
                    path,
                    extent,
                    a,
                ),
                PathCommand::LineTo(p) => drawn matches PathVerb::LineTo(a) && point_lands(
                    p,
                    g,
                    path,
                    extent,
                    a,
                ),
                PathCommand::QuadBezTo(p, q) => drawn matches PathVerb::QuadTo(a, b)
                    && point_lands(p, g, path, extent, a) && point_lands(q, g, path, extent, b),
                PathCommand::CubicBezTo(p, q, r) => drawn matches PathVerb::CubicTo(a, b, c)
                    && point_lands(p, g, path, extent, a) && point_lands(q, g, path, extent, b)
                    && point_lands(r, g, path, extent, c),
                PathCommand::ArcTo { wr, hr, start_angle, swing_angle } =>
                drawn matches PathVerb::ArcTo { radii, start_angle: s, swing_angle: t } && lands(
                    wr,
                    g,
                    path.w.value as int,
                    extent.width.value as int,
                    radii.width.value as int,
                ) && lands(
                    hr,
                    g,
                    path.h.value as int,
                    extent.height.value as int,
                    radii.height.value as int,
                ) && (start_angle matches AdjCoord::Lit(v) ==> s.value == v) && (
                swing_angle matches AdjCoord::Lit(v) ==> t.value == v),
                PathCommand::Close => drawn is Close,
            }
        }),
{
    let path = geom.paths@[i];
    let g = guides@[i]@;
    let s = crate::render::shape_geometry::custom::space_of(path, extent);
    assert(crate::render::shape_geometry::custom::is_subpath(o.paths@[i], path, g, extent));
    let drawn = o.paths@[i].verbs@[j];
    assert(drawn == crate::render::shape_geometry::custom::verb(path.commands@[j], g, s));
    match path.commands@[j] {
        PathCommand::MoveTo(p) => {
            how_a_point_lands(p, g, path, extent);
        },
        PathCommand::LineTo(p) => {
            how_a_point_lands(p, g, path, extent);
        },
        PathCommand::QuadBezTo(p, q) => {
            how_a_point_lands(p, g, path, extent);
            how_a_point_lands(q, g, path, extent);
        },
        PathCommand::CubicBezTo(p, q, r) => {
            how_a_point_lands(p, g, path, extent);
            how_a_point_lands(q, g, path, extent);
            how_a_point_lands(r, g, path, extent);
        },
        PathCommand::ArcTo { wr, hr, .. } => {
            how_a_coordinate_lands(wr, g, path.w.value as int, extent.width.value as int);
            how_a_coordinate_lands(hr, g, path.h.value as int, extent.height.value as int);
        },
        PathCommand::Close => {},
    }
}

/// The box for text has its corner at the left and the top that the geometry
/// states, and reaches to the right and the bottom, in the space of the first
/// path. Without such a box there is none, and without paths no outline.
pub proof fn the_box_for_text_lies_between_its_sides(
    geom: &CustomGeometry,
    extent: Size<Emu>,
    guides: &Vec<Vec<GuideValue>>,
    r: Option<ShapePath>,
)
    requires
        call_ensures(build_custom, (geom, extent, guides), r),
    ensures
        r is None <==> geom.paths@.len() == 0,
        r matches Some(o) ==> {
            &&& geom.rect is None ==> o.text_rect is None
            &&& geom.rect matches Some(t) ==> (o.text_rect matches Some(b) && {
                let path = geom.paths@[0];
                let g = guides@[0]@;
                let w = path.w.value as int;
                let h = path.h.value as int;
                let ew = extent.width.value as int;
                let eh = extent.height.value as int;
                &&& lands(t.left, g, w, ew, b.origin.x.value as int)
                &&& lands(t.top, g, h, eh, b.origin.y.value as int)
                &&& b.size.width.value >= 0
                &&& b.size.height.value >= 0
                &&& 0 < b.size.width.value < i64::MAX ==> lands(
                    t.right,
                    g,
                    w,
                    ew,
                    b.origin.x.value + b.size.width.value,
                )
                &&& 0 < b.size.height.value < i64::MAX ==> lands(
                    t.bottom,
                    g,
                    h,
                    eh,
                    b.origin.y.value + b.size.height.value,
                )
            })
        },
{
    if let Some(o) = r {
        if let Some(t) = geom.rect {
            let path = geom.paths@[0];
            let g = guides@[0]@;
            how_a_coordinate_lands(t.left, g, path.w.value as int, extent.width.value as int);
            how_a_coordinate_lands(t.right, g, path.w.value as int, extent.width.value as int);
            how_a_coordinate_lands(t.top, g, path.h.value as int, extent.height.value as int);
            how_a_coordinate_lands(t.bottom, g, path.h.value as int, extent.height.value as int);
        }
    }
}

/// An ellipse goes from the middle of the left side, by half a turn over the top
/// and half a turn back, around the middle of its shape; the box for its text has
/// the same middle and seven tenths of its axes.
pub proof fn an_ellipse_fills_its_shape(extent: Size<Emu>, r: ShapePath)
    requires
        call_ensures(ellipse::build, (extent,), r),
        0 <= extent.width.value < 0x1000_0000_0000_0000,
        0 <= extent.height.value < 0x1000_0000_0000_0000,
    ensures
        r.paths@.len() == 1,
        r.paths@[0].stroked,
        r.paths@[0].verbs@.len() == 4,
        r.paths@[0].verbs@[0] matches PathVerb::MoveTo(p) && p.x.value == 0 && 0 <= 2 * p.y.value
            - extent.height.value <= 1,
        r.paths@[0].verbs@[1] matches PathVerb::ArcTo { radii, start_angle, swing_angle } && {
            &&& 0 <= 2 * radii.width.value - extent.width.value <= 1
            &&& 0 <= 2 * radii.height.value - extent.height.value <= 1
            &&& start_angle.value == 180 * 60_000
            &&& swing_angle.value == 180 * 60_000
        },
        r.paths@[0].verbs@[2] matches PathVerb::ArcTo { radii, start_angle, swing_angle } && {
            &&& 0 <= 2 * radii.width.value - extent.width.value <= 1
            &&& 0 <= 2 * radii.height.value - extent.height.value <= 1
            &&& start_angle.value == 0
            &&& swing_angle.value == 180 * 60_000
        },
        r.paths@[0].verbs@[3] is Close,
        r.text_rect matches Some(b) && {
            &&& 0 <= 2 * b.origin.x.value + b.size.width.value - extent.width.value <= 1
            &&& 0 <= 2 * b.origin.y.value + b.size.height.value - extent.height.value <= 1
            &&& 707_106 * extent.width.value - 1_000_000 <= 1_000_000 * b.size.width.value
                <= 707_107 * extent.width.value + 2_000_000
            &&& 707_106 * extent.height.value - 1_000_000 <= 1_000_000 * b.size.height.value
                <= 707_107 * extent.height.value + 2_000_000
        },
{
    let w = extent.width.value as int;
    let h = extent.height.value as int;
    let rx = ellipse::half(w);
    let ry = ellipse::half(h);
    a_quotient_is_near(w, 2);
    a_quotient_is_near(h, 2);
    a_quotient_is_near(rx * 11_863_283, 16_777_216);
    a_quotient_is_near(ry * 11_863_283, 16_777_216);
    assert(r.paths@[0].verbs@.len() == 4);
}

/// The corners of a rounded box are quarter turns of one radius, a sixth of its
/// shorter side where nothing is said, and never more than half of it; its edges
/// lie on its sides, and its text keeps clear of its corners.
pub proof fn a_rounded_box_has_equal_corners(
    guides: &Vec<GuideValue>,
    extent: Size<Emu>,
    adjust: Option<i64>,
    o: ShapePath,
)
    requires
        call_ensures(round_rect::build, (guides, extent), o),
        call_ensures(look_up_guide, (guides, "adj"), adjust),
        0 <= extent.width.value < 0x1000_0000_0000_0000,
        0 <= extent.height.value < 0x1000_0000_0000_0000,
    ensures
        o.paths@.len() == 1,
        o.paths@[0].stroked,
        o.paths@[0].verbs@.len() == 9,
        o.paths@[0].verbs@[0] matches PathVerb::MoveTo(p) && {
            let r = p.y.value;
            let w = extent.width.value;
            let h = extent.height.value;
            let s = if w <= h {
                w
            } else {
                h
            };
            let v = o.paths@[0].verbs@;
            &&& p.x.value == 0
            &&& 0 <= r
            &&& 2 * r <= s + 1
            &&& adjust is None ==> -100_000 <= 2 * (100_000 * r - 16_667 * s) <= 100_000
            &&& adjust matches Some(a) ==> {
                &&& a <= 0 ==> r == 0
                &&& a >= 50_000 * 12_700 ==> 0 <= 2 * r - s <= 1
                &&& 0 <= a <= 50_000 * 12_700 ==> -1_270_000_000 <= 2 * (1_270_000_000 * r - s * a)
                    <= 1_270_000_000
            }
            &&& is_corner(v[1], r as int, 180)
            &&& (v[2] matches PathVerb::LineTo(q) && q.x.value == w - r && q.y.value == 0)
            &&& is_corner(v[3], r as int, 270)
            &&& (v[4] matches PathVerb::LineTo(q) && q.x.value == w && q.y.value == h - r)
            &&& is_corner(v[5], r as int, 0)
            &&& (v[6] matches PathVerb::LineTo(q) && q.x.value == r && q.y.value == h)
            &&& is_corner(v[7], r as int, 90)
            &&& v[8] is Close
            &&& (o.text_rect matches Some(b) && b.origin.x.value == r && b.origin.y.value == r
                && b.size.width.value == w - 2 * r && b.size.height.value == h - 2 * r)
        },
{
    let w = extent.width.value as int;
    let h = extent.height.value as int;
    let s = round_rect::shorter_side(extent);
    let c = round_rect::corner_of(adjust);
    let r = round_rect::corner_radius(adjust, extent);
    round_rect::corners_leave_an_edge(adjust, extent);
    a_quotient_is_near(s * c, 1_270_000_000);
    assert(o.paths@[0].verbs@ == round_rect::rounded_verbs(w, h, r));
    match adjust {
        None => {
            assert(s * (16_667 * 12_700) == (16_667 * s) * 12_700) by (nonlinear_arith);
        },
        Some(a) => {
            if a <= 0 {
                assert(s * 0 == 0) by (nonlinear_arith);
            } else if a >= 50_000 * 12_700 {
                assert(s * 635_000_000 == 635_000_000 * s) by (nonlinear_arith);
            }
        },
    }
}

/// Whether a step is a quarter turn of a radius from an angle in degrees.
pub open spec fn is_corner(v: PathVerb, r: int, degrees: int) -> bool {
    v matches PathVerb::ArcTo { radii, start_angle, swing_angle } && radii.width.value == r
        && radii.height.value == r && start_angle.value == 60_000 * degrees && swing_angle.value
        == 60_000 * 90
}

/// An arc is drawn in as few pieces as it takes for none to stand for more than
/// five degrees.
pub proof fn arcs_are_drawn_in_small_pieces(swing: i64, r: u64)
    requires
        call_ensures(arc_pieces, (swing,), r),
    ensures
        r >= 1,
        300_000 * r >= swing,
        300_000 * r >= -swing,
        r > 1 ==> 300_000 * (r - 1) < swing || 300_000 * (r - 1) < -swing,
{
    let m = crate::render::shape_geometry::pen::magnitude(swing as int);
    let n = (m + 300_000 - 1) / 300_000;
    assert(300_000 * n <= m + 299_999 < 300_000 * n + 300_000);
    assert(r == if n < 1 {
        1
    } else {
        n
    });
}

/// A pen takes the steps of an outline one by one. It leaves out an arc without a
/// width or a height, and one that comes before it is anywhere.
pub proof fn a_pen_takes_step_by_step(
    few: &Vec<PathVerb>,
    more: &Vec<PathVerb>,
    v: PathVerb,
    a: Vec<PenStep>,
    b: Vec<PenStep>,
)
    requires
        call_ensures(build_path, (few,), a),
        call_ensures(build_path, (more,), b),
        more@ == few@.push(v),
    ensures
        few@.len() == 0 ==> a@.len() == 0,
        v matches PathVerb::MoveTo(p) ==> b@ == a@.push(PenStep::MoveTo(p)),
        v matches PathVerb::LineTo(p) ==> b@ == a@.push(PenStep::LineTo(p)),
        v matches PathVerb::QuadTo(c, p) ==> b@ == a@.push(PenStep::QuadTo(c, p)),
        v matches PathVerb::CubicTo(c, d, p) ==> b@ == a@.push(PenStep::CubicTo(c, d, p)),
        v is Close ==> b@ == a@.push(PenStep::Close),
        v matches PathVerb::ArcTo { radii, start_angle, swing_angle } ==> {
            let placed = exists|i: int|
                0 <= i < few@.len() && !((#[trigger] few@[i]) is ArcTo) && !(few@[i] is Close);
            &&& !placed || radii.width.value <= 0 || radii.height.value <= 0 ==> b@ == a@
            &&& placed && radii.width.value > 0 && radii.height.value > 0 ==> b@.len() == a@.len()
                + 1 && b@.drop_last() == a@ && (b@.last() matches PenStep::Arc {
                radii: q,
                start_angle: s,
                swing_angle: t,
                pieces,
            } && q == radii && s == start_angle && t == swing_angle && pieces >= 1)
        },
{
    assert(more@.drop_last() =~= few@);
    let placed = exists|i: int|
        0 <= i < few@.len() && !((#[trigger] few@[i]) is ArcTo) && !(few@[i] is Close);
    assert(placed <==> crate::render::shape_geometry::pen::has_a_place(few@)) by {
        if placed {
            let i = choose|i: int|
                0 <= i < few@.len() && !((#[trigger] few@[i]) is ArcTo) && !(few@[i] is Close);
            assert(crate::render::shape_geometry::pen::goes_to_a_point(few@[i]));
        }
        if crate::render::shape_geometry::pen::has_a_place(few@) {
            let i = choose|i: int|
                0 <= i < few@.len() && crate::render::shape_geometry::pen::goes_to_a_point(
                    #[trigger] few@[i],
                );
            assert(!(few@[i] is ArcTo) && !(few@[i] is Close));
        }
    }
    if v is ArcTo && b@ != a@ {
        assert(b@.drop_last() =~= a@);
    }
}

/// Dashes and gaps come in pairs: an even number of them stays, and an odd one is
/// said twice.
pub proof fn dashes_come_in_pairs(dashes: &Vec<i64>, r: Vec<i64>, i: int)
    requires
        call_ensures(pair_dashes, (dashes,), r),
        0 <= i < r@.len(),
    ensures
        r@.len() % 2 == 0,
        dashes@.len() % 2 == 0 ==> r@.len() == dashes@.len(),
        dashes@.len() % 2 == 1 ==> r@.len() == 2 * dashes@.len(),
        i < dashes@.len() ==> r@[i] == dashes@[i],
        i >= dashes@.len() ==> r@[i] == dashes@[i - dashes@.len()],
{
}

/// Only a path that says so is not filled.
pub proof fn which_paths_are_filled(sub: &SubPath, r: bool)
    requires
        call_ensures(is_filled, (sub,), r),
    ensures
        r <==> !(sub.fill_mode is NoFill),
{
}

proof fn the_first_under_a_name(all: Seq<GuideText>, name: Seq<char>)
    ensures
        first_named(all, name) is None ==> forall|i: int|
            0 <= i < all.len() ==> (#[trigger] all[i]).name != name,
        first_named(all, name) matches Some(g) ==> exists|i: int|
            0 <= i < all.len() && #[trigger] all[i] == g && g.name == name && forall|j: int|
                0 <= j < i ==> (#[trigger] all[j]).name != name,
    decreases all.len(),
{
    if all.len() > 0 {
        let shorter = all.drop_last();
        the_first_under_a_name(shorter, name);
        assert(forall|i: int| 0 <= i < shorter.len() ==> #[trigger] shorter[i] == all[i]);
        assert(all[all.len() - 1] == all.last());
        if let Some(g) = first_named(shorter, name) {
            let i = choose|i: int|
                0 <= i < shorter.len() && #[trigger] shorter[i] == g && g.name == name && forall|
                    j: int,
                |
                    0 <= j < i ==> (#[trigger] shorter[j]).name != name;
            assert(all[i] == g);
            assert forall|j: int| 0 <= j < i implies (#[trigger] all[j]).name != name by {
                assert(shorter[j] == all[j]);
            }
        } else {
            assert forall|i: int| 0 <= i < shorter.len() implies (#[trigger] all[i]).name
                != name by {
                assert(shorter[i] == all[i]);
            }
        }
    }
}

/// The adjustments of a preset keep their places and names; each has the formula
/// of the shape's first adjustment of its name, or its own where the shape has
/// none. Those behind them are the shape's alone.
pub proof fn a_shape_adjusts_its_preset(
    defaults: &Vec<GeomGuide>,
    overrides: &Vec<GeomGuide>,
    r: Vec<GeomGuide>,
    i: int,
)
    requires
        call_ensures(merge_adjust_values, (defaults, overrides), r),
        0 <= i < r@.len(),
    ensures
        defaults@.len() <= r@.len() <= defaults@.len() + overrides@.len(),
        i < defaults@.len() ==> {
            &&& r@[i].name@ == defaults@[i].name@
            &&& (forall|k: int|
                0 <= k < overrides@.len() ==> (#[trigger] overrides@[k]).name@
                    != defaults@[i].name@) ==> r@[i].formula@ == defaults@[i].formula@
            &&& (exists|k: int|
                0 <= k < overrides@.len() && (#[trigger] overrides@[k]).name@
                    == defaults@[i].name@) ==> exists|k: int|
                0 <= k < overrides@.len() && (#[trigger] overrides@[k]).name@ == defaults@[i].name@
                    && r@[i].formula@ == overrides@[k].formula@ && forall|j: int|
                    0 <= j < k ==> (#[trigger] overrides@[j]).name@ != defaults@[i].name@
        },
        i >= defaults@.len() ==> forall|k: int|
            0 <= k < defaults@.len() ==> (#[trigger] defaults@[k]).name@ != r@[i].name@,
{
    let ds = guide_texts(defaults@);
    let os = guide_texts(overrides@);
    let rs = guide_texts(r@);
    assert(rs.len() == r@.len() && ds.len() == defaults@.len() && os.len() == overrides@.len());
    assert(rs[i].name == r@[i].name@ && rs[i].formula == r@[i].formula@);
    assert(forall|k: int|
        0 <= k < os.len() ==> (#[trigger] os[k]).name == overrides@[k].name@ && os[k].formula
            == overrides@[k].formula@);
    assert(forall|k: int| 0 <= k < ds.len() ==> (#[trigger] ds[k]).name == defaults@[k].name@);
    what_is_unknown(os, ds);
    if i < ds.len() {
        assert(ds[i].name == defaults@[i].name@ && ds[i].formula == defaults@[i].formula@);
        the_first_under_a_name(os, ds[i].name);
        if let Some(g) = first_named(os, ds[i].name) {
            let k = choose|k: int|
                0 <= k < os.len() && #[trigger] os[k] == g && g.name == ds[i].name && forall|
                    j: int,
                |
                    0 <= j < k ==> (#[trigger] os[j]).name != ds[i].name;
            assert(overrides@[k].name@ == os[k].name);
            assert forall|j: int| 0 <= j < k implies (#[trigger] overrides@[j]).name@
                != defaults@[i].name@ by {
                assert(os[j].name == overrides@[j].name@);
            }
        } else {
            assert forall|k: int| 0 <= k < overrides@.len() implies (#[trigger] overrides@[k]).name@
                != defaults@[i].name@ by {
                assert(os[k].name == overrides@[k].name@);
            }
        }
    } else {
        let own = unknown_to(os, ds);
        assert(rs[i] == own[i - ds.len()]);
        the_first_under_a_name(ds, rs[i].name);
        assert forall|k: int| 0 <= k < defaults@.len() implies (#[trigger] defaults@[k]).name@
            != r@[i].name@ by {
            assert(ds[k].name == defaults@[k].name@);
        }
    }
}

proof fn what_is_unknown(all: Seq<GuideText>, others: Seq<GuideText>)
    ensures
        unknown_to(all, others).len() <= all.len(),
        forall|i: int|
            0 <= i < unknown_to(all, others).len() ==> first_named(
                others,
                (#[trigger] unknown_to(all, others)[i]).name,
            ) is None,
    decreases all.len(),
{
    if all.len() > 0 {
        what_is_unknown(all.drop_last(), others);
    }
}

/// A preset is the last of its name in the table.
pub proof fn a_preset_is_found_by_its_name<'a>(
    table: &'a PresetTable,
    preset: &str,
    adjust: &Vec<GeomGuide>,
    r: Option<ResolvedPreset<'a>>,
)
    requires
        call_ensures(PresetTable::resolve, (table, preset, adjust), r),
    ensures
        r is None <==> forall|i: int|
            0 <= i < table.entries@.len() ==> (#[trigger] table.entries@[i]).name@ != preset@,
        r matches Some(p) ==> exists|i: int|
            0 <= i < table.entries@.len() && (#[trigger] table.entries@[i]).name@ == preset@
                && *p.definition == table.entries@[i].geometry && forall|j: int|
                i < j < table.entries@.len() ==> (#[trigger] table.entries@[j]).name@ != preset@,
{
    the_last_under_a_name(table.entries@, preset@);
}

proof fn the_last_under_a_name(all: Seq<PresetEntry>, name: Seq<char>)
    ensures
        preset_place(all, name) is None <==> forall|i: int|
            0 <= i < all.len() ==> (#[trigger] all[i]).name@ != name,
        preset_place(all, name) matches Some(k) ==> 0 <= k < all.len() && all[k].name@ == name
            && forall|j: int| k < j < all.len() ==> (#[trigger] all[j]).name@ != name,
    decreases all.len(),
{
    if all.len() > 0 {
        let shorter = all.drop_last();
        the_last_under_a_name(shorter, name);
        assert(forall|i: int| 0 <= i < shorter.len() ==> #[trigger] shorter[i] == all[i]);
        assert(all[all.len() - 1] == all.last());
        if preset_place(all, name) is None {
            assert forall|i: int| 0 <= i < all.len() implies (#[trigger] all[i]).name@ != name by {
                if i < shorter.len() {
                    assert(shorter[i] == all[i]);
                }
            }
        } else if all.last().name@ != name {
            let k = preset_place(all, name)->0;
            assert forall|j: int| k < j < all.len() implies (#[trigger] all[j]).name@ != name by {
                if j < shorter.len() {
                    assert(shorter[j] == all[j]);
                }
            }
            assert(all[k].name@ == name);
        }
    }
}

} // verus!
