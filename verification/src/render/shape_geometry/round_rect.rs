//! The outline of a box with rounded corners.
use vstd::prelude::*;

use crate::dimension::{divide_nearest, nearest, Emu};
use crate::model::drawing::PathFillMode;
use crate::model::geometry::Size;
use crate::render::shape_geometry::custom::{
    arc, arc_to, at, box_at, known_guide, look_up_guide, point_at, rect_at, GuideValue, PathVerb,
    ShapePath, SubPath, EMU_PER_POINT, HALF_TURN, QUARTER_TURN, THREE_QUARTER_TURN,
};

verus! {

/// The corner that a rounded box has where the file says nothing: so many
/// hundred-thousandths of its shorter side.
pub const DEFAULT_CORNER: i64 = 16_667;

/// The greatest corner, at which two arcs of a side meet.
pub const MAX_CORNER: i64 = 50_000;

/// The corner that a box asks for, within what is possible, in parts of a guide.
pub open spec fn corner_of(adjust: Option<i64>) -> int {
    match adjust {
        Some(a) => if a < 0 {
            0
        } else if a > MAX_CORNER * EMU_PER_POINT {
            MAX_CORNER * EMU_PER_POINT
        } else {
            a as int
        },
        None => DEFAULT_CORNER * EMU_PER_POINT,
    }
}

/// The shorter side of a box, and at least nothing.
pub open spec fn shorter_side(extent: Size<Emu>) -> int {
    let w = extent.width.value;
    let h = extent.height.value;
    let s = if w <= h {
        w
    } else {
        h
    };
    if s > 0 {
        s as int
    } else {
        0
    }
}

/// The radius of the corners of a rounded box.
pub open spec fn corner_radius(adjust: Option<i64>, extent: Size<Emu>) -> int {
    nearest(shorter_side(extent) * corner_of(adjust), 100_000 * EMU_PER_POINT)
}

/// The radius of the corners of a rounded box.
fn read_corner(adjust: Option<i64>, extent: Size<Emu>) -> (r: i128)
    ensures
        r == corner_radius(adjust, extent),
{
    let most: i64 = MAX_CORNER * EMU_PER_POINT;
    let corner: i64 = match adjust {
        Some(a) => if a < 0 {
            0
        } else if a > most {
            most
        } else {
            a
        },
        None => DEFAULT_CORNER * EMU_PER_POINT,
    };
    let w: i64 = extent.width.raw();
    let h: i64 = extent.height.raw();
    let s: i64 = if w <= h {
        w
    } else {
        h
    };
    let shorter: i64 = if s > 0 {
        s
    } else {
        0
    };
    let a: i128 = shorter as i128;
    let b: i128 = corner as i128;
    assert(0 <= a * b <= 0x7fff_ffff_ffff_ffff * 635_000_000) by (nonlinear_arith)
        requires
            0 <= a <= 0x7fff_ffff_ffff_ffff,
            0 <= b <= 635_000_000,
    ;
    divide_nearest(a * b, 100_000 * EMU_PER_POINT as i128)
}

/// The outline of a rounded box: four edges, joined by quarter turns.
pub open spec fn rounded_verbs(w: int, h: int, r: int) -> Seq<PathVerb> {
    seq![
        PathVerb::MoveTo(at(0, r)),
        arc(r, r, HALF_TURN, QUARTER_TURN),
        PathVerb::LineTo(at(w - r, 0)),
        arc(r, r, THREE_QUARTER_TURN, QUARTER_TURN),
        PathVerb::LineTo(at(w, h - r)),
        arc(r, r, 0, QUARTER_TURN),
        PathVerb::LineTo(at(r, h)),
        arc(r, r, QUARTER_TURN, QUARTER_TURN),
        PathVerb::Close,
    ]
}

/// Whether an outline is that of a rounded box, given what its adjustment comes
/// to. Its text keeps clear of the corners.
pub open spec fn is_rounded_box(o: ShapePath, adjust: Option<i64>, extent: Size<Emu>) -> bool {
    let w = extent.width.value as int;
    let h = extent.height.value as int;
    let r = corner_radius(adjust, extent);
    &&& o.paths@.len() == 1
    &&& o.paths@[0].fill_mode == PathFillMode::Norm
    &&& o.paths@[0].stroked
    &&& o.paths@[0].verbs@ == rounded_verbs(w, h, r)
    &&& o.text_rect == Some(box_at(r, r, w - r - r, h - r - r))
}

/// The outline of a rounded box, given what its guides come to. Its corners are
/// as great as the guide `adj` says, or as usual where there is none.
pub fn build(guides: &Vec<GuideValue>, extent: Size<Emu>) -> (o: ShapePath)
    ensures
        is_rounded_box(o, known_guide(guides@, "adj"@), extent),
{
    build_with_corner(look_up_guide(guides, "adj"), extent)
}

/// The outline of a rounded box, given what its adjustment comes to.
fn build_with_corner(adjust: Option<i64>, extent: Size<Emu>) -> (o: ShapePath)
    ensures
        is_rounded_box(o, adjust, extent),
{
    proof {
        corners_leave_an_edge(adjust, extent);
    }
    let r: i128 = read_corner(adjust, extent);
    let w: i128 = extent.width.raw() as i128;
    let h: i128 = extent.height.raw() as i128;
    let right: i128 = w - r;
    let low: i128 = h - r;
    let verbs: Vec<PathVerb> = vec![
        PathVerb::MoveTo(point_at(0, r)),
        arc_to(r, r, HALF_TURN, QUARTER_TURN),
        PathVerb::LineTo(point_at(right, 0)),
        arc_to(r, r, THREE_QUARTER_TURN, QUARTER_TURN),
        PathVerb::LineTo(point_at(w, low)),
        arc_to(r, r, 0, QUARTER_TURN),
        PathVerb::LineTo(point_at(r, h)),
        arc_to(r, r, QUARTER_TURN, QUARTER_TURN),
        PathVerb::Close,
    ];
    assert(verbs@ =~= rounded_verbs(w as int, h as int, r as int));
    let paths: Vec<SubPath> = vec![SubPath { verbs, fill_mode: PathFillMode::Norm, stroked: true }];
    ShapePath { paths, text_rect: Some(rect_at(r, r, w - r - r, h - r - r)) }
}

/// Two corners never take more than the shorter side, but for the rounding to
/// whole EMU.
pub proof fn corners_leave_an_edge(adjust: Option<i64>, extent: Size<Emu>)
    ensures
        0 <= corner_radius(adjust, extent),
        2 * corner_radius(adjust, extent) <= shorter_side(extent) + 1,
{
    let s = shorter_side(extent);
    let c = corner_of(adjust);
    let n = s * c;
    assert(0 <= n <= s * 635_000_000) by (nonlinear_arith)
        requires
            0 <= s,
            0 <= c <= 635_000_000,
            n == s * c,
    ;
}

} // verus!
