//! The outline of an ellipse.
use vstd::prelude::*;

use crate::dimension::{divide_nearest, nearest, Emu};
use crate::model::drawing::PathFillMode;
use crate::model::geometry::Size;
use crate::render::shape_geometry::custom::{
    arc, arc_to, at, box_at, point_at, rect_at, PathVerb, ShapePath, SubPath, HALF_TURN,
};

verus! {

/// Half a length.
pub open spec fn half(length: int) -> int {
    nearest(length, 2)
}

/// The part of a half axis that the box inscribed at forty-five degrees takes:
/// one through the root of two, in parts of two to the twenty-fourth.
pub open spec fn inscribed(half_axis: int) -> int {
    nearest(half_axis * 11_863_283, 16_777_216)
}

/// The outline of an ellipse that fills its shape: two half turns, from the left
/// over the top and back.
pub open spec fn ellipse_verbs(rx: int, ry: int) -> Seq<PathVerb> {
    seq![
        PathVerb::MoveTo(at(0, ry)),
        arc(rx, ry, HALF_TURN, HALF_TURN),
        arc(rx, ry, 0, HALF_TURN),
        PathVerb::Close,
    ]
}

/// The outline of an ellipse that fills its shape. Its text stands in the box
/// inscribed at forty-five degrees.
pub fn build(extent: Size<Emu>) -> (r: ShapePath)
    ensures
        r.paths@.len() == 1,
        r.paths@[0].fill_mode == PathFillMode::Norm,
        r.paths@[0].stroked,
        ({
            let rx = half(extent.width.value as int);
            let ry = half(extent.height.value as int);
            let ix = inscribed(rx);
            let iy = inscribed(ry);
            &&& r.paths@[0].verbs@ == ellipse_verbs(rx, ry)
            &&& r.text_rect == Some(box_at(rx - ix, ry - iy, 2 * ix, 2 * iy))
        }),
{
    let rx: i128 = divide_nearest(extent.width.raw() as i128, 2);
    let ry: i128 = divide_nearest(extent.height.raw() as i128, 2);
    let ix: i128 = divide_nearest(rx * 11_863_283, 16_777_216);
    let iy: i128 = divide_nearest(ry * 11_863_283, 16_777_216);
    let verbs: Vec<PathVerb> = vec![
        PathVerb::MoveTo(point_at(0, ry)),
        arc_to(rx, ry, HALF_TURN, HALF_TURN),
        arc_to(rx, ry, 0, HALF_TURN),
        PathVerb::Close,
    ];
    assert(verbs@ =~= ellipse_verbs(rx as int, ry as int));
    let paths: Vec<SubPath> = vec![SubPath { verbs, fill_mode: PathFillMode::Norm, stroked: true }];
    ShapePath { paths, text_rect: Some(rect_at(rx - ix, ry - iy, 2 * ix, 2 * iy)) }
}

} // verus!
