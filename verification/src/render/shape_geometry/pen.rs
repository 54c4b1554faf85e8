//! How a pen draws an outline.
use vstd::prelude::*;

use crate::dimension::{Dimension, Emu, SixtieThousandthDeg};
use crate::model::drawing::PathFillMode;
use crate::model::geometry::{Offset, Size};
use crate::render::shape_geometry::custom::{PathVerb, SubPath};

verus! {

/// The greatest turn that one straight piece of an arc stands for: five degrees.
pub const ARC_PIECE: u64 = 300_000;

/// A step of a pen.
#[derive(Debug, Clone, Copy, PartialEq, Eq)]
pub enum PenStep {
    MoveTo(Offset<Emu>),
    LineTo(Offset<Emu>),
    QuadTo(Offset<Emu>, Offset<Emu>),
    CubicTo(Offset<Emu>, Offset<Emu>, Offset<Emu>),
    /// An arc from where the pen is, in so many straight pieces.
    Arc {
        radii: Size<Emu>,
        start_angle: Dimension<SixtieThousandthDeg>,
        swing_angle: Dimension<SixtieThousandthDeg>,
        pieces: u64,
    },
    Close,
}

/// The size of a number.
pub open spec fn magnitude(n: int) -> int {
    if n >= 0 {
        n
    } else {
        -n
    }
}

/// How many straight pieces an arc is drawn in: at least one, and none for more
/// than five degrees.
pub open spec fn pieces_of(swing: int) -> int {
    let n = (magnitude(swing) + ARC_PIECE - 1) / ARC_PIECE as int;
    if n < 1 {
        1
    } else {
        n
    }
}

/// How many straight pieces an arc is drawn in.
pub fn arc_pieces(swing: i64) -> (r: u64)
    ensures
        r == pieces_of(swing as int),
{
    let m: u64 = if swing >= 0 {
        swing as u64
    } else {
        (-(swing as i128)) as u64
    };
    let n: u64 = (m + 299_999) / 300_000;
    if n < 1 {
        1
    } else {
        n
    }
}

/// Whether a step takes the pen to a point of its own.
pub open spec fn goes_to_a_point(v: PathVerb) -> bool {
    match v {
        PathVerb::ArcTo { .. } => false,
        PathVerb::Close => false,
        _ => true,
    }
}

/// Whether the pen is anywhere after the first steps.
pub open spec fn has_a_place(verbs: Seq<PathVerb>) -> bool {
    exists|i: int| 0 <= i < verbs.len() && goes_to_a_point(#[trigger] verbs[i])
}

/// The step of a pen for a step of an outline. An arc is left out where the pen
/// is nowhere yet, or where it has no width or no height.
pub open spec fn pen_step(v: PathVerb, placed: bool) -> Option<PenStep> {
    match v {
        PathVerb::MoveTo(p) => Some(PenStep::MoveTo(p)),
        PathVerb::LineTo(p) => Some(PenStep::LineTo(p)),
        PathVerb::QuadTo(c, p) => Some(PenStep::QuadTo(c, p)),
        PathVerb::CubicTo(c, d, p) => Some(PenStep::CubicTo(c, d, p)),
        PathVerb::ArcTo { radii, start_angle, swing_angle } => if placed && radii.width.value > 0
            && radii.height.value > 0 {
            Some(
                PenStep::Arc {
                    radii,
                    start_angle,
                    swing_angle,
                    pieces: pieces_of(swing_angle.value as int) as u64,
                },
            )
        } else {
            None
        },
        PathVerb::Close => Some(PenStep::Close),
    }
}

/// The steps of a pen for an outline.
pub open spec fn pen_steps(verbs: Seq<PathVerb>) -> Seq<PenStep>
    decreases verbs.len(),
{
    if verbs.len() == 0 {
        Seq::empty()
    } else {
        let before = pen_steps(verbs.drop_last());
        match pen_step(verbs.last(), has_a_place(verbs.drop_last())) {
            Some(s) => before.push(s),
            None => before,
        }
    }
}

/// The step of a pen for a step of an outline.
fn read_step(v: PathVerb, placed: bool) -> (r: Option<PenStep>)
    ensures
        r == pen_step(v, placed),
{
    match v {
        PathVerb::MoveTo(p) => Some(PenStep::MoveTo(p)),
        PathVerb::LineTo(p) => Some(PenStep::LineTo(p)),
        PathVerb::QuadTo(c, p) => Some(PenStep::QuadTo(c, p)),
        PathVerb::CubicTo(c, d, p) => Some(PenStep::CubicTo(c, d, p)),
        PathVerb::ArcTo { radii, start_angle, swing_angle } => if placed && radii.width.raw() > 0
            && radii.height.raw() > 0 {
            let pieces: u64 = arc_pieces(swing_angle.raw());
            Some(PenStep::Arc { radii, start_angle, swing_angle, pieces })
        } else {
            None
        },
        PathVerb::Close => Some(PenStep::Close),
    }
}

/// The steps of a pen for an outline.
pub fn build_path(verbs: &Vec<PathVerb>) -> (r: Vec<PenStep>)
    ensures
        r@ == pen_steps(verbs@),
{
    let mut out: Vec<PenStep> = Vec::new();
    let mut placed: bool = false;
    let mut i: usize = 0;
    while i < verbs.len()
        invariant
            i <= verbs@.len(),
            placed == has_a_place(verbs@.take(i as int)),
            out@ == pen_steps(verbs@.take(i as int)),
        decreases verbs@.len() - i,
    {
        let ghost before = verbs@.take(i as int);
        let ghost part = verbs@.take(i + 1);
        assert(part.drop_last() =~= before);
        assert(part.last() == verbs@[i as int]);
        let v: PathVerb = verbs[i];
        match read_step(v, placed) {
            Some(s) => {
                out.push(s);
            },
            None => {},
        }
        proof {
            if has_a_place(before) {
                let k = choose|k: int| 0 <= k < before.len() && goes_to_a_point(before[k]);
                assert(part[k] == before[k]);
            }
            if has_a_place(part) && !goes_to_a_point(part.last()) {
                let k = choose|k: int| 0 <= k < part.len() && goes_to_a_point(part[k]);
                assert(before[k] == part[k]);
            }
            assert(part[i as int] == part.last());
        }
        match v {
            PathVerb::ArcTo { .. } => {},
            PathVerb::Close => {},
            _ => {
                placed = true;
            },
        }
        i = i + 1;
    }
    assert(verbs@.take(i as int) =~= verbs@);
    out
}

/// Whether a step draws an arc.
pub open spec fn is_arc(s: PenStep) -> bool {
    s is Arc
}

/// A pen never begins with an arc.
pub proof fn no_arc_without_a_place(verbs: Seq<PathVerb>)
    ensures
        pen_steps(verbs).len() > 0 ==> !is_arc(pen_steps(verbs)[0]),
        has_a_place(verbs) ==> pen_steps(verbs).len() > 0,
    decreases verbs.len(),
{
    if verbs.len() > 0 {
        let before = verbs.drop_last();
        no_arc_without_a_place(before);
        if has_a_place(verbs) && !goes_to_a_point(verbs.last()) {
            let k = choose|k: int| 0 <= k < verbs.len() && goes_to_a_point(verbs[k]);
            assert(before[k] == verbs[k]);
        }
    }
}

/// No straight piece of an arc stands for more than five degrees.
pub proof fn pieces_are_small(swing: int)
    ensures
        pieces_of(swing) * ARC_PIECE >= magnitude(swing),
{
}

/// Whether the inside of a path is painted.
pub fn is_filled(sub: &SubPath) -> (r: bool)
    ensures
        r == (sub.fill_mode != PathFillMode::NoFill),
{
    sub.fill_mode != PathFillMode::NoFill
}

/// Dashes and gaps for a pen that wants as many of the one as of the other: an
/// odd number of them is said twice.
pub open spec fn paired(dashes: Seq<i64>) -> Seq<i64> {
    if dashes.len() % 2 == 1 {
        dashes + dashes
    } else {
        dashes
    }
}

/// Dashes and gaps in pairs.
pub fn pair_dashes(dashes: &Vec<i64>) -> (r: Vec<i64>)
    ensures
        r@ == paired(dashes@),
        r@.len() % 2 == 0,
{
    let mut out: Vec<i64> = dashes.clone();
    assert(out@ =~= dashes@);
    if dashes.len() % 2 == 1 {
        let mut again: Vec<i64> = dashes.clone();
        assert(again@ =~= dashes@);
        out.append(&mut again);
    }
    out
}

} // verus!
