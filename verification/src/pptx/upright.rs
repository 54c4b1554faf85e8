//! The places of shapes in groups that stand upright.
//!
//! A group maps the space of its members onto its box. Where no group around a
//! shape is turned by anything but quarters of a turn, that map takes lengths
//! across to lengths across or down, and it is exact: each coordinate on the
//! slide is a fraction of the one in the group. All coordinates are counted in
//! halves of an EMU, so that centres are whole numbers.
use vstd::prelude::*;

use crate::dimension::{divide_nearest, hold, nearest, units, within_range, Dimension, Emu};
use crate::model::geometry::{Offset, Rect, Size};
use crate::pptx::geometry::{
    only_all_placed, placed_all, placement_views, plan_slide_geometry, write_slide_places,
    GeometryStats, GroupFrame, Placement, PlacementView, FULL_TURN,
};
use crate::pptx::shapes::{Shape, SlideRect};

verus! {

/// A quarter of a turn.
pub const QUARTER_TURN: i64 = 5_400_000;

/// Half a turn.
pub const HALF_TURN: i64 = 10_800_000;

/// Three quarters of a turn.
pub const THREE_QUARTER_TURN: i64 = 16_200_000;

/// A map of coordinates: `num * u + off`, over `den`.
#[derive(Debug, Clone, Copy)]
pub struct AxisMap {
    pub num: i128,
    pub off: i128,
    pub den: i128,
}

/// A map of coordinates.
pub struct Line {
    pub num: int,
    pub off: int,
    pub den: int,
}

impl View for AxisMap {
    type V = Line;

    open spec fn view(&self) -> Line {
        Line { num: self.num as int, off: self.off as int, den: self.den as int }
    }
}

/// A map of points. Where it is swapped, what goes across in the one space goes
/// down in the other.
#[derive(Debug, Clone, Copy)]
pub struct UprightFrame {
    pub swapped: bool,
    pub x: AxisMap,
    pub y: AxisMap,
}

/// A map of points.
pub struct PointMap {
    pub swapped: bool,
    pub x: Line,
    pub y: Line,
}

impl View for UprightFrame {
    type V = PointMap;

    open spec fn view(&self) -> PointMap {
        PointMap { swapped: self.swapped, x: self.x@, y: self.y@ }
    }
}

/// Whether a number can be held.
pub open spec fn small(n: int) -> bool {
    i128::MIN <= n <= i128::MAX
}

/// Whether two products and their sum can be held.
pub open spec fn sum_fits(a: int, b: int, c: int, d: int) -> bool {
    small(a * b) && small(c * d) && small(a * b + c * d)
}

/// The sum of two products, where all can be held.
fn sum_of(a: i128, b: i128, c: i128, d: i128) -> (r: Option<i128>)
    ensures
        match r {
            Some(n) => sum_fits(a as int, b as int, c as int, d as int) && n == a * b + c * d,
            None => !sum_fits(a as int, b as int, c as int, d as int),
        },
{
    match (a.checked_mul(b), c.checked_mul(d)) {
        (Some(x), Some(y)) => x.checked_add(y),
        _ => None,
    }
}

/// The map that changes nothing.
pub open spec fn same_place() -> Line {
    Line { num: 1, off: 0, den: 1 }
}

/// One map after another.
pub open spec fn after(outer: Line, inner: Line) -> Line {
    Line {
        num: outer.num * inner.num,
        off: outer.num * inner.off + outer.off * inner.den,
        den: outer.den * inner.den,
    }
}

/// Whether one map after another can be held.
pub open spec fn after_fits(outer: Line, inner: Line) -> bool {
    &&& small(outer.num * inner.num)
    &&& sum_fits(outer.num, inner.off, outer.off, inner.den)
    &&& small(outer.den * inner.den)
}

/// One map after another.
fn map_after(outer: AxisMap, inner: AxisMap) -> (r: Option<AxisMap>)
    ensures
        match r {
            Some(m) => after_fits(outer@, inner@) && m@ == after(outer@, inner@),
            None => !after_fits(outer@, inner@),
        },
{
    let num: Option<i128> = outer.num.checked_mul(inner.num);
    let off: Option<i128> = sum_of(outer.num, inner.off, outer.off, inner.den);
    let den: Option<i128> = outer.den.checked_mul(inner.den);
    match (num, off, den) {
        (Some(num), Some(off), Some(den)) => Some(AxisMap { num, off, den }),
        _ => None,
    }
}

/// A number with the sign turned where another is below nothing.
pub open spec fn with_sign(n: int, sign: int) -> int {
    if sign < 0 {
        -n
    } else {
        n
    }
}

/// How a group scales one axis of its members' space onto its box. A space of
/// the same length as the box, or none, is not scaled.
pub open spec fn scaled(off: int, ext: int, child_off: int, child_ext: Option<int>) -> Line {
    match child_ext {
        Some(c) => if c == ext {
            Line { num: 1, off: 2 * off - 2 * child_off, den: 1 }
        } else {
            let e = with_sign(ext, c);
            let d = with_sign(c, c);
            Line { num: e, off: 2 * off * d + 2 * -child_off * e, den: d }
        },
        None => Line { num: 1, off: 2 * off - 2 * child_off, den: 1 },
    }
}

/// Whether the scaling of an axis can be held.
pub open spec fn scaled_fits(off: int, ext: int, child_off: int, child_ext: Option<int>) -> bool {
    match child_ext {
        Some(c) => c == ext || sum_fits(
            2 * off,
            with_sign(c, c),
            2 * -child_off,
            with_sign(ext, c),
        ),
        None => true,
    }
}

/// A width or height, or none.
pub open spec fn opt_int(n: Option<i64>) -> Option<int> {
    match n {
        Some(x) => Some(x as int),
        None => None,
    }
}

/// How a group scales one axis.
fn scale_axis(off: i64, ext: i64, child_off: i64, child_ext: Option<i64>) -> (r: Option<AxisMap>)
    ensures
        match r {
            Some(m) => scaled_fits(off as int, ext as int, child_off as int, opt_int(child_ext))
                && m@ == scaled(off as int, ext as int, child_off as int, opt_int(child_ext)),
            None => !scaled_fits(off as int, ext as int, child_off as int, opt_int(child_ext)),
        },
{
    let o: i128 = 2 * off as i128;
    let neg: i128 = -(child_off as i128);
    let n: i128 = 2 * neg;
    match child_ext {
        Some(c) => if c == ext {
            Some(AxisMap { num: 1, off: o + n, den: 1 })
        } else {
            let e: i128 = if c < 0 {
                -(ext as i128)
            } else {
                ext as i128
            };
            let d: i128 = if c < 0 {
                -(c as i128)
            } else {
                c as i128
            };
            match sum_of(o, d, n, e) {
                Some(off) => Some(AxisMap { num: e, off, den: d }),
                None => None,
            }
        },
        None => Some(AxisMap { num: 1, off: o + n, den: 1 }),
    }
}

/// An axis mirrored or not, and moved.
pub open spec fn mirrored(m: Line, sign: int, by: int) -> Line {
    Line { num: sign * m.num, off: sign * m.off + by * m.den, den: m.den }
}

/// Whether an axis mirrored and moved can be held.
pub open spec fn mirrored_fits(m: Line, sign: int, by: int) -> bool {
    small(sign * m.num) && sum_fits(sign, m.off, by, m.den)
}

/// An axis mirrored or not, and moved.
fn mirror_axis(m: AxisMap, sign: i128, by: i128) -> (r: Option<AxisMap>)
    ensures
        match r {
            Some(x) => mirrored_fits(m@, sign as int, by as int) && x@ == mirrored(
                m@,
                sign as int,
                by as int,
            ),
            None => !mirrored_fits(m@, sign as int, by as int),
        },
{
    match (sign.checked_mul(m.num), sum_of(sign, m.off, by, m.den)) {
        (Some(num), Some(off)) => Some(AxisMap { num, off, den: m.den }),
        _ => None,
    }
}

/// Whether an angle is so many quarters of a turn.
pub open spec fn is_right(rotation: i64) -> bool {
    rotation as int % QUARTER_TURN as int == 0
}

/// The angle within one turn.
pub open spec fn within_turn(rotation: int) -> int {
    rotation % FULL_TURN as int
}

/// The cosine of a right angle.
pub open spec fn cosine(rotation: i64) -> int {
    let r = within_turn(rotation as int);
    if r == 0 {
        1
    } else if r == HALF_TURN {
        -1
    } else {
        0
    }
}

/// The sine of a right angle.
pub open spec fn sine(rotation: i64) -> int {
    let r = within_turn(rotation as int);
    if r == QUARTER_TURN {
        1
    } else if r == THREE_QUARTER_TURN {
        -1
    } else {
        0
    }
}

/// The sign of an axis that is mirrored or not.
pub open spec fn flip_sign(flipped: bool) -> int {
    if flipped {
        -1
    } else {
        1
    }
}

/// Twice the centre of a length.
pub open spec fn centre(off: int, ext: int) -> int {
    2 * off + ext
}

/// The width and height of a group's space, where it is scaled.
pub open spec fn child_lengths(f: GroupFrame) -> (Option<int>, Option<int>) {
    match f.child_extent {
        Some(c) => (Some(c.width.value as int), Some(c.height.value as int)),
        None => (None, None),
    }
}

/// How a group scales across.
pub open spec fn scaled_x(f: GroupFrame) -> Line {
    scaled(
        f.offset.x.value as int,
        f.extent.width.value as int,
        f.child_offset.x.value as int,
        child_lengths(f).0,
    )
}

/// How a group scales down.
pub open spec fn scaled_y(f: GroupFrame) -> Line {
    scaled(
        f.offset.y.value as int,
        f.extent.height.value as int,
        f.child_offset.y.value as int,
        child_lengths(f).1,
    )
}

/// What a group does to the points of its members' space: it scales them onto
/// its box, mirrors them, and turns them about the centre of the box.
pub open spec fn turned(f: GroupFrame) -> PointMap {
    let gx = centre(f.offset.x.value as int, f.extent.width.value as int);
    let gy = centre(f.offset.y.value as int, f.extent.height.value as int);
    let cx = cosine(f.rotation) * flip_sign(f.flip_h);
    let cy = cosine(f.rotation) * flip_sign(f.flip_v);
    let sx = sine(f.rotation) * flip_sign(f.flip_h);
    let sy = sine(f.rotation) * flip_sign(f.flip_v);
    if sine(f.rotation) == 0 {
        PointMap {
            swapped: false,
            x: mirrored(scaled_x(f), cx, gx - cx * gx),
            y: mirrored(scaled_y(f), cy, gy - cy * gy),
        }
    } else {
        PointMap {
            swapped: true,
            x: mirrored(scaled_y(f), -sy, gx + sy * gy),
            y: mirrored(scaled_x(f), sx, gy - sx * gx),
        }
    }
}

/// Whether what a group does can be held.
pub open spec fn turned_fits(f: GroupFrame) -> bool {
    let gx = centre(f.offset.x.value as int, f.extent.width.value as int);
    let gy = centre(f.offset.y.value as int, f.extent.height.value as int);
    let cx = cosine(f.rotation) * flip_sign(f.flip_h);
    let cy = cosine(f.rotation) * flip_sign(f.flip_v);
    let sx = sine(f.rotation) * flip_sign(f.flip_h);
    let sy = sine(f.rotation) * flip_sign(f.flip_v);
    &&& scaled_fits(
        f.offset.x.value as int,
        f.extent.width.value as int,
        f.child_offset.x.value as int,
        child_lengths(f).0,
    )
    &&& scaled_fits(
        f.offset.y.value as int,
        f.extent.height.value as int,
        f.child_offset.y.value as int,
        child_lengths(f).1,
    )
    &&& if sine(f.rotation) == 0 {
        mirrored_fits(scaled_x(f), cx, gx - cx * gx) && mirrored_fits(
            scaled_y(f),
            cy,
            gy - cy * gy,
        )
    } else {
        mirrored_fits(scaled_y(f), -sy, gx + sy * gy) && mirrored_fits(
            scaled_x(f),
            sx,
            gy - sx * gx,
        )
    }
}

/// The angle within one turn.
fn angle_within_turn(rotation: i64) -> (r: i64)
    ensures
        r == within_turn(rotation as int),
        0 <= r < FULL_TURN,
{
    crate::pptx::geometry::normalize_angle(rotation)
}

/// The cosine and the sine of a right angle.
fn read_right_angle(rotation: i64) -> (r: (i128, i128))
    ensures
        r.0 == cosine(rotation),
        r.1 == sine(rotation),
{
    let a: i64 = angle_within_turn(rotation);
    let c: i128 = if a == 0 {
        1
    } else if a == HALF_TURN {
        -1
    } else {
        0
    };
    let s: i128 = if a == QUARTER_TURN {
        1
    } else if a == THREE_QUARTER_TURN {
        -1
    } else {
        0
    };
    (c, s)
}

/// A number times one, nothing or minus one.
fn times_sign(sign: i128, n: i128) -> (r: i128)
    requires
        sign == -1 || sign == 0 || sign == 1,
        -0x1_0000_0000_0000_0000_0000_0000 < n < 0x1_0000_0000_0000_0000_0000_0000,
    ensures
        r == sign * n,
        -0x1_0000_0000_0000_0000_0000_0000 < r < 0x1_0000_0000_0000_0000_0000_0000,
{
    assert(1 * n == n && 0 * n == 0 && -1 * n == -n) by (nonlinear_arith);
    if sign == 1 {
        n
    } else if sign == -1 {
        -n
    } else {
        0
    }
}

/// What a group does to the points of its members' space.
fn turn_frame(f: &GroupFrame) -> (r: Option<UprightFrame>)
    ensures
        match r {
            Some(m) => turned_fits(*f) && m@ == turned(*f),
            None => !turned_fits(*f),
        },
{
    let (child_w, child_h): (Option<i64>, Option<i64>) = match f.child_extent {
        Some(c) => (Some(c.width.raw()), Some(c.height.raw())),
        None => (None, None),
    };
    let x: Option<AxisMap> = scale_axis(
        f.offset.x.raw(),
        f.extent.width.raw(),
        f.child_offset.x.raw(),
        child_w,
    );
    let y: Option<AxisMap> = scale_axis(
        f.offset.y.raw(),
        f.extent.height.raw(),
        f.child_offset.y.raw(),
        child_h,
    );
    let (mx, my): (AxisMap, AxisMap) = match (x, y) {
        (Some(mx), Some(my)) => (mx, my),
        _ => {
            return None;
        },
    };
    let gx: i128 = 2 * f.offset.x.raw() as i128 + f.extent.width.raw() as i128;
    let gy: i128 = 2 * f.offset.y.raw() as i128 + f.extent.height.raw() as i128;
    let (c, s): (i128, i128) = read_right_angle(f.rotation);
    let fx: i128 = if f.flip_h {
        -1
    } else {
        1
    };
    let fy: i128 = if f.flip_v {
        -1
    } else {
        1
    };
    if s == 0 {
        let cx: i128 = times_sign(c, fx);
        let cy: i128 = times_sign(c, fy);
        let a: Option<AxisMap> = mirror_axis(mx, cx, gx - times_sign(cx, gx));
        let b: Option<AxisMap> = mirror_axis(my, cy, gy - times_sign(cy, gy));
        match (a, b) {
            (Some(x), Some(y)) => Some(UprightFrame { swapped: false, x, y }),
            _ => None,
        }
    } else {
        let sx: i128 = times_sign(s, fx);
        let sy: i128 = times_sign(s, fy);
        let a: Option<AxisMap> = mirror_axis(my, -sy, gx + times_sign(sy, gy));
        let b: Option<AxisMap> = mirror_axis(mx, sx, gy - times_sign(sx, gx));
        match (a, b) {
            (Some(x), Some(y)) => Some(UprightFrame { swapped: true, x, y }),
            _ => None,
        }
    }
}

/// What the outer map reads across, and down, of the inner.
pub open spec fn read_across(outer: PointMap, inner: PointMap) -> Line {
    if outer.swapped {
        inner.y
    } else {
        inner.x
    }
}

/// What the outer map reads down of the inner.
pub open spec fn read_down(outer: PointMap, inner: PointMap) -> Line {
    if outer.swapped {
        inner.x
    } else {
        inner.y
    }
}

/// One map of points after another.
pub open spec fn joined(outer: PointMap, inner: PointMap) -> PointMap {
    PointMap {
        swapped: outer.swapped != inner.swapped,
        x: after(outer.x, read_across(outer, inner)),
        y: after(outer.y, read_down(outer, inner)),
    }
}

/// What the groups around a shape do to its points, the outermost first.
pub open spec fn chain(frames: Seq<GroupFrame>) -> PointMap
    decreases frames.len(),
{
    if frames.len() == 0 {
        PointMap { swapped: false, x: same_place(), y: same_place() }
    } else {
        joined(chain(frames.drop_last()), turned(frames.last()))
    }
}

/// Whether all groups around a shape are turned by quarters alone, and what they
/// do can be held.
pub open spec fn chain_fits(frames: Seq<GroupFrame>) -> bool
    decreases frames.len(),
{
    if frames.len() == 0 {
        true
    } else {
        let outer = chain(frames.drop_last());
        let inner = turned(frames.last());
        &&& chain_fits(frames.drop_last())
        &&& is_right(frames.last().rotation)
        &&& turned_fits(frames.last())
        &&& after_fits(outer.x, read_across(outer, inner))
        &&& after_fits(outer.y, read_down(outer, inner))
    }
}

/// What the groups around a shape do to its points.
fn read_chain(frames: &Vec<GroupFrame>) -> (r: Option<UprightFrame>)
    ensures
        match r {
            Some(m) => chain_fits(frames@) && m@ == chain(frames@),
            None => !chain_fits(frames@),
        },
{
    let one: AxisMap = AxisMap { num: 1, off: 0, den: 1 };
    let mut so_far: UprightFrame = UprightFrame { swapped: false, x: one, y: one };
    let mut i: usize = 0;
    while i < frames.len()
        invariant
            i <= frames@.len(),
            chain_fits(frames@.take(i as int)),
            so_far@ == chain(frames@.take(i as int)),
        decreases frames@.len() - i,
    {
        let ghost part = frames@.take(i + 1);
        assert(part.drop_last() =~= frames@.take(i as int));
        assert(part.last() == frames@[i as int]);
        if frames[i].rotation % QUARTER_TURN != 0 {
            proof {
                right_angles_agree(frames@[i as int].rotation);
                a_chain_fits_from_the_outside(frames@, i + 1);
            }
            return None;
        }
        proof {
            right_angles_agree(frames@[i as int].rotation);
        }
        let inner: UprightFrame = match turn_frame(&frames[i]) {
            Some(m) => m,
            None => {
                proof {
                    a_chain_fits_from_the_outside(frames@, i + 1);
                }
                return None;
            },
        };
        let (across, down): (AxisMap, AxisMap) = if so_far.swapped {
            (inner.y, inner.x)
        } else {
            (inner.x, inner.y)
        };
        match (map_after(so_far.x, across), map_after(so_far.y, down)) {
            (Some(x), Some(y)) => {
                so_far = UprightFrame { swapped: so_far.swapped != inner.swapped, x, y };
            },
            _ => {
                proof {
                    a_chain_fits_from_the_outside(frames@, i + 1);
                }
                return None;
            },
        }
        i = i + 1;
    }
    assert(frames@.take(i as int) =~= frames@);
    Some(so_far)
}

/// A remainder is nothing however it is rounded.
proof fn right_angles_agree(rotation: i64)
    ensures
        is_right(rotation) <==> (if rotation >= 0 {
            rotation as int % 5_400_000 == 0
        } else {
            (-(rotation as int)) % 5_400_000 == 0
        }),
{
}

/// A chain can be held only where each beginning of it can.
proof fn a_chain_fits_from_the_outside(frames: Seq<GroupFrame>, n: int)
    requires
        0 <= n <= frames.len(),
    ensures
        chain_fits(frames) ==> chain_fits(frames.take(n)),
    decreases frames.len() - n,
{
    if n == frames.len() {
        assert(frames.take(n) =~= frames);
    } else {
        a_chain_fits_from_the_outside(frames, n + 1);
        assert(frames.take(n + 1).drop_last() =~= frames.take(n));
    }
}

/// The size of a number.
pub open spec fn magnitude(n: int) -> int {
    if n < 0 {
        -n
    } else {
        n
    }
}

/// Whether a quotient can be rounded.
pub open spec fn can_round(n: int, d: int) -> bool {
    &&& -0x4000_0000_0000_0000_0000_0000_0000_0000 <= n <= 0x4000_0000_0000_0000_0000_0000_0000_0000
    &&& 0 < d < 0x1_0000_0000_0000_0000_0000_0000
}

/// A quotient to the nearest whole number, where it can be rounded.
fn round(n: i128, d: i128) -> (r: Option<i64>)
    ensures
        match r {
            Some(x) => can_round(n as int, d as int) && x == within_range(
                nearest(n as int, d as int),
            ),
            None => !can_round(n as int, d as int),
        },
{
    if -0x4000_0000_0000_0000_0000_0000_0000_0000 <= n && n
        <= 0x4000_0000_0000_0000_0000_0000_0000_0000 && 0 < d && d
        < 0x1_0000_0000_0000_0000_0000_0000 {
        Some(hold(divide_nearest(n, d)))
    } else {
        None
    }
}

/// Where one axis of a box begins, and how long it is: twice its centre is the
/// one map of a coordinate, its length the other map's share of a length.
pub open spec fn side(position: Line, at: int, length: Line, size: int) -> (i64, i64) {
    let n = position.num * at + position.off;
    let long = size * magnitude(length.num);
    (
        within_range(
            if position.den == length.den {
                nearest(n - long, 2 * position.den)
            } else {
                nearest(
                    n * length.den + -long * position.den,
                    2 * (position.den * length.den),
                )
            },
        ),
        within_range(nearest(long, length.den)),
    )
}

/// Whether one axis of a box can be worked out.
pub open spec fn side_fits(position: Line, at: int, length: Line, size: int) -> bool {
    let n = position.num * at + position.off;
    let long = size * magnitude(length.num);
    &&& sum_fits(position.num, at, position.off, 1)
    &&& -i128::MAX <= length.num
    &&& small(long)
    &&& -i128::MAX <= long
    &&& can_round(long, length.den)
    &&& if position.den == length.den {
        sum_fits(n, 1, -long, 1) && small(2 * position.den) && can_round(
            n - long,
            2 * position.den,
        )
    } else {
        sum_fits(n, length.den, -long, position.den) && small(position.den * length.den) && small(
            2 * (position.den * length.den),
        ) && can_round(
            n * length.den + -long * position.den,
            2 * (position.den * length.den),
        )
    }
}

/// Where one axis of a box begins, and how long it is.
fn read_side(position: AxisMap, at: i128, length: AxisMap, size: i128) -> (r: Option<(i64, i64)>)
    ensures
        match r {
            Some(x) => side_fits(position@, at as int, length@, size as int) && x == side(
                position@,
                at as int,
                length@,
                size as int,
            ),
            None => !side_fits(position@, at as int, length@, size as int),
        },
{
    assert(position.off * 1 == position.off) by (nonlinear_arith);
    let n: i128 = match sum_of(position.num, at, position.off, 1) {
        Some(n) => n,
        None => {
            return None;
        },
    };
    if length.num == i128::MIN {
        return None;
    }
    let scale: i128 = if length.num < 0 {
        -length.num
    } else {
        length.num
    };
    let long: i128 = match size.checked_mul(scale) {
        Some(long) => long,
        None => {
            return None;
        },
    };
    if long == i128::MIN {
        return None;
    }
    let extent: i64 = match round(long, length.den) {
        Some(e) => e,
        None => {
            return None;
        },
    };
    let corner: Option<i64> = if position.den == length.den {
        assert(n * 1 + -long * 1 == n - long) by (nonlinear_arith);
        assert(n * 1 == n && -long * 1 == -long) by (nonlinear_arith);
        match (sum_of(n, 1, -long, 1), position.den.checked_mul(2)) {
            (Some(top), Some(below)) => round(top, below),
            _ => None,
        }
    } else {
        match (
            sum_of(n, length.den, -long, position.den),
            position.den.checked_mul(length.den),
        ) {
            (Some(top), Some(d)) => match d.checked_mul(2) {
                Some(below) => round(top, below),
                None => None,
            },
            _ => None,
        }
    };
    match corner {
        Some(c) => Some((c, extent)),
        None => None,
    }
}

/// The map of what goes across in the members' space.
pub open spec fn across_map(m: PointMap) -> Line {
    if m.swapped {
        m.y
    } else {
        m.x
    }
}

/// The map of what goes down in the members' space.
pub open spec fn down_map(m: PointMap) -> Line {
    if m.swapped {
        m.x
    } else {
        m.y
    }
}

/// How far a map turns what goes across.
pub open spec fn turn_of(m: PointMap) -> int {
    let n = across_map(m).num;
    if n == 0 {
        0
    } else if m.swapped {
        if n > 0 {
            QUARTER_TURN as int
        } else {
            THREE_QUARTER_TURN as int
        }
    } else if n > 0 {
        0
    } else {
        HALF_TURN as int
    }
}

/// Whether a number is below nothing, above it, or neither.
pub open spec fn sign_of(n: int) -> int {
    if n > 0 {
        1
    } else if n < 0 {
        -1
    } else {
        0
    }
}

/// Whether a map mirrors.
pub open spec fn mirrors(m: PointMap) -> bool {
    if m.swapped {
        sign_of(m.x.num) * sign_of(m.y.num) > 0
    } else {
        sign_of(m.x.num) * sign_of(m.y.num) < 0
    }
}

/// The place of a shape's box: the centre of the box goes where the map takes
/// it, its sides are as long as the map makes them, and the map's turn is added
/// to the shape's own.
pub open spec fn place_of(p: PlacementView) -> Option<SlideRect> {
    match p.own {
        Some(own) => {
            let m = chain(p.frames);
            let cx = centre(own.0.x.value as int, own.1.width.value as int);
            let cy = centre(own.0.y.value as int, own.1.height.value as int);
            let x = side(
                m.x,
                if m.swapped {
                    cy
                } else {
                    cx
                },
                across_map(m),
                own.1.width.value as int,
            );
            let y = side(
                m.y,
                if m.swapped {
                    cx
                } else {
                    cy
                },
                down_map(m),
                own.1.height.value as int,
            );
            Some(
                SlideRect {
                    rect: Rect {
                        origin: Offset { x: units(x.0), y: units(y.0) },
                        size: Size { width: units(x.1), height: units(y.1) },
                    },
                    rotation: units(within_turn(p.rotation + turn_of(m)) as i64),
                    flip_h: p.flip_h,
                    flip_v: p.flip_v != mirrors(m),
                    skewed: false,
                },
            )
        },
        None => None,
    }
}

/// Whether the place of a shape can be worked out: the groups around it are
/// turned by quarters alone, and the numbers can be held. A shape without a box
/// has none, whatever is around it.
pub open spec fn can_place(p: PlacementView) -> bool {
    match p.own {
        Some(own) => {
            let m = chain(p.frames);
            let cx = centre(own.0.x.value as int, own.1.width.value as int);
            let cy = centre(own.0.y.value as int, own.1.height.value as int);
            &&& chain_fits(p.frames)
            &&& side_fits(
                m.x,
                if m.swapped {
                    cy
                } else {
                    cx
                },
                across_map(m),
                own.1.width.value as int,
            )
            &&& side_fits(
                m.y,
                if m.swapped {
                    cx
                } else {
                    cy
                },
                down_map(m),
                own.1.height.value as int,
            )
        },
        None => true,
    }
}

/// The place of a shape, where it can be worked out.
pub fn place_upright(p: &Placement) -> (r: Option<Option<SlideRect>>)
    ensures
        match r {
            Some(x) => can_place(p@) && x == place_of(p@),
            None => !can_place(p@),
        },
{
    let own: (Offset<Emu>, Size<Emu>) = match p.own {
        Some(own) => own,
        None => {
            return Some(None);
        },
    };
    let m: UprightFrame = match read_chain(&p.frames) {
        Some(m) => m,
        None => {
            return None;
        },
    };
    let cx: i128 = 2 * own.0.x.raw() as i128 + own.1.width.raw() as i128;
    let cy: i128 = 2 * own.0.y.raw() as i128 + own.1.height.raw() as i128;
    let (at_x, at_y, wide, tall): (i128, i128, AxisMap, AxisMap) = if m.swapped {
        (cy, cx, m.y, m.x)
    } else {
        (cx, cy, m.x, m.y)
    };
    let x: Option<(i64, i64)> = read_side(m.x, at_x, wide, own.1.width.raw() as i128);
    let y: Option<(i64, i64)> = read_side(m.y, at_y, tall, own.1.height.raw() as i128);
    let (x, y): ((i64, i64), (i64, i64)) = match (x, y) {
        (Some(x), Some(y)) => (x, y),
        _ => {
            return None;
        },
    };
    let turn: i64 = if wide.num == 0 {
        0
    } else if m.swapped {
        if wide.num > 0 {
            QUARTER_TURN
        } else {
            THREE_QUARTER_TURN
        }
    } else if wide.num > 0 {
        0
    } else {
        HALF_TURN
    };
    let same_sign: bool = (m.x.num > 0 && m.y.num > 0) || (m.x.num < 0 && m.y.num < 0);
    let other_sign: bool = (m.x.num > 0 && m.y.num < 0) || (m.x.num < 0 && m.y.num > 0);
    let mirrored: bool = if m.swapped {
        same_sign
    } else {
        other_sign
    };
    let own_turn: i64 = angle_within_turn(p.rotation);
    let rotation: i64 = angle_within_turn(own_turn + turn);
    assert(rotation == within_turn(p.rotation + turn));
    Some(
        Some(
            SlideRect {
                rect: Rect {
                    origin: Offset { x: Dimension::new(x.0), y: Dimension::new(y.0) },
                    size: Size { width: Dimension::new(x.1), height: Dimension::new(y.1) },
                },
                rotation: Dimension::new(rotation),
                flip_h: p.flip_h,
                flip_v: p.flip_v != mirrored,
                skewed: false,
            },
        ),
    )
}

/// Whether the places of all shapes can be worked out.
pub open spec fn can_place_all(p: Seq<PlacementView>) -> bool {
    forall|i: int| 0 <= i < p.len() ==> can_place(#[trigger] p[i])
}

/// The places of shapes.
pub open spec fn places_of(p: Seq<PlacementView>) -> Seq<Option<SlideRect>> {
    p.map_values(|x: PlacementView| place_of(x))
}

/// The places of shapes, where all can be worked out.
pub fn place_all_upright(placements: &Vec<Placement>) -> (r: Option<Vec<Option<SlideRect>>>)
    ensures
        match r {
            Some(v) => can_place_all(placement_views(placements@)) && v@ == places_of(
                placement_views(placements@),
            ),
            None => !can_place_all(placement_views(placements@)),
        },
{
    let ghost all = placement_views(placements@);
    let mut out: Vec<Option<SlideRect>> = Vec::new();
    let mut i: usize = 0;
    while i < placements.len()
        invariant
            i <= placements@.len(),
            all == placement_views(placements@),
            forall|k: int| 0 <= k < i ==> can_place(#[trigger] all[k]),
            out@ == places_of(all).take(i as int),
        decreases placements@.len() - i,
    {
        assert(all[i as int] == placements@[i as int]@);
        match place_upright(&placements[i]) {
            Some(x) => {
                out.push(x);
                assert(out@ =~= places_of(all).take(i + 1));
            },
            None => {
                return None;
            },
        }
        i = i + 1;
    }
    assert(places_of(all).take(i as int) =~= places_of(all));
    Some(out)
}

/// Places the shapes of a slide and everything in them, where the places of all
/// of them can be worked out, and tells what came of them. Otherwise nothing
/// changes.
pub fn apply_upright_geometry(shapes: &mut Vec<Shape>) -> (r: Option<GeometryStats>)
    ensures
        r is Some <==> can_place_all(placed_all(old(shapes)@, Seq::empty())),
        r is Some ==> only_all_placed(
            old(shapes)@,
            final(shapes)@,
            places_of(placed_all(old(shapes)@, Seq::empty())),
            0,
        ),
        r matches Some(stats) ==> crate::pptx::geometry::tells(
            stats,
            placed_all(old(shapes)@, Seq::empty()),
            places_of(placed_all(old(shapes)@, Seq::empty())),
        ),
        r is None ==> *final(shapes) == *old(shapes),
{
    let placements: Vec<Placement> = plan_slide_geometry(shapes);
    match place_all_upright(&placements) {
        Some(rects) => {
            proof {
                crate::pptx::geometry::every_member_is_placed(shapes@, Seq::empty());
            }
            Some(write_slide_places(shapes, &rects))
        },
        None => None,
    }
}

/// One map after another takes a coordinate where the two take it: both sides
/// are told in parts of both maps.
pub proof fn maps_follow_each_other(outer: Line, inner: Line, u: int)
    ensures
        after(outer, inner).num * u + after(outer, inner).off == outer.num * (inner.num * u
            + inner.off) + outer.off * inner.den,
        after(outer, inner).den == outer.den * inner.den,
{
    let a = outer.num;
    let b = inner.num;
    assert((a * b) * u + (a * inner.off + outer.off * inner.den) == a * (b * u + inner.off)
        + outer.off * inner.den) by (nonlinear_arith);
}

/// A group maps its members' space onto its box: a coordinate goes to
/// `off + (child - child_off) * ext / child_ext`.
pub proof fn a_group_scales_its_members(off: int, ext: int, child_off: int, child_ext: int, child: int)
    requires
        child_ext != 0,
    ensures
        ({
            let m = scaled(off, ext, child_off, Some(child_ext));
            &&& m.den > 0
            &&& (m.num * (2 * child) + m.off) * child_ext == 2 * (off * child_ext + (child
                - child_off) * ext) * m.den
        }),
{
    let m = scaled(off, ext, child_off, Some(child_ext));
    if child_ext == ext {
        assert((1 * (2 * child) + (2 * off - 2 * child_off)) * ext == 2 * (off * ext + (child
            - child_off) * ext) * 1) by (nonlinear_arith);
    } else {
        let e = with_sign(ext, child_ext);
        let d = with_sign(child_ext, child_ext);
        assert(e * child_ext == ext * d) by (nonlinear_arith)
            requires
                e == ext && d == child_ext || e == -ext && d == -child_ext,
        ;
        let num = e * (2 * child) + (2 * off * d + 2 * -child_off * e);
        assert(num == 2 * (off * d + (child - child_off) * e)) by (nonlinear_arith)
            requires
                num == e * (2 * child) + (2 * off * d + 2 * -child_off * e),
        ;
        assert(num * child_ext == 2 * (off * child_ext + (child - child_off) * ext) * d)
            by (nonlinear_arith)
            requires
                num == 2 * (off * d + (child - child_off) * e),
                e * child_ext == ext * d,
        ;
    }
}

/// Mirroring and turning a group leave the centre of its box where it is.
pub proof fn the_centre_stays(m: Line, sign: int, g: int, u: int)
    requires
        m.num * u + m.off == g * m.den,
    ensures
        ({
            let t = mirrored(m, sign, g - sign * g);
            t.num * u + t.off == g * t.den
        }),
{
    let n = m.num;
    let d = m.den;
    assert((sign * n) * u + (sign * m.off + (g - sign * g) * d) == g * d) by (nonlinear_arith)
        requires
            n * u + m.off == g * d,
    ;
}

/// A shape in no group is where it says it is.
pub proof fn a_shape_of_the_slide_stays(p: PlacementView)
    requires
        p.frames.len() == 0,
        p.own is Some,
    ensures
        can_place(p),
        place_of(p) matches Some(r) && r.rect == (Rect {
            origin: (p.own->0).0,
            size: (p.own->0).1,
        }) && r.rotation.value == within_turn(p.rotation as int) && r.flip_h == p.flip_h && r.flip_v
            == p.flip_v,
{
    let own = p.own->0;
    a_plain_side(own.0.x.value as int, own.1.width.value as int);
    a_plain_side(own.0.y.value as int, own.1.height.value as int);
}

/// A side that no group scales is as it is.
proof fn a_plain_side(off: int, ext: int)
    requires
        i64::MIN <= off <= i64::MAX,
        i64::MIN <= ext <= i64::MAX,
    ensures
        side_fits(same_place(), centre(off, ext), same_place(), ext),
        side(same_place(), centre(off, ext), same_place(), ext) == (off as i64, ext as i64),
{
    let c = centre(off, ext);
    assert(1 * c == c && 0 * 1 == 0 && ext * 1 == ext) by (nonlinear_arith);
    let n = c - ext;
    assert(n == 2 * off);
    assert(n * 1 == n && -ext * 1 == -ext && c * 1 == c) by (nonlinear_arith);
}

} // verus!
