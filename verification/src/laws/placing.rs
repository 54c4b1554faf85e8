//! Where shapes stand on their slide.
use vstd::prelude::*;

use crate::dimension::{nearest, within_range, Emu};
use crate::model::geometry::{Offset, Rect, Size};
use crate::pptx::geometry::{normalize_angle, GroupFrame, Placement};
use crate::pptx::shapes::SlideRect;
use crate::pptx::turning::{turn_on_slide, Turn};
use crate::pptx::upright::{
    after, chain, cosine, flip_sign, joined, magnitude, mirrored, place_upright, same_place, scaled,
    scaled_x, scaled_y, side, sine, turned, within_turn, Line, PointMap,
};

verus! {

/// Whether a whole number is nearest to a quotient.
pub open spec fn is_nearest(v: int, n: int, d: int) -> bool {
    -d <= 2 * (v * d - n) <= d
}

proof fn nearest_is_nearest(n: int, d: int)
    requires
        d > 0,
    ensures
        is_nearest(nearest(n, d), n, d),
{
    let m = if n >= 0 {
        n
    } else {
        -n
    };
    let q = (2 * m + d) / (2 * d);
    assert(q * (2 * d) <= 2 * m + d < q * (2 * d) + 2 * d) by (nonlinear_arith)
        requires
            d > 0,
            q == (2 * m + d) / (2 * d),
    ;
    assert(q * (2 * d) == 2 * (q * d)) by (nonlinear_arith);
    assert((-q) * d == -(q * d)) by (nonlinear_arith);
}

/// Twice a quotient's numbers leave it what it is.
proof fn nearest_to_a_double(n: int, d: int)
    requires
        d > 0,
    ensures
        is_nearest(nearest(2 * n, 2 * d), n, d),
{
    nearest_is_nearest(2 * n, 2 * d);
    let v = nearest(2 * n, 2 * d);
    assert(v * (2 * d) == 2 * (v * d)) by (nonlinear_arith);
}

/// The map of a chain of one group is the group's own.
proof fn a_chain_of_one(f: GroupFrame)
    ensures
        chain(seq![f]) == turned(f),
{
    let t = turned(f);
    assert(seq![f].drop_last() =~= Seq::<GroupFrame>::empty());
    assert(seq![f].last() == f);
    reveal_with_fuel(chain, 2);
    let o = PointMap { swapped: false, x: same_place(), y: same_place() };
    after_same_place(t.x);
    after_same_place(t.y);
    assert(joined(o, t) == t);
}

proof fn after_same_place(l: Line)
    ensures
        after(same_place(), l) == l,
{
    assert(1 * l.num == l.num && 1 * l.off == l.off && 0 * l.den == 0 && 1 * l.den == l.den)
        by (nonlinear_arith);
}

proof fn not_mirrored(l: Line, g: int)
    ensures
        mirrored(l, 1, g - 1 * g) == l,
{
    assert(1 * l.num == l.num && 1 * l.off == l.off && (g - 1 * g) * l.den == 0)
        by (nonlinear_arith);
}

/// Whether a group stands as it is: neither turned nor flipped.
pub open spec fn stands_upright(f: GroupFrame) -> bool {
    f.rotation as int % 21_600_000 == 0 && !f.flip_h && !f.flip_v
}

proof fn an_upright_group_scales(f: GroupFrame)
    requires
        stands_upright(f),
    ensures
        turned(f) == (PointMap { swapped: false, x: scaled_x(f), y: scaled_y(f) }),
{
    assert(cosine(f.rotation) == 1 && sine(f.rotation) == 0);
    assert(1 * 1 == 1int);
    not_mirrored(scaled_x(f), 2 * f.offset.x.value + f.extent.width.value);
    not_mirrored(scaled_y(f), 2 * f.offset.y.value + f.extent.height.value);
}

/// A side of a box in a scaled space.
proof fn a_scaled_side(off: int, ext: int, child_off: int, child_ext: int, at: int, size: int)
    requires
        ext >= 0,
        child_ext > 0,
    ensures
        ({
            let l = scaled(off, ext, child_off, Some(child_ext));
            let s = side(l, 2 * at + size, l, size);
            let begins = nearest(
                2 * (l.den * off + (at - child_off) * l.num),
                2 * l.den,
            );
            &&& s.0 == within_range(begins)
            &&& is_nearest(begins, child_ext * off + (at - child_off) * ext, child_ext)
            &&& s.1 == within_range(nearest(size * l.num, l.den))
            &&& is_nearest(nearest(size * l.num, l.den), size * ext, child_ext)
        }),
{
    let l = scaled(off, ext, child_off, Some(child_ext));
    let c = 2 * at + size;
    if child_ext == ext {
        assert(l == (Line { num: 1, off: 2 * off - 2 * child_off, den: 1 }));
        assert(1 * c == c && size * 1 == size) by (nonlinear_arith);
        assert(1 * off == off && (at - child_off) * 1 == at - child_off) by (nonlinear_arith);
        let b = off + (at - child_off);
        exact_quotient(2 * b, 2, b);
        exact_quotient(size, 1, size);
        assert(b * ext == ext * off + (at - child_off) * ext) by (nonlinear_arith)
            requires
                b == off + (at - child_off),
        ;
    } else {
        assert(l.num == ext && l.den == child_ext);
        let n = ext * c + l.off;
        let long = size * ext;
        assert(size * magnitude(l.num) == long);
        let x = child_ext * off + (at - child_off) * ext;
        assert(n - long == 2 * x) by (nonlinear_arith)
            requires
                n == ext * (2 * at + size) + (2 * off * child_ext + 2 * -child_off * ext),
                long == size * ext,
                x == child_ext * off + (at - child_off) * ext,
        ;
        nearest_to_a_double(x, child_ext);
        nearest_is_nearest(long, child_ext);
    }
}

/// Whether a number lies within the range of a measure.
pub open spec fn in_range(n: i64) -> bool {
    i64::MIN < n < i64::MAX
}

/// A group that is neither turned nor flipped takes the space of its members
/// onto its own box, across and down alike: a member's corner goes as far into
/// the box as it is into the space, and its sides are scaled with them.
pub proof fn a_group_takes_its_space_onto_its_box(
    p: &Placement,
    f: GroupFrame,
    space: Size<Emu>,
    corner: Offset<Emu>,
    size: Size<Emu>,
    r: Option<Option<SlideRect>>,
)
    requires
        call_ensures(place_upright, (p,), r),
        p.frames@ == seq![f],
        p.own == Some((corner, size)),
        stands_upright(f),
        f.child_extent == Some(space),
        space.width.value > 0 && space.height.value > 0,
        f.extent.width.value >= 0 && f.extent.height.value >= 0,
    ensures
        r matches Some(place) ==> (place matches Some(s) && {
            let b = s.rect;
            &&& in_range(b.origin.x.value) ==> is_nearest(
                b.origin.x.value as int,
                space.width.value * f.offset.x.value + (corner.x.value - f.child_offset.x.value)
                    * f.extent.width.value,
                space.width.value as int,
            )
            &&& in_range(b.origin.y.value) ==> is_nearest(
                b.origin.y.value as int,
                space.height.value * f.offset.y.value + (corner.y.value - f.child_offset.y.value)
                    * f.extent.height.value,
                space.height.value as int,
            )
            &&& in_range(b.size.width.value) ==> is_nearest(
                b.size.width.value as int,
                size.width.value * f.extent.width.value,
                space.width.value as int,
            )
            &&& in_range(b.size.height.value) ==> is_nearest(
                b.size.height.value as int,
                size.height.value * f.extent.height.value,
                space.height.value as int,
            )
        }),
{
    a_chain_of_one(f);
    an_upright_group_scales(f);
    a_scaled_side(
        f.offset.x.value as int,
        f.extent.width.value as int,
        f.child_offset.x.value as int,
        space.width.value as int,
        corner.x.value as int,
        size.width.value as int,
    );
    a_scaled_side(
        f.offset.y.value as int,
        f.extent.height.value as int,
        f.child_offset.y.value as int,
        space.height.value as int,
        corner.y.value as int,
        size.height.value as int,
    );
}

/// A member that fills the space of its group stands on the group's own box.
pub proof fn a_member_that_fills_the_space_fills_the_box(
    p: &Placement,
    f: GroupFrame,
    space: Size<Emu>,
    r: Option<Option<SlideRect>>,
)
    requires
        call_ensures(place_upright, (p,), r),
        p.frames@ == seq![f],
        p.own == Some((f.child_offset, space)),
        stands_upright(f),
        f.child_extent == Some(space),
        space.width.value > 0 && space.height.value > 0,
        f.extent.width.value >= 0 && f.extent.height.value >= 0,
    ensures
        r matches Some(place) ==> (place matches Some(s) && s.rect == (Rect {
            origin: f.offset,
            size: f.extent,
        })),
{
    a_chain_of_one(f);
    an_upright_group_scales(f);
    a_filling_side(
        f.offset.x.value as int,
        f.extent.width.value as int,
        f.child_offset.x.value as int,
        space.width.value as int,
    );
    a_filling_side(
        f.offset.y.value as int,
        f.extent.height.value as int,
        f.child_offset.y.value as int,
        space.height.value as int,
    );
}

proof fn a_filling_side(off: int, ext: int, child_off: int, child_ext: int)
    requires
        ext >= 0,
        child_ext > 0,
    ensures
        ({
            let l = scaled(off, ext, child_off, Some(child_ext));
            side(l, 2 * child_off + child_ext, l, child_ext) == (within_range(off), within_range(ext))
        }),
{
    let l = scaled(off, ext, child_off, Some(child_ext));
    a_scaled_side(off, ext, child_off, child_ext, child_off, child_ext);
    let b = nearest(2 * (l.den * off + (child_off - child_off) * l.num), 2 * l.den);
    assert((child_off - child_off) * l.num == 0) by (nonlinear_arith);
    exact_quotient(2 * (l.den * off), 2 * l.den, off);
    exact_quotient(child_ext * l.num, l.den, ext);
}

proof fn exact_quotient(n: int, d: int, q: int)
    requires
        d > 0,
        n == q * d || n == d * q || (d == 1 && n == q) || n == 2 * ((d / 2) * q) && d % 2 == 0,
    ensures
        nearest(n, d) == q,
{
    assert(q * d == d * q) by (nonlinear_arith);
    assert(d % 2 == 0 ==> 2 * ((d / 2) * q) == d * q) by (nonlinear_arith);
    assert(d == 1 ==> q * d == q) by (nonlinear_arith);
    nearest_is_nearest(n, d);
    let v = nearest(n, d);
    assert(v == q) by (nonlinear_arith)
        requires
            d > 0,
            n == q * d,
            -d <= 2 * (v * d - n) <= d,
    ;
}

/// A group whose members keep their size moves them by the way from the origin
/// of their space to its own corner.
pub proof fn a_group_that_keeps_sizes_moves_its_members(
    p: &Placement,
    f: GroupFrame,
    corner: Offset<Emu>,
    size: Size<Emu>,
    r: Option<Option<SlideRect>>,
)
    requires
        call_ensures(place_upright, (p,), r),
        p.frames@ == seq![f],
        p.own == Some((corner, size)),
        stands_upright(f),
        f.child_extent is None || f.child_extent == Some(f.extent),
    ensures
        r matches Some(place) ==> (place matches Some(s) && {
            let b = s.rect;
            &&& in_range(b.origin.x.value) ==> b.origin.x.value == f.offset.x.value
                + corner.x.value - f.child_offset.x.value
            &&& in_range(b.origin.y.value) ==> b.origin.y.value == f.offset.y.value
                + corner.y.value - f.child_offset.y.value
            &&& b.size == size
        }),
{
    a_chain_of_one(f);
    an_upright_group_scales(f);
    a_moved_side(
        2 * f.offset.x.value - 2 * f.child_offset.x.value,
        corner.x.value as int,
        size.width.value as int,
    );
    a_moved_side(
        2 * f.offset.y.value - 2 * f.child_offset.y.value,
        corner.y.value as int,
        size.height.value as int,
    );
}

proof fn a_moved_side(by: int, at: int, size: int)
    requires
        by % 2 == 0,
    ensures
        ({
            let l = Line { num: 1, off: by, den: 1 };
            side(l, 2 * at + size, l, size) == (within_range(at + by / 2), within_range(size))
        }),
{
    let c = 2 * at + size;
    assert(1 * c == c && size * 1 == size) by (nonlinear_arith);
    exact_quotient(2 * (at + by / 2), 2, at + by / 2);
    exact_quotient(size, 1, size);
}

/// Where a map takes a point, across, in parts of the map.
pub open spec fn image_x(m: PointMap, u: int, v: int) -> int {
    m.x.num * (if m.swapped {
        v
    } else {
        u
    }) + m.x.off
}

/// Where a map takes a point, down, in parts of the map.
pub open spec fn image_y(m: PointMap, u: int, v: int) -> int {
    m.y.num * (if m.swapped {
        u
    } else {
        v
    }) + m.y.off
}

proof fn a_mirrored_value(l: Line, sign: int, by: int, w: int)
    ensures
        mirrored(l, sign, by).num * w + mirrored(l, sign, by).off == sign * (l.num * w + l.off) + by
            * l.den,
        mirrored(l, sign, by).den == l.den,
{
    let n = l.num;
    let o = l.off;
    assert((sign * n) * w + (sign * o + by * l.den) == sign * (n * w + o) + by * l.den)
        by (nonlinear_arith);
}

proof fn about_a_centre(v: int, g: int, d: int, sign: int)
    requires
        sign == 1 || sign == -1,
    ensures
        sign == 1 ==> sign * v + (g - sign * g) * d == g * d + (v - g * d),
        sign == -1 ==> sign * v + (g - sign * g) * d == g * d - (v - g * d),
{
    assert(1 * v == v && (g - 1 * g) * d == 0) by (nonlinear_arith);
    assert(-1 * v == -v && (g - -1 * g) * d == 2 * (g * d)) by (nonlinear_arith);
}

proof fn about_another_centre(v: int, g: int, h: int, d: int, sign: int)
    requires
        sign == 1 || sign == -1,
    ensures
        sign == 1 ==> sign * v + (g - sign * h) * d == g * d + (v - h * d),
        sign == -1 ==> sign * v + (g - sign * h) * d == g * d - (v - h * d),
{
    assert(1 * v == v && (g - 1 * h) * d == g * d - h * d) by (nonlinear_arith);
    assert(-1 * v == -v && (g - -1 * h) * d == g * d + h * d) by (nonlinear_arith);
}

/// A number, the other way round where it is flipped.
pub open spec fn flipped(n: int, flip: bool) -> int {
    if flip {
        -n
    } else {
        n
    }
}

/// A group that is turned and flipped takes a point where the same group upright
/// takes it, flipped about the centre of the group's box and then turned about
/// it, clockwise by so many quarters.
pub proof fn a_group_flips_and_turns_about_its_centre(
    f: GroupFrame,
    upright: GroupFrame,
    turns: int,
    quarters: int,
    u: int,
    v: int,
)
    requires
        f.rotation == 21_600_000 * turns + 5_400_000 * quarters,
        0 <= quarters < 4,
        upright == (GroupFrame { rotation: 0, flip_h: false, flip_v: false, ..f }),
    ensures
        ({
            let m = turned(f);
            let o = turned(upright);
            let gx = 2 * f.offset.x.value + f.extent.width.value;
            let gy = 2 * f.offset.y.value + f.extent.height.value;
            let dx = flipped(image_x(o, u, v) - gx * o.x.den, f.flip_h);
            let dy = flipped(image_y(o, u, v) - gy * o.y.den, f.flip_v);
            &&& !o.swapped
            &&& quarters == 0 ==> image_x(m, u, v) == gx * o.x.den + dx && image_y(m, u, v) == gy
                * o.y.den + dy
            &&& quarters == 1 ==> image_x(m, u, v) == gx * o.y.den - dy && image_y(m, u, v) == gy
                * o.x.den + dx
            &&& quarters == 2 ==> image_x(m, u, v) == gx * o.x.den - dx && image_y(m, u, v) == gy
                * o.y.den - dy
            &&& quarters == 3 ==> image_x(m, u, v) == gx * o.y.den + dy && image_y(m, u, v) == gy
                * o.x.den - dx
            &&& quarters % 2 == 0 ==> m.x.den == o.x.den && m.y.den == o.y.den
            &&& quarters % 2 == 1 ==> m.x.den == o.y.den && m.y.den == o.x.den
        }),
{
    an_upright_group_scales(upright);
    assert(scaled_x(upright) == scaled_x(f) && scaled_y(upright) == scaled_y(f));
    let lx = scaled_x(f);
    let ly = scaled_y(f);
    let gx = 2 * f.offset.x.value + f.extent.width.value;
    let gy = 2 * f.offset.y.value + f.extent.height.value;
    let r = within_turn(f.rotation as int);
    assert(r == 5_400_000 * quarters);
    let c = cosine(f.rotation);
    let s = sine(f.rotation);
    let fx = flip_sign(f.flip_h);
    let fy = flip_sign(f.flip_v);
    assert(1 * fx == fx && 1 * fy == fy && -1 * fx == -fx && -1 * fy == -fy) by (nonlinear_arith);
    if quarters % 2 == 0 {
        assert(s == 0);
        a_mirrored_value(lx, c * fx, gx - (c * fx) * gx, u);
        a_mirrored_value(ly, c * fy, gy - (c * fy) * gy, v);
        about_a_centre(lx.num * u + lx.off, gx, lx.den, c * fx);
        about_a_centre(ly.num * v + ly.off, gy, ly.den, c * fy);
    } else {
        assert(c == 0);
        a_mirrored_value(ly, -(s * fy), gx + (s * fy) * gy, v);
        a_mirrored_value(lx, s * fx, gy - (s * fx) * gx, u);
        about_another_centre(ly.num * v + ly.off, gx, gy, ly.den, -(s * fy));
        about_another_centre(lx.num * u + lx.off, gy, gx, lx.den, s * fx);
        assert((s * fy) * gy == -((-(s * fy)) * gy)) by (nonlinear_arith);
    }
}

/// What groups do to a point is what the innermost does to it, and then what the
/// others do: each map takes what goes across and down where the one inside of it
/// took it.
pub proof fn groups_act_from_the_inside_out(
    frames: Seq<GroupFrame>,
    inner: GroupFrame,
    u: int,
    v: int,
)
    ensures
        ({
            let o = chain(frames);
            let i = turned(inner);
            let m = chain(frames.push(inner));
            let (x, xd) = (image_x(i, u, v), i.x.den);
            let (y, yd) = (image_y(i, u, v), i.y.den);
            &&& !o.swapped ==> {
                &&& image_x(m, u, v) == o.x.num * x + o.x.off * xd && m.x.den == o.x.den * xd
                &&& image_y(m, u, v) == o.y.num * y + o.y.off * yd && m.y.den == o.y.den * yd
            }
            &&& o.swapped ==> {
                &&& image_x(m, u, v) == o.x.num * y + o.x.off * yd && m.x.den == o.x.den * yd
                &&& image_y(m, u, v) == o.y.num * x + o.y.off * xd && m.y.den == o.y.den * xd
            }
        }),
{
    let o = chain(frames);
    let i = turned(inner);
    assert(frames.push(inner).drop_last() =~= frames);
    let across = if i.swapped {
        v
    } else {
        u
    };
    let down = if i.swapped {
        u
    } else {
        v
    };
    if o.swapped {
        crate::pptx::upright::maps_follow_each_other(o.x, i.y, down);
        crate::pptx::upright::maps_follow_each_other(o.y, i.x, across);
    } else {
        crate::pptx::upright::maps_follow_each_other(o.x, i.x, across);
        crate::pptx::upright::maps_follow_each_other(o.y, i.y, down);
    }
}

/// No groups leave every point where it is.
pub proof fn without_groups_points_stay(u: int, v: int)
    ensures
        ({
            let m = chain(Seq::empty());
            image_x(m, u, v) == u && image_y(m, u, v) == v && m.x.den == 1 && m.y.den == 1
        }),
{
    assert(1 * u == u && 1 * v == v) by (nonlinear_arith);
}

/// The size of a number.
pub open spec fn size_of(n: int) -> int {
    if n < 0 {
        -n
    } else {
        n
    }
}

proof fn a_side_about_its_centre(position: Line, at: int, length: Line, size: int)
    requires
        position.den > 0,
        length.den > 0,
    ensures
        ({
            let n = position.num * at + position.off;
            let long = size * magnitude(length.num);
            let s = side(position, at, length, size);
            let both = position.den * length.den;
            &&& both > 0
            &&& in_range(s.1) ==> is_nearest(s.1 as int, long, length.den)
            &&& in_range(s.0) && in_range(s.1) ==> -3 * both <= 2 * ((2 * s.0 + s.1) * both - n
                * length.den) <= 3 * both
        }),
{
    let n = position.num * at + position.off;
    let long = size * magnitude(length.num);
    let (p, l) = (position.den, length.den);
    let both = p * l;
    assert(both > 0) by (nonlinear_arith)
        requires
            p > 0,
            l > 0,
            both == p * l,
    ;
    let w = nearest(long, l);
    nearest_is_nearest(long, l);
    let top = if p == l {
        n - long
    } else {
        n * l + -long * p
    };
    let below = if p == l {
        2 * p
    } else {
        2 * both
    };
    let x = nearest(top, below);
    nearest_is_nearest(top, below);
    assert(-both <= 2 * (w * both - long * p) <= both) by (nonlinear_arith)
        requires
            p > 0,
            both == p * l,
            -l <= 2 * (w * l - long) <= l,
    ;
    assert(-both <= 2 * (x * both) - (n * l - long * p) <= both) by {
        if p == l {
            assert(-(p * p) <= 2 * (x * (p * p)) - (n * p - long * p) <= p * p) by (nonlinear_arith)
                requires
                    p > 0,
                    -(2 * p) <= 2 * (x * (2 * p) - (n - long)) <= 2 * p,
            ;
        } else {
            assert(x * (2 * both) == 2 * (x * both)) by (nonlinear_arith);
            assert(-long * p == -(long * p)) by (nonlinear_arith);
        }
    }
    assert((2 * x + w) * both == 2 * (x * both) + w * both) by (nonlinear_arith);
}

/// Which way a map takes what goes to the right: to the right, down, to the left
/// or up, by quarters of a turn, where it takes it anywhere.
pub open spec fn right_goes(m: PointMap) -> int {
    let across = image_x(m, 1, 0) - image_x(m, 0, 0);
    let down = image_y(m, 1, 0) - image_y(m, 0, 0);
    if across > 0 {
        0
    } else if down > 0 {
        5_400_000
    } else if across < 0 {
        10_800_000
    } else if down < 0 {
        16_200_000
    } else {
        0
    }
}

/// Whether a map shows what it takes as a mirror does: what goes down then turns
/// the other way from what goes to the right.
pub open spec fn is_a_mirror(m: PointMap) -> bool {
    let (rx, ry) = (image_x(m, 1, 0) - image_x(m, 0, 0), image_y(m, 1, 0) - image_y(m, 0, 0));
    let (dx, dy) = (image_x(m, 0, 1) - image_x(m, 0, 0), image_y(m, 0, 1) - image_y(m, 0, 0));
    ||| rx > 0 && dy < 0
    ||| rx < 0 && dy > 0
    ||| ry > 0 && dx > 0
    ||| ry < 0 && dx < 0
}

/// The centre of a shape goes where the groups around it take it, as near as the
/// rounding of its corner and its size allows, and its sides are as long as the
/// groups make them. The shape is turned by as much as they turn what goes to the
/// right, and is a mirror image where they are a mirror.
pub proof fn a_shape_goes_where_its_groups_take_it(
    p: &Placement,
    corner: Offset<Emu>,
    size: Size<Emu>,
    r: Option<Option<SlideRect>>,
)
    requires
        call_ensures(place_upright, (p,), r),
        p.own == Some((corner, size)),
    ensures
        r matches Some(place) ==> (place matches Some(s) && {
            let m = chain(p.frames@);
            let b = s.rect;
            let cx = 2 * corner.x.value + size.width.value;
            let cy = 2 * corner.y.value + size.height.value;
            let (wide, tall) = if m.swapped {
                (m.y, m.x)
            } else {
                (m.x, m.y)
            };
            &&& m.x.den > 0 && m.y.den > 0
            &&& in_range(b.size.width.value) ==> is_nearest(
                b.size.width.value as int,
                size.width.value * size_of(wide.num),
                wide.den,
            )
            &&& in_range(b.size.height.value) ==> is_nearest(
                b.size.height.value as int,
                size.height.value * size_of(tall.num),
                tall.den,
            )
            &&& in_range(b.origin.x.value) && in_range(b.size.width.value) ==> {
                let off = 2 * b.origin.x.value + b.size.width.value;
                -3 * m.x.den <= 2 * (off * m.x.den - image_x(m, cx, cy)) <= 3 * m.x.den
            }
            &&& in_range(b.origin.y.value) && in_range(b.size.height.value) ==> {
                let off = 2 * b.origin.y.value + b.size.height.value;
                -3 * m.y.den <= 2 * (off * m.y.den - image_y(m, cx, cy)) <= 3 * m.y.den
            }
            &&& s.rotation.value == (p.rotation + right_goes(m)) % 21_600_000
            &&& s.flip_h == p.flip_h
            &&& s.flip_v == (p.flip_v != is_a_mirror(m))
            &&& !s.skewed
        }),
{
    if let Some(place) = r {
        let m = chain(p.frames@);
        let s = place->0;
        let cx = 2 * corner.x.value + size.width.value;
        let cy = 2 * corner.y.value + size.height.value;
        let (wide, tall) = if m.swapped {
            (m.y, m.x)
        } else {
            (m.x, m.y)
        };
        let (atx, aty) = if m.swapped {
            (cy, cx)
        } else {
            (cx, cy)
        };
        a_side_about_its_centre(m.x, atx, wide, size.width.value as int);
        a_side_about_its_centre(m.y, aty, tall, size.height.value as int);
        cancels(
            2 * s.rect.origin.x.value + s.rect.size.width.value,
            image_x(m, cx, cy),
            m.x.den,
            wide.den,
        );
        cancels(
            2 * s.rect.origin.y.value + s.rect.size.height.value,
            image_y(m, cx, cy),
            m.y.den,
            tall.den,
        );
        let (a, b) = (m.x.num, m.y.num);
        assert(a * 1 == a && a * 0 == 0 && b * 1 == b && b * 0 == 0) by (nonlinear_arith);
        assert(1 * 1 == 1 && 1 * -1 == -1 && -1 * 1 == -1 && -1 * -1 == 1 && 0 * 1 == 0 && 0 * -1
            == 0 && 1 * 0 == 0 && -1 * 0 == 0 && 0 * 0 == 0) by (nonlinear_arith);
        assert(right_goes(m) == crate::pptx::upright::turn_of(m));
        assert(is_a_mirror(m) == crate::pptx::upright::mirrors(m));
    }
}

proof fn cancels(off: int, n: int, p: int, l: int)
    requires
        p > 0,
        l > 0,
    ensures
        -3 * (p * l) <= 2 * (off * (p * l) - n * l) <= 3 * (p * l) ==> -3 * p <= 2 * (off * p - n)
            <= 3 * p,
{
    let k = 2 * (off * p - n);
    assert(2 * (off * (p * l) - n * l) == k * l) by (nonlinear_arith)
        requires
            k == 2 * (off * p - n),
    ;
    assert(3 * (p * l) == (3 * p) * l && -3 * (p * l) == (-3 * p) * l) by (nonlinear_arith);
    assert((-3 * p) * l <= k * l <= (3 * p) * l ==> -3 * p <= k <= 3 * p) by (nonlinear_arith)
        requires
            l > 0,
    ;
}

proof fn a_product_is_small(a: int, b: int, x: int, y: int)
    requires
        -x <= a <= x,
        -y <= b <= y,
    ensures
        -(x * y) <= a * b <= x * y,
{
    assert(-(x * y) <= a * b <= x * y) by (nonlinear_arith)
        requires
            -x <= a <= x,
            -y <= b <= y,
    ;
}

/// Whether a measure is of a size that a slide can have.
pub open spec fn is_moderate(n: i64) -> bool {
    -0x8000_0000 <= n <= 0x8000_0000
}

/// Whether the numbers of a group are of a size that a slide can have, and the
/// group is turned by quarters alone.
pub open spec fn is_moderate_group(f: GroupFrame) -> bool {
    &&& is_moderate(f.offset.x.value) && is_moderate(f.offset.y.value)
    &&& is_moderate(f.extent.width.value) && is_moderate(f.extent.height.value)
    &&& is_moderate(f.child_offset.x.value) && is_moderate(f.child_offset.y.value)
    &&& f.child_extent matches Some(c) ==> is_moderate(c.width.value) && is_moderate(c.height.value)
        && c.width.value != 0 && c.height.value != 0
    &&& f.rotation as int % 5_400_000 == 0
}

proof fn a_moderate_side_scales(off: int, ext: int, child_off: int, child_ext: Option<int>)
    requires
        -0x8000_0000 <= off <= 0x8000_0000,
        -0x8000_0000 <= ext <= 0x8000_0000,
        -0x8000_0000 <= child_off <= 0x8000_0000,
        child_ext matches Some(c) ==> -0x8000_0000 <= c <= 0x8000_0000 && c != 0,
    ensures
        crate::pptx::upright::scaled_fits(off, ext, child_off, child_ext),
        ({
            let l = scaled(off, ext, child_off, child_ext);
            &&& -0x8000_0000 <= l.num <= 0x8000_0000
            &&& 0 < l.den <= 0x8000_0000
            &&& -0x1_0000_0000_0000_0000 <= l.off <= 0x1_0000_0000_0000_0000
        }),
{
    if let Some(c) = child_ext {
        let e = crate::pptx::upright::with_sign(ext, c);
        let d = crate::pptx::upright::with_sign(c, c);
        a_product_is_small(2 * off, d, 0x1_0000_0000, 0x8000_0000);
        a_product_is_small(2 * -child_off, e, 0x1_0000_0000, 0x8000_0000);
    }
}

proof fn a_moderate_side_is_mirrored(l: Line, sign: int, by: int)
    requires
        sign == 1 || sign == -1,
        -0x8_0000_0000 <= by <= 0x8_0000_0000,
        -0x8000_0000 <= l.num <= 0x8000_0000,
        0 < l.den <= 0x8000_0000,
        -0x1_0000_0000_0000_0000 <= l.off <= 0x1_0000_0000_0000_0000,
    ensures
        crate::pptx::upright::mirrored_fits(l, sign, by),
        ({
            let m = mirrored(l, sign, by);
            &&& -0x8000_0000 <= m.num <= 0x8000_0000
            &&& m.den == l.den
            &&& -0x8_0000_0000_0000_0000 <= m.off <= 0x8_0000_0000_0000_0000
        }),
{
    a_product_is_small(sign, l.num, 1, 0x8000_0000);
    a_product_is_small(sign, l.off, 1, 0x1_0000_0000_0000_0000);
    a_product_is_small(by, l.den, 0x8_0000_0000, 0x8000_0000);
}

proof fn a_moderate_side_is_placed(position: Line, at: int, length: Line, size: int)
    requires
        -0x4_0000_0000 <= at <= 0x4_0000_0000,
        -0x8000_0000 <= size <= 0x8000_0000,
        -0x8000_0000 <= position.num <= 0x8000_0000,
        0 < position.den <= 0x8000_0000,
        -0x8_0000_0000_0000_0000 <= position.off <= 0x8_0000_0000_0000_0000,
        -0x8000_0000 <= length.num <= 0x8000_0000,
        0 < length.den <= 0x8000_0000,
    ensures
        crate::pptx::upright::side_fits(position, at, length, size),
{
    let n = position.num * at + position.off;
    let long = size * magnitude(length.num);
    a_product_is_small(position.num, at, 0x8000_0000, 0x4_0000_0000);
    assert(position.off * 1 == position.off) by (nonlinear_arith);
    a_product_is_small(size, magnitude(length.num), 0x8000_0000, 0x8000_0000);
    assert(n * 1 == n && -long * 1 == -long) by (nonlinear_arith);
    a_product_is_small(n, length.den, 0x10_0000_0000_0000_0000, 0x8000_0000);
    a_product_is_small(-long, position.den, 0x4000_0000_0000_0000, 0x8000_0000);
    a_product_is_small(position.den, length.den, 0x8000_0000, 0x8000_0000);
    assert(position.den * length.den > 0) by (nonlinear_arith)
        requires
            position.den > 0,
            length.den > 0,
    ;
}

/// A shape of a slide's size has a place that can be told, alone and in a group
/// that is turned by quarters, whatever its scales and flips.
pub proof fn moderate_shapes_are_placed(
    p: &Placement,
    corner: Offset<Emu>,
    size: Size<Emu>,
    r: Option<Option<SlideRect>>,
)
    requires
        call_ensures(place_upright, (p,), r),
        p.own == Some((corner, size)),
        is_moderate(corner.x.value) && is_moderate(corner.y.value),
        is_moderate(size.width.value) && is_moderate(size.height.value),
        p.frames@.len() == 0 || p.frames@.len() == 1 && is_moderate_group(p.frames@[0]),
    ensures
        r matches Some(place) && place is Some,
{
    if p.frames@.len() == 0 {
        crate::pptx::upright::a_shape_of_the_slide_stays(p@);
    } else {
        let f = p.frames@[0];
        assert(p.frames@ =~= seq![f]);
        let (cw, ch) = crate::pptx::upright::child_lengths(f);
        a_moderate_side_scales(
            f.offset.x.value as int,
            f.extent.width.value as int,
            f.child_offset.x.value as int,
            cw,
        );
        a_moderate_side_scales(
            f.offset.y.value as int,
            f.extent.height.value as int,
            f.child_offset.y.value as int,
            ch,
        );
        let gx = 2 * f.offset.x.value + f.extent.width.value;
        let gy = 2 * f.offset.y.value + f.extent.height.value;
        let c = cosine(f.rotation);
        let s = sine(f.rotation);
        let fx = flip_sign(f.flip_h);
        let fy = flip_sign(f.flip_v);
        let k = within_turn(f.rotation as int);
        assert(k == 0 || k == 5_400_000 || k == 10_800_000 || k == 16_200_000);
        assert(1 * fx == fx && 1 * fy == fy && -1 * fx == -fx && -1 * fy == -fy)
            by (nonlinear_arith);
        let lx = scaled_x(f);
        let ly = scaled_y(f);
        if s == 0 {
            a_product_is_small(c * fx, gx, 1, 0x1_8000_0000);
            a_product_is_small(c * fy, gy, 1, 0x1_8000_0000);
            a_moderate_side_is_mirrored(lx, c * fx, gx - (c * fx) * gx);
            a_moderate_side_is_mirrored(ly, c * fy, gy - (c * fy) * gy);
        } else {
            a_product_is_small(s * fx, gx, 1, 0x1_8000_0000);
            a_product_is_small(s * fy, gy, 1, 0x1_8000_0000);
            a_moderate_side_is_mirrored(ly, -(s * fy), gx + (s * fy) * gy);
            a_moderate_side_is_mirrored(lx, s * fx, gy - (s * fx) * gx);
        }
        a_chain_of_one(f);
        let m = turned(f);
        assert(crate::pptx::upright::chain_fits(seq![f])) by {
            assert(seq![f].drop_last() =~= Seq::<GroupFrame>::empty());
            reveal_with_fuel(crate::pptx::upright::chain_fits, 2);
            reveal_with_fuel(chain, 2);
            one_after_nothing_fits(m.x);
            one_after_nothing_fits(m.y);
        }
        let cx = 2 * corner.x.value + size.width.value;
        let cy = 2 * corner.y.value + size.height.value;
        let (wide, tall) = if m.swapped {
            (m.y, m.x)
        } else {
            (m.x, m.y)
        };
        a_moderate_side_is_placed(
            m.x,
            if m.swapped {
                cy
            } else {
                cx
            },
            wide,
            size.width.value as int,
        );
        a_moderate_side_is_placed(
            m.y,
            if m.swapped {
                cx
            } else {
                cy
            },
            tall,
            size.height.value as int,
        );
    }
}

proof fn one_after_nothing_fits(l: Line)
    requires
        -0x8000_0000 <= l.num <= 0x8000_0000,
        0 < l.den <= 0x8000_0000,
        -0x8_0000_0000_0000_0000 <= l.off <= 0x8_0000_0000_0000_0000,
    ensures
        crate::pptx::upright::after_fits(same_place(), l),
{
    assert(1 * l.num == l.num && 1 * l.off == l.off && 0 * l.den == 0 && 1 * l.den == l.den)
        by (nonlinear_arith);
}

/// One angle within a turn, and the same but for full turns.
pub proof fn an_angle_is_taken_within_one_turn(raw: i64, r: i64)
    requires
        call_ensures(normalize_angle, (raw,), r),
    ensures
        0 <= r < 21_600_000,
        (raw - r) % 21_600_000 == 0,
{
}

/// A shape that stands in no group is turned as it says, flipped as it says. In
/// one group more, inside of all others, it is turned by that group's own angle,
/// and by a half where that group is flipped from left to right; the other way
/// round where the groups around are a mirror together. Each group that is
/// flipped once makes a mirror of what was none.
pub proof fn turns_add_up_from_the_outside(
    p: &Placement,
    q: &Placement,
    f: GroupFrame,
    a: Option<Turn>,
    b: Option<Turn>,
)
    requires
        call_ensures(turn_on_slide, (p,), a),
        call_ensures(turn_on_slide, (q,), b),
        q.frames@ == p.frames@.push(f),
        q.rotation == p.rotation && q.flip_h == p.flip_h && q.flip_v == p.flip_v,
    ensures
        p.frames@.len() == 0 ==> (a matches Some(t) && 0 <= t.rotation < 21_600_000 && (p.rotation
            - t.rotation) % 21_600_000 == 0 && t.flip_h == p.flip_h && t.flip_v == p.flip_v),
        a matches Some(t) ==> (b matches Some(w) ==> {
            let own = f.rotation + if f.flip_h {
                10_800_000int
            } else {
                0
            };
            let mirror = t.flip_v != p.flip_v;
            &&& 0 <= w.rotation < 21_600_000
            &&& !mirror ==> (w.rotation - t.rotation - own) % 21_600_000 == 0
            &&& mirror ==> (w.rotation - t.rotation + own) % 21_600_000 == 0
            &&& w.flip_h == p.flip_h
            &&& w.flip_v == (t.flip_v != (f.flip_h != f.flip_v))
        }),
        b is Some ==> a is Some,
{
    assert(q.frames@.drop_last() =~= p.frames@);
    assert(q.frames@.last() == f);
    if b is Some {
        assert forall|i: int| 0 <= i < p.frames@.len() implies crate::pptx::turning::scales_alike(
            #[trigger] p.frames@[i],
        ) by {
            assert(q.frames@[i] == p.frames@[i]);
        }
    }
}

/// A turn can be told exactly where every group around scales across as it scales
/// down, and keeps the direction of both.
pub proof fn turns_are_told_under_even_scales(p: &Placement, a: Option<Turn>)
    requires
        call_ensures(turn_on_slide, (p,), a),
    ensures
        (forall|i: int|
            0 <= i < p.frames@.len() ==> ((#[trigger] p.frames@[i]).child_extent matches Some(c) ==> {
                &&& c.width.value > 0 && c.height.value > 0
                &&& p.frames@[i].extent.width.value > 0 && p.frames@[i].extent.height.value > 0
                &&& p.frames@[i].extent.width.value * c.height.value
                    == p.frames@[i].extent.height.value * c.width.value
            })) ==> a is Some,
        a is Some ==> forall|i: int|
            0 <= i < p.frames@.len() ==> ((#[trigger] p.frames@[i]).child_extent matches Some(c)
                ==> p.frames@[i].extent.width.value * c.height.value
                == p.frames@[i].extent.height.value * c.width.value),
{
    if forall|i: int|
        0 <= i < p.frames@.len() ==> ((#[trigger] p.frames@[i]).child_extent matches Some(c) ==> {
            &&& c.width.value > 0 && c.height.value > 0
            &&& p.frames@[i].extent.width.value > 0 && p.frames@[i].extent.height.value > 0
            &&& p.frames@[i].extent.width.value * c.height.value
                == p.frames@[i].extent.height.value * c.width.value
        }) {
        assert forall|i: int| 0 <= i < p.frames@.len() implies crate::pptx::turning::scales_alike(
            #[trigger] p.frames@[i],
        ) by {}
    }
    if a is Some {
        assert forall|i: int| 0 <= i < p.frames@.len() implies ((
        #[trigger] p.frames@[i]).child_extent matches Some(c) ==> p.frames@[i].extent.width.value
            * c.height.value == p.frames@[i].extent.height.value * c.width.value) by {
            assert(crate::pptx::turning::scales_alike(p.frames@[i]));
        }
    }
}

/// The upright box round a shape is its own where it is not turned or turned by a
/// half; turned by a quarter its sides change places about the same centre, and
/// the box takes in at most one unit more.
pub proof fn a_turned_shape_is_boxed_about_its_centre(s: &SlideRect, r: Option<Rect<Emu>>)
    requires
        call_ensures(SlideRect::bounding_box, (s,), r),
        is_moderate(s.rect.origin.x.value) && is_moderate(s.rect.origin.y.value),
        is_moderate(s.rect.size.width.value) && is_moderate(s.rect.size.height.value),
    ensures
        s.rotation.value as int % 5_400_000 != 0 <==> r is None,
        s.rotation.value as int % 10_800_000 == 0 ==> r == Some(s.rect),
        s.rotation.value as int % 10_800_000 == 5_400_000 ==> (r matches Some(b) && {
            &&& 2 * b.origin.x.value + b.size.width.value == 2 * s.rect.origin.x.value
                + s.rect.size.width.value
            &&& 2 * b.origin.y.value + b.size.height.value == 2 * s.rect.origin.y.value
                + s.rect.size.height.value
            &&& s.rect.size.height.value <= b.size.width.value <= s.rect.size.height.value + 1
            &&& s.rect.size.width.value <= b.size.height.value <= s.rect.size.width.value + 1
        }),
{
}

} // verus!
