//! How shapes in turned groups are turned.
//!
//! A group that scales both axes alike takes a square to a square: it turns what
//! is in it by an angle, and mirrors it or not. So does a chain of such groups,
//! whatever their angles. The angles add up, and those inside a mirror count
//! backwards.
use vstd::arithmetic::div_mod::{lemma_add_mod_noop, lemma_sub_mod_noop};
use vstd::prelude::*;

use crate::pptx::geometry::{normalize_angle, GroupFrame, Placement, PlacementView, FULL_TURN};
use crate::pptx::upright::{
    across_map, chain, cosine, flip_sign, is_right, joined, mirrors, place_of, read_across,
    read_down, scaled_x, scaled_y, sign_of, sine, turn_of, turned, within_turn, PointMap,
    HALF_TURN, QUARTER_TURN, THREE_QUARTER_TURN,
};

verus! {

/// An angle, and whether what is turned by it was mirrored before.
pub struct Heading {
    pub angle: int,
    pub mirrored: bool,
}

/// How a group turns what is in it. To mirror from left to right is to mirror
/// from top to bottom and to turn by a half.
pub open spec fn heading(f: GroupFrame) -> Heading {
    Heading {
        angle: f.rotation + if f.flip_h {
            HALF_TURN as int
        } else {
            0
        },
        mirrored: f.flip_h != f.flip_v,
    }
}

/// One turn after another. What is turned inside a mirror turns backwards.
pub open spec fn onward(outer: Heading, inner: Heading) -> Heading {
    Heading {
        angle: if outer.mirrored {
            outer.angle - inner.angle
        } else {
            outer.angle + inner.angle
        },
        mirrored: outer.mirrored != inner.mirrored,
    }
}

/// How a chain of groups turns what is in it, the outermost first.
pub open spec fn headed(frames: Seq<GroupFrame>) -> Heading
    decreases frames.len(),
{
    if frames.len() == 0 {
        Heading { angle: 0, mirrored: false }
    } else {
        onward(headed(frames.drop_last()), heading(frames.last()))
    }
}

/// Whether a length and the length that it is scaled from point the same way.
pub open spec fn same_way(a: int, b: int) -> bool {
    a > 0 && b > 0 || a < 0 && b < 0
}

/// Whether a group scales both axes alike.
pub open spec fn scales_alike(f: GroupFrame) -> bool {
    match f.child_extent {
        Some(c) => {
            &&& same_way(f.extent.width.value as int, c.width.value as int)
            &&& same_way(f.extent.height.value as int, c.height.value as int)
            &&& f.extent.width.value * c.height.value == f.extent.height.value * c.width.value
        },
        None => true,
    }
}

/// Whether all groups of a chain scale both axes alike.
pub open spec fn all_scale_alike(frames: Seq<GroupFrame>) -> bool {
    forall|i: int| 0 <= i < frames.len() ==> scales_alike(#[trigger] frames[i])
}

/// How a shape is turned on the slide.
#[derive(Debug, Clone, Copy, PartialEq, Eq)]
pub struct Turn {
    pub rotation: i64,
    pub flip_h: bool,
    pub flip_v: bool,
}

/// How a shape is turned by itself and the groups around it.
pub open spec fn turn_in_groups(p: PlacementView) -> Turn {
    Turn {
        rotation: within_turn(p.rotation + headed(p.frames).angle) as i64,
        flip_h: p.flip_h,
        flip_v: p.flip_v != headed(p.frames).mirrored,
    }
}

/// Whether a length and the length that it is scaled from point the same way.
fn point_the_same_way(a: i64, b: i64) -> (r: bool)
    ensures
        r == same_way(a as int, b as int),
{
    (a > 0 && b > 0) || (a < 0 && b < 0)
}

/// Whether a group scales both axes alike.
fn check_scales(f: &GroupFrame) -> (r: bool)
    ensures
        r == scales_alike(*f),
{
    match f.child_extent {
        Some(c) => {
            let (w, h): (i64, i64) = (f.extent.width.raw(), f.extent.height.raw());
            let (cw, ch): (i64, i64) = (c.width.raw(), c.height.raw());
            proof {
                products_fit(w, ch);
                products_fit(h, cw);
            }
            point_the_same_way(w, cw) && point_the_same_way(h, ch) && w as i128 * ch as i128
                == h as i128 * cw as i128
        },
        None => true,
    }
}

/// The product of two lengths can be held in twice the width.
proof fn products_fit(a: i64, b: i64)
    ensures
        i128::MIN <= a * b <= i128::MAX,
{
    assert(-0x4000_0000_0000_0000_0000_0000_0000_0000 <= a * b
        <= 0x4000_0000_0000_0000_0000_0000_0000_0000) by (nonlinear_arith)
        requires
            -0x8000_0000_0000_0000 <= a <= 0x7fff_ffff_ffff_ffff,
            -0x8000_0000_0000_0000 <= b <= 0x7fff_ffff_ffff_ffff,
    ;
}

/// How a shape is turned by itself and the groups around it, where each of them
/// scales both axes alike.
pub fn turn_on_slide(p: &Placement) -> (r: Option<Turn>)
    ensures
        match r {
            Some(t) => all_scale_alike(p.frames@) && t == turn_in_groups(p@),
            None => !all_scale_alike(p.frames@),
        },
{
    let ghost frames = p.frames@;
    let mut angle: i64 = 0;
    let mut mirrored: bool = false;
    let mut i: usize = 0;
    while i < p.frames.len()
        invariant
            frames == p.frames@,
            i <= frames.len(),
            forall|k: int| 0 <= k < i ==> scales_alike(#[trigger] frames[k]),
            angle == within_turn(headed(frames.take(i as int)).angle),
            mirrored == headed(frames.take(i as int)).mirrored,
        decreases frames.len() - i,
    {
        assert(frames.take(i + 1).drop_last() =~= frames.take(i as int));
        assert(frames.take(i + 1).last() == frames[i as int]);
        let f: GroupFrame = p.frames[i];
        if !check_scales(&f) {
            return None;
        }
        let half: i64 = if f.flip_h {
            HALF_TURN
        } else {
            0
        };
        let own: i64 = normalize_angle(f.rotation) + half;
        angle = if mirrored {
            normalize_angle(angle - own)
        } else {
            normalize_angle(angle + own)
        };
        mirrored = mirrored != (f.flip_h != f.flip_v);
        i = i + 1;
    }
    assert(frames.take(i as int) =~= frames);
    let rotation: i64 = normalize_angle(normalize_angle(p.rotation) + angle);
    Some(Turn { rotation, flip_h: p.flip_h, flip_v: p.flip_v != mirrored })
}

/// The angles of groups, added up.
pub open spec fn sum_of_rotations(frames: Seq<GroupFrame>) -> int
    decreases frames.len(),
{
    if frames.len() == 0 {
        0
    } else {
        sum_of_rotations(frames.drop_last()) + frames.last().rotation
    }
}

/// Where no group mirrors, the rotation of a shape and those of the groups
/// around it add up.
pub proof fn rotations_add(p: PlacementView)
    requires
        forall|i: int|
            0 <= i < p.frames.len() ==> !(#[trigger] p.frames[i]).flip_h && !p.frames[i].flip_v,
    ensures
        turn_in_groups(p).rotation == within_turn(p.rotation + sum_of_rotations(p.frames)),
        turn_in_groups(p).flip_v == p.flip_v,
{
    plain_headings_add(p.frames);
}

proof fn plain_headings_add(frames: Seq<GroupFrame>)
    requires
        forall|i: int|
            0 <= i < frames.len() ==> !(#[trigger] frames[i]).flip_h && !frames[i].flip_v,
    ensures
        headed(frames).angle == sum_of_rotations(frames),
        !headed(frames).mirrored,
    decreases frames.len(),
{
    if frames.len() > 0 {
        let rest = frames.drop_last();
        assert forall|i: int| 0 <= i < rest.len() implies !(#[trigger] rest[i]).flip_h
            && !rest[i].flip_v by {
            assert(rest[i] == frames[i]);
        }
        plain_headings_add(rest);
    }
}

/// A group inside another that is mirrored and turned as it is itself undoes what
/// the outer one does.
pub proof fn mirrors_cancel(outer: GroupFrame, inner: GroupFrame)
    requires
        outer.flip_h,
        !outer.flip_v,
        inner.flip_h,
        !inner.flip_v,
        outer.rotation == inner.rotation,
    ensures
        headed(seq![outer, inner]) == (Heading { angle: 0, mirrored: false }),
{
    let both = seq![outer, inner];
    assert(both.drop_last() =~= seq![outer]);
    assert(seq![outer].drop_last() =~= Seq::<GroupFrame>::empty());
    reveal_with_fuel(headed, 3);
}

/// Where the place of a shape can be told exactly, the shape is turned there as
/// the angles around it say.
pub proof fn turning_agrees_with_placing(p: PlacementView)
    requires
        p.own is Some,
        all_scale_alike(p.frames),
        forall|i: int| 0 <= i < p.frames.len() ==> is_right((#[trigger] p.frames[i]).rotation),
    ensures
        place_of(p) matches Some(r) && r.rotation.value == turn_in_groups(p).rotation && r.flip_h
            == turn_in_groups(p).flip_h && r.flip_v == turn_in_groups(p).flip_v,
{
    chains_turn_alike(p.frames);
}

/// The way that a map turns depends on its signs alone.
spec fn turn_by(swapped: bool, x: int, y: int) -> int {
    if swapped {
        if y > 0 {
            QUARTER_TURN as int
        } else {
            THREE_QUARTER_TURN as int
        }
    } else if x > 0 {
        0
    } else {
        HALF_TURN as int
    }
}

/// Whether a map turns points by an angle and mirrors them or not, and takes no
/// two of them to one.
spec fn turns_as(m: PointMap, h: Heading) -> bool {
    let x = sign_of(m.x.num);
    let y = sign_of(m.y.num);
    &&& x == 1 || x == -1
    &&& y == 1 || y == -1
    &&& within_turn(h.angle) == turn_by(m.swapped, x, y)
    &&& h.mirrored == ((x == y) == m.swapped)
}

/// The sign of a product.
proof fn signs_multiply(a: int, b: int)
    ensures
        sign_of(a * b) == if sign_of(a) == 0 || sign_of(b) == 0 {
            0int
        } else if sign_of(a) == sign_of(b) {
            1
        } else {
            -1
        },
{
    assert(a > 0 && b > 0 ==> a * b > 0) by (nonlinear_arith);
    assert(a > 0 && b < 0 ==> a * b < 0) by (nonlinear_arith);
    assert(a < 0 && b > 0 ==> a * b < 0) by (nonlinear_arith);
    assert(a < 0 && b < 0 ==> a * b > 0) by (nonlinear_arith);
    assert(a == 0 || b == 0 ==> a * b == 0) by (nonlinear_arith);
}

/// A group that scales both axes alike turns points as its heading says.
proof fn a_group_turns(f: GroupFrame)
    requires
        scales_alike(f),
        is_right(f.rotation),
    ensures
        turns_as(turned(f), heading(f)),
{
    let r = within_turn(f.rotation as int);
    assert(r == 0 || r == 5_400_000 || r == 10_800_000 || r == 16_200_000);
    assert(scaled_x(f).num > 0);
    assert(scaled_y(f).num > 0);
    let (fx, fy) = (flip_sign(f.flip_h), flip_sign(f.flip_v));
    let (c, s) = (cosine(f.rotation), sine(f.rotation));
    signs_multiply(c, fx);
    signs_multiply(c, fy);
    signs_multiply(s, fx);
    signs_multiply(s, fy);
    signs_multiply(c * fx, scaled_x(f).num);
    signs_multiply(c * fy, scaled_y(f).num);
    signs_multiply(-(s * fy), scaled_y(f).num);
    signs_multiply(s * fx, scaled_x(f).num);
}

/// One map after another turns as one heading after another.
proof fn maps_turn_onward(outer: PointMap, inner: PointMap, a: Heading, b: Heading)
    requires
        turns_as(outer, a),
        turns_as(inner, b),
    ensures
        turns_as(joined(outer, inner), onward(a, b)),
{
    signs_multiply(outer.x.num, read_across(outer, inner).num);
    signs_multiply(outer.y.num, read_down(outer, inner).num);
    turns_combine(a.angle, b.angle);
    let (ox, oy) = (sign_of(outer.x.num), sign_of(outer.y.num));
    let (ix, iy) = (sign_of(inner.x.num), sign_of(inner.y.num));
    signs_turn_onward(outer.swapped, ox, oy, inner.swapped, ix, iy);
}

/// Only what is left of two angles within one turn counts for their sum and
/// difference.
proof fn turns_combine(a: int, b: int)
    ensures
        within_turn(a + b) == within_turn(within_turn(a) + within_turn(b)),
        within_turn(a - b) == within_turn(within_turn(a) - within_turn(b)),
{
    lemma_add_mod_noop(a, b, FULL_TURN as int);
    lemma_sub_mod_noop(a, b, FULL_TURN as int);
}

/// The signs of one map after another turn onward.
proof fn signs_turn_onward(outer: bool, ox: int, oy: int, inner: bool, ix: int, iy: int)
    requires
        ox == 1 || ox == -1,
        oy == 1 || oy == -1,
        ix == 1 || ix == -1,
        iy == 1 || iy == -1,
    ensures
        ({
            let x: int = if ox == if outer { iy } else { ix } {
                1
            } else {
                -1
            };
            let y: int = if oy == if outer { ix } else { iy } {
                1
            } else {
                -1
            };
            let t = turn_by(outer, ox, oy);
            let u = turn_by(inner, ix, iy);
            turn_by(outer != inner, x, y) == within_turn(
                if (ox == oy) == outer {
                    t - u
                } else {
                    t + u
                },
            )
        }),
{
}

/// A chain turns points as its heading says.
proof fn chains_turn(frames: Seq<GroupFrame>)
    requires
        all_scale_alike(frames),
        forall|i: int| 0 <= i < frames.len() ==> is_right((#[trigger] frames[i]).rotation),
    ensures
        turns_as(chain(frames), headed(frames)),
    decreases frames.len(),
{
    if frames.len() > 0 {
        let rest = frames.drop_last();
        assert forall|i: int| 0 <= i < rest.len() implies scales_alike(#[trigger] rest[i])
            && is_right(rest[i].rotation) by {
            assert(rest[i] == frames[i]);
        }
        chains_turn(rest);
        a_group_turns(frames.last());
        maps_turn_onward(
            chain(rest),
            turned(frames.last()),
            headed(rest),
            heading(frames.last()),
        );
    }
}

proof fn chains_turn_alike(frames: Seq<GroupFrame>)
    requires
        all_scale_alike(frames),
        forall|i: int| 0 <= i < frames.len() ==> is_right((#[trigger] frames[i]).rotation),
    ensures
        within_turn(headed(frames).angle) == turn_of(chain(frames)),
        headed(frames).mirrored == mirrors(chain(frames)),
{
    chains_turn(frames);
    let m = chain(frames);
    assert(1 * 1 == 1 && 1 * -1 == -1 && -1 * 1 == -1 && -1 * -1 == 1) by (nonlinear_arith);
    assert(across_map(m).num != 0);
}

} // verus!
