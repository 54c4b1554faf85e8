//! Where shapes stand on the slide.
//!
//! A member of a group states its place in the group's own space. What maps it
//! onto the slide is the chain of the groups around it, each of which scales
//! its space onto its box and then turns and mirrors it about the centre of
//! that box. A plan names for every shape, each group before its members, the
//! box that it declares and that chain; the places that the chains give are
//! written back in the same order.
use vstd::prelude::*;

use crate::dimension::{units, Dimension, Emu};
use crate::model::geometry::{Offset, Size, Transform2D};
use crate::pptx::shapes::{preorder, preorder_all, Shape, ShapeKind, SlideRect};
use crate::pptx::turning::{all_scale_alike, turn_in_groups, turn_on_slide};
use crate::pptx::upright::{can_place, place_of, place_upright, within_turn};

verus! {

/// A full turn, in sixty-thousandths of a degree.
pub const FULL_TURN: i64 = 21_600_000;

/// The same angle within one turn, from nothing up.
pub fn normalize_angle(raw: i64) -> (r: i64)
    ensures
        0 <= r < FULL_TURN,
        r == raw as int % FULL_TURN as int,
{
    let rest: i64 = raw % FULL_TURN;
    if rest < 0 {
        rest + FULL_TURN
    } else {
        rest
    }
}

/// What a group does to the space of its members.
#[derive(Debug, Clone, Copy, PartialEq, Eq)]
pub struct GroupFrame {
    /// The group's box, in the space around it.
    pub offset: Offset<Emu>,
    pub extent: Size<Emu>,
    /// The origin of the members' space.
    pub child_offset: Offset<Emu>,
    /// The extent of the members' space that is scaled onto the box; none
    /// where the members keep their size.
    pub child_extent: Option<Size<Emu>>,
    /// The rotation about the centre of the box.
    pub rotation: i64,
    pub flip_h: bool,
    pub flip_v: bool,
}

/// How a shape is placed.
#[derive(Debug)]
pub struct Placement {
    /// The box that the shape declares, where it declares one.
    pub own: Option<(Offset<Emu>, Size<Emu>)>,
    /// The shape's own rotation.
    pub rotation: i64,
    pub flip_h: bool,
    pub flip_v: bool,
    /// The groups around the shape, the outermost first.
    pub frames: Vec<GroupFrame>,
    pub is_group: bool,
    /// Whether the shape is a group with a box but no space of its own.
    pub lacks_child_space: bool,
    /// Whether the shape is a group whose space has no width or no height.
    pub zero_child_extent: bool,
}

/// The box that a transform states: both its corner and its size, or none.
pub open spec fn box_of(t: Option<Transform2D>) -> Option<(Offset<Emu>, Size<Emu>)> {
    match t {
        Some(x) => match (x.offset, x.extent) {
            (Some(o), Some(e)) => Some((o, e)),
            _ => None,
        },
        None => None,
    }
}

/// The rotation that a transform states.
pub open spec fn rotation_of(t: Option<Transform2D>) -> i64 {
    match t {
        Some(x) => match x.rotation {
            Some(r) => r.value,
            None => 0,
        },
        None => 0,
    }
}

/// Whether a transform mirrors from left to right.
pub open spec fn flips_h(t: Option<Transform2D>) -> bool {
    t matches Some(x) && x.flip_h == Some(true)
}

/// Whether a transform mirrors from top to bottom.
pub open spec fn flips_v(t: Option<Transform2D>) -> bool {
    t matches Some(x) && x.flip_v == Some(true)
}

/// The space of a group's members: what it states, or its own box.
pub open spec fn child_space(s: Shape) -> (Offset<Emu>, Size<Emu>) {
    let own = box_of(s.transform)->0;
    match s.kind {
        ShapeKind::Group(g) => match (g.child_offset, g.child_extent) {
            (Some(o), Some(e)) => (o, e),
            _ => own,
        },
        _ => own,
    }
}

/// Whether an extent has no width or no height.
pub open spec fn is_flat(e: Size<Emu>) -> bool {
    e.width.value == 0 || e.height.value == 0
}

/// What a shape does to the space of its members. A shape that is no group, or
/// a group without a box, does nothing.
pub open spec fn frame_of(s: Shape) -> Option<GroupFrame> {
    match (s.kind, box_of(s.transform)) {
        (ShapeKind::Group(_), Some(own)) => Some(
            GroupFrame {
                offset: own.0,
                extent: own.1,
                child_offset: child_space(s).0,
                child_extent: if is_flat(child_space(s).1) {
                    None
                } else {
                    Some(child_space(s).1)
                },
                rotation: rotation_of(s.transform),
                flip_h: flips_h(s.transform),
                flip_v: flips_v(s.transform),
            },
        ),
        _ => None,
    }
}

/// The groups around the members of a shape.
pub open spec fn around(frames: Seq<GroupFrame>, s: Shape) -> Seq<GroupFrame> {
    match frame_of(s) {
        Some(f) => frames.push(f),
        None => frames,
    }
}

/// What a placement holds.
pub struct PlacementView {
    pub own: Option<(Offset<Emu>, Size<Emu>)>,
    pub rotation: i64,
    pub flip_h: bool,
    pub flip_v: bool,
    pub frames: Seq<GroupFrame>,
    pub is_group: bool,
    pub lacks_child_space: bool,
    pub zero_child_extent: bool,
}

impl View for Placement {
    type V = PlacementView;

    open spec fn view(&self) -> PlacementView {
        PlacementView {
            own: self.own,
            rotation: self.rotation,
            flip_h: self.flip_h,
            flip_v: self.flip_v,
            frames: self.frames@,
            is_group: self.is_group,
            lacks_child_space: self.lacks_child_space,
            zero_child_extent: self.zero_child_extent,
        }
    }
}

/// What placements hold.
pub open spec fn placement_views(p: Seq<Placement>) -> Seq<PlacementView> {
    p.map_values(|x: Placement| x@)
}

/// How a shape among groups is placed.
pub open spec fn placement_of(s: Shape, frames: Seq<GroupFrame>) -> PlacementView {
    PlacementView {
        own: box_of(s.transform),
        rotation: rotation_of(s.transform),
        flip_h: flips_h(s.transform),
        flip_v: flips_v(s.transform),
        frames,
        is_group: s.kind is Group,
        lacks_child_space: lacks_child_space(s),
        zero_child_extent: frame_of(s) is Some && is_flat(child_space(s).1),
    }
}

/// Whether a shape is a group with a box but no space of its own.
pub open spec fn lacks_child_space(s: Shape) -> bool {
    s.kind matches ShapeKind::Group(g) && box_of(s.transform) is Some && (g.child_offset is None
        || g.child_extent is None)
}

/// How a shape and everything in it are placed, each group before its members.
pub open spec fn placed(s: Shape, frames: Seq<GroupFrame>) -> Seq<PlacementView>
    decreases s,
{
    match s.kind {
        ShapeKind::Group(g) => seq![placement_of(s, frames)] + placed_all(
            g.children@,
            around(frames, s),
        ),
        _ => seq![placement_of(s, frames)],
    }
}

/// How shapes and everything in them are placed.
pub open spec fn placed_all(shapes: Seq<Shape>, frames: Seq<GroupFrame>) -> Seq<PlacementView>
    decreases shapes,
{
    if shapes.len() == 0 {
        Seq::empty()
    } else {
        placed_all(shapes.drop_last(), frames) + placed(shapes.last(), frames)
    }
}

/// The box that a transform states.
fn read_box(t: &Option<Transform2D>) -> (r: Option<(Offset<Emu>, Size<Emu>)>)
    ensures
        r == box_of(*t),
{
    match t {
        Some(x) => match (x.offset, x.extent) {
            (Some(o), Some(e)) => Some((o, e)),
            _ => None,
        },
        None => None,
    }
}

/// The rotation that a transform states.
fn read_rotation(t: &Option<Transform2D>) -> (r: i64)
    ensures
        r == rotation_of(*t),
{
    match t {
        Some(x) => match x.rotation {
            Some(r) => r.raw(),
            None => 0,
        },
        None => 0,
    }
}

/// Whether a transform mirrors from left to right, and from top to bottom.
fn read_flips(t: &Option<Transform2D>) -> (r: (bool, bool))
    ensures
        r == (flips_h(*t), flips_v(*t)),
{
    match t {
        Some(x) => {
            let h: bool = match x.flip_h {
                Some(b) => b,
                None => false,
            };
            let v: bool = match x.flip_v {
                Some(b) => b,
                None => false,
            };
            (h, v)
        },
        None => (false, false),
    }
}

/// A copy of a chain of groups.
fn copy_frames(frames: &Vec<GroupFrame>) -> (r: Vec<GroupFrame>)
    ensures
        r@ == frames@,
{
    let mut out: Vec<GroupFrame> = Vec::new();
    let mut i: usize = 0;
    while i < frames.len()
        invariant
            i <= frames@.len(),
            out@ == frames@.take(i as int),
        decreases frames@.len() - i,
    {
        out.push(frames[i]);
        assert(out@ =~= frames@.take(i + 1));
        i = i + 1;
    }
    assert(frames@.take(i as int) =~= frames@);
    out
}

/// What a shape does to the space of its members, and whether it lacks a space
/// of its own or has a flat one.
fn read_frame(s: &Shape) -> (r: (Option<GroupFrame>, bool, bool))
    ensures
        r.0 == frame_of(*s),
        r.1 == lacks_child_space(*s),
        r.2 == (frame_of(*s) is Some && is_flat(child_space(*s).1)),
{
    let g = match &s.kind {
        ShapeKind::Group(g) => g,
        _ => {
            return (None, false, false);
        },
    };
    let own: (Offset<Emu>, Size<Emu>) = match read_box(&s.transform) {
        Some(own) => own,
        None => {
            return (None, false, false);
        },
    };
    let mut lacks: bool = false;
    let space: (Offset<Emu>, Size<Emu>) = match (g.child_offset, g.child_extent) {
        (Some(o), Some(e)) => (o, e),
        _ => {
            lacks = true;
            own
        },
    };
    let flat: bool = space.1.width.raw() == 0 || space.1.height.raw() == 0;
    let (flip_h, flip_v): (bool, bool) = read_flips(&s.transform);
    let frame: GroupFrame = GroupFrame {
        offset: own.0,
        extent: own.1,
        child_offset: space.0,
        child_extent: if flat {
            None
        } else {
            Some(space.1)
        },
        rotation: read_rotation(&s.transform),
        flip_h,
        flip_v,
    };
    (Some(frame), lacks, flat)
}

/// Appends how a shape and everything in it are placed, each group before its
/// members.
fn compose(s: &Shape, frames: &Vec<GroupFrame>, out: &mut Vec<Placement>)
    ensures
        placement_views(final(out)@) == placement_views(old(out)@) + placed(*s, frames@),
    decreases s,
{
    let ghost before = placement_views(out@);
    let (frame, lacks_child_space, zero_child_extent): (Option<GroupFrame>, bool, bool) =
        read_frame(s);
    let (flip_h, flip_v): (bool, bool) = read_flips(&s.transform);
    let is_group: bool = match &s.kind {
        ShapeKind::Group(_) => true,
        _ => false,
    };
    let placement: Placement = Placement {
        own: read_box(&s.transform),
        rotation: read_rotation(&s.transform),
        flip_h,
        flip_v,
        frames: copy_frames(frames),
        is_group,
        lacks_child_space,
        zero_child_extent,
    };
    let ghost first = placement@;
    assert(first == placement_of(*s, frames@));
    out.push(placement);
    assert(placement_views(out@) =~= before + seq![first]);
    match &s.kind {
        ShapeKind::Group(g) => {
            let mut inner: Vec<GroupFrame> = copy_frames(frames);
            match frame {
                Some(f) => {
                    inner.push(f);
                },
                None => {},
            }
            assert(inner@ == around(frames@, *s));
            compose_all(&g.children, &inner, out);
            assert(before + seq![first] + placed_all(g.children@, inner@) =~= before + placed(
                *s,
                frames@,
            ));
        },
        _ => {},
    }
}

/// Appends how shapes and everything in them are placed.
fn compose_all(shapes: &Vec<Shape>, frames: &Vec<GroupFrame>, out: &mut Vec<Placement>)
    ensures
        placement_views(final(out)@) == placement_views(old(out)@) + placed_all(shapes@, frames@),
    decreases shapes,
{
    let ghost before = placement_views(out@);
    let mut i: usize = 0;
    assert(before + placed_all(shapes@.take(0), frames@) =~= before);
    while i < shapes.len()
        invariant
            i <= shapes@.len(),
            placement_views(out@) == before + placed_all(shapes@.take(i as int), frames@),
        decreases shapes@.len() - i,
    {
        assert(shapes@.take(i + 1).drop_last() =~= shapes@.take(i as int));
        compose(&shapes[i], frames, out);
        assert(placement_views(out@) =~= before + placed_all(shapes@.take(i + 1), frames@));
        i = i + 1;
    }
    assert(shapes@.take(i as int) =~= shapes@);
}

/// How the shapes of a slide and everything in them are placed, each group
/// before its members.
pub fn plan_slide_geometry(shapes: &Vec<Shape>) -> (r: Vec<Placement>)
    ensures
        placement_views(r@) == placed_all(shapes@, Seq::empty()),
{
    let mut out: Vec<Placement> = Vec::new();
    let frames: Vec<GroupFrame> = Vec::new();
    assert(placement_views(out@) =~= Seq::<PlacementView>::empty());
    compose_all(shapes, &frames, &mut out);
    assert(frames@ =~= Seq::<GroupFrame>::empty());
    assert(placement_views(out@) =~= placed_all(shapes@, Seq::empty()));
    out
}

/// There is one placement for every shape, and it states the shape's own box and
/// whether the shape is a group.
pub proof fn every_shape_is_placed(s: Shape, frames: Seq<GroupFrame>)
    ensures
        placed(s, frames).len() == preorder(s).len(),
        forall|i: int|
            0 <= i < placed(s, frames).len() ==> (#[trigger] placed(s, frames)[i]).own == box_of(
                preorder(s)[i].transform,
            ) && placed(s, frames)[i].is_group == (preorder(s)[i].kind is Group),
    decreases s,
{
    match s.kind {
        ShapeKind::Group(g) => {
            every_member_is_placed(g.children@, around(frames, s));
        },
        _ => {},
    }
}

/// There is one placement for every shape and everything in it, in the same
/// order.
pub proof fn every_member_is_placed(shapes: Seq<Shape>, frames: Seq<GroupFrame>)
    ensures
        placed_all(shapes, frames).len() == preorder_all(shapes).len(),
        forall|i: int|
            0 <= i < placed_all(shapes, frames).len() ==> (#[trigger] placed_all(
                shapes,
                frames,
            )[i]).own == box_of(preorder_all(shapes)[i].transform) && placed_all(
                shapes,
                frames,
            )[i].is_group == (preorder_all(shapes)[i].kind is Group),
    decreases shapes,
{
    if shapes.len() > 0 {
        every_member_is_placed(shapes.drop_last(), frames);
        every_shape_is_placed(shapes.last(), frames);
    }
}

/// What came of the shapes of a slide.
#[derive(Debug, Clone, Copy, PartialEq, Eq)]
pub struct GeometryStats {
    /// Shapes that have a place.
    pub positioned: usize,
    /// Shapes that declare no box.
    pub unpositioned: usize,
    pub groups: usize,
    /// Groups with a box but no space of their own.
    pub groups_without_child_space: usize,
    /// Groups whose space has no width or no height.
    pub groups_with_zero_child_extent: usize,
    /// Shapes whose place is only the nearest that can be said.
    pub skewed: usize,
}

/// How many of the first placements meet a test.
pub open spec fn tally(p: Seq<PlacementView>, test: spec_fn(PlacementView) -> bool) -> nat
    decreases p.len(),
{
    if p.len() == 0 {
        0
    } else {
        tally(p.drop_last(), test) + if test(p.last()) {
            1nat
        } else {
            0nat
        }
    }
}

/// How many of the places are skewed.
pub open spec fn skewed_in(rects: Seq<Option<SlideRect>>) -> nat
    decreases rects.len(),
{
    if rects.len() == 0 {
        0
    } else {
        skewed_in(rects.drop_last()) + match rects.last() {
            Some(r) => if r.skewed {
                1nat
            } else {
                0nat
            },
            None => 0nat,
        }
    }
}

/// Whether numbers tell what came of the shapes of a slide.
pub open spec fn tells(
    stats: GeometryStats,
    all: Seq<PlacementView>,
    rects: Seq<Option<SlideRect>>,
) -> bool {
    &&& stats.positioned == tally(all, |p: PlacementView| p.own is Some)
    &&& stats.unpositioned == tally(all, |p: PlacementView| p.own is None)
    &&& stats.groups == tally(all, |p: PlacementView| p.is_group)
    &&& stats.groups_without_child_space == tally(all, |p: PlacementView| p.lacks_child_space)
    &&& stats.groups_with_zero_child_extent == tally(all, |p: PlacementView| p.zero_child_extent)
    &&& stats.skewed == skewed_in(rects)
}

/// What came of the shapes of a slide, by how they are placed and where.
pub fn geometry_stats(placements: &Vec<Placement>, rects: &Vec<Option<SlideRect>>) -> (stats:
    GeometryStats)
    ensures
        tells(stats, placement_views(placements@), rects@),
{
    let ghost all = placement_views(placements@);
    let ghost own = |p: PlacementView| p.own is Some;
    let ghost unset = |p: PlacementView| p.own is None;
    let ghost group = |p: PlacementView| p.is_group;
    let ghost lacks = |p: PlacementView| p.lacks_child_space;
    let ghost zero = |p: PlacementView| p.zero_child_extent;
    let mut stats: GeometryStats = GeometryStats {
        positioned: 0,
        unpositioned: 0,
        groups: 0,
        groups_without_child_space: 0,
        groups_with_zero_child_extent: 0,
        skewed: 0,
    };
    let mut i: usize = 0;
    while i < placements.len()
        invariant
            all == placement_views(placements@),
            own == (|p: PlacementView| p.own is Some),
            unset == (|p: PlacementView| p.own is None),
            group == (|p: PlacementView| p.is_group),
            lacks == (|p: PlacementView| p.lacks_child_space),
            zero == (|p: PlacementView| p.zero_child_extent),
            i <= placements@.len(),
            stats.positioned == tally(all.take(i as int), own),
            stats.unpositioned == tally(all.take(i as int), unset),
            stats.groups == tally(all.take(i as int), group),
            stats.groups_without_child_space == tally(all.take(i as int), lacks),
            stats.groups_with_zero_child_extent == tally(all.take(i as int), zero),
            stats.positioned <= i,
            stats.unpositioned <= i,
            stats.groups <= i,
            stats.groups_without_child_space <= i,
            stats.groups_with_zero_child_extent <= i,
            stats.skewed == 0,
        decreases placements@.len() - i,
    {
        assert(all.take(i + 1).drop_last() =~= all.take(i as int));
        assert(all.take(i + 1).last() == placements@[i as int]@);
        let p: &Placement = &placements[i];
        if p.own.is_some() {
            stats.positioned = stats.positioned + 1;
        } else {
            stats.unpositioned = stats.unpositioned + 1;
        }
        if p.is_group {
            stats.groups = stats.groups + 1;
        }
        if p.lacks_child_space {
            stats.groups_without_child_space = stats.groups_without_child_space + 1;
        }
        if p.zero_child_extent {
            stats.groups_with_zero_child_extent = stats.groups_with_zero_child_extent + 1;
        }
        i = i + 1;
    }
    assert(all.take(i as int) =~= all);
    stats.skewed = count_skewed(rects);
    stats
}

/// How many of the places are skewed.
fn count_skewed(rects: &Vec<Option<SlideRect>>) -> (n: usize)
    ensures
        n == skewed_in(rects@),
{
    let mut n: usize = 0;
    let mut i: usize = 0;
    while i < rects.len()
        invariant
            i <= rects@.len(),
            n <= i,
            n == skewed_in(rects@.take(i as int)),
        decreases rects@.len() - i,
    {
        assert(rects@.take(i + 1).drop_last() =~= rects@.take(i as int));
        match rects[i] {
            Some(r) => {
                if r.skewed {
                    n = n + 1;
                }
            },
            None => {},
        }
        i = i + 1;
    }
    assert(rects@.take(i as int) =~= rects@);
    n
}

/// Whether a shape and everything in it differ from before in their places
/// alone, which are those from `k` on, each group's before its members'.
pub open spec fn only_placed(
    before: Shape,
    after: Shape,
    rects: Seq<Option<SlideRect>>,
    k: int,
) -> bool
    decreases before,
{
    &&& after.slide_rect == rects[k]
    &&& after.non_visual == before.non_visual
    &&& after.placeholder == before.placeholder
    &&& after.transform == before.transform
    &&& after.transform_inherited == before.transform_inherited
    &&& after.style == before.style
    &&& match before.kind {
        ShapeKind::Group(b) => match after.kind {
            ShapeKind::Group(a) => {
                &&& a.fill == b.fill
                &&& a.child_offset == b.child_offset
                &&& a.child_extent == b.child_extent
                &&& only_all_placed(b.children@, a.children@, rects, k + 1)
            },
            _ => false,
        },
        _ => after.kind == before.kind,
    }
}

/// Whether shapes and everything in them differ from before in their places
/// alone, which are those from `k` on.
pub open spec fn only_all_placed(
    before: Seq<Shape>,
    after: Seq<Shape>,
    rects: Seq<Option<SlideRect>>,
    k: int,
) -> bool
    decreases before,
{
    if before.len() == 0 {
        after.len() == 0
    } else {
        &&& after.len() == before.len()
        &&& only_all_placed(before.drop_last(), after.drop_last(), rects, k)
        &&& only_placed(
            before.last(),
            after.last(),
            rects,
            k + preorder_all(before.drop_last()).len(),
        )
    }
}

/// Writes the places from `k` on into a shape and everything in it, and gives
/// the number behind the last of them.
fn write_places(shape: &mut Shape, rects: &Vec<Option<SlideRect>>, k: usize) -> (next: usize)
    requires
        k + preorder(*old(shape)).len() <= rects@.len(),
    ensures
        only_placed(*old(shape), *final(shape), rects@, k as int),
        next == k + preorder(*old(shape)).len(),
    decreases *old(shape),
{
    assert(k < rects.len());
    shape.slide_rect = rects[k];
    match &mut shape.kind {
        ShapeKind::Group(g) => write_all_places(&mut g.children, rects, k + 1),
        _ => k + 1,
    }
}

/// Writes the places from `k` on into shapes and everything in them.
fn write_all_places(shapes: &mut Vec<Shape>, rects: &Vec<Option<SlideRect>>, k: usize) -> (next:
    usize)
    requires
        k + preorder_all(old(shapes)@).len() <= rects@.len(),
    ensures
        only_all_placed(old(shapes)@, final(shapes)@, rects@, k as int),
        next == k + preorder_all(old(shapes)@).len(),
    decreases *old(shapes),
{
    let ghost before = shapes@;
    let mut next: usize = k;
    let mut i: usize = 0;
    while i < shapes.len()
        invariant
            before == old(shapes)@,
            shapes@.len() == before.len(),
            i <= before.len(),
            k + preorder_all(before).len() <= rects@.len(),
            next == k + preorder_all(before.take(i as int)).len(),
            only_all_placed(before.take(i as int), shapes@.take(i as int), rects@, k as int),
            forall|j: int| i <= j < before.len() ==> #[trigger] shapes@[j] == before[j],
        decreases before.len() - i,
    {
        proof {
            assert(before.take(i + 1).drop_last() =~= before.take(i as int));
            prefix_is_shorter(before, i + 1);
        }
        let ghost held = shapes@;
        next = write_places(&mut shapes[i], rects, next);
        proof {
            assert(shapes@.take(i + 1).drop_last() =~= held.take(i as int));
            assert(before.take(i + 1).last() == before[i as int]);
        }
        i = i + 1;
    }
    assert(before.take(i as int) =~= before);
    assert(shapes@.take(i as int) =~= shapes@);
    next
}

proof fn prefix_is_shorter(shapes: Seq<Shape>, n: int)
    requires
        0 <= n <= shapes.len(),
    ensures
        preorder_all(shapes.take(n)).len() <= preorder_all(shapes).len(),
    decreases shapes.len() - n,
{
    if n == shapes.len() {
        assert(shapes.take(n) =~= shapes);
    } else {
        prefix_is_shorter(shapes, n + 1);
        assert(shapes.take(n + 1).drop_last() =~= shapes.take(n));
    }
}

/// Writes places into the shapes of a slide and everything in them, each group's
/// before its members', and tells what came of them. Nothing else changes.
pub(crate) fn write_slide_places(shapes: &mut Vec<Shape>, rects: &Vec<Option<SlideRect>>) -> (stats:
    GeometryStats)
    requires
        rects@.len() == preorder_all(old(shapes)@).len(),
    ensures
        only_all_placed(old(shapes)@, final(shapes)@, rects@, 0),
        tells(stats, placed_all(old(shapes)@, Seq::empty()), rects@),
{
    let placements: Vec<Placement> = plan_slide_geometry(shapes);
    let stats: GeometryStats = geometry_stats(&placements, rects);
    let _ = write_all_places(shapes, rects, 0);
    stats
}

/// The place of a shape. A shape without a box has none. Where the place can be
/// told exactly it is that. Otherwise a group around the shape is turned
/// obliquely, and the place is the one that was worked out for it, turned as the
/// angles around the shape say where those can be told.
pub open spec fn settled(p: PlacementView, worked_out: SlideRect) -> Option<SlideRect> {
    if p.own is None {
        None
    } else if can_place(p) {
        place_of(p)
    } else if all_scale_alike(p.frames) {
        let turn = turn_in_groups(p);
        Some(
            SlideRect {
                rect: worked_out.rect,
                rotation: units(turn.rotation),
                flip_h: turn.flip_h,
                flip_v: turn.flip_v,
                skewed: false,
            },
        )
    } else {
        Some(
            SlideRect {
                rotation: units(within_turn(worked_out.rotation.value as int) as i64),
                flip_h: p.flip_h,
                ..worked_out
            },
        )
    }
}

/// The places of shapes.
pub open spec fn all_settled(p: Seq<PlacementView>, worked_out: Seq<SlideRect>) -> Seq<
    Option<SlideRect>,
> {
    Seq::new(p.len(), |i: int| settled(p[i], worked_out[i]))
}

/// The place of a shape.
fn settle(p: &Placement, worked_out: SlideRect) -> (r: Option<SlideRect>)
    ensures
        r == settled(p@, worked_out),
{
    if p.own.is_none() {
        return None;
    }
    match place_upright(p) {
        Some(place) => place,
        None => match turn_on_slide(p) {
            Some(turn) => Some(
                SlideRect {
                    rect: worked_out.rect,
                    rotation: Dimension::new(turn.rotation),
                    flip_h: turn.flip_h,
                    flip_v: turn.flip_v,
                    skewed: false,
                },
            ),
            None => Some(
                SlideRect {
                    rect: worked_out.rect,
                    rotation: Dimension::new(normalize_angle(worked_out.rotation.raw())),
                    flip_h: p.flip_h,
                    flip_v: worked_out.flip_v,
                    skewed: worked_out.skewed,
                },
            ),
        },
    }
}

/// The places of shapes.
fn settle_all(placements: &Vec<Placement>, worked_out: &Vec<SlideRect>) -> (r: Vec<
    Option<SlideRect>,
>)
    requires
        worked_out@.len() == placements@.len(),
    ensures
        r@ == all_settled(placement_views(placements@), worked_out@),
{
    let ghost all = all_settled(placement_views(placements@), worked_out@);
    let mut out: Vec<Option<SlideRect>> = Vec::new();
    let mut i: usize = 0;
    while i < placements.len()
        invariant
            worked_out@.len() == placements@.len(),
            all == all_settled(placement_views(placements@), worked_out@),
            i <= placements@.len(),
            out@ == all.take(i as int),
        decreases placements@.len() - i,
    {
        out.push(settle(&placements[i], worked_out[i]));
        assert(out@ =~= all.take(i + 1));
        i = i + 1;
    }
    assert(all.take(i as int) =~= all);
    out
}

/// How many shapes have a place.
pub open spec fn places_in(shapes: Seq<Shape>) -> nat
    decreases shapes.len(),
{
    if shapes.len() == 0 {
        0
    } else {
        places_in(shapes.drop_last()) + if shapes.last().slide_rect is Some {
            1nat
        } else {
            0nat
        }
    }
}

/// How many shapes are groups.
pub open spec fn groups_in(shapes: Seq<Shape>) -> nat
    decreases shapes.len(),
{
    if shapes.len() == 0 {
        0
    } else {
        groups_in(shapes.drop_last()) + if shapes.last().kind is Group {
            1nat
        } else {
            0nat
        }
    }
}

/// Whether a shape has a place exactly where it states a box, turned by less than
/// a full turn.
pub open spec fn stands_well(s: Shape) -> bool {
    &&& s.slide_rect is Some <==> box_of(s.transform) is Some
    &&& s.slide_rect matches Some(r) ==> 0 <= r.rotation.value < FULL_TURN
}

/// Places the shapes of a slide and everything in them, and tells what came of
/// them. Nothing else changes. `worked_out` names for every shape, each group
/// before its members, the place that it has where a group around it is turned
/// obliquely, so that its place takes a sine and a cosine; for all others it is
/// not looked at.
pub fn apply_slide_geometry(shapes: &mut Vec<Shape>, worked_out: &Vec<SlideRect>) -> (stats:
    GeometryStats)
    requires
        worked_out@.len() == preorder_all(old(shapes)@).len(),
    ensures
        only_all_placed(
            old(shapes)@,
            final(shapes)@,
            all_settled(placed_all(old(shapes)@, Seq::empty()), worked_out@),
            0,
        ),
        tells(
            stats,
            placed_all(old(shapes)@, Seq::empty()),
            all_settled(placed_all(old(shapes)@, Seq::empty()), worked_out@),
        ),
        forall|i: int|
            0 <= i < preorder_all(final(shapes)@).len() ==> stands_well(
                #[trigger] preorder_all(final(shapes)@)[i],
            ),
        stats.positioned == places_in(preorder_all(final(shapes)@)),
        stats.positioned + stats.unpositioned == preorder_all(final(shapes)@).len(),
        stats.groups == groups_in(preorder_all(final(shapes)@)),
{
    let ghost before = shapes@;
    let placements: Vec<Placement> = plan_slide_geometry(shapes);
    proof {
        every_member_is_placed(before, Seq::empty());
    }
    let rects: Vec<Option<SlideRect>> = settle_all(&placements, worked_out);
    let stats: GeometryStats = write_slide_places(shapes, &rects);
    proof {
        shapes_stand_well(before, shapes@, worked_out@);
    }
    stats
}

/// Whether two shapes declare the same transform, and both are groups or neither.
spec fn alike(a: Shape, b: Shape) -> bool {
    a.transform == b.transform && a.kind is Group == b.kind is Group
}

/// What was written stands in the shapes, in order, and their transforms stay.
proof fn places_stand_in_order(
    before: Seq<Shape>,
    after: Seq<Shape>,
    rects: Seq<Option<SlideRect>>,
    k: int,
)
    requires
        only_all_placed(before, after, rects, k),
    ensures
        preorder_all(after).len() == preorder_all(before).len(),
        forall|i: int|
            0 <= i < preorder_all(after).len() ==> (#[trigger] preorder_all(after)[i]).slide_rect
                == rects[k + i] && alike(preorder_all(before)[i], preorder_all(after)[i]),
    decreases before,
{
    if before.len() > 0 {
        let b = before.drop_last();
        let a = after.drop_last();
        let n = preorder_all(b).len();
        places_stand_in_order(b, a, rects, k);
        a_place_stands_in_order(before.last(), after.last(), rects, k + n);
        let all = preorder_all(after);
        assert(all == preorder_all(a) + preorder(after.last()));
        assert forall|i: int| 0 <= i < all.len() implies (#[trigger] all[i]).slide_rect == rects[k
            + i] && alike(preorder_all(before)[i], all[i]) by {
            if i < n {
                assert(all[i] == preorder_all(a)[i]);
                assert(preorder_all(before)[i] == preorder_all(b)[i]);
            } else {
                assert(all[i] == preorder(after.last())[i - n]);
                assert(preorder_all(before)[i] == preorder(before.last())[i - n]);
            }
        }
    }
}

/// What was written stands in a shape and everything in it, in order.
proof fn a_place_stands_in_order(
    before: Shape,
    after: Shape,
    rects: Seq<Option<SlideRect>>,
    k: int,
)
    requires
        only_placed(before, after, rects, k),
    ensures
        preorder(after).len() == preorder(before).len(),
        forall|i: int|
            0 <= i < preorder(after).len() ==> (#[trigger] preorder(after)[i]).slide_rect == rects[k
                + i] && alike(preorder(before)[i], preorder(after)[i]),
    decreases before,
{
    match before.kind {
        ShapeKind::Group(b) => match after.kind {
            ShapeKind::Group(a) => {
                places_stand_in_order(b.children@, a.children@, rects, k + 1);
                let all = preorder(after);
                assert(all == seq![after] + preorder_all(a.children@));
                assert forall|i: int| 0 <= i < all.len() implies (#[trigger] all[i]).slide_rect
                    == rects[k + i] && alike(preorder(before)[i], all[i]) by {
                    if i > 0 {
                        assert(all[i] == preorder_all(a.children@)[i - 1]);
                        assert(preorder(before)[i] == preorder_all(b.children@)[i - 1]);
                        assert(k + i == k + 1 + (i - 1));
                    }
                }
            },
            _ => {},
        },
        _ => {},
    }
}

/// As many shapes state a box as have a place, and every other states none.
proof fn boxes_are_counted(p: Seq<PlacementView>, shapes: Seq<Shape>)
    requires
        p.len() == shapes.len(),
        forall|i: int|
            0 <= i < p.len() ==> ((#[trigger] p[i]).own is Some <==> shapes[i].slide_rect is Some)
                && p[i].is_group == (shapes[i].kind is Group),
    ensures
        tally(p, |x: PlacementView| x.is_group) == groups_in(shapes),
        tally(p, |x: PlacementView| x.own is Some) == places_in(shapes),
        tally(p, |x: PlacementView| x.own is Some) + tally(p, |x: PlacementView| x.own is None)
            == p.len(),
    decreases p.len(),
{
    if p.len() > 0 {
        let q = p.drop_last();
        let rest = shapes.drop_last();
        assert forall|i: int| 0 <= i < q.len() implies ((#[trigger] q[i]).own is Some
            <==> rest[i].slide_rect is Some) && q[i].is_group == (rest[i].kind is Group) by {
            assert(q[i] == p[i]);
        }
        boxes_are_counted(q, rest);
        assert(p[p.len() - 1] == p.last());
    }
}

/// Shapes that were placed have a place exactly where they state a box.
proof fn shapes_stand_well(before: Seq<Shape>, after: Seq<Shape>, worked_out: Seq<SlideRect>)
    requires
        only_all_placed(
            before,
            after,
            all_settled(placed_all(before, Seq::empty()), worked_out),
            0,
        ),
    ensures
        forall|i: int|
            0 <= i < preorder_all(after).len() ==> stands_well(#[trigger] preorder_all(after)[i]),
        preorder_all(after).len() == placed_all(before, Seq::empty()).len(),
        tally(placed_all(before, Seq::empty()), |x: PlacementView| x.is_group) == groups_in(
            preorder_all(after),
        ),
        tally(placed_all(before, Seq::empty()), |x: PlacementView| x.own is Some) == places_in(
            preorder_all(after),
        ),
        tally(placed_all(before, Seq::empty()), |x: PlacementView| x.own is Some) + tally(
            placed_all(before, Seq::empty()),
            |x: PlacementView| x.own is None,
        ) == preorder_all(after).len(),
{
    let plan = placed_all(before, Seq::empty());
    let rects = all_settled(plan, worked_out);
    every_member_is_placed(before, Seq::empty());
    places_stand_in_order(before, after, rects, 0);
    let all = preorder_all(after);
    assert forall|i: int| 0 <= i < all.len() implies stands_well(#[trigger] all[i]) && (
    plan[i].own is Some <==> all[i].slide_rect is Some) && plan[i].is_group == (
    all[i].kind is Group) by {
        assert(all[i].slide_rect == rects[0 + i]);
        assert(plan[i].own == box_of(preorder_all(before)[i].transform));
    }
    boxes_are_counted(plan, all);
}

/// How shapes are placed does not depend on places that were written before.
proof fn a_plan_stays(
    before: Seq<Shape>,
    after: Seq<Shape>,
    rects: Seq<Option<SlideRect>>,
    k: int,
    frames: Seq<GroupFrame>,
)
    requires
        only_all_placed(before, after, rects, k),
    ensures
        placed_all(after, frames) == placed_all(before, frames),
    decreases before,
{
    if before.len() > 0 {
        let n = preorder_all(before.drop_last()).len();
        a_plan_stays(before.drop_last(), after.drop_last(), rects, k, frames);
        a_placement_stays(before.last(), after.last(), rects, k + n, frames);
    }
}

/// How a shape is placed does not depend on places that were written before.
proof fn a_placement_stays(
    before: Shape,
    after: Shape,
    rects: Seq<Option<SlideRect>>,
    k: int,
    frames: Seq<GroupFrame>,
)
    requires
        only_placed(before, after, rects, k),
    ensures
        placed(after, frames) == placed(before, frames),
    decreases before,
{
    match before.kind {
        ShapeKind::Group(b) => match after.kind {
            ShapeKind::Group(a) => {
                assert(frame_of(after) == frame_of(before));
                assert(placement_of(after, frames) == placement_of(before, frames));
                a_plan_stays(
                    b.children@,
                    a.children@,
                    rects,
                    k + 1,
                    around(frames, before),
                );
            },
            _ => {},
        },
        _ => {
            assert(placement_of(after, frames) == placement_of(before, frames));
        },
    }
}

/// To place shapes again changes nothing: what is mapped is what they declare,
/// never a place that they were given before. The plan stays, every shape keeps
/// its place, and the same is told.
pub proof fn placing_again_changes_nothing(
    before: Seq<Shape>,
    after: Seq<Shape>,
    again: Seq<Shape>,
    worked_out: Seq<SlideRect>,
    first: GeometryStats,
    second: GeometryStats,
)
    requires
        only_all_placed(
            before,
            after,
            all_settled(placed_all(before, Seq::empty()), worked_out),
            0,
        ),
        tells(
            first,
            placed_all(before, Seq::empty()),
            all_settled(placed_all(before, Seq::empty()), worked_out),
        ),
        only_all_placed(
            after,
            again,
            all_settled(placed_all(after, Seq::empty()), worked_out),
            0,
        ),
        tells(
            second,
            placed_all(after, Seq::empty()),
            all_settled(placed_all(after, Seq::empty()), worked_out),
        ),
    ensures
        placed_all(after, Seq::empty()) == placed_all(before, Seq::empty()),
        second == first,
        preorder_all(again).len() == preorder_all(after).len(),
        forall|i: int|
            0 <= i < preorder_all(after).len() ==> (#[trigger] preorder_all(again)[i]).slide_rect
                == preorder_all(after)[i].slide_rect,
{
    let rects = all_settled(placed_all(before, Seq::empty()), worked_out);
    a_plan_stays(before, after, rects, 0, Seq::empty());
    places_stand_in_order(before, after, rects, 0);
    places_stand_in_order(after, again, rects, 0);
    assert forall|i: int| 0 <= i < preorder_all(after).len() implies (#[trigger] preorder_all(
        again,
    )[i]).slide_rect == preorder_all(after)[i].slide_rect by {
        assert(preorder_all(again)[i].slide_rect == rects[0 + i]);
        assert(preorder_all(after)[i].slide_rect == rects[0 + i]);
    }
}

} // verus!
