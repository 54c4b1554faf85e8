//! How the places of shapes are written into them.
use vstd::prelude::*;

use crate::pptx::geometry::{
    all_settled, apply_slide_geometry, only_all_placed, only_placed, placed, placed_all,
    placement_of, placement_views, plan_slide_geometry, GeometryStats, GroupFrame, Placement,
    PlacementView,
};
use crate::pptx::shapes::{preorder, preorder_all, Shape, ShapeKind, SlideRect};
use crate::pptx::turning::{turn_on_slide, Turn};
use crate::pptx::upright::{apply_upright_geometry, place_upright, places_of};

verus! {

/// Whether a placement is of a shape that stands in groups: it has the shape's
/// own box where the shape states both its corner and its size, the shape's own
/// angle and flips, and those groups.
pub open spec fn is_of(p: PlacementView, s: Shape, frames: Seq<GroupFrame>) -> bool {
    &&& p.frames == frames
    &&& p.is_group == (s.kind is Group)
    &&& s.transform is None ==> p.own is None && p.rotation == 0 && !p.flip_h && !p.flip_v
    &&& s.transform matches Some(t) ==> {
        &&& t.offset is None || t.extent is None ==> p.own is None
        &&& t.offset is Some && t.extent is Some ==> p.own == Some((t.offset->0, t.extent->0))
        &&& t.rotation matches Some(r) ==> p.rotation == r.value
        &&& t.rotation is None ==> p.rotation == 0
        &&& p.flip_h == (t.flip_h == Some(true))
        &&& p.flip_v == (t.flip_v == Some(true))
    }
}

/// Whether a frame is what a group does to its members: it takes the space that
/// the group states, or else the group's own box, onto its box. A space without
/// width or height is not scaled.
pub open spec fn is_frame(f: GroupFrame, s: Shape) -> bool {
    &&& s.transform matches Some(t) && t.offset == Some(f.offset) && t.extent == Some(f.extent) && (
    match t.rotation {
        Some(r) => f.rotation == r.value,
        None => f.rotation == 0,
    }) && f.flip_h == (t.flip_h == Some(true)) && f.flip_v == (t.flip_v == Some(true))
    &&& s.kind matches ShapeKind::Group(g) && {
        let (origin, extent) = if g.child_offset is Some && g.child_extent is Some {
            (g.child_offset->0, g.child_extent->0)
        } else {
            (f.offset, f.extent)
        };
        &&& f.child_offset == origin
        &&& extent.width.value == 0 || extent.height.value == 0 ==> f.child_extent is None
        &&& extent.width.value != 0 && extent.height.value != 0 ==> f.child_extent == Some(extent)
    }
}

/// A plan has a shape before its members. The members of a group with a box stand
/// in that group inside of all the groups around it; a group without a box does
/// nothing to its members.
pub proof fn how_a_shape_is_planned(s: Shape, frames: Seq<GroupFrame>)
    ensures
        placed(s, frames).len() > 0,
        is_of(placed(s, frames)[0], s, frames),
        !(s.kind is Group) ==> placed(s, frames).len() == 1,
        s.kind matches ShapeKind::Group(g) ==> {
            let boxed = s.transform is Some && (s.transform->0).offset is Some && (
            s.transform->0).extent is Some;
            let lacking = g.child_offset is None || g.child_extent is None;
            &&& !boxed ==> placed(s, frames).skip(1) == placed_all(g.children@, frames)
            &&& boxed ==> exists|f: GroupFrame| #[trigger]
                is_frame(f, s) && placed(s, frames).skip(1) == placed_all(
                    g.children@,
                    frames.push(f),
                )
            &&& placed(s, frames)[0].lacks_child_space == (boxed && lacking)
        },
        !(s.kind is Group) ==> !placed(s, frames)[0].lacks_child_space && !placed(s, frames)[0].zero_child_extent,
{
    if let ShapeKind::Group(g) = s.kind {
        let inner = crate::pptx::geometry::around(frames, s);
        assert(placed(s, frames).skip(1) =~= placed_all(g.children@, inner));
        if let Some(f) = crate::pptx::geometry::frame_of(s) {
            assert(is_frame(f, s));
        }
    }
}

/// A plan has shapes in their order.
pub proof fn a_plan_has_shapes_in_order(
    few: &Vec<Shape>,
    many: &Vec<Shape>,
    s: Shape,
    a: Vec<Placement>,
    b: Vec<Placement>,
)
    requires
        call_ensures(plan_slide_geometry, (few,), a),
        call_ensures(plan_slide_geometry, (many,), b),
        many@ == few@.push(s),
    ensures
        placement_views(b@) == placement_views(a@) + placed(s, Seq::empty()),
        few@.len() == 0 ==> a@.len() == 0,
{
    assert(many@.drop_last() =~= few@);
    assert(placement_views(a@).len() == a@.len());
}

/// The members of a list are planned one behind the other.
pub proof fn members_are_planned_in_order(shapes: Seq<Shape>, s: Shape, frames: Seq<GroupFrame>)
    ensures
        placed_all(shapes.push(s), frames) == placed_all(shapes, frames) + placed(s, frames),
        placed_all(Seq::<Shape>::empty(), frames).len() == 0,
{
    assert(shapes.push(s).drop_last() =~= shapes);
}

/// Where the plan of a shape stands in the plan of its list.
proof fn a_plan_in_a_plan(shapes: Seq<Shape>, frames: Seq<GroupFrame>, i: int, j: int)
    requires
        0 <= i < shapes.len(),
        0 <= j < placed(shapes[i], frames).len(),
    ensures
        ({
            let at = preorder_all(shapes.take(i)).len() + j;
            &&& at < placed_all(shapes, frames).len()
            &&& placed_all(shapes, frames)[at] == placed(shapes[i], frames)[j]
        }),
    decreases shapes.len(),
{
    crate::pptx::geometry::every_member_is_placed(shapes.drop_last(), frames);
    if i == shapes.len() - 1 {
        assert(shapes.take(i) =~= shapes.drop_last());
    } else {
        let rest = shapes.drop_last();
        assert(rest.take(i) =~= shapes.take(i));
        a_plan_in_a_plan(rest, frames, i, j);
    }
}

/// What is written into a list is written into each of its shapes.
proof fn what_is_written_into_one(
    before: Seq<Shape>,
    after: Seq<Shape>,
    rects: Seq<Option<SlideRect>>,
    k: int,
    i: int,
)
    requires
        only_all_placed(before, after, rects, k),
        0 <= i < before.len(),
    ensures
        after.len() == before.len(),
        only_placed(before[i], after[i], rects, k + preorder_all(before.take(i)).len()),
    decreases before.len(),
{
    if i == before.len() - 1 {
        assert(before.take(i) =~= before.drop_last());
    } else {
        what_is_written_into_one(before.drop_last(), after.drop_last(), rects, k, i);
        assert(before.drop_last().take(i) =~= before.take(i));
        assert(after.drop_last()[i] == after[i]);
    }
}

/// Whether a shape is another with another place, and is otherwise unchanged but
/// for the places of its members.
pub open spec fn is_but_placed(a: Shape, b: Shape) -> bool {
    &&& b.non_visual == a.non_visual
    &&& b.placeholder == a.placeholder
    &&& b.transform == a.transform
    &&& b.transform_inherited == a.transform_inherited
    &&& b.style == a.style
    &&& !(a.kind is Group) ==> b.kind == a.kind
    &&& a.kind matches ShapeKind::Group(g) ==> (b.kind matches ShapeKind::Group(h) && h.fill
        == g.fill && h.child_offset == g.child_offset && h.child_extent == g.child_extent
        && h.children@.len() == g.children@.len())
}

proof fn members_stay(
    before: Seq<Shape>,
    after: Seq<Shape>,
    rects: Seq<Option<SlideRect>>,
    k: int,
)
    requires
        only_all_placed(before, after, rects, k),
    ensures
        after.len() == before.len(),
{
}

/// Every shape of a slide gets the place that is worked out for it alone, and
/// nothing else of it changes.
pub proof fn every_shape_gets_its_place(
    shapes: &mut Vec<Shape>,
    stats: Option<GeometryStats>,
    i: int,
    p: &Placement,
    r: Option<Option<SlideRect>>,
)
    requires
        call_ensures(apply_upright_geometry, (shapes,), stats),
        0 <= i < old(shapes)@.len(),
        p@ == placement_of(old(shapes)@[i], Seq::empty()),
        call_ensures(place_upright, (p,), r),
    ensures
        stats is None ==> final(shapes)@ == old(shapes)@,
        stats is Some ==> {
            &&& final(shapes)@.len() == old(shapes)@.len()
            &&& is_but_placed(old(shapes)@[i], final(shapes)@[i])
            &&& r == Some(final(shapes)@[i].slide_rect)
        },
        is_of(p@, old(shapes)@[i], Seq::empty()),
{
    if stats is Some {
        let before = old(shapes)@;
        let after = final(shapes)@;
        let plan = placed_all(before, Seq::empty());
        let rects = places_of(plan);
        what_is_written_into_one(before, after, rects, 0, i);
        a_plan_in_a_plan(before, Seq::empty(), i, 0);
        let at = preorder_all(before.take(i)).len() as int;
        assert(rects[at] == crate::pptx::upright::place_of(plan[at]));
        assert(crate::pptx::upright::can_place(plan[at]));
        if let ShapeKind::Group(g) = before[i].kind {
            if let ShapeKind::Group(h) = after[i].kind {
                members_stay(g.children@, h.children@, rects, at + 1);
            }
        }
    }
}

/// Every member of a group of a slide gets the place that is worked out for it in
/// that group.
pub proof fn every_member_gets_its_place(
    shapes: &mut Vec<Shape>,
    stats: Option<GeometryStats>,
    i: int,
    k: int,
    f: GroupFrame,
    p: &Placement,
    r: Option<Option<SlideRect>>,
)
    requires
        call_ensures(apply_upright_geometry, (shapes,), stats),
        0 <= i < old(shapes)@.len(),
        is_frame(f, old(shapes)@[i]),
        old(shapes)@[i].kind matches ShapeKind::Group(g) && 0 <= k < g.children@.len() && p@
            == placement_of(g.children@[k], seq![f]),
        call_ensures(place_upright, (p,), r),
    ensures
        stats is Some ==> (final(shapes)@[i].kind matches ShapeKind::Group(h)
            && old(shapes)@[i].kind matches ShapeKind::Group(g) && is_but_placed(
            g.children@[k],
            h.children@[k],
        ) && r == Some(h.children@[k].slide_rect)),
        old(shapes)@[i].kind matches ShapeKind::Group(g) && is_of(p@, g.children@[k], seq![f]),
{
    let before = old(shapes)@;
    let s = before[i];
    let g = s.kind->Group_0;
    assert(crate::pptx::geometry::frame_of(s) == Some(f));
    assert(crate::pptx::geometry::around(Seq::empty(), s) =~= seq![f]);
    if stats is Some {
        let after = final(shapes)@;
        let plan = placed_all(before, Seq::empty());
        let rects = places_of(plan);
        what_is_written_into_one(before, after, rects, 0, i);
        let at = preorder_all(before.take(i)).len() as int;
        let h = after[i].kind->Group_0;
        what_is_written_into_one(g.children@, h.children@, rects, at + 1, k);
        let deep = preorder_all(g.children@.take(k)).len() as int;
        a_plan_in_a_plan(g.children@, seq![f], k, 0);
        assert(placed(s, Seq::empty()) == seq![placement_of(s, Seq::empty())] + placed_all(
            g.children@,
            seq![f],
        ));
        assert(placed(s, Seq::empty())[1 + deep] == placed_all(g.children@, seq![f])[deep]);
        a_plan_in_a_plan(before, Seq::empty(), i, 1 + deep);
        assert(at + 1 + deep == at + (1 + deep));
        assert(rects[at + 1 + deep] == crate::pptx::upright::place_of(plan[at + 1 + deep]));
        assert(crate::pptx::upright::can_place(plan[at + 1 + deep]));
        if let ShapeKind::Group(x) = g.children@[k].kind {
            if let ShapeKind::Group(y) = h.children@[k].kind {
                members_stay(x.children@, y.children@, rects, at + 1 + deep + 1);
            }
        }
    }
}

/// Where places are worked out for what stands obliquely, every shape whose place
/// can be told exactly has that place all the same; a shape without a box has
/// none. Any other has the box that was worked out for it, turned as the groups
/// around it say where that can be told.
pub proof fn exact_places_come_first(
    shapes: &mut Vec<Shape>,
    worked_out: &Vec<SlideRect>,
    stats: GeometryStats,
    i: int,
    p: &Placement,
    r: Option<Option<SlideRect>>,
    t: Option<Turn>,
)
    requires
        worked_out@.len() == preorder_all(old(shapes)@).len(),
        call_ensures(apply_slide_geometry, (shapes, worked_out), stats),
        0 <= i < old(shapes)@.len(),
        p@ == placement_of(old(shapes)@[i], Seq::empty()),
        call_ensures(place_upright, (p,), r),
        call_ensures(turn_on_slide, (p,), t),
    ensures
        final(shapes)@.len() == old(shapes)@.len(),
        is_but_placed(old(shapes)@[i], final(shapes)@[i]),
        p.own is None ==> final(shapes)@[i].slide_rect is None,
        p.own is Some ==> (r matches Some(place) ==> final(shapes)@[i].slide_rect == place),
        p.own is Some && r is None ==> (final(shapes)@[i].slide_rect matches Some(s) && {
            let w = worked_out@[preorder_all(old(shapes)@.take(i)).len() as int];
            &&& s.rect == w.rect
            &&& s.flip_h == p.flip_h
            &&& t matches Some(turn) ==> s.rotation.value == turn.rotation && s.flip_v
                == turn.flip_v && !s.skewed
            &&& t is None ==> (s.rotation.value - w.rotation.value) % 21_600_000 == 0 && s.flip_v
                == w.flip_v && s.skewed == w.skewed
            &&& 0 <= s.rotation.value < 21_600_000
        }),
{
    let before = old(shapes)@;
    let after = final(shapes)@;
    let plan = placed_all(before, Seq::empty());
    let rects = all_settled(plan, worked_out@);
    crate::pptx::geometry::every_member_is_placed(before, Seq::empty());
    what_is_written_into_one(before, after, rects, 0, i);
    a_plan_in_a_plan(before, Seq::empty(), i, 0);
    let at = preorder_all(before.take(i)).len() as int;
    assert(rects[at] == crate::pptx::geometry::settled(plan[at], worked_out@[at]));
    if let ShapeKind::Group(g) = before[i].kind {
        if let ShapeKind::Group(h) = after[i].kind {
            members_stay(g.children@, h.children@, rects, at + 1);
        }
    }
}

/// How many placements of a plan meet a test.
pub open spec fn so_many(all: Seq<PlacementView>, test: spec_fn(PlacementView) -> bool) -> int {
    all.filter(test).len() as int
}

proof fn tallies_count(all: Seq<PlacementView>, test: spec_fn(PlacementView) -> bool)
    ensures
        crate::pptx::geometry::tally(all, test) == so_many(all, test),
    decreases all.len(),
{
    reveal(Seq::filter);
    if all.len() > 0 {
        tallies_count(all.drop_last(), test);
    }
}

/// What is told of a slide counts its shapes with a box and those without, its
/// groups, those of them that lack a space of their own, and those whose space
/// has no width or no height.
pub proof fn what_is_told_of_a_slide(shapes: &mut Vec<Shape>, stats: GeometryStats, plan: Vec<Placement>)
    requires
        call_ensures(apply_upright_geometry, (shapes,), Some(stats)),
        call_ensures(plan_slide_geometry, (&*old(shapes),), plan),
    ensures
        stats.positioned == so_many(placement_views(plan@), |p: PlacementView| p.own is Some),
        stats.unpositioned == so_many(placement_views(plan@), |p: PlacementView| p.own is None),
        stats.groups == so_many(placement_views(plan@), |p: PlacementView| p.is_group),
        stats.groups_without_child_space == so_many(
            placement_views(plan@),
            |p: PlacementView| p.lacks_child_space,
        ),
        stats.groups_with_zero_child_extent == so_many(
            placement_views(plan@),
            |p: PlacementView| p.zero_child_extent,
        ),
        stats.skewed == 0,
{
    let all = placement_views(plan@);
    tallies_count(all, |p: PlacementView| p.own is Some);
    tallies_count(all, |p: PlacementView| p.own is None);
    tallies_count(all, |p: PlacementView| p.is_group);
    tallies_count(all, |p: PlacementView| p.lacks_child_space);
    tallies_count(all, |p: PlacementView| p.zero_child_extent);
    none_is_skewed(all);
}

proof fn none_is_skewed(all: Seq<PlacementView>)
    ensures
        crate::pptx::geometry::skewed_in(places_of(all)) == 0,
    decreases all.len(),
{
    if all.len() > 0 {
        none_is_skewed(all.drop_last());
        assert(places_of(all).drop_last() =~= places_of(all.drop_last()));
        assert(places_of(all).last() == crate::pptx::upright::place_of(all.last()));
    }
}

/// Everything that a shape holds, at any depth, stands in the order of the file,
/// each group before its members.
pub proof fn shapes_are_visited_in_order(
    shapes: &Vec<Shape>,
    s: Shape,
    few: &Vec<Shape>,
)
    requires
        shapes@ == few@.push(s),
    ensures
        preorder_all(shapes@) == preorder_all(few@) + preorder(s),
        preorder(s).len() > 0 && preorder(s)[0] == s,
        s.kind matches ShapeKind::Group(g) ==> preorder(s).skip(1) == preorder_all(g.children@),
        !(s.kind is Group) ==> preorder(s) == seq![s],
        preorder_all(Seq::<Shape>::empty()).len() == 0,
{
    assert(shapes@.drop_last() =~= few@);
    if let ShapeKind::Group(g) = s.kind {
        assert(preorder(s).skip(1) =~= preorder_all(g.children@));
    }
}

} // verus!
