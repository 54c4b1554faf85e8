//! What placeholders inherit, and which background is in force.
use vstd::prelude::*;

use crate::model::geometry::Transform2D;
use crate::pptx::cascade::{
    apply_inherited_geometry, counterparts, first_counterpart, indexed, resolve_background,
    supplied, BackgroundSource, CascadeStats, MatchRule, PlaceholderGeometry,
};
use crate::pptx::shapes::{Background, Placeholder, PlaceholderKind, Shape};

verus! {

/// The kinds for which a master has a placeholder of their own are the title,
/// the date, the footer and the slide number; all others share its body.
pub proof fn a_master_has_five_kinds(kind: PlaceholderKind, r: PlaceholderKind)
    requires
        call_ensures(PlaceholderKind::collapsed_for_master, (kind,), r),
    ensures
        r is Title <==> kind is Title || kind is CtrTitle,
        r is Dt <==> kind is Dt,
        r is Ftr <==> kind is Ftr,
        r is SldNum <==> kind is SldNum,
        r is Body <==> !(kind is Title || kind is CtrTitle || kind is Dt || kind is Ftr
            || kind is SldNum),
{
}

/// Whether two kinds share a placeholder of a master.
pub open spec fn share(a: PlaceholderKind, b: PlaceholderKind) -> bool {
    &&& (a is Title || a is CtrTitle) == (b is Title || b is CtrTitle)
    &&& a is Dt == b is Dt
    &&& a is Ftr == b is Ftr
    &&& a is SldNum == b is SldNum
}

/// Whether a shape fills a placeholder with the index of another.
pub open spec fn fills_same_index(s: Shape, ph: Placeholder) -> bool {
    s.placeholder matches Some(q) && q.idx == ph.idx
}

/// Whether a shape fills a placeholder whose kind shares the master's with that
/// of another.
pub open spec fn fills_same_kind(s: Shape, ph: Placeholder) -> bool {
    s.placeholder matches Some(q) && share(q.kind, ph.kind)
}

/// Behind shapes of which none is a counterpart, the next one that supplies
/// something is found.
proof fn the_next_is_found(
    shapes: Seq<Shape>,
    parent: Option<Seq<(Placeholder, Transform2D)>>,
    ph: Placeholder,
    rule: MatchRule,
    i: int,
)
    requires
        0 <= i <= shapes.len(),
        forall|j: int|
            0 <= j < i ==> ((#[trigger] shapes[j]).placeholder matches Some(q) ==> !counterparts(
                q,
                ph,
                rule,
            )),
    ensures
        first_counterpart(indexed(shapes.take(i), parent), ph, rule) is None,
    decreases i,
{
    if i > 0 {
        the_next_is_found(shapes, parent, ph, rule, i - 1);
        let part = shapes.take(i);
        assert(part.drop_last() =~= shapes.take(i - 1));
        assert(part.last() == shapes[i - 1]);
        let before = indexed(shapes.take(i - 1), parent);
        let now = indexed(part, parent);
        if now != before {
            let e = now.last();
            assert(now == before.push(e));
            assert(now =~= before + seq![e]);
            crate::pptx::cascade::the_first_counterpart_counts(before, seq![e], ph, rule);
            assert(seq![e].skip(1) =~= Seq::<(Placeholder, Transform2D)>::empty());
            assert(first_counterpart(seq![e], ph, rule) is None) by {
                reveal_with_fuel(first_counterpart, 2);
            }
        }
    }
}

/// What follows the shape that was found changes nothing.
proof fn what_follows_changes_nothing(
    shapes: Seq<Shape>,
    parent: Option<Seq<(Placeholder, Transform2D)>>,
    ph: Placeholder,
    rule: MatchRule,
    i: int,
)
    requires
        0 <= i <= shapes.len(),
        first_counterpart(indexed(shapes.take(i), parent), ph, rule) is Some,
    ensures
        first_counterpart(indexed(shapes, parent), ph, rule) == first_counterpart(
            indexed(shapes.take(i), parent),
            ph,
            rule,
        ),
    decreases shapes.len() - i,
{
    if i == shapes.len() {
        assert(shapes.take(i) =~= shapes);
    } else {
        let part = shapes.take(i + 1);
        assert(part.drop_last() =~= shapes.take(i));
        let before = indexed(shapes.take(i), parent);
        let now = indexed(part, parent);
        if now != before {
            let e = now.last();
            assert(now == before.push(e));
            assert(now =~= before + seq![e]);
            crate::pptx::cascade::the_first_counterpart_counts(before, seq![e], ph, rule);
        }
        what_follows_changes_nothing(shapes, parent, ph, rule, i + 1);
    }
}

/// What the first counterpart among shapes supplies is what is found: its own
/// transform, or where it declares none the one that the part above supplies.
proof fn the_first_supplies(
    shapes: Seq<Shape>,
    parent: Option<Seq<(Placeholder, Transform2D)>>,
    ph: Placeholder,
    rule: MatchRule,
    i: int,
)
    requires
        0 <= i < shapes.len(),
        shapes[i].placeholder matches Some(q) && counterparts(q, ph, rule),
        forall|j: int|
            0 <= j < i ==> ((#[trigger] shapes[j]).placeholder matches Some(q) ==> !counterparts(
                q,
                ph,
                rule,
            )),
    ensures
        shapes[i].transform is Some ==> first_counterpart(indexed(shapes, parent), ph, rule)
            == shapes[i].transform,
        shapes[i].transform is None && supplied(
            parent,
            shapes[i].placeholder->0,
            MatchRule::CollapsedKind,
        ) is Some ==> first_counterpart(indexed(shapes, parent), ph, rule) == supplied(
            parent,
            shapes[i].placeholder->0,
            MatchRule::CollapsedKind,
        ),
{
    the_next_is_found(shapes, parent, ph, rule, i);
    let part = shapes.take(i + 1);
    assert(part.drop_last() =~= shapes.take(i));
    assert(part.last() == shapes[i]);
    let before = indexed(shapes.take(i), parent);
    let now = indexed(part, parent);
    if now != before {
        let e = now.last();
        assert(now == before.push(e));
        assert(now =~= before + seq![e]);
        crate::pptx::cascade::the_first_counterpart_counts(before, seq![e], ph, rule);
        assert(first_counterpart(seq![e], ph, rule) == Some(e.1));
        what_follows_changes_nothing(shapes, parent, ph, rule, i + 1);
    } else {
        assert(before.push((shapes[i].placeholder->0, shapes[i].transform->0)).len() != before.len());
    }
}

/// A placeholder of a layout that declares a transform supplies that transform,
/// whatever the master supplies: the first of the layout's placeholders with an
/// index gives a slide's placeholder of that index the transform it declares.
pub proof fn a_layouts_own_transform_is_supplied(
    shapes: &[Shape],
    master: Option<&PlaceholderGeometry>,
    layout: &PlaceholderGeometry,
    ph: &Placeholder,
    i: int,
    t: Transform2D,
    r: Option<Transform2D>,
)
    requires
        call_ensures(PlaceholderGeometry::from_layout, (shapes, master), *layout),
        call_ensures(PlaceholderGeometry::lookup, (layout, ph, MatchRule::Idx), r),
        0 <= i < shapes@.len(),
        fills_same_index(shapes@[i], *ph),
        forall|j: int| 0 <= j < i ==> !fills_same_index(#[trigger] shapes@[j], *ph),
        shapes@[i].transform == Some(t),
    ensures
        r == Some(t),
{
    the_first_supplies(
        shapes@,
        crate::pptx::cascade::geometry_at(master),
        *ph,
        MatchRule::Idx,
        i,
    );
}

/// A placeholder of a layout that declares no transform supplies the one of its
/// counterpart on the master, which is found by kind.
pub proof fn a_layout_hands_on_what_its_master_supplies(
    shapes: &[Shape],
    master: &PlaceholderGeometry,
    layout: &PlaceholderGeometry,
    ph: &Placeholder,
    i: int,
    above: Option<Transform2D>,
    r: Option<Transform2D>,
)
    requires
        call_ensures(PlaceholderGeometry::from_layout, (shapes, Some(master)), *layout),
        call_ensures(PlaceholderGeometry::lookup, (layout, ph, MatchRule::Idx), r),
        0 <= i < shapes@.len(),
        fills_same_index(shapes@[i], *ph),
        forall|j: int| 0 <= j < i ==> !fills_same_index(#[trigger] shapes@[j], *ph),
        shapes@[i].transform is None,
        call_ensures(
            PlaceholderGeometry::lookup,
            (master, &(shapes@[i].placeholder->0), MatchRule::CollapsedKind),
            above,
        ),
        above is Some,
    ensures
        r == above,
{
    the_first_supplies(shapes@, Some(master@), *ph, MatchRule::Idx, i);
}

/// The first placeholder of a master whose kind shares a placeholder with a
/// given kind supplies the transform that it declares, whatever the indexes.
pub proof fn a_master_supplies_by_kind(
    shapes: &[Shape],
    master: &PlaceholderGeometry,
    ph: &Placeholder,
    i: int,
    t: Transform2D,
    r: Option<Transform2D>,
)
    requires
        call_ensures(PlaceholderGeometry::from_master, (shapes,), *master),
        call_ensures(PlaceholderGeometry::lookup, (master, ph, MatchRule::CollapsedKind), r),
        0 <= i < shapes@.len(),
        fills_same_kind(shapes@[i], *ph),
        forall|j: int| 0 <= j < i ==> !fills_same_kind(#[trigger] shapes@[j], *ph),
        shapes@[i].transform == Some(t),
    ensures
        r == Some(t),
{
    the_first_supplies(shapes@, None, *ph, MatchRule::CollapsedKind, i);
}

/// A part none of whose placeholders has an index supplies nothing by it, and
/// one none of whose placeholders shares a kind supplies nothing by that.
pub proof fn without_a_counterpart_there_is_nothing(
    shapes: &[Shape],
    above: Option<&PlaceholderGeometry>,
    part: &PlaceholderGeometry,
    ph: &Placeholder,
    by_index: Option<Transform2D>,
    by_kind: Option<Transform2D>,
)
    requires
        call_ensures(PlaceholderGeometry::from_layout, (shapes, above), *part),
        call_ensures(PlaceholderGeometry::lookup, (part, ph, MatchRule::Idx), by_index),
        call_ensures(PlaceholderGeometry::lookup, (part, ph, MatchRule::CollapsedKind), by_kind),
    ensures
        (forall|j: int| 0 <= j < shapes@.len() ==> !fills_same_index(#[trigger] shapes@[j], *ph))
            ==> by_index is None,
        (forall|j: int| 0 <= j < shapes@.len() ==> !fills_same_kind(#[trigger] shapes@[j], *ph))
            ==> by_kind is None,
{
    let n = shapes@.len() as int;
    let parent = crate::pptx::cascade::geometry_at(above);
    assert(shapes@.take(n) =~= shapes@);
    if forall|j: int| 0 <= j < n ==> !fills_same_index(#[trigger] shapes@[j], *ph) {
        assert forall|j: int| 0 <= j < n implies ((#[trigger] shapes@[j]).placeholder matches Some(q)
            ==> !counterparts(q, *ph, MatchRule::Idx)) by {
            assert(!fills_same_index(shapes@[j], *ph));
        }
        the_next_is_found(shapes@, parent, *ph, MatchRule::Idx, n);
    }
    if forall|j: int| 0 <= j < n ==> !fills_same_kind(#[trigger] shapes@[j], *ph) {
        assert forall|j: int| 0 <= j < n implies ((#[trigger] shapes@[j]).placeholder matches Some(q)
            ==> !counterparts(q, *ph, MatchRule::CollapsedKind)) by {
            assert(!fills_same_kind(shapes@[j], *ph));
        }
        the_next_is_found(shapes@, parent, *ph, MatchRule::CollapsedKind, n);
    }
}

/// To inherit geometry is to give every placeholder that declares no transform
/// the one that is looked up for it, and to change nothing else: not a shape
/// that declares one, nor one that fills no placeholder.
pub proof fn only_bare_placeholders_inherit(
    shapes: &mut Vec<Shape>,
    source: &PlaceholderGeometry,
    rule: MatchRule,
    stats: CascadeStats,
    i: int,
    found: Option<Transform2D>,
)
    requires
        call_ensures(apply_inherited_geometry, (shapes, Some(source), rule), stats),
        0 <= i < old(shapes)@.len(),
        old(shapes)@[i].placeholder matches Some(ph) ==> call_ensures(
            PlaceholderGeometry::lookup,
            (source, &ph, rule),
            found,
        ),
    ensures
        final(shapes)@.len() == old(shapes)@.len(),
        ({
            let s = old(shapes)@[i];
            let t = final(shapes)@[i];
            if s.placeholder is Some && s.transform is None && found is Some {
                &&& t.transform == found
                &&& t.transform_inherited
                &&& t.non_visual == s.non_visual
                &&& t.placeholder == s.placeholder
                &&& t.slide_rect == s.slide_rect
                &&& t.style == s.style
                &&& t.kind == s.kind
            } else {
                t == s
            }
        }),
{
}

/// A part that is not there changes nothing.
pub proof fn without_a_part_above_nothing_is_inherited(
    shapes: &mut Vec<Shape>,
    rule: MatchRule,
    stats: CascadeStats,
)
    requires
        call_ensures(apply_inherited_geometry, (shapes, None, rule), stats),
    ensures
        final(shapes)@ == old(shapes)@,
        stats.inherited == 0,
{
    assert(final(shapes)@ =~= old(shapes)@);
    nothing_is_inherited(old(shapes)@, rule, old(shapes)@.len() as int);
    assert(old(shapes)@.take(old(shapes)@.len() as int) =~= old(shapes)@);
}

proof fn nothing_is_inherited(shapes: Seq<Shape>, rule: MatchRule, n: int)
    requires
        0 <= n <= shapes.len(),
    ensures
        crate::pptx::cascade::fated(
            shapes.take(n),
            None,
            rule,
            crate::pptx::cascade::Fate::Inherited,
        ) == 0,
    decreases n,
{
    if n > 0 {
        assert(shapes.take(n).drop_last() =~= shapes.take(n - 1));
        nothing_is_inherited(shapes, rule, n - 1);
    }
}

/// How many shapes of a list meet a test.
pub open spec fn so_many(shapes: Seq<Shape>, test: spec_fn(Shape) -> bool) -> int {
    shapes.filter(test).len() as int
}

/// What is told counts the shapes that declared a transform, those that took
/// one, the placeholders left without, and the other shapes without one.
pub proof fn what_is_told_of_inheritance(
    shapes: &mut Vec<Shape>,
    source: Option<&PlaceholderGeometry>,
    rule: MatchRule,
    stats: CascadeStats,
)
    requires
        call_ensures(apply_inherited_geometry, (shapes, source, rule), stats),
    ensures
        stats.declared == so_many(old(shapes)@, |s: Shape| s.transform is Some),
        stats.orphans == so_many(
            old(shapes)@,
            |s: Shape| s.transform is None && s.placeholder is None,
        ),
        stats.unresolved == so_many(
            final(shapes)@,
            |s: Shape| s.transform is None && s.placeholder is Some,
        ),
        stats.declared + stats.inherited == so_many(
            final(shapes)@,
            |s: Shape| s.transform is Some,
        ),
{
    let above = crate::pptx::cascade::geometry_at(source);
    fates_are_counted(
        old(shapes)@,
        final(shapes)@,
        above,
        rule,
        |s: Shape| s.transform is Some,
        |s: Shape| s.transform is None && s.placeholder is None,
        |s: Shape| s.transform is None && s.placeholder is Some,
    );
}

proof fn fates_are_counted(
    before: Seq<Shape>,
    after: Seq<Shape>,
    above: Option<Seq<(Placeholder, Transform2D)>>,
    rule: MatchRule,
    placed: spec_fn(Shape) -> bool,
    orphan: spec_fn(Shape) -> bool,
    bare: spec_fn(Shape) -> bool,
)
    requires
        before.len() == after.len(),
        forall|i: int|
            0 <= i < before.len() ==> #[trigger] after[i] == crate::pptx::cascade::with_inherited(
                before[i],
                above,
                rule,
            ),
        placed == (|s: Shape| s.transform is Some),
        orphan == (|s: Shape| s.transform is None && s.placeholder is None),
        bare == (|s: Shape| s.transform is None && s.placeholder is Some),
    ensures
        ({
            let declared = crate::pptx::cascade::fated(
                before,
                above,
                rule,
                crate::pptx::cascade::Fate::Declared,
            );
            &&& declared == so_many(before, placed)
            &&& crate::pptx::cascade::fated(
                before,
                above,
                rule,
                crate::pptx::cascade::Fate::Orphan,
            ) == so_many(before, orphan)
            &&& crate::pptx::cascade::fated(
                before,
                above,
                rule,
                crate::pptx::cascade::Fate::Unresolved,
            ) == so_many(after, bare)
            &&& declared + crate::pptx::cascade::fated(
                before,
                above,
                rule,
                crate::pptx::cascade::Fate::Inherited,
            ) == so_many(after, placed)
        }),
    decreases before.len(),
{
    reveal(Seq::filter);
    if before.len() > 0 {
        let b = before.drop_last();
        let a = after.drop_last();
        assert forall|i: int| 0 <= i < b.len() implies #[trigger] a[i]
            == crate::pptx::cascade::with_inherited(b[i], above, rule) by {
            assert(after[i] == a[i] && before[i] == b[i]);
        }
        fates_are_counted(b, a, above, rule, placed, orphan, bare);
        assert(after.last() == crate::pptx::cascade::with_inherited(before.last(), above, rule));
    }
}

/// The background in force is the slide's where it has one, else the layout's,
/// else the master's.
pub proof fn the_nearest_background_is_in_force<'a>(
    slide: Option<&'a Background>,
    layout: Option<&'a Background>,
    master: Option<&'a Background>,
    r: Option<(BackgroundSource, &'a Background)>,
)
    requires
        call_ensures(resolve_background, (slide, layout, master), r),
    ensures
        r is None <==> slide is None && layout is None && master is None,
        r matches Some((source, b)) ==> {
            &&& source is Slide <==> slide is Some
            &&& source is Layout <==> slide is None && layout is Some
            &&& source is Master <==> slide is None && layout is None
            &&& slide matches Some(x) ==> b == x
            &&& slide is None ==> (layout matches Some(x) ==> b == x)
            &&& slide is None && layout is None ==> Some(b) == master
        },
{
}

} // verus!
