//! What a placeholder inherits from the part above: its place, and which
//! background is in force.
//!
//! A slide's placeholder finds its counterpart on the layout by index alone:
//! the kinds may disagree. A layout's placeholder finds its counterpart on the
//! master by kind, with the kinds for which a master has no placeholder of
//! their own collapsed onto its body. A transform is inherited whole, rotation
//! and all. Only the top level of a shape tree takes part, since the members
//! of a group are placed in the group's own space.
use vstd::prelude::*;

use crate::model::color::ColorMap;
use crate::model::geometry::Transform2D;
use crate::model::image::{MediaView, PartMedia};
use crate::model::theme::Theme;
use crate::pptx::shapes::{collapsed, Background, Placeholder, Shape};
use crate::render::color::{DrawingColorContext, Palette};
use crate::render::shape_visuals::{
    at, background_entry, media_at, palette_of, resolve_background_fill, resolve_fill,
    resolved_fill, Paint, ResolvedFill,
};

verus! {

/// How a placeholder finds its counterpart.
#[derive(Debug, Clone, Copy, PartialEq, Eq, Structural)]
pub enum MatchRule {
    /// By index, whatever the kinds.
    Idx,
    /// By kind, collapsed onto those that a master has.
    CollapsedKind,
}

/// Whether one placeholder is the counterpart of another.
pub open spec fn counterparts(a: Placeholder, b: Placeholder, rule: MatchRule) -> bool {
    match rule {
        MatchRule::Idx => a.idx == b.idx,
        MatchRule::CollapsedKind => collapsed(a.kind) == collapsed(b.kind),
    }
}

/// Whether one placeholder is the counterpart of another.
pub fn are_counterparts(a: &Placeholder, b: &Placeholder, rule: MatchRule) -> (r: bool)
    ensures
        r == counterparts(*a, *b, rule),
{
    match rule {
        MatchRule::Idx => a.idx == b.idx,
        MatchRule::CollapsedKind => a.kind.collapsed_for_master() == b.kind.collapsed_for_master(),
    }
}

/// What the first counterpart of a placeholder supplies.
pub open spec fn first_counterpart<T>(
    entries: Seq<(Placeholder, T)>,
    ph: Placeholder,
    rule: MatchRule,
) -> Option<T>
    decreases entries.len(),
{
    if entries.len() == 0 {
        None
    } else if counterparts(entries[0].0, ph, rule) {
        Some(entries[0].1)
    } else {
        first_counterpart(entries.skip(1), ph, rule)
    }
}

/// Of several counterparts the first in document order counts: what follows it
/// changes nothing.
pub proof fn the_first_counterpart_counts<T>(
    before: Seq<(Placeholder, T)>,
    after: Seq<(Placeholder, T)>,
    ph: Placeholder,
    rule: MatchRule,
)
    ensures
        first_counterpart(before, ph, rule) is Some ==> first_counterpart(before + after, ph, rule)
            == first_counterpart(before, ph, rule),
        first_counterpart(before, ph, rule) is None ==> first_counterpart(before + after, ph, rule)
            == first_counterpart(after, ph, rule),
    decreases before.len(),
{
    let all = before + after;
    if before.len() == 0 {
        assert(all =~= after);
    } else {
        assert(all.skip(1) =~= before.skip(1) + after);
        the_first_counterpart_counts(before.skip(1), after, ph, rule);
    }
}

/// The transforms that the placeholders of a part supply, with those that the
/// part inherits itself.
pub struct PlaceholderGeometry {
    entries: Vec<(Placeholder, Transform2D)>,
}

impl View for PlaceholderGeometry {
    type V = Seq<(Placeholder, Transform2D)>;

    closed spec fn view(&self) -> Seq<(Placeholder, Transform2D)> {
        self.entries@
    }
}

/// What an optional part supplies to a placeholder.
pub open spec fn supplied(
    source: Option<Seq<(Placeholder, Transform2D)>>,
    ph: Placeholder,
    rule: MatchRule,
) -> Option<Transform2D> {
    match source {
        Some(s) => first_counterpart(s, ph, rule),
        None => None,
    }
}

/// What an optional part holds.
pub open spec fn geometry_at(source: Option<&PlaceholderGeometry>) -> Option<
    Seq<(Placeholder, Transform2D)>,
> {
    match source {
        Some(s) => Some(s@),
        None => None,
    }
}

/// What the placeholders of a part supply, in document order: the transform
/// that each declares, or inherits from the part above.
pub open spec fn indexed(
    shapes: Seq<Shape>,
    parent: Option<Seq<(Placeholder, Transform2D)>>,
) -> Seq<(Placeholder, Transform2D)>
    decreases shapes.len(),
{
    if shapes.len() == 0 {
        Seq::empty()
    } else {
        let rest = indexed(shapes.drop_last(), parent);
        let s = shapes.last();
        match s.placeholder {
            None => rest,
            Some(ph) => match s.transform {
                Some(t) => rest.push((ph, t)),
                None => match supplied(parent, ph, MatchRule::CollapsedKind) {
                    Some(t) => rest.push((ph, t)),
                    None => rest,
                },
            },
        }
    }
}

impl PlaceholderGeometry {
    /// Indexes a master, which has no part above it.
    pub fn from_master(shapes: &[Shape]) -> (r: Self)
        ensures
            r@ == indexed(shapes@, None),
    {
        Self::index(shapes, None)
    }

    /// Indexes a layout, whose own placeholders inherit from the master.
    pub fn from_layout(shapes: &[Shape], master: Option<&PlaceholderGeometry>) -> (r: Self)
        ensures
            r@ == indexed(shapes@, geometry_at(master)),
    {
        Self::index(shapes, master)
    }

    /// The transform that a placeholder inherits from this part.
    pub fn lookup(&self, ph: &Placeholder, rule: MatchRule) -> (r: Option<Transform2D>)
        ensures
            r == first_counterpart(self@, *ph, rule),
    {
        let ghost all = self.entries@;
        let mut i: usize = 0;
        assert(all.skip(0) =~= all);
        while i < self.entries.len()
            invariant
                all == self.entries@,
                i <= all.len(),
                first_counterpart(all, *ph, rule) == first_counterpart(
                    all.skip(i as int),
                    *ph,
                    rule,
                ),
            decreases all.len() - i,
        {
            assert(all.skip(i as int)[0] == all[i as int]);
            assert(all.skip(i as int).skip(1) =~= all.skip(i + 1));
            if are_counterparts(&self.entries[i].0, ph, rule) {
                return Some(self.entries[i].1);
            }
            i = i + 1;
        }
        None
    }

    /// Whether the part supplies nothing.
    pub fn is_empty(&self) -> (r: bool)
        ensures
            r == (self@.len() == 0),
    {
        self.entries.len() == 0
    }

    /// Indexes the placeholders of a part, in document order.
    fn index(shapes: &[Shape], parent: Option<&PlaceholderGeometry>) -> (r: Self)
        ensures
            r@ == indexed(shapes@, geometry_at(parent)),
    {
        let mut entries: Vec<(Placeholder, Transform2D)> = Vec::new();
        let mut i: usize = 0;
        while i < shapes.len()
            invariant
                i <= shapes@.len(),
                entries@ == indexed(shapes@.take(i as int), geometry_at(parent)),
            decreases shapes@.len() - i,
        {
            assert(shapes@.take(i + 1).drop_last() =~= shapes@.take(i as int));
            let shape: &Shape = &shapes[i];
            match &shape.placeholder {
                Some(ph) => {
                    let transform: Option<Transform2D> = match shape.transform {
                        Some(t) => Some(t),
                        None => match parent {
                            Some(p) => p.lookup(ph, MatchRule::CollapsedKind),
                            None => None,
                        },
                    };
                    match transform {
                        Some(t) => {
                            entries.push((*ph, t));
                        },
                        None => {},
                    }
                },
                None => {},
            }
            i = i + 1;
        }
        assert(shapes@.take(i as int) =~= shapes@);
        PlaceholderGeometry { entries }
    }
}

impl Default for PlaceholderGeometry {
    fn default() -> (r: Self)
        ensures
            r@.len() == 0,
    {
        PlaceholderGeometry { entries: Vec::new() }
    }
}

/// What happened to the shapes of a part.
#[derive(Debug, Clone, Copy, PartialEq, Eq)]
pub struct CascadeStats {
    /// Shapes that declare a transform.
    pub declared: usize,
    /// Placeholders that inherited one.
    pub inherited: usize,
    /// Placeholders for which there was none to inherit.
    pub unresolved: usize,
    /// Shapes that declare none and are no placeholders.
    pub orphans: usize,
}

impl Default for CascadeStats {
    fn default() -> (r: Self)
        ensures
            r == (CascadeStats { declared: 0, inherited: 0, unresolved: 0, orphans: 0 }),
    {
        CascadeStats { declared: 0, inherited: 0, unresolved: 0, orphans: 0 }
    }
}

/// What becomes of a shape.
#[derive(Debug, Clone, Copy, PartialEq, Eq, Structural)]
pub enum Fate {
    Declared,
    Inherited,
    Unresolved,
    Orphan,
}

/// What becomes of a shape under what the part above supplies.
pub open spec fn fate(
    s: Shape,
    source: Option<Seq<(Placeholder, Transform2D)>>,
    rule: MatchRule,
) -> Fate {
    if s.transform is Some {
        Fate::Declared
    } else {
        match s.placeholder {
            None => Fate::Orphan,
            Some(ph) => if supplied(source, ph, rule) is Some {
                Fate::Inherited
            } else {
                Fate::Unresolved
            },
        }
    }
}

/// A shape with what it inherits: a placeholder that declares no transform
/// takes its counterpart's, and nothing else changes.
pub open spec fn with_inherited(
    s: Shape,
    source: Option<Seq<(Placeholder, Transform2D)>>,
    rule: MatchRule,
) -> Shape {
    if fate(s, source, rule) is Inherited {
        Shape {
            transform: supplied(source, s.placeholder->0, rule),
            transform_inherited: true,
            ..s
        }
    } else {
        s
    }
}

/// How many shapes meet a fate.
pub open spec fn fated(
    shapes: Seq<Shape>,
    source: Option<Seq<(Placeholder, Transform2D)>>,
    rule: MatchRule,
    which: Fate,
) -> nat
    decreases shapes.len(),
{
    if shapes.len() == 0 {
        0
    } else {
        fated(shapes.drop_last(), source, rule, which) + if fate(shapes.last(), source, rule)
            == which {
            1nat
        } else {
            0nat
        }
    }
}

/// Every shape meets one fate.
pub proof fn every_shape_is_counted_once(
    shapes: Seq<Shape>,
    source: Option<Seq<(Placeholder, Transform2D)>>,
    rule: MatchRule,
)
    ensures
        fated(shapes, source, rule, Fate::Declared) + fated(shapes, source, rule, Fate::Inherited)
            + fated(shapes, source, rule, Fate::Unresolved) + fated(
            shapes,
            source,
            rule,
            Fate::Orphan,
        ) == shapes.len(),
    decreases shapes.len(),
{
    if shapes.len() > 0 {
        every_shape_is_counted_once(shapes.drop_last(), source, rule);
    }
}

/// A declared transform is never replaced, and a part that supplies nothing
/// changes nothing, whether it is absent or empty.
pub proof fn inheritance_only_fills_holes(
    s: Shape,
    source: Option<Seq<(Placeholder, Transform2D)>>,
    rule: MatchRule,
)
    ensures
        s.transform is Some ==> with_inherited(s, source, rule) == s,
        with_inherited(s, None, rule) == s,
        with_inherited(s, Some(Seq::empty()), rule) == s,
{
}

/// What was inherited is kept: to inherit once more changes nothing.
pub proof fn inheriting_again_changes_nothing(
    s: Shape,
    source: Option<Seq<(Placeholder, Transform2D)>>,
    rule: MatchRule,
)
    ensures
        with_inherited(with_inherited(s, source, rule), source, rule) == with_inherited(
            s,
            source,
            rule,
        ),
{
}

/// Gives each placeholder at the top level that declares no transform its
/// counterpart's.
pub fn apply_inherited_geometry(
    shapes: &mut Vec<Shape>,
    source: Option<&PlaceholderGeometry>,
    rule: MatchRule,
) -> (stats: CascadeStats)
    ensures
        final(shapes)@.len() == old(shapes)@.len(),
        forall|i: int|
            0 <= i < old(shapes)@.len() ==> #[trigger] final(shapes)@[i] == with_inherited(
                old(shapes)@[i],
                geometry_at(source),
                rule,
            ),
        stats.declared == fated(old(shapes)@, geometry_at(source), rule, Fate::Declared),
        stats.inherited == fated(old(shapes)@, geometry_at(source), rule, Fate::Inherited),
        stats.unresolved == fated(old(shapes)@, geometry_at(source), rule, Fate::Unresolved),
        stats.orphans == fated(old(shapes)@, geometry_at(source), rule, Fate::Orphan),
{
    let ghost before = shapes@;
    let ghost above = geometry_at(source);
    let mut stats: CascadeStats = CascadeStats::default();
    let mut i: usize = 0;
    while i < shapes.len()
        invariant
            above == geometry_at(source),
            shapes@.len() == before.len(),
            i <= before.len(),
            forall|k: int|
                0 <= k < i ==> #[trigger] shapes@[k] == with_inherited(before[k], above, rule),
            forall|k: int| i <= k < before.len() ==> #[trigger] shapes@[k] == before[k],
            stats.declared == fated(before.take(i as int), above, rule, Fate::Declared),
            stats.inherited == fated(before.take(i as int), above, rule, Fate::Inherited),
            stats.unresolved == fated(before.take(i as int), above, rule, Fate::Unresolved),
            stats.orphans == fated(before.take(i as int), above, rule, Fate::Orphan),
        decreases before.len() - i,
    {
        assert(before.take(i + 1).drop_last() =~= before.take(i as int));
        proof {
            every_shape_is_counted_once(before.take(i as int), above, rule);
        }
        if shapes[i].transform.is_some() {
            stats.declared = stats.declared + 1;
        } else {
            match shapes[i].placeholder {
                None => {
                    stats.orphans = stats.orphans + 1;
                },
                Some(ph) => {
                    let found: Option<Transform2D> = match source {
                        Some(s) => s.lookup(&ph, rule),
                        None => None,
                    };
                    match found {
                        Some(t) => {
                            let shape: &mut Shape = &mut shapes[i];
                            shape.transform = Some(t);
                            shape.transform_inherited = true;
                            stats.inherited = stats.inherited + 1;
                        },
                        None => {
                            stats.unresolved = stats.unresolved + 1;
                        },
                    }
                },
            }
        }
        i = i + 1;
    }
    assert(before.take(i as int) =~= before);
    stats
}

/// Which part declares the background in force.
#[derive(Debug, Clone, Copy, PartialEq, Eq)]
pub enum BackgroundSource {
    Slide,
    Layout,
    Master,
}

/// The background in force on a slide: that of the nearest part that declares
/// one. There is none where no part does.
pub fn resolve_background<'a>(
    slide: Option<&'a Background>,
    layout: Option<&'a Background>,
    master: Option<&'a Background>,
) -> (r: Option<(BackgroundSource, &'a Background)>)
    ensures
        slide matches Some(b) ==> r == Some((BackgroundSource::Slide, b)),
        slide is None ==> (layout matches Some(b) ==> r == Some((BackgroundSource::Layout, b))),
        slide is None && layout is None ==> (master matches Some(b) ==> r == Some(
            (BackgroundSource::Master, b),
        )),
        slide is None && layout is None && master is None ==> r is None,
{
    match slide {
        Some(b) => Some((BackgroundSource::Slide, b)),
        None => match layout {
            Some(b) => Some((BackgroundSource::Layout, b)),
            None => match master {
                Some(b) => Some((BackgroundSource::Master, b)),
                None => None,
            },
        },
    }
}

/// What a background stands for: the fill that it states, or that of the theme
/// to which it refers.
pub open spec fn background_paint(
    bg: Background,
    theme: Option<Theme>,
    palette: Palette,
    media: Option<Seq<(Seq<char>, MediaView)>>,
) -> Paint {
    match bg {
        Background::Properties(f) => resolved_fill(f, palette, media, None),
        Background::Reference(r) => match theme {
            Some(t) => match background_entry(r, t) {
                Some(f) => resolved_fill(f, palette_of(r, palette), media, None),
                None => Paint::NoFill,
            },
            None => Paint::NoFill,
        },
    }
}

/// What a background stands for, under the theme of the slide's own master and
/// the slide's colour map. `media` holds the images of the part that declares
/// the background.
pub fn background_fill(
    bg: &Background,
    theme: Option<&Theme>,
    color_map: Option<ColorMap>,
    media: Option<&PartMedia>,
) -> (r: ResolvedFill)
    ensures
        r@ == background_paint(
            *bg,
            at(theme),
            Palette {
                scheme: match theme {
                    Some(t) => Some(t.color_scheme),
                    None => None,
                },
                color_map,
                placeholder: None,
            },
            media_at(media),
        ),
{
    let ctx: DrawingColorContext = DrawingColorContext::new(theme).with_color_map(color_map);
    match bg {
        Background::Properties(f) => resolve_fill(f, &ctx, media, None),
        Background::Reference(r) => resolve_background_fill(r, theme, &ctx, media),
    }
}

} // verus!
