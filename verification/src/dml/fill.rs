//! Fills.
use vstd::prelude::*;

use crate::dimension::{units, Dimension};
use crate::dml::color::{
    check_color_holder, color_holder_reads, color_in, color_view, read_color, ColorView,
};
use crate::model::drawing::{
    Blip, BlipFill, BlipFillKind, DrawingFill, GradientFill, GradientShadeProperties,
    GradientStop, RelId, RelativeRect,
};
use crate::xml::lenient::{opt_attr, or_default, reads};
use crate::xml::query::{
    attr, attribute, child, child_named, children, children_named, opt_attr_of,
};
use crate::xml::schema::{check_element, check_opt, conforms, opt_conforms};
use crate::xml::tree::Element;

verus! {

/// The stops that elements state, in order, those without a colour left out.
/// A stop that states no position stands at the start.
pub open spec fn stops_in(stated: Seq<Element>) -> Seq<(i64, ColorView)>
    decreases stated.len(),
{
    if stated.len() == 0 {
        Seq::empty()
    } else {
        let rest = stops_in(stated.drop_last());
        match color_in(stated.last()) {
            Some(c) => rest.push((position(stated.last()), c)),
            None => rest,
        }
    }
}

/// The position of a stop.
pub open spec fn position(e: Element) -> i64 {
    match reads::<i64>(attr(e, "pos"@)) {
        Some(v) => v,
        None => 0,
    }
}

/// What a list of stops holds.
pub open spec fn stop_views(stops: Seq<GradientStop>) -> Seq<(i64, ColorView)> {
    stops.map_values(|s: GradientStop| (s.position.value, color_view(s.color)))
}

/// How a gradient element says that its gradient runs.
pub open spec fn shade_in(e: Element) -> GradientShadeProperties {
    match child_named(e, "path"@) {
        Some(_) => GradientShadeProperties::Path,
        None => GradientShadeProperties::Linear {
            angle: match reads::<i64>(opt_attr_of(child_named(e, "lin"@), "ang"@)) {
                Some(v) => units(v),
                None => units(0),
            },
        },
    }
}

/// The stop elements of a gradient.
pub open spec fn stop_elements(e: Element) -> Seq<Element> {
    match child_named(e, "gsLst"@) {
        Some(l) => children_named(l, "gs"@),
        None => Seq::empty(),
    }
}

/// Whether a gradient is what an element states.
pub open spec fn is_gradient(e: Element, g: GradientFill) -> bool {
    &&& stop_views(g.stops@) == stops_in(stop_elements(e))
    &&& g.shade_properties == shade_in(e)
}

/// The gradient that an element states.
fn read_gradient(e: &Element) -> (g: GradientFill)
    ensures
        is_gradient(*e, g),
{
    let stated: Vec<&Element> = match child(e, "gsLst") {
        Some(l) => children(l, "gs"),
        None => Vec::new(),
    };
    let ghost all = stop_elements(*e);
    let mut stops: Vec<GradientStop> = Vec::new();
    let mut i: usize = 0;
    assert(stop_views(stops@) =~= stops_in(all.take(0)));
    while i < stated.len()
        invariant
            stated@.len() == all.len(),
            forall|k: int| 0 <= k < stated@.len() ==> *#[trigger] stated@[k] == all[k],
            i <= stated@.len(),
            stop_views(stops@) == stops_in(all.take(i as int)),
        decreases stated@.len() - i,
    {
        assert(all.take(i + 1).drop_last() =~= all.take(i as int));
        let ghost before = stops@;
        match read_color(stated[i]) {
            Some(color) => {
                let value: i64 = or_default(stated[i], "pos", 0);
                stops.push(GradientStop { position: Dimension::new(value), color });
                assert(stop_views(stops@) =~= stop_views(before).push((value, color_view(color))));
            },
            None => {},
        }
        i = i + 1;
    }
    assert(all.take(i as int) =~= all);
    let shade_properties: GradientShadeProperties = match child(e, "path") {
        Some(_) => GradientShadeProperties::Path,
        None => {
            let angle: i64 = match child(e, "lin") {
                Some(l) => or_default(l, "ang", 0),
                None => 0,
            };
            GradientShadeProperties::Linear { angle: Dimension::new(angle) }
        },
    };
    GradientFill { stops, shade_properties }
}

/// What is cropped off each side, as an element states it.
pub open spec fn source_rect(e: Element) -> RelativeRect {
    RelativeRect {
        left: reads(attr(e, "l"@)),
        top: reads(attr(e, "t"@)),
        right: reads(attr(e, "r"@)),
        bottom: reads(attr(e, "b"@)),
    }
}

/// The text of an optional relationship id.
pub open spec fn rel_view(r: Option<RelId>) -> Option<Seq<char>> {
    match r {
        Some(x) => Some(x.id@),
        None => None,
    }
}

/// Whether an image fill is what an element states.
pub open spec fn is_blip_fill(e: Element, b: BlipFill) -> bool {
    &&& match child_named(e, "blip"@) {
        Some(x) => {
            &&& b.blip matches Some(y)
            &&& rel_view(y.embed) == attr(x, "embed"@)
            &&& rel_view(y.link) == attr(x, "link"@)
        },
        None => b.blip is None,
    }
    &&& b.src_rect == match child_named(e, "srcRect"@) {
        Some(x) => Some(source_rect(x)),
        None => None,
    }
    &&& b.fill_kind == if child_named(e, "tile"@) is Some {
        BlipFillKind::Tile
    } else if child_named(e, "stretch"@) is Some {
        BlipFillKind::Stretch
    } else {
        BlipFillKind::Unspecified
    }
}

/// The relationship id that an attribute states.
fn read_rel(e: &Element, name: &str) -> (r: Option<RelId>)
    ensures
        rel_view(r) == attr(*e, name@),
{
    match attribute(e, name) {
        Some(id) => Some(RelId { id }),
        None => None,
    }
}

/// The image fill that an element states.
pub fn read_blip_fill(e: &Element) -> (b: BlipFill)
    ensures
        is_blip_fill(*e, b),
{
    BlipFill {
        blip: match child(e, "blip") {
            Some(x) => Some(Blip { embed: read_rel(x, "embed"), link: read_rel(x, "link") }),
            None => None,
        },
        src_rect: match child(e, "srcRect") {
            Some(x) => Some(
                RelativeRect {
                    left: opt_attr(x, "l"),
                    top: opt_attr(x, "t"),
                    right: opt_attr(x, "r"),
                    bottom: opt_attr(x, "b"),
                },
            ),
            None => None,
        },
        fill_kind: if child(e, "tile").is_some() {
            BlipFillKind::Tile
        } else if child(e, "stretch").is_some() {
            BlipFillKind::Stretch
        } else {
            BlipFillKind::Unspecified
        },
    }
}

/// Whether a fill is the one that an element states by one of its children.
/// Where it states several, the first of these counts: none, the group's, a
/// colour, a gradient, an image, a pattern.
pub open spec fn is_fill_in(e: Element, f: Option<DrawingFill>) -> bool {
    if child_named(e, "noFill"@) is Some {
        f == Some(DrawingFill::NoFill)
    } else if child_named(e, "grpFill"@) is Some {
        f == Some(DrawingFill::Group)
    } else if child_named(e, "solidFill"@) is Some {
        match color_in(child_named(e, "solidFill"@)->0) {
            Some(v) => f matches Some(DrawingFill::Solid(c)) && color_view(c) == v,
            None => f is None,
        }
    } else if child_named(e, "gradFill"@) is Some {
        f matches Some(DrawingFill::Gradient(g)) && is_gradient(child_named(e, "gradFill"@)->0, g)
    } else if child_named(e, "blipFill"@) is Some {
        f matches Some(DrawingFill::Blip(b)) && is_blip_fill(child_named(e, "blipFill"@)->0, b)
    } else if child_named(e, "pattFill"@) is Some {
        f == Some(DrawingFill::Pattern)
    } else {
        f is None
    }
}

/// The fill that an element states by one of its children.
pub fn pick_fill(e: &Element) -> (f: Option<DrawingFill>)
    ensures
        is_fill_in(*e, f),
{
    if child(e, "noFill").is_some() {
        return Some(DrawingFill::NoFill);
    }
    if child(e, "grpFill").is_some() {
        return Some(DrawingFill::Group);
    }
    match child(e, "solidFill") {
        Some(x) => {
            return match read_color(x) {
                Some(c) => Some(DrawingFill::Solid(c)),
                None => None,
            };
        },
        None => {},
    }
    match child(e, "gradFill") {
        Some(x) => {
            return Some(DrawingFill::Gradient(read_gradient(x)));
        },
        None => {},
    }
    match child(e, "blipFill") {
        Some(x) => {
            return Some(DrawingFill::Blip(read_blip_fill(x)));
        },
        None => {},
    }
    if child(e, "pattFill").is_some() {
        Some(DrawingFill::Pattern)
    } else {
        None
    }
}

/// Whether a gradient stop reads.
pub open spec fn stop_reads(e: Element) -> bool {
    &&& conforms(e, seq!["pos"], seq!["srgbClr", "schemeClr"], seq![])
    &&& color_holder_reads(e)
}

/// Whether a gradient stop reads.
fn check_stop(e: &Element) -> (r: bool)
    ensures
        r == stop_reads(*e),
{
    let known: [&str; 1] = ["pos"];
    let single: [&str; 2] = ["srgbClr", "schemeClr"];
    let none: [&str; 0] = [];
    assert(known@ =~= seq!["pos"]);
    assert(single@ =~= seq!["srgbClr", "schemeClr"]);
    assert(none@ =~= seq![]);
    check_element(e, &known, &single, &none) && check_color_holder(e)
}

/// Whether a gradient reads.
pub open spec fn gradient_reads(e: Element) -> bool {
    let stops = stop_elements(e);
    &&& conforms(e, seq![], seq!["gsLst", "lin", "path"], seq![])
    &&& match child_named(e, "gsLst"@) {
        Some(l) => conforms(l, seq![], seq![], seq!["gs"]),
        None => true,
    }
    &&& opt_conforms(child_named(e, "lin"@), seq!["ang"], seq![])
    &&& forall|i: int| 0 <= i < stops.len() ==> stop_reads(#[trigger] stops[i])
}

/// Whether a gradient reads.
fn check_gradient(e: &Element) -> (r: bool)
    ensures
        r == gradient_reads(*e),
{
    let single: [&str; 3] = ["gsLst", "lin", "path"];
    let lists: [&str; 1] = ["gs"];
    let angle: [&str; 1] = ["ang"];
    let none: [&str; 0] = [];
    assert(single@ =~= seq!["gsLst", "lin", "path"]);
    assert(lists@ =~= seq!["gs"]);
    assert(angle@ =~= seq!["ang"]);
    assert(none@ =~= seq![]);
    if !check_element(e, &none, &single, &none) || !check_opt(child(e, "lin"), &angle, &none) {
        return false;
    }
    let stated: Vec<&Element> = match child(e, "gsLst") {
        Some(l) => {
            if !check_element(l, &none, &none, &lists) {
                return false;
            }
            children(l, "gs")
        },
        None => Vec::new(),
    };
    let ghost all = stop_elements(*e);
    let mut i: usize = 0;
    while i < stated.len()
        invariant
            all == stop_elements(*e),
            stated@.len() == all.len(),
            forall|k: int| 0 <= k < stated@.len() ==> *#[trigger] stated@[k] == all[k],
            i <= stated@.len(),
            forall|k: int| 0 <= k < i ==> stop_reads(#[trigger] all[k]),
        decreases stated@.len() - i,
    {
        if !check_stop(stated[i]) {
            assert(!stop_reads(all[i as int]));
            return false;
        }
        i = i + 1;
    }
    true
}

/// Whether an image fill reads.
pub open spec fn blip_fill_reads(e: Element) -> bool {
    &&& conforms(e, seq![], seq!["blip", "srcRect", "stretch", "tile"], seq![])
    &&& opt_conforms(child_named(e, "blip"@), seq!["embed", "link"], seq![])
    &&& opt_conforms(child_named(e, "srcRect"@), seq!["l", "t", "r", "b"], seq![])
}

/// Whether an image fill reads.
pub fn check_blip_fill(e: &Element) -> (r: bool)
    ensures
        r == blip_fill_reads(*e),
{
    let single: [&str; 4] = ["blip", "srcRect", "stretch", "tile"];
    let rel: [&str; 2] = ["embed", "link"];
    let sides: [&str; 4] = ["l", "t", "r", "b"];
    let none: [&str; 0] = [];
    assert(single@ =~= seq!["blip", "srcRect", "stretch", "tile"]);
    assert(rel@ =~= seq!["embed", "link"]);
    assert(sides@ =~= seq!["l", "t", "r", "b"]);
    assert(none@ =~= seq![]);
    check_element(e, &none, &single, &none) && check_opt(child(e, "blip"), &rel, &none)
        && check_opt(child(e, "srcRect"), &sides, &none)
}

/// Whether the fills that an element states read.
pub open spec fn fills_read(e: Element) -> bool {
    &&& conforms(
        e,
        seq![],
        seq!["noFill", "solidFill", "gradFill", "blipFill", "pattFill", "grpFill"],
        seq![],
    )
    &&& match child_named(e, "solidFill"@) {
        Some(x) => color_holder_reads(x),
        None => true,
    }
    &&& match child_named(e, "gradFill"@) {
        Some(x) => gradient_reads(x),
        None => true,
    }
    &&& match child_named(e, "blipFill"@) {
        Some(x) => blip_fill_reads(x),
        None => true,
    }
}

/// Whether the fills that an element states read.
pub fn check_fills(e: &Element) -> (r: bool)
    ensures
        r == fills_read(*e),
{
    let single: [&str; 6] = [
        "noFill", "solidFill", "gradFill", "blipFill", "pattFill", "grpFill",
    ];
    let none: [&str; 0] = [];
    assert(single@ =~= seq![
        "noFill", "solidFill", "gradFill", "blipFill", "pattFill", "grpFill",
    ]);
    assert(none@ =~= seq![]);
    check_element(e, &none, &single, &none) && (match child(e, "solidFill") {
        Some(x) => check_color_holder(x),
        None => true,
    }) && (match child(e, "gradFill") {
        Some(x) => check_gradient(x),
        None => true,
    }) && (match child(e, "blipFill") {
        Some(x) => check_blip_fill(x),
        None => true,
    })
}

} // verus!
