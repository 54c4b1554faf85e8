//! The properties of shapes: transforms, outlines, effects, and references
//! to the theme.
use vstd::prelude::*;

use crate::dimension::{units, Dimension, Emu};
use crate::dml::color::{
    check_color_holder, color_holder_reads, color_in, color_view, is_color_in, read_color,
    ColorView,
};
use crate::dml::fill::{check_fills, fills_read, is_fill_in, pick_fill};
use crate::model::drawing::{
    DashStop, DocProperties, Effect, EffectList, FontCollectionIndex, FontReference, GeomGuide,
    LineCap, LineDash, LineJoin, OuterShadowEffect, Outline, PresetGeometry, PresetLineDashVal,
    ShapeProperties, StyleMatrixRef,
};
use crate::model::geometry::{Offset, Size, Transform2D};
use crate::scan::str_eq;
use crate::xml::event::opt_view;
use crate::xml::lenient::{
    attr_bool, nonneg, nonneg_or_default, opt_attr, or_default, reads, truth, AttrValue,
};
use crate::xml::query::{
    attr, attribute, child, child_named, children, children_named, element_local_name,
    element_name, opt_attr_of,
};
use crate::xml::schema::{check_element, check_opt, conforms, opt_conforms};
use crate::xml::tree::{Element, Node};

verus! {

impl AttrValue for LineCap {
    open spec fn read(s: Seq<char>) -> Option<LineCap> {
        if s == "flat"@ {
            Some(LineCap::Flat)
        } else if s == "rnd"@ {
            Some(LineCap::Round)
        } else if s == "sq"@ {
            Some(LineCap::Square)
        } else {
            None
        }
    }

    fn parse(s: &str) -> (r: Option<LineCap>) {
        if str_eq(s, "flat") {
            Some(LineCap::Flat)
        } else if str_eq(s, "rnd") {
            Some(LineCap::Round)
        } else if str_eq(s, "sq") {
            Some(LineCap::Square)
        } else {
            None
        }
    }
}

impl AttrValue for PresetLineDashVal {
    open spec fn read(s: Seq<char>) -> Option<PresetLineDashVal> {
        if s == "solid"@ {
            Some(PresetLineDashVal::Solid)
        } else if s == "dot"@ {
            Some(PresetLineDashVal::Dot)
        } else if s == "dash"@ {
            Some(PresetLineDashVal::Dash)
        } else if s == "lgDash"@ {
            Some(PresetLineDashVal::LgDash)
        } else if s == "dashDot"@ {
            Some(PresetLineDashVal::DashDot)
        } else if s == "lgDashDot"@ {
            Some(PresetLineDashVal::LgDashDot)
        } else if s == "lgDashDotDot"@ {
            Some(PresetLineDashVal::LgDashDotDot)
        } else if s == "sysDash"@ {
            Some(PresetLineDashVal::SysDash)
        } else if s == "sysDot"@ {
            Some(PresetLineDashVal::SysDot)
        } else if s == "sysDashDot"@ {
            Some(PresetLineDashVal::SysDashDot)
        } else if s == "sysDashDotDot"@ {
            Some(PresetLineDashVal::SysDashDotDot)
        } else {
            None
        }
    }

    fn parse(s: &str) -> (r: Option<PresetLineDashVal>) {
        if str_eq(s, "solid") {
            Some(PresetLineDashVal::Solid)
        } else if str_eq(s, "dot") {
            Some(PresetLineDashVal::Dot)
        } else if str_eq(s, "dash") {
            Some(PresetLineDashVal::Dash)
        } else if str_eq(s, "lgDash") {
            Some(PresetLineDashVal::LgDash)
        } else if str_eq(s, "dashDot") {
            Some(PresetLineDashVal::DashDot)
        } else if str_eq(s, "lgDashDot") {
            Some(PresetLineDashVal::LgDashDot)
        } else if str_eq(s, "lgDashDotDot") {
            Some(PresetLineDashVal::LgDashDotDot)
        } else if str_eq(s, "sysDash") {
            Some(PresetLineDashVal::SysDash)
        } else if str_eq(s, "sysDot") {
            Some(PresetLineDashVal::SysDot)
        } else if str_eq(s, "sysDashDot") {
            Some(PresetLineDashVal::SysDashDot)
        } else if str_eq(s, "sysDashDotDot") {
            Some(PresetLineDashVal::SysDashDotDot)
        } else {
            None
        }
    }
}

impl AttrValue for FontCollectionIndex {
    open spec fn read(s: Seq<char>) -> Option<FontCollectionIndex> {
        if s == "major"@ {
            Some(FontCollectionIndex::Major)
        } else if s == "minor"@ {
            Some(FontCollectionIndex::Minor)
        } else if s == "none"@ {
            Some(FontCollectionIndex::NoFont)
        } else {
            None
        }
    }

    fn parse(s: &str) -> (r: Option<FontCollectionIndex>) {
        if str_eq(s, "major") {
            Some(FontCollectionIndex::Major)
        } else if str_eq(s, "minor") {
            Some(FontCollectionIndex::Minor)
        } else if str_eq(s, "none") {
            Some(FontCollectionIndex::NoFont)
        } else {
            None
        }
    }
}

/// A coordinate, zero where it is absent or does not read.
pub open spec fn coordinate(e: Element, name: Seq<char>) -> Dimension<Emu> {
    match reads::<i64>(attr(e, name)) {
        Some(v) => units(v),
        None => units(0),
    }
}

/// The offset that an element states.
pub open spec fn offset_in(e: Element) -> Offset<Emu> {
    Offset { x: coordinate(e, "x"@), y: coordinate(e, "y"@) }
}

/// The extent that an element states, with no side negative.
pub open spec fn extent_in(e: Element) -> Size<Emu> {
    Size { width: nonneg(attr(e, "cx"@)), height: nonneg(attr(e, "cy"@)) }
}

/// The offset that an element states.
pub fn read_offset(e: &Element) -> (r: Offset<Emu>)
    ensures
        r == offset_in(*e),
{
    let x: i64 = or_default(e, "x", 0);
    let y: i64 = or_default(e, "y", 0);
    Offset { x: Dimension::new(x), y: Dimension::new(y) }
}

/// The extent that an element states.
pub fn read_extent(e: &Element) -> (r: Size<Emu>)
    ensures
        r == extent_in(*e),
{
    Size { width: nonneg_or_default(e, "cx"), height: nonneg_or_default(e, "cy") }
}

/// The transform that an `xfrm` element states.
pub open spec fn transform_in(e: Element) -> Transform2D {
    Transform2D {
        rotation: reads(attr(e, "rot"@)),
        flip_h: truth(attr(e, "flipH"@)),
        flip_v: truth(attr(e, "flipV"@)),
        offset: match child_named(e, "off"@) {
            Some(o) => Some(offset_in(o)),
            None => None,
        },
        extent: match child_named(e, "ext"@) {
            Some(x) => Some(extent_in(x)),
            None => None,
        },
    }
}

/// The transform that an `xfrm` element states.
pub fn read_transform(e: &Element) -> (r: Transform2D)
    ensures
        r == transform_in(*e),
{
    Transform2D {
        rotation: opt_attr(e, "rot"),
        flip_h: attr_bool(e, "flipH"),
        flip_v: attr_bool(e, "flipV"),
        offset: match child(e, "off") {
            Some(o) => Some(read_offset(o)),
            None => None,
        },
        extent: match child(e, "ext") {
            Some(x) => Some(read_extent(x)),
            None => None,
        },
    }
}

/// Whether an `xfrm` element reads. That of a group also states the offset
/// and the extent of its members' coordinates.
pub open spec fn transform_reads(e: Element) -> bool {
    &&& conforms(
        e,
        seq!["rot", "flipH", "flipV"],
        seq!["off", "ext", "chOff", "chExt"],
        seq![],
    )
    &&& opt_conforms(child_named(e, "off"@), seq!["x", "y"], seq![])
    &&& opt_conforms(child_named(e, "ext"@), seq!["cx", "cy"], seq![])
    &&& opt_conforms(child_named(e, "chOff"@), seq!["x", "y"], seq![])
    &&& opt_conforms(child_named(e, "chExt"@), seq!["cx", "cy"], seq![])
}

/// Whether an `xfrm` element reads.
pub fn check_transform(e: &Element) -> (r: bool)
    ensures
        r == transform_reads(*e),
{
    let known: [&str; 3] = ["rot", "flipH", "flipV"];
    let single: [&str; 4] = ["off", "ext", "chOff", "chExt"];
    let point: [&str; 2] = ["x", "y"];
    let size: [&str; 2] = ["cx", "cy"];
    let none: [&str; 0] = [];
    assert(known@ =~= seq!["rot", "flipH", "flipV"]);
    assert(single@ =~= seq!["off", "ext", "chOff", "chExt"]);
    assert(point@ =~= seq!["x", "y"]);
    assert(size@ =~= seq!["cx", "cy"]);
    assert(none@ =~= seq![]);
    check_element(e, &known, &single, &none) && check_opt(child(e, "off"), &point, &none)
        && check_opt(child(e, "ext"), &size, &none) && check_opt(child(e, "chOff"), &point, &none)
        && check_opt(child(e, "chExt"), &size, &none)
}

/// The dash stops that elements state.
pub open spec fn dash_stops(stated: Seq<Element>) -> Seq<DashStop> {
    stated.map_values(
        |e: Element| DashStop { dash: nonneg(attr(e, "d"@)), space: nonneg(attr(e, "sp"@)) },
    )
}

/// Whether a dash pattern is the one that an outline states.
pub open spec fn is_dash_in(e: Element, d: Option<LineDash>) -> bool {
    match reads::<PresetLineDashVal>(opt_attr_of(child_named(e, "prstDash"@), "val"@)) {
        Some(v) => d == Some(LineDash::Preset(v)),
        None => match child_named(e, "custDash"@) {
            Some(c) => d matches Some(LineDash::Custom(stops)) && stops@ == dash_stops(
                children_named(c, "ds"@),
            ),
            None => d is None,
        },
    }
}

/// The dash pattern that an outline states.
fn read_dash(e: &Element) -> (d: Option<LineDash>)
    ensures
        is_dash_in(*e, d),
{
    let preset: Option<PresetLineDashVal> = crate::xml::lenient::opt_val_attr(e, "prstDash");
    match preset {
        Some(v) => Some(LineDash::Preset(v)),
        None => match child(e, "custDash") {
            Some(c) => {
                let stated: Vec<&Element> = children(c, "ds");
                let ghost all = children_named(*c, "ds"@);
                let mut stops: Vec<DashStop> = Vec::new();
                let mut i: usize = 0;
                while i < stated.len()
                    invariant
                        stated@.len() == all.len(),
                        forall|k: int|
                            0 <= k < stated@.len() ==> *#[trigger] stated@[k] == all[k],
                        i <= stated@.len(),
                        stops@.len() == i,
                        forall|k: int|
                            0 <= k < i ==> #[trigger] stops@[k] == dash_stops(all)[k],
                    decreases stated@.len() - i,
                {
                    stops.push(
                        DashStop {
                            dash: nonneg_or_default(stated[i], "d"),
                            space: nonneg_or_default(stated[i], "sp"),
                        },
                    );
                    i = i + 1;
                }
                assert(stops@ =~= dash_stops(all));
                Some(LineDash::Custom(stops))
            },
            None => None,
        },
    }
}

/// The corners that an outline states.
pub open spec fn join_in(e: Element) -> Option<LineJoin> {
    if child_named(e, "round"@) is Some {
        Some(LineJoin::Round)
    } else if child_named(e, "bevel"@) is Some {
        Some(LineJoin::Bevel)
    } else {
        match child_named(e, "miter"@) {
            Some(m) => Some(LineJoin::Miter { limit: reads(attr(m, "lim"@)) }),
            None => None,
        }
    }
}

/// Whether an outline is what an element states.
pub open spec fn is_outline(e: Element, o: Outline) -> bool {
    &&& o.width == reads::<Dimension<Emu>>(attr(e, "w"@))
    &&& o.cap == reads::<LineCap>(attr(e, "cap"@))
    &&& is_fill_in(e, o.fill)
    &&& is_dash_in(e, o.dash)
    &&& o.join == join_in(e)
}

/// The outline that an element states.
pub fn read_outline(e: &Element) -> (o: Outline)
    ensures
        is_outline(*e, o),
{
    Outline {
        width: opt_attr(e, "w"),
        cap: opt_attr(e, "cap"),
        fill: pick_fill(e),
        dash: read_dash(e),
        join: if child(e, "round").is_some() {
            Some(LineJoin::Round)
        } else if child(e, "bevel").is_some() {
            Some(LineJoin::Bevel)
        } else {
            match child(e, "miter") {
                Some(m) => Some(LineJoin::Miter { limit: opt_attr(m, "lim") }),
                None => None,
            }
        },
    }
}

/// Whether an outline reads.
pub open spec fn outline_reads(e: Element) -> bool {
    &&& fills_read(e)
    &&& conforms(
        e,
        seq!["w", "cap"],
        seq!["prstDash", "custDash", "round", "bevel", "miter"],
        seq![],
    )
    &&& opt_conforms(child_named(e, "prstDash"@), seq!["val"], seq![])
    &&& opt_conforms(child_named(e, "miter"@), seq!["lim"], seq![])
    &&& match child_named(e, "custDash"@) {
        Some(c) => {
            let stops = children_named(c, "ds"@);
            &&& conforms(c, seq![], seq![], seq!["ds"])
            &&& forall|i: int|
                0 <= i < stops.len() ==> conforms(
                    #[trigger] stops[i],
                    seq!["d", "sp"],
                    seq![],
                    seq![],
                )
        },
        None => true,
    }
}

/// Whether an outline reads.
fn check_outline(e: &Element) -> (r: bool)
    ensures
        r == outline_reads(*e),
{
    let known: [&str; 2] = ["w", "cap"];
    let single: [&str; 5] = ["prstDash", "custDash", "round", "bevel", "miter"];
    let val: [&str; 1] = ["val"];
    let lim: [&str; 1] = ["lim"];
    let stop: [&str; 2] = ["d", "sp"];
    let lists: [&str; 1] = ["ds"];
    let none: [&str; 0] = [];
    assert(known@ =~= seq!["w", "cap"]);
    assert(single@ =~= seq!["prstDash", "custDash", "round", "bevel", "miter"]);
    assert(val@ =~= seq!["val"]);
    assert(lim@ =~= seq!["lim"]);
    assert(stop@ =~= seq!["d", "sp"]);
    assert(lists@ =~= seq!["ds"]);
    assert(none@ =~= seq![]);
    if !check_fills(e) || !check_element(e, &known, &single, &none) || !check_opt(
        child(e, "prstDash"),
        &val,
        &none,
    ) || !check_opt(child(e, "miter"), &lim, &none) {
        return false;
    }
    match child(e, "custDash") {
        Some(c) => {
            if !check_element(c, &none, &none, &lists) {
                return false;
            }
            let stated: Vec<&Element> = children(c, "ds");
            let ghost all = children_named(*c, "ds"@);
            let mut i: usize = 0;
            while i < stated.len()
                invariant
                    child_named(*e, "custDash"@) == Some(*c),
                    all == children_named(*c, "ds"@),
                    stop@ =~= seq!["d", "sp"],
                    none@ =~= seq![],
                    stated@.len() == all.len(),
                    forall|k: int|
                        0 <= k < stated@.len() ==> *#[trigger] stated@[k] == all[k],
                    i <= stated@.len(),
                    forall|k: int|
                        0 <= k < i ==> conforms(
                            #[trigger] all[k],
                            seq!["d", "sp"],
                            seq![],
                            seq![],
                        ),
                decreases stated@.len() - i,
            {
                if !check_element(stated[i], &stop, &none, &none) {
                    assert(!conforms(all[i as int], seq!["d", "sp"], seq![], seq![]));
                    return false;
                }
                i = i + 1;
            }
            true
        },
        None => true,
    }
}

/// An effect as an element states it.
pub enum EffectView {
    Shadow { blur: i64, distance: i64, direction: i64, color: ColorView },
    Blur,
    Glow,
    InnerShdw,
    PrstShdw,
    Reflection,
    SoftEdge,
    FillOverlay,
}

/// What an effect holds.
pub open spec fn effect_view(e: Effect) -> EffectView {
    match e {
        Effect::OuterShdw(s) => EffectView::Shadow {
            blur: s.blur_radius.value,
            distance: s.distance.value,
            direction: s.direction.value,
            color: color_view(s.color),
        },
        Effect::Blur => EffectView::Blur,
        Effect::Glow => EffectView::Glow,
        Effect::InnerShdw => EffectView::InnerShdw,
        Effect::PrstShdw => EffectView::PrstShdw,
        Effect::Reflection => EffectView::Reflection,
        Effect::SoftEdge => EffectView::SoftEdge,
        Effect::FillOverlay => EffectView::FillOverlay,
    }
}

/// A whole number, zero where it is absent or does not read.
pub open spec fn number(e: Element, name: Seq<char>) -> i64 {
    match reads::<i64>(attr(e, name)) {
        Some(v) => v,
        None => 0,
    }
}

/// The effect that a node states. A shadow without a colour is none.
pub open spec fn effect_at(n: Node) -> Option<EffectView> {
    match n {
        Node::Element(e) => match element_name(*e) {
            Some(name) => if name == "outerShdw"@ {
                match color_in(*e) {
                    Some(color) => Some(
                        EffectView::Shadow {
                            blur: number(*e, "blurRad"@),
                            distance: number(*e, "dist"@),
                            direction: number(*e, "dir"@),
                            color,
                        },
                    ),
                    None => None,
                }
            } else if name == "blur"@ {
                Some(EffectView::Blur)
            } else if name == "glow"@ {
                Some(EffectView::Glow)
            } else if name == "innerShdw"@ {
                Some(EffectView::InnerShdw)
            } else if name == "prstShdw"@ {
                Some(EffectView::PrstShdw)
            } else if name == "reflection"@ {
                Some(EffectView::Reflection)
            } else if name == "softEdge"@ {
                Some(EffectView::SoftEdge)
            } else if name == "fillOverlay"@ {
                Some(EffectView::FillOverlay)
            } else {
                None
            },
            None => None,
        },
        _ => None,
    }
}

/// The effects that nodes state, in order.
pub open spec fn effects_in(nodes: Seq<Node>) -> Seq<EffectView>
    decreases nodes.len(),
{
    if nodes.len() == 0 {
        Seq::empty()
    } else {
        match effect_at(nodes.last()) {
            Some(v) => effects_in(nodes.drop_last()).push(v),
            None => effects_in(nodes.drop_last()),
        }
    }
}

/// What a list of effects holds.
pub open spec fn effect_views(effects: Seq<Effect>) -> Seq<EffectView> {
    effects.map_values(|e: Effect| effect_view(e))
}

/// The effect that a node states.
fn read_effect(n: &Node) -> (r: Option<Effect>)
    ensures
        (match r {
            Some(e) => Some(effect_view(e)),
            None => None,
        }) == effect_at(*n),
{
    match n {
        Node::Element(e) => {
            let name: String = match element_local_name(e) {
                Some(n) => n,
                None => {
                    return None;
                },
            };
            let name: &str = name.as_str();
            if str_eq(name, "outerShdw") {
                match read_color(e) {
                    Some(color) => {
                        let blur: i64 = or_default(e, "blurRad", 0);
                        let distance: i64 = or_default(e, "dist", 0);
                        let direction: i64 = or_default(e, "dir", 0);
                        Some(
                            Effect::OuterShdw(
                                OuterShadowEffect {
                                    blur_radius: Dimension::new(blur),
                                    distance: Dimension::new(distance),
                                    direction: Dimension::new(direction),
                                    color,
                                },
                            ),
                        )
                    },
                    None => None,
                }
            } else if str_eq(name, "blur") {
                Some(Effect::Blur)
            } else if str_eq(name, "glow") {
                Some(Effect::Glow)
            } else if str_eq(name, "innerShdw") {
                Some(Effect::InnerShdw)
            } else if str_eq(name, "prstShdw") {
                Some(Effect::PrstShdw)
            } else if str_eq(name, "reflection") {
                Some(Effect::Reflection)
            } else if str_eq(name, "softEdge") {
                Some(Effect::SoftEdge)
            } else if str_eq(name, "fillOverlay") {
                Some(Effect::FillOverlay)
            } else {
                None
            }
        },
        _ => None,
    }
}

/// The effects that an element states, in order.
fn read_effects(e: &Element) -> (r: EffectList)
    ensures
        effect_views(r.effects@) == effects_in(e.children@),
{
    let mut effects: Vec<Effect> = Vec::new();
    let mut i: usize = 0;
    assert(effect_views(effects@) =~= effects_in(e.children@.take(0)));
    while i < e.children.len()
        invariant
            i <= e.children@.len(),
            effect_views(effects@) == effects_in(e.children@.take(i as int)),
        decreases e.children@.len() - i,
    {
        assert(e.children@.take(i + 1).drop_last() =~= e.children@.take(i as int));
        let ghost before = effects@;
        match read_effect(&e.children[i]) {
            Some(f) => {
                effects.push(f);
                assert(effect_views(effects@) =~= effect_views(before).push(effect_view(f)));
            },
            None => {},
        }
        i = i + 1;
    }
    assert(e.children@.take(i as int) =~= e.children@);
    EffectList { effects }
}

/// Whether a list of effects reads.
pub open spec fn effects_read(e: Element) -> bool {
    &&& conforms(e, seq![], seq!["outerShdw"], seq![])
    &&& match child_named(e, "outerShdw"@) {
        Some(x) => conforms(x, seq!["blurRad", "dist", "dir"], seq![], seq![])
            && color_holder_reads(x),
        None => true,
    }
}

/// Whether a list of effects reads.
fn check_effects(e: &Element) -> (r: bool)
    ensures
        r == effects_read(*e),
{
    let single: [&str; 1] = ["outerShdw"];
    let known: [&str; 3] = ["blurRad", "dist", "dir"];
    let none: [&str; 0] = [];
    assert(single@ =~= seq!["outerShdw"]);
    assert(known@ =~= seq!["blurRad", "dist", "dir"]);
    assert(none@ =~= seq![]);
    check_element(e, &none, &single, &none) && match child(e, "outerShdw") {
        Some(x) => check_element(x, &known, &none, &none) && check_color_holder(x),
        None => true,
    }
}

/// The names and formulas that guide elements state.
pub open spec fn guides_in(stated: Seq<Element>) -> Seq<(Seq<char>, Seq<char>)> {
    stated.map_values(|e: Element| (text_or_empty(e, "name"@), text_or_empty(e, "fmla"@)))
}

/// An attribute's value, empty where it is absent.
pub open spec fn text_or_empty(e: Element, name: Seq<char>) -> Seq<char> {
    match attr(e, name) {
        Some(s) => s,
        None => Seq::empty(),
    }
}

/// An attribute's value, empty where it is absent.
pub fn read_text(e: &Element, name: &str) -> (r: String)
    ensures
        r@ == text_or_empty(*e, name@),
{
    match attribute(e, name) {
        Some(s) => s,
        None => String::new(),
    }
}

/// What a list of guides holds.
pub open spec fn guide_views(guides: Seq<GeomGuide>) -> Seq<(Seq<char>, Seq<char>)> {
    guides.map_values(|g: GeomGuide| (g.name@, g.formula@))
}

/// The guide elements of a preset shape.
pub open spec fn guide_elements(e: Element) -> Seq<Element> {
    match child_named(e, "avLst"@) {
        Some(l) => children_named(l, "gd"@),
        None => Seq::empty(),
    }
}

/// Whether a preset shape is what an element states.
pub open spec fn is_preset(e: Element, p: PresetGeometry) -> bool {
    &&& p.preset@ == text_or_empty(e, "prst"@)
    &&& guide_views(p.adjust_values@) == guides_in(guide_elements(e))
}

/// The preset shape that an element states.
fn read_preset(e: &Element) -> (p: PresetGeometry)
    ensures
        is_preset(*e, p),
{
    let stated: Vec<&Element> = match child(e, "avLst") {
        Some(l) => children(l, "gd"),
        None => Vec::new(),
    };
    let ghost all = guide_elements(*e);
    let mut adjust_values: Vec<GeomGuide> = Vec::new();
    let mut i: usize = 0;
    while i < stated.len()
        invariant
            stated@.len() == all.len(),
            forall|k: int| 0 <= k < stated@.len() ==> *#[trigger] stated@[k] == all[k],
            i <= stated@.len(),
            adjust_values@.len() == i,
            forall|k: int|
                0 <= k < i ==> guide_views(adjust_values@)[k] == #[trigger] guides_in(all)[k],
        decreases stated@.len() - i,
    {
        let ghost before = adjust_values@;
        adjust_values.push(
            GeomGuide { name: read_text(stated[i], "name"), formula: read_text(stated[i], "fmla") },
        );
        assert forall|k: int| 0 <= k < i + 1 implies guide_views(adjust_values@)[k]
            == #[trigger] guides_in(all)[k] by {
            if k < i {
                assert(guide_views(before)[k] == guides_in(all)[k]);
            }
        }
        i = i + 1;
    }
    assert(guide_views(adjust_values@) =~= guides_in(all));
    PresetGeometry { preset: read_text(e, "prst"), adjust_values }
}

/// Whether a preset shape reads.
pub open spec fn preset_reads(e: Element) -> bool {
    let guides = guide_elements(e);
    &&& conforms(e, seq!["prst"], seq!["avLst"], seq![])
    &&& match child_named(e, "avLst"@) {
        Some(l) => conforms(l, seq![], seq![], seq!["gd"]),
        None => true,
    }
    &&& forall|i: int|
        0 <= i < guides.len() ==> conforms(
            #[trigger] guides[i],
            seq!["name", "fmla"],
            seq![],
            seq![],
        )
}

/// Whether a preset shape reads.
fn check_preset(e: &Element) -> (r: bool)
    ensures
        r == preset_reads(*e),
{
    let known: [&str; 1] = ["prst"];
    let single: [&str; 1] = ["avLst"];
    let lists: [&str; 1] = ["gd"];
    let guide: [&str; 2] = ["name", "fmla"];
    let none: [&str; 0] = [];
    assert(known@ =~= seq!["prst"]);
    assert(single@ =~= seq!["avLst"]);
    assert(lists@ =~= seq!["gd"]);
    assert(guide@ =~= seq!["name", "fmla"]);
    assert(none@ =~= seq![]);
    if !check_element(e, &known, &single, &none) {
        return false;
    }
    let stated: Vec<&Element> = match child(e, "avLst") {
        Some(l) => {
            if !check_element(l, &none, &none, &lists) {
                return false;
            }
            children(l, "gd")
        },
        None => Vec::new(),
    };
    let ghost all = guide_elements(*e);
    let mut i: usize = 0;
    while i < stated.len()
        invariant
            all == guide_elements(*e),
            guide@ =~= seq!["name", "fmla"],
            none@ =~= seq![],
            stated@.len() == all.len(),
            forall|k: int| 0 <= k < stated@.len() ==> *#[trigger] stated@[k] == all[k],
            i <= stated@.len(),
            forall|k: int|
                0 <= k < i ==> conforms(
                    #[trigger] all[k],
                    seq!["name", "fmla"],
                    seq![],
                    seq![],
                ),
        decreases stated@.len() - i,
    {
        if !check_element(stated[i], &guide, &none, &none) {
            assert(!conforms(all[i as int], seq!["name", "fmla"], seq![], seq![]));
            return false;
        }
        i = i + 1;
    }
    true
}

/// The transform that a shape properties element states.
pub open spec fn own_transform(e: Element) -> Option<Transform2D> {
    match child_named(e, "xfrm"@) {
        Some(x) => Some(transform_in(x)),
        None => None,
    }
}

/// Whether shape properties are what an element states.
pub open spec fn is_shape_properties(e: Element, p: ShapeProperties) -> bool {
    &&& p.transform == own_transform(e)
    &&& match child_named(e, "prstGeom"@) {
        Some(x) => p.geometry matches Some(g) && is_preset(x, g),
        None => p.geometry is None,
    }
    &&& is_fill_in(e, p.fill)
    &&& match child_named(e, "ln"@) {
        Some(x) => p.outline matches Some(o) && is_outline(x, o),
        None => p.outline is None,
    }
    &&& match child_named(e, "effectLst"@) {
        Some(x) => p.effect_list matches Some(l) && effect_views(l.effects@) == effects_in(
            x.children@,
        ),
        None => p.effect_list is None,
    }
}

/// The shape properties that an element states.
pub fn read_shape_properties(e: &Element) -> (p: ShapeProperties)
    ensures
        is_shape_properties(*e, p),
{
    ShapeProperties {
        transform: match child(e, "xfrm") {
            Some(x) => Some(read_transform(x)),
            None => None,
        },
        geometry: match child(e, "prstGeom") {
            Some(x) => Some(read_preset(x)),
            None => None,
        },
        fill: pick_fill(e),
        outline: match child(e, "ln") {
            Some(x) => Some(read_outline(x)),
            None => None,
        },
        effect_list: match child(e, "effectLst") {
            Some(x) => Some(read_effects(x)),
            None => None,
        },
    }
}

/// Whether shape properties read.
pub open spec fn shape_properties_read(e: Element) -> bool {
    &&& fills_read(e)
    &&& conforms(e, seq![], seq!["xfrm", "prstGeom", "ln", "effectLst"], seq![])
    &&& match child_named(e, "xfrm"@) {
        Some(x) => transform_reads(x),
        None => true,
    }
    &&& match child_named(e, "prstGeom"@) {
        Some(x) => preset_reads(x),
        None => true,
    }
    &&& match child_named(e, "ln"@) {
        Some(x) => outline_reads(x),
        None => true,
    }
    &&& match child_named(e, "effectLst"@) {
        Some(x) => effects_read(x),
        None => true,
    }
}

/// Whether shape properties read.
pub fn check_shape_properties(e: &Element) -> (r: bool)
    ensures
        r == shape_properties_read(*e),
{
    let single: [&str; 4] = ["xfrm", "prstGeom", "ln", "effectLst"];
    let none: [&str; 0] = [];
    assert(single@ =~= seq!["xfrm", "prstGeom", "ln", "effectLst"]);
    assert(none@ =~= seq![]);
    check_fills(e) && check_element(e, &none, &single, &none) && (match child(e, "xfrm") {
        Some(x) => check_transform(x),
        None => true,
    }) && (match child(e, "prstGeom") {
        Some(x) => check_preset(x),
        None => true,
    }) && (match child(e, "ln") {
        Some(x) => check_outline(x),
        None => true,
    }) && (match child(e, "effectLst") {
        Some(x) => check_effects(x),
        None => true,
    })
}

/// Whether a reference to the theme is what an element states. An index that
/// is absent or does not read is zero, which refers to nothing.
pub open spec fn is_style_ref(e: Element, r: StyleMatrixRef) -> bool {
    &&& r.idx == match reads::<u32>(attr(e, "idx"@)) {
        Some(v) => v,
        None => 0,
    }
    &&& is_color_in(e, r.color)
}

/// The reference to the theme that an element states.
pub fn read_style_ref(e: &Element) -> (r: StyleMatrixRef)
    ensures
        is_style_ref(*e, r),
{
    StyleMatrixRef { idx: or_default(e, "idx", 0), color: read_color(e) }
}

/// Whether a reference to the theme reads.
pub open spec fn style_ref_reads(e: Option<Element>) -> bool {
    match e {
        Some(x) => conforms(x, seq!["idx"], seq![], seq![]) && color_holder_reads(x),
        None => true,
    }
}

/// Whether a reference to the theme reads.
pub fn check_style_ref(e: Option<&Element>) -> (r: bool)
    ensures
        r == style_ref_reads(crate::xml::schema::element_at(e)),
{
    match e {
        Some(x) => {
            let known: [&str; 1] = ["idx"];
            let none: [&str; 0] = [];
            assert(known@ =~= seq!["idx"]);
            assert(none@ =~= seq![]);
            check_element(x, &known, &none, &none) && check_color_holder(x)
        },
        None => true,
    }
}

/// Whether a font reference is what an element states.
pub open spec fn is_font_ref(e: Element, r: FontReference) -> bool {
    &&& r.idx == match reads::<FontCollectionIndex>(attr(e, "idx"@)) {
        Some(v) => v,
        None => FontCollectionIndex::NoFont,
    }
    &&& is_color_in(e, r.color)
}

/// The font reference that an element states.
pub fn read_font_ref(e: &Element) -> (r: FontReference)
    ensures
        is_font_ref(*e, r),
{
    FontReference {
        idx: or_default(e, "idx", FontCollectionIndex::NoFont),
        color: read_color(e),
    }
}

/// Whether an object's id, name and description are what an element states.
pub open spec fn is_doc_properties(e: Option<Element>, d: DocProperties) -> bool {
    match e {
        Some(x) => {
            &&& d.id == match reads::<u32>(attr(x, "id"@)) {
                Some(v) => v,
                None => 0,
            }
            &&& d.name@ == text_or_empty(x, "name"@)
            &&& opt_view(d.description) == attr(x, "descr"@)
            &&& d.hidden == truth(attr(x, "hidden"@))
            &&& opt_view(d.title) == attr(x, "title"@)
        },
        None => d.id == 0 && d.name@.len() == 0 && d.description is None && d.hidden is None
            && d.title is None,
    }
}

/// The id, name and description that an element states.
pub fn doc_properties(e: Option<&Element>) -> (d: DocProperties)
    ensures
        is_doc_properties(crate::xml::schema::element_at(e), d),
{
    match e {
        Some(x) => DocProperties {
            id: or_default(x, "id", 0),
            name: read_text(x, "name"),
            description: attribute(x, "descr"),
            hidden: attr_bool(x, "hidden"),
            title: attribute(x, "title"),
        },
        None => DocProperties {
            id: 0,
            name: String::new(),
            description: None,
            hidden: None,
            title: None,
        },
    }
}

} // verus!
