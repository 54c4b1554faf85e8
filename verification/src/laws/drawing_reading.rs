//! What is read of drawn objects.
use vstd::prelude::*;

use crate::dimension::Emu;
use crate::dml::body::read_body_properties;
use crate::dml::color::{color_in, color_view, parse_rgb, read_color, transforms_in};
use crate::dml::fill::{pick_fill, read_blip_fill};
use crate::dml::shape::{
    doc_properties, effects_in, is_outline, read_extent, read_font_ref, read_offset, read_outline,
    read_shape_properties, read_style_ref, read_transform,
};
use crate::model::color::DrawingColor;
use crate::model::drawing::{
    BlipFill, BodyProperties, DocProperties, DrawingFill, FontReference, GradientShadeProperties,
    LineDash, LineJoin, Outline, ShapeProperties, StyleMatrixRef, TextAutoFit,
};
use crate::model::geometry::{Offset, Size, Transform2D};
use crate::xml::event::opt_view;
use crate::xml::lenient::reads;
use crate::xml::query::{attr, child_named, children_named, opt_attr_of};
use crate::xml::tree::{Element, Node};
use crate::laws::reading::is_element_called;
use crate::laws::text_reading::{is_measure, number};

verus! {

/// Whether a truth value is what an attribute says: one of three words for true,
/// any other for false, and nothing where it is absent.
pub open spec fn is_truth(s: Option<Seq<char>>, b: Option<bool>) -> bool {
    &&& s is None <==> b is None
    &&& b == Some(true) <==> s == Some("1"@) || s == Some("true"@) || s == Some("on"@)
}

/// An offset goes across by what its element states for across, and down by what
/// it states for down.
pub proof fn an_offset_goes_across_and_down(e: &Element, r: Offset<Emu>)
    requires
        call_ensures(read_offset, (e,), r),
    ensures
        number(*e, "x"@) matches Some(n) ==> r.x.value == n,
        number(*e, "x"@) is None ==> r.x.value == 0,
        number(*e, "y"@) matches Some(n) ==> r.y.value == n,
        number(*e, "y"@) is None ==> r.y.value == 0,
{
}

/// An extent is as wide and as high as its element states, and never less than
/// nothing.
pub proof fn an_extent_is_wide_and_high(e: &Element, r: Size<Emu>)
    requires
        call_ensures(read_extent, (e,), r),
    ensures
        number(*e, "cx"@) matches Some(n) ==> r.width.value == if n < 0 {
            0i64
        } else {
            n
        },
        number(*e, "cx"@) is None ==> r.width.value == 0,
        number(*e, "cy"@) matches Some(n) ==> r.height.value == if n < 0 {
            0i64
        } else {
            n
        },
        number(*e, "cy"@) is None ==> r.height.value == 0,
{
}

/// A transform has the rotation and the flips of its own attributes, and its
/// corner and size from their own elements.
pub proof fn a_transform_is_read_by_its_parts(
    e: &Element,
    r: Transform2D,
    a: &Element,
    b: &Element,
    off: Offset<Emu>,
    ext: Size<Emu>,
)
    requires
        call_ensures(read_transform, (e,), r),
        call_ensures(read_offset, (a,), off),
        call_ensures(read_extent, (b,), ext),
    ensures
        is_measure(*e, "rot"@, r.rotation),
        is_truth(attr(*e, "flipH"@), r.flip_h),
        is_truth(attr(*e, "flipV"@), r.flip_v),
        child_named(*e, "off"@) is None ==> r.offset is None,
        child_named(*e, "off"@) == Some(*a) ==> r.offset == Some(off),
        child_named(*e, "ext"@) is None ==> r.extent is None,
        child_named(*e, "ext"@) == Some(*b) ==> r.extent == Some(ext),
{
}

/// The properties of a text box are read by their own names, the insets each for
/// its side.
pub proof fn a_text_box_is_read_by_its_names(e: &Element, r: BodyProperties)
    requires
        call_ensures(read_body_properties, (e,), r),
    ensures
        is_measure(*e, "rot"@, r.rotation),
        is_measure(*e, "lIns"@, r.left_inset),
        is_measure(*e, "tIns"@, r.top_inset),
        is_measure(*e, "rIns"@, r.right_inset),
        is_measure(*e, "bIns"@, r.bottom_inset),
        r.vert == reads::<crate::model::drawing::TextVerticalType>(attr(*e, "vert"@)),
        r.wrap == reads::<crate::model::drawing::TextWrappingType>(attr(*e, "wrap"@)),
        r.anchor == reads::<crate::model::drawing::TextAnchoringType>(attr(*e, "anchor"@)),
        r.vert_overflow == reads::<crate::model::drawing::TextVertOverflow>(
            attr(*e, "vertOverflow"@),
        ),
        child_named(*e, "noAutofit"@) is Some ==> r.auto_fit == Some(TextAutoFit::NoAutoFit),
        child_named(*e, "noAutofit"@) is None ==> {
            &&& child_named(*e, "normAutofit"@) matches Some(n) ==> (
            r.auto_fit matches Some(TextAutoFit::NormalAutoFit { font_scale }) && is_measure(
                n,
                "fontScale"@,
                font_scale,
            ))
            &&& child_named(*e, "normAutofit"@) is None ==> {
                &&& child_named(*e, "spAutoFit"@) is Some ==> r.auto_fit == Some(
                    TextAutoFit::ShapeAutoFit,
                )
                &&& child_named(*e, "spAutoFit"@) is None ==> r.auto_fit is None
            }
        },
{
}

/// The value of a hexadecimal digit.
pub open spec fn is_hex(c: char, v: int) -> bool {
    &&& '0' <= c <= '9' ==> v == c as int - '0' as int
    &&& 'a' <= c <= 'f' ==> v == c as int - 'a' as int + 10
    &&& 'A' <= c <= 'F' ==> v == c as int - 'A' as int + 10
    &&& 0 <= v < 16
}

/// Whether a character is a hexadecimal digit.
pub open spec fn is_hex_digit(c: char) -> bool {
    '0' <= c <= '9' || 'a' <= c <= 'f' || 'A' <= c <= 'F'
}

/// A colour is written with two hexadecimal digits each for red, green and blue,
/// and with nothing else.
pub proof fn a_colour_has_six_digits(s: &str, r: Option<u32>, v: Seq<int>)
    requires
        call_ensures(parse_rgb, (s,), r),
        s@.len() == 6,
        v.len() == 6,
        forall|i: int| 0 <= i < 6 ==> is_hex(#[trigger] s@[i], v[i]),
    ensures
        (forall|i: int| 0 <= i < 6 ==> is_hex_digit(#[trigger] s@[i])) ==> (r matches Some(rgb)
            && rgb == 0x10_0000 * v[0] + 0x1_0000 * v[1] + 0x1000 * v[2] + 0x100 * v[3] + 0x10
            * v[4] + v[5]),
{
    if forall|i: int| 0 <= i < 6 ==> is_hex_digit(#[trigger] s@[i]) {
        let a = s@;
        let b = a.drop_last();
        let c = b.drop_last();
        let d = c.drop_last();
        let e = d.drop_last();
        let f = e.drop_last();
        assert(is_hex_digit(a[0]) && is_hex_digit(a[1]) && is_hex_digit(a[2]) && is_hex_digit(a[3])
            && is_hex_digit(a[4]) && is_hex_digit(a[5]));
        assert(b.last() == a[4] && c.last() == a[3] && d.last() == a[2] && e.last() == a[1]
            && f.last() == a[0]);
        assert(f.drop_last().len() == 0);
        reveal_with_fuel(crate::dml::color::hex_value, 7);
        assert(is_hex(a[0], v[0]) && is_hex(a[1], v[1]) && is_hex(a[2], v[2]) && is_hex(a[3], v[3])
            && is_hex(a[4], v[4]) && is_hex(a[5], v[5]));
    }
}

/// What is not of six characters is no colour.
pub proof fn other_lengths_are_no_colour(s: &str, r: Option<u32>)
    requires
        call_ensures(parse_rgb, (s,), r),
    ensures
        s@.len() != 6 ==> r is None,
{
}

/// An element holds the colour of its own that it states, or else the colour of
/// the theme that it names, with the transforms that stand in that colour.
pub proof fn a_colour_is_its_own_or_the_themes(
    e: &Element,
    c: Option<DrawingColor>,
    s: &str,
    rgb: Option<u32>,
)
    requires
        call_ensures(read_color, (e,), c),
        call_ensures(parse_rgb, (s,), rgb),
    ensures
        child_named(*e, "srgbClr"@) matches Some(x) ==> {
            &&& attr(x, "val"@) is None ==> c is None
            &&& attr(x, "val"@) == Some(s@) ==> {
                &&& rgb is None ==> c is None
                &&& rgb matches Some(v) ==> (c matches Some(DrawingColor::Srgb {
                    rgb: w,
                    transforms,
                }) && w == v && transforms@ == transforms_in(x.children@))
            }
        },
        child_named(*e, "srgbClr"@) is None ==> {
            &&& child_named(*e, "schemeClr"@) is None ==> c is None
            &&& child_named(*e, "schemeClr"@) matches Some(x) ==> match reads::<
                crate::model::color::SchemeColorVal,
            >(attr(x, "val"@)) {
                Some(n) => c matches Some(DrawingColor::Scheme { name, transforms }) && name == n
                    && transforms@ == transforms_in(x.children@),
                None => c is None,
            }
        },
{
}

/// The transforms of a colour stand in the order of the file, each with its own
/// value. What names no transform, or states no value, is none.
pub proof fn transforms_stand_in_order(nodes: Seq<Node>, n: Node)
    ensures
        transforms_in(Seq::<Node>::empty()).len() == 0,
        n matches Node::Element(e) ==> {
            let before = transforms_in(nodes);
            let now = transforms_in(nodes.push(n));
            &&& number(*e, "val"@) is None ==> now == before
            &&& number(*e, "val"@) matches Some(v) ==> {
                &&& is_element_called(n, "tint"@) || is_element_called(n, "shade"@)
                    || is_element_called(n, "alpha"@) || is_element_called(n, "lumMod"@)
                    || is_element_called(n, "lumOff"@) || is_element_called(n, "satMod"@)
                    || is_element_called(n, "satOff"@) || is_element_called(n, "hueMod"@)
                    || is_element_called(n, "hueOff"@) ==> now.len() == before.len() + 1
                &&& now.len() == before.len() || now.len() == before.len() + 1
                &&& now.len() == before.len() ==> now == before
                &&& now.len() == before.len() + 1 ==> {
                    let t = now.last();
                    &&& now.drop_last() == before
                    &&& t.value == v
                    &&& t.kind is Tint ==> is_element_called(n, "tint"@)
                    &&& t.kind is Shade ==> is_element_called(n, "shade"@)
                    &&& t.kind is Alpha ==> is_element_called(n, "alpha"@)
                    &&& t.kind is LumMod ==> is_element_called(n, "lumMod"@)
                    &&& t.kind is LumOff ==> is_element_called(n, "lumOff"@)
                    &&& t.kind is SatMod ==> is_element_called(n, "satMod"@)
                    &&& t.kind is SatOff ==> is_element_called(n, "satOff"@)
                    &&& t.kind is HueMod ==> is_element_called(n, "hueMod"@)
                    &&& t.kind is HueOff ==> is_element_called(n, "hueOff"@)
                }
            }
        },
        !(n is Element) ==> transforms_in(nodes.push(n)) == transforms_in(nodes),
{
    assert(nodes.push(n).drop_last() =~= nodes);
    let before = transforms_in(nodes);
    if let Some(t) = crate::dml::color::transform_at(n) {
        assert(before.push(t).drop_last() =~= before);
    }
}

/// Of the fills that an element states the first of these counts: none, the
/// group's, a colour, a gradient, an image, a pattern.
pub proof fn the_first_kind_of_fill_counts(
    e: &Element,
    f: Option<DrawingFill>,
    x: &Element,
    c: Option<DrawingColor>,
)
    requires
        call_ensures(pick_fill, (e,), f),
        call_ensures(read_color, (x,), c),
    ensures
        ({
            let none = child_named(*e, "noFill"@) is Some;
            let group = child_named(*e, "grpFill"@) is Some;
            let solid = child_named(*e, "solidFill"@);
            let gradient = child_named(*e, "gradFill"@);
            let image = child_named(*e, "blipFill"@);
            let pattern = child_named(*e, "pattFill"@) is Some;
            &&& none ==> f == Some(DrawingFill::NoFill)
            &&& !none && group ==> f == Some(DrawingFill::Group)
            &&& !none && !group && solid == Some(*x) ==> match c {
                Some(y) => f matches Some(DrawingFill::Solid(z)) && color_view(z) == color_view(y),
                None => f is None,
            }
            &&& !none && !group && solid is None ==> {
                &&& gradient is Some ==> (f matches Some(DrawingFill::Gradient(_)))
                &&& gradient is None && image is Some ==> (f matches Some(DrawingFill::Blip(_)))
                &&& gradient is None && image is None && pattern ==> f == Some(DrawingFill::Pattern)
                &&& gradient is None && image is None && !pattern ==> f is None
            }
        }),
{
}

/// A gradient that states a path runs along it, and any other in a line at the
/// angle that it states.
pub proof fn a_gradient_runs_as_stated(e: &Element, f: Option<DrawingFill>, g: Element)
    requires
        call_ensures(pick_fill, (e,), f),
        child_named(*e, "noFill"@) is None,
        child_named(*e, "grpFill"@) is None,
        child_named(*e, "solidFill"@) is None,
        child_named(*e, "gradFill"@) == Some(g),
    ensures
        f matches Some(DrawingFill::Gradient(x)) && {
            &&& child_named(g, "path"@) is Some ==> x.shade_properties is Path
            &&& child_named(g, "path"@) is None ==> (
            x.shade_properties matches GradientShadeProperties::Linear { angle } && angle.value
                == match reads::<i64>(opt_attr_of(child_named(g, "lin"@), "ang"@)) {
                Some(v) => v,
                None => 0i64,
            })
            &&& child_named(g, "gsLst"@) is None ==> x.stops@.len() == 0
            &&& child_named(g, "gsLst"@) matches Some(l) ==> crate::dml::fill::stop_views(x.stops@)
                == crate::dml::fill::stops_in(children_named(l, "gs"@))
        },
{
    let x = f->0->Gradient_0;
    assert(crate::dml::fill::stop_views(x.stops@).len() == x.stops@.len());
}

/// The stops of a gradient stand in the order of the file, each at its position
/// with its colour; one without a colour is none.
pub proof fn stops_stand_in_order(stated: Seq<Element>, s: Element)
    ensures
        crate::dml::fill::stops_in(Seq::<Element>::empty()).len() == 0,
        ({
            let before = crate::dml::fill::stops_in(stated);
            let now = crate::dml::fill::stops_in(stated.push(s));
            &&& color_in(s) is None ==> now == before
            &&& color_in(s) matches Some(c) ==> {
                &&& number(s, "pos"@) matches Some(n) ==> now == before.push((n, c))
                &&& number(s, "pos"@) is None ==> now == before.push((0i64, c))
            }
        }),
{
    assert(stated.push(s).drop_last() =~= stated);
}

/// An image fill names the image in the package and the one outside by their own
/// attributes, crops each side by its own, and is repeated where that is stated.
pub proof fn an_image_fill_is_read_by_its_names(e: &Element, b: BlipFill)
    requires
        call_ensures(read_blip_fill, (e,), b),
    ensures
        child_named(*e, "blip"@) is None ==> b.blip is None,
        child_named(*e, "blip"@) matches Some(x) ==> (b.blip matches Some(y) && (match y.embed {
            Some(r) => attr(x, "embed"@) == Some(r.id@),
            None => attr(x, "embed"@) is None,
        }) && (match y.link {
            Some(r) => attr(x, "link"@) == Some(r.id@),
            None => attr(x, "link"@) is None,
        })),
        child_named(*e, "srcRect"@) is None ==> b.src_rect is None,
        child_named(*e, "srcRect"@) matches Some(x) ==> (b.src_rect matches Some(r) && is_measure(
            x,
            "l"@,
            r.left,
        ) && is_measure(x, "t"@, r.top) && is_measure(x, "r"@, r.right) && is_measure(
            x,
            "b"@,
            r.bottom,
        )),
        b.fill_kind is Tile <==> child_named(*e, "tile"@) is Some,
        b.fill_kind is Stretch <==> child_named(*e, "tile"@) is None && child_named(*e, "stretch"@)
            is Some,
{
}

/// An outline has the width and the ends of its own attributes, the corners that
/// it states, and the pattern that it names or else spells out.
pub proof fn an_outline_is_read_by_its_names(
    e: &Element,
    o: Outline,
    f: Option<DrawingFill>,
)
    requires
        call_ensures(read_outline, (e,), o),
        call_ensures(pick_fill, (e,), f),
    ensures
        is_measure(*e, "w"@, o.width),
        o.cap == reads::<crate::model::drawing::LineCap>(attr(*e, "cap"@)),
        child_named(*e, "round"@) is Some ==> o.join == Some(LineJoin::Round),
        child_named(*e, "round"@) is None && child_named(*e, "bevel"@) is Some ==> o.join == Some(
            LineJoin::Bevel,
        ),
        child_named(*e, "round"@) is None && child_named(*e, "bevel"@) is None ==> {
            &&& child_named(*e, "miter"@) matches Some(m) ==> (o.join matches Some(LineJoin::Miter {
                limit,
            }) && is_measure(m, "lim"@, limit))
            &&& child_named(*e, "miter"@) is None ==> o.join is None
        },
        reads::<crate::model::drawing::PresetLineDashVal>(
            opt_attr_of(child_named(*e, "prstDash"@), "val"@),
        ) matches Some(p) ==> o.dash == Some(LineDash::Preset(p)),
        reads::<crate::model::drawing::PresetLineDashVal>(
            opt_attr_of(child_named(*e, "prstDash"@), "val"@),
        ) is None ==> {
            &&& child_named(*e, "custDash"@) is None ==> o.dash is None
            &&& child_named(*e, "custDash"@) matches Some(c) ==> (
            o.dash matches Some(LineDash::Custom(stops)) && {
                let stated = children_named(c, "ds"@);
                &&& stops@.len() == stated.len()
                &&& forall|i: int|
                    0 <= i < stated.len() ==> (number(#[trigger] stated[i], "d"@) matches Some(n)
                        ==> n >= 0 ==> stops@[i].dash.value == n) && (number(
                        stated[i],
                        "sp"@,
                    ) matches Some(n) ==> n >= 0 ==> stops@[i].space.value == n)
            })
        },
        o.fill is Some <==> f is Some,
        o.fill matches Some(x) ==> (f matches Some(y) && (x is NoFill <==> y is NoFill) && (x
            is Solid <==> y is Solid) && (x is Group <==> y is Group) && (x is Gradient <==> y
            is Gradient)),
{
    if let Some(LineDash::Custom(stops)) = o.dash {
        if let Some(c) = child_named(*e, "custDash"@) {
            let stated = children_named(c, "ds"@);
            assert forall|i: int| 0 <= i < stated.len() implies (number(
                #[trigger] stated[i],
                "d"@,
            ) matches Some(n) ==> n >= 0 ==> stops@[i].dash.value == n) && (number(
                stated[i],
                "sp"@,
            ) matches Some(n) ==> n >= 0 ==> stops@[i].space.value == n) by {
                assert(stops@[i] == crate::dml::shape::dash_stops(stated)[i]);
            }
        }
    }
}

/// The properties of a shape are read from their own elements: its transform, its
/// preset form, its fill, its line and its effects.
pub proof fn a_shape_is_read_by_its_parts(
    e: &Element,
    p: ShapeProperties,
    x: &Element,
    t: Transform2D,
)
    requires
        call_ensures(read_shape_properties, (e,), p),
        call_ensures(read_transform, (x,), t),
    ensures
        child_named(*e, "xfrm"@) is None ==> p.transform is None,
        child_named(*e, "xfrm"@) == Some(*x) ==> p.transform == Some(t),
        child_named(*e, "prstGeom"@) is None ==> p.geometry is None,
        child_named(*e, "prstGeom"@) matches Some(g) ==> (p.geometry matches Some(q) && (match attr(
            g,
            "prst"@,
        ) {
            Some(s) => q.preset@ == s,
            None => q.preset@.len() == 0,
        })),
        child_named(*e, "ln"@) is None <==> p.outline is None,
        child_named(*e, "ln"@) matches Some(l) ==> is_outline(l, p.outline->0),
        child_named(*e, "effectLst"@) is None <==> p.effect_list is None,
        child_named(*e, "effectLst"@) matches Some(l) ==> crate::dml::shape::effect_views(
            (p.effect_list->0).effects@,
        ) == effects_in(l.children@),
{
}

/// The adjustments of a preset form are read in order, each by its name and its
/// formula.
pub proof fn adjustments_are_read_in_order(
    e: &Element,
    p: ShapeProperties,
    g: Element,
    l: Element,
    i: int,
)
    requires
        call_ensures(read_shape_properties, (e,), p),
        child_named(*e, "prstGeom"@) == Some(g),
        child_named(g, "avLst"@) == Some(l),
        0 <= i < children_named(l, "gd"@).len(),
    ensures
        p.geometry matches Some(q) && q.adjust_values@.len() == children_named(l, "gd"@).len() && {
            let gd = children_named(l, "gd"@)[i];
            &&& attr(gd, "name"@) matches Some(s) ==> q.adjust_values@[i].name@ == s
            &&& attr(gd, "fmla"@) matches Some(s) ==> q.adjust_values@[i].formula@ == s
        },
{
    let q = p.geometry->0;
    let views = crate::dml::shape::guide_views(q.adjust_values@);
    assert(views.len() == q.adjust_values@.len());
    assert(views[i] == (q.adjust_values@[i].name@, q.adjust_values@[i].formula@));
    assert(views[i] == crate::dml::shape::guides_in(children_named(l, "gd"@))[i]);
}

/// Effects stand in the order of the file. A shadow has its own blur, distance
/// and direction, and one without a colour is none.
pub proof fn effects_stand_in_order(nodes: Seq<Node>, n: Node)
    ensures
        effects_in(Seq::<Node>::empty()).len() == 0,
        !(n is Element) ==> effects_in(nodes.push(n)) == effects_in(nodes),
        n matches Node::Element(e) ==> (is_element_called(n, "outerShdw"@) ==> match color_in(*e) {
            None => effects_in(nodes.push(n)) == effects_in(nodes),
            Some(c) => {
                let now = effects_in(nodes.push(n));
                &&& now.len() == effects_in(nodes).len() + 1
                &&& now.drop_last() == effects_in(nodes)
                &&& now.last() matches crate::dml::shape::EffectView::Shadow {
                    blur,
                    distance,
                    direction,
                    color,
                } && color == c && (match number(*e, "blurRad"@) {
                    Some(v) => blur == v,
                    None => blur == 0,
                }) && (match number(*e, "dist"@) {
                    Some(v) => distance == v,
                    None => distance == 0,
                }) && (match number(*e, "dir"@) {
                    Some(v) => direction == v,
                    None => direction == 0,
                })
            },
        }),
{
    assert(nodes.push(n).drop_last() =~= nodes);
    let before = effects_in(nodes);
    if let Some(v) = crate::dml::shape::effect_at(n) {
        assert(before.push(v).drop_last() =~= before);
    }
}

/// A reference to the theme counts the entry of its index, none where it states
/// none, and lends the colour that it holds.
pub proof fn a_reference_counts_and_lends(
    e: &Element,
    r: StyleMatrixRef,
    f: FontReference,
    c: Option<DrawingColor>,
)
    requires
        call_ensures(read_style_ref, (e,), r),
        call_ensures(read_font_ref, (e,), f),
        call_ensures(read_color, (e,), c),
    ensures
        reads::<u32>(attr(*e, "idx"@)) matches Some(n) ==> r.idx == n,
        reads::<u32>(attr(*e, "idx"@)) is None ==> r.idx == 0,
        r.color is Some <==> c is Some,
        r.color matches Some(x) ==> color_view(x) == color_view(c->0),
        f.idx is Major <==> attr(*e, "idx"@) == Some("major"@),
        f.idx is Minor <==> attr(*e, "idx"@) == Some("minor"@),
        f.color is Some <==> c is Some,
{
    reveal_strlit("major");
    reveal_strlit("minor");
    reveal_strlit("none");
    assert("major"@[1] == 'a' && "minor"@[1] == 'i' && "none"@.len() == 4 && "major"@.len() == 5
        && "minor"@.len() == 5);
}

/// An object has the id, the name, the description and the title that it states.
pub proof fn an_object_is_read_by_its_names(e: &Element, d: DocProperties)
    requires
        call_ensures(doc_properties, (Some(e),), d),
    ensures
        reads::<u32>(attr(*e, "id"@)) matches Some(n) ==> d.id == n,
        reads::<u32>(attr(*e, "id"@)) is None ==> d.id == 0,
        attr(*e, "name"@) matches Some(s) ==> d.name@ == s,
        attr(*e, "name"@) is None ==> d.name@.len() == 0,
        opt_view(d.description) == attr(*e, "descr"@),
        opt_view(d.title) == attr(*e, "title"@),
        is_truth(attr(*e, "hidden"@), d.hidden),
{
}

/// A shape has the fill that stands among its properties.
pub proof fn a_shape_has_the_fill_of_its_properties(
    e: &Element,
    p: ShapeProperties,
    f: Option<DrawingFill>,
    x: &Element,
    c: Option<DrawingColor>,
)
    requires
        call_ensures(read_shape_properties, (e,), p),
        call_ensures(pick_fill, (e,), f),
        call_ensures(read_color, (x,), c),
    ensures
        p.fill is Some <==> f is Some,
        p.fill matches Some(a) ==> (f matches Some(b) && (a is NoFill <==> b is NoFill) && (a
            is Group <==> b is Group) && (a is Solid <==> b is Solid) && (a is Gradient <==> b
            is Gradient) && (a is Blip <==> b is Blip) && (a is Pattern <==> b is Pattern)),
        p.fill matches Some(DrawingFill::Solid(a)) ==> (child_named(*e, "solidFill"@) == Some(*x)
            ==> (c matches Some(b) && color_view(a) == color_view(b))),
{
}

/// Effects are told by their names, and what has another name is none.
pub proof fn effects_are_told_by_their_names(nodes: Seq<Node>, n: Node)
    ensures
        n matches Node::Element(e) ==> {
            let before = effects_in(nodes);
            let now = effects_in(nodes.push(n));
            &&& before.len() <= now.len() <= before.len() + 1
            &&& now.len() == before.len() ==> now == before
            &&& now.len() == before.len() + 1 ==> {
                &&& now.drop_last() == before
                &&& now.last() is Shadow ==> is_element_called(n, "outerShdw"@)
                &&& now.last() is Blur ==> is_element_called(n, "blur"@)
                &&& now.last() is Glow ==> is_element_called(n, "glow"@)
                &&& now.last() is InnerShdw ==> is_element_called(n, "innerShdw"@)
                &&& now.last() is PrstShdw ==> is_element_called(n, "prstShdw"@)
                &&& now.last() is Reflection ==> is_element_called(n, "reflection"@)
                &&& now.last() is SoftEdge ==> is_element_called(n, "softEdge"@)
                &&& now.last() is FillOverlay ==> is_element_called(n, "fillOverlay"@)
            }
            &&& is_element_called(n, "blur"@) || is_element_called(n, "glow"@)
                || is_element_called(n, "innerShdw"@) || is_element_called(n, "prstShdw"@)
                || is_element_called(n, "reflection"@) || is_element_called(n, "softEdge"@)
                || is_element_called(n, "fillOverlay"@) ==> now.len() == before.len() + 1
                || is_element_called(n, "outerShdw"@)
        },
{
    assert(nodes.push(n).drop_last() =~= nodes);
    let before = effects_in(nodes);
    if let Some(v) = crate::dml::shape::effect_at(n) {
        assert(before.push(v).drop_last() =~= before);
    }
}

} // verus!
