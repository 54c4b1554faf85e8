//! Colours.
use vstd::prelude::*;
use std::rc::Rc;

use crate::model::color::{ColorTransform, ColorTransformKind, DrawingColor, SchemeColorVal};
use crate::scan::{chars_of, str_eq};
use crate::xml::lenient::{opt_attr, reads, AttrValue};
use crate::xml::query::{
    attr, attribute, child, child_named, element_local_name, element_name,
};
use crate::xml::schema::{check_element, conforms};
use crate::xml::tree::{Element, Node};

verus! {

impl AttrValue for SchemeColorVal {
    open spec fn read(s: Seq<char>) -> Option<SchemeColorVal> {
        if s == "bg1"@ {
            Some(SchemeColorVal::Bg1)
        } else if s == "tx1"@ {
            Some(SchemeColorVal::Tx1)
        } else if s == "bg2"@ {
            Some(SchemeColorVal::Bg2)
        } else if s == "tx2"@ {
            Some(SchemeColorVal::Tx2)
        } else if s == "accent1"@ {
            Some(SchemeColorVal::Accent1)
        } else if s == "accent2"@ {
            Some(SchemeColorVal::Accent2)
        } else if s == "accent3"@ {
            Some(SchemeColorVal::Accent3)
        } else if s == "accent4"@ {
            Some(SchemeColorVal::Accent4)
        } else if s == "accent5"@ {
            Some(SchemeColorVal::Accent5)
        } else if s == "accent6"@ {
            Some(SchemeColorVal::Accent6)
        } else if s == "hlink"@ {
            Some(SchemeColorVal::Hlink)
        } else if s == "folHlink"@ {
            Some(SchemeColorVal::FolHlink)
        } else if s == "dk1"@ {
            Some(SchemeColorVal::Dk1)
        } else if s == "lt1"@ {
            Some(SchemeColorVal::Lt1)
        } else if s == "dk2"@ {
            Some(SchemeColorVal::Dk2)
        } else if s == "lt2"@ {
            Some(SchemeColorVal::Lt2)
        } else if s == "phClr"@ {
            Some(SchemeColorVal::PhClr)
        } else {
            None
        }
    }

    fn parse(s: &str) -> (r: Option<SchemeColorVal>) {
        if str_eq(s, "bg1") {
            Some(SchemeColorVal::Bg1)
        } else if str_eq(s, "tx1") {
            Some(SchemeColorVal::Tx1)
        } else if str_eq(s, "bg2") {
            Some(SchemeColorVal::Bg2)
        } else if str_eq(s, "tx2") {
            Some(SchemeColorVal::Tx2)
        } else if str_eq(s, "accent1") {
            Some(SchemeColorVal::Accent1)
        } else if str_eq(s, "accent2") {
            Some(SchemeColorVal::Accent2)
        } else if str_eq(s, "accent3") {
            Some(SchemeColorVal::Accent3)
        } else if str_eq(s, "accent4") {
            Some(SchemeColorVal::Accent4)
        } else if str_eq(s, "accent5") {
            Some(SchemeColorVal::Accent5)
        } else if str_eq(s, "accent6") {
            Some(SchemeColorVal::Accent6)
        } else if str_eq(s, "hlink") {
            Some(SchemeColorVal::Hlink)
        } else if str_eq(s, "folHlink") {
            Some(SchemeColorVal::FolHlink)
        } else if str_eq(s, "dk1") {
            Some(SchemeColorVal::Dk1)
        } else if str_eq(s, "lt1") {
            Some(SchemeColorVal::Lt1)
        } else if str_eq(s, "dk2") {
            Some(SchemeColorVal::Dk2)
        } else if str_eq(s, "lt2") {
            Some(SchemeColorVal::Lt2)
        } else if str_eq(s, "phClr") {
            Some(SchemeColorVal::PhClr)
        } else {
            None
        }
    }
}

/// The value of a hexadecimal digit.
pub open spec fn hex_digit(c: char) -> Option<nat> {
    if '0' <= c <= '9' {
        Some((c as nat - '0' as nat) as nat)
    } else if 'a' <= c <= 'f' {
        Some((c as nat - 'a' as nat + 10) as nat)
    } else if 'A' <= c <= 'F' {
        Some((c as nat - 'A' as nat + 10) as nat)
    } else {
        None
    }
}

/// The number that a run of hexadecimal digits denotes.
pub open spec fn hex_value(s: Seq<char>) -> Option<nat>
    decreases s.len(),
{
    if s.len() == 0 {
        Some(0)
    } else {
        match (hex_value(s.drop_last()), hex_digit(s.last())) {
            (Some(v), Some(d)) => Some(v * 16 + d),
            _ => None,
        }
    }
}

/// The colour that six hexadecimal digits denote.
pub open spec fn rgb_value(s: Seq<char>) -> Option<nat> {
    if s.len() == 6 {
        hex_value(s)
    } else {
        None
    }
}

/// The value of a hexadecimal digit.
fn hex(c: char) -> (r: Option<u32>)
    ensures
        (match r {
            Some(v) => Some(v as nat),
            None => None,
        }) == hex_digit(c),
        r matches Some(v) ==> v < 16,
{
    let v: u32 = c as u32;
    if '0' <= c && c <= '9' {
        Some(v - 48)
    } else if 'a' <= c && c <= 'f' {
        Some(v - 87)
    } else if 'A' <= c && c <= 'F' {
        Some(v - 55)
    } else {
        None
    }
}

/// No longer run of digits is a number where a shorter one is none.
proof fn hex_value_of_part(s: Seq<char>, k: int)
    requires
        0 <= k <= s.len(),
        hex_value(s.take(k)) is None,
    ensures
        hex_value(s) is None,
    decreases s.len() - k,
{
    if k < s.len() {
        assert(s.take(k + 1).drop_last() =~= s.take(k));
        hex_value_of_part(s, k + 1);
    } else {
        assert(s.take(k) =~= s);
    }
}

/// The colour that six hexadecimal digits denote.
pub fn parse_rgb(s: &str) -> (r: Option<u32>)
    ensures
        (match r {
            Some(v) => Some(v as nat),
            None => None,
        }) == rgb_value(s@),
{
    let all: Vec<char> = chars_of(s);
    if all.len() != 6 {
        return None;
    }
    let mut acc: u32 = 0;
    let mut bound: u32 = 1;
    let mut i: usize = 0;
    while i < 6
        invariant
            all@ == s@,
            all@.len() == 6,
            i <= 6,
            hex_value(all@.take(i as int)) == Some(acc as nat),
            acc < bound,
            i == 0 ==> bound == 1,
            i == 1 ==> bound == 0x10,
            i == 2 ==> bound == 0x100,
            i == 3 ==> bound == 0x1000,
            i == 4 ==> bound == 0x1_0000,
            i == 5 ==> bound == 0x10_0000,
            i == 6 ==> bound == 0x100_0000,
        decreases 6 - i,
    {
        assert(all@.take(i + 1).drop_last() =~= all@.take(i as int));
        match hex(all[i]) {
            Some(d) => {
                acc = acc * 16 + d;
                bound = bound * 16;
            },
            None => {
                proof {
                    hex_value_of_part(all@, i + 1);
                }
                return None;
            },
        }
        i = i + 1;
    }
    assert(all@.take(6) =~= all@);
    Some(acc)
}

/// What a transform of the given name does.
pub open spec fn transform_kind(name: Seq<char>) -> Option<ColorTransformKind> {
    if name == "tint"@ {
        Some(ColorTransformKind::Tint)
    } else if name == "shade"@ {
        Some(ColorTransformKind::Shade)
    } else if name == "alpha"@ {
        Some(ColorTransformKind::Alpha)
    } else if name == "lumMod"@ {
        Some(ColorTransformKind::LumMod)
    } else if name == "lumOff"@ {
        Some(ColorTransformKind::LumOff)
    } else if name == "satMod"@ {
        Some(ColorTransformKind::SatMod)
    } else if name == "satOff"@ {
        Some(ColorTransformKind::SatOff)
    } else if name == "hueMod"@ {
        Some(ColorTransformKind::HueMod)
    } else if name == "hueOff"@ {
        Some(ColorTransformKind::HueOff)
    } else {
        None
    }
}

/// What a transform of the given name does.
fn kind_of_transform(name: &str) -> (r: Option<ColorTransformKind>)
    ensures
        r == transform_kind(name@),
{
    if str_eq(name, "tint") {
        Some(ColorTransformKind::Tint)
    } else if str_eq(name, "shade") {
        Some(ColorTransformKind::Shade)
    } else if str_eq(name, "alpha") {
        Some(ColorTransformKind::Alpha)
    } else if str_eq(name, "lumMod") {
        Some(ColorTransformKind::LumMod)
    } else if str_eq(name, "lumOff") {
        Some(ColorTransformKind::LumOff)
    } else if str_eq(name, "satMod") {
        Some(ColorTransformKind::SatMod)
    } else if str_eq(name, "satOff") {
        Some(ColorTransformKind::SatOff)
    } else if str_eq(name, "hueMod") {
        Some(ColorTransformKind::HueMod)
    } else if str_eq(name, "hueOff") {
        Some(ColorTransformKind::HueOff)
    } else {
        None
    }
}

/// The transform that a node states, where it states one.
pub open spec fn transform_at(n: Node) -> Option<ColorTransform> {
    match n {
        Node::Element(e) => match element_name(*e) {
            Some(name) => match (transform_kind(name), reads::<i64>(attr(*e, "val"@))) {
                (Some(kind), Some(value)) => Some(ColorTransform { kind, value }),
                _ => None,
            },
            None => None,
        },
        _ => None,
    }
}

/// The transforms that a list of nodes states, in order.
pub open spec fn transforms_in(nodes: Seq<Node>) -> Seq<ColorTransform>
    decreases nodes.len(),
{
    if nodes.len() == 0 {
        Seq::empty()
    } else {
        match transform_at(nodes.last()) {
            Some(t) => transforms_in(nodes.drop_last()).push(t),
            None => transforms_in(nodes.drop_last()),
        }
    }
}

/// The transform that a node states, where it states one.
fn read_transform(n: &Node) -> (r: Option<ColorTransform>)
    ensures
        r == transform_at(*n),
{
    match n {
        Node::Element(e) => match element_local_name(e) {
            Some(name) => match kind_of_transform(name.as_str()) {
                Some(kind) => match opt_attr::<i64>(e, "val") {
                    Some(value) => Some(ColorTransform { kind, value }),
                    None => None,
                },
                None => None,
            },
            None => None,
        },
        _ => None,
    }
}

/// The transforms that the children of a colour state, in order.
fn read_transforms(e: &Element) -> (r: Vec<ColorTransform>)
    ensures
        r@ == transforms_in(e.children@),
{
    let mut out: Vec<ColorTransform> = Vec::new();
    let mut i: usize = 0;
    while i < e.children.len()
        invariant
            i <= e.children@.len(),
            out@ == transforms_in(e.children@.take(i as int)),
        decreases e.children@.len() - i,
    {
        assert(e.children@.take(i + 1).drop_last() =~= e.children@.take(i as int));
        match read_transform(&e.children[i]) {
            Some(t) => {
                out.push(t);
            },
            None => {},
        }
        i = i + 1;
    }
    assert(e.children@.take(i as int) =~= e.children@);
    out
}

/// What a colour expression holds.
pub enum ColorView {
    Srgb { rgb: nat, transforms: Seq<ColorTransform> },
    Scheme { name: SchemeColorVal, transforms: Seq<ColorTransform> },
}

/// What a colour expression holds.
pub open spec fn color_view(c: DrawingColor) -> ColorView {
    match c {
        DrawingColor::Srgb { rgb, transforms } => ColorView::Srgb {
            rgb: rgb as nat,
            transforms: transforms@,
        },
        DrawingColor::Scheme { name, transforms } => ColorView::Scheme {
            name,
            transforms: transforms@,
        },
    }
}

/// The colour that an element holds. It holds none where it has no colour
/// child, or that child names no colour.
pub open spec fn color_in(e: Element) -> Option<ColorView> {
    match child_named(e, "srgbClr"@) {
        Some(x) => match attr(x, "val"@) {
            Some(s) => match rgb_value(s) {
                Some(rgb) => Some(
                    ColorView::Srgb { rgb, transforms: transforms_in(x.children@) },
                ),
                None => None,
            },
            None => None,
        },
        None => match child_named(e, "schemeClr"@) {
            Some(x) => match reads::<SchemeColorVal>(attr(x, "val"@)) {
                Some(name) => Some(
                    ColorView::Scheme { name, transforms: transforms_in(x.children@) },
                ),
                None => None,
            },
            None => None,
        },
    }
}

/// Whether a colour is the one that an element holds.
pub open spec fn is_color_in(e: Element, c: Option<DrawingColor>) -> bool {
    color_in(e) == match c {
        Some(x) => Some(color_view(x)),
        None => None,
    }
}

/// The colour that an element holds.
pub fn read_color(e: &Element) -> (c: Option<DrawingColor>)
    ensures
        is_color_in(*e, c),
{
    match child(e, "srgbClr") {
        Some(x) => match attribute(x, "val") {
            Some(s) => match parse_rgb(s.as_str()) {
                Some(rgb) => Some(
                    DrawingColor::Srgb { rgb, transforms: Rc::new(read_transforms(x)) },
                ),
                None => None,
            },
            None => None,
        },
        None => match child(e, "schemeClr") {
            Some(x) => match opt_attr::<SchemeColorVal>(x, "val") {
                Some(name) => Some(
                    DrawingColor::Scheme { name, transforms: Rc::new(read_transforms(x)) },
                ),
                None => None,
            },
            None => None,
        },
    }
}

/// Whether a colour child reads.
pub open spec fn color_reads(e: Option<Element>) -> bool {
    match e {
        Some(x) => conforms(x, seq!["val"], seq![], seq![]),
        None => true,
    }
}

/// Whether an element that holds a colour reads.
pub open spec fn color_holder_reads(e: Element) -> bool {
    &&& conforms(e, seq![], seq!["srgbClr", "schemeClr"], seq![])
    &&& color_reads(child_named(e, "srgbClr"@))
    &&& color_reads(child_named(e, "schemeClr"@))
}

/// Whether a colour child reads.
fn check_color(e: Option<&Element>) -> (r: bool)
    ensures
        r == color_reads(
            match e {
                Some(x) => Some(*x),
                None => None,
            },
        ),
{
    match e {
        Some(x) => {
            let known: [&str; 1] = ["val"];
            let none: [&str; 0] = [];
            assert(known@ =~= seq!["val"]);
            assert(none@ =~= seq![]);
            check_element(x, &known, &none, &none)
        },
        None => true,
    }
}

/// Whether an element that holds a colour reads.
pub fn check_color_holder(e: &Element) -> (r: bool)
    ensures
        r == color_holder_reads(*e),
{
    let single: [&str; 2] = ["srgbClr", "schemeClr"];
    let none: [&str; 0] = [];
    assert(single@ =~= seq!["srgbClr", "schemeClr"]);
    assert(none@ =~= seq![]);
    check_element(e, &none, &single, &none) && check_color(child(e, "srgbClr")) && check_color(
        child(e, "schemeClr"),
    )
}

} // verus!
