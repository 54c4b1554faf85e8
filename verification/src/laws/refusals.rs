//! What is refused: what states a thing twice that can be stated once.
use vstd::prelude::*;

use crate::error::ParseError;
use crate::pptx::shape_parse::slide_part_from;
use crate::pptx::shapes::SlidePart;
use crate::xml::name::attr_field;
use crate::xml::query::{child_named, children_named};
use crate::xml::tree::Element;

verus! {

/// Whether an element has two children of a name.
pub open spec fn has_two(e: Element, name: Seq<char>) -> bool {
    children_named(e, name).len() > 1
}

/// Whether an element states an attribute twice.
pub open spec fn states_twice(e: Element, name: Seq<char>) -> bool {
    exists|i: int, j: int|
        0 <= i < j < e.tag.attributes@.len() && (
        #[trigger] e.tag.attributes@[i] matches Some(a) && (
        #[trigger] e.tag.attributes@[j] matches Some(b) && attr_field(a.key@) == name
            && attr_field(b.key@) == name))
}

/// Whether an element holds nothing.
pub open spec fn is_bare(e: Element) -> bool {
    e.tag.attributes@.len() == 0 && e.children@.len() == 0
}

/// The properties of a text box with anything stated twice is refused, and not where nothing is stated.
pub proof fn body_properties_state_nothing_twice(e: &Element, r: bool)
    requires
        call_ensures(crate::dml::body::check_body_properties, (e,), r),
    ensures
        has_two(*e, "noAutofit"@) ==> !r,
        has_two(*e, "normAutofit"@) ==> !r,
        has_two(*e, "spAutoFit"@) ==> !r,
        states_twice(*e, "rot"@) ==> !r,
        states_twice(*e, "vert"@) ==> !r,
        states_twice(*e, "wrap"@) ==> !r,
        states_twice(*e, "lIns"@) ==> !r,
        states_twice(*e, "tIns"@) ==> !r,
        states_twice(*e, "rIns"@) ==> !r,
        states_twice(*e, "bIns"@) ==> !r,
        states_twice(*e, "anchor"@) ==> !r,
        states_twice(*e, "vertOverflow"@) ==> !r,
        is_bare(*e) ==> r,
{
    assert(seq!["rot", "vert", "wrap", "lIns", "tIns", "rIns", "bIns", "anchor", "vertOverflow"][0]@ == "rot"@);
    assert(seq!["rot", "vert", "wrap", "lIns", "tIns", "rIns", "bIns", "anchor", "vertOverflow"][1]@ == "vert"@);
    assert(seq!["rot", "vert", "wrap", "lIns", "tIns", "rIns", "bIns", "anchor", "vertOverflow"][2]@ == "wrap"@);
    assert(seq!["rot", "vert", "wrap", "lIns", "tIns", "rIns", "bIns", "anchor", "vertOverflow"][3]@ == "lIns"@);
    assert(seq!["rot", "vert", "wrap", "lIns", "tIns", "rIns", "bIns", "anchor", "vertOverflow"][4]@ == "tIns"@);
    assert(seq!["rot", "vert", "wrap", "lIns", "tIns", "rIns", "bIns", "anchor", "vertOverflow"][5]@ == "rIns"@);
    assert(seq!["rot", "vert", "wrap", "lIns", "tIns", "rIns", "bIns", "anchor", "vertOverflow"][6]@ == "bIns"@);
    assert(seq!["rot", "vert", "wrap", "lIns", "tIns", "rIns", "bIns", "anchor", "vertOverflow"][7]@ == "anchor"@);
    assert(seq!["rot", "vert", "wrap", "lIns", "tIns", "rIns", "bIns", "anchor", "vertOverflow"][8]@ == "vertOverflow"@);
    assert(seq!["noAutofit", "normAutofit", "spAutoFit"][0]@ == "noAutofit"@);
    assert(seq!["noAutofit", "normAutofit", "spAutoFit"][1]@ == "normAutofit"@);
    assert(seq!["noAutofit", "normAutofit", "spAutoFit"][2]@ == "spAutoFit"@);
    if is_bare(*e) {
        reveal(Seq::filter);
    }
}

/// What holds a colour with anything stated twice is refused, and not where nothing is stated.
pub proof fn colours_state_nothing_twice(e: &Element, r: bool)
    requires
        call_ensures(crate::dml::color::check_color_holder, (e,), r),
    ensures
        has_two(*e, "srgbClr"@) ==> !r,
        has_two(*e, "schemeClr"@) ==> !r,
        is_bare(*e) ==> r,
{
    assert(seq!["srgbClr", "schemeClr"][0]@ == "srgbClr"@);
    assert(seq!["srgbClr", "schemeClr"][1]@ == "schemeClr"@);
    if is_bare(*e) {
        reveal(Seq::filter);
    }
}

/// An image fill with anything stated twice is refused, and not where nothing is stated.
pub proof fn image_fills_state_nothing_twice(e: &Element, r: bool)
    requires
        call_ensures(crate::dml::fill::check_blip_fill, (e,), r),
    ensures
        has_two(*e, "blip"@) ==> !r,
        has_two(*e, "srcRect"@) ==> !r,
        has_two(*e, "stretch"@) ==> !r,
        has_two(*e, "tile"@) ==> !r,
        is_bare(*e) ==> r,
{
    assert(seq!["blip", "srcRect", "stretch", "tile"][0]@ == "blip"@);
    assert(seq!["blip", "srcRect", "stretch", "tile"][1]@ == "srcRect"@);
    assert(seq!["blip", "srcRect", "stretch", "tile"][2]@ == "stretch"@);
    assert(seq!["blip", "srcRect", "stretch", "tile"][3]@ == "tile"@);
    if is_bare(*e) {
        reveal(Seq::filter);
    }
}

/// What holds a fill with anything stated twice is refused, and not where nothing is stated.
pub proof fn fills_state_nothing_twice(e: &Element, r: bool)
    requires
        call_ensures(crate::dml::fill::check_fills, (e,), r),
    ensures
        has_two(*e, "noFill"@) ==> !r,
        has_two(*e, "solidFill"@) ==> !r,
        has_two(*e, "gradFill"@) ==> !r,
        has_two(*e, "blipFill"@) ==> !r,
        has_two(*e, "pattFill"@) ==> !r,
        has_two(*e, "grpFill"@) ==> !r,
        is_bare(*e) ==> r,
{
    assert(seq!["noFill", "solidFill", "gradFill", "blipFill", "pattFill", "grpFill"][0]@ == "noFill"@);
    assert(seq!["noFill", "solidFill", "gradFill", "blipFill", "pattFill", "grpFill"][1]@ == "solidFill"@);
    assert(seq!["noFill", "solidFill", "gradFill", "blipFill", "pattFill", "grpFill"][2]@ == "gradFill"@);
    assert(seq!["noFill", "solidFill", "gradFill", "blipFill", "pattFill", "grpFill"][3]@ == "blipFill"@);
    assert(seq!["noFill", "solidFill", "gradFill", "blipFill", "pattFill", "grpFill"][4]@ == "pattFill"@);
    assert(seq!["noFill", "solidFill", "gradFill", "blipFill", "pattFill", "grpFill"][5]@ == "grpFill"@);
    if is_bare(*e) {
        reveal(Seq::filter);
    }
}

/// A transform with anything stated twice is refused, and not where nothing is stated.
pub proof fn transforms_state_nothing_twice(e: &Element, r: bool)
    requires
        call_ensures(crate::dml::shape::check_transform, (e,), r),
    ensures
        has_two(*e, "off"@) ==> !r,
        has_two(*e, "ext"@) ==> !r,
        has_two(*e, "chOff"@) ==> !r,
        has_two(*e, "chExt"@) ==> !r,
        states_twice(*e, "rot"@) ==> !r,
        states_twice(*e, "flipH"@) ==> !r,
        states_twice(*e, "flipV"@) ==> !r,
        is_bare(*e) ==> r,
{
    assert(seq!["rot", "flipH", "flipV"][0]@ == "rot"@);
    assert(seq!["rot", "flipH", "flipV"][1]@ == "flipH"@);
    assert(seq!["rot", "flipH", "flipV"][2]@ == "flipV"@);
    assert(seq!["off", "ext", "chOff", "chExt"][0]@ == "off"@);
    assert(seq!["off", "ext", "chOff", "chExt"][1]@ == "ext"@);
    assert(seq!["off", "ext", "chOff", "chExt"][2]@ == "chOff"@);
    assert(seq!["off", "ext", "chOff", "chExt"][3]@ == "chExt"@);
    if is_bare(*e) {
        reveal(Seq::filter);
    }
}

/// The properties of a shape with anything stated twice is refused, and not where nothing is stated.
pub proof fn shape_properties_state_nothing_twice(e: &Element, r: bool)
    requires
        call_ensures(crate::dml::shape::check_shape_properties, (e,), r),
    ensures
        has_two(*e, "xfrm"@) ==> !r,
        has_two(*e, "prstGeom"@) ==> !r,
        has_two(*e, "ln"@) ==> !r,
        has_two(*e, "effectLst"@) ==> !r,
        is_bare(*e) ==> r,
{
    assert(seq!["xfrm", "prstGeom", "ln", "effectLst"][0]@ == "xfrm"@);
    assert(seq!["xfrm", "prstGeom", "ln", "effectLst"][1]@ == "prstGeom"@);
    assert(seq!["xfrm", "prstGeom", "ln", "effectLst"][2]@ == "ln"@);
    assert(seq!["xfrm", "prstGeom", "ln", "effectLst"][3]@ == "effectLst"@);
    if is_bare(*e) {
        reveal(Seq::filter);
    }
}

/// The formatting of a run with anything stated twice is refused, and not where nothing is stated.
pub proof fn run_properties_state_nothing_twice(e: &Element, r: bool)
    requires
        call_ensures(crate::pptx::text_parse::check_run_properties, (e,), r),
    ensures
        has_two(*e, "solidFill"@) ==> !r,
        has_two(*e, "latin"@) ==> !r,
        has_two(*e, "ea"@) ==> !r,
        has_two(*e, "cs"@) ==> !r,
        has_two(*e, "hlinkClick"@) ==> !r,
        states_twice(*e, "sz"@) ==> !r,
        states_twice(*e, "b"@) ==> !r,
        states_twice(*e, "i"@) ==> !r,
        states_twice(*e, "u"@) ==> !r,
        states_twice(*e, "strike"@) ==> !r,
        states_twice(*e, "cap"@) ==> !r,
        states_twice(*e, "spc"@) ==> !r,
        states_twice(*e, "kern"@) ==> !r,
        states_twice(*e, "baseline"@) ==> !r,
        is_bare(*e) ==> r,
{
    assert(seq!["sz", "b", "i", "u", "strike", "cap", "spc", "kern", "baseline"][0]@ == "sz"@);
    assert(seq!["sz", "b", "i", "u", "strike", "cap", "spc", "kern", "baseline"][1]@ == "b"@);
    assert(seq!["sz", "b", "i", "u", "strike", "cap", "spc", "kern", "baseline"][2]@ == "i"@);
    assert(seq!["sz", "b", "i", "u", "strike", "cap", "spc", "kern", "baseline"][3]@ == "u"@);
    assert(seq!["sz", "b", "i", "u", "strike", "cap", "spc", "kern", "baseline"][4]@ == "strike"@);
    assert(seq!["sz", "b", "i", "u", "strike", "cap", "spc", "kern", "baseline"][5]@ == "cap"@);
    assert(seq!["sz", "b", "i", "u", "strike", "cap", "spc", "kern", "baseline"][6]@ == "spc"@);
    assert(seq!["sz", "b", "i", "u", "strike", "cap", "spc", "kern", "baseline"][7]@ == "kern"@);
    assert(seq!["sz", "b", "i", "u", "strike", "cap", "spc", "kern", "baseline"][8]@ == "baseline"@);
    assert(seq!["solidFill", "latin", "ea", "cs", "hlinkClick"][0]@ == "solidFill"@);
    assert(seq!["solidFill", "latin", "ea", "cs", "hlinkClick"][1]@ == "latin"@);
    assert(seq!["solidFill", "latin", "ea", "cs", "hlinkClick"][2]@ == "ea"@);
    assert(seq!["solidFill", "latin", "ea", "cs", "hlinkClick"][3]@ == "cs"@);
    assert(seq!["solidFill", "latin", "ea", "cs", "hlinkClick"][4]@ == "hlinkClick"@);
    if is_bare(*e) {
        reveal(Seq::filter);
    }
}

/// A text body with anything stated twice is refused, and not where nothing is stated.
pub proof fn text_bodies_state_nothing_twice(e: &Element, r: bool)
    requires
        call_ensures(crate::pptx::text_parse::check_text_body, (e,), r),
    ensures
        has_two(*e, "bodyPr"@) ==> !r,
        has_two(*e, "lstStyle"@) ==> !r,
        is_bare(*e) ==> r,
{
    assert(seq!["bodyPr", "lstStyle"][0]@ == "bodyPr"@);
    assert(seq!["bodyPr", "lstStyle"][1]@ == "lstStyle"@);
    if is_bare(*e) {
        reveal(Seq::filter);
    }
}

/// The formatting of a run in a text document with anything stated twice is refused, and not where nothing is stated.
pub proof fn word_runs_state_nothing_twice(e: &Element, r: bool)
    requires
        call_ensures(crate::docx::run::check_word_run, (e,), r),
    ensures
        has_two(*e, "rFonts"@) ==> !r,
        has_two(*e, "sz"@) ==> !r,
        has_two(*e, "b"@) ==> !r,
        has_two(*e, "i"@) ==> !r,
        has_two(*e, "u"@) ==> !r,
        has_two(*e, "strike"@) ==> !r,
        has_two(*e, "dstrike"@) ==> !r,
        has_two(*e, "color"@) ==> !r,
        has_two(*e, "spacing"@) ==> !r,
        has_two(*e, "kern"@) ==> !r,
        has_two(*e, "caps"@) ==> !r,
        has_two(*e, "smallCaps"@) ==> !r,
        has_two(*e, "vertAlign"@) ==> !r,
        is_bare(*e) ==> r,
{
    assert(seq!["rFonts", "sz", "b", "i", "u", "strike", "dstrike", "color", "spacing", "kern", "caps", "smallCaps", "vertAlign"][0]@ == "rFonts"@);
    assert(seq!["rFonts", "sz", "b", "i", "u", "strike", "dstrike", "color", "spacing", "kern", "caps", "smallCaps", "vertAlign"][1]@ == "sz"@);
    assert(seq!["rFonts", "sz", "b", "i", "u", "strike", "dstrike", "color", "spacing", "kern", "caps", "smallCaps", "vertAlign"][2]@ == "b"@);
    assert(seq!["rFonts", "sz", "b", "i", "u", "strike", "dstrike", "color", "spacing", "kern", "caps", "smallCaps", "vertAlign"][3]@ == "i"@);
    assert(seq!["rFonts", "sz", "b", "i", "u", "strike", "dstrike", "color", "spacing", "kern", "caps", "smallCaps", "vertAlign"][4]@ == "u"@);
    assert(seq!["rFonts", "sz", "b", "i", "u", "strike", "dstrike", "color", "spacing", "kern", "caps", "smallCaps", "vertAlign"][5]@ == "strike"@);
    assert(seq!["rFonts", "sz", "b", "i", "u", "strike", "dstrike", "color", "spacing", "kern", "caps", "smallCaps", "vertAlign"][6]@ == "dstrike"@);
    assert(seq!["rFonts", "sz", "b", "i", "u", "strike", "dstrike", "color", "spacing", "kern", "caps", "smallCaps", "vertAlign"][7]@ == "color"@);
    assert(seq!["rFonts", "sz", "b", "i", "u", "strike", "dstrike", "color", "spacing", "kern", "caps", "smallCaps", "vertAlign"][8]@ == "spacing"@);
    assert(seq!["rFonts", "sz", "b", "i", "u", "strike", "dstrike", "color", "spacing", "kern", "caps", "smallCaps", "vertAlign"][9]@ == "kern"@);
    assert(seq!["rFonts", "sz", "b", "i", "u", "strike", "dstrike", "color", "spacing", "kern", "caps", "smallCaps", "vertAlign"][10]@ == "caps"@);
    assert(seq!["rFonts", "sz", "b", "i", "u", "strike", "dstrike", "color", "spacing", "kern", "caps", "smallCaps", "vertAlign"][11]@ == "smallCaps"@);
    assert(seq!["rFonts", "sz", "b", "i", "u", "strike", "dstrike", "color", "spacing", "kern", "caps", "smallCaps", "vertAlign"][12]@ == "vertAlign"@);
    if is_bare(*e) {
        reveal(Seq::filter);
    }
}

/// A list style with anything stated twice is refused, and not where nothing is stated.
pub proof fn list_styles_state_nothing_twice(e: &Element, r: bool)
    requires
        call_ensures(crate::pptx::text_parse::check_list_style, (Some(e),), r),
    ensures
        has_two(*e, "lvl1pPr"@) ==> !r,
        has_two(*e, "lvl2pPr"@) ==> !r,
        has_two(*e, "lvl3pPr"@) ==> !r,
        has_two(*e, "lvl4pPr"@) ==> !r,
        has_two(*e, "lvl5pPr"@) ==> !r,
        has_two(*e, "lvl6pPr"@) ==> !r,
        has_two(*e, "lvl7pPr"@) ==> !r,
        has_two(*e, "lvl8pPr"@) ==> !r,
        has_two(*e, "lvl9pPr"@) ==> !r,
        is_bare(*e) ==> r,
{
    assert(seq!["lvl1pPr", "lvl2pPr", "lvl3pPr", "lvl4pPr", "lvl5pPr", "lvl6pPr", "lvl7pPr", "lvl8pPr", "lvl9pPr"][0]@ == "lvl1pPr"@);
    assert(seq!["lvl1pPr", "lvl2pPr", "lvl3pPr", "lvl4pPr", "lvl5pPr", "lvl6pPr", "lvl7pPr", "lvl8pPr", "lvl9pPr"][1]@ == "lvl2pPr"@);
    assert(seq!["lvl1pPr", "lvl2pPr", "lvl3pPr", "lvl4pPr", "lvl5pPr", "lvl6pPr", "lvl7pPr", "lvl8pPr", "lvl9pPr"][2]@ == "lvl3pPr"@);
    assert(seq!["lvl1pPr", "lvl2pPr", "lvl3pPr", "lvl4pPr", "lvl5pPr", "lvl6pPr", "lvl7pPr", "lvl8pPr", "lvl9pPr"][3]@ == "lvl4pPr"@);
    assert(seq!["lvl1pPr", "lvl2pPr", "lvl3pPr", "lvl4pPr", "lvl5pPr", "lvl6pPr", "lvl7pPr", "lvl8pPr", "lvl9pPr"][4]@ == "lvl5pPr"@);
    assert(seq!["lvl1pPr", "lvl2pPr", "lvl3pPr", "lvl4pPr", "lvl5pPr", "lvl6pPr", "lvl7pPr", "lvl8pPr", "lvl9pPr"][5]@ == "lvl6pPr"@);
    assert(seq!["lvl1pPr", "lvl2pPr", "lvl3pPr", "lvl4pPr", "lvl5pPr", "lvl6pPr", "lvl7pPr", "lvl8pPr", "lvl9pPr"][6]@ == "lvl7pPr"@);
    assert(seq!["lvl1pPr", "lvl2pPr", "lvl3pPr", "lvl4pPr", "lvl5pPr", "lvl6pPr", "lvl7pPr", "lvl8pPr", "lvl9pPr"][7]@ == "lvl8pPr"@);
    assert(seq!["lvl1pPr", "lvl2pPr", "lvl3pPr", "lvl4pPr", "lvl5pPr", "lvl6pPr", "lvl7pPr", "lvl8pPr", "lvl9pPr"][8]@ == "lvl9pPr"@);
    if is_bare(*e) {
        reveal(Seq::filter);
    }
}

/// A reference to the theme with anything stated twice is refused, and not where nothing is stated.
pub proof fn references_state_nothing_twice(e: &Element, r: bool)
    requires
        call_ensures(crate::dml::shape::check_style_ref, (Some(e),), r),
    ensures
        has_two(*e, "srgbClr"@) ==> !r,
        has_two(*e, "schemeClr"@) ==> !r,
        states_twice(*e, "idx"@) ==> !r,
        is_bare(*e) ==> r,
{
    assert(seq!["idx"][0]@ == "idx"@);
    assert(seq!["srgbClr", "schemeClr"][0]@ == "srgbClr"@);
    assert(seq!["srgbClr", "schemeClr"][1]@ == "schemeClr"@);
    if is_bare(*e) {
        reveal(Seq::filter);
    }
}

/// A part with anything stated twice is refused.
pub proof fn parts_state_nothing_twice(root: Element, r: Result<SlidePart, ParseError>)
    requires
        call_ensures(slide_part_from, (&Some(root),), r),
    ensures
        has_two(root, "cSld"@) ==> r == Err::<SlidePart, ParseError>(ParseError::Schema),
        has_two(root, "clrMap"@) ==> r == Err::<SlidePart, ParseError>(ParseError::Schema),
        has_two(root, "clrMapOvr"@) ==> r == Err::<SlidePart, ParseError>(ParseError::Schema),
        states_twice(root, "showMasterSp"@) ==> r == Err::<SlidePart, ParseError>(
            ParseError::Schema,
        ),
        child_named(root, "cSld"@) matches Some(c) ==> (has_two(c, "spTree"@) || has_two(c, "bg"@)
            ==> r == Err::<SlidePart, ParseError>(ParseError::Schema)),
        is_bare(root) ==> r is Ok,
{
    assert(seq!["showMasterSp"][0]@ == "showMasterSp"@);
    assert(seq!["cSld", "clrMap", "clrMapOvr"][0]@ == "cSld"@);
    assert(seq!["cSld", "clrMap", "clrMapOvr"][1]@ == "clrMap"@);
    assert(seq!["cSld", "clrMap", "clrMapOvr"][2]@ == "clrMapOvr"@);
    assert(seq!["bg", "spTree"][0]@ == "bg"@);
    assert(seq!["bg", "spTree"][1]@ == "spTree"@);
    if is_bare(root) {
        reveal(Seq::filter);
    }
}

} // verus!
