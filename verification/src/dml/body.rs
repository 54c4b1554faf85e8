//! Text box properties.
use vstd::prelude::*;

use crate::model::drawing::{
    BodyProperties, TextAnchoringType, TextAutoFit, TextVertOverflow, TextVerticalType,
    TextWrappingType,
};
use crate::scan::str_eq;
use crate::xml::lenient::{opt_attr, reads, AttrValue};
use crate::xml::query::{attr, child, child_named};
use crate::xml::schema::{check_element, conforms};
use crate::xml::tree::Element;

verus! {

impl AttrValue for TextAnchoringType {
    open spec fn read(s: Seq<char>) -> Option<TextAnchoringType> {
        if s == "t"@ {
            Some(TextAnchoringType::Top)
        } else if s == "ctr"@ {
            Some(TextAnchoringType::Center)
        } else if s == "b"@ {
            Some(TextAnchoringType::Bottom)
        } else if s == "just"@ {
            Some(TextAnchoringType::Justified)
        } else if s == "dist"@ {
            Some(TextAnchoringType::Distributed)
        } else {
            None
        }
    }

    fn parse(s: &str) -> (r: Option<TextAnchoringType>) {
        if str_eq(s, "t") {
            Some(TextAnchoringType::Top)
        } else if str_eq(s, "ctr") {
            Some(TextAnchoringType::Center)
        } else if str_eq(s, "b") {
            Some(TextAnchoringType::Bottom)
        } else if str_eq(s, "just") {
            Some(TextAnchoringType::Justified)
        } else if str_eq(s, "dist") {
            Some(TextAnchoringType::Distributed)
        } else {
            None
        }
    }
}

impl AttrValue for TextVerticalType {
    open spec fn read(s: Seq<char>) -> Option<TextVerticalType> {
        if s == "horz"@ {
            Some(TextVerticalType::Horizontal)
        } else if s == "vert"@ {
            Some(TextVerticalType::Vertical)
        } else if s == "vert270"@ {
            Some(TextVerticalType::Vertical270)
        } else if s == "wordArtVert"@ {
            Some(TextVerticalType::WordArtVertical)
        } else if s == "eaVert"@ {
            Some(TextVerticalType::EastAsianVertical)
        } else if s == "mongolianVert"@ {
            Some(TextVerticalType::MongolianVertical)
        } else if s == "wordArtVertRtl"@ {
            Some(TextVerticalType::WordArtVerticalRtl)
        } else {
            None
        }
    }

    fn parse(s: &str) -> (r: Option<TextVerticalType>) {
        if str_eq(s, "horz") {
            Some(TextVerticalType::Horizontal)
        } else if str_eq(s, "vert") {
            Some(TextVerticalType::Vertical)
        } else if str_eq(s, "vert270") {
            Some(TextVerticalType::Vertical270)
        } else if str_eq(s, "wordArtVert") {
            Some(TextVerticalType::WordArtVertical)
        } else if str_eq(s, "eaVert") {
            Some(TextVerticalType::EastAsianVertical)
        } else if str_eq(s, "mongolianVert") {
            Some(TextVerticalType::MongolianVertical)
        } else if str_eq(s, "wordArtVertRtl") {
            Some(TextVerticalType::WordArtVerticalRtl)
        } else {
            None
        }
    }
}

impl AttrValue for TextWrappingType {
    open spec fn read(s: Seq<char>) -> Option<TextWrappingType> {
        if s == "none"@ {
            Some(TextWrappingType::NoWrap)
        } else if s == "square"@ {
            Some(TextWrappingType::Square)
        } else {
            None
        }
    }

    fn parse(s: &str) -> (r: Option<TextWrappingType>) {
        if str_eq(s, "none") {
            Some(TextWrappingType::NoWrap)
        } else if str_eq(s, "square") {
            Some(TextWrappingType::Square)
        } else {
            None
        }
    }
}

impl AttrValue for TextVertOverflow {
    open spec fn read(s: Seq<char>) -> Option<TextVertOverflow> {
        if s == "overflow"@ {
            Some(TextVertOverflow::Overflow)
        } else if s == "clip"@ {
            Some(TextVertOverflow::Clip)
        } else if s == "ellipsis"@ {
            Some(TextVertOverflow::Ellipsis)
        } else {
            None
        }
    }

    fn parse(s: &str) -> (r: Option<TextVertOverflow>) {
        if str_eq(s, "overflow") {
            Some(TextVertOverflow::Overflow)
        } else if str_eq(s, "clip") {
            Some(TextVertOverflow::Clip)
        } else if str_eq(s, "ellipsis") {
            Some(TextVertOverflow::Ellipsis)
        } else {
            None
        }
    }
}

/// How an element says that text and box are fitted to each other.
pub open spec fn auto_fit_in(e: Element) -> Option<TextAutoFit> {
    if child_named(e, "noAutofit"@) is Some {
        Some(TextAutoFit::NoAutoFit)
    } else {
        match child_named(e, "normAutofit"@) {
            Some(n) => Some(
                TextAutoFit::NormalAutoFit { font_scale: reads(attr(n, "fontScale"@)) },
            ),
            None => if child_named(e, "spAutoFit"@) is Some {
                Some(TextAutoFit::ShapeAutoFit)
            } else {
                None
            },
        }
    }
}

/// The properties that a `bodyPr` element states.
pub open spec fn body_properties(e: Element) -> BodyProperties {
    BodyProperties {
        rotation: reads(attr(e, "rot"@)),
        vert: reads(attr(e, "vert"@)),
        wrap: reads(attr(e, "wrap"@)),
        left_inset: reads(attr(e, "lIns"@)),
        top_inset: reads(attr(e, "tIns"@)),
        right_inset: reads(attr(e, "rIns"@)),
        bottom_inset: reads(attr(e, "bIns"@)),
        anchor: reads(attr(e, "anchor"@)),
        vert_overflow: reads(attr(e, "vertOverflow"@)),
        auto_fit: auto_fit_in(e),
    }
}

/// The properties that a `bodyPr` element states.
pub fn read_body_properties(e: &Element) -> (r: BodyProperties)
    ensures
        r == body_properties(*e),
{
    let auto_fit: Option<TextAutoFit> = if child(e, "noAutofit").is_some() {
        Some(TextAutoFit::NoAutoFit)
    } else {
        match child(e, "normAutofit") {
            Some(n) => Some(TextAutoFit::NormalAutoFit { font_scale: opt_attr(n, "fontScale") }),
            None => if child(e, "spAutoFit").is_some() {
                Some(TextAutoFit::ShapeAutoFit)
            } else {
                None
            },
        }
    };
    BodyProperties {
        rotation: opt_attr(e, "rot"),
        vert: opt_attr(e, "vert"),
        wrap: opt_attr(e, "wrap"),
        left_inset: opt_attr(e, "lIns"),
        top_inset: opt_attr(e, "tIns"),
        right_inset: opt_attr(e, "rIns"),
        bottom_inset: opt_attr(e, "bIns"),
        anchor: opt_attr(e, "anchor"),
        vert_overflow: opt_attr(e, "vertOverflow"),
        auto_fit,
    }
}

/// Whether a `bodyPr` element reads.
pub open spec fn body_properties_read(e: Element) -> bool {
    &&& conforms(
        e,
        seq![
            "rot", "vert", "wrap", "lIns", "tIns", "rIns", "bIns", "anchor", "vertOverflow",
        ],
        seq!["noAutofit", "normAutofit", "spAutoFit"],
        seq![],
    )
    &&& match child_named(e, "normAutofit"@) {
        Some(n) => conforms(n, seq!["fontScale"], seq![], seq![]),
        None => true,
    }
}

/// Whether a `bodyPr` element reads.
pub fn check_body_properties(e: &Element) -> (r: bool)
    ensures
        r == body_properties_read(*e),
{
    let known: [&str; 9] = [
        "rot", "vert", "wrap", "lIns", "tIns", "rIns", "bIns", "anchor", "vertOverflow",
    ];
    let single: [&str; 3] = ["noAutofit", "normAutofit", "spAutoFit"];
    let scale: [&str; 1] = ["fontScale"];
    let none: [&str; 0] = [];
    assert(known@ =~= seq![
        "rot", "vert", "wrap", "lIns", "tIns", "rIns", "bIns", "anchor", "vertOverflow",
    ]);
    assert(single@ =~= seq!["noAutofit", "normAutofit", "spAutoFit"]);
    assert(scale@ =~= seq!["fontScale"]);
    assert(none@ =~= seq![]);
    check_element(e, &known, &single, &none) && match child(e, "normAutofit") {
        Some(n) => check_element(n, &scale, &none, &none),
        None => true,
    }
}

} // verus!
