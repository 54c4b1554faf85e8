//! Which text bodies can be read, and reading them out of parts.
use vstd::prelude::*;

use crate::dml::body::{body_properties_read, check_body_properties};
use crate::dml::color::{check_color_holder, color_holder_reads};
use crate::error::ParseError;
use crate::pptx::text::{ListStyle, TextBody, TextStyles};
use crate::pptx::text_read::{
    is_list_style, is_text_body, level_name, read_list_style, read_text_body,
};
use crate::scan::str_eq;
use crate::xml::extension::{from_xml, part_root};
use crate::xml::query::{
    child, child_named, children, children_named, element_local_name, element_name,
};
use crate::xml::schema::{
    check_element, check_element_with_rest, check_opt, conforms, conforms_with_rest, element_at,
    opt_conforms,
};
use crate::xml::tree::{Element, Node};

verus! {

/// Whether run formatting reads.
pub open spec fn run_properties_read(e: Element) -> bool {
    &&& conforms(
        e,
        seq!["sz", "b", "i", "u", "strike", "cap", "spc", "kern", "baseline"],
        seq!["solidFill", "latin", "ea", "cs", "hlinkClick"],
        seq![],
    )
    &&& match child_named(e, "solidFill"@) {
        Some(f) => color_holder_reads(f),
        None => true,
    }
    &&& opt_conforms(child_named(e, "latin"@), seq!["typeface"], seq![])
    &&& opt_conforms(child_named(e, "ea"@), seq!["typeface"], seq![])
    &&& opt_conforms(child_named(e, "cs"@), seq!["typeface"], seq![])
    &&& opt_conforms(child_named(e, "hlinkClick"@), seq!["id", "action"], seq![])
}

/// Whether run formatting reads.
pub fn check_run_properties(e: &Element) -> (r: bool)
    ensures
        r == run_properties_read(*e),
{
    let known: [&str; 9] = ["sz", "b", "i", "u", "strike", "cap", "spc", "kern", "baseline"];
    let single: [&str; 5] = ["solidFill", "latin", "ea", "cs", "hlinkClick"];
    let typeface: [&str; 1] = ["typeface"];
    let link: [&str; 2] = ["id", "action"];
    let none: [&str; 0] = [];
    assert(known@ =~= seq!["sz", "b", "i", "u", "strike", "cap", "spc", "kern", "baseline"]);
    assert(single@ =~= seq!["solidFill", "latin", "ea", "cs", "hlinkClick"]);
    assert(typeface@ =~= seq!["typeface"]);
    assert(link@ =~= seq!["id", "action"]);
    assert(none@ =~= seq![]);
    check_element(e, &known, &single, &none) && (match child(e, "solidFill") {
        Some(f) => check_color_holder(f),
        None => true,
    }) && check_opt(child(e, "latin"), &typeface, &none) && check_opt(
        child(e, "ea"),
        &typeface,
        &none,
    ) && check_opt(child(e, "cs"), &typeface, &none) && check_opt(
        child(e, "hlinkClick"),
        &link,
        &none,
    )
}

/// Whether an optional run formatting reads.
pub open spec fn opt_run_properties_read(e: Option<Element>) -> bool {
    match e {
        Some(x) => run_properties_read(x),
        None => true,
    }
}

/// Whether an optional run formatting reads.
fn check_opt_run_properties(e: Option<&Element>) -> (r: bool)
    ensures
        r == opt_run_properties_read(element_at(e)),
{
    match e {
        Some(x) => check_run_properties(x),
        None => true,
    }
}

/// Whether a spacing reads.
pub open spec fn spacing_reads(e: Option<Element>) -> bool {
    match e {
        Some(x) => {
            &&& conforms(x, seq![], seq!["spcPct", "spcPts"], seq![])
            &&& opt_conforms(child_named(x, "spcPct"@), seq!["val"], seq![])
            &&& opt_conforms(child_named(x, "spcPts"@), seq!["val"], seq![])
        },
        None => true,
    }
}

/// Whether a spacing reads.
fn check_spacing(e: Option<&Element>) -> (r: bool)
    ensures
        r == spacing_reads(element_at(e)),
{
    match e {
        Some(x) => {
            let single: [&str; 2] = ["spcPct", "spcPts"];
            let val: [&str; 1] = ["val"];
            let none: [&str; 0] = [];
            assert(single@ =~= seq!["spcPct", "spcPts"]);
            assert(val@ =~= seq!["val"]);
            assert(none@ =~= seq![]);
            check_element(x, &none, &single, &none) && check_opt(child(x, "spcPct"), &val, &none)
                && check_opt(child(x, "spcPts"), &val, &none)
        },
        None => true,
    }
}

/// Whether paragraph formatting reads.
pub open spec fn paragraph_properties_read(e: Element) -> bool {
    &&& conforms(
        e,
        seq!["lvl", "algn", "marL", "marR", "indent", "defTabSz", "rtl"],
        seq![
            "lnSpc", "spcBef", "spcAft", "buNone", "buChar", "buAutoNum", "buFont", "defRPr",
        ],
        seq![],
    )
    &&& spacing_reads(child_named(e, "lnSpc"@))
    &&& spacing_reads(child_named(e, "spcBef"@))
    &&& spacing_reads(child_named(e, "spcAft"@))
    &&& opt_conforms(child_named(e, "buNone"@), seq![], seq![])
    &&& opt_conforms(child_named(e, "buChar"@), seq!["char"], seq![])
    &&& opt_conforms(child_named(e, "buAutoNum"@), seq!["type", "startAt"], seq![])
    &&& opt_conforms(child_named(e, "buFont"@), seq!["typeface"], seq![])
    &&& opt_run_properties_read(child_named(e, "defRPr"@))
}

/// Whether paragraph formatting reads.
fn check_paragraph_properties(e: &Element) -> (r: bool)
    ensures
        r == paragraph_properties_read(*e),
{
    let known: [&str; 7] = ["lvl", "algn", "marL", "marR", "indent", "defTabSz", "rtl"];
    let single: [&str; 8] = [
        "lnSpc", "spcBef", "spcAft", "buNone", "buChar", "buAutoNum", "buFont", "defRPr",
    ];
    let character: [&str; 1] = ["char"];
    let number: [&str; 2] = ["type", "startAt"];
    let typeface: [&str; 1] = ["typeface"];
    let none: [&str; 0] = [];
    assert(known@ =~= seq!["lvl", "algn", "marL", "marR", "indent", "defTabSz", "rtl"]);
    assert(single@ =~= seq![
        "lnSpc", "spcBef", "spcAft", "buNone", "buChar", "buAutoNum", "buFont", "defRPr",
    ]);
    assert(character@ =~= seq!["char"]);
    assert(number@ =~= seq!["type", "startAt"]);
    assert(typeface@ =~= seq!["typeface"]);
    assert(none@ =~= seq![]);
    check_element(e, &known, &single, &none) && check_spacing(child(e, "lnSpc")) && check_spacing(
        child(e, "spcBef"),
    ) && check_spacing(child(e, "spcAft")) && check_opt(child(e, "buNone"), &none, &none)
        && check_opt(child(e, "buChar"), &character, &none) && check_opt(
        child(e, "buAutoNum"),
        &number,
        &none,
    ) && check_opt(child(e, "buFont"), &typeface, &none) && check_opt_run_properties(
        child(e, "defRPr"),
    )
}

/// Whether an optional paragraph formatting reads.
pub open spec fn opt_paragraph_properties_read(e: Option<Element>) -> bool {
    match e {
        Some(x) => paragraph_properties_read(x),
        None => true,
    }
}

/// Whether an optional paragraph formatting reads.
fn check_opt_paragraph_properties(e: Option<&Element>) -> (r: bool)
    ensures
        r == opt_paragraph_properties_read(element_at(e)),
{
    match e {
        Some(x) => check_paragraph_properties(x),
        None => true,
    }
}

/// Whether an optional list style reads.
pub open spec fn list_style_reads(e: Option<Element>) -> bool {
    match e {
        Some(x) => {
            &&& conforms(
                x,
                seq![],
                seq![
                    "lvl1pPr", "lvl2pPr", "lvl3pPr", "lvl4pPr", "lvl5pPr", "lvl6pPr", "lvl7pPr",
                    "lvl8pPr", "lvl9pPr",
                ],
                seq![],
            )
            &&& forall|i: int|
                0 <= i < 9 ==> opt_paragraph_properties_read(
                    child_named(x, #[trigger] level_name(i)),
                )
        },
        None => true,
    }
}

/// Whether an optional list style reads.
pub fn check_list_style(e: Option<&Element>) -> (r: bool)
    ensures
        r == list_style_reads(element_at(e)),
{
    match e {
        Some(x) => {
            let single: [&str; 9] = [
                "lvl1pPr", "lvl2pPr", "lvl3pPr", "lvl4pPr", "lvl5pPr", "lvl6pPr", "lvl7pPr",
                "lvl8pPr", "lvl9pPr",
            ];
            let none: [&str; 0] = [];
            assert(single@ =~= seq![
                "lvl1pPr", "lvl2pPr", "lvl3pPr", "lvl4pPr", "lvl5pPr", "lvl6pPr", "lvl7pPr",
                "lvl8pPr", "lvl9pPr",
            ]);
            assert(none@ =~= seq![]);
            if !check_element(x, &none, &single, &none) {
                return false;
            }
            let mut i: usize = 0;
            while i < 9
                invariant
                    i <= 9,
                    element_at(e) == Some(*x),
                    single@ =~= seq![
                        "lvl1pPr", "lvl2pPr", "lvl3pPr", "lvl4pPr", "lvl5pPr", "lvl6pPr",
                        "lvl7pPr", "lvl8pPr", "lvl9pPr",
                    ],
                    forall|k: int|
                        0 <= k < i ==> opt_paragraph_properties_read(
                            child_named(*x, #[trigger] level_name(k)),
                        ),
                decreases 9 - i,
            {
                assert(single@[i as int]@ == level_name(i as int));
                if !check_opt_paragraph_properties(child(x, single[i])) {
                    return false;
                }
                i = i + 1;
            }
            true
        },
        None => true,
    }
}

/// Whether an optional element holds text alone, and all of it can be decoded.
pub open spec fn text_alone(e: Option<Element>) -> bool {
    match e {
        Some(x) => forall|i: int|
            0 <= i < x.children@.len() ==> match #[trigger] x.children@[i] {
                Node::Element(_) => false,
                Node::Text(s) => s is Some,
                Node::Skip => true,
            },
        None => true,
    }
}

/// Whether an optional element holds text alone, and all of it can be decoded.
fn check_text_alone(e: Option<&Element>) -> (r: bool)
    ensures
        r == text_alone(element_at(e)),
{
    match e {
        Some(x) => {
            let mut i: usize = 0;
            while i < x.children.len()
                invariant
                    i <= x.children@.len(),
                    element_at(e) == Some(*x),
                    forall|k: int|
                        0 <= k < i ==> match #[trigger] x.children@[k] {
                            Node::Element(_) => false,
                            Node::Text(s) => s is Some,
                            Node::Skip => true,
                        },
                decreases x.children@.len() - i,
            {
                let fine: bool = match &x.children[i] {
                    Node::Element(_) => false,
                    Node::Text(s) => s.is_some(),
                    Node::Skip => true,
                };
                if !fine {
                    let ghost bad = x.children@[i as int];
                    return false;
                }
                i = i + 1;
            }
            true
        },
        None => true,
    }
}

/// Whether a run or a field reads.
pub open spec fn run_reads(e: Element) -> bool {
    &&& conforms(e, seq![], seq!["rPr", "t"], seq![])
    &&& opt_run_properties_read(child_named(e, "rPr"@))
    &&& text_alone(child_named(e, "t"@))
}

/// Whether a run or a field reads.
fn check_run(e: &Element) -> (r: bool)
    ensures
        r == run_reads(*e),
{
    let single: [&str; 2] = ["rPr", "t"];
    let none: [&str; 0] = [];
    assert(single@ =~= seq!["rPr", "t"]);
    assert(none@ =~= seq![]);
    check_element(e, &none, &single, &none) && check_opt_run_properties(child(e, "rPr"))
        && check_text_alone(child(e, "t"))
}

/// Whether a member of a paragraph reads. One of an unknown name is passed over.
pub open spec fn paragraph_child_reads(n: Node) -> bool {
    match n {
        Node::Element(e) => match element_name(*e) {
            Some(name) => if name == "r"@ || name == "fld"@ {
                run_reads(*e)
            } else if name == "br"@ {
                conforms(*e, seq![], seq!["rPr"], seq![]) && opt_run_properties_read(
                    child_named(*e, "rPr"@),
                )
            } else if name == "endParaRPr"@ {
                run_properties_read(*e)
            } else {
                true
            },
            None => false,
        },
        _ => true,
    }
}

/// Whether a member of a paragraph reads.
fn check_paragraph_child(n: &Node) -> (r: bool)
    ensures
        r == paragraph_child_reads(*n),
{
    match n {
        Node::Element(e) => match element_local_name(e) {
            Some(name) => {
                let name: &str = name.as_str();
                if str_eq(name, "r") || str_eq(name, "fld") {
                    check_run(e)
                } else if str_eq(name, "br") {
                    let single: [&str; 1] = ["rPr"];
                    let none: [&str; 0] = [];
                    assert(single@ =~= seq!["rPr"]);
                    assert(none@ =~= seq![]);
                    check_element(e, &none, &single, &none) && check_opt_run_properties(
                        child(e, "rPr"),
                    )
                } else if str_eq(name, "endParaRPr") {
                    check_run_properties(e)
                } else {
                    true
                }
            },
            None => false,
        },
        _ => true,
    }
}

/// Whether a paragraph reads.
pub open spec fn paragraph_reads(e: Element) -> bool {
    &&& conforms_with_rest(e, seq![], seq!["pPr"])
    &&& opt_paragraph_properties_read(child_named(e, "pPr"@))
    &&& forall|i: int|
        0 <= i < e.children@.len() ==> paragraph_child_reads(#[trigger] e.children@[i])
}

/// Whether a paragraph reads.
fn check_paragraph(e: &Element) -> (r: bool)
    ensures
        r == paragraph_reads(*e),
{
    let single: [&str; 1] = ["pPr"];
    let none: [&str; 0] = [];
    assert(single@ =~= seq!["pPr"]);
    assert(none@ =~= seq![]);
    if !check_element_with_rest(e, &none, &single) || !check_opt_paragraph_properties(
        child(e, "pPr"),
    ) {
        return false;
    }
    let mut i: usize = 0;
    while i < e.children.len()
        invariant
            i <= e.children@.len(),
            forall|k: int| 0 <= k < i ==> paragraph_child_reads(#[trigger] e.children@[k]),
        decreases e.children@.len() - i,
    {
        if !check_paragraph_child(&e.children[i]) {
            assert(!paragraph_child_reads(e.children@[i as int]));
            return false;
        }
        i = i + 1;
    }
    true
}

/// Whether a text body reads.
pub open spec fn text_body_reads(e: Element) -> bool {
    let stated = children_named(e, "p"@);
    &&& conforms(e, seq![], seq!["bodyPr", "lstStyle"], seq!["p"])
    &&& match child_named(e, "bodyPr"@) {
        Some(x) => body_properties_read(x),
        None => true,
    }
    &&& list_style_reads(child_named(e, "lstStyle"@))
    &&& forall|i: int| 0 <= i < stated.len() ==> paragraph_reads(#[trigger] stated[i])
}

/// Whether a text body reads.
pub fn check_text_body(e: &Element) -> (r: bool)
    ensures
        r == text_body_reads(*e),
{
    let single: [&str; 2] = ["bodyPr", "lstStyle"];
    let lists: [&str; 1] = ["p"];
    let none: [&str; 0] = [];
    assert(single@ =~= seq!["bodyPr", "lstStyle"]);
    assert(lists@ =~= seq!["p"]);
    assert(none@ =~= seq![]);
    if !check_element(e, &none, &single, &lists) {
        return false;
    }
    let body: bool = match child(e, "bodyPr") {
        Some(x) => check_body_properties(x),
        None => true,
    };
    if !body || !check_list_style(child(e, "lstStyle")) {
        return false;
    }
    let stated: Vec<&Element> = children(e, "p");
    let mut i: usize = 0;
    while i < stated.len()
        invariant
            stated@.len() == children_named(*e, "p"@).len(),
            forall|k: int|
                0 <= k < stated@.len() ==> *#[trigger] stated@[k] == children_named(
                    *e,
                    "p"@,
                )[k],
            i <= stated@.len(),
            forall|k: int|
                0 <= k < i ==> paragraph_reads(#[trigger] children_named(*e, "p"@)[k]),
        decreases stated@.len() - i,
    {
        if !check_paragraph(stated[i]) {
            assert(!paragraph_reads(children_named(*e, "p"@)[i as int]));
            return false;
        }
        i = i + 1;
    }
    true
}

/// Whether a result is what the root element of a text body gives.
pub open spec fn text_body_outcome(
    root: Option<Element>,
    r: Result<TextBody, ParseError>,
) -> bool {
    match root {
        Some(e) => if text_body_reads(e) {
            r matches Ok(b) && is_text_body(e, b)
        } else {
            r == Err::<TextBody, ParseError>(ParseError::Schema)
        },
        None => r == Err::<TextBody, ParseError>(ParseError::Malformed),
    }
}

/// The text body that a root element states.
pub fn text_body_from(root: &Option<Element>) -> (r: Result<TextBody, ParseError>)
    ensures
        text_body_outcome(*root, r),
{
    match root {
        Some(e) => if check_text_body(e) {
            Ok(read_text_body(e))
        } else {
            Err(ParseError::Schema)
        },
        None => Err(ParseError::Malformed),
    }
}

/// Reads a text body from the bytes of its element.
pub fn parse_text_body(data: &[u8]) -> (r: Result<TextBody, ParseError>)
    ensures
        exists|root: Option<Element>| #[trigger]
            part_root(data@, root) && text_body_outcome(root, r),
{
    let root: Option<Element> = from_xml(data);
    text_body_from(&root)
}

/// Whether text styles are what a `txStyles` element states.
pub open spec fn is_text_styles(e: Option<Element>, s: TextStyles) -> bool {
    match e {
        Some(x) => {
            &&& is_list_style(child_named(x, "titleStyle"@), s.title)
            &&& is_list_style(child_named(x, "bodyStyle"@), s.body)
            &&& is_list_style(child_named(x, "otherStyle"@), s.other)
        },
        None => s.title.states_nothing() && s.body.states_nothing() && s.other.states_nothing(),
    }
}

/// Whether a master reads, as far as its text styles go.
pub open spec fn text_styles_read(e: Element) -> bool {
    &&& conforms(e, seq![], seq!["txStyles"], seq![])
    &&& match child_named(e, "txStyles"@) {
        Some(x) => {
            &&& conforms(x, seq![], seq!["titleStyle", "bodyStyle", "otherStyle"], seq![])
            &&& list_style_reads(child_named(x, "titleStyle"@))
            &&& list_style_reads(child_named(x, "bodyStyle"@))
            &&& list_style_reads(child_named(x, "otherStyle"@))
        },
        None => true,
    }
}

/// Whether a result is what the root element of a master gives.
pub open spec fn text_styles_outcome(
    root: Option<Element>,
    r: Result<TextStyles, ParseError>,
) -> bool {
    match root {
        Some(e) => if text_styles_read(e) {
            r matches Ok(s) && is_text_styles(child_named(e, "txStyles"@), s)
        } else {
            r == Err::<TextStyles, ParseError>(ParseError::Schema)
        },
        None => r == Err::<TextStyles, ParseError>(ParseError::Malformed),
    }
}

/// The text styles that the root element of a master states.
pub fn text_styles_from(root: &Option<Element>) -> (r: Result<TextStyles, ParseError>)
    ensures
        text_styles_outcome(*root, r),
{
    let e: &Element = match root {
        Some(e) => e,
        None => {
            return Err(ParseError::Malformed);
        },
    };
    let outer: [&str; 1] = ["txStyles"];
    let inner: [&str; 3] = ["titleStyle", "bodyStyle", "otherStyle"];
    let none: [&str; 0] = [];
    assert(outer@ =~= seq!["txStyles"]);
    assert(inner@ =~= seq!["titleStyle", "bodyStyle", "otherStyle"]);
    assert(none@ =~= seq![]);
    if !check_element(e, &none, &outer, &none) {
        return Err(ParseError::Schema);
    }
    match child(e, "txStyles") {
        Some(x) => {
            if !check_element(x, &none, &inner, &none) || !check_list_style(
                child(x, "titleStyle"),
            ) || !check_list_style(child(x, "bodyStyle")) || !check_list_style(
                child(x, "otherStyle"),
            ) {
                return Err(ParseError::Schema);
            }
            Ok(
                TextStyles {
                    title: read_list_style(child(x, "titleStyle")),
                    body: read_list_style(child(x, "bodyStyle")),
                    other: read_list_style(child(x, "otherStyle")),
                },
            )
        },
        None => Ok(TextStyles::default()),
    }
}

/// Reads the text styles of a slide master.
pub fn parse_text_styles(data: &[u8]) -> (r: Result<TextStyles, ParseError>)
    ensures
        exists|root: Option<Element>| #[trigger]
            part_root(data@, root) && text_styles_outcome(root, r),
{
    let root: Option<Element> = from_xml(data);
    text_styles_from(&root)
}

/// Whether a result is what the root element of a presentation gives.
pub open spec fn default_text_style_outcome(
    root: Option<Element>,
    r: Result<ListStyle, ParseError>,
) -> bool {
    match root {
        Some(e) => if conforms(e, seq![], seq!["defaultTextStyle"], seq![]) && list_style_reads(
            child_named(e, "defaultTextStyle"@),
        ) {
            r matches Ok(s) && is_list_style(child_named(e, "defaultTextStyle"@), s)
        } else {
            r == Err::<ListStyle, ParseError>(ParseError::Schema)
        },
        None => r == Err::<ListStyle, ParseError>(ParseError::Malformed),
    }
}

/// The default text style that the root element of a presentation states.
pub fn default_text_style_from(root: &Option<Element>) -> (r: Result<ListStyle, ParseError>)
    ensures
        default_text_style_outcome(*root, r),
{
    let e: &Element = match root {
        Some(e) => e,
        None => {
            return Err(ParseError::Malformed);
        },
    };
    let single: [&str; 1] = ["defaultTextStyle"];
    let none: [&str; 0] = [];
    assert(single@ =~= seq!["defaultTextStyle"]);
    assert(none@ =~= seq![]);
    if !check_element(e, &none, &single, &none) || !check_list_style(
        child(e, "defaultTextStyle"),
    ) {
        return Err(ParseError::Schema);
    }
    Ok(read_list_style(child(e, "defaultTextStyle")))
}

/// Reads the default text style of a presentation.
pub fn parse_default_text_style(data: &[u8]) -> (r: Result<ListStyle, ParseError>)
    ensures
        exists|root: Option<Element>| #[trigger]
            part_root(data@, root) && default_text_style_outcome(root, r),
{
    let root: Option<Element> = from_xml(data);
    default_text_style_from(&root)
}

/// The text body elements of diagram points, in order.
pub open spec fn point_texts(points: Seq<Element>) -> Seq<Element>
    decreases points.len(),
{
    if points.len() == 0 {
        Seq::empty()
    } else {
        match child_named(points.last(), "t"@) {
            Some(t) => point_texts(points.drop_last()).push(t),
            None => point_texts(points.drop_last()),
        }
    }
}

/// The points of a diagram.
pub open spec fn diagram_points(e: Element) -> Seq<Element> {
    match child_named(e, "ptLst"@) {
        Some(l) => children_named(l, "pt"@),
        None => Seq::empty(),
    }
}

/// Whether a diagram point reads.
pub open spec fn point_reads(p: Element) -> bool {
    &&& conforms(p, seq![], seq!["t"], seq![])
    &&& match child_named(p, "t"@) {
        Some(t) => text_body_reads(t),
        None => true,
    }
}

/// Whether a diagram reads.
pub open spec fn diagram_reads(e: Element) -> bool {
    let points = diagram_points(e);
    &&& conforms(e, seq![], seq!["ptLst"], seq![])
    &&& match child_named(e, "ptLst"@) {
        Some(l) => conforms(l, seq![], seq![], seq!["pt"]),
        None => true,
    }
    &&& forall|i: int| 0 <= i < points.len() ==> point_reads(#[trigger] points[i])
}

/// Whether text bodies are those that elements state.
pub open spec fn are_text_bodies(stated: Seq<Element>, bodies: Seq<TextBody>) -> bool {
    &&& bodies.len() == stated.len()
    &&& forall|i: int| 0 <= i < stated.len() ==> is_text_body(stated[i], #[trigger] bodies[i])
}

/// Whether a result is what the root element of a diagram's data gives.
pub open spec fn diagram_outcome(
    root: Option<Element>,
    r: Result<Vec<TextBody>, ParseError>,
) -> bool {
    match root {
        Some(e) => if diagram_reads(e) {
            r matches Ok(v) && are_text_bodies(point_texts(diagram_points(e)), v@)
        } else {
            r == Err::<Vec<TextBody>, ParseError>(ParseError::Schema)
        },
        None => r == Err::<Vec<TextBody>, ParseError>(ParseError::Malformed),
    }
}

/// Whether a diagram point reads.
fn check_point(p: &Element) -> (r: bool)
    ensures
        r == point_reads(*p),
{
    let single: [&str; 1] = ["t"];
    let none: [&str; 0] = [];
    assert(single@ =~= seq!["t"]);
    assert(none@ =~= seq![]);
    check_element(p, &none, &single, &none) && match child(p, "t") {
        Some(t) => check_text_body(t),
        None => true,
    }
}

/// The text bodies that the root element of a diagram's data states: one for each
/// point that has one, in order.
pub fn diagram_text_from(root: &Option<Element>) -> (r: Result<Vec<TextBody>, ParseError>)
    ensures
        diagram_outcome(*root, r),
{
    let e: &Element = match root {
        Some(e) => e,
        None => {
            return Err(ParseError::Malformed);
        },
    };
    let outer: [&str; 1] = ["ptLst"];
    let inner: [&str; 1] = ["pt"];
    let none: [&str; 0] = [];
    assert(outer@ =~= seq!["ptLst"]);
    assert(inner@ =~= seq!["pt"]);
    assert(none@ =~= seq![]);
    if !check_element(e, &none, &outer, &none) {
        return Err(ParseError::Schema);
    }
    let points: Vec<&Element> = match child(e, "ptLst") {
        Some(l) => {
            if !check_element(l, &none, &none, &inner) {
                return Err(ParseError::Schema);
            }
            children(l, "pt")
        },
        None => Vec::new(),
    };
    let ghost all_points = diagram_points(*e);
    assert(points@.len() == all_points.len());
    let mut out: Vec<TextBody> = Vec::new();
    let mut i: usize = 0;
    while i < points.len()
        invariant
            *root == Some(*e),
            all_points == diagram_points(*e),
            points@.len() == all_points.len(),
            forall|k: int| 0 <= k < points@.len() ==> *#[trigger] points@[k] == all_points[k],
            i <= points@.len(),
            forall|k: int| 0 <= k < i ==> point_reads(#[trigger] all_points[k]),
            are_text_bodies(point_texts(all_points.take(i as int)), out@),
        decreases points@.len() - i,
    {
        assert(all_points.take(i + 1).drop_last() =~= all_points.take(i as int));
        if !check_point(points[i]) {
            assert(!point_reads(all_points[i as int]));
            return Err(ParseError::Schema);
        }
        match child(points[i], "t") {
            Some(t) => {
                out.push(read_text_body(t));
            },
            None => {},
        }
        i = i + 1;
    }
    assert(all_points.take(i as int) =~= all_points);
    Ok(out)
}

/// Reads the text of the data part of a diagram: one body for each point that has
/// one, in order, whether it holds text or not.
pub fn parse_diagram_text(data: &[u8]) -> (r: Result<Vec<TextBody>, ParseError>)
    ensures
        exists|root: Option<Element>| #[trigger]
            part_root(data@, root) && diagram_outcome(root, r),
{
    let root: Option<Element> = from_xml(data);
    diagram_text_from(&root)
}

} // verus!
