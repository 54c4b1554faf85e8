//! Reading the parts that hold shapes.
//!
//! A part is read whole or not at all: what a shape needs must be there, and
//! what may stand once must not stand twice.
use vstd::prelude::*;
use vstd::utf8::{decode_utf8, encode_utf8, valid_utf8};

use crate::dml::fill::{
    blip_fill_reads, check_blip_fill, check_fills, fills_read, is_fill_in, pick_fill,
};
use crate::dml::shape::{
    check_shape_properties, check_style_ref, check_transform, is_style_ref, read_style_ref,
    shape_properties_read, style_ref_reads, transform_reads,
};
use crate::error::ParseError;
use crate::model::color::{default_color_map, ColorMap, SchemeColorVal};
use crate::pptx::shape_read::{
    are_shapes, content, is_auto_shape, is_connector, is_group, lower_children, lower_cxn,
    lower_grp, lower_sp, member_of, read_member, Member,
};
use crate::pptx::shapes::{Background, Shape, ShapeKind, SlidePart};
use crate::pptx::text_parse::{check_text_body, text_body_reads};
use crate::scan::str_eq;
use crate::xml::alike::without_a_mark_there_is_none;
use crate::xml::event::{
    event_views, opt_view, read_events, up_to_failure, xml_events, EventView, XmlEvent,
};
use crate::xml::extension::{
    empty_extension, from_xml, is_extension, is_extension_element, is_extension_prefix,
    may_hold_extensions, part_root, starts_extension, without_extensions,
};
use crate::xml::lenient::{attr_bool, is_true, or_default, reads, truth};
use crate::xml::name::{attr_field, attr_field_name, prefix};
use crate::xml::query::{
    attr, child, child_named, children, children_named, first_attr, grandchild, is_named, named,
};
use crate::xml::schema::{
    check_element, check_element_with_rest, check_opt, conforms, conforms_with_rest, element_at,
    opt_conforms,
};
use crate::xml::token::{
    attr_is, decode_tag, reads_as, tag_attributes, tag_is, tag_name, token_is, tokens_are, Attr,
    Tag, Token,
};
use crate::xml::tree::{
    element_end, element_end_bounds, is_root, root_start, spell, Element, Node,
};

verus! {

/// Whether the non-visual properties of a shape read: they must name it.
pub open spec fn non_visual_reads(e: Element, single: Seq<&str>) -> bool {
    &&& conforms(e, seq![], single, seq![])
    &&& child_named(e, "cNvPr"@) is Some
    &&& opt_conforms(
        child_named(e, "cNvPr"@),
        seq!["id", "name", "descr", "hidden", "title"],
        seq![],
    )
}

/// Whether the non-visual properties of a shape read.
fn check_non_visual(e: &Element, single: &[&str]) -> (r: bool)
    ensures
        r == non_visual_reads(*e, single@),
{
    let known: [&str; 5] = ["id", "name", "descr", "hidden", "title"];
    assert(known@ =~= seq!["id", "name", "descr", "hidden", "title"]);
    let none: [&str; 0] = [];
    assert(none@ =~= seq![]);
    check_element(e, &none, single, &none) && child(e, "cNvPr").is_some() && check_opt(
        child(e, "cNvPr"),
        &known,
        &none,
    )
}

/// Whether what a shape says of its placeholder reads.
pub open spec fn placeholder_reads(e: Element) -> bool {
    &&& opt_conforms(child_named(e, "nvPr"@), seq![], seq!["ph"])
    &&& opt_conforms(grandchild(e, "nvPr"@, "ph"@), seq!["type", "idx"], seq![])
}

/// Whether what a shape says of its placeholder reads.
fn check_placeholder(e: &Element) -> (r: bool)
    ensures
        r == placeholder_reads(*e),
{
    let single: [&str; 1] = ["ph"];
    assert(single@ =~= seq!["ph"]);
    let known: [&str; 2] = ["type", "idx"];
    assert(known@ =~= seq!["type", "idx"]);
    let none: [&str; 0] = [];
    assert(none@ =~= seq![]);
    check_opt(child(e, "nvPr"), &none, &single) && match child(e, "nvPr") {
        Some(x) => check_opt(child(x, "ph"), &known, &none),
        None => true,
    }
}

/// Whether optional shape properties read.
pub open spec fn properties_read(e: Option<Element>) -> bool {
    match e {
        Some(x) => shape_properties_read(x),
        None => true,
    }
}

/// Whether optional shape properties read.
fn check_properties(e: Option<&Element>) -> (r: bool)
    ensures
        r == properties_read(element_at(e)),
{
    match e {
        Some(x) => check_shape_properties(x),
        None => true,
    }
}

/// Whether a shape's references to the theme read.
pub open spec fn style_reads(e: Option<Element>) -> bool {
    match e {
        Some(x) => {
            &&& conforms(x, seq![], seq!["lnRef", "fillRef", "effectRef", "fontRef"], seq![])
            &&& style_ref_reads(child_named(x, "lnRef"@))
            &&& style_ref_reads(child_named(x, "fillRef"@))
            &&& style_ref_reads(child_named(x, "effectRef"@))
            &&& style_ref_reads(child_named(x, "fontRef"@))
        },
        None => true,
    }
}

/// Whether a shape's references to the theme read.
fn check_style(e: Option<&Element>) -> (r: bool)
    ensures
        r == style_reads(element_at(e)),
{
    match e {
        Some(x) => {
            let single: [&str; 4] = ["lnRef", "fillRef", "effectRef", "fontRef"];
            assert(single@ =~= seq!["lnRef", "fillRef", "effectRef", "fontRef"]);
            let none: [&str; 0] = [];
            assert(none@ =~= seq![]);
            check_element(x, &none, &single, &none) && check_style_ref(child(x, "lnRef"))
                && check_style_ref(child(x, "fillRef")) && check_style_ref(child(x, "effectRef"))
                && check_style_ref(child(x, "fontRef"))
        },
        None => true,
    }
}

/// Whether an optional text body reads.
pub open spec fn text_reads(e: Option<Element>) -> bool {
    match e {
        Some(x) => text_body_reads(x),
        None => true,
    }
}

/// Whether an optional text body reads.
fn check_text(e: Option<&Element>) -> (r: bool)
    ensures
        r == text_reads(element_at(e)),
{
    match e {
        Some(x) => check_text_body(x),
        None => true,
    }
}

/// Whether an auto shape reads.
pub open spec fn sp_reads(e: Element) -> bool {
    &&& conforms(e, seq![], seq!["nvSpPr", "spPr", "style", "txBody"], seq![])
    &&& match child_named(e, "nvSpPr"@) {
        Some(x) => {
            &&& non_visual_reads(x, seq!["cNvPr", "cNvSpPr", "nvPr"])
            &&& opt_conforms(child_named(x, "cNvSpPr"@), seq!["txBox"], seq![])
            &&& placeholder_reads(x)
        },
        None => true,
    }
    &&& properties_read(child_named(e, "spPr"@))
    &&& style_reads(child_named(e, "style"@))
    &&& text_reads(child_named(e, "txBody"@))
}

/// Whether an auto shape reads.
fn check_sp(e: &Element) -> (r: bool)
    ensures
        r == sp_reads(*e),
{
    let single: [&str; 4] = ["nvSpPr", "spPr", "style", "txBody"];
    assert(single@ =~= seq!["nvSpPr", "spPr", "style", "txBody"]);
    let named: [&str; 3] = ["cNvPr", "cNvSpPr", "nvPr"];
    assert(named@ =~= seq!["cNvPr", "cNvSpPr", "nvPr"]);
    let known: [&str; 1] = ["txBox"];
    assert(known@ =~= seq!["txBox"]);
    let none: [&str; 0] = [];
    assert(none@ =~= seq![]);
    check_element(e, &none, &single, &none) && (match child(e, "nvSpPr") {
        Some(x) => check_non_visual(x, &named) && check_opt(child(x, "cNvSpPr"), &known, &none)
            && check_placeholder(x),
        None => true,
    }) && check_properties(child(e, "spPr")) && check_style(child(e, "style")) && check_text(
        child(e, "txBody"),
    )
}

/// Whether a picture reads: it must be named and show an image.
pub open spec fn pic_reads(e: Element) -> bool {
    &&& conforms(e, seq![], seq!["nvPicPr", "blipFill", "spPr", "style"], seq![])
    &&& match child_named(e, "nvPicPr"@) {
        Some(x) => {
            &&& non_visual_reads(x, seq!["cNvPr", "cNvPicPr", "nvPr"])
            &&& placeholder_reads(x)
        },
        None => false,
    }
    &&& match child_named(e, "blipFill"@) {
        Some(x) => blip_fill_reads(x),
        None => false,
    }
    &&& properties_read(child_named(e, "spPr"@))
    &&& style_reads(child_named(e, "style"@))
}

/// Whether a picture reads.
fn check_pic(e: &Element) -> (r: bool)
    ensures
        r == pic_reads(*e),
{
    let single: [&str; 4] = ["nvPicPr", "blipFill", "spPr", "style"];
    assert(single@ =~= seq!["nvPicPr", "blipFill", "spPr", "style"]);
    let named: [&str; 3] = ["cNvPr", "cNvPicPr", "nvPr"];
    assert(named@ =~= seq!["cNvPr", "cNvPicPr", "nvPr"]);
    let none: [&str; 0] = [];
    assert(none@ =~= seq![]);
    check_element(e, &none, &single, &none) && (match child(e, "nvPicPr") {
        Some(x) => check_non_visual(x, &named) && check_placeholder(x),
        None => false,
    }) && (match child(e, "blipFill") {
        Some(x) => check_blip_fill(x),
        None => false,
    }) && check_properties(child(e, "spPr")) && check_style(child(e, "style"))
}

/// Whether the name of a shape that fills no placeholder reads.
pub open spec fn name_reads(e: Option<Element>) -> bool {
    match e {
        Some(x) => non_visual_reads(x, seq!["cNvPr"]),
        None => true,
    }
}

/// Whether the name of a shape that fills no placeholder reads.
fn check_name(e: Option<&Element>) -> (r: bool)
    ensures
        r == name_reads(element_at(e)),
{
    match e {
        Some(x) => {
            let named: [&str; 1] = ["cNvPr"];
            assert(named@ =~= seq!["cNvPr"]);
            check_non_visual(x, &named)
        },
        None => true,
    }
}

/// Whether a connector reads.
pub open spec fn cxn_reads(e: Element) -> bool {
    &&& conforms(e, seq![], seq!["nvCxnSpPr", "spPr", "style"], seq![])
    &&& name_reads(child_named(e, "nvCxnSpPr"@))
    &&& properties_read(child_named(e, "spPr"@))
    &&& style_reads(child_named(e, "style"@))
}

/// Whether a connector reads.
fn check_cxn(e: &Element) -> (r: bool)
    ensures
        r == cxn_reads(*e),
{
    let single: [&str; 3] = ["nvCxnSpPr", "spPr", "style"];
    assert(single@ =~= seq!["nvCxnSpPr", "spPr", "style"]);
    let none: [&str; 0] = [];
    assert(none@ =~= seq![]);
    check_element(e, &none, &single, &none) && check_name(child(e, "nvCxnSpPr"))
        && check_properties(child(e, "spPr")) && check_style(child(e, "style"))
}

/// Whether a table's cell reads.
pub open spec fn cell_reads(e: Element) -> bool {
    &&& conforms(
        e,
        seq!["gridSpan", "rowSpan", "hMerge", "vMerge"],
        seq!["txBody", "tcPr"],
        seq![],
    )
    &&& text_reads(child_named(e, "txBody"@))
    &&& opt_conforms(
        child_named(e, "tcPr"@),
        seq!["marL", "marT", "marR", "marB", "anchor", "vert"],
        seq![],
    )
}

/// Whether a table's cell reads.
fn check_cell(e: &Element) -> (r: bool)
    ensures
        r == cell_reads(*e),
{
    let known: [&str; 4] = ["gridSpan", "rowSpan", "hMerge", "vMerge"];
    assert(known@ =~= seq!["gridSpan", "rowSpan", "hMerge", "vMerge"]);
    let single: [&str; 2] = ["txBody", "tcPr"];
    assert(single@ =~= seq!["txBody", "tcPr"]);
    let placed: [&str; 6] = ["marL", "marT", "marR", "marB", "anchor", "vert"];
    assert(placed@ =~= seq!["marL", "marT", "marR", "marB", "anchor", "vert"]);
    let none: [&str; 0] = [];
    assert(none@ =~= seq![]);
    check_element(e, &known, &single, &none) && check_text(child(e, "txBody")) && check_opt(
        child(e, "tcPr"),
        &placed,
        &none,
    )
}

/// Whether a table's row reads.
pub open spec fn row_reads(e: Element) -> bool {
    let cells = children_named(e, "tc"@);
    &&& conforms(e, seq!["h"], seq![], seq!["tc"])
    &&& forall|i: int| 0 <= i < cells.len() ==> cell_reads(#[trigger] cells[i])
}

/// Whether a table's row reads.
fn check_row(e: &Element) -> (r: bool)
    ensures
        r == row_reads(*e),
{
    let known: [&str; 1] = ["h"];
    assert(known@ =~= seq!["h"]);
    let lists: [&str; 1] = ["tc"];
    assert(lists@ =~= seq!["tc"]);
    let none: [&str; 0] = [];
    assert(none@ =~= seq![]);
    if !check_element(e, &known, &none, &lists) {
        return false;
    }
    let cells: Vec<&Element> = children(e, "tc");
    let ghost all = children_named(*e, "tc"@);
    let mut i: usize = 0;
    while i < cells.len()
        invariant
            all == children_named(*e, "tc"@),
            cells@.len() == all.len(),
            forall|k: int| 0 <= k < cells@.len() ==> *#[trigger] cells@[k] == all[k],
            i <= cells@.len(),
            forall|k: int| 0 <= k < i ==> cell_reads(#[trigger] all[k]),
        decreases cells@.len() - i,
    {
        if !check_cell(cells[i]) {
            assert(!cell_reads(all[i as int]));
            return false;
        }
        i = i + 1;
    }
    true
}

/// The columns of a table's grid.
pub open spec fn grid_columns(e: Element) -> Seq<Element> {
    match child_named(e, "tblGrid"@) {
        Some(g) => children_named(g, "gridCol"@),
        None => Seq::empty(),
    }
}

/// Whether a table's grid reads.
pub open spec fn grid_reads(e: Element) -> bool {
    let columns = grid_columns(e);
    &&& match child_named(e, "tblGrid"@) {
        Some(g) => conforms(g, seq![], seq![], seq!["gridCol"]),
        None => true,
    }
    &&& forall|i: int|
        0 <= i < columns.len() ==> conforms(#[trigger] columns[i], seq!["w"], seq![], seq![])
}

/// Whether a table's grid reads.
fn check_grid(e: &Element) -> (r: bool)
    ensures
        r == grid_reads(*e),
{
    let known: [&str; 1] = ["w"];
    assert(known@ =~= seq!["w"]);
    let lists: [&str; 1] = ["gridCol"];
    assert(lists@ =~= seq!["gridCol"]);
    let none: [&str; 0] = [];
    assert(none@ =~= seq![]);
    let columns: Vec<&Element> = match child(e, "tblGrid") {
        Some(g) => {
            if !check_element(g, &none, &none, &lists) {
                return false;
            }
            children(g, "gridCol")
        },
        None => Vec::new(),
    };
    let ghost all = grid_columns(*e);
    let mut i: usize = 0;
    while i < columns.len()
        invariant
            all == grid_columns(*e),
            known@ =~= seq!["w"],
            none@ =~= seq![],
            columns@.len() == all.len(),
            forall|k: int| 0 <= k < columns@.len() ==> *#[trigger] columns@[k] == all[k],
            i <= columns@.len(),
            forall|k: int|
                0 <= k < i ==> conforms(#[trigger] all[k], seq!["w"], seq![], seq![]),
        decreases columns@.len() - i,
    {
        if !check_element(columns[i], &known, &none, &none) {
            assert(!conforms(all[i as int], seq!["w"], seq![], seq![]));
            return false;
        }
        i = i + 1;
    }
    true
}

/// Whether a table reads.
pub open spec fn table_reads(e: Element) -> bool {
    let rows = children_named(e, "tr"@);
    &&& conforms(e, seq![], seq!["tblPr", "tblGrid"], seq!["tr"])
    &&& opt_conforms(child_named(e, "tblPr"@), seq!["firstRow", "firstCol", "bandRow"], seq![])
    &&& grid_reads(e)
    &&& forall|i: int| 0 <= i < rows.len() ==> row_reads(#[trigger] rows[i])
}

/// Whether a table reads.
fn check_table(e: &Element) -> (r: bool)
    ensures
        r == table_reads(*e),
{
    let single: [&str; 2] = ["tblPr", "tblGrid"];
    assert(single@ =~= seq!["tblPr", "tblGrid"]);
    let lists: [&str; 1] = ["tr"];
    assert(lists@ =~= seq!["tr"]);
    let known: [&str; 3] = ["firstRow", "firstCol", "bandRow"];
    assert(known@ =~= seq!["firstRow", "firstCol", "bandRow"]);
    let none: [&str; 0] = [];
    assert(none@ =~= seq![]);
    if !check_element(e, &none, &single, &lists) || !check_opt(child(e, "tblPr"), &known, &none)
        || !check_grid(e) {
        return false;
    }
    let rows: Vec<&Element> = children(e, "tr");
    let ghost all = children_named(*e, "tr"@);
    let mut i: usize = 0;
    while i < rows.len()
        invariant
            all == children_named(*e, "tr"@),
            rows@.len() == all.len(),
            forall|k: int| 0 <= k < rows@.len() ==> *#[trigger] rows@[k] == all[k],
            i <= rows@.len(),
            forall|k: int| 0 <= k < i ==> row_reads(#[trigger] all[k]),
        decreases rows@.len() - i,
    {
        if !check_row(rows[i]) {
            assert(!row_reads(all[i as int]));
            return false;
        }
        i = i + 1;
    }
    true
}

/// Whether what a frame shows reads.
pub open spec fn graphic_reads(e: Option<Element>) -> bool {
    match e {
        Some(x) => {
            &&& conforms(x, seq![], seq!["graphicData"], seq![])
            &&& match child_named(x, "graphicData"@) {
                Some(d) => {
                    &&& conforms(d, seq!["uri"], seq!["tbl", "relIds"], seq![])
                    &&& match child_named(d, "tbl"@) {
                        Some(t) => table_reads(t),
                        None => true,
                    }
                    &&& opt_conforms(child_named(d, "relIds"@), seq!["dm"], seq![])
                },
                None => true,
            }
        },
        None => true,
    }
}

/// Whether what a frame shows reads.
fn check_graphic(e: Option<&Element>) -> (r: bool)
    ensures
        r == graphic_reads(element_at(e)),
{
    let outer: [&str; 1] = ["graphicData"];
    assert(outer@ =~= seq!["graphicData"]);
    let known: [&str; 1] = ["uri"];
    assert(known@ =~= seq!["uri"]);
    let single: [&str; 2] = ["tbl", "relIds"];
    assert(single@ =~= seq!["tbl", "relIds"]);
    let related: [&str; 1] = ["dm"];
    assert(related@ =~= seq!["dm"]);
    let none: [&str; 0] = [];
    assert(none@ =~= seq![]);
    match e {
        Some(x) => check_element(x, &none, &outer, &none) && match child(x, "graphicData") {
            Some(d) => check_element(d, &known, &single, &none) && (match child(d, "tbl") {
                Some(t) => check_table(t),
                None => true,
            }) && check_opt(child(d, "relIds"), &related, &none),
            None => true,
        },
        None => true,
    }
}

/// Whether a graphic frame reads.
pub open spec fn frame_reads(e: Element) -> bool {
    &&& conforms(e, seq![], seq!["nvGraphicFramePr", "xfrm", "graphic"], seq![])
    &&& name_reads(child_named(e, "nvGraphicFramePr"@))
    &&& match child_named(e, "xfrm"@) {
        Some(x) => transform_reads(x),
        None => true,
    }
    &&& graphic_reads(child_named(e, "graphic"@))
}

/// Whether a graphic frame reads.
fn check_frame(e: &Element) -> (r: bool)
    ensures
        r == frame_reads(*e),
{
    let single: [&str; 3] = ["nvGraphicFramePr", "xfrm", "graphic"];
    assert(single@ =~= seq!["nvGraphicFramePr", "xfrm", "graphic"]);
    let none: [&str; 0] = [];
    assert(none@ =~= seq![]);
    check_element(e, &none, &single, &none) && check_name(child(e, "nvGraphicFramePr")) && (
    match child(e, "xfrm") {
        Some(x) => check_transform(x),
        None => true,
    }) && check_graphic(child(e, "graphic"))
}

/// Whether a group, apart from its members, reads.
pub open spec fn group_reads(e: Element) -> bool {
    &&& conforms_with_rest(e, seq![], seq!["nvGrpSpPr", "grpSpPr"])
    &&& name_reads(child_named(e, "nvGrpSpPr"@))
    &&& match child_named(e, "grpSpPr"@) {
        Some(x) => {
            &&& conforms(x, seq!["bwMode"], seq!["xfrm"], seq![])
            &&& fills_read(x)
            &&& match child_named(x, "xfrm"@) {
                Some(y) => transform_reads(y),
                None => true,
            }
        },
        None => true,
    }
}

/// Whether a group, apart from its members, reads.
fn check_group(e: &Element) -> (r: bool)
    ensures
        r == group_reads(*e),
{
    let single: [&str; 2] = ["nvGrpSpPr", "grpSpPr"];
    assert(single@ =~= seq!["nvGrpSpPr", "grpSpPr"]);
    let known: [&str; 1] = ["bwMode"];
    assert(known@ =~= seq!["bwMode"]);
    let placed: [&str; 1] = ["xfrm"];
    assert(placed@ =~= seq!["xfrm"]);
    let none: [&str; 0] = [];
    assert(none@ =~= seq![]);
    check_element_with_rest(e, &none, &single) && check_name(child(e, "nvGrpSpPr")) && match child(
        e,
        "grpSpPr",
    ) {
        Some(x) => check_element(x, &known, &placed, &none) && check_fills(x) && match child(
            x,
            "xfrm",
        ) {
            Some(y) => check_transform(y),
            None => true,
        },
        None => true,
    }
}

/// Whether every member among a list of nodes reads.
pub open spec fn members_read(nodes: Seq<Node>) -> bool
    decreases nodes,
{
    forall|i: int| 0 <= i < nodes.len() ==> member_reads(#[trigger] nodes[i])
}

/// Whether the members for which a node stands read. Every branch of
/// alternate content must.
pub open spec fn member_reads(n: Node) -> bool
    decreases n,
{
    match n {
        Node::Element(e) => match member_of(*e) {
            Member::AutoShape => sp_reads(*e),
            Member::Picture => pic_reads(*e),
            Member::Connector => cxn_reads(*e),
            Member::Frame => frame_reads(*e),
            Member::Group => group_reads(*e) && members_read(e.children@),
            Member::Alternates => {
                &&& conforms(*e, seq![], seq!["Fallback"], seq!["Choice"])
                &&& branches_read(e.children@)
            },
            Member::Other => true,
        },
        _ => true,
    }
}

/// Whether every branch among a list of nodes reads.
pub open spec fn branches_read(nodes: Seq<Node>) -> bool
    decreases nodes,
{
    forall|i: int| 0 <= i < nodes.len() ==> branch_reads(#[trigger] nodes[i])
}

/// Whether a node, where it is a branch, reads.
pub open spec fn branch_reads(n: Node) -> bool
    decreases n,
{
    match n {
        Node::Element(b) => named(n, "Choice"@) || named(n, "Fallback"@) ==> conforms_with_rest(
            *b,
            seq![],
            seq![],
        ) && members_read(b.children@),
        _ => true,
    }
}

/// Whether every member among a list of nodes reads.
fn check_members(nodes: &Vec<Node>) -> (r: bool)
    ensures
        r == members_read(nodes@),
    decreases nodes,
{
    let mut i: usize = 0;
    while i < nodes.len()
        invariant
            i <= nodes@.len(),
            forall|k: int| 0 <= k < i ==> member_reads(#[trigger] nodes@[k]),
        decreases nodes@.len() - i,
    {
        if !check_member(&nodes[i]) {
            assert(!member_reads(nodes@[i as int]));
            return false;
        }
        i = i + 1;
    }
    true
}

/// Whether the members for which a node stands read.
fn check_member(n: &Node) -> (r: bool)
    ensures
        r == member_reads(*n),
    decreases n,
{
    match n {
        Node::Element(e) => match read_member(e) {
            Member::AutoShape => check_sp(e),
            Member::Picture => check_pic(e),
            Member::Connector => check_cxn(e),
            Member::Frame => check_frame(e),
            Member::Group => check_group(e) && check_members(&e.children),
            Member::Alternates => {
                let single: [&str; 1] = ["Fallback"];
                let lists: [&str; 1] = ["Choice"];
                let none: [&str; 0] = [];
                assert(single@ =~= seq!["Fallback"]);
                assert(lists@ =~= seq!["Choice"]);
                assert(none@ =~= seq![]);
                check_element(e, &none, &single, &lists) && check_branches(&e.children)
            },
            Member::Other => true,
        },
        _ => true,
    }
}

/// Whether every branch among a list of nodes reads.
fn check_branches(nodes: &Vec<Node>) -> (r: bool)
    ensures
        r == branches_read(nodes@),
    decreases nodes,
{
    let mut i: usize = 0;
    while i < nodes.len()
        invariant
            i <= nodes@.len(),
            forall|k: int| 0 <= k < i ==> branch_reads(#[trigger] nodes@[k]),
        decreases nodes@.len() - i,
    {
        if !check_branch(&nodes[i]) {
            assert(!branch_reads(nodes@[i as int]));
            return false;
        }
        i = i + 1;
    }
    true
}

/// Whether a node, where it is a branch, reads.
fn check_branch(n: &Node) -> (r: bool)
    ensures
        r == branch_reads(*n),
    decreases n,
{
    match n {
        Node::Element(b) => {
            if is_named(n, "Choice") || is_named(n, "Fallback") {
                let none: [&str; 0] = [];
                assert(none@ =~= seq![]);
                check_element_with_rest(b, &none, &none) && check_members(&b.children)
            } else {
                true
            }
        },
        _ => true,
    }
}

/// What an attribute maps a colour name to.
pub open spec fn mapped(e: Element, name: Seq<char>, usual: SchemeColorVal) -> SchemeColorVal {
    match reads::<SchemeColorVal>(attr(e, name)) {
        Some(v) => v,
        None => usual,
    }
}

/// The colour map that an element states. A name that it does not map, or maps
/// to something unknown, keeps its usual slot.
pub open spec fn color_map_in(e: Element) -> ColorMap {
    ColorMap {
        bg1: mapped(e, "bg1"@, default_color_map().bg1),
        tx1: mapped(e, "tx1"@, default_color_map().tx1),
        bg2: mapped(e, "bg2"@, default_color_map().bg2),
        tx2: mapped(e, "tx2"@, default_color_map().tx2),
        accent1: mapped(e, "accent1"@, default_color_map().accent1),
        accent2: mapped(e, "accent2"@, default_color_map().accent2),
        accent3: mapped(e, "accent3"@, default_color_map().accent3),
        accent4: mapped(e, "accent4"@, default_color_map().accent4),
        accent5: mapped(e, "accent5"@, default_color_map().accent5),
        accent6: mapped(e, "accent6"@, default_color_map().accent6),
        hlink: mapped(e, "hlink"@, default_color_map().hlink),
        folink: mapped(e, "folHlink"@, default_color_map().folink),
    }
}

/// The colour map that an element states.
fn read_color_map(e: &Element) -> (r: ColorMap)
    ensures
        r == color_map_in(*e),
{
    let usual: ColorMap = ColorMap::default();
    ColorMap {
        bg1: or_default(e, "bg1", usual.bg1),
        tx1: or_default(e, "tx1", usual.tx1),
        bg2: or_default(e, "bg2", usual.bg2),
        tx2: or_default(e, "tx2", usual.tx2),
        accent1: or_default(e, "accent1", usual.accent1),
        accent2: or_default(e, "accent2", usual.accent2),
        accent3: or_default(e, "accent3", usual.accent3),
        accent4: or_default(e, "accent4", usual.accent4),
        accent5: or_default(e, "accent5", usual.accent5),
        accent6: or_default(e, "accent6", usual.accent6),
        hlink: or_default(e, "hlink", usual.hlink),
        folink: or_default(e, "folHlink", usual.folink),
    }
}

/// The element that states a part's own colour map: a master's, or the one
/// that overrides it.
pub open spec fn color_map_element(e: Element) -> Option<Element> {
    match child_named(e, "clrMap"@) {
        Some(m) => Some(m),
        None => grandchild(e, "clrMapOvr"@, "overrideClrMapping"@),
    }
}

/// Whether a background is what a `bg` element states. Properties count before
/// a reference, and properties without a fill state nothing.
pub open spec fn is_background(e: Option<Element>, b: Option<Background>) -> bool {
    match e {
        Some(x) => match child_named(x, "bgPr"@) {
            Some(p) => match b {
                Some(Background::Properties(f)) => is_fill_in(p, Some(f)),
                Some(_) => false,
                None => is_fill_in(p, None),
            },
            None => match child_named(x, "bgRef"@) {
                Some(r) => b matches Some(Background::Reference(s)) && is_style_ref(r, s),
                None => b is None,
            },
        },
        None => b is None,
    }
}

/// The background that a `bg` element states.
fn read_background(e: Option<&Element>) -> (r: Option<Background>)
    ensures
        is_background(element_at(e), r),
{
    match e {
        Some(x) => match child(x, "bgPr") {
            Some(p) => match pick_fill(p) {
                Some(f) => Some(Background::Properties(f)),
                None => None,
            },
            None => match child(x, "bgRef") {
                Some(r) => Some(Background::Reference(read_style_ref(r))),
                None => None,
            },
        },
        None => None,
    }
}

/// Whether a part shows the shapes of the part above it: unless it says that
/// it does not.
pub open spec fn shows(stated: Option<Seq<char>>) -> bool {
    truth(stated) != Some(false)
}

/// The nodes of a part's shape tree.
pub open spec fn tree_nodes(e: Element) -> Seq<Node> {
    match grandchild(e, "cSld"@, "spTree"@) {
        Some(t) => t.children@,
        None => Seq::empty(),
    }
}

/// The background element of a part.
pub open spec fn background_element(e: Element) -> Option<Element> {
    grandchild(e, "cSld"@, "bg"@)
}

/// Whether a part is what its root element states.
pub open spec fn is_slide_part(e: Element, p: SlidePart) -> bool {
    &&& are_shapes(content(tree_nodes(e)).1, p.shapes@)
    &&& is_background(background_element(e), p.background)
    &&& p.color_map == match color_map_element(e) {
        Some(m) => Some(color_map_in(m)),
        None => None,
    }
    &&& p.show_inherited_shapes == shows(attr(e, "showMasterSp"@))
}

/// Whether the background of a part reads.
pub open spec fn background_reads(e: Option<Element>) -> bool {
    match e {
        Some(x) => {
            &&& conforms(x, seq![], seq!["bgPr", "bgRef"], seq![])
            &&& match child_named(x, "bgPr"@) {
                Some(p) => fills_read(p) && conforms(p, seq![], seq![], seq![]),
                None => true,
            }
            &&& style_ref_reads(child_named(x, "bgRef"@))
        },
        None => true,
    }
}

/// Whether the background of a part reads.
fn check_background(e: Option<&Element>) -> (r: bool)
    ensures
        r == background_reads(element_at(e)),
{
    let single: [&str; 2] = ["bgPr", "bgRef"];
    let none: [&str; 0] = [];
    assert(single@ =~= seq!["bgPr", "bgRef"]);
    assert(none@ =~= seq![]);
    match e {
        Some(x) => check_element(x, &none, &single, &none) && (match child(x, "bgPr") {
            Some(p) => check_fills(p) && check_element(p, &none, &none, &none),
            None => true,
        }) && check_style_ref(child(x, "bgRef")),
        None => true,
    }
}

/// Whether a colour map reads.
pub open spec fn color_map_reads(e: Option<Element>) -> bool {
    opt_conforms(
        e,
        seq![
            "bg1",
            "tx1",
            "bg2",
            "tx2",
            "accent1",
            "accent2",
            "accent3",
            "accent4",
            "accent5",
            "accent6",
            "hlink",
            "folHlink",
        ],
        seq![],
    )
}

/// Whether a colour map reads.
fn check_color_map(e: Option<&Element>) -> (r: bool)
    ensures
        r == color_map_reads(element_at(e)),
{
    let known: [&str; 12] = [
        "bg1",
        "tx1",
        "bg2",
        "tx2",
        "accent1",
        "accent2",
        "accent3",
        "accent4",
        "accent5",
        "accent6",
        "hlink",
        "folHlink",
    ];
    let none: [&str; 0] = [];
    assert(known@ =~= seq![
        "bg1",
        "tx1",
        "bg2",
        "tx2",
        "accent1",
        "accent2",
        "accent3",
        "accent4",
        "accent5",
        "accent6",
        "hlink",
        "folHlink",
    ]);
    assert(none@ =~= seq![]);
    check_opt(e, &known, &none)
}

/// Whether the common slide data of a part reads.
pub open spec fn slide_data_reads(e: Option<Element>) -> bool {
    match e {
        Some(x) => {
            &&& conforms(x, seq![], seq!["bg", "spTree"], seq![])
            &&& background_reads(child_named(x, "bg"@))
            &&& match child_named(x, "spTree"@) {
                Some(t) => conforms_with_rest(t, seq![], seq![]) && members_read(t.children@),
                None => true,
            }
        },
        None => true,
    }
}

/// Whether the common slide data of a part reads.
fn check_slide_data(e: Option<&Element>) -> (r: bool)
    ensures
        r == slide_data_reads(element_at(e)),
{
    let single: [&str; 2] = ["bg", "spTree"];
    let none: [&str; 0] = [];
    assert(single@ =~= seq!["bg", "spTree"]);
    assert(none@ =~= seq![]);
    match e {
        Some(x) => check_element(x, &none, &single, &none) && check_background(child(x, "bg"))
            && match child(x, "spTree") {
            Some(t) => check_element_with_rest(t, &none, &none) && check_members(&t.children),
            None => true,
        },
        None => true,
    }
}

/// Whether a part reads.
pub open spec fn slide_part_reads(e: Element) -> bool {
    &&& conforms(e, seq!["showMasterSp"], seq!["cSld", "clrMap", "clrMapOvr"], seq![])
    &&& slide_data_reads(child_named(e, "cSld"@))
    &&& color_map_reads(child_named(e, "clrMap"@))
    &&& opt_conforms(child_named(e, "clrMapOvr"@), seq![], seq!["overrideClrMapping"])
    &&& color_map_reads(grandchild(e, "clrMapOvr"@, "overrideClrMapping"@))
}

/// Whether a part reads.
fn check_slide_part(e: &Element) -> (r: bool)
    ensures
        r == slide_part_reads(*e),
{
    let known: [&str; 1] = ["showMasterSp"];
    let single: [&str; 3] = ["cSld", "clrMap", "clrMapOvr"];
    let inner: [&str; 1] = ["overrideClrMapping"];
    let none: [&str; 0] = [];
    assert(known@ =~= seq!["showMasterSp"]);
    assert(single@ =~= seq!["cSld", "clrMap", "clrMapOvr"]);
    assert(inner@ =~= seq!["overrideClrMapping"]);
    assert(none@ =~= seq![]);
    check_element(e, &known, &single, &none) && check_slide_data(child(e, "cSld"))
        && check_color_map(child(e, "clrMap")) && check_opt(child(e, "clrMapOvr"), &none, &inner)
        && match child(e, "clrMapOvr") {
        Some(o) => check_color_map(child(o, "overrideClrMapping")),
        None => true,
    }
}

/// Whether a result is what the root element of a part gives.
pub open spec fn slide_part_outcome(
    root: Option<Element>,
    r: Result<SlidePart, ParseError>,
) -> bool {
    match root {
        Some(e) => if slide_part_reads(e) {
            r matches Ok(p) && is_slide_part(e, p)
        } else {
            r == Err::<SlidePart, ParseError>(ParseError::Schema)
        },
        None => r == Err::<SlidePart, ParseError>(ParseError::Malformed),
    }
}

/// The part that its root element states.
pub fn slide_part_from(root: &Option<Element>) -> (r: Result<SlidePart, ParseError>)
    ensures
        slide_part_outcome(*root, r),
{
    let e: &Element = match root {
        Some(e) => e,
        None => {
            return Err(ParseError::Malformed);
        },
    };
    if !check_slide_part(e) {
        return Err(ParseError::Schema);
    }
    let map_element: Option<&Element> = match child(e, "clrMap") {
        Some(m) => Some(m),
        None => match child(e, "clrMapOvr") {
            Some(o) => child(o, "overrideClrMapping"),
            None => None,
        },
    };
    let color_map: Option<ColorMap> = match map_element {
        Some(m) => Some(read_color_map(m)),
        None => None,
    };
    let show_inherited_shapes: bool = match attr_bool(e, "showMasterSp") {
        Some(b) => b,
        None => true,
    };
    match child(e, "cSld") {
        Some(c) => {
            let shapes: Vec<Shape> = match child(c, "spTree") {
                Some(t) => lower_children(&t.children).1,
                None => Vec::new(),
            };
            let background: Option<Background> = read_background(child(c, "bg"));
            Ok(SlidePart { shapes, background, color_map, show_inherited_shapes })
        },
        None => {
            let mut part: SlidePart = SlidePart::default();
            part.color_map = color_map;
            part.show_inherited_shapes = show_inherited_shapes;
            Ok(part)
        },
    }
}

/// Reads a slide, a layout, a master or a notes slide: its shapes and what it
/// declares itself.
pub fn parse_slide_part(data: &[u8]) -> (r: Result<SlidePart, ParseError>)
    ensures
        exists|root: Option<Element>| #[trigger]
            part_root(data@, root) && slide_part_outcome(root, r),
{
    let root: Option<Element> = from_xml(data);
    slide_part_from(&root)
}

/// Reads the shapes of a slide, a layout, a master or a notes slide. A part
/// without a shape tree has none.
pub fn parse_shape_tree(data: &[u8]) -> (r: Result<Vec<Shape>, ParseError>)
    ensures
        exists|root: Option<Element>, p: Result<SlidePart, ParseError>|
            part_root(data@, root) && #[trigger] slide_part_outcome(root, p) && match p {
                Ok(part) => r == Ok::<Vec<Shape>, ParseError>(part.shapes),
                Err(e) => r == Err::<Vec<Shape>, ParseError>(e),
            },
{
    let part: Result<SlidePart, ParseError> = parse_slide_part(data);
    let ghost root = choose|root: Option<Element>| #[trigger]
        part_root(data@, root) && slide_part_outcome(root, part);
    assert(part_root(data@, root) && slide_part_outcome(root, part));
    match part {
        Ok(p) => Ok(p.shapes),
        Err(e) => Err(e),
    }
}

/// The first tag of a document.
pub enum FirstTag {
    /// The document ends before any.
    Ends,
    /// The document is not well-formed before any.
    Fails,
    /// What stands in it.
    Holds(Seq<u8>),
}

/// The first tag among the events of a document.
pub open spec fn first_tag(events: Seq<EventView>) -> FirstTag
    decreases events.len(),
{
    if events.len() == 0 {
        FirstTag::Ends
    } else {
        match events[0] {
            EventView::Start(c) => FirstTag::Holds(c),
            EventView::Empty(c) => FirstTag::Holds(c),
            EventView::Malformed => FirstTag::Fails,
            _ => first_tag(events.skip(1)),
        }
    }
}

/// The length of the first word of a tag.
pub open spec fn word_len(content: Seq<u8>) -> nat
    decreases content.len(),
{
    if content.len() == 0 || content[0] == 0x20 || content[0] == 0x0D || content[0] == 0x0A
        || content[0] == 0x09 {
        0
    } else {
        1 + word_len(content.skip(1))
    }
}

/// What follows the first colon of a name, or the whole name.
pub open spec fn behind_colon(name: Seq<u8>) -> Seq<u8>
    decreases name.len(),
{
    if !name.contains(0x3Au8) {
        name
    } else {
        name.skip(name.index_of_first(0x3Au8)->0 + 1)
    }
}

/// The local name in a tag.
pub open spec fn tag_local(content: Seq<u8>) -> Seq<u8> {
    behind_colon(content.take(word_len(content) as int))
}

/// The kinds of object that can stand alone.
#[derive(Debug, Clone, Copy, PartialEq, Eq, Structural)]
pub enum SingleObject {
    AutoShape,
    Group,
    Connector,
    Other,
}

/// The kind of object that a local name stands for.
pub open spec fn single_object(name: Seq<u8>) -> SingleObject {
    if name == seq![0x73u8, 0x70u8] {
        SingleObject::AutoShape
    } else if name == seq![0x67u8, 0x72u8, 0x70u8, 0x53u8, 0x70u8] {
        SingleObject::Group
    } else if name == seq![0x63u8, 0x78u8, 0x6Eu8, 0x53u8, 0x70u8] {
        SingleObject::Connector
    } else {
        SingleObject::Other
    }
}

/// Whether a group is what an element states, with its members.
pub open spec fn is_whole_group(e: Element, s: Shape) -> bool {
    &&& is_group(e, s)
    &&& s.kind matches ShapeKind::Group(g) && are_shapes(content(e.children@).1, g.children@)
}

/// Whether a result is what an object's first tag and its root element give.
pub open spec fn single_outcome(
    first: FirstTag,
    root: Option<Element>,
    r: Result<Option<Shape>, ParseError>,
) -> bool {
    match first {
        FirstTag::Ends => r == Ok::<Option<Shape>, ParseError>(None),
        FirstTag::Fails => r == Err::<Option<Shape>, ParseError>(ParseError::Malformed),
        FirstTag::Holds(c) => {
            let kind = single_object(tag_local(c));
            if kind is Other {
                r == Ok::<Option<Shape>, ParseError>(None)
            } else {
                match root {
                    None => r == Err::<Option<Shape>, ParseError>(ParseError::Malformed),
                    Some(e) => if object_reads(kind, e) {
                        r matches Ok(Some(s)) && is_object(kind, e, s)
                    } else {
                        r == Err::<Option<Shape>, ParseError>(ParseError::Schema)
                    },
                }
            }
        },
    }
}

/// Whether an object of a kind reads.
pub open spec fn object_reads(kind: SingleObject, e: Element) -> bool {
    match kind {
        SingleObject::AutoShape => sp_reads(e),
        SingleObject::Group => group_reads(e) && members_read(e.children@),
        SingleObject::Connector => cxn_reads(e),
        SingleObject::Other => true,
    }
}

/// Whether a shape is the object of a kind that an element states.
pub open spec fn is_object(kind: SingleObject, e: Element, s: Shape) -> bool {
    &&& !s.transform_inherited
    &&& s.slide_rect is None
    &&& match kind {
        SingleObject::AutoShape => is_auto_shape(e, s),
        SingleObject::Group => is_whole_group(e, s),
        SingleObject::Connector => is_connector(e, s),
        SingleObject::Other => false,
    }
}

/// The kind of object that a tag opens.
fn read_single_object(content: &Vec<u8>) -> (r: SingleObject)
    ensures
        r == single_object(tag_local(content@)),
{
    let mut end: usize = 0;
    assert(content@.skip(0) =~= content@);
    while end < content.len() && content[end] != 0x20 && content[end] != 0x0D && content[end]
        != 0x0A && content[end] != 0x09
        invariant
            end <= content@.len(),
            word_len(content@) == end + word_len(content@.skip(end as int)),
        decreases content@.len() - end,
    {
        assert(content@.skip(end as int).skip(1) =~= content@.skip(end + 1));
        end = end + 1;
    }
    assert(word_len(content@) == end);
    let ghost word = content@.take(end as int);
    let mut colon: usize = 0;
    while colon < end && content[colon] != 0x3A
        invariant
            colon <= end <= content@.len(),
            word == content@.take(end as int),
            forall|k: int| 0 <= k < colon ==> word[k] != 0x3A,
        decreases end - colon,
    {
        colon = colon + 1;
    }
    let start: usize = if colon < end {
        proof {
            assert(word[colon as int] == 0x3A);
            assert(word.contains(0x3Au8));
            word.index_of_first_ensures(0x3Au8);
            let k = word.index_of_first(0x3Au8)->0;
            assert(k == colon);
        }
        colon + 1
    } else {
        assert(!word.contains(0x3Au8));
        0
    };
    let ghost local = tag_local(content@);
    let mut name: Vec<u8> = Vec::new();
    let mut i: usize = start;
    while i < end
        invariant
            start <= i <= end <= content@.len(),
            name@ == content@.subrange(start as int, i as int),
        decreases end - i,
    {
        name.push(content[i]);
        assert(name@ =~= content@.subrange(start as int, i + 1));
        i = i + 1;
    }
    assert(name@ =~= local);
    if same_bytes(&name, &[0x73, 0x70]) {
        SingleObject::AutoShape
    } else if same_bytes(&name, &[0x67, 0x72, 0x70, 0x53, 0x70]) {
        SingleObject::Group
    } else if same_bytes(&name, &[0x63, 0x78, 0x6E, 0x53, 0x70]) {
        SingleObject::Connector
    } else {
        SingleObject::Other
    }
}

/// Whether two byte strings are the same.
fn same_bytes(a: &Vec<u8>, b: &[u8]) -> (r: bool)
    ensures
        r == (a@ == b@),
{
    if a.len() != b.len() {
        return false;
    }
    let mut i: usize = 0;
    while i < a.len()
        invariant
            a@.len() == b@.len(),
            i <= a@.len(),
            forall|k: int| 0 <= k < i ==> a@[k] == b@[k],
        decreases a@.len() - i,
    {
        if a[i] != b[i] {
            return false;
        }
        i = i + 1;
    }
    assert(a@ =~= b@);
    true
}

/// The object of a kind that an element states.
fn object_from(kind: SingleObject, root: &Option<Element>) -> (r: Result<Option<Shape>, ParseError>)
    ensures
        !(kind is Other) ==> match *root {
            None => r == Err::<Option<Shape>, ParseError>(ParseError::Malformed),
            Some(e) => if object_reads(kind, e) {
                r matches Ok(Some(s)) && is_object(kind, e, s)
            } else {
                r == Err::<Option<Shape>, ParseError>(ParseError::Schema)
            },
        },
        kind is Other ==> r == Ok::<Option<Shape>, ParseError>(None),
{
    if matches!(kind, SingleObject::Other) {
        return Ok(None);
    }
    let e: &Element = match root {
        Some(e) => e,
        None => {
            return Err(ParseError::Malformed);
        },
    };
    match kind {
        SingleObject::AutoShape => {
            if check_sp(e) {
                Ok(Some(lower_sp(e).0))
            } else {
                Err(ParseError::Schema)
            }
        },
        SingleObject::Group => {
            if check_group(e) && check_members(&e.children) {
                Ok(Some(lower_grp(e).0))
            } else {
                Err(ParseError::Schema)
            }
        },
        SingleObject::Connector => {
            if check_cxn(e) {
                Ok(Some(lower_cxn(e)))
            } else {
                Err(ParseError::Schema)
            }
        },
        SingleObject::Other => Ok(None),
    }
}

/// Reads one object, an auto shape, a group or a connector, cut out of a part
/// as it stands. Anything else gives none.
pub fn parse_single_object(data: &[u8]) -> (r: Result<Option<Shape>, ParseError>)
    ensures
        exists|root: Option<Element>| #[trigger]
            part_root(data@, root) && single_outcome(
                first_tag(up_to_failure(xml_events(data@))),
                root,
                r,
            ),
{
    let events: Vec<XmlEvent> = read_events(data);
    let ghost all = event_views(events@);
    let root: Option<Element> = from_xml(data);
    assert(part_root(data@, root));
    let mut i: usize = 0;
    assert(all.skip(0) =~= all);
    while i < events.len()
        invariant
            all == event_views(events@),
            all == up_to_failure(xml_events(data@)),
            i <= events@.len(),
            first_tag(all) == first_tag(all.skip(i as int)),
            part_root(data@, root),
        decreases events@.len() - i,
    {
        assert(all.skip(i as int)[0] == events@[i as int]@);
        assert(all.skip(i as int).skip(1) =~= all.skip(i + 1));
        match &events[i] {
            XmlEvent::Start(c) => {
                return object_from(read_single_object(c), &root);
            },
            XmlEvent::Empty(c) => {
                return object_from(read_single_object(c), &root);
            },
            XmlEvent::Malformed => {
                return Err(ParseError::Malformed);
            },
            _ => {},
        }
        i = i + 1;
    }
    Ok(None)
}

/// The value of the first attribute of the given name, where nothing before it is
/// broken and it can be decoded.
pub open spec fn early_attr(attributes: Seq<Option<Attr>>, name: Seq<char>) -> Option<Seq<char>>
    decreases attributes.len(),
{
    if attributes.len() == 0 {
        None
    } else {
        match attributes[0] {
            Some(a) => if attr_field(a.key@) == name {
                opt_view(a.value)
            } else {
                early_attr(attributes.skip(1), name)
            },
            None => None,
        }
    }
}

/// The value of the first attribute of the given name.
fn read_early_attr(attributes: &Vec<Option<Attr>>, name: &str) -> (r: Option<String>)
    ensures
        opt_view(r) == early_attr(attributes@, name@),
{
    let ghost all = attributes@;
    let mut i: usize = 0;
    assert(all.skip(0) =~= all);
    while i < attributes.len()
        invariant
            all == attributes@,
            i <= all.len(),
            early_attr(all, name@) == early_attr(all.skip(i as int), name@),
        decreases all.len() - i,
    {
        assert(all.skip(i as int)[0] == all[i as int]);
        assert(all.skip(i as int).skip(1) =~= all.skip(i + 1));
        match &attributes[i] {
            Some(a) => {
                let field: String = attr_field_name(a.key.as_str());
                if str_eq(field.as_str(), name) {
                    let copy: Option<String> = a.value.clone();
                    assert(copy == a.value);
                    return copy;
                }
            },
            None => {
                return None;
            },
        }
        i = i + 1;
    }
    None
}

/// Whether a tag says that inherited shapes are shown.
pub open spec fn tag_shows(content: Seq<u8>, shown: bool) -> bool {
    exists|tag: Tag| #[trigger]
        tag_is(content, tag) && shown == shows(early_attr(tag.attributes@, "showMasterSp"@))
}

/// Whether the content of a tag is that of an extension element.
pub open spec fn opens_extension(content: Seq<u8>) -> bool {
    valid_utf8(content) && (prefix(tag_name(decode_utf8(content))) matches Some(p)
        && is_extension_prefix(p))
}

/// Whether the tag of a document's root element says that inherited shapes are
/// shown: the first tag that stands in no extension element. `depth` elements of
/// those are open.
pub open spec fn events_show(events: Seq<EventView>, depth: nat, shown: bool) -> bool
    decreases events.len(),
{
    if events.len() == 0 {
        shown
    } else {
        let rest = events.skip(1);
        match events[0] {
            EventView::Start(c) => if depth > 0 || opens_extension(c) {
                events_show(rest, depth + 1, shown)
            } else {
                tag_shows(c, shown)
            },
            EventView::Empty(c) => if depth > 0 || opens_extension(c) {
                events_show(rest, depth, shown)
            } else {
                tag_shows(c, shown)
            },
            EventView::End(_) => events_show(
                rest,
                if depth > 0 {
                    (depth - 1) as nat
                } else {
                    0
                },
                shown,
            ),
            EventView::Malformed => shown,
            _ => events_show(rest, depth, shown),
        }
    }
}

/// What a tag says of inherited shapes.
fn read_shows(tag: &Tag) -> (r: bool)
    ensures
        r == shows(early_attr(tag.attributes@, "showMasterSp"@)),
{
    match read_early_attr(&tag.attributes, "showMasterSp") {
        Some(v) => is_true(v.as_str()),
        None => true,
    }
}

/// Whether a part shows the shapes of the part above it, from the tag of its root
/// element alone. A part that does not say, or cannot be read, does.
pub fn shows_inherited_shapes(data: &[u8]) -> (r: bool)
    ensures
        events_show(up_to_failure(xml_events(data@)), 0, r),
{
    let events: Vec<XmlEvent> = read_events(data);
    let ghost all = event_views(events@);
    let mut depth: usize = 0;
    let mut i: usize = 0;
    assert(all.skip(0) =~= all);
    while i < events.len()
        invariant
            all == event_views(events@),
            all == up_to_failure(xml_events(data@)),
            i <= events@.len(),
            depth <= i,
            forall|b: bool| #[trigger]
                events_show(all, 0, b) == events_show(all.skip(i as int), depth as nat, b),
        decreases events@.len() - i,
    {
        assert(all.skip(i as int)[0] == events@[i as int]@);
        assert(all.skip(i as int).skip(1) =~= all.skip(i + 1));
        match &events[i] {
            XmlEvent::Start(c) => {
                if depth == 0 {
                    let tag: Tag = decode_tag(c);
                    assert(tag_is(c@, tag));
                    if !is_extension_element(&tag) {
                        let shown: bool = read_shows(&tag);
                        assert(tag_shows(c@, shown));
                        assert(events_show(all.skip(i as int), 0, shown));
                        return shown;
                    }
                }
                depth = depth + 1;
            },
            XmlEvent::Empty(c) => {
                if depth == 0 {
                    let tag: Tag = decode_tag(c);
                    assert(tag_is(c@, tag));
                    if !is_extension_element(&tag) {
                        let shown: bool = read_shows(&tag);
                        assert(tag_shows(c@, shown));
                        assert(events_show(all.skip(i as int), 0, shown));
                        return shown;
                    }
                }
            },
            XmlEvent::End(_) => {
                if depth > 0 {
                    depth = depth - 1;
                }
            },
            XmlEvent::Malformed => {
                return true;
            },
            _ => {},
        }
        i = i + 1;
    }
    true
}

proof fn same_raw_same_value(
    raw: Seq<Option<(Seq<char>, Seq<char>)>>,
    a: Seq<Option<Attr>>,
    b: Seq<Option<Attr>>,
    name: Seq<char>,
)
    requires
        a.len() == raw.len(),
        b.len() == raw.len(),
        forall|i: int| 0 <= i < raw.len() ==> attr_is(raw[i], #[trigger] a[i]),
        forall|i: int| 0 <= i < raw.len() ==> attr_is(raw[i], #[trigger] b[i]),
    ensures
        early_attr(a, name) == early_attr(b, name),
    decreases raw.len(),
{
    if raw.len() > 0 {
        assert(attr_is(raw[0], a[0]) && attr_is(raw[0], b[0]));
        assert forall|i: int| 0 <= i < raw.skip(1).len() implies attr_is(
            raw.skip(1)[i],
            #[trigger] a.skip(1)[i],
        ) by {
            assert(attr_is(raw[i + 1], a[i + 1]));
        }
        assert forall|i: int| 0 <= i < raw.skip(1).len() implies attr_is(
            raw.skip(1)[i],
            #[trigger] b.skip(1)[i],
        ) by {
            assert(attr_is(raw[i + 1], b[i + 1]));
        }
        same_raw_same_value(raw.skip(1), a.skip(1), b.skip(1), name);
    }
}

proof fn same_tag_same_value(content: Seq<u8>, a: &Tag, b: &Tag, name: Seq<char>)
    requires
        tag_is(content, *a),
        tag_is(content, *b),
    ensures
        early_attr(a.attributes@, name) == early_attr(b.attributes@, name),
{
    if valid_utf8(content) {
        let s = decode_utf8(content);
        let raw = tag_attributes(s, encode_utf8(tag_name(s)).len(), false);
        same_raw_same_value(raw, a.attributes@, b.attributes@, name);
    }
}

/// Where no attribute is broken, nothing broken stands before one.
proof fn early_is_first(attributes: Seq<Option<Attr>>, name: Seq<char>)
    requires
        forall|i: int| 0 <= i < attributes.len() ==> #[trigger] attributes[i] is Some,
    ensures
        early_attr(attributes, name) == first_attr(attributes, name),
    decreases attributes.len(),
{
    if attributes.len() > 0 {
        let rest = attributes.skip(1);
        assert(attributes[0] is Some);
        assert forall|i: int| 0 <= i < rest.len() implies #[trigger] rest[i] is Some by {
            assert(rest[i] == attributes[i + 1]);
        }
        early_is_first(rest, name);
    }
}

/// What stands in an extension element says nothing.
proof fn shown_behind_element(
    events: Seq<EventView>,
    t: Seq<Token>,
    i: int,
    depth: nat,
    shown: bool,
)
    requires
        tokens_are(events, t),
        0 <= i,
        depth > 0,
        element_end(t, i, depth) is Some,
    ensures
        events_show(events.skip(i), depth, shown) == events_show(
            events.skip(element_end(t, i, depth)->0),
            0,
            shown,
        ),
    decreases t.len() - i,
{
    assert(token_is(events[i], t[i]));
    assert(events.skip(i)[0] == events[i]);
    assert(events.skip(i).skip(1) =~= events.skip(i + 1));
    match t[i] {
        Token::Start(_) => shown_behind_element(events, t, i + 1, depth + 1, shown),
        Token::End => if depth > 1 {
            shown_behind_element(events, t, i + 1, (depth - 1) as nat, shown);
        },
        Token::Malformed => {},
        _ => shown_behind_element(events, t, i + 1, depth, shown),
    }
}

/// The root element is found as far behind a token as without it.
proof fn root_behind_token(x: Token, rest: Seq<Token>, i: int)
    requires
        0 <= i,
    ensures
        root_start(seq![x] + rest, i + 1) == match root_start(rest, i) {
            Some(k) => Some(k + 1),
            None => None,
        },
    decreases rest.len() - i,
{
    let whole = seq![x] + rest;
    if i < rest.len() {
        assert(whole[i + 1] == rest[i]);
        root_behind_token(x, rest, i + 1);
    }
}

/// The tag of the root element says what is shown, where extension elements are
/// left out: the place of that tag among all tokens.
proof fn shown_without_extensions(
    events: Seq<EventView>,
    t: Seq<Token>,
    i: int,
    kept: Seq<Token>,
    shown: bool,
) -> (m: int)
    requires
        tokens_are(events, t),
        0 <= i,
        without_extensions(t, i) == Some(kept),
        root_start(kept, 0) is Some,
    ensures
        0 <= root_start(kept, 0)->0 < kept.len(),
        i <= m < t.len(),
        t[m] == kept[root_start(kept, 0)->0],
        !starts_extension(t[m]) && !empty_extension(t[m]),
        events_show(events.skip(i), 0, shown) == events_show(events.skip(m), 0, shown),
    decreases t.len() - i,
{
    assert(i < t.len());
    assert(token_is(events[i], t[i]));
    assert(events.skip(i)[0] == events[i]);
    assert(events.skip(i).skip(1) =~= events.skip(i + 1));
    if starts_extension(t[i]) {
        let j = element_end(t, i, 0)->0;
        assert(element_end(t, i, 0) == element_end(t, i + 1, 1));
        shown_behind_element(events, t, i + 1, 1, shown);
        shown_without_extensions(events, t, j, kept, shown)
    } else if empty_extension(t[i]) {
        shown_without_extensions(events, t, i + 1, kept, shown)
    } else {
        let rest = without_extensions(t, i + 1)->0;
        assert(kept == seq![t[i]] + rest);
        assert(kept[0] == t[i]);
        if t[i] is Start || t[i] is Empty {
            i
        } else {
            root_behind_token(t[i], rest, 0);
            let m = shown_without_extensions(events, t, i + 1, rest, shown);
            assert(kept[root_start(kept, 0)->0] == rest[root_start(rest, 0)->0]);
            m
        }
    }
}

/// The tag of the root element says what is shown.
proof fn shown_from_root(events: Seq<EventView>, t: Seq<Token>, j: int, shown: bool)
    requires
        tokens_are(events, t),
        0 <= j <= t.len(),
        root_start(t, j) is Some,
    ensures
        j <= root_start(t, j)->0 < t.len(),
        events_show(events.skip(j), 0, shown) == events_show(
            events.skip(root_start(t, j)->0),
            0,
            shown,
        ),
    decreases t.len() - j,
{
    assert(token_is(events[j], t[j]));
    assert(events.skip(j)[0] == events[j]);
    assert(events.skip(j).skip(1) =~= events.skip(j + 1));
    match t[j] {
        Token::Skip => {
            shown_from_root(events, t, j + 1, shown);
        },
        Token::Text(_) => {
            shown_from_root(events, t, j + 1, shown);
        },
        _ => {},
    }
}

/// The first tag of an element's tokens is its own.
proof fn an_element_begins_with_its_tag(t: Seq<Token>, e: Element)
    requires
        is_root(t, Some(e)),
    ensures
        t[root_start(t, 0)->0] == if e.closed {
            Token::Empty(e.tag)
        } else {
            Token::Start(e.tag)
        },
{
    let i = root_start(t, 0)->0;
    let end = element_end(t, i, 0)->0;
    element_end_bounds(t, i, 0);
    assert(t.subrange(i, end)[0] == spell(e)[0]);
}

/// The tag of the root element alone says the same of inherited shapes as the
/// part read whole, wherever the part can be read.
pub proof fn the_first_tag_agrees_with_the_part(
    data: Seq<u8>,
    root: Option<Element>,
    part: SlidePart,
    shown: bool,
)
    requires
        part_root(data, root),
        slide_part_outcome(root, Ok(part)),
        events_show(up_to_failure(xml_events(data)), 0, shown),
    ensures
        shown == part.show_inherited_shapes,
{
    let events = up_to_failure(xml_events(data));
    let e = root->0;
    let t = choose|t: Seq<Token>| #[trigger]
        reads_as(data, t) && if may_hold_extensions(data) {
            match without_extensions(t, 0) {
                Some(kept) => is_root(kept, root),
                None => root is None,
            }
        } else {
            is_root(t, root)
        };
    assert(events.skip(0) =~= events);
    let m = if may_hold_extensions(data) {
        let kept = without_extensions(t, 0)->0;
        an_element_begins_with_its_tag(kept, e);
        shown_without_extensions(events, t, 0, kept, shown)
    } else {
        an_element_begins_with_its_tag(t, e);
        without_a_mark_there_is_none(data, t);
        shown_from_root(events, t, 0, shown);
        root_start(t, 0)->0
    };
    assert(token_is(events[m], t[m]));
    assert(events.skip(m)[0] == events[m]);
    assert(!is_extension(*e.tag));
    let content = match events[m] {
        EventView::Start(c) => c,
        EventView::Empty(c) => c,
        _ => Seq::empty(),
    };
    assert(tag_is(content, *e.tag));
    assert(tag_shows(content, shown));
    let tag = choose|tag: Tag| #[trigger]
        tag_is(content, tag) && shown == shows(early_attr(tag.attributes@, "showMasterSp"@));
    same_tag_same_value(content, &tag, &e.tag, "showMasterSp"@);
    early_is_first(e.tag.attributes@, "showMasterSp"@);
}

} // verus!
