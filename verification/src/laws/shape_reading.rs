//! What is read of the shapes of a part.
use vstd::prelude::*;

use crate::dimension::Emu;
use crate::dml::fill::pick_fill;
use crate::dml::shape::{
    doc_properties, is_shape_properties, read_extent, read_offset, read_style_ref, read_transform,
};
use crate::laws::drawing_reading::is_truth;
use crate::laws::text_reading::{is_measure, number};
use crate::model::color::SchemeColorVal;
use crate::model::drawing::{BlipFillKind, DocProperties, DrawingFill, StyleMatrixRef};
use crate::model::geometry::{Offset, Size, Transform2D};
use crate::error::ParseError;
use crate::pptx::shape_parse::slide_part_from;
use crate::pptx::shape_read::{
    branch, cells_size, content, fullest, is_shape, member_of, node_content, read_member, rows_size,
    the_fullest_branch_counts, Member,
};
use crate::pptx::shapes::{Background, GraphicFramePayload, ShapeKind, SlidePart};
use crate::pptx::text_read::{body_text, is_text_body};
use crate::scan::trimmed;
use crate::xml::lenient::reads;
use crate::xml::query::{attr, child_named, children_named, element_name};
use crate::xml::tree::{Element, Node};

verus! {

/// The nodes of the shape tree under a root element.
pub open spec fn tree_of(root: Element) -> Seq<Node> {
    match child_named(root, "cSld"@) {
        Some(c) => match child_named(c, "spTree"@) {
            Some(t) => t.children@,
            None => Seq::empty(),
        },
        None => Seq::empty(),
    }
}

/// Whether a part was read of a root element whose shape tree ends with an element
/// of the given name.
pub open spec fn read_behind(root: Element, part: SlidePart, e: Element, name: Seq<char>) -> bool {
    &&& call_ensures(slide_part_from, (&Some(root),), Ok::<SlidePart, ParseError>(part))
    &&& tree_of(root).len() > 0
    &&& tree_of(root).last() matches Node::Element(x) && *x == e
    &&& element_name(e) == Some(name)
}

/// The members of a shape tree are told by five names, and alternatives by a
/// sixth.
pub proof fn members_are_told_by_their_names(e: &Element, m: Member)
    requires
        call_ensures(read_member, (e,), m),
    ensures
        m is AutoShape ==> element_name(*e) == Some("sp"@),
        m is Picture ==> element_name(*e) == Some("pic"@),
        m is Connector ==> element_name(*e) == Some("cxnSp"@),
        m is Group ==> element_name(*e) == Some("grpSp"@),
        m is Frame ==> element_name(*e) == Some("graphicFrame"@),
        m is Alternates ==> element_name(*e) == Some("AlternateContent"@),
        m is Other ==> element_name(*e) != Some("sp"@) && element_name(*e) != Some("pic"@)
            && element_name(*e) != Some("cxnSp"@) && element_name(*e) != Some("grpSp"@)
            && element_name(*e) != Some("graphicFrame"@) && element_name(*e) != Some(
            "AlternateContent"@,
        ),
{
}

proof fn the_names_differ()
    ensures
        "sp"@ != "pic"@,
        "sp"@ != "cxnSp"@,
        "sp"@ != "grpSp"@,
        "sp"@ != "graphicFrame"@,
        "pic"@ != "cxnSp"@,
        "pic"@ != "grpSp"@,
        "pic"@ != "graphicFrame"@,
        "cxnSp"@ != "grpSp"@,
        "cxnSp"@ != "graphicFrame"@,
        "grpSp"@ != "graphicFrame"@,
{
    reveal_strlit("sp");
    reveal_strlit("pic");
    reveal_strlit("cxnSp");
    reveal_strlit("grpSp");
    reveal_strlit("graphicFrame");
    assert("sp"@.len() == 2 && "pic"@.len() == 3 && "cxnSp"@.len() == 5 && "grpSp"@.len() == 5
        && "graphicFrame"@.len() == 12);
    assert("cxnSp"@[0] == 'c' && "grpSp"@[0] == 'g');
}

/// Each member of a shape tree is read behind those before it, and adds one shape.
pub proof fn the_last_member_is_the_last_shape(
    root: Element,
    part: SlidePart,
    e: Element,
    name: Seq<char>,
)
    requires
        read_behind(root, part, e, name),
        name == "sp"@ || name == "pic"@ || name == "cxnSp"@ || name == "grpSp"@ || name
            == "graphicFrame"@,
    ensures
        part.shapes@.len() == content(tree_of(root).drop_last()).1.len() + 1,
        is_shape(e, part.shapes@.last()),
        !part.shapes@.last().transform_inherited,
        part.shapes@.last().slide_rect is None,
        name == "sp"@ ==> part.shapes@.last().kind is AutoShape,
        name == "pic"@ ==> part.shapes@.last().kind is Picture,
        name == "cxnSp"@ ==> part.shapes@.last().kind is Connector,
        name == "grpSp"@ ==> part.shapes@.last().kind is Group,
        name == "graphicFrame"@ ==> part.shapes@.last().kind is GraphicFrame,
{
    the_names_differ();
    let nodes = tree_of(root);
    assert(nodes == crate::pptx::shape_parse::tree_nodes(root));
    let all = content(nodes).1;
    assert(node_content(nodes.last()).1 == seq![e]);
    assert(all == content(nodes.drop_last()).1 + seq![e]);
    let last = part.shapes@.len() - 1;
    assert(all[last] == e);
    assert(is_shape(all[last], part.shapes@[last]));
}

/// What is read of the elements before does not depend on what stands behind them:
/// as many shapes come of them in either part.
pub proof fn a_member_adds_one_shape(
    first: Element,
    second: Element,
    one: SlidePart,
    two: SlidePart,
    n: Node,
)
    requires
        call_ensures(slide_part_from, (&Some(first),), Ok::<SlidePart, ParseError>(one)),
        call_ensures(slide_part_from, (&Some(second),), Ok::<SlidePart, ParseError>(two)),
        tree_of(second) == tree_of(first).push(n),
    ensures
        n matches Node::Element(e) ==> {
            &&& element_name(*e) == Some("sp"@) || element_name(*e) == Some("pic"@)
                || element_name(*e) == Some("cxnSp"@) || element_name(*e) == Some("grpSp"@)
                || element_name(*e) == Some("graphicFrame"@) ==> two.shapes@.len()
                == one.shapes@.len() + 1
            &&& !(element_name(*e) == Some("sp"@) || element_name(*e) == Some("pic"@)
                || element_name(*e) == Some("cxnSp"@) || element_name(*e) == Some("grpSp"@)
                || element_name(*e) == Some("graphicFrame"@) || element_name(*e) == Some(
                "AlternateContent"@,
            )) ==> two.shapes@.len() == one.shapes@.len()
        },
        !(n is Element) ==> two.shapes@.len() == one.shapes@.len(),
{
    let nodes = tree_of(second);
    assert(nodes.drop_last() =~= tree_of(first));
    assert(nodes == crate::pptx::shape_parse::tree_nodes(second));
    assert(tree_of(first) == crate::pptx::shape_parse::tree_nodes(first));
    assert(nodes.last() == n);
    assert(content(nodes).1.len() == content(tree_of(first)).1.len() + node_content(n).1.len());
}

/// The name, the place and the properties of a shape stand in their own elements.
pub proof fn where_a_shape_is_told(
    root: Element,
    part: SlidePart,
    e: Element,
    nv: &Element,
    d: DocProperties,
    x: &Element,
    t: Transform2D,
)
    requires
        read_behind(root, part, e, "sp"@) || read_behind(root, part, e, "pic"@) || read_behind(
            root,
            part,
            e,
            "cxnSp"@,
        ) || read_behind(root, part, e, "graphicFrame"@),
        call_ensures(doc_properties, (Some(nv),), d),
        call_ensures(read_transform, (x,), t),
    ensures
        ({
            let s = part.shapes@.last();
            let non_visual = match s.kind {
                ShapeKind::AutoShape(_) => "nvSpPr"@,
                ShapeKind::Picture(_) => "nvPicPr"@,
                ShapeKind::Connector(_) => "nvCxnSpPr"@,
                _ => "nvGraphicFramePr"@,
            };
            &&& child_named(e, non_visual) matches Some(h) ==> (child_named(h, "cNvPr"@) == Some(
                *nv,
            ) ==> s.non_visual.id == d.id && s.non_visual.name@ == d.name@)
            &&& s.kind is GraphicFrame ==> {
                &&& child_named(e, "xfrm"@) == Some(*x) ==> s.transform == Some(t)
                &&& child_named(e, "xfrm"@) is None ==> s.transform is None
            }
            &&& !(s.kind is GraphicFrame) ==> {
                &&& child_named(e, "spPr"@) is None ==> s.transform is None
                &&& child_named(e, "spPr"@) matches Some(p) ==> {
                    &&& child_named(p, "xfrm"@) == Some(*x) ==> s.transform == Some(t)
                    &&& child_named(p, "xfrm"@) is None ==> s.transform is None
                }
            }
        }),
{
    the_names_differ();
    let name = element_name(e)->0;
    the_last_member_is_the_last_shape(root, part, e, name);
}

/// The kind and the number of a placeholder.
pub proof fn a_placeholder_is_told_by_its_kind_and_number(
    root: Element,
    part: SlidePart,
    e: Element,
    nv: Element,
    pr: Element,
    ph: Element,
)
    requires
        read_behind(root, part, e, "sp"@) && child_named(e, "nvSpPr"@) == Some(nv)
            || read_behind(root, part, e, "pic"@) && child_named(e, "nvPicPr"@) == Some(nv),
        child_named(nv, "nvPr"@) == Some(pr),
        child_named(pr, "ph"@) == Some(ph),
    ensures
        part.shapes@.last().placeholder matches Some(p) && {
            &&& reads::<u32>(attr(ph, "idx"@)) matches Some(n) ==> p.idx == n
            &&& reads::<u32>(attr(ph, "idx"@)) is None ==> p.idx == 0
            &&& attr(ph, "type"@) is None ==> p.kind is Body
            &&& attr(ph, "type"@) matches Some(s) ==> {
                &&& trimmed(s).len() == 0 ==> p.kind is Body
                &&& p.kind is Body ==> trimmed(s).len() == 0 || trimmed(s) == "body"@
                &&& p.kind is Title ==> trimmed(s) == "title"@
                &&& p.kind is CtrTitle ==> trimmed(s) == "ctrTitle"@
                &&& p.kind is SubTitle ==> trimmed(s) == "subTitle"@
                &&& p.kind is Dt ==> trimmed(s) == "dt"@
                &&& p.kind is Ftr ==> trimmed(s) == "ftr"@
                &&& p.kind is SldNum ==> trimmed(s) == "sldNum"@
                &&& p.kind is SldImg ==> trimmed(s) == "sldImg"@
                &&& p.kind is Pic ==> trimmed(s) == "pic"@
                &&& p.kind is Hdr ==> trimmed(s) == "hdr"@
                &&& p.kind is Tbl ==> trimmed(s) == "tbl"@
                &&& p.kind is Chart ==> trimmed(s) == "chart"@
                &&& p.kind is ClipArt ==> trimmed(s) == "clipArt"@
                &&& p.kind is Dgm ==> trimmed(s) == "dgm"@
                &&& p.kind is Media ==> trimmed(s) == "media"@
                &&& p.kind is Obj ==> trimmed(s) == "obj"@
                &&& p.kind is Unknown ==> trimmed(s) != "body"@ && trimmed(s) != "title"@
                    && trimmed(s) != "ctrTitle"@ && trimmed(s) != "subTitle"@ && trimmed(s)
                    != "dt"@ && trimmed(s) != "ftr"@ && trimmed(s) != "sldNum"@ && trimmed(s)
                    != "sldImg"@ && trimmed(s) != "pic"@ && trimmed(s) != "hdr"@ && trimmed(s)
                    != "tbl"@ && trimmed(s) != "chart"@ && trimmed(s) != "clipArt"@ && trimmed(s)
                    != "dgm"@ && trimmed(s) != "media"@ && trimmed(s) != "obj"@
            }
        },
{
    the_names_differ();
    the_last_member_is_the_last_shape(root, part, e, element_name(e)->0);
}

/// A shape whose element holds no placeholder fills none, and connectors and
/// frames never do.
pub proof fn what_fills_no_placeholder(
    root: Element,
    part: SlidePart,
    e: Element,
    nv: Element,
    pr: Element,
)
    requires
        read_behind(root, part, e, "sp"@) && child_named(e, "nvSpPr"@) == Some(nv) && child_named(
            nv,
            "nvPr"@,
        ) == Some(pr) && child_named(pr, "ph"@) is None || read_behind(root, part, e, "cxnSp"@)
            || read_behind(root, part, e, "graphicFrame"@) || read_behind(root, part, e, "grpSp"@),
    ensures
        part.shapes@.last().placeholder is None,
{
    the_names_differ();
    the_last_member_is_the_last_shape(root, part, e, element_name(e)->0);
}

/// An auto shape has the text and the properties of its own elements, and is a
/// text box only where it says so.
pub proof fn an_auto_shape_is_read_by_its_parts(
    root: Element,
    part: SlidePart,
    e: Element,
    nv: Element,
    c: Element,
)
    requires
        read_behind(root, part, e, "sp"@),
        child_named(e, "nvSpPr"@) == Some(nv),
        child_named(nv, "cNvSpPr"@) == Some(c),
    ensures
        part.shapes@.last().kind matches ShapeKind::AutoShape(a) && {
            &&& a.is_text_box <==> attr(c, "txBox"@) == Some("1"@) || attr(c, "txBox"@) == Some(
                "true"@,
            ) || attr(c, "txBox"@) == Some("on"@)
            &&& child_named(e, "txBody"@) is None ==> a.text is None
            &&& child_named(e, "txBody"@) matches Some(x) ==> (a.text matches Some(b)
                && is_text_body(x, b))
            &&& child_named(e, "spPr"@) is None ==> a.properties is None
            &&& child_named(e, "spPr"@) matches Some(x) ==> (a.properties matches Some(p)
                && is_shape_properties(x, p))
        },
{
    the_names_differ();
    the_last_member_is_the_last_shape(root, part, e, "sp"@);
}

/// The references of a shape's style each stand in an element of their own.
pub proof fn a_style_is_read_by_its_parts(
    root: Element,
    part: SlidePart,
    e: Element,
    st: Element,
    x: &Element,
    r: StyleMatrixRef,
)
    requires
        read_behind(root, part, e, "sp"@) || read_behind(root, part, e, "pic"@) || read_behind(
            root,
            part,
            e,
            "cxnSp"@,
        ),
        call_ensures(read_style_ref, (x,), r),
    ensures
        child_named(e, "style"@) is None ==> part.shapes@.last().style is None,
        child_named(e, "style"@) == Some(st) ==> (part.shapes@.last().style matches Some(s) && {
            &&& child_named(st, "lnRef"@) is None ==> s.line_ref is None
            &&& child_named(st, "fillRef"@) is None ==> s.fill_ref is None
            &&& child_named(st, "effectRef"@) is None ==> s.effect_ref is None
            &&& child_named(st, "fontRef"@) is None ==> s.font_ref is None
            &&& child_named(st, "fontRef"@) is Some ==> s.font_ref is Some
            &&& child_named(st, "lnRef"@) == Some(*x) ==> (s.line_ref matches Some(y) && y.idx
                == r.idx)
            &&& child_named(st, "fillRef"@) == Some(*x) ==> (s.fill_ref matches Some(y) && y.idx
                == r.idx)
            &&& child_named(st, "effectRef"@) == Some(*x) ==> (s.effect_ref matches Some(y)
                && y.idx == r.idx)
        }),
{
    the_names_differ();
    the_last_member_is_the_last_shape(root, part, e, element_name(e)->0);
}

/// A picture shows the image that its fill names, and has the name of its shape.
pub proof fn a_picture_shows_the_image_it_names(
    root: Element,
    part: SlidePart,
    e: Element,
    f: Element,
    b: Element,
)
    requires
        read_behind(root, part, e, "pic"@),
    ensures
        part.shapes@.last().kind matches ShapeKind::Picture(p) && {
            &&& p.non_visual == part.shapes@.last().non_visual
            &&& child_named(e, "blipFill"@) is None ==> p.blip_fill.blip is None
                && p.blip_fill.src_rect is None && p.blip_fill.fill_kind
                == BlipFillKind::Unspecified
            &&& child_named(e, "blipFill"@) == Some(f) && child_named(f, "blip"@) == Some(b) ==> (
            p.blip_fill.blip matches Some(y) && (match y.embed {
                Some(r) => attr(b, "embed"@) == Some(r.id@),
                None => attr(b, "embed"@) is None,
            }))
            &&& child_named(e, "spPr"@) is None ==> p.shape_properties is None
            &&& child_named(e, "spPr"@) matches Some(x) ==> (p.shape_properties matches Some(v)
                && is_shape_properties(x, v))
        },
{
    the_names_differ();
    the_last_member_is_the_last_shape(root, part, e, "pic"@);
}

/// A group takes its box from its transform, the space of its members from the
/// two elements that are theirs, its fill from its properties, and its members
/// from its own content.
pub proof fn a_group_is_read_by_its_parts(
    root: Element,
    part: SlidePart,
    e: Element,
    pr: &Element,
    f: Option<DrawingFill>,
    x: &Element,
    t: Transform2D,
    a: &Element,
    off: Offset<Emu>,
    b: &Element,
    ext: Size<Emu>,
)
    requires
        read_behind(root, part, e, "grpSp"@),
        child_named(e, "grpSpPr"@) == Some(*pr),
        child_named(*pr, "xfrm"@) == Some(*x),
        call_ensures(pick_fill, (pr,), f),
        call_ensures(read_transform, (x,), t),
        call_ensures(read_offset, (a,), off),
        call_ensures(read_extent, (b,), ext),
    ensures
        part.shapes@.last().transform == Some(t),
        part.shapes@.last().kind matches ShapeKind::Group(g) && {
            &&& child_named(*x, "chOff"@) is None ==> g.child_offset is None
            &&& child_named(*x, "chOff"@) == Some(*a) ==> g.child_offset == Some(off)
            &&& child_named(*x, "chExt"@) is None ==> g.child_extent is None
            &&& child_named(*x, "chExt"@) == Some(*b) ==> g.child_extent == Some(ext)
            &&& g.fill is Some <==> f is Some
            &&& f matches Some(y) ==> (g.fill matches Some(z) && (y is NoFill <==> z is NoFill) && (
            y is Solid <==> z is Solid) && (y is Group <==> z is Group) && (y is Gradient <==> z
                is Gradient) && (y is Blip <==> z is Blip))
            &&& g.children@.len() == content(e.children@).1.len()
            &&& forall|i: int|
                0 <= i < g.children@.len() ==> is_shape(
                    content(e.children@).1[i],
                    #[trigger] g.children@[i],
                )
        },
{
    the_names_differ();
    the_last_member_is_the_last_shape(root, part, e, "grpSp"@);
}

/// A frame shows the table that it holds, or else the diagram whose data it names,
/// or else nothing but the kind of what it holds.
pub proof fn what_a_frame_shows(root: Element, part: SlidePart, e: Element, g: Element, d: Element)
    requires
        read_behind(root, part, e, "graphicFrame"@),
        child_named(e, "graphic"@) == Some(g),
        child_named(g, "graphicData"@) == Some(d),
    ensures
        part.shapes@.last().kind matches ShapeKind::GraphicFrame(f) && {
            let data = match child_named(d, "relIds"@) {
                Some(r) => attr(r, "dm"@),
                None => None,
            };
            &&& child_named(d, "tbl"@) is Some ==> f.payload is Table
            &&& child_named(d, "tbl"@) is None ==> {
                &&& data matches Some(s) ==> (s.len() > 0 ==> (
                f.payload matches GraphicFramePayload::Diagram { data_rel } && data_rel@ == s))
                &&& data is None || (data->0).len() == 0 ==> (
                f.payload matches GraphicFramePayload::Unsupported { uri } && match attr(
                    d,
                    "uri"@,
                ) {
                    Some(u) => uri@ == u,
                    None => uri@.len() == 0,
                })
            }
        },
{
    the_names_differ();
    the_last_member_is_the_last_shape(root, part, e, "graphicFrame"@);
}

/// A table has its columns, rows and cells in order, each with what its own
/// element states.
pub proof fn a_table_is_read_by_its_parts(
    root: Element,
    part: SlidePart,
    e: Element,
    g: Element,
    d: Element,
    tbl: Element,
    grid: Element,
    i: int,
    j: int,
)
    requires
        read_behind(root, part, e, "graphicFrame"@),
        child_named(e, "graphic"@) == Some(g),
        child_named(g, "graphicData"@) == Some(d),
        child_named(d, "tbl"@) == Some(tbl),
        child_named(tbl, "tblGrid"@) == Some(grid),
        0 <= i < children_named(tbl, "tr"@).len(),
        0 <= j < children_named(children_named(tbl, "tr"@)[i], "tc"@).len(),
    ensures
        part.shapes@.last().kind matches ShapeKind::GraphicFrame(f) && (
        f.payload matches GraphicFramePayload::Table(t) && {
            let rows = children_named(tbl, "tr"@);
            let cols = children_named(grid, "gridCol"@);
            let cells = children_named(rows[i], "tc"@);
            let c = cells[j];
            &&& t.grid@.len() == cols.len()
            &&& forall|k: int|
                0 <= k < cols.len() ==> (match number(#[trigger] cols[k], "w"@) {
                    Some(n) => t.grid@[k].value == if n < 0 {
                        0i64
                    } else {
                        n
                    },
                    None => t.grid@[k].value == 0,
                })
            &&& t.rows@.len() == rows.len()
            &&& is_measure(rows[i], "h"@, t.rows@[i].height)
            &&& t.rows@[i].cells@.len() == cells.len()
            &&& reads::<u32>(attr(c, "gridSpan"@)) matches Some(n) ==> n > 0
                ==> t.rows@[i].cells@[j].grid_span == n
            &&& reads::<u32>(attr(c, "rowSpan"@)) matches Some(n) ==> n > 0
                ==> t.rows@[i].cells@[j].row_span == n
            &&& reads::<u32>(attr(c, "gridSpan"@)) is None || reads::<u32>(attr(c, "gridSpan"@))
                == Some(0u32) ==> t.rows@[i].cells@[j].grid_span == 1
            &&& reads::<u32>(attr(c, "rowSpan"@)) is None || reads::<u32>(attr(c, "rowSpan"@))
                == Some(0u32) ==> t.rows@[i].cells@[j].row_span == 1
            &&& t.rows@[i].cells@[j].h_merge <==> is_truth(attr(c, "hMerge"@), Some(true))
            &&& t.rows@[i].cells@[j].v_merge <==> is_truth(attr(c, "vMerge"@), Some(true))
            &&& child_named(c, "txBody"@) is None ==> t.rows@[i].cells@[j].text is None
            &&& child_named(c, "txBody"@) matches Some(x) ==> (
            t.rows@[i].cells@[j].text matches Some(b) && is_text_body(x, b))
            &&& child_named(c, "tcPr"@) matches Some(x) ==> {
                let p = t.rows@[i].cells@[j].properties;
                &&& is_measure(x, "marL"@, p.left_margin)
                &&& is_measure(x, "marT"@, p.top_margin)
                &&& is_measure(x, "marR"@, p.right_margin)
                &&& is_measure(x, "marB"@, p.bottom_margin)
                &&& p.anchor == reads::<crate::model::drawing::TextAnchoringType>(
                    attr(x, "anchor"@),
                )
                &&& p.vert == reads::<crate::model::drawing::TextVerticalType>(attr(x, "vert"@))
            }
            &&& child_named(c, "tcPr"@) is None ==> {
                let p = t.rows@[i].cells@[j].properties;
                &&& p.left_margin is None
                &&& p.top_margin is None
                &&& p.right_margin is None
                &&& p.bottom_margin is None
                &&& p.anchor is None
                &&& p.vert is None
            }
        }),
{
    the_names_differ();
    the_last_member_is_the_last_shape(root, part, e, "graphicFrame"@);
    let f = part.shapes@.last().kind->GraphicFrame_0;
    let t = f.payload->Table_0;
    assert(crate::pptx::shape_read::is_row(children_named(tbl, "tr"@)[i], t.rows@[i]));
    assert(crate::pptx::shape_read::is_cell(
        children_named(children_named(tbl, "tr"@)[i], "tc"@)[j],
        t.rows@[i].cells@[j],
    ));
    let cols = children_named(grid, "gridCol"@);
    assert(t.grid@ == crate::pptx::shape_read::widths(cols));
    assert forall|k: int| 0 <= k < cols.len() implies (match number(#[trigger] cols[k], "w"@) {
        Some(n) => t.grid@[k].value == if n < 0 {
            0i64
        } else {
            n
        },
        None => t.grid@[k].value == 0,
    }) by {
        assert(t.grid@[k] == crate::xml::lenient::nonneg::<Emu>(attr(cols[k], "w"@)));
    }
}

/// The first row, the first column and the bands of a table are set apart where
/// its properties say so.
pub proof fn a_table_sets_parts_of_it_apart(
    root: Element,
    part: SlidePart,
    e: Element,
    g: Element,
    d: Element,
    tbl: Element,
)
    requires
        read_behind(root, part, e, "graphicFrame"@),
        child_named(e, "graphic"@) == Some(g),
        child_named(g, "graphicData"@) == Some(d),
        child_named(d, "tbl"@) == Some(tbl),
    ensures
        part.shapes@.last().kind matches ShapeKind::GraphicFrame(f) && (
        f.payload matches GraphicFramePayload::Table(t) && {
            &&& child_named(tbl, "tblPr"@) matches Some(p) ==> {
                &&& t.first_row <==> is_truth(attr(p, "firstRow"@), Some(true))
                &&& t.first_col <==> is_truth(attr(p, "firstCol"@), Some(true))
                &&& t.band_row <==> is_truth(attr(p, "bandRow"@), Some(true))
            }
            &&& child_named(tbl, "tblPr"@) is None ==> !t.first_row && !t.first_col && !t.band_row
            &&& child_named(tbl, "tblGrid"@) is None ==> t.grid@.len() == 0
        }),
{
    the_names_differ();
    the_last_member_is_the_last_shape(root, part, e, "graphicFrame"@);
}

/// Whether a name of a colour map stands for the slot that its attribute states,
/// or else for its usual one.
pub open spec fn is_mapped(
    m: Element,
    name: Seq<char>,
    usual: SchemeColorVal,
    v: SchemeColorVal,
) -> bool {
    match reads::<SchemeColorVal>(attr(m, name)) {
        Some(w) => v == w,
        None => v == usual,
    }
}

/// A part's own colour map is the master's, or the one that overrides it; each of
/// its names is mapped by the attribute of that name.
pub proof fn a_colour_map_is_read_by_its_names(root: Element, part: SlidePart, m: Element)
    requires
        call_ensures(slide_part_from, (&Some(root),), Ok::<SlidePart, ParseError>(part)),
        child_named(root, "clrMap"@) == Some(m) || child_named(root, "clrMap"@) is None && (
        child_named(root, "clrMapOvr"@) matches Some(o) && child_named(o, "overrideClrMapping"@)
            == Some(m)),
    ensures
        part.color_map matches Some(c) && {
            &&& is_mapped(m, "bg1"@, SchemeColorVal::Lt1, c.bg1)
            &&& is_mapped(m, "tx1"@, SchemeColorVal::Dk1, c.tx1)
            &&& is_mapped(m, "bg2"@, SchemeColorVal::Lt2, c.bg2)
            &&& is_mapped(m, "tx2"@, SchemeColorVal::Dk2, c.tx2)
            &&& is_mapped(m, "accent1"@, SchemeColorVal::Accent1, c.accent1)
            &&& is_mapped(m, "accent2"@, SchemeColorVal::Accent2, c.accent2)
            &&& is_mapped(m, "accent3"@, SchemeColorVal::Accent3, c.accent3)
            &&& is_mapped(m, "accent4"@, SchemeColorVal::Accent4, c.accent4)
            &&& is_mapped(m, "accent5"@, SchemeColorVal::Accent5, c.accent5)
            &&& is_mapped(m, "accent6"@, SchemeColorVal::Accent6, c.accent6)
            &&& is_mapped(m, "hlink"@, SchemeColorVal::Hlink, c.hlink)
            &&& is_mapped(m, "folHlink"@, SchemeColorVal::FolHlink, c.folink)
        },
{
}

/// Where a part states no colour map, it has none of its own. It shows what it
/// inherits unless it says otherwise.
pub proof fn what_a_part_declares(root: Element, part: SlidePart)
    requires
        call_ensures(slide_part_from, (&Some(root),), Ok::<SlidePart, ParseError>(part)),
    ensures
        child_named(root, "clrMap"@) is None && child_named(root, "clrMapOvr"@) is None
            ==> part.color_map is None,
        part.show_inherited_shapes <==> attr(root, "showMasterSp"@) is None || is_truth(
            attr(root, "showMasterSp"@),
            Some(true),
        ),
        child_named(root, "cSld"@) is None ==> part.shapes@.len() == 0 && part.background is None,
{
}

/// The background of a part is the fill of its properties; where it has none, the
/// entry of the theme that it refers to.
pub proof fn a_background_is_told_by_its_fill(
    root: Element,
    part: SlidePart,
    c: Element,
    bg: Element,
    p: &Element,
    f: Option<DrawingFill>,
    x: &Element,
    r: StyleMatrixRef,
)
    requires
        call_ensures(slide_part_from, (&Some(root),), Ok::<SlidePart, ParseError>(part)),
        child_named(root, "cSld"@) == Some(c),
        call_ensures(pick_fill, (p,), f),
        call_ensures(read_style_ref, (x,), r),
    ensures
        child_named(c, "bg"@) is None ==> part.background is None,
        child_named(c, "bg"@) == Some(bg) ==> {
            &&& child_named(bg, "bgPr"@) == Some(*p) ==> {
                &&& f is None ==> part.background is None
                &&& f matches Some(y) ==> (part.background matches Some(Background::Properties(z))
                    && (y is NoFill <==> z is NoFill) && (y is Solid <==> z is Solid) && (y
                    is Group <==> z is Group) && (y is Gradient <==> z is Gradient) && (y
                    is Blip <==> z is Blip))
            }
            &&& child_named(bg, "bgPr"@) is None ==> {
                &&& child_named(bg, "bgRef"@) == Some(*x) ==> (
                part.background matches Some(Background::Reference(y)) && y.idx == r.idx)
                &&& child_named(bg, "bgRef"@) is None ==> part.background is None
            }
        },
{
}

/// What cannot be read as a document is malformed, and what reads as one is either
/// a part or breaks the schema.
pub proof fn how_a_part_fails(root: &Option<Element>, r: Result<SlidePart, ParseError>)
    requires
        call_ensures(slide_part_from, (root,), r),
    ensures
        root is None <==> r == Err::<SlidePart, ParseError>(ParseError::Malformed),
        root is Some ==> r is Ok || r == Err::<SlidePart, ParseError>(ParseError::Schema),
{
}

/// The text of a part is counted member by member: that of shapes and of tables,
/// in groups too, and none of pictures and connectors.
pub proof fn text_is_counted_member_by_member(nodes: Seq<Node>, n: Node)
    requires
        content(nodes).0 + content(seq![n]).0 <= u64::MAX,
    ensures
        content(Seq::<Node>::empty()).0 == 0,
        content(nodes.push(n)).0 == content(nodes).0 + content(seq![n]).0,
        n matches Node::Element(e) ==> {
            &&& element_name(*e) == Some("sp"@) ==> {
                &&& child_named(*e, "txBody"@) is None ==> content(seq![n]).0 == 0
                &&& child_named(*e, "txBody"@) matches Some(x) ==> (body_text(x).len() <= u64::MAX
                    ==> content(seq![n]).0 == body_text(x).len())
            }
            &&& element_name(*e) == Some("pic"@) || element_name(*e) == Some("cxnSp"@)
                ==> content(seq![n]).0 == 0
            &&& element_name(*e) == Some("grpSp"@) ==> content(seq![n]).0 == content(e.children@).0
        },
{
    the_names_differ();
    assert(nodes.push(n).drop_last() =~= nodes);
    assert(seq![n].drop_last() =~= Seq::<Node>::empty());
    assert(seq![n].last() == n);
    assert(content(Seq::<Node>::empty()).0 == 0);
    assert(content(seq![n]).0 == crate::pptx::shape_read::counted(
        0,
        node_content(n).0,
    ));
}

/// Whether a node is a branch of the given name.
pub open spec fn is_alternative(n: Node, name: Seq<char>) -> bool {
    n matches Node::Element(b) && element_name(*b) == Some(name)
}

/// How much text the members inside a node hold.
pub open spec fn held(n: Node) -> nat {
    match n {
        Node::Element(b) => content(b.children@).0,
        _ => 0,
    }
}

/// Whether a node is the branch of its name that counts: it holds more text than
/// those of its name before it, and no less than those behind it.
pub open spec fn outdoes_its_kind(nodes: Seq<Node>, k: int, name: Seq<char>) -> bool {
    &&& 0 <= k < nodes.len()
    &&& is_alternative(nodes[k], name)
    &&& forall|j: int|
        0 <= j < k && is_alternative(#[trigger] nodes[j], name) ==> held(nodes[j]) < held(nodes[k])
    &&& forall|j: int|
        k < j < nodes.len() && is_alternative(#[trigger] nodes[j], name) ==> held(nodes[j])
            <= held(nodes[k])
}

/// The branch that outdoes the others of its name, and what came before, is kept.
proof fn the_branch_that_is_kept(
    nodes: Seq<Node>,
    name: Seq<char>,
    start: Option<(nat, Seq<Element>)>,
    k: int,
)
    requires
        outdoes_its_kind(nodes, k, name),
        start is Some ==> (start->0).0 < held(nodes[k]),
    ensures
        nodes[k] matches Node::Element(b) && fullest(nodes, name, start) == Some(
            content(b.children@),
        ),
    decreases nodes.len(),
{
    let rest = nodes.drop_last();
    assert(forall|j: int| 0 <= j < rest.len() ==> #[trigger] rest[j] == nodes[j]);
    if k == nodes.len() - 1 {
        the_fullest_branch_counts(rest, name, start);
        let best = fullest(rest, name, start);
        if best != start {
            let j = choose|j: int| 0 <= j < rest.len() && #[trigger] branch(rest[j], name) == best;
            if best is Some {
                assert(is_alternative(nodes[j], name));
                assert((best->0).0 == held(nodes[j]));
            }
        }
    } else {
        the_branch_that_is_kept(rest, name, start, k);
        assert(nodes.last() == nodes[nodes.len() - 1]);
    }
}

/// Whether a branch is the one that counts among alternatives: a `Choice` that no
/// `Fallback` outdoes, or a `Fallback` that outdoes every `Choice`.
pub open spec fn is_the_fullest(nodes: Seq<Node>, k: int) -> bool {
    ||| outdoes_its_kind(nodes, k, "Choice"@) && all_hold_at_most(nodes, "Fallback"@, held(nodes[k]) as int)
    ||| outdoes_its_kind(nodes, k, "Fallback"@) && all_hold_at_most(
        nodes,
        "Choice"@,
        held(nodes[k]) - 1,
    )
}

/// Whether no branch of the given name holds more text than a limit.
pub open spec fn all_hold_at_most(nodes: Seq<Node>, name: Seq<char>, limit: int) -> bool {
    forall|j: int|
        0 <= j < nodes.len() && is_alternative(#[trigger] nodes[j], name) ==> held(nodes[j])
            <= limit
}

/// Of alternatives the branch that holds the most text is read: a `Choice` before a
/// `Fallback` of the same size, and the first of several. Its members stand where the
/// alternatives do.
pub proof fn of_alternatives_the_fullest_is_read(root: Element, part: SlidePart, e: Element, k: int)
    requires
        read_behind(root, part, e, "AlternateContent"@),
        is_the_fullest(e.children@, k),
    ensures
        e.children@[k] matches Node::Element(b) && {
            let before = content(tree_of(root).drop_last()).1.len();
            let read = content(b.children@).1;
            &&& part.shapes@.len() == before + read.len()
            &&& forall|i: int|
                0 <= i < read.len() ==> is_shape(read[i], #[trigger] part.shapes@[before + i])
        },
{
    alternatives_are_told_apart(e);
    let all = e.children@;
    let first = fullest(all, "Choice"@, None);
    if outdoes_its_kind(all, k, "Choice"@) && all_hold_at_most(all, "Fallback"@, held(all[k]) as int) {
        the_branch_that_is_kept(all, "Choice"@, None, k);
        the_fullest_branch_counts(all, "Fallback"@, first);
        assert forall|j: int|
            0 <= j < all.len() && (#[trigger] branch(all[j], "Fallback"@)) is Some implies (branch(
            all[j],
            "Fallback"@,
        )->0).0 <= (first->0).0 by {
            assert(is_alternative(all[j], "Fallback"@));
        }
        assert(fullest(all, "Fallback"@, first) == first);
    } else {
        the_fullest_branch_counts(all, "Choice"@, None);
        if first is Some {
            let j = choose|j: int| 0 <= j < all.len() && #[trigger] branch(all[j], "Choice"@) == first;
            assert(is_alternative(all[j], "Choice"@));
            assert((first->0).0 == held(all[j]));
        }
        the_branch_that_is_kept(all, "Fallback"@, first, k);
    }
    let b = all[k]->Element_0;
    let nodes = tree_of(root);
    assert(nodes == crate::pptx::shape_parse::tree_nodes(root));
    assert(node_content(nodes.last()) == content(b.children@));
    let before = content(nodes.drop_last()).1;
    let read = content(b.children@).1;
    assert(content(nodes).1 == before + read);
    assert forall|i: int| 0 <= i < read.len() implies is_shape(
        read[i],
        #[trigger] part.shapes@[before.len() + i],
    ) by {
        assert(content(nodes).1[before.len() + i] == read[i]);
    }
}

/// Alternatives are no other kind of member.
proof fn alternatives_are_told_apart(e: Element)
    requires
        element_name(e) == Some("AlternateContent"@),
    ensures
        member_of(e) is Alternates,
{
    reveal_strlit("AlternateContent");
    reveal_strlit("sp");
    reveal_strlit("pic");
    reveal_strlit("cxnSp");
    reveal_strlit("grpSp");
    reveal_strlit("graphicFrame");
    assert("AlternateContent"@.len() == 16 && "sp"@.len() == 2 && "pic"@.len() == 3
        && "cxnSp"@.len() == 5 && "grpSp"@.len() == 5 && "graphicFrame"@.len() == 12);
}

/// Alternatives without a branch add no shape.
pub proof fn no_alternative_adds_no_shape(root: Element, part: SlidePart, e: Element)
    requires
        read_behind(root, part, e, "AlternateContent"@),
        forall|j: int|
            0 <= j < e.children@.len() ==> !is_alternative(#[trigger] e.children@[j], "Choice"@)
                && !is_alternative(e.children@[j], "Fallback"@),
    ensures
        part.shapes@.len() == content(tree_of(root).drop_last()).1.len(),
{
    alternatives_are_told_apart(e);
    let all = e.children@;
    let first = fullest(all, "Choice"@, None);
    the_fullest_branch_counts(all, "Choice"@, None);
    if first is Some {
        let j = choose|j: int| 0 <= j < all.len() && #[trigger] branch(all[j], "Choice"@) == first;
        assert(is_alternative(all[j], "Choice"@));
    }
    the_fullest_branch_counts(all, "Fallback"@, first);
    let both = fullest(all, "Fallback"@, first);
    if both is Some {
        let j = choose|j: int| 0 <= j < all.len() && #[trigger] branch(all[j], "Fallback"@) == both;
        assert(is_alternative(all[j], "Fallback"@));
    }
    let nodes = tree_of(root);
    assert(nodes == crate::pptx::shape_parse::tree_nodes(root));
    assert(node_content(nodes.last()).1.len() == 0);
}

/// How many characters stand in the cells of a row.
pub open spec fn row_characters(cells: Seq<Element>) -> nat
    decreases cells.len(),
{
    if cells.len() == 0 {
        0
    } else {
        row_characters(cells.drop_last()) + match child_named(cells.last(), "txBody"@) {
            Some(x) => body_text(x).len(),
            None => 0,
        }
    }
}

/// How many characters stand in the rows of a table.
pub open spec fn table_characters(rows: Seq<Element>) -> nat
    decreases rows.len(),
{
    if rows.len() == 0 {
        0
    } else {
        table_characters(rows.drop_last()) + row_characters(children_named(rows.last(), "tc"@))
    }
}

/// A row counts what its cells hold.
proof fn a_row_counts_its_cells(cells: Seq<Element>)
    requires
        row_characters(cells) <= u64::MAX,
    ensures
        cells_size(cells) == row_characters(cells),
    decreases cells.len(),
{
    if cells.len() > 0 {
        a_row_counts_its_cells(cells.drop_last());
    }
}

/// A table counts what its rows hold.
proof fn a_table_counts_its_rows(rows: Seq<Element>)
    requires
        table_characters(rows) <= u64::MAX,
    ensures
        rows_size(rows) == table_characters(rows),
    decreases rows.len(),
{
    if rows.len() > 0 {
        a_table_counts_its_rows(rows.drop_last());
        a_row_counts_its_cells(children_named(rows.last(), "tc"@));
    }
}

/// The text of a frame is that of the cells of its table; a frame without a table
/// holds none.
pub proof fn a_frame_counts_the_text_of_its_table(e: Element, g: Element, d: Element)
    requires
        element_name(e) == Some("graphicFrame"@),
        child_named(e, "graphic"@) == Some(g),
        child_named(g, "graphicData"@) == Some(d),
    ensures
        child_named(d, "tbl"@) is None ==> content(seq![Node::Element(Box::new(e))]).0 == 0,
        child_named(d, "tbl"@) matches Some(t) ==> (table_characters(children_named(t, "tr"@))
            <= u64::MAX ==> content(seq![Node::Element(Box::new(e))]).0 == table_characters(
            children_named(t, "tr"@),
        )),
{
    the_names_differ();
    let n = Node::Element(Box::new(e));
    assert(seq![n].drop_last() =~= Seq::<Node>::empty());
    assert(seq![n].last() == n);
    assert(content(Seq::<Node>::empty()).0 == 0);
    assert(content(seq![n]).0 == crate::pptx::shape_read::counted(0, node_content(n).0));
    if let Some(t) = child_named(d, "tbl"@) {
        if table_characters(children_named(t, "tr"@)) <= u64::MAX {
            a_table_counts_its_rows(children_named(t, "tr"@));
        }
    }
}

} // verus!
