//! Reading shapes from the elements of a shape tree.
use vstd::prelude::*;
use vstd::string::StrSliceExecFns;

use crate::dimension::{Dimension, Emu};
use crate::dml::fill::{is_blip_fill, is_fill_in, pick_fill, read_blip_fill};
use crate::dml::shape::{
    doc_properties, extent_in, is_doc_properties, is_font_ref, is_shape_properties, is_style_ref,
    offset_in, own_transform, read_extent, read_font_ref, read_offset, read_shape_properties,
    read_style_ref, read_text, read_transform, text_or_empty, transform_in,
};
use crate::model::drawing::{
    BlipFill, BlipFillKind, DocProperties, DrawingFill, Picture, ShapeProperties,
};
use crate::model::geometry::{Offset, Size, Transform2D};
use crate::pptx::shapes::{
    unset_cell, AutoShape, Connector, GraphicFrame, GraphicFramePayload, Group, Placeholder,
    PlaceholderKind, Shape, ShapeKind, ShapeStyle, Table, TableCell, TableCellProperties, TableRow,
};
use crate::pptx::text::TextBody;
use crate::pptx::text_read::{body_text, is_text_body, read_text_body, text_is_preserved};
use crate::scan::{spells, str_eq, trim, trimmed};
use crate::xml::lenient::{
    attr_bool, nonneg, nonneg_or_default, opt_attr, or_default, reads, truth,
};
use crate::xml::query::{
    attr, attribute, child, child_named, child_of_child, children, children_named,
    element_local_name, element_name, grandchild, opt_attr_of,
};
use crate::xml::schema::element_at;
use crate::xml::tree::{Element, Node};

verus! {

/// The kind of placeholder that a name stands for.
pub open spec fn placeholder_kind(name: Option<Seq<char>>) -> PlaceholderKind {
    match name {
        None => PlaceholderKind::Body,
        Some(s) => {
            let t = trimmed(s);
            if t.len() == 0 || t == "body"@ {
                PlaceholderKind::Body
            } else if t == "title"@ {
                PlaceholderKind::Title
            } else if t == "ctrTitle"@ {
                PlaceholderKind::CtrTitle
            } else if t == "subTitle"@ {
                PlaceholderKind::SubTitle
            } else if t == "dt"@ {
                PlaceholderKind::Dt
            } else if t == "ftr"@ {
                PlaceholderKind::Ftr
            } else if t == "sldNum"@ {
                PlaceholderKind::SldNum
            } else if t == "sldImg"@ {
                PlaceholderKind::SldImg
            } else if t == "pic"@ {
                PlaceholderKind::Pic
            } else if t == "hdr"@ {
                PlaceholderKind::Hdr
            } else if t == "tbl"@ {
                PlaceholderKind::Tbl
            } else if t == "chart"@ {
                PlaceholderKind::Chart
            } else if t == "clipArt"@ {
                PlaceholderKind::ClipArt
            } else if t == "dgm"@ {
                PlaceholderKind::Dgm
            } else if t == "media"@ {
                PlaceholderKind::Media
            } else if t == "obj"@ {
                PlaceholderKind::Obj
            } else {
                PlaceholderKind::Unknown
            }
        },
    }
}

/// The placeholder that a `ph` element states.
pub open spec fn placeholder_in(e: Element) -> Placeholder {
    Placeholder {
        kind: placeholder_kind(attr(e, "type"@)),
        idx: match reads::<u32>(attr(e, "idx"@)) {
            Some(v) => v,
            None => 0,
        },
    }
}

/// The placeholder that a `ph` element states.
fn read_placeholder(e: &Element) -> (p: Placeholder)
    ensures
        p == placeholder_in(*e),
{
    let kind: PlaceholderKind = match attribute(e, "type") {
        None => PlaceholderKind::Body,
        Some(s) => {
            let t: Vec<char> = trim(s.as_str());
            if t.len() == 0 || spells(&t, "body") {
                PlaceholderKind::Body
            } else if spells(&t, "title") {
                PlaceholderKind::Title
            } else if spells(&t, "ctrTitle") {
                PlaceholderKind::CtrTitle
            } else if spells(&t, "subTitle") {
                PlaceholderKind::SubTitle
            } else if spells(&t, "dt") {
                PlaceholderKind::Dt
            } else if spells(&t, "ftr") {
                PlaceholderKind::Ftr
            } else if spells(&t, "sldNum") {
                PlaceholderKind::SldNum
            } else if spells(&t, "sldImg") {
                PlaceholderKind::SldImg
            } else if spells(&t, "pic") {
                PlaceholderKind::Pic
            } else if spells(&t, "hdr") {
                PlaceholderKind::Hdr
            } else if spells(&t, "tbl") {
                PlaceholderKind::Tbl
            } else if spells(&t, "chart") {
                PlaceholderKind::Chart
            } else if spells(&t, "clipArt") {
                PlaceholderKind::ClipArt
            } else if spells(&t, "dgm") {
                PlaceholderKind::Dgm
            } else if spells(&t, "media") {
                PlaceholderKind::Media
            } else if spells(&t, "obj") {
                PlaceholderKind::Obj
            } else {
                PlaceholderKind::Unknown
            }
        },
    };
    let idx: u32 = or_default(e, "idx", 0);
    Placeholder { kind, idx }
}

/// The `ph` element in a shape's non-visual properties.
pub open spec fn ph_of(e: Element, non_visual: Seq<char>) -> Option<Element> {
    match grandchild(e, non_visual, "nvPr"@) {
        Some(x) => child_named(x, "ph"@),
        None => None,
    }
}

/// The placeholder that a shape fills, by the name of its non-visual
/// properties.
pub open spec fn fills(e: Element, non_visual: Seq<char>) -> Option<Placeholder> {
    match ph_of(e, non_visual) {
        Some(x) => Some(placeholder_in(x)),
        None => None,
    }
}

/// The placeholder that a shape fills.
fn read_fills(e: &Element, non_visual: &str) -> (r: Option<Placeholder>)
    ensures
        r == fills(*e, non_visual@),
{
    match child_of_child(e, non_visual, "nvPr") {
        Some(x) => match child(x, "ph") {
            Some(p) => Some(read_placeholder(p)),
            None => None,
        },
        None => None,
    }
}

/// Whether shape properties are those that an element states, where it does.
pub open spec fn is_properties(e: Option<Element>, p: Option<ShapeProperties>) -> bool {
    match e {
        Some(x) => p matches Some(v) && is_shape_properties(x, v),
        None => p is None,
    }
}

/// The transform in the shape properties of a shape.
pub open spec fn transform_of(e: Option<Element>) -> Option<Transform2D> {
    match e {
        Some(x) => own_transform(x),
        None => None,
    }
}

/// The shape properties that an element states, where there is one.
fn read_properties(e: Option<&Element>) -> (r: Option<ShapeProperties>)
    ensures
        is_properties(element_at(e), r),
        (match r {
            Some(p) => p.transform,
            None => None,
        }) == transform_of(element_at(e)),
{
    match e {
        Some(x) => Some(read_shape_properties(x)),
        None => None,
    }
}

/// Whether the references of a style element are those of a style.
pub open spec fn is_style(e: Element, s: ShapeStyle) -> bool {
    &&& match child_named(e, "lnRef"@) {
        Some(x) => s.line_ref matches Some(r) && is_style_ref(x, r),
        None => s.line_ref is None,
    }
    &&& match child_named(e, "fillRef"@) {
        Some(x) => s.fill_ref matches Some(r) && is_style_ref(x, r),
        None => s.fill_ref is None,
    }
    &&& match child_named(e, "effectRef"@) {
        Some(x) => s.effect_ref matches Some(r) && is_style_ref(x, r),
        None => s.effect_ref is None,
    }
    &&& match child_named(e, "fontRef"@) {
        Some(x) => s.font_ref matches Some(r) && is_font_ref(x, r),
        None => s.font_ref is None,
    }
}

/// Whether a shape's style is what the shape states.
pub open spec fn is_style_of(e: Element, s: Option<ShapeStyle>) -> bool {
    match child_named(e, "style"@) {
        Some(x) => s matches Some(v) && is_style(x, v),
        None => s is None,
    }
}

/// The style of a shape.
fn read_style_of(e: &Element) -> (r: Option<ShapeStyle>)
    ensures
        is_style_of(*e, r),
{
    match child(e, "style") {
        Some(x) => Some(
            ShapeStyle {
                line_ref: match child(x, "lnRef") {
                    Some(y) => Some(read_style_ref(y)),
                    None => None,
                },
                fill_ref: match child(x, "fillRef") {
                    Some(y) => Some(read_style_ref(y)),
                    None => None,
                },
                effect_ref: match child(x, "effectRef") {
                    Some(y) => Some(read_style_ref(y)),
                    None => None,
                },
                font_ref: match child(x, "fontRef") {
                    Some(y) => Some(read_font_ref(y)),
                    None => None,
                },
            },
        ),
        None => None,
    }
}

/// Whether a text body is the one that an element holds, where it holds one.
pub open spec fn is_text_of(e: Element, t: Option<TextBody>) -> bool {
    match child_named(e, "txBody"@) {
        Some(x) => t matches Some(b) && is_text_body(x, b),
        None => t is None,
    }
}

/// The sum of two sizes, at most the largest that can be counted.
pub open spec fn counted(a: nat, b: nat) -> nat {
    if a + b > u64::MAX {
        u64::MAX as nat
    } else {
        a + b
    }
}

/// How many characters of text stand in the text body that an element holds.
pub open spec fn text_size(e: Element) -> nat {
    match child_named(e, "txBody"@) {
        Some(x) => counted(body_text(x).len(), 0),
        None => 0,
    }
}

/// The text body that an element holds, and how many characters of text it has.
fn read_text_of(e: &Element) -> (r: (Option<TextBody>, u64))
    ensures
        is_text_of(*e, r.0),
        r.1 == text_size(*e),
{
    match child(e, "txBody") {
        Some(x) => {
            let body: TextBody = read_text_body(x);
            proof {
                text_is_preserved(*x, body);
            }
            let plain: String = body.plain_text();
            let size: usize = plain.as_str().unicode_len();
            (Some(body), size as u64)
        },
        None => (None, 0),
    }
}

/// Whether an auto shape is what an `sp` element states.
pub open spec fn is_auto_shape(e: Element, s: Shape) -> bool {
    &&& is_doc_properties(grandchild(e, "nvSpPr"@, "cNvPr"@), s.non_visual)
    &&& s.placeholder == fills(e, "nvSpPr"@)
    &&& s.transform == transform_of(child_named(e, "spPr"@))
    &&& is_style_of(e, s.style)
    &&& s.kind matches ShapeKind::AutoShape(a) && {
        &&& is_properties(child_named(e, "spPr"@), a.properties)
        &&& is_text_of(e, a.text)
        &&& a.is_text_box == (truth(
            opt_attr_of(grandchild(e, "nvSpPr"@, "cNvSpPr"@), "txBox"@),
        ) == Some(true))
    }
}

/// The auto shape that an `sp` element states, and the size of its text.
pub(crate) fn lower_sp(e: &Element) -> (r: (Shape, u64))
    ensures
        is_auto_shape(*e, r.0),
        !r.0.transform_inherited && r.0.slide_rect is None,
        r.1 == text_size(*e),
{
    let (text, size): (Option<TextBody>, u64) = read_text_of(e);
    let properties: Option<ShapeProperties> = read_properties(child(e, "spPr"));
    let transform: Option<Transform2D> = match &properties {
        Some(p) => p.transform,
        None => None,
    };
    let is_text_box: bool = match child_of_child(e, "nvSpPr", "cNvSpPr") {
        Some(x) => match attr_bool(x, "txBox") {
            Some(b) => b,
            None => false,
        },
        None => false,
    };
    let shape: Shape = Shape {
        non_visual: doc_properties(child_of_child(e, "nvSpPr", "cNvPr")),
        placeholder: read_fills(e, "nvSpPr"),
        transform,
        transform_inherited: false,
        slide_rect: None,
        style: read_style_of(e),
        kind: ShapeKind::AutoShape(Box::new(AutoShape { properties, text, is_text_box })),
    };
    (shape, size)
}

/// Whether a picture is what a `pic` element states.
pub open spec fn is_picture(e: Element, s: Shape) -> bool {
    &&& is_doc_properties(grandchild(e, "nvPicPr"@, "cNvPr"@), s.non_visual)
    &&& s.placeholder == fills(e, "nvPicPr"@)
    &&& s.transform == transform_of(child_named(e, "spPr"@))
    &&& is_style_of(e, s.style)
    &&& s.kind matches ShapeKind::Picture(p) && {
        &&& p.non_visual == s.non_visual
        &&& match child_named(e, "blipFill"@) {
            Some(b) => is_blip_fill(b, p.blip_fill),
            None => p.blip_fill == (BlipFill {
                blip: None,
                src_rect: None,
                fill_kind: BlipFillKind::Unspecified,
            }),
        }
        &&& is_properties(child_named(e, "spPr"@), p.shape_properties)
    }
}

/// The picture that a `pic` element states.
fn lower_pic(e: &Element) -> (r: Shape)
    ensures
        is_picture(*e, r),
        !r.transform_inherited && r.slide_rect is None,
{
    let properties: Option<ShapeProperties> = read_properties(child(e, "spPr"));
    let transform: Option<Transform2D> = match &properties {
        Some(p) => p.transform,
        None => None,
    };
    let non_visual: DocProperties = doc_properties(child_of_child(e, "nvPicPr", "cNvPr"));
    let blip_fill: BlipFill = match child(e, "blipFill") {
        Some(b) => read_blip_fill(b),
        None => BlipFill { blip: None, src_rect: None, fill_kind: BlipFillKind::Unspecified },
    };
    Shape {
        non_visual: non_visual.clone(),
        placeholder: read_fills(e, "nvPicPr"),
        transform,
        transform_inherited: false,
        slide_rect: None,
        style: read_style_of(e),
        kind: ShapeKind::Picture(
            Box::new(Picture { non_visual, blip_fill, shape_properties: properties }),
        ),
    }
}

/// Whether a connector is what a `cxnSp` element states.
pub open spec fn is_connector(e: Element, s: Shape) -> bool {
    &&& is_doc_properties(grandchild(e, "nvCxnSpPr"@, "cNvPr"@), s.non_visual)
    &&& s.placeholder is None
    &&& s.transform == transform_of(child_named(e, "spPr"@))
    &&& is_style_of(e, s.style)
    &&& s.kind matches ShapeKind::Connector(c) && is_properties(
        child_named(e, "spPr"@),
        c.properties,
    )
}

/// The connector that a `cxnSp` element states.
pub(crate) fn lower_cxn(e: &Element) -> (r: Shape)
    ensures
        is_connector(*e, r),
        !r.transform_inherited && r.slide_rect is None,
{
    let properties: Option<ShapeProperties> = read_properties(child(e, "spPr"));
    let transform: Option<Transform2D> = match &properties {
        Some(p) => p.transform,
        None => None,
    };
    Shape {
        non_visual: doc_properties(child_of_child(e, "nvCxnSpPr", "cNvPr")),
        placeholder: None,
        transform,
        transform_inherited: false,
        slide_rect: None,
        style: read_style_of(e),
        kind: ShapeKind::Connector(Box::new(Connector { properties })),
    }
}

/// How many columns or rows a cell spans: one where it does not say, and
/// never none.
pub open spec fn span(stated: Option<u32>) -> u32 {
    match stated {
        Some(v) => if v == 0 {
            1
        } else {
            v
        },
        None => 1,
    }
}

/// How many columns or rows a cell spans.
fn read_span(e: &Element, name: &str) -> (r: u32)
    ensures
        r == span(reads(attr(*e, name@))),
{
    let stated: Option<u32> = opt_attr(e, name);
    match stated {
        Some(v) => if v == 0 {
            1
        } else {
            v
        },
        None => 1,
    }
}

/// What a `tcPr` element states.
pub open spec fn cell_properties(e: Option<Element>) -> TableCellProperties {
    match e {
        Some(x) => TableCellProperties {
            left_margin: reads(attr(x, "marL"@)),
            top_margin: reads(attr(x, "marT"@)),
            right_margin: reads(attr(x, "marR"@)),
            bottom_margin: reads(attr(x, "marB"@)),
            anchor: reads(attr(x, "anchor"@)),
            vert: reads(attr(x, "vert"@)),
        },
        None => unset_cell(),
    }
}

/// Whether a cell is what a `tc` element states.
pub open spec fn is_cell(e: Element, c: TableCell) -> bool {
    &&& is_text_of(e, c.text)
    &&& c.grid_span == span(reads(attr(e, "gridSpan"@)))
    &&& c.row_span == span(reads(attr(e, "rowSpan"@)))
    &&& c.h_merge == (truth(attr(e, "hMerge"@)) == Some(true))
    &&& c.v_merge == (truth(attr(e, "vMerge"@)) == Some(true))
    &&& c.properties == cell_properties(child_named(e, "tcPr"@))
}

/// A truth value that is false where it is absent.
fn flag(e: &Element, name: &str) -> (r: bool)
    ensures
        r == (truth(attr(*e, name@)) == Some(true)),
{
    match attr_bool(e, name) {
        Some(b) => b,
        None => false,
    }
}

/// The cell that a `tc` element states, and the size of its text.
fn read_cell(e: &Element) -> (r: (TableCell, u64))
    ensures
        is_cell(*e, r.0),
        r.1 == text_size(*e),
{
    let (text, size): (Option<TextBody>, u64) = read_text_of(e);
    let properties: TableCellProperties = match child(e, "tcPr") {
        Some(x) => TableCellProperties {
            left_margin: opt_attr(x, "marL"),
            top_margin: opt_attr(x, "marT"),
            right_margin: opt_attr(x, "marR"),
            bottom_margin: opt_attr(x, "marB"),
            anchor: opt_attr(x, "anchor"),
            vert: opt_attr(x, "vert"),
        },
        None => TableCellProperties::default(),
    };
    let cell: TableCell = TableCell {
        text,
        grid_span: read_span(e, "gridSpan"),
        row_span: read_span(e, "rowSpan"),
        h_merge: flag(e, "hMerge"),
        v_merge: flag(e, "vMerge"),
        properties,
    };
    (cell, size)
}

/// Whether a row is what a `tr` element states.
pub open spec fn is_row(e: Element, r: TableRow) -> bool {
    let stated = children_named(e, "tc"@);
    &&& r.height == reads::<Dimension<Emu>>(attr(e, "h"@))
    &&& r.cells@.len() == stated.len()
    &&& forall|i: int| 0 <= i < stated.len() ==> is_cell(stated[i], #[trigger] r.cells@[i])
}

/// The size of the text in cells.
pub open spec fn cells_size(cells: Seq<Element>) -> nat
    decreases cells.len(),
{
    if cells.len() == 0 {
        0
    } else {
        counted(cells_size(cells.drop_last()), text_size(cells.last()))
    }
}

/// The row that a `tr` element states, and the size of its text.
fn read_row(e: &Element) -> (r: (TableRow, u64))
    ensures
        is_row(*e, r.0),
        r.1 == cells_size(children_named(*e, "tc"@)),
{
    let stated: Vec<&Element> = children(e, "tc");
    let ghost all = children_named(*e, "tc"@);
    let mut cells: Vec<TableCell> = Vec::new();
    let mut total: u64 = 0;
    let mut i: usize = 0;
    while i < stated.len()
        invariant
            stated@.len() == all.len(),
            forall|k: int| 0 <= k < stated@.len() ==> *#[trigger] stated@[k] == all[k],
            i <= stated@.len(),
            cells@.len() == i,
            forall|k: int| 0 <= k < i ==> is_cell(all[k], #[trigger] cells@[k]),
            total == cells_size(all.take(i as int)),
        decreases stated@.len() - i,
    {
        assert(all.take(i + 1).drop_last() =~= all.take(i as int));
        let (cell, size): (TableCell, u64) = read_cell(stated[i]);
        cells.push(cell);
        total = total.saturating_add(size);
        i = i + 1;
    }
    assert(all.take(i as int) =~= all);
    let height: Option<Dimension<Emu>> = opt_attr(e, "h");
    (TableRow { height, cells }, total)
}

/// The columns that a table states.
pub open spec fn column_elements(e: Element) -> Seq<Element> {
    match child_named(e, "tblGrid"@) {
        Some(g) => children_named(g, "gridCol"@),
        None => Seq::empty(),
    }
}

/// The widths that columns state, with none negative.
pub open spec fn widths(columns: Seq<Element>) -> Seq<Dimension<Emu>> {
    columns.map_values(|c: Element| nonneg::<Emu>(attr(c, "w"@)))
}

/// Whether a table is what a `tbl` element states.
pub open spec fn is_table(e: Element, t: Table) -> bool {
    let rows = children_named(e, "tr"@);
    let pr = child_named(e, "tblPr"@);
    &&& t.grid@ == widths(column_elements(e))
    &&& t.rows@.len() == rows.len()
    &&& forall|i: int| 0 <= i < rows.len() ==> is_row(rows[i], #[trigger] t.rows@[i])
    &&& t.first_row == (truth(opt_attr_of(pr, "firstRow"@)) == Some(true))
    &&& t.first_col == (truth(opt_attr_of(pr, "firstCol"@)) == Some(true))
    &&& t.band_row == (truth(opt_attr_of(pr, "bandRow"@)) == Some(true))
}

/// The size of the text in rows.
pub open spec fn rows_size(rows: Seq<Element>) -> nat
    decreases rows.len(),
{
    if rows.len() == 0 {
        0
    } else {
        counted(rows_size(rows.drop_last()), cells_size(children_named(rows.last(), "tc"@)))
    }
}

/// The widths of the columns of a table.
fn read_grid(e: &Element) -> (grid: Vec<Dimension<Emu>>)
    ensures
        grid@ == widths(column_elements(*e)),
{
    let columns: Vec<&Element> = match child(e, "tblGrid") {
        Some(g) => children(g, "gridCol"),
        None => Vec::new(),
    };
    let ghost all = column_elements(*e);
    let mut grid: Vec<Dimension<Emu>> = Vec::new();
    let mut i: usize = 0;
    while i < columns.len()
        invariant
            columns@.len() == all.len(),
            forall|k: int| 0 <= k < columns@.len() ==> *#[trigger] columns@[k] == all[k],
            i <= columns@.len(),
            grid@.len() == i,
            forall|k: int| 0 <= k < i ==> #[trigger] grid@[k] == widths(all)[k],
        decreases columns@.len() - i,
    {
        grid.push(nonneg_or_default(columns[i], "w"));
        i = i + 1;
    }
    assert(grid@ =~= widths(all));
    grid
}

/// The table that a `tbl` element states, and the size of its text.
fn lower_table(e: &Element) -> (r: (Table, u64))
    ensures
        is_table(*e, r.0),
        r.1 == rows_size(children_named(*e, "tr"@)),
{
    let stated: Vec<&Element> = children(e, "tr");
    let ghost all = children_named(*e, "tr"@);
    let mut rows: Vec<TableRow> = Vec::new();
    let mut total: u64 = 0;
    let mut i: usize = 0;
    while i < stated.len()
        invariant
            stated@.len() == all.len(),
            forall|k: int| 0 <= k < stated@.len() ==> *#[trigger] stated@[k] == all[k],
            i <= stated@.len(),
            rows@.len() == i,
            forall|k: int| 0 <= k < i ==> is_row(all[k], #[trigger] rows@[k]),
            total == rows_size(all.take(i as int)),
        decreases stated@.len() - i,
    {
        assert(all.take(i + 1).drop_last() =~= all.take(i as int));
        let (row, size): (TableRow, u64) = read_row(stated[i]);
        rows.push(row);
        total = total.saturating_add(size);
        i = i + 1;
    }
    assert(all.take(i as int) =~= all);
    let (first_row, first_col, band_row): (bool, bool, bool) = match child(e, "tblPr") {
        Some(x) => (flag(x, "firstRow"), flag(x, "firstCol"), flag(x, "bandRow")),
        None => (false, false, false),
    };
    (Table { grid: read_grid(e), rows, first_row, first_col, band_row }, total)
}

/// The element that holds what a frame shows.
pub open spec fn graphic_data(e: Element) -> Option<Element> {
    grandchild(e, "graphic"@, "graphicData"@)
}

/// The table that a frame shows.
pub open spec fn table_in(e: Element) -> Option<Element> {
    match graphic_data(e) {
        Some(d) => child_named(d, "tbl"@),
        None => None,
    }
}

/// The relationship to the data of the diagram that a frame shows.
pub open spec fn diagram_data(e: Element) -> Option<Seq<char>> {
    match graphic_data(e) {
        Some(d) => opt_attr_of(child_named(d, "relIds"@), "dm"@),
        None => None,
    }
}

/// Whether what a frame holds is what its element states: a table before a
/// diagram, and a diagram only where it says where its data are.
pub open spec fn is_payload(e: Element, p: GraphicFramePayload) -> bool {
    match table_in(e) {
        Some(t) => p matches GraphicFramePayload::Table(x) && is_table(t, *x),
        None => match diagram_data(e) {
            Some(dm) => if dm.len() > 0 {
                p matches GraphicFramePayload::Diagram { data_rel } && data_rel@ == dm
            } else {
                is_unsupported(e, p)
            },
            None => is_unsupported(e, p),
        },
    }
}

/// Whether a frame holds what cannot be read, by the URI of its kind.
pub open spec fn is_unsupported(e: Element, p: GraphicFramePayload) -> bool {
    p matches GraphicFramePayload::Unsupported { uri } && uri@ == match graphic_data(e) {
        Some(d) => text_or_empty(d, "uri"@),
        None => Seq::empty(),
    }
}

/// The size of the text that a frame holds.
pub open spec fn frame_size(e: Element) -> nat {
    match table_in(e) {
        Some(t) => rows_size(children_named(t, "tr"@)),
        None => 0,
    }
}

/// What a frame holds, and the size of its text.
fn read_payload(e: &Element) -> (r: (GraphicFramePayload, u64))
    ensures
        is_payload(*e, r.0),
        r.1 == frame_size(*e),
{
    match child_of_child(e, "graphic", "graphicData") {
        Some(d) => {
            match child(d, "tbl") {
                Some(t) => {
                    let (table, size): (Table, u64) = lower_table(t);
                    return (GraphicFramePayload::Table(Box::new(table)), size);
                },
                None => {},
            }
            let dm: Option<String> = match child(d, "relIds") {
                Some(x) => attribute(x, "dm"),
                None => None,
            };
            match dm {
                Some(data_rel) => {
                    if !data_rel.as_str().is_empty() {
                        return (GraphicFramePayload::Diagram { data_rel }, 0);
                    }
                },
                None => {},
            }
            (GraphicFramePayload::Unsupported { uri: read_text(d, "uri") }, 0)
        },
        None => (GraphicFramePayload::Unsupported { uri: String::new() }, 0),
    }
}

/// Whether a graphic frame is what a `graphicFrame` element states. A frame
/// states its transform directly.
pub open spec fn is_frame(e: Element, s: Shape) -> bool {
    &&& is_doc_properties(grandchild(e, "nvGraphicFramePr"@, "cNvPr"@), s.non_visual)
    &&& s.placeholder is None
    &&& s.transform == own_transform(e)
    &&& s.style is None
    &&& s.kind matches ShapeKind::GraphicFrame(f) && is_payload(e, f.payload)
}

/// The frame that a `graphicFrame` element states, and the size of its text.
fn lower_graphic_frame(e: &Element) -> (r: (Shape, u64))
    ensures
        is_frame(*e, r.0),
        !r.0.transform_inherited && r.0.slide_rect is None,
        r.1 == frame_size(*e),
{
    let (payload, size): (GraphicFramePayload, u64) = read_payload(e);
    let shape: Shape = Shape {
        non_visual: doc_properties(child_of_child(e, "nvGraphicFramePr", "cNvPr")),
        placeholder: None,
        transform: match child(e, "xfrm") {
            Some(x) => Some(read_transform(x)),
            None => None,
        },
        transform_inherited: false,
        slide_rect: None,
        style: None,
        kind: ShapeKind::GraphicFrame(Box::new(GraphicFrame { payload })),
    };
    (shape, size)
}

/// What an element of a shape tree stands for.
#[derive(Debug, Clone, Copy, PartialEq, Eq, Structural)]
pub enum Member {
    AutoShape,
    Picture,
    Connector,
    Group,
    Frame,
    /// Branches of which one counts.
    Alternates,
    /// Anything else, which is passed over.
    Other,
}

/// What an element of a shape tree stands for, by its name.
pub open spec fn member_of(e: Element) -> Member {
    match element_name(e) {
        Some(n) => if n == "sp"@ {
            Member::AutoShape
        } else if n == "pic"@ {
            Member::Picture
        } else if n == "cxnSp"@ {
            Member::Connector
        } else if n == "grpSp"@ {
            Member::Group
        } else if n == "graphicFrame"@ {
            Member::Frame
        } else if n == "AlternateContent"@ {
            Member::Alternates
        } else {
            Member::Other
        },
        None => Member::Other,
    }
}

/// What an element of a shape tree stands for.
pub fn read_member(e: &Element) -> (r: Member)
    ensures
        r == member_of(*e),
{
    match element_local_name(e) {
        Some(n) => {
            let n: &str = n.as_str();
            if str_eq(n, "sp") {
                Member::AutoShape
            } else if str_eq(n, "pic") {
                Member::Picture
            } else if str_eq(n, "cxnSp") {
                Member::Connector
            } else if str_eq(n, "grpSp") {
                Member::Group
            } else if str_eq(n, "graphicFrame") {
                Member::Frame
            } else if str_eq(n, "AlternateContent") {
                Member::Alternates
            } else {
                Member::Other
            }
        },
        None => Member::Other,
    }
}

/// The elements that state the members of a list of nodes, in order, and the
/// size of their text. Alternate content is replaced by the members of the
/// branch that counts.
pub open spec fn content(nodes: Seq<Node>) -> (nat, Seq<Element>)
    decreases nodes,
{
    if nodes.len() == 0 {
        (0, Seq::empty())
    } else {
        let before = content(nodes.drop_last());
        let more = node_content(nodes.last());
        (counted(before.0, more.0), before.1 + more.1)
    }
}

/// The elements that state the members for which one node stands, and the
/// size of their text.
pub open spec fn node_content(n: Node) -> (nat, Seq<Element>)
    decreases n,
{
    match n {
        Node::Element(e) => match member_of(*e) {
            Member::AutoShape => (text_size(*e), seq![*e]),
            Member::Picture => (0, seq![*e]),
            Member::Connector => (0, seq![*e]),
            Member::Group => (content(e.children@).0, seq![*e]),
            Member::Frame => (frame_size(*e), seq![*e]),
            Member::Alternates => match fullest(
                e.children@,
                "Fallback"@,
                fullest(e.children@, "Choice"@, None),
            ) {
                Some(c) => c,
                None => (0, Seq::empty()),
            },
            Member::Other => (0, Seq::empty()),
        },
        _ => (0, Seq::empty()),
    }
}

/// Of a branch and the branches of the given name, the first that holds the
/// most text.
pub open spec fn fullest(
    nodes: Seq<Node>,
    name: Seq<char>,
    start: Option<(nat, Seq<Element>)>,
) -> Option<(nat, Seq<Element>)>
    decreases nodes,
{
    if nodes.len() == 0 {
        start
    } else {
        let best = fullest(nodes.drop_last(), name, start);
        match nodes.last() {
            Node::Element(b) => if element_name(*b) == Some(name) {
                let branch = content(b.children@);
                if best is None || branch.0 > (best->0).0 {
                    Some(branch)
                } else {
                    best
                }
            } else {
                best
            },
            _ => best,
        }
    }
}

/// Whether shapes are those that elements state.
pub open spec fn are_shapes(stated: Seq<Element>, shapes: Seq<Shape>) -> bool
    decreases shapes,
{
    &&& shapes.len() == stated.len()
    &&& forall|i: int| 0 <= i < shapes.len() ==> is_shape(stated[i], #[trigger] shapes[i])
}

/// Whether a shape is what an element states.
pub open spec fn is_shape(e: Element, s: Shape) -> bool
    decreases s,
{
    &&& !s.transform_inherited
    &&& s.slide_rect is None
    &&& match member_of(e) {
        Member::AutoShape => is_auto_shape(e, s),
        Member::Picture => is_picture(e, s),
        Member::Connector => is_connector(e, s),
        Member::Group => is_group(e, s) && match s.kind {
            ShapeKind::Group(g) => are_shapes(content(e.children@).1, g.children@),
            _ => false,
        },
        Member::Frame => is_frame(e, s),
        _ => false,
    }
}

/// The transform element of a group.
pub open spec fn group_xfrm(e: Element) -> Option<Element> {
    grandchild(e, "grpSpPr"@, "xfrm"@)
}

/// Whether a group, apart from its members, is what a `grpSp` element states.
pub open spec fn is_group(e: Element, s: Shape) -> bool {
    &&& is_doc_properties(grandchild(e, "nvGrpSpPr"@, "cNvPr"@), s.non_visual)
    &&& s.placeholder is None
    &&& s.style is None
    &&& s.transform == match group_xfrm(e) {
        Some(x) => Some(transform_in(x)),
        None => None,
    }
    &&& s.kind matches ShapeKind::Group(g) && {
        &&& match child_named(e, "grpSpPr"@) {
            Some(x) => is_fill_in(x, g.fill),
            None => g.fill is None,
        }
        &&& g.child_offset == match group_xfrm(e) {
            Some(x) => match child_named(x, "chOff"@) {
                Some(o) => Some(offset_in(o)),
                None => None,
            },
            None => None,
        }
        &&& g.child_extent == match group_xfrm(e) {
            Some(x) => match child_named(x, "chExt"@) {
                Some(o) => Some(extent_in(o)),
                None => None,
            },
            None => None,
        }
    }
}

/// The group that a `grpSp` element states, and the size of its text.
pub(crate) fn lower_grp(e: &Element) -> (r: (Shape, u64))
    ensures
        is_group(*e, r.0),
        r.0.kind matches ShapeKind::Group(g) && are_shapes(
            content(e.children@).1,
            g.children@,
        ),
        !r.0.transform_inherited && r.0.slide_rect is None,
        r.1 == content(e.children@).0,
    decreases e,
{
    let (size, members): (u64, Vec<Shape>) = lower_children(&e.children);
    let fill: Option<DrawingFill> = match child(e, "grpSpPr") {
        Some(x) => pick_fill(x),
        None => None,
    };
    let (transform, child_offset, child_extent): (
        Option<Transform2D>,
        Option<Offset<Emu>>,
        Option<Size<Emu>>,
    ) = match child_of_child(e, "grpSpPr", "xfrm") {
        Some(x) => (
            Some(read_transform(x)),
            match child(x, "chOff") {
                Some(o) => Some(read_offset(o)),
                None => None,
            },
            match child(x, "chExt") {
                Some(o) => Some(read_extent(o)),
                None => None,
            },
        ),
        None => (None, None, None),
    };
    let shape: Shape = Shape {
        non_visual: doc_properties(child_of_child(e, "nvGrpSpPr", "cNvPr")),
        placeholder: None,
        transform,
        transform_inherited: false,
        slide_rect: None,
        style: None,
        kind: ShapeKind::Group(
            Box::new(Group { fill, child_offset, child_extent, children: members }),
        ),
    };
    (shape, size)
}

/// The shapes that nodes state, in order, and the size of their text.
pub(crate) fn lower_children(nodes: &Vec<Node>) -> (r: (u64, Vec<Shape>))
    ensures
        r.0 == content(nodes@).0,
        are_shapes(content(nodes@).1, r.1@),
    decreases nodes,
{
    let mut out: Vec<Shape> = Vec::new();
    let mut total: u64 = 0;
    let mut i: usize = 0;
    while i < nodes.len()
        invariant
            i <= nodes@.len(),
            total == content(nodes@.take(i as int)).0,
            are_shapes(content(nodes@.take(i as int)).1, out@),
        decreases nodes@.len() - i,
    {
        assert(nodes@.take(i + 1).drop_last() =~= nodes@.take(i as int));
        let size: u64 = lower_node(&nodes[i], &mut out);
        total = total.saturating_add(size);
        i = i + 1;
    }
    assert(nodes@.take(i as int) =~= nodes@);
    (total, out)
}

/// Appends the shapes for which a node stands, and gives the size of their
/// text.
fn lower_node(n: &Node, out: &mut Vec<Shape>) -> (size: u64)
    ensures
        size == node_content(*n).0,
        forall|stated: Seq<Element>|
            are_shapes(stated, old(out)@) ==> are_shapes(
                #[trigger] (stated + node_content(*n).1),
                final(out)@,
            ),
    decreases n,
{
    match n {
        Node::Element(e) => match read_member(e) {
            Member::AutoShape => {
                let (shape, size): (Shape, u64) = lower_sp(e);
                out.push(shape);
                size
            },
            Member::Picture => {
                out.push(lower_pic(e));
                0
            },
            Member::Connector => {
                out.push(lower_cxn(e));
                0
            },
            Member::Group => {
                let (shape, size): (Shape, u64) = lower_grp(e);
                out.push(shape);
                size
            },
            Member::Frame => {
                let (shape, size): (Shape, u64) = lower_graphic_frame(e);
                out.push(shape);
                size
            },
            Member::Alternates => {
                let best: Option<(u64, Vec<Shape>)> = lower_branches(
                    &e.children,
                    "Fallback",
                    lower_branches(&e.children, "Choice", None, Ghost(None)),
                    Ghost(fullest(e.children@, "Choice"@, None)),
                );
                match best {
                    Some((size, mut shapes)) => {
                        out.append(&mut shapes);
                        size
                    },
                    None => 0,
                }
            },
            Member::Other => 0,
        },
        _ => 0,
    }
}

/// Whether a branch that was read is the one that counts.
pub open spec fn is_branch(
    stated: Option<(nat, Seq<Element>)>,
    read: Option<(u64, Vec<Shape>)>,
) -> bool {
    match (stated, read) {
        (Some(s), Some(r)) => s.0 == r.0 && are_shapes(s.1, r.1@),
        (None, None) => true,
        _ => false,
    }
}

/// Of a branch and the branches of the given name, the first that holds the
/// most text.
fn lower_branches(
    nodes: &Vec<Node>,
    name: &str,
    start: Option<(u64, Vec<Shape>)>,
    Ghost(stated): Ghost<Option<(nat, Seq<Element>)>>,
) -> (r: Option<(u64, Vec<Shape>)>)
    requires
        is_branch(stated, start),
    ensures
        is_branch(fullest(nodes@, name@, stated), r),
    decreases nodes,
{
    let mut best: Option<(u64, Vec<Shape>)> = start;
    let mut i: usize = 0;
    while i < nodes.len()
        invariant
            i <= nodes@.len(),
            is_branch(fullest(nodes@.take(i as int), name@, stated), best),
        decreases nodes@.len() - i,
    {
        assert(nodes@.take(i + 1).drop_last() =~= nodes@.take(i as int));
        assert(nodes@.take(i + 1).last() == nodes@[i as int]);
        match &nodes[i] {
            Node::Element(b) => {
                let same: bool = match element_local_name(b) {
                    Some(l) => str_eq(l.as_str(), name),
                    None => false,
                };
                if same {
                    let branch: (u64, Vec<Shape>) = lower_children(&b.children);
                    let better: bool = match &best {
                        Some(b) => branch.0 > b.0,
                        None => true,
                    };
                    if better {
                        best = Some(branch);
                    }
                }
            },
            _ => {},
        }
        i = i + 1;
    }
    assert(nodes@.take(i as int) =~= nodes@);
    best
}

/// The members of what stands first come before those of what follows.
pub proof fn members_keep_document_order(first: Seq<Node>, second: Seq<Node>)
    ensures
        content(first + second).1 == content(first).1 + content(second).1,
    decreases second.len(),
{
    if second.len() == 0 {
        assert(first + second =~= first);
        assert(content(first).1 + content(second).1 =~= content(first).1);
    } else {
        let both = first + second;
        assert(both.drop_last() =~= first + second.drop_last());
        assert(both.last() == second.last());
        members_keep_document_order(first, second.drop_last());
        assert(content(both).1 =~= content(first).1 + content(second).1);
    }
}

/// What a node holds, where it is a branch of the given name.
pub open spec fn branch(n: Node, name: Seq<char>) -> Option<(nat, Seq<Element>)> {
    match n {
        Node::Element(b) => if element_name(*b) == Some(name) {
            Some(content(b.children@))
        } else {
            None
        },
        _ => None,
    }
}

/// No branch holds more text than the one that counts; a branch that comes
/// first counts unless a later one holds more; and what counts is one of the
/// branches.
pub proof fn the_fullest_branch_counts(
    nodes: Seq<Node>,
    name: Seq<char>,
    start: Option<(nat, Seq<Element>)>,
)
    ensures
        forall|k: int|
            0 <= k < nodes.len() && (#[trigger] branch(nodes[k], name)) is Some ==> fullest(
                nodes,
                name,
                start,
            ) is Some && (branch(nodes[k], name)->0).0 <= (fullest(nodes, name, start)->0).0,
        start is Some ==> fullest(nodes, name, start) is Some && (start->0).0 <= (fullest(
            nodes,
            name,
            start,
        )->0).0,
        start is Some && (forall|k: int|
            0 <= k < nodes.len() && (#[trigger] branch(nodes[k], name)) is Some ==> (branch(
                nodes[k],
                name,
            )->0).0 <= (start->0).0) ==> fullest(nodes, name, start) == start,
        fullest(nodes, name, start) == start || exists|k: int|
            0 <= k < nodes.len() && #[trigger] branch(nodes[k], name) == fullest(
                nodes,
                name,
                start,
            ),
    decreases nodes.len(),
{
    if nodes.len() > 0 {
        let rest = nodes.drop_last();
        the_fullest_branch_counts(rest, name, start);
        assert forall|k: int|
            0 <= k < nodes.len() && (#[trigger] branch(nodes[k], name)) is Some implies fullest(
            nodes,
            name,
            start,
        ) is Some && (branch(nodes[k], name)->0).0 <= (fullest(nodes, name, start)->0).0 by {
            if k < rest.len() {
                assert(branch(rest[k], name) == branch(nodes[k], name));
            }
        }
        assert(forall|k: int| 0 <= k < rest.len() ==> #[trigger] rest[k] == nodes[k]);
        let last = nodes.len() - 1;
        assert(branch(nodes[last], name) == branch(nodes.last(), name));
        if fullest(nodes, name, start) != start && fullest(nodes, name, start) != fullest(
            rest,
            name,
            start,
        ) {
            assert(branch(nodes[last], name) == fullest(nodes, name, start));
        } else if fullest(nodes, name, start) != start {
            let k = choose|k: int|
                0 <= k < rest.len() && #[trigger] branch(rest[k], name) == fullest(
                    rest,
                    name,
                    start,
                );
            assert(branch(nodes[k], name) == fullest(nodes, name, start));
        }
    }
}

} // verus!
