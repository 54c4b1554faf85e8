//! Shapes: the members of a slide, a layout or a master.
//!
//! Shapes stand in document order, which is the order in which they are
//! painted, and groups stay nested. A shape that declares no transform has
//! none: it does not stand at the origin.
use vstd::prelude::*;

use crate::dimension::{hold, units, within_range, Dimension, Emu, SixtieThousandthDeg};
use crate::model::color::ColorMap;
use crate::model::drawing::{
    BodyProperties, DocProperties, DrawingFill, FontReference, Picture, ShapeProperties,
    StyleMatrixRef, TextAnchoringType, TextVerticalType,
};
use crate::model::geometry::{Offset, Rect, Size, Transform2D};
use crate::pptx::text::TextBody;
use crate::pptx::upright::{cosine, sine};

verus! {

/// A shape's position on the slide.
#[derive(Debug, Clone, Copy, PartialEq, Eq)]
pub struct SlideRect {
    /// The box that the shape would take with no rotation.
    pub rect: Rect<Emu>,
    /// The shape's rotation about the centre of its box, with that of every
    /// enclosing group.
    pub rotation: Dimension<SixtieThousandthDeg>,
    pub flip_h: bool,
    pub flip_v: bool,
    /// Whether a rotating group stands under unequal scales, so that box and
    /// rotation are the nearest that can be said.
    pub skewed: bool,
}

/// Where the upright box round a side begins that is `length` long, and stands in
/// the middle of one that is `was` long and begins at `start`; and how long it is.
/// Where it would begin in the middle of a unit it takes in half a unit more on
/// both sides.
pub open spec fn around_middle(start: int, was: int, length: int) -> (int, int) {
    (
        (2 * start + was - length) / 2,
        if (was - length) % 2 == 0 {
            length
        } else {
            length + 1
        },
    )
}

/// The upright box round a box that is turned by a quarter about its centre.
pub open spec fn on_its_side(r: Rect<Emu>) -> Rect<Emu> {
    let w = r.size.width.value as int;
    let h = r.size.height.value as int;
    let x = around_middle(r.origin.x.value as int, w, h);
    let y = around_middle(r.origin.y.value as int, h, w);
    Rect {
        origin: Offset { x: units(within_range(x.0)), y: units(within_range(y.0)) },
        size: Size { width: units(within_range(x.1)), height: units(within_range(y.1)) },
    }
}

/// Whether the numbers of the upright box round a turned box can be held.
pub open spec fn side_can_be_held(r: Rect<Emu>) -> bool {
    let w = r.size.width.value as int;
    let h = r.size.height.value as int;
    let x = around_middle(r.origin.x.value as int, w, h);
    let y = around_middle(r.origin.y.value as int, h, w);
    within_range(x.0) == x.0 && within_range(x.1) == x.1 && within_range(y.0) == y.0
        && within_range(y.1) == y.1
}

/// Where a corner of a box stands, in halves of an EMU, when the box is turned
/// about its centre by quarters of a turn.
pub open spec fn turned_corner(r: Rect<Emu>, rotation: i64, right: bool, low: bool) -> (int, int) {
    let w = r.size.width.value as int;
    let h = r.size.height.value as int;
    let dx = if right {
        w
    } else {
        -w
    };
    let dy = if low {
        h
    } else {
        -h
    };
    (
        2 * r.origin.x.value + w + cosine(rotation) * dx - sine(rotation) * dy,
        2 * r.origin.y.value + h + sine(rotation) * dx + cosine(rotation) * dy,
    )
}

/// Whether a point, in halves of an EMU, lies in a box.
pub open spec fn lies_in(p: (int, int), b: Rect<Emu>) -> bool {
    &&& 2 * b.origin.x.value <= p.0 <= 2 * (b.origin.x.value + b.size.width.value)
    &&& 2 * b.origin.y.value <= p.1 <= 2 * (b.origin.y.value + b.size.height.value)
}

/// Where the upright box round a side begins, and how long it is.
fn read_around_middle(start: i64, was: i64, length: i64) -> (r: (i64, i64))
    ensures
        ({
            let side = around_middle(start as int, was as int, length as int);
            r == (within_range(side.0), within_range(side.1))
        }),
{
    let twice: i128 = 2 * start as i128 + was as i128 - length as i128;
    let half: i128 = twice / 2;
    let odd: bool = twice % 2 != 0;
    let begins: i128 = if odd && twice < 0 {
        half - 1
    } else {
        half
    };
    let long: i128 = if odd {
        length as i128 + 1
    } else {
        length as i128
    };
    (hold(begins), hold(long))
}

impl SlideRect {
    /// The smallest upright rectangle of whole EMU round a shape, where the shape
    /// is turned by quarters of a turn alone. Any other takes the angle's sine and
    /// cosine. No corner of the turned shape lies outside of it.
    pub fn bounding_box(&self) -> (r: Option<Rect<Emu>>)
        ensures
            r == (if self.rotation.value as int % 5_400_000 != 0 {
                None
            } else if self.rotation.value as int % 10_800_000 == 0 {
                Some(self.rect)
            } else {
                Some(on_its_side(self.rect))
            }),
            r matches Some(b) ==> (self.rect.size.width.value >= 0 && self.rect.size.height.value >= 0
                && (self.rotation.value as int % 10_800_000 == 0 || side_can_be_held(self.rect))
                ==> forall|right: bool, low: bool|
                lies_in(#[trigger] turned_corner(self.rect, self.rotation.value, right, low), b)),
    {
        let angle: i64 = self.rotation.raw();
        let r: Option<Rect<Emu>> = if angle % 5_400_000 != 0 {
            None
        } else if angle % 10_800_000 == 0 {
            Some(self.rect)
        } else {
            let w: i64 = self.rect.size.width.raw();
            let h: i64 = self.rect.size.height.raw();
            let (x, width): (i64, i64) = read_around_middle(self.rect.origin.x.raw(), w, h);
            let (y, height): (i64, i64) = read_around_middle(self.rect.origin.y.raw(), h, w);
            Some(
                Rect {
                    origin: Offset { x: Dimension::new(x), y: Dimension::new(y) },
                    size: Size { width: Dimension::new(width), height: Dimension::new(height) },
                },
            )
        };
        proof {
            if r is Some && self.rect.size.width.value >= 0 && self.rect.size.height.value >= 0 {
                corners_lie_inside(self.rect, self.rotation.value);
            }
        }
        r
    }
}

/// The corners of a box that is turned by quarters lie in the upright box round
/// it.
proof fn corners_lie_inside(r: Rect<Emu>, rotation: i64)
    requires
        rotation as int % 5_400_000 == 0,
        r.size.width.value >= 0,
        r.size.height.value >= 0,
    ensures
        rotation as int % 10_800_000 == 0 ==> forall|right: bool, low: bool|
            lies_in(#[trigger] turned_corner(r, rotation, right, low), r),
        rotation as int % 10_800_000 != 0 && side_can_be_held(r) ==> forall|right: bool, low: bool|
            lies_in(#[trigger] turned_corner(r, rotation, right, low), on_its_side(r)),
{
    let w = r.size.width.value as int;
    let h = r.size.height.value as int;
    let c = cosine(rotation);
    let s = sine(rotation);
    assert((c == 0 && (s == 1 || s == -1)) || (s == 0 && (c == 1 || c == -1)));
    assert(rotation as int % 10_800_000 == 0 <==> s == 0);
    assert forall|right: bool, low: bool|
        (s == 0 ==> lies_in(#[trigger] turned_corner(r, rotation, right, low), r)) && (c == 0
            && side_can_be_held(r) ==> lies_in(
            turned_corner(r, rotation, right, low),
            on_its_side(r),
        )) by {
        let dx = if right {
            w
        } else {
            -w
        };
        let dy = if low {
            h
        } else {
            -h
        };
        sign_times(c, dx);
        sign_times(c, dy);
        sign_times(s, dx);
        sign_times(s, dy);
    }
}

/// A number times one, nothing or minus one.
proof fn sign_times(sign: int, n: int)
    ensures
        sign == 0 ==> sign * n == 0,
        sign == 1 ==> sign * n == n,
        sign == -1 ==> sign * n == -n,
{
    assert(0 * n == 0 && 1 * n == n && -1 * n == -n) by (nonlinear_arith);
}

/// One member of a shape tree.
#[derive(Debug)]
pub struct Shape {
    /// The shape's id, name and description.
    pub non_visual: DocProperties,
    /// The placeholder that the shape fills, where it fills one.
    pub placeholder: Option<Placeholder>,
    /// The transform that the file declares, or that a placeholder inherits.
    pub transform: Option<Transform2D>,
    /// Whether the transform is inherited.
    pub transform_inherited: bool,
    /// The shape's position on the slide, once it has been worked out.
    pub slide_rect: Option<SlideRect>,
    /// The shape's references to the theme.
    pub style: Option<ShapeStyle>,
    pub kind: ShapeKind,
}

/// References to the theme's lines, fills, effects and fonts.
#[derive(Debug, PartialEq, Eq)]
pub struct ShapeStyle {
    pub line_ref: Option<StyleMatrixRef>,
    pub fill_ref: Option<StyleMatrixRef>,
    pub effect_ref: Option<StyleMatrixRef>,
    pub font_ref: Option<FontReference>,
}

/// What a shape is.
#[derive(Debug)]
pub enum ShapeKind {
    /// A shape that can carry text.
    AutoShape(Box<AutoShape>),
    Picture(Box<Picture>),
    Connector(Box<Connector>),
    Group(Box<Group>),
    GraphicFrame(Box<GraphicFrame>),
}

/// A shape that can carry text.
#[derive(Debug)]
pub struct AutoShape {
    pub properties: Option<ShapeProperties>,
    pub text: Option<TextBody>,
    /// Whether the shape is a plain text box.
    pub is_text_box: bool,
}

/// A connector.
#[derive(Debug)]
pub struct Connector {
    pub properties: Option<ShapeProperties>,
}

/// A group, with the coordinate space in which its members are placed.
#[derive(Debug)]
pub struct Group {
    /// The fill that members may take.
    pub fill: Option<DrawingFill>,
    /// The origin of the members' coordinate space.
    pub child_offset: Option<Offset<Emu>>,
    /// The extent of the members' coordinate space.
    pub child_extent: Option<Size<Emu>>,
    /// The members, in document order.
    pub children: Vec<Shape>,
}

/// A frame round something that is no shape.
#[derive(Debug)]
pub struct GraphicFrame {
    pub payload: GraphicFramePayload,
}

/// What a graphic frame holds.
#[derive(Debug)]
pub enum GraphicFramePayload {
    Table(Box<Table>),
    /// A diagram, by the relationship to the part that holds its text.
    Diagram { data_rel: String },
    /// Anything else, by the URI of its kind.
    Unsupported { uri: String },
}

/// A table. The first cell of a merged region states the region's size, and
/// the cells that it absorbs are still present, marked as such.
#[derive(Debug)]
pub struct Table {
    /// The columns' widths.
    pub grid: Vec<Dimension<Emu>>,
    pub rows: Vec<TableRow>,
    /// Whether the first row is a header.
    pub first_row: bool,
    pub first_col: bool,
    pub band_row: bool,
}

/// A row of a table.
#[derive(Debug)]
pub struct TableRow {
    /// The least height of the row.
    pub height: Option<Dimension<Emu>>,
    pub cells: Vec<TableCell>,
}

/// A cell of a table.
#[derive(Debug)]
pub struct TableCell {
    pub text: Option<TextBody>,
    /// How many columns the cell spans.
    pub grid_span: u32,
    /// How many rows the cell spans.
    pub row_span: u32,
    /// Whether the cell is absorbed by one to its left.
    pub h_merge: bool,
    /// Whether the cell is absorbed by one above it.
    pub v_merge: bool,
    pub properties: TableCellProperties,
}

impl TableCell {
    /// Whether the cell is covered by a neighbour.
    pub fn is_absorbed(&self) -> (r: bool)
        ensures
            r == (self.h_merge || self.v_merge),
    {
        self.h_merge || self.v_merge
    }
}

/// Where the text of a cell stands.
#[derive(Debug, Clone, Copy, PartialEq, Eq)]
pub struct TableCellProperties {
    pub left_margin: Option<Dimension<Emu>>,
    pub top_margin: Option<Dimension<Emu>>,
    pub right_margin: Option<Dimension<Emu>>,
    pub bottom_margin: Option<Dimension<Emu>>,
    pub anchor: Option<TextAnchoringType>,
    pub vert: Option<TextVerticalType>,
}

/// Cell properties that leave everything unsaid.
pub open spec fn unset_cell() -> TableCellProperties {
    TableCellProperties {
        left_margin: None,
        top_margin: None,
        right_margin: None,
        bottom_margin: None,
        anchor: None,
        vert: None,
    }
}

impl Default for TableCellProperties {
    fn default() -> (r: Self)
        ensures
            r == unset_cell(),
    {
        TableCellProperties {
            left_margin: None,
            top_margin: None,
            right_margin: None,
            bottom_margin: None,
            anchor: None,
            vert: None,
        }
    }
}

impl TableCellProperties {
    /// The same properties as those of a text box: the margins are its insets.
    /// A cell states neither rotation nor wrapping, overflow or fitting.
    pub fn text_body_properties(&self) -> (r: BodyProperties)
        ensures
            r == (BodyProperties {
                rotation: None,
                vert: self.vert,
                wrap: None,
                left_inset: self.left_margin,
                top_inset: self.top_margin,
                right_inset: self.right_margin,
                bottom_inset: self.bottom_margin,
                anchor: self.anchor,
                vert_overflow: None,
                auto_fit: None,
            }),
    {
        BodyProperties {
            rotation: None,
            vert: self.vert,
            wrap: None,
            left_inset: self.left_margin,
            top_inset: self.top_margin,
            right_inset: self.right_margin,
            bottom_inset: self.bottom_margin,
            anchor: self.anchor,
            vert_overflow: None,
            auto_fit: None,
        }
    }
}

/// The placeholder that a shape fills.
#[derive(Debug, Clone, Copy, PartialEq, Eq)]
pub struct Placeholder {
    pub kind: PlaceholderKind,
    pub idx: u32,
}

/// The kind of a placeholder.
#[derive(Debug, Clone, Copy, PartialEq, Eq, Hash, Structural)]
pub enum PlaceholderKind {
    Title,
    /// The kind of a placeholder that states none.
    Body,
    CtrTitle,
    SubTitle,
    Dt,
    Ftr,
    SldNum,
    SldImg,
    Pic,
    Hdr,
    Tbl,
    Chart,
    ClipArt,
    Dgm,
    Media,
    Obj,
    /// A kind of a name that is none of these.
    Unknown,
}

/// The kind of the master's placeholder that stands for placeholders of a
/// kind: a master has one for titles, one each for date, footer and slide
/// number, and one for everything else.
pub open spec fn collapsed(kind: PlaceholderKind) -> PlaceholderKind {
    match kind {
        PlaceholderKind::Title => PlaceholderKind::Title,
        PlaceholderKind::CtrTitle => PlaceholderKind::Title,
        PlaceholderKind::Dt => PlaceholderKind::Dt,
        PlaceholderKind::Ftr => PlaceholderKind::Ftr,
        PlaceholderKind::SldNum => PlaceholderKind::SldNum,
        _ => PlaceholderKind::Body,
    }
}

/// The kind that stands for a kind stands for itself.
pub proof fn collapsing_is_idempotent(kind: PlaceholderKind)
    ensures
        collapsed(collapsed(kind)) == collapsed(kind),
{
}

impl PlaceholderKind {
    /// The kind of the master's placeholder that stands for this kind.
    pub fn collapsed_for_master(self) -> (r: PlaceholderKind)
        ensures
            r == collapsed(self),
    {
        match self {
            PlaceholderKind::Title => PlaceholderKind::Title,
            PlaceholderKind::CtrTitle => PlaceholderKind::Title,
            PlaceholderKind::Dt => PlaceholderKind::Dt,
            PlaceholderKind::Ftr => PlaceholderKind::Ftr,
            PlaceholderKind::SldNum => PlaceholderKind::SldNum,
            _ => PlaceholderKind::Body,
        }
    }
}

/// The background of a slide, a layout or a master.
#[derive(Debug)]
pub enum Background {
    /// A fill of its own.
    Properties(DrawingFill),
    /// A fill of the theme.
    Reference(StyleMatrixRef),
}

/// What a slide, a layout or a master declares itself.
#[derive(Debug)]
pub struct SlidePart {
    pub shapes: Vec<Shape>,
    /// The background, where this part declares one.
    pub background: Option<Background>,
    /// The colour map, where this part states one.
    pub color_map: Option<ColorMap>,
    /// Whether the shapes of the part above are drawn too.
    pub show_inherited_shapes: bool,
}

impl Default for SlidePart {
    fn default() -> (r: Self)
        ensures
            r.shapes@.len() == 0,
            r.background is None,
            r.color_map is None,
            r.show_inherited_shapes,
    {
        SlidePart {
            shapes: Vec::new(),
            background: None,
            color_map: None,
            show_inherited_shapes: true,
        }
    }
}

/// A shape and everything in it, each group before its members.
pub open spec fn preorder(s: Shape) -> Seq<Shape>
    decreases s,
{
    match s.kind {
        ShapeKind::Group(g) => seq![s] + preorder_all(g.children@),
        _ => seq![s],
    }
}

/// Shapes and everything in them, each group before its members.
pub open spec fn preorder_all(shapes: Seq<Shape>) -> Seq<Shape>
    decreases shapes,
{
    if shapes.len() == 0 {
        Seq::empty()
    } else {
        preorder_all(shapes.drop_last()) + preorder(shapes.last())
    }
}

/// Whether references are to the given shapes.
pub open spec fn refer_to(refs: Seq<&Shape>, shapes: Seq<Shape>) -> bool {
    &&& refs.len() == shapes.len()
    &&& forall|i: int| 0 <= i < refs.len() ==> *#[trigger] refs[i] == shapes[i]
}

impl Shape {
    /// Whether the shape declares no transform, so that it depends on the
    /// placeholder that it fills for its place.
    pub fn needs_inherited_geometry(&self) -> (r: bool)
        ensures
            r == (self.transform is None),
    {
        self.transform.is_none()
    }

    /// The shape's own text body, where its kind can carry one.
    pub open spec fn own_text(self) -> Option<TextBody> {
        match self.kind {
            ShapeKind::AutoShape(sp) => sp.text,
            _ => None,
        }
    }

    /// The shape's own text body, where its kind can carry one.
    pub fn text(&self) -> (r: Option<&TextBody>)
        ensures
            r is Some <==> self.own_text() is Some,
            r is Some ==> *r->0 == self.own_text()->0,
    {
        match &self.kind {
            ShapeKind::AutoShape(sp) => sp.text.as_ref(),
            _ => None,
        }
    }

    /// Appends the shape and everything in it, each group before its members.
    pub fn visit<'a>(&'a self, out: &mut Vec<&'a Shape>)
        ensures
            exists|mine: Seq<&'a Shape>| #[trigger]
                refer_to(mine, preorder(*self)) && final(out)@ == old(out)@ + mine,
        decreases self, 0int,
    {
        let ghost before = out@;
        out.push(self);
        let ghost first = seq![self];
        assert(out@ =~= before + first);
        match &self.kind {
            ShapeKind::Group(g) => {
                visit_all(&g.children, out);
                proof {
                    let rest = choose|rest: Seq<&'a Shape>| #[trigger]
                        refer_to(rest, preorder_all(g.children@)) && out@ == before + first + rest;
                    let mine = first + rest;
                    assert(out@ =~= before + mine);
                    assert(refer_to(mine, preorder(*self)));
                }
            },
            _ => {
                assert(refer_to(first, preorder(*self)));
            },
        }
    }
}

/// Appends shapes and everything in them, each group before its members.
pub fn visit_all<'a>(shapes: &'a Vec<Shape>, out: &mut Vec<&'a Shape>)
    ensures
        exists|mine: Seq<&'a Shape>| #[trigger]
            refer_to(mine, preorder_all(shapes@)) && final(out)@ == old(out)@ + mine,
    decreases shapes, 1int,
{
    let ghost before = out@;
    let ghost mut mine: Seq<&'a Shape> = Seq::empty();
    assert(before + mine =~= before);
    assert(refer_to(mine, preorder_all(shapes@.take(0))));
    let mut i: usize = 0;
    while i < shapes.len()
        invariant
            i <= shapes@.len(),
            refer_to(mine, preorder_all(shapes@.take(i as int))),
            out@ == before + mine,
        decreases shapes@.len() - i,
    {
        assert(shapes@.take(i + 1).drop_last() =~= shapes@.take(i as int));
        let shape: &'a Shape = &shapes[i];
        let ghost so_far = mine;
        shape.visit(out);
        proof {
            let more = choose|more: Seq<&'a Shape>| #[trigger]
                refer_to(more, preorder(*shape)) && out@ == before + so_far + more;
            mine = so_far + more;
            assert(out@ =~= before + mine);
            assert(refer_to(mine, preorder_all(shapes@.take(i + 1))));
        }
        i = i + 1;
    }
    assert(shapes@.take(i as int) =~= shapes@);
}

} // verus!
