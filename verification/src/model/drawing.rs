//! Fills, outlines, effects and the other properties of drawn objects.
use vstd::prelude::*;

use crate::dimension::{Dimension, Emu, SixtieThousandthDeg, ThousandthPercent};
use crate::model::color::DrawingColor;
use crate::model::geometry::Transform2D;
use crate::scan::str_eq;

verus! {

/// The id of a relationship of a part.
#[derive(Debug, PartialEq, Eq)]
pub struct RelId {
    pub id: String,
}

impl Clone for RelId {
    fn clone(&self) -> (r: Self)
        ensures
            r == *self,
    {
        RelId { id: self.id.clone() }
    }
}

impl RelId {
    /// The relationship id with the given text.
    pub fn new(id: &str) -> (r: Self)
        ensures
            r.id@ == id@,
    {
        RelId { id: id.to_owned() }
    }

    /// The id's text.
    pub fn as_str(&self) -> (r: &str)
        ensures
            r@ == self.id@,
    {
        self.id.as_str()
    }

    /// Whether two ids have the same text.
    pub fn same(&self, other: &RelId) -> (r: bool)
        ensures
            r == (self.id@ == other.id@),
    {
        str_eq(self.id.as_str(), other.id.as_str())
    }
}

/// The shape of a line's ends.
#[derive(Debug, Clone, Copy, PartialEq, Eq, Structural)]
pub enum LineCap {
    Flat,
    Round,
    Square,
}

/// The shape of a line's corners.
#[derive(Debug, Clone, Copy, PartialEq, Eq)]
pub enum LineJoin {
    Round,
    Bevel,
    Miter { limit: Option<Dimension<ThousandthPercent>> },
}

/// A named dash pattern.
#[derive(Debug, Clone, Copy, PartialEq, Eq, Structural)]
pub enum PresetLineDashVal {
    Solid,
    Dot,
    Dash,
    LgDash,
    DashDot,
    LgDashDot,
    LgDashDotDot,
    SysDash,
    SysDot,
    SysDashDot,
    SysDashDotDot,
}

/// A dash and the space behind it, relative to the line's width.
#[derive(Debug, Clone, Copy, PartialEq, Eq)]
pub struct DashStop {
    pub dash: Dimension<ThousandthPercent>,
    pub space: Dimension<ThousandthPercent>,
}

/// A dash pattern.
#[derive(Debug, PartialEq, Eq)]
pub enum LineDash {
    Preset(PresetLineDashVal),
    Custom(Vec<DashStop>),
}

/// An outline. `None` is what the file leaves unsaid.
#[derive(Debug, PartialEq, Eq)]
pub struct Outline {
    pub width: Option<Dimension<Emu>>,
    pub cap: Option<LineCap>,
    pub fill: Option<DrawingFill>,
    pub dash: Option<LineDash>,
    pub join: Option<LineJoin>,
}

impl Default for Outline {
    fn default() -> (r: Self)
        ensures
            r == (Outline { width: None, cap: None, fill: None, dash: None, join: None }),
    {
        Outline { width: None, cap: None, fill: None, dash: None, join: None }
    }
}

/// A shadow cast behind a shape.
#[derive(Debug, PartialEq, Eq)]
pub struct OuterShadowEffect {
    pub blur_radius: Dimension<Emu>,
    pub distance: Dimension<Emu>,
    pub direction: Dimension<SixtieThousandthDeg>,
    pub color: DrawingColor,
}

/// An effect of a shape.
#[derive(Debug, PartialEq, Eq)]
pub enum Effect {
    OuterShdw(OuterShadowEffect),
    Blur,
    Glow,
    InnerShdw,
    PrstShdw,
    Reflection,
    SoftEdge,
    FillOverlay,
}

/// The effects of a shape, in order.
#[derive(Debug, PartialEq, Eq)]
pub struct EffectList {
    pub effects: Vec<Effect>,
}

/// A colour at a position along a gradient.
#[derive(Debug, PartialEq, Eq)]
pub struct GradientStop {
    pub position: Dimension<ThousandthPercent>,
    pub color: DrawingColor,
}

/// How a gradient runs.
#[derive(Debug, Clone, Copy, PartialEq, Eq)]
pub enum GradientShadeProperties {
    Linear { angle: Dimension<SixtieThousandthDeg> },
    Path,
}

/// A gradient.
#[derive(Debug, PartialEq, Eq)]
pub struct GradientFill {
    pub stops: Vec<GradientStop>,
    pub shade_properties: GradientShadeProperties,
}

/// The image that a fill shows: in the package, or outside it.
#[derive(Debug, PartialEq, Eq)]
pub struct Blip {
    pub embed: Option<RelId>,
    pub link: Option<RelId>,
}

/// What is cropped off each side of an image.
#[derive(Debug, Clone, Copy, PartialEq, Eq)]
pub struct RelativeRect {
    pub left: Option<Dimension<ThousandthPercent>>,
    pub top: Option<Dimension<ThousandthPercent>>,
    pub right: Option<Dimension<ThousandthPercent>>,
    pub bottom: Option<Dimension<ThousandthPercent>>,
}

/// Whether an image is stretched or repeated.
#[derive(Debug, Clone, Copy, PartialEq, Eq, Structural)]
pub enum BlipFillKind {
    Unspecified,
    Stretch,
    Tile,
}

/// A fill that shows an image.
#[derive(Debug, PartialEq, Eq)]
pub struct BlipFill {
    pub blip: Option<Blip>,
    pub src_rect: Option<RelativeRect>,
    pub fill_kind: BlipFillKind,
}

/// A fill as a file states it.
#[derive(Debug, PartialEq, Eq)]
pub enum DrawingFill {
    /// Explicitly nothing.
    NoFill,
    Solid(DrawingColor),
    Gradient(GradientFill),
    Blip(BlipFill),
    Pattern,
    /// The fill of the enclosing group.
    Group,
}

/// A named value that adjusts a preset shape.
#[derive(Debug, PartialEq, Eq)]
pub struct GeomGuide {
    pub name: String,
    pub formula: String,
}

/// A coordinate of a path: a number, or the name of a guide.
#[derive(Debug, PartialEq, Eq)]
pub enum AdjCoord {
    Lit(i64),
    Guide(String),
}

/// A point of a path.
#[derive(Debug, PartialEq, Eq)]
pub struct AdjPoint {
    pub x: AdjCoord,
    pub y: AdjCoord,
}

/// A step of a path.
#[derive(Debug, PartialEq, Eq)]
pub enum PathCommand {
    MoveTo(AdjPoint),
    LineTo(AdjPoint),
    QuadBezTo(AdjPoint, AdjPoint),
    CubicBezTo(AdjPoint, AdjPoint, AdjPoint),
    ArcTo { wr: AdjCoord, hr: AdjCoord, start_angle: AdjCoord, swing_angle: AdjCoord },
    Close,
}

/// How the inside of a path is filled.
#[derive(Debug, Clone, Copy, PartialEq, Eq, Structural)]
pub enum PathFillMode {
    NoFill,
    Norm,
    Lighten,
    LightenLess,
    Darken,
    DarkenLess,
}

/// A path, with the width and height of the space of its coordinates. Where one
/// of them is not above zero, the shape's own takes its place.
#[derive(Debug, PartialEq, Eq)]
pub struct PathDef {
    pub w: Dimension<Emu>,
    pub h: Dimension<Emu>,
    pub fill: PathFillMode,
    pub stroke: bool,
    pub extrusion_ok: bool,
    pub commands: Vec<PathCommand>,
}

/// The box for the text of a shape, by coordinates of its first path.
#[derive(Debug, PartialEq, Eq)]
pub struct TextRect {
    pub left: AdjCoord,
    pub top: AdjCoord,
    pub right: AdjCoord,
    pub bottom: AdjCoord,
}

/// The geometry of a shape: adjustments, guides, paths and a box for text.
#[derive(Debug, PartialEq, Eq)]
pub struct CustomGeometry {
    pub av_list: Vec<GeomGuide>,
    pub gd_list: Vec<GeomGuide>,
    pub rect: Option<TextRect>,
    pub paths: Vec<PathDef>,
}

/// A preset shape with the adjustments that the file states.
#[derive(Debug, PartialEq, Eq)]
pub struct PresetGeometry {
    pub preset: String,
    pub adjust_values: Vec<GeomGuide>,
}

/// The properties of a shape.
#[derive(Debug, PartialEq, Eq)]
pub struct ShapeProperties {
    pub transform: Option<Transform2D>,
    pub geometry: Option<PresetGeometry>,
    pub fill: Option<DrawingFill>,
    pub outline: Option<Outline>,
    pub effect_list: Option<EffectList>,
}

/// A reference to an entry of one of the theme's style lists, counted from
/// one, with the colour that the entry's placeholder colour stands for.
#[derive(Debug, PartialEq, Eq)]
pub struct StyleMatrixRef {
    pub idx: u32,
    pub color: Option<DrawingColor>,
}

/// Which of the theme's fonts a shape's text takes.
#[derive(Debug, Clone, Copy, PartialEq, Eq, Structural)]
pub enum FontCollectionIndex {
    Major,
    Minor,
    NoFont,
}

/// The font and colour that a shape's text takes from the theme.
#[derive(Debug, PartialEq, Eq)]
pub struct FontReference {
    pub idx: FontCollectionIndex,
    pub color: Option<DrawingColor>,
}

/// Where text stands in its box, from top to bottom.
#[derive(Debug, Clone, Copy, PartialEq, Eq, Structural)]
pub enum TextAnchoringType {
    Top,
    Center,
    Bottom,
    Justified,
    Distributed,
}

/// The direction of text.
#[derive(Debug, Clone, Copy, PartialEq, Eq, Structural)]
pub enum TextVerticalType {
    Horizontal,
    Vertical,
    Vertical270,
    WordArtVertical,
    EastAsianVertical,
    MongolianVertical,
    WordArtVerticalRtl,
}

/// Whether lines are broken at the box's width.
#[derive(Debug, Clone, Copy, PartialEq, Eq, Structural)]
pub enum TextWrappingType {
    NoWrap,
    Square,
}

/// What becomes of text that is higher than its box.
#[derive(Debug, Clone, Copy, PartialEq, Eq, Structural)]
pub enum TextVertOverflow {
    Overflow,
    Clip,
    Ellipsis,
}

impl Default for TextVertOverflow {
    fn default() -> (r: Self)
        ensures
            r == TextVertOverflow::Overflow,
    {
        TextVertOverflow::Overflow
    }
}

/// How text and box are fitted to each other.
#[derive(Debug, Clone, Copy, PartialEq, Eq)]
pub enum TextAutoFit {
    NoAutoFit,
    NormalAutoFit { font_scale: Option<Dimension<ThousandthPercent>> },
    ShapeAutoFit,
}

/// The properties of a text body. `None` is what the file leaves unsaid.
#[derive(Debug, Clone, Copy, PartialEq, Eq)]
pub struct BodyProperties {
    pub rotation: Option<Dimension<SixtieThousandthDeg>>,
    pub vert: Option<TextVerticalType>,
    pub wrap: Option<TextWrappingType>,
    pub left_inset: Option<Dimension<Emu>>,
    pub top_inset: Option<Dimension<Emu>>,
    pub right_inset: Option<Dimension<Emu>>,
    pub bottom_inset: Option<Dimension<Emu>>,
    pub anchor: Option<TextAnchoringType>,
    pub vert_overflow: Option<TextVertOverflow>,
    pub auto_fit: Option<TextAutoFit>,
}

/// A drawn object's id, name and description.
#[derive(Debug, PartialEq, Eq)]
pub struct DocProperties {
    pub id: u32,
    pub name: String,
    pub description: Option<String>,
    pub hidden: Option<bool>,
    pub title: Option<String>,
}

impl Clone for DocProperties {
    fn clone(&self) -> (r: Self)
        ensures
            r == *self,
    {
        let description: Option<String> = self.description.clone();
        let title: Option<String> = self.title.clone();
        assert(description == self.description);
        assert(title == self.title);
        DocProperties { id: self.id, name: self.name.clone(), description, hidden: self.hidden, title }
    }
}

/// A picture.
#[derive(Debug, PartialEq, Eq)]
pub struct Picture {
    pub non_visual: DocProperties,
    pub blip_fill: BlipFill,
    pub shape_properties: Option<ShapeProperties>,
}

} // verus!
