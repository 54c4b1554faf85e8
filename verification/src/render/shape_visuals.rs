//! The fill, the outline and the effects of a shape, with what they take from
//! the theme.
//!
//! A shape's own properties come first; what they leave unsaid comes from the
//! theme's style to which the shape refers, whose placeholder colour is the
//! reference's own. Sizes stay in EMU, and dashes relative to the width of
//! the line.
use vstd::prelude::*;
use std::rc::Rc;

use crate::dimension::{
    hold, units, within_range, Dimension, Emu, SixtieThousandthDeg, ThousandthPercent,
};
use crate::model::color::{ColorTransform, DrawingColor, SchemeColorVal};
use crate::model::drawing::{
    BlipFill, BlipFillKind, DashStop, DrawingFill, Effect, GradientFill, GradientShadeProperties,
    GradientStop, LineCap, LineDash, LineJoin, OuterShadowEffect, Outline, PresetLineDashVal,
    RelativeRect, ShapeProperties, StyleMatrixRef,
};
use crate::model::geometry::Offset;
use crate::model::image::{image_at, ImageFormat, MediaView, PartMedia};
use crate::model::theme::Theme;
use crate::pptx::geometry::normalize_angle;
use crate::pptx::upright::{
    cosine, is_right, sine, HALF_TURN, QUARTER_TURN, THREE_QUARTER_TURN,
};
use crate::render::color::{
    black, resolve_drawing_color, resolved_color, DrawingColorContext, Palette, ResolvedColor,
    Shade,
};

verus! {

/// A colour at a position along a gradient.
#[derive(Debug, PartialEq, Eq)]
pub struct ResolvedStop {
    pub position: Dimension<ThousandthPercent>,
    pub color: ResolvedColor,
}

/// How a gradient runs.
#[derive(Debug, Clone, Copy, PartialEq, Eq)]
pub enum ResolvedGradientKind {
    Linear { angle: Dimension<SixtieThousandthDeg> },
    Radial,
}

/// A gradient.
#[derive(Debug, PartialEq, Eq)]
pub struct ResolvedGradient {
    pub stops: Rc<Vec<ResolvedStop>>,
    pub kind: ResolvedGradientKind,
}

/// An image to stretch into a shape.
#[derive(Debug)]
pub struct ResolvedBlip {
    pub data: Rc<Vec<u8>>,
    pub format: ImageFormat,
    pub src_rect: Option<RelativeRect>,
}

/// A fill that can be painted.
#[derive(Debug)]
pub enum ResolvedFill {
    NoFill,
    Solid(ResolvedColor),
    Gradient(ResolvedGradient),
    Blip(ResolvedBlip),
}

impl Clone for ResolvedFill {
    fn clone(&self) -> (r: Self)
        ensures
            r == *self,
    {
        match self {
            ResolvedFill::NoFill => ResolvedFill::NoFill,
            ResolvedFill::Solid(c) => ResolvedFill::Solid(c.clone()),
            ResolvedFill::Gradient(g) => ResolvedFill::Gradient(
                ResolvedGradient { stops: g.stops.clone(), kind: g.kind },
            ),
            ResolvedFill::Blip(b) => ResolvedFill::Blip(
                ResolvedBlip { data: b.data.clone(), format: b.format, src_rect: b.src_rect },
            ),
        }
    }
}

/// What a fill holds.
pub enum Paint {
    NoFill,
    Solid(Shade),
    Gradient { stops: Seq<(Dimension<ThousandthPercent>, Shade)>, kind: ResolvedGradientKind },
    Blip { data: Seq<u8>, format: ImageFormat, src_rect: Option<RelativeRect> },
}

/// What the stops of a gradient hold.
pub open spec fn stop_views(stops: Seq<ResolvedStop>) -> Seq<
    (Dimension<ThousandthPercent>, Shade),
> {
    stops.map_values(|s: ResolvedStop| (s.position, s.color@))
}

impl View for ResolvedFill {
    type V = Paint;

    open spec fn view(&self) -> Paint {
        match *self {
            ResolvedFill::NoFill => Paint::NoFill,
            ResolvedFill::Solid(c) => Paint::Solid(c@),
            ResolvedFill::Gradient(g) => Paint::Gradient {
                stops: stop_views(g.stops@),
                kind: g.kind,
            },
            ResolvedFill::Blip(b) => Paint::Blip {
                data: b.data@,
                format: b.format,
                src_rect: b.src_rect,
            },
        }
    }
}

/// What an optional fill holds.
pub open spec fn paint_at(fill: Option<&ResolvedFill>) -> Option<Paint> {
    match fill {
        Some(f) => Some(f@),
        None => None,
    }
}

/// What an optional table of images holds.
pub open spec fn media_at(media: Option<&PartMedia>) -> Option<Seq<(Seq<char>, MediaView)>> {
    match media {
        Some(m) => Some(m@),
        None => None,
    }
}

/// The stops of a gradient, with their colours resolved.
pub open spec fn resolved_stops(stops: Seq<GradientStop>, palette: Palette) -> Seq<
    (Dimension<ThousandthPercent>, Shade),
> {
    stops.map_values(|s: GradientStop| (s.position, resolved_color(s.color, palette)))
}

/// How a gradient runs.
pub open spec fn resolved_kind(shade: GradientShadeProperties) -> ResolvedGradientKind {
    match shade {
        GradientShadeProperties::Linear { angle } => ResolvedGradientKind::Linear { angle },
        GradientShadeProperties::Path => ResolvedGradientKind::Radial,
    }
}

/// The image that an image fill shows. Nothing is shown where the fill names
/// no image, repeats it, or names one that is not among the images of the part
/// that declares the fill.
pub open spec fn resolved_blip(
    fill: BlipFill,
    media: Option<Seq<(Seq<char>, MediaView)>>,
) -> Paint {
    match fill.blip {
        None => Paint::NoFill,
        Some(blip) => if fill.fill_kind is Tile {
            Paint::NoFill
        } else {
            match (blip.embed, media) {
                (Some(embed), Some(m)) => match image_at(m, embed.id@) {
                    Some(image) => Paint::Blip {
                        data: image.data,
                        format: image.format,
                        src_rect: fill.src_rect,
                    },
                    None => Paint::NoFill,
                },
                _ => Paint::NoFill,
            }
        },
    }
}

/// What a fill stands for. The fill of the enclosing group is the group's, and
/// nothing where there is no group.
pub open spec fn resolved_fill(
    fill: DrawingFill,
    palette: Palette,
    media: Option<Seq<(Seq<char>, MediaView)>>,
    group: Option<Paint>,
) -> Paint {
    match fill {
        DrawingFill::NoFill => Paint::NoFill,
        DrawingFill::Solid(c) => Paint::Solid(resolved_color(c, palette)),
        DrawingFill::Gradient(g) => Paint::Gradient {
            stops: resolved_stops(g.stops@, palette),
            kind: resolved_kind(g.shade_properties),
        },
        DrawingFill::Blip(b) => resolved_blip(b, media),
        DrawingFill::Pattern => Paint::NoFill,
        DrawingFill::Group => match group {
            Some(f) => f,
            None => Paint::NoFill,
        },
    }
}

/// The image that an image fill shows.
pub fn resolve_blip_fill(fill: &BlipFill, media: Option<&PartMedia>) -> (r: ResolvedFill)
    ensures
        r@ == resolved_blip(*fill, media_at(media)),
{
    let blip = match &fill.blip {
        Some(b) => b,
        None => {
            return ResolvedFill::NoFill;
        },
    };
    if matches!(fill.fill_kind, BlipFillKind::Tile) {
        return ResolvedFill::NoFill;
    }
    match (&blip.embed, media) {
        (Some(embed), Some(m)) => match m.get(embed.as_str()) {
            Some(entry) => ResolvedFill::Blip(
                ResolvedBlip {
                    data: entry.data.clone(),
                    format: entry.format,
                    src_rect: fill.src_rect,
                },
            ),
            None => ResolvedFill::NoFill,
        },
        _ => ResolvedFill::NoFill,
    }
}

/// A gradient with its colours resolved.
fn resolve_gradient(g: &GradientFill, ctx: &DrawingColorContext) -> (r: ResolvedGradient)
    ensures
        stop_views(r.stops@) == resolved_stops(g.stops@, ctx@),
        r.kind == resolved_kind(g.shade_properties),
{
    let mut stops: Vec<ResolvedStop> = Vec::new();
    let mut i: usize = 0;
    while i < g.stops.len()
        invariant
            i <= g.stops@.len(),
            stops@.len() == i,
            forall|k: int|
                0 <= k < i ==> #[trigger] stop_views(stops@)[k] == resolved_stops(
                    g.stops@,
                    ctx@,
                )[k],
        decreases g.stops@.len() - i,
    {
        let ghost before = stops@;
        let stop: &GradientStop = &g.stops[i];
        stops.push(
            ResolvedStop {
                position: stop.position,
                color: resolve_drawing_color(&stop.color, ctx),
            },
        );
        assert forall|k: int| 0 <= k < i + 1 implies #[trigger] stop_views(stops@)[k]
            == resolved_stops(g.stops@, ctx@)[k] by {
            if k < i {
                assert(stop_views(before)[k] == resolved_stops(g.stops@, ctx@)[k]);
            }
        }
        i = i + 1;
    }
    assert(stop_views(stops@) =~= resolved_stops(g.stops@, ctx@));
    let kind: ResolvedGradientKind = match g.shade_properties {
        GradientShadeProperties::Linear { angle } => ResolvedGradientKind::Linear { angle },
        GradientShadeProperties::Path => ResolvedGradientKind::Radial,
    };
    ResolvedGradient { stops: Rc::new(stops), kind }
}

/// What a fill stands for. `media` holds the images of the part that declares
/// the fill, and `group_fill` is what the enclosing group's fill stands for.
pub fn resolve_fill(
    fill: &DrawingFill,
    ctx: &DrawingColorContext,
    media: Option<&PartMedia>,
    group_fill: Option<&ResolvedFill>,
) -> (r: ResolvedFill)
    ensures
        r@ == resolved_fill(*fill, ctx@, media_at(media), paint_at(group_fill)),
{
    match fill {
        DrawingFill::NoFill => ResolvedFill::NoFill,
        DrawingFill::Solid(c) => ResolvedFill::Solid(resolve_drawing_color(c, ctx)),
        DrawingFill::Gradient(g) => ResolvedFill::Gradient(resolve_gradient(g, ctx)),
        DrawingFill::Blip(b) => resolve_blip_fill(b, media),
        DrawingFill::Pattern => ResolvedFill::NoFill,
        DrawingFill::Group => match group_fill {
            Some(f) => f.clone(),
            None => ResolvedFill::NoFill,
        },
    }
}

/// An entry of a list that is counted from one.
pub open spec fn entry<T>(list: Seq<T>, idx: int) -> Option<T> {
    if 1 <= idx <= list.len() {
        Some(list[idx - 1])
    } else {
        None
    }
}

/// The colours for a theme's style: the placeholder colour is the reference's
/// own, where it states one.
pub open spec fn palette_of(r: StyleMatrixRef, palette: Palette) -> Palette {
    match r.color {
        Some(c) => Palette { placeholder: Some(resolved_color(c, palette)), ..palette },
        None => palette,
    }
}

/// The colours for a theme's style.
fn context_of<'a>(r: &StyleMatrixRef, ctx: &DrawingColorContext<'a>) -> (c: DrawingColorContext<'a>)
    ensures
        c@ == palette_of(*r, ctx@),
        c.theme == ctx.theme,
{
    match &r.color {
        Some(c) => ctx.with_placeholder(resolve_drawing_color(c, ctx)),
        None => ctx.clone(),
    }
}

/// The fill of the theme to which a shape refers.
pub open spec fn theme_fill(
    r: Option<StyleMatrixRef>,
    theme: Option<Theme>,
    palette: Palette,
    media: Option<Seq<(Seq<char>, MediaView)>>,
) -> Paint {
    match (r, theme) {
        (Some(r), Some(t)) => match entry(t.fill_styles@, r.idx as int) {
            Some(f) => resolved_fill(f, palette_of(r, palette), media, None),
            None => Paint::NoFill,
        },
        _ => Paint::NoFill,
    }
}

/// What a reference refers to.
pub open spec fn at<T>(r: Option<&T>) -> Option<T> {
    match r {
        Some(x) => Some(*x),
        None => None,
    }
}

/// The fill of the theme to which a shape refers.
fn resolve_theme_fill(
    style_fill_ref: Option<&StyleMatrixRef>,
    theme: Option<&Theme>,
    ctx: &DrawingColorContext,
    media: Option<&PartMedia>,
) -> (r: ResolvedFill)
    ensures
        r@ == theme_fill(at(style_fill_ref), at(theme), ctx@, media_at(media)),
{
    match (style_fill_ref, theme) {
        (Some(r), Some(t)) => {
            if r.idx >= 1 && (r.idx as usize) <= t.fill_styles.len() {
                let fill: &DrawingFill = &t.fill_styles[(r.idx - 1) as usize];
                let fill_ctx: DrawingColorContext = context_of(r, ctx);
                resolve_fill(fill, &fill_ctx, media, None)
            } else {
                ResolvedFill::NoFill
            }
        },
        _ => ResolvedFill::NoFill,
    }
}

/// The fill of the theme to which a background refers: entries above 1000 are
/// those of the background list, counted from 1001.
pub open spec fn background_entry(r: StyleMatrixRef, theme: Theme) -> Option<DrawingFill> {
    if r.idx > 1000 {
        entry(theme.bg_fill_styles@, r.idx - 1000)
    } else {
        entry(theme.fill_styles@, r.idx as int)
    }
}

/// The fill of the theme to which a background refers.
pub fn resolve_background_fill(
    bg_ref: &StyleMatrixRef,
    theme: Option<&Theme>,
    ctx: &DrawingColorContext,
    media: Option<&PartMedia>,
) -> (r: ResolvedFill)
    ensures
        r@ == match theme {
            Some(t) => match background_entry(*bg_ref, *t) {
                Some(f) => resolved_fill(f, palette_of(*bg_ref, ctx@), media_at(media), None),
                None => Paint::NoFill,
            },
            None => Paint::NoFill,
        },
{
    if bg_ref.idx == 0 {
        return ResolvedFill::NoFill;
    }
    let t: &Theme = match theme {
        Some(t) => t,
        None => {
            return ResolvedFill::NoFill;
        },
    };
    let (list, place): (&Vec<DrawingFill>, usize) = if bg_ref.idx > 1000 {
        (&t.bg_fill_styles, (bg_ref.idx - 1001) as usize)
    } else {
        (&t.fill_styles, (bg_ref.idx - 1) as usize)
    };
    if place < list.len() {
        let fill_ctx: DrawingColorContext = context_of(bg_ref, ctx);
        resolve_fill(&list[place], &fill_ctx, media, None)
    } else {
        ResolvedFill::NoFill
    }
}

/// The shape of a line's ends.
#[derive(Debug, Clone, Copy, PartialEq, Eq, Structural)]
pub enum ResolvedLineCap {
    Butt,
    Round,
    Square,
}

/// The shape of a line's corners.
#[derive(Debug, Clone, Copy, PartialEq, Eq, Structural)]
pub enum ResolvedLineJoin {
    Round,
    Bevel,
    Miter,
}

/// A dash pattern: lengths of dashes and spaces in turn, relative to the width
/// of the line.
#[derive(Debug, PartialEq, Eq)]
pub enum ResolvedDashPattern {
    Solid,
    Dashes(Vec<Dimension<ThousandthPercent>>),
}

/// A line that can be painted.
#[derive(Debug, PartialEq, Eq)]
pub struct ResolvedStroke {
    pub width: Dimension<Emu>,
    pub color: ResolvedColor,
    pub dash: ResolvedDashPattern,
    pub cap: ResolvedLineCap,
    pub join: ResolvedLineJoin,
}

/// What a line holds.
pub struct StrokeView {
    pub width: Dimension<Emu>,
    pub color: Shade,
    pub dash: Option<Seq<Dimension<ThousandthPercent>>>,
    pub cap: ResolvedLineCap,
    pub join: ResolvedLineJoin,
}

/// What a dash pattern holds.
pub open spec fn dash_view(d: ResolvedDashPattern) -> Option<Seq<Dimension<ThousandthPercent>>> {
    match d {
        ResolvedDashPattern::Solid => None,
        ResolvedDashPattern::Dashes(v) => Some(v@),
    }
}

impl View for ResolvedStroke {
    type V = StrokeView;

    open spec fn view(&self) -> StrokeView {
        StrokeView {
            width: self.width,
            color: self.color@,
            dash: dash_view(self.dash),
            cap: self.cap,
            join: self.join,
        }
    }
}

/// The width of a line for which nothing states one: three quarters of a
/// point, in EMU.
pub const DEFAULT_LINE_WIDTH: i64 = 9_525;

/// The dashes and spaces of a named pattern, in widths of the line.
pub open spec fn preset_widths(preset: PresetLineDashVal) -> Option<Seq<int>> {
    match preset {
        PresetLineDashVal::Solid => None,
        PresetLineDashVal::Dot => Some(seq![1int, 3int]),
        PresetLineDashVal::SysDot => Some(seq![1int, 3int]),
        PresetLineDashVal::Dash => Some(seq![4int, 3int]),
        PresetLineDashVal::LgDash => Some(seq![8int, 3int]),
        PresetLineDashVal::DashDot => Some(seq![4int, 3int, 1int, 3int]),
        PresetLineDashVal::LgDashDot => Some(seq![8int, 3int, 1int, 3int]),
        PresetLineDashVal::LgDashDotDot => Some(seq![8int, 3int, 1int, 3int, 1int, 3int]),
        PresetLineDashVal::SysDash => Some(seq![3int, 1int]),
        PresetLineDashVal::SysDashDot => Some(seq![3int, 1int, 1int, 1int]),
        PresetLineDashVal::SysDashDotDot => Some(seq![3int, 1int, 1int, 1int, 1int, 1int]),
    }
}

/// So many widths of a line.
pub open spec fn line_widths(n: int) -> Dimension<ThousandthPercent> {
    units((n * 100_000) as i64)
}

/// The dashes and spaces of the stops of a pattern.
pub open spec fn stop_lengths(stops: Seq<DashStop>) -> Seq<Dimension<ThousandthPercent>>
    decreases stops.len(),
{
    if stops.len() == 0 {
        Seq::empty()
    } else {
        stop_lengths(stops.drop_last()).push(stops.last().dash).push(stops.last().space)
    }
}

/// The dashes and spaces of a pattern. A pattern without stops is no pattern.
pub open spec fn resolved_dash(d: LineDash) -> Option<Seq<Dimension<ThousandthPercent>>> {
    match d {
        LineDash::Preset(p) => match preset_widths(p) {
            Some(w) => Some(w.map_values(|n: int| line_widths(n))),
            None => None,
        },
        LineDash::Custom(stops) => if stops@.len() == 0 {
            None
        } else {
            Some(stop_lengths(stops@))
        },
    }
}

/// Dashes and spaces in widths of the line.
fn widths(lengths: &[u8]) -> (r: ResolvedDashPattern)
    ensures
        r matches ResolvedDashPattern::Dashes(v) && v@ == lengths@.map_values(
            |n: u8| line_widths(n as int),
        ),
{
    let mut out: Vec<Dimension<ThousandthPercent>> = Vec::new();
    let mut i: usize = 0;
    while i < lengths.len()
        invariant
            i <= lengths@.len(),
            out@ == lengths@.take(i as int).map_values(|n: u8| line_widths(n as int)),
        decreases lengths@.len() - i,
    {
        let n: i64 = lengths[i] as i64;
        out.push(Dimension::new(n * 100_000));
        assert(out@ =~= lengths@.take(i + 1).map_values(|n: u8| line_widths(n as int)));
        i = i + 1;
    }
    assert(lengths@.take(i as int) =~= lengths@);
    ResolvedDashPattern::Dashes(out)
}

/// The dashes and spaces of a named pattern.
fn preset_dash(preset: PresetLineDashVal) -> (r: ResolvedDashPattern)
    ensures
        dash_view(r) == resolved_dash(LineDash::Preset(preset)),
{
    let r: ResolvedDashPattern = match preset {
        PresetLineDashVal::Solid => ResolvedDashPattern::Solid,
        PresetLineDashVal::Dot => widths(&[1, 3]),
        PresetLineDashVal::SysDot => widths(&[1, 3]),
        PresetLineDashVal::Dash => widths(&[4, 3]),
        PresetLineDashVal::LgDash => widths(&[8, 3]),
        PresetLineDashVal::DashDot => widths(&[4, 3, 1, 3]),
        PresetLineDashVal::LgDashDot => widths(&[8, 3, 1, 3]),
        PresetLineDashVal::LgDashDotDot => widths(&[8, 3, 1, 3, 1, 3]),
        PresetLineDashVal::SysDash => widths(&[3, 1]),
        PresetLineDashVal::SysDashDot => widths(&[3, 1, 1, 1]),
        PresetLineDashVal::SysDashDotDot => widths(&[3, 1, 1, 1, 1, 1]),
    };
    proof {
        match preset_widths(preset) {
            Some(w) => {
                assert(dash_view(r)->0 =~= w.map_values(|n: int| line_widths(n)));
            },
            None => {},
        }
    }
    r
}

/// The dashes and spaces of a pattern.
fn map_line_dash(d: &LineDash) -> (r: ResolvedDashPattern)
    ensures
        dash_view(r) == resolved_dash(*d),
{
    match d {
        LineDash::Preset(p) => preset_dash(*p),
        LineDash::Custom(stops) => {
            if stops.len() == 0 {
                return ResolvedDashPattern::Solid;
            }
            let mut out: Vec<Dimension<ThousandthPercent>> = Vec::new();
            let mut i: usize = 0;
            while i < stops.len()
                invariant
                    i <= stops@.len(),
                    out@ == stop_lengths(stops@.take(i as int)),
                decreases stops@.len() - i,
            {
                assert(stops@.take(i + 1).drop_last() =~= stops@.take(i as int));
                out.push(stops[i].dash);
                out.push(stops[i].space);
                i = i + 1;
            }
            assert(stops@.take(i as int) =~= stops@);
            ResolvedDashPattern::Dashes(out)
        },
    }
}

/// The ends of a line.
pub open spec fn resolved_cap(cap: Option<LineCap>) -> ResolvedLineCap {
    match cap {
        Some(LineCap::Flat) => ResolvedLineCap::Butt,
        Some(LineCap::Round) => ResolvedLineCap::Round,
        Some(LineCap::Square) => ResolvedLineCap::Square,
        None => ResolvedLineCap::Butt,
    }
}

/// The corners of a line.
pub open spec fn resolved_join(join: Option<LineJoin>) -> ResolvedLineJoin {
    match join {
        Some(LineJoin::Round) => ResolvedLineJoin::Round,
        Some(LineJoin::Bevel) => ResolvedLineJoin::Bevel,
        Some(LineJoin::Miter { limit: _ }) => ResolvedLineJoin::Miter,
        None => ResolvedLineJoin::Round,
    }
}

/// A property of an outline, or that of the theme's.
pub open spec fn own_or<T>(own: Option<T>, theme: Option<T>) -> Option<T> {
    match own {
        Some(v) => Some(v),
        None => theme,
    }
}

/// The fill of an outline with the colours that it is written in: its own, or
/// the theme's.
pub open spec fn outline_fill(
    outline: Outline,
    theme_ln: Option<Outline>,
    palette: Palette,
    ln_palette: Palette,
) -> Option<(DrawingFill, Palette)> {
    match outline.fill {
        Some(f) => Some((f, palette)),
        None => match theme_ln {
            Some(t) => match t.fill {
                Some(f) => Some((f, ln_palette)),
                None => None,
            },
            None => None,
        },
    }
}

/// The line that an outline stands for, with whether its colour is only a
/// guess, because nothing states one. An outline that is filled with nothing
/// is no line, and one whose fill is no plain colour is black.
pub open spec fn resolved_outline(
    outline: Outline,
    theme_ln: Option<Outline>,
    palette: Palette,
    ln_palette: Palette,
) -> Option<(StrokeView, bool)> {
    let fill = outline_fill(outline, theme_ln, palette, ln_palette);
    match fill {
        Some((DrawingFill::NoFill, _)) => None,
        _ => Some(
            (
                StrokeView {
                    width: match own_or(
                        outline.width,
                        match theme_ln {
                            Some(t) => t.width,
                            None => None,
                        },
                    ) {
                        Some(w) => w,
                        None => units(DEFAULT_LINE_WIDTH),
                    },
                    color: match fill {
                        Some((DrawingFill::Solid(c), p)) => resolved_color(c, p),
                        _ => black(),
                    },
                    dash: match own_or(
                        outline.dash,
                        match theme_ln {
                            Some(t) => t.dash,
                            None => None,
                        },
                    ) {
                        Some(d) => resolved_dash(d),
                        None => None,
                    },
                    cap: resolved_cap(
                        own_or(
                            outline.cap,
                            match theme_ln {
                                Some(t) => t.cap,
                                None => None,
                            },
                        ),
                    ),
                    join: resolved_join(
                        own_or(
                            outline.join,
                            match theme_ln {
                                Some(t) => t.join,
                                None => None,
                            },
                        ),
                    ),
                },
                match fill {
                    Some((DrawingFill::Group, _)) => true,
                    Some(_) => false,
                    None => true,
                },
            ),
        ),
    }
}

/// What an optional line, with whether its colour is a guess, holds.
pub open spec fn stroke_view(s: Option<(ResolvedStroke, bool)>) -> Option<(StrokeView, bool)> {
    match s {
        Some(x) => Some((x.0@, x.1)),
        None => None,
    }
}

/// The ends of a line.
fn map_line_cap(cap: Option<LineCap>) -> (r: ResolvedLineCap)
    ensures
        r == resolved_cap(cap),
{
    match cap {
        Some(LineCap::Flat) => ResolvedLineCap::Butt,
        Some(LineCap::Round) => ResolvedLineCap::Round,
        Some(LineCap::Square) => ResolvedLineCap::Square,
        None => ResolvedLineCap::Butt,
    }
}

/// The corners of a line.
fn map_line_join(join: Option<LineJoin>) -> (r: ResolvedLineJoin)
    ensures
        r == resolved_join(join),
{
    match join {
        Some(LineJoin::Round) => ResolvedLineJoin::Round,
        Some(LineJoin::Bevel) => ResolvedLineJoin::Bevel,
        Some(LineJoin::Miter { limit: _ }) => ResolvedLineJoin::Miter,
        None => ResolvedLineJoin::Round,
    }
}

/// The line that an outline stands for, with what it leaves unsaid taken from
/// the theme's. The theme's colour is written in terms of `ln_ctx`.
fn resolve_outline(
    outline: &Outline,
    theme_ln: Option<&Outline>,
    ctx: &DrawingColorContext,
    ln_ctx: &DrawingColorContext,
) -> (r: Option<(ResolvedStroke, bool)>)
    ensures
        stroke_view(r) == resolved_outline(*outline, at(theme_ln), ctx@, ln_ctx@),
{
    let width: Dimension<Emu> = match outline.width {
        Some(w) => w,
        None => match theme_ln {
            Some(t) => match t.width {
                Some(w) => w,
                None => Dimension::new(DEFAULT_LINE_WIDTH),
            },
            None => Dimension::new(DEFAULT_LINE_WIDTH),
        },
    };
    let mut color_defaulted: bool = false;
    let (declared, own): (Option<&DrawingFill>, bool) = match &outline.fill {
        Some(f) => (Some(f), true),
        None => match theme_ln {
            Some(t) => (t.fill.as_ref(), false),
            None => (None, false),
        },
    };
    let color: ResolvedColor = match declared {
        Some(DrawingFill::Solid(c)) => if own {
            resolve_drawing_color(c, ctx)
        } else {
            resolve_drawing_color(c, ln_ctx)
        },
        Some(DrawingFill::NoFill) => {
            return None;
        },
        Some(DrawingFill::Group) => {
            color_defaulted = true;
            ResolvedColor::black()
        },
        Some(_) => ResolvedColor::black(),
        None => {
            color_defaulted = true;
            ResolvedColor::black()
        },
    };
    let cap: Option<LineCap> = match outline.cap {
        Some(c) => Some(c),
        None => match theme_ln {
            Some(t) => t.cap,
            None => None,
        },
    };
    let join: Option<LineJoin> = match outline.join {
        Some(j) => Some(j),
        None => match theme_ln {
            Some(t) => t.join,
            None => None,
        },
    };
    let stated: Option<&LineDash> = match &outline.dash {
        Some(d) => Some(d),
        None => match theme_ln {
            Some(t) => t.dash.as_ref(),
            None => None,
        },
    };
    let dash: ResolvedDashPattern = match stated {
        Some(d) => map_line_dash(d),
        None => ResolvedDashPattern::Solid,
    };
    Some(
        (
            ResolvedStroke {
                width,
                color,
                dash,
                cap: map_line_cap(cap),
                join: map_line_join(join),
            },
            color_defaulted,
        ),
    )
}

/// An effect that can be painted.
#[derive(Debug, PartialEq, Eq)]
pub enum ResolvedEffect {
    /// A shadow, by how far and in which direction it is cast.
    OuterShadow {
        blur_radius: Dimension<Emu>,
        distance: Dimension<Emu>,
        direction: Dimension<SixtieThousandthDeg>,
        color: ResolvedColor,
    },
}

/// What an effect holds.
pub struct ShadowView {
    pub blur_radius: Dimension<Emu>,
    pub distance: Dimension<Emu>,
    pub direction: Dimension<SixtieThousandthDeg>,
    pub color: Shade,
}

impl View for ResolvedEffect {
    type V = ShadowView;

    open spec fn view(&self) -> ShadowView {
        match *self {
            ResolvedEffect::OuterShadow { blur_radius, distance, direction, color } => ShadowView {
                blur_radius,
                distance,
                direction,
                color: color@,
            },
        }
    }
}

/// How far a shadow is cast in one direction, for a cosine or a sine of one,
/// nothing or minus one.
pub open spec fn cast(distance: int, share: int) -> Dimension<Emu> {
    units(within_range(share * distance))
}

/// How far a shadow is cast in one direction.
fn cast_by(distance: i64, angle: i64, on: i64, against: i64) -> (r: Dimension<Emu>)
    ensures
        r == units::<Emu>(
            within_range(
                if angle == on {
                    distance as int
                } else if angle == against {
                    -distance
                } else {
                    0
                },
            ),
        ),
{
    if angle == on {
        Dimension::new(distance)
    } else if angle == against {
        Dimension::new(hold(-(distance as i128)))
    } else {
        Dimension::new(0)
    }
}

impl ResolvedEffect {
    /// How far a shadow is cast to the right and down, where its direction is a
    /// number of quarters of a turn, clockwise from the right. Any other takes
    /// the angle's sine and cosine.
    pub fn offset(&self) -> (r: Option<Offset<Emu>>)
        ensures
            r == (if is_right(self@.direction.value) {
                Some(
                    Offset {
                        x: cast(self@.distance.value as int, cosine(self@.direction.value)),
                        y: cast(self@.distance.value as int, sine(self@.direction.value)),
                    },
                )
            } else {
                None
            }),
    {
        match self {
            ResolvedEffect::OuterShadow { distance, direction, .. } => {
                let angle: i64 = normalize_angle(direction.raw());
                let far: i64 = distance.raw();
                let ghost n: int = far as int;
                assert(1 * n == n && 0 * n == 0 && -1 * n == -n) by (nonlinear_arith);
                if angle % QUARTER_TURN != 0 {
                    None
                } else {
                    Some(
                        Offset {
                            x: cast_by(far, angle, 0, HALF_TURN),
                            y: cast_by(far, angle, QUARTER_TURN, THREE_QUARTER_TURN),
                        },
                    )
                }
            },
        }
    }
}

/// What effects hold.
pub open spec fn effect_views(effects: Seq<ResolvedEffect>) -> Seq<ShadowView> {
    effects.map_values(|e: ResolvedEffect| e@)
}

/// The effects that can be painted, in order: the shadows.
pub open spec fn resolved_effects(effects: Seq<Effect>, palette: Palette) -> Seq<ShadowView>
    decreases effects.len(),
{
    if effects.len() == 0 {
        Seq::empty()
    } else {
        let rest = resolved_effects(effects.drop_last(), palette);
        match effects.last() {
            Effect::OuterShdw(s) => rest.push(
                ShadowView {
                    blur_radius: s.blur_radius,
                    distance: s.distance,
                    direction: s.direction,
                    color: resolved_color(s.color, palette),
                },
            ),
            _ => rest,
        }
    }
}

/// The effects that can be painted.
fn resolve_effects(effects: &Vec<Effect>, ctx: &DrawingColorContext) -> (r: Vec<ResolvedEffect>)
    ensures
        effect_views(r@) == resolved_effects(effects@, ctx@),
{
    let mut out: Vec<ResolvedEffect> = Vec::new();
    assert(effect_views(out@) =~= Seq::<ShadowView>::empty());
    let mut i: usize = 0;
    while i < effects.len()
        invariant
            i <= effects@.len(),
            effect_views(out@) == resolved_effects(effects@.take(i as int), ctx@),
        decreases effects@.len() - i,
    {
        assert(effects@.take(i + 1).drop_last() =~= effects@.take(i as int));
        match &effects[i] {
            Effect::OuterShdw(s) => {
                let ghost before = out@;
                let shadow: ResolvedEffect = resolve_outer_shadow(s, ctx);
                let ghost shown = shadow@;
                out.push(shadow);
                assert(effect_views(out@) =~= effect_views(before).push(shown));
            },
            _ => {},
        }
        i = i + 1;
    }
    assert(effects@.take(i as int) =~= effects@);
    out
}

/// A shadow with its colour resolved.
fn resolve_outer_shadow(s: &OuterShadowEffect, ctx: &DrawingColorContext) -> (r: ResolvedEffect)
    ensures
        r@ == (ShadowView {
            blur_radius: s.blur_radius,
            distance: s.distance,
            direction: s.direction,
            color: resolved_color(s.color, ctx@),
        }),
{
    ResolvedEffect::OuterShadow {
        blur_radius: s.blur_radius,
        distance: s.distance,
        direction: s.direction,
        color: resolve_drawing_color(&s.color, ctx),
    }
}

/// What is painted for a shape.
#[derive(Debug)]
pub struct ResolvedVisuals {
    pub fill: ResolvedFill,
    pub stroke: Option<ResolvedStroke>,
    pub effects: Vec<ResolvedEffect>,
    /// Whether the line is black because nothing states its colour.
    pub stroke_color_defaulted: bool,
}

/// What is painted for a shape holds.
pub struct VisualsView {
    pub fill: Paint,
    pub stroke: Option<(StrokeView, bool)>,
    pub effects: Seq<ShadowView>,
}

/// The theme's line to which a shape refers.
pub open spec fn theme_line(r: Option<StyleMatrixRef>, theme: Option<Theme>) -> Option<Outline> {
    match (r, theme) {
        (Some(r), Some(t)) => entry(t.line_styles@, r.idx as int),
        _ => None,
    }
}

/// The colours in which the theme's line is written.
pub open spec fn line_palette(r: Option<StyleMatrixRef>, palette: Palette) -> Palette {
    match r {
        Some(r) => palette_of(r, palette),
        None => palette,
    }
}

/// The theme's effects to which a shape refers, resolved.
pub open spec fn theme_effects(
    r: Option<StyleMatrixRef>,
    theme: Option<Theme>,
    palette: Palette,
) -> Seq<ShadowView> {
    match (r, theme) {
        (Some(r), Some(t)) => match entry(t.effect_styles@, r.idx as int) {
            Some(l) => resolved_effects(l.effects@, palette),
            None => Seq::empty(),
        },
        _ => Seq::empty(),
    }
}

/// What is painted for a shape. A fill of its own counts, also one that leaves
/// it to a group that has none; else the theme's does. A shape without an
/// outline of its own has the theme's line. A list of effects that holds none
/// leaves it to the theme. For a shape without properties nothing is painted,
/// whatever style it refers to.
pub open spec fn resolved_visuals(
    props: Option<ShapeProperties>,
    line_ref: Option<StyleMatrixRef>,
    effect_ref: Option<StyleMatrixRef>,
    fill_ref: Option<StyleMatrixRef>,
    theme: Option<Theme>,
    palette: Palette,
    media: Option<Seq<(Seq<char>, MediaView)>>,
    group: Option<Paint>,
) -> VisualsView {
    match props {
        None => VisualsView {
            fill: Paint::NoFill,
            stroke: None,
            effects: Seq::empty(),
        },
        Some(p) => VisualsView {
            fill: match p.fill {
                Some(f) => resolved_fill(f, palette, media, group),
                None => theme_fill(fill_ref, theme, palette, media),
            },
            stroke: match p.outline {
                Some(o) => resolved_outline(
                    o,
                    theme_line(line_ref, theme),
                    palette,
                    line_palette(line_ref, palette),
                ),
                None => match theme_line(line_ref, theme) {
                    Some(t) => resolved_outline(
                        t,
                        None,
                        line_palette(line_ref, palette),
                        line_palette(line_ref, palette),
                    ),
                    None => None,
                },
            },
            effects: match p.effect_list {
                Some(l) => if l.effects@.len() > 0 {
                    resolved_effects(l.effects@, palette)
                } else {
                    theme_effects(effect_ref, theme, palette)
                },
                None => theme_effects(effect_ref, theme, palette),
            },
        },
    }
}

/// The theme's line to which a shape refers.
fn theme_line_style<'a>(r: Option<&StyleMatrixRef>, theme: Option<&'a Theme>) -> (o: Option<
    &'a Outline,
>)
    ensures
        at(o) == theme_line(at(r), at(theme)),
{
    match (r, theme) {
        (Some(r), Some(t)) => {
            if r.idx >= 1 && (r.idx as usize) <= t.line_styles.len() {
                Some(&t.line_styles[(r.idx - 1) as usize])
            } else {
                None
            }
        },
        _ => None,
    }
}

/// The theme's effects to which a shape refers, resolved.
fn resolve_theme_effects(
    r: Option<&StyleMatrixRef>,
    theme: Option<&Theme>,
    ctx: &DrawingColorContext,
) -> (e: Vec<ResolvedEffect>)
    ensures
        effect_views(e@) == theme_effects(at(r), at(theme), ctx@),
{
    match (r, theme) {
        (Some(r), Some(t)) => {
            if r.idx >= 1 && (r.idx as usize) <= t.effect_styles.len() {
                return resolve_effects(&t.effect_styles[(r.idx - 1) as usize].effects, ctx);
            }
        },
        _ => {},
    }
    let out: Vec<ResolvedEffect> = Vec::new();
    assert(effect_views(out@) =~= Seq::<ShadowView>::empty());
    out
}

/// What is painted for a shape. `group_fill` is what the fill of the nearest
/// enclosing group stands for.
pub fn resolve_shape_visuals(
    props: Option<&ShapeProperties>,
    style_line_ref: Option<&StyleMatrixRef>,
    style_effect_ref: Option<&StyleMatrixRef>,
    style_fill_ref: Option<&StyleMatrixRef>,
    ctx: &DrawingColorContext,
    media: Option<&PartMedia>,
    group_fill: Option<&ResolvedFill>,
) -> (v: ResolvedVisuals)
    ensures
        ({
            let expected = resolved_visuals(
                at(props),
                at(style_line_ref),
                at(style_effect_ref),
                at(style_fill_ref),
                at(ctx.theme),
                ctx@,
                media_at(media),
                paint_at(group_fill),
            );
            &&& v.fill@ == expected.fill
            &&& effect_views(v.effects@) == expected.effects
            &&& match v.stroke {
                Some(s) => expected.stroke == Some((s@, v.stroke_color_defaulted)),
                None => expected.stroke is None && !v.stroke_color_defaulted,
            }
        }),
{
    let theme: Option<&Theme> = ctx.theme;
    let p: &ShapeProperties = match props {
        Some(p) => p,
        None => {
            let effects: Vec<ResolvedEffect> = Vec::new();
            assert(effect_views(effects@) =~= Seq::<ShadowView>::empty());
            return ResolvedVisuals {
                fill: ResolvedFill::NoFill,
                stroke: None,
                effects,
                stroke_color_defaulted: false,
            };
        },
    };
    let fill: ResolvedFill = match &p.fill {
        Some(f) => resolve_fill(f, ctx, media, group_fill),
        None => resolve_theme_fill(style_fill_ref, theme, ctx, media),
    };
    let theme_ln: Option<&Outline> = theme_line_style(style_line_ref, theme);
    let ln_ctx: DrawingColorContext = match style_line_ref {
        Some(r) => context_of(r, ctx),
        None => ctx.clone(),
    };
    let stroke: Option<(ResolvedStroke, bool)> = match &p.outline {
        Some(o) => resolve_outline(o, theme_ln, ctx, &ln_ctx),
        None => match theme_ln {
            Some(t) => resolve_outline(t, None, &ln_ctx, &ln_ctx),
            None => None,
        },
    };
    let effects: Vec<ResolvedEffect> = match &p.effect_list {
        Some(l) => if l.effects.len() > 0 {
            resolve_effects(&l.effects, ctx)
        } else {
            resolve_theme_effects(style_effect_ref, theme, ctx)
        },
        None => resolve_theme_effects(style_effect_ref, theme, ctx),
    };
    match stroke {
        Some((s, stroke_color_defaulted)) => ResolvedVisuals {
            fill,
            stroke: Some(s),
            effects,
            stroke_color_defaulted,
        },
        None => ResolvedVisuals { fill, stroke: None, effects, stroke_color_defaulted: false },
    }
}

/// A fill that a shape declares is its fill, whatever style it refers to: also
/// one that is left to a group that has none.
pub proof fn a_declared_fill_wins(
    props: ShapeProperties,
    line_ref: Option<StyleMatrixRef>,
    effect_ref: Option<StyleMatrixRef>,
    fill_ref: Option<StyleMatrixRef>,
    theme: Option<Theme>,
    palette: Palette,
    media: Option<Seq<(Seq<char>, MediaView)>>,
    group: Option<Paint>,
)
    requires
        props.fill is Some,
    ensures
        resolved_visuals(
            Some(props),
            line_ref,
            effect_ref,
            fill_ref,
            theme,
            palette,
            media,
            group,
        ).fill == resolved_fill(props.fill->0, palette, media, group),
        props.fill == Some(DrawingFill::Group) && group is None ==> resolved_visuals(
            Some(props),
            line_ref,
            effect_ref,
            fill_ref,
            theme,
            palette,
            media,
            group,
        ).fill == Paint::NoFill,
{
}

/// In a theme's style the placeholder colour is the colour of the reference.
pub proof fn the_reference_supplies_the_placeholder_colour(
    r: StyleMatrixRef,
    c: DrawingColor,
    transforms: Rc<Vec<ColorTransform>>,
    palette: Palette,
)
    requires
        r.color == Some(c),
        transforms@.len() == 0,
    ensures
        resolved_color(
            DrawingColor::Scheme { name: SchemeColorVal::PhClr, transforms },
            palette_of(r, palette),
        ) == resolved_color(c, palette),
{
    let shade = resolved_color(c, palette);
    assert(shade.transforms + transforms@ =~= shade.transforms);
}

/// A line whose colour something states is not marked as a guess, and the
/// colour of one that is so marked is black.
pub proof fn only_a_guess_is_marked(
    outline: Outline,
    theme_ln: Option<Outline>,
    palette: Palette,
    ln_palette: Palette,
)
    ensures
        resolved_outline(outline, theme_ln, palette, ln_palette) matches Some((s, guess)) ==> {
            &&& guess ==> s.color == black()
            &&& outline.fill matches Some(DrawingFill::Solid(c)) ==> !guess && s.color
                == resolved_color(c, palette)
        },
{
}

} // verus!
