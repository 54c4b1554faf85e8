//! What colours, fills, lines and effects come to.
use vstd::prelude::*;
use std::rc::Rc;

use crate::model::color::{ColorMap, ColorTransform, DrawingColor, SchemeColorVal};
use crate::model::drawing::{
    BlipFill, DrawingFill, Effect, LineCap, LineDash, LineJoin, Outline, ShapeProperties, StyleMatrixRef,
};
use crate::model::geometry::Offset;
use crate::dimension::Emu;
use crate::model::image::{image_at, PartMedia};
use crate::model::theme::{Theme, ThemeColorScheme};
use crate::pptx::cascade::background_fill;
use crate::pptx::shapes::Background;
use crate::render::color::{
    resolve_drawing_color, resolved_color, DrawingColorContext, Palette, ResolvedColor,
};
use crate::render::shape_visuals::{
    resolve_background_fill, resolve_blip_fill, resolve_fill, resolve_shape_visuals, resolved_fill,
    ResolvedDashPattern, ResolvedEffect, ResolvedFill, ResolvedGradientKind, ResolvedLineCap,
    ResolvedLineJoin, ResolvedVisuals,
};

verus! {

/// Whether a number is the colour in a slot of a theme. The names for text and
/// background stand for the dark and the light slots.
pub open spec fn is_in_slot(rgb: u32, slot: SchemeColorVal, s: ThemeColorScheme) -> bool {
    &&& slot is Dk1 || slot is Tx1 ==> rgb == s.dark1
    &&& slot is Lt1 || slot is Bg1 ==> rgb == s.light1
    &&& slot is Dk2 || slot is Tx2 ==> rgb == s.dark2
    &&& slot is Lt2 || slot is Bg2 ==> rgb == s.light2
    &&& slot is Accent1 ==> rgb == s.accent1
    &&& slot is Accent2 ==> rgb == s.accent2
    &&& slot is Accent3 ==> rgb == s.accent3
    &&& slot is Accent4 ==> rgb == s.accent4
    &&& slot is Accent5 ==> rgb == s.accent5
    &&& slot is Accent6 ==> rgb == s.accent6
    &&& slot is Hlink ==> rgb == s.hyperlink
    &&& slot is FolHlink ==> rgb == s.followed_hyperlink
    &&& slot is PhClr ==> rgb == 0
}

/// A name of the colour map in force stands for the colour in the slot to which
/// that map sends it, by the map's own entry for that name.
pub proof fn the_map_in_force_names_the_slot(
    name: SchemeColorVal,
    transforms: Rc<Vec<ColorTransform>>,
    ctx: &DrawingColorContext,
    map: ColorMap,
    theme: &Theme,
    r: ResolvedColor,
)
    requires
        call_ensures(
            resolve_drawing_color,
            (&DrawingColor::Scheme { name, transforms }, ctx),
            r,
        ),
        ctx.theme == Some(theme),
        ctx.color_map == Some(map),
    ensures
        name is Bg1 ==> is_in_slot(r.rgb, map.bg1, theme.color_scheme),
        name is Tx1 ==> is_in_slot(r.rgb, map.tx1, theme.color_scheme),
        name is Bg2 ==> is_in_slot(r.rgb, map.bg2, theme.color_scheme),
        name is Tx2 ==> is_in_slot(r.rgb, map.tx2, theme.color_scheme),
        name is Accent1 ==> is_in_slot(r.rgb, map.accent1, theme.color_scheme),
        name is Accent2 ==> is_in_slot(r.rgb, map.accent2, theme.color_scheme),
        name is Accent3 ==> is_in_slot(r.rgb, map.accent3, theme.color_scheme),
        name is Accent4 ==> is_in_slot(r.rgb, map.accent4, theme.color_scheme),
        name is Accent5 ==> is_in_slot(r.rgb, map.accent5, theme.color_scheme),
        name is Accent6 ==> is_in_slot(r.rgb, map.accent6, theme.color_scheme),
        name is Hlink ==> is_in_slot(r.rgb, map.hlink, theme.color_scheme),
        name is FolHlink ==> is_in_slot(r.rgb, map.folink, theme.color_scheme),
{
}

/// Two colour maps that send the name of the background to slots of different
/// colours give it different colours.
pub proof fn another_map_gives_another_colour(
    transforms: Rc<Vec<ColorTransform>>,
    a: &DrawingColorContext,
    b: &DrawingColorContext,
    theme: &Theme,
    r: ResolvedColor,
    s: ResolvedColor,
)
    requires
        call_ensures(
            resolve_drawing_color,
            (&DrawingColor::Scheme { name: SchemeColorVal::Bg1, transforms }, a),
            r,
        ),
        call_ensures(
            resolve_drawing_color,
            (&DrawingColor::Scheme { name: SchemeColorVal::Bg1, transforms }, b),
            s,
        ),
        a.theme == Some(theme) && b.theme == Some(theme),
        a.color_map matches Some(m) && m.bg1 is Dk1,
        b.color_map matches Some(m) && m.bg1 is Lt1,
        theme.color_scheme.dark1 != theme.color_scheme.light1,
    ensures
        r.rgb != s.rgb,
{
}

/// Where no colour map is in force, text is dark on a light background, and
/// every other name is its own slot.
pub proof fn without_a_map_text_is_dark(
    name: SchemeColorVal,
    transforms: Rc<Vec<ColorTransform>>,
    ctx: &DrawingColorContext,
    theme: &Theme,
    r: ResolvedColor,
)
    requires
        call_ensures(
            resolve_drawing_color,
            (&DrawingColor::Scheme { name, transforms }, ctx),
            r,
        ),
        ctx.theme == Some(theme),
        ctx.color_map is None,
        !(name is PhClr),
    ensures
        is_in_slot(r.rgb, name, theme.color_scheme),
{
}

/// The name of a slot stands for that slot, whatever map is in force.
pub proof fn a_slot_is_itself_under_any_map(
    name: SchemeColorVal,
    transforms: Rc<Vec<ColorTransform>>,
    ctx: &DrawingColorContext,
    theme: &Theme,
    r: ResolvedColor,
)
    requires
        call_ensures(
            resolve_drawing_color,
            (&DrawingColor::Scheme { name, transforms }, ctx),
            r,
        ),
        ctx.theme == Some(theme),
    ensures
        name is Dk1 ==> r.rgb == theme.color_scheme.dark1,
        name is Lt1 ==> r.rgb == theme.color_scheme.light1,
        name is Dk2 ==> r.rgb == theme.color_scheme.dark2,
        name is Lt2 ==> r.rgb == theme.color_scheme.light2,
{
}

/// A colour keeps its own transforms, in order, behind those of the colour that
/// stands for the placeholder colour. A colour of its own is what it says, and a
/// name without a theme is black.
pub proof fn a_colour_keeps_its_transforms(
    c: DrawingColor,
    ctx: &DrawingColorContext,
    r: ResolvedColor,
)
    requires
        call_ensures(resolve_drawing_color, (&c, ctx), r),
    ensures
        c matches DrawingColor::Srgb { rgb, transforms } ==> r.rgb == rgb && r.transforms@
            == transforms@,
        c matches DrawingColor::Scheme { name, transforms } ==> {
            &&& !(name is PhClr) ==> r.transforms@ == transforms@
            &&& !(name is PhClr) && ctx.theme is None ==> r.rgb == 0
            &&& name is PhClr && ctx.placeholder is None ==> r.rgb == 0 && r.transforms@
                == transforms@
            &&& name is PhClr ==> (ctx.placeholder matches Some(p) ==> {
                &&& r.rgb == p.rgb
                &&& r.transforms@ == p.transforms@ + transforms@
            })
        },
{
    match c {
        DrawingColor::Srgb { rgb, transforms } => {
            assert(Seq::<ColorTransform>::empty() + transforms@ =~= transforms@);
        },
        DrawingColor::Scheme { name, transforms } => {
            assert(Seq::<ColorTransform>::empty() + transforms@ =~= transforms@);
        },
    }
}

/// A plain fill is of its colour, and a gradient runs as it is stated, through
/// its colours at their positions. Nothing, and a pattern, paint nothing.
pub proof fn a_fill_is_what_it_states(
    fill: &DrawingFill,
    ctx: &DrawingColorContext,
    media: Option<&PartMedia>,
    group: Option<&ResolvedFill>,
    r: ResolvedFill,
)
    requires
        call_ensures(resolve_fill, (fill, ctx, media, group), r),
    ensures
        *fill matches DrawingFill::Solid(c) ==> (r matches ResolvedFill::Solid(x) && x@
            == resolved_color(c, ctx@)),
        *fill matches DrawingFill::Gradient(g) ==> (r matches ResolvedFill::Gradient(x) && {
            &&& x.stops@.len() == g.stops@.len()
            &&& forall|i: int|
                0 <= i < g.stops@.len() ==> (#[trigger] x.stops@[i]).position
                    == g.stops@[i].position && x.stops@[i].color@ == resolved_color(
                    g.stops@[i].color,
                    ctx@,
                )
            &&& g.shade_properties matches crate::model::drawing::GradientShadeProperties::Linear {
                angle,
            } ==> x.kind == (ResolvedGradientKind::Linear { angle })
            &&& g.shade_properties is Path ==> x.kind is Radial
        }),
        fill is NoFill || fill is Pattern ==> r is NoFill,
{
    if let DrawingFill::Gradient(g) = *fill {
        if let ResolvedFill::Gradient(x) = r {
            let views = crate::render::shape_visuals::stop_views(x.stops@);
            assert(views.len() == g.stops@.len());
            assert forall|i: int| 0 <= i < g.stops@.len() implies (#[trigger] x.stops@[i]).position
                == g.stops@[i].position && x.stops@[i].color@ == resolved_color(
                g.stops@[i].color,
                ctx@,
            ) by {
                assert(views[i] == (x.stops@[i].position, x.stops@[i].color@));
            }
        }
    }
}

/// A fill that is left to the group is the group's, and nothing where there is
/// no group.
pub proof fn a_group_lends_its_fill(
    ctx: &DrawingColorContext,
    media: Option<&PartMedia>,
    group: Option<&ResolvedFill>,
    r: ResolvedFill,
)
    requires
        call_ensures(resolve_fill, (&DrawingFill::Group, ctx, media, group), r),
    ensures
        group matches Some(f) ==> r@ == f@,
        group is None ==> r is NoFill,
{
}

/// A fill with an image shows the image that the part holds under the fill's own
/// id, cropped as the fill states. It shows nothing where it names no image of
/// the package, repeats its image, or names one that the part does not hold.
pub proof fn an_image_fill_shows_the_image_it_names(
    fill: &BlipFill,
    media: Option<&PartMedia>,
    r: ResolvedFill,
)
    requires
        call_ensures(resolve_blip_fill, (fill, media), r),
    ensures
        r matches ResolvedFill::Blip(x) ==> {
            &&& !(fill.fill_kind is Tile)
            &&& fill.blip matches Some(b) && b.embed matches Some(e) && media matches Some(m)
                && image_at(m@, e.id@) matches Some(image) && x.data@ == image.data && x.format
                == image.format && x.src_rect == fill.src_rect
        },
        r is Blip || r is NoFill,
        fill.fill_kind is Tile || fill.blip is None || media is None ==> r is NoFill,
        !(fill.fill_kind is Tile) && fill.blip is Some && (fill.blip->0).embed is Some && media
            is Some && image_at((media->0)@, ((fill.blip->0).embed->0).id@) is Some ==> r is Blip,
{
}

/// A background of a colour that it names has the colour in the slot to which
/// the slide's colour map sends the name: on a dark deck the background is dark.
pub proof fn a_background_follows_the_map_of_its_slide(
    name: SchemeColorVal,
    transforms: Rc<Vec<ColorTransform>>,
    bg: &Background,
    theme: &Theme,
    map: ColorMap,
    media: Option<&PartMedia>,
    r: ResolvedFill,
)
    requires
        *bg == Background::Properties(
            DrawingFill::Solid(DrawingColor::Scheme { name, transforms }),
        ),
        call_ensures(background_fill, (bg, Some(theme), Some(map), media), r),
    ensures
        r matches ResolvedFill::Solid(x) && {
            &&& name is Bg1 ==> is_in_slot(x.rgb, map.bg1, theme.color_scheme)
            &&& name is Tx1 ==> is_in_slot(x.rgb, map.tx1, theme.color_scheme)
            &&& name is Bg2 ==> is_in_slot(x.rgb, map.bg2, theme.color_scheme)
            &&& name is Tx2 ==> is_in_slot(x.rgb, map.tx2, theme.color_scheme)
            &&& name is Accent1 ==> is_in_slot(x.rgb, map.accent1, theme.color_scheme)
            &&& name is Accent2 ==> is_in_slot(x.rgb, map.accent2, theme.color_scheme)
            &&& name is Accent3 ==> is_in_slot(x.rgb, map.accent3, theme.color_scheme)
            &&& name is Accent4 ==> is_in_slot(x.rgb, map.accent4, theme.color_scheme)
            &&& name is Accent5 ==> is_in_slot(x.rgb, map.accent5, theme.color_scheme)
            &&& name is Accent6 ==> is_in_slot(x.rgb, map.accent6, theme.color_scheme)
            &&& name is Hlink ==> is_in_slot(x.rgb, map.hlink, theme.color_scheme)
            &&& name is FolHlink ==> is_in_slot(x.rgb, map.folink, theme.color_scheme)
            &&& x.transforms@ == transforms@
        },
{
    assert(Seq::<ColorTransform>::empty() + transforms@ =~= transforms@);
}

/// The colours of a slide, with the colour of a reference to the theme for the
/// placeholder colour where the reference states one.
pub open spec fn lent(
    r: &StyleMatrixRef,
    p: Palette,
    lent: Palette,
) -> bool {
    &&& lent.scheme == p.scheme
    &&& lent.color_map == p.color_map
    &&& r.color matches Some(c) ==> lent.placeholder == Some(resolved_color(c, p))
    &&& r.color is None ==> lent.placeholder == p.placeholder
}

/// A background that refers to the theme takes the entry that it counts: from
/// 1001 on those for backgrounds, below those for shapes, in the colours that
/// the reference lends. There is nothing where there is no such entry.
pub proof fn a_background_counts_its_entry(
    bg: &StyleMatrixRef,
    theme: &Theme,
    map: Option<ColorMap>,
    media: Option<&PartMedia>,
    p: Palette,
    r: ResolvedFill,
)
    requires
        call_ensures(
            background_fill,
            (&Background::Reference(*bg), Some(theme), map, media),
            r,
        ),
        lent(
            bg,
            Palette { scheme: Some(theme.color_scheme), color_map: map, placeholder: None },
            p,
        ),
    ensures
        1001 <= bg.idx <= 1000 + theme.bg_fill_styles@.len() ==> r@ == resolved_fill(
            theme.bg_fill_styles@[bg.idx - 1001],
            p,
            crate::render::shape_visuals::media_at(media),
            None,
        ),
        1 <= bg.idx <= 1000 && bg.idx <= theme.fill_styles@.len() ==> r@ == resolved_fill(
            theme.fill_styles@[bg.idx - 1],
            p,
            crate::render::shape_visuals::media_at(media),
            None,
        ),
        bg.idx == 0 || bg.idx > 1000 + theme.bg_fill_styles@.len() || theme.fill_styles@.len()
            < bg.idx <= 1000 ==> r is NoFill,
{
}

/// A reference of a background to a theme that is not there comes to nothing.
pub proof fn without_a_theme_a_background_is_nothing(
    bg: &StyleMatrixRef,
    ctx: &DrawingColorContext,
    media: Option<&PartMedia>,
    r: ResolvedFill,
)
    requires
        call_ensures(resolve_background_fill, (bg, None, ctx, media), r),
    ensures
        r is NoFill,
{
}

/// A shape that states a fill has that fill, in the slide's colours and with the
/// part's images; one that states none has the entry of the theme's fills that
/// it counts, in the colours that the reference lends.
pub proof fn a_shape_has_its_own_fill_or_the_themes(
    props: &ShapeProperties,
    line: Option<&StyleMatrixRef>,
    effect: Option<&StyleMatrixRef>,
    fill: Option<&StyleMatrixRef>,
    ctx: &DrawingColorContext,
    media: Option<&PartMedia>,
    group: Option<&ResolvedFill>,
    v: ResolvedVisuals,
    p: Palette,
)
    requires
        call_ensures(
            resolve_shape_visuals,
            (Some(props), line, effect, fill, ctx, media, group),
            v,
        ),
        fill matches Some(f) ==> lent(f, ctx@, p),
    ensures
        props.fill matches Some(DrawingFill::Solid(c)) ==> (v.fill matches ResolvedFill::Solid(x)
            && x@ == resolved_color(c, ctx@)),
        props.fill matches Some(DrawingFill::NoFill) ==> v.fill is NoFill,
        props.fill matches Some(DrawingFill::Group) ==> (match group {
            Some(g) => v.fill@ == g@,
            None => v.fill is NoFill,
        }),
        props.fill matches Some(f) ==> v.fill@ == resolved_fill(
            f,
            ctx@,
            crate::render::shape_visuals::media_at(media),
            crate::render::shape_visuals::paint_at(group),
        ),
        props.fill is None ==> {
            &&& fill is None || ctx.theme is None ==> v.fill is NoFill
            &&& fill matches Some(f) ==> ctx.theme matches Some(t) ==> if 1 <= f.idx
                <= t.fill_styles@.len() {
                v.fill@ == resolved_fill(
                    t.fill_styles@[f.idx - 1],
                    p,
                    crate::render::shape_visuals::media_at(media),
                    None,
                )
            } else {
                v.fill is NoFill
            }
        },
{
}

/// For a shape without properties nothing is painted.
pub proof fn without_properties_nothing_is_painted(
    line: Option<&StyleMatrixRef>,
    effect: Option<&StyleMatrixRef>,
    fill: Option<&StyleMatrixRef>,
    ctx: &DrawingColorContext,
    media: Option<&PartMedia>,
    group: Option<&ResolvedFill>,
    v: ResolvedVisuals,
)
    requires
        call_ensures(resolve_shape_visuals, (None, line, effect, fill, ctx, media, group), v),
    ensures
        v.fill is NoFill,
        v.stroke is None,
        v.effects@.len() == 0,
        !v.stroke_color_defaulted,
{
    assert(crate::render::shape_visuals::effect_views(v.effects@).len() == v.effects@.len());
}

/// Whether the ends of a line are as stated.
pub open spec fn ends_as(cap: LineCap, r: ResolvedLineCap) -> bool {
    &&& cap is Flat <==> r is Butt
    &&& cap is Round <==> r is Round
    &&& cap is Square <==> r is Square
}

/// Whether the corners of a line are as stated.
pub open spec fn bends_as(join: LineJoin, r: ResolvedLineJoin) -> bool {
    &&& join is Round <==> r is Round
    &&& join is Bevel <==> r is Bevel
    &&& join is Miter <==> r is Miter
}

/// Whether a line is broken into so many widths of it, dashes and spaces in
/// turn.
pub open spec fn breaks_into(lengths: Seq<int>, r: ResolvedDashPattern) -> bool {
    r matches ResolvedDashPattern::Dashes(v) && v@.len() == lengths.len() && forall|i: int|
        0 <= i < lengths.len() ==> (#[trigger] v@[i]).value == 100_000 * lengths[i]
}

/// Whether a line is broken as stated.
pub open spec fn breaks_as(dash: LineDash, r: ResolvedDashPattern) -> bool {
    match dash {
        LineDash::Preset(p) => {
            &&& p is Solid ==> r is Solid
            &&& p is Dot || p is SysDot ==> breaks_into(seq![1, 3], r)
            &&& p is Dash ==> breaks_into(seq![4, 3], r)
            &&& p is LgDash ==> breaks_into(seq![8, 3], r)
            &&& p is DashDot ==> breaks_into(seq![4, 3, 1, 3], r)
            &&& p is LgDashDot ==> breaks_into(seq![8, 3, 1, 3], r)
            &&& p is LgDashDotDot ==> breaks_into(seq![8, 3, 1, 3, 1, 3], r)
            &&& p is SysDash ==> breaks_into(seq![3, 1], r)
            &&& p is SysDashDot ==> breaks_into(seq![3, 1, 1, 1], r)
            &&& p is SysDashDotDot ==> breaks_into(seq![3, 1, 1, 1, 1, 1], r)
        },
        LineDash::Custom(stops) => if stops@.len() == 0 {
            r is Solid
        } else {
            r matches ResolvedDashPattern::Dashes(v) && v@.len() == 2 * stops@.len() && forall|
                i: int,
            |
                0 <= i < stops@.len() ==> v@[2 * i] == (#[trigger] stops@[i]).dash && v@[2 * i + 1]
                    == stops@[i].space
        },
    }
}

/// The lengths of stops stand two by two.
proof fn lengths_stand_in_pairs(stops: Seq<crate::model::drawing::DashStop>)
    ensures
        ({
            let v = crate::render::shape_visuals::stop_lengths(stops);
            v.len() == 2 * stops.len() && forall|i: int|
                0 <= i < stops.len() ==> v[2 * i] == (#[trigger] stops[i]).dash && v[2 * i + 1]
                    == stops[i].space
        }),
    decreases stops.len(),
{
    if stops.len() > 0 {
        let rest = stops.drop_last();
        lengths_stand_in_pairs(rest);
        assert forall|i: int| 0 <= i < rest.len() implies #[trigger] stops[i] == rest[i] by {}
    }
}

/// A pattern is broken as stated.
proof fn patterns_break_as_stated(d: LineDash, r: ResolvedDashPattern)
    requires
        crate::render::shape_visuals::dash_view(r) == crate::render::shape_visuals::resolved_dash(d),
    ensures
        breaks_as(d, r),
{
    match d {
        LineDash::Preset(p) => {
            if let Some(w) = crate::render::shape_visuals::preset_widths(p) {
                let want = w.map_values(|n: int| crate::render::shape_visuals::line_widths(n));
                assert(r matches ResolvedDashPattern::Dashes(v) && v@ == want);
                assert(breaks_into(w, r));
            }
        },
        LineDash::Custom(stops) => {
            lengths_stand_in_pairs(stops@);
        },
    }
}

/// What a shape's own outline states of its line counts, property by property.
/// An outline of no fill is no line; its own plain colour is written in the
/// slide's colours.
pub proof fn a_shapes_own_line_comes_first(
    props: &ShapeProperties,
    own: Outline,
    line: Option<&StyleMatrixRef>,
    effect: Option<&StyleMatrixRef>,
    fill: Option<&StyleMatrixRef>,
    ctx: &DrawingColorContext,
    media: Option<&PartMedia>,
    group: Option<&ResolvedFill>,
    v: ResolvedVisuals,
)
    requires
        call_ensures(
            resolve_shape_visuals,
            (Some(props), line, effect, fill, ctx, media, group),
            v,
        ),
        props.outline == Some(own),
    ensures
        own.fill matches Some(DrawingFill::NoFill) ==> v.stroke is None,
        own.fill matches Some(DrawingFill::Solid(c)) ==> (v.stroke matches Some(s) && s.color@
            == resolved_color(c, ctx@)) && !v.stroke_color_defaulted,
        v.stroke matches Some(s) ==> {
            &&& own.width matches Some(w) ==> s.width == w
            &&& own.cap matches Some(c) ==> ends_as(c, s.cap)
            &&& own.join matches Some(j) ==> bends_as(j, s.join)
            &&& own.dash matches Some(d) ==> breaks_as(d, s.dash)
        },
{
    if let Some(s) = v.stroke {
        if let Some(d) = own.dash {
            patterns_break_as_stated(d, s.dash);
        }
    }
}

/// What the outline of a shape leaves unsaid is that of the theme's line which
/// the shape counts, whose colour is written in the colours that the reference
/// lends.
pub proof fn the_themes_line_fills_in(
    props: &ShapeProperties,
    own: Outline,
    line: &StyleMatrixRef,
    effect: Option<&StyleMatrixRef>,
    fill: Option<&StyleMatrixRef>,
    ctx: &DrawingColorContext,
    media: Option<&PartMedia>,
    group: Option<&ResolvedFill>,
    v: ResolvedVisuals,
    theme: &Theme,
    p: Palette,
)
    requires
        call_ensures(
            resolve_shape_visuals,
            (Some(props), Some(line), effect, fill, ctx, media, group),
            v,
        ),
        props.outline == Some(own),
        ctx.theme == Some(theme),
        1 <= line.idx <= theme.line_styles@.len(),
        lent(line, ctx@, p),
    ensures
        ({
            let t = theme.line_styles@[line.idx - 1];
            &&& own.fill is None ==> (t.fill matches Some(DrawingFill::NoFill) ==> v.stroke is None)
            &&& own.fill is None ==> (t.fill matches Some(DrawingFill::Solid(c)) ==> (
            v.stroke matches Some(s) && s.color@ == resolved_color(c, p))
                && !v.stroke_color_defaulted)
            &&& own.fill is None && t.fill is None ==> v.stroke is Some && v.stroke_color_defaulted
            &&& v.stroke matches Some(s) ==> {
                &&& own.width is None ==> (t.width matches Some(w) ==> s.width == w)
                &&& own.width is None && t.width is None ==> s.width.value == 9_525
                &&& own.cap is None ==> (t.cap matches Some(c) ==> ends_as(c, s.cap))
                &&& own.cap is None && t.cap is None ==> s.cap is Butt
                &&& own.join is None ==> (t.join matches Some(j) ==> bends_as(j, s.join))
                &&& own.join is None && t.join is None ==> s.join is Round
                &&& own.dash is None ==> (t.dash matches Some(d) ==> breaks_as(d, s.dash))
                &&& own.dash is None && t.dash is None ==> s.dash is Solid
            }
        }),
{
    let t = theme.line_styles@[line.idx - 1];
    if let Some(s) = v.stroke {
        if let Some(d) = t.dash {
            if own.dash is None {
                patterns_break_as_stated(d, s.dash);
            }
        }
    }
}

/// Whether a shape counts no line of the theme.
pub open spec fn counts_no_line(line: Option<&StyleMatrixRef>, theme: Option<&Theme>) -> bool {
    match (line, theme) {
        (Some(r), Some(t)) => r.idx == 0 || r.idx > t.line_styles@.len(),
        _ => true,
    }
}

/// Where neither the shape nor the theme states anything of a line, it is three
/// quarters of a point wide, unbroken, with plain ends and round corners, and
/// its colour is black and marked as a guess. Without an outline there is no
/// line at all.
pub proof fn a_line_of_which_nothing_is_said(
    props: &ShapeProperties,
    line: Option<&StyleMatrixRef>,
    effect: Option<&StyleMatrixRef>,
    fill: Option<&StyleMatrixRef>,
    ctx: &DrawingColorContext,
    media: Option<&PartMedia>,
    group: Option<&ResolvedFill>,
    v: ResolvedVisuals,
)
    requires
        call_ensures(
            resolve_shape_visuals,
            (Some(props), line, effect, fill, ctx, media, group),
            v,
        ),
        counts_no_line(line, ctx.theme),
    ensures
        props.outline is None ==> v.stroke is None && !v.stroke_color_defaulted,
        props.outline matches Some(own) ==> {
            &&& own.fill is None || own.fill == Some(DrawingFill::Group) ==> (v.stroke matches Some(
                s,
            ) && s.color.rgb == 0 && s.color.transforms@.len() == 0) && v.stroke_color_defaulted
            &&& own.fill is Some && (own.fill->0 is Gradient || own.fill->0 is Blip || own.fill->0
                is Pattern) ==> !v.stroke_color_defaulted && (v.stroke matches Some(s)
                && s.color.rgb == 0 && s.color.transforms@.len() == 0)
            &&& v.stroke matches Some(s) ==> {
                &&& own.width is None ==> s.width.value == 9_525
                &&& own.cap is None ==> s.cap is Butt
                &&& own.join is None ==> s.join is Round
                &&& own.dash is None ==> s.dash is Solid
            }
        },
{
}

/// A shape without an outline has the theme's line which it counts, whole.
pub proof fn without_an_outline_the_themes_line_counts(
    props: &ShapeProperties,
    line: &StyleMatrixRef,
    effect: Option<&StyleMatrixRef>,
    fill: Option<&StyleMatrixRef>,
    ctx: &DrawingColorContext,
    media: Option<&PartMedia>,
    group: Option<&ResolvedFill>,
    v: ResolvedVisuals,
    theme: &Theme,
    p: Palette,
)
    requires
        call_ensures(
            resolve_shape_visuals,
            (Some(props), Some(line), effect, fill, ctx, media, group),
            v,
        ),
        props.outline is None,
        ctx.theme == Some(theme),
        1 <= line.idx <= theme.line_styles@.len(),
        lent(line, ctx@, p),
    ensures
        ({
            let t = theme.line_styles@[line.idx - 1];
            &&& v.stroke is None <==> t.fill == Some(DrawingFill::NoFill)
            &&& t.fill matches Some(DrawingFill::Solid(c)) ==> (v.stroke matches Some(s) && s.color@
                == resolved_color(c, p))
            &&& v.stroke matches Some(s) ==> {
                &&& t.width matches Some(w) ==> s.width == w
                &&& t.width is None ==> s.width.value == 9_525
                &&& t.cap matches Some(c) ==> ends_as(c, s.cap)
                &&& t.join matches Some(j) ==> bends_as(j, s.join)
                &&& t.dash matches Some(d) ==> breaks_as(d, s.dash)
            }
        }),
{
    let t = theme.line_styles@[line.idx - 1];
    if let Some(s) = v.stroke {
        if let Some(d) = t.dash {
            patterns_break_as_stated(d, s.dash);
        }
    }
}

/// Whether the effects that are painted are the shadows of a list, in order.
pub open spec fn are_shadows_of(
    painted: Seq<ResolvedEffect>,
    stated: Seq<Effect>,
    p: Palette,
) -> bool
    decreases stated.len(),
{
    if stated.len() == 0 {
        painted.len() == 0
    } else if stated.last() is OuterShdw {
        painted.len() > 0 && are_shadows_of(painted.drop_last(), stated.drop_last(), p) && (
        painted.last() matches ResolvedEffect::OuterShadow {
            blur_radius,
            distance,
            direction,
            color,
        } && stated.last() matches Effect::OuterShdw(s) && blur_radius == s.blur_radius && distance
            == s.distance && direction == s.direction && color@ == resolved_color(s.color, p))
    } else {
        are_shadows_of(painted, stated.drop_last(), p)
    }
}

proof fn shadows_are_painted(painted: Seq<ResolvedEffect>, stated: Seq<Effect>, p: Palette)
    requires
        crate::render::shape_visuals::effect_views(painted)
            == crate::render::shape_visuals::resolved_effects(stated, p),
    ensures
        are_shadows_of(painted, stated, p),
    decreases stated.len(),
{
    let views = crate::render::shape_visuals::effect_views(painted);
    assert(views.len() == painted.len());
    if stated.len() > 0 {
        if stated.last() is OuterShdw {
            let rest = crate::render::shape_visuals::resolved_effects(stated.drop_last(), p);
            assert(views.drop_last() =~= rest);
            assert(crate::render::shape_visuals::effect_views(painted.drop_last()) =~= rest);
            assert(views.last() == painted.last()@);
            shadows_are_painted(painted.drop_last(), stated.drop_last(), p);
        } else {
            shadows_are_painted(painted, stated.drop_last(), p);
        }
    }
}

/// A shape that states effects has its own; one that states none, or an empty
/// list, has those of the theme that it counts. Only shadows are painted.
pub proof fn a_shape_has_its_own_effects_or_the_themes(
    props: &ShapeProperties,
    line: Option<&StyleMatrixRef>,
    effect: Option<&StyleMatrixRef>,
    fill: Option<&StyleMatrixRef>,
    ctx: &DrawingColorContext,
    media: Option<&PartMedia>,
    group: Option<&ResolvedFill>,
    v: ResolvedVisuals,
)
    requires
        call_ensures(
            resolve_shape_visuals,
            (Some(props), line, effect, fill, ctx, media, group),
            v,
        ),
    ensures
        props.effect_list matches Some(l) ==> (l.effects@.len() > 0 ==> are_shadows_of(
            v.effects@,
            l.effects@,
            ctx@,
        )),
        (props.effect_list matches Some(l) ==> l.effects@.len() == 0) ==> match (effect, ctx.theme) {
            (Some(e), Some(t)) => if 1 <= e.idx <= t.effect_styles@.len() {
                are_shadows_of(v.effects@, t.effect_styles@[e.idx - 1].effects@, ctx@)
            } else {
                v.effects@.len() == 0
            },
            _ => v.effects@.len() == 0,
        },
{
    assert(crate::render::shape_visuals::effect_views(v.effects@).len() == v.effects@.len());
    let own = props.effect_list matches Some(l) && l.effects@.len() > 0;
    if own {
        shadows_are_painted(v.effects@, (props.effect_list->0).effects@, ctx@);
    } else if let (Some(e), Some(t)) = (effect, ctx.theme) {
        if 1 <= e.idx <= t.effect_styles@.len() {
            shadows_are_painted(v.effects@, t.effect_styles@[e.idx - 1].effects@, ctx@);
        }
    }
}

/// A shadow is cast to the right at no angle, down at a quarter of a turn, to
/// the left at a half and up at three quarters, however many turns are added.
pub proof fn a_shadow_turns_clockwise_from_the_right(
    e: &ResolvedEffect,
    turns: int,
    r: Option<Offset<Emu>>,
)
    requires
        call_ensures(ResolvedEffect::offset, (e,), r),
        e@.distance.value > i64::MIN,
    ensures
        e@.direction.value == 21_600_000 * turns ==> (r matches Some(o) && o.x.value
            == e@.distance.value && o.y.value == 0),
        e@.direction.value == 21_600_000 * turns + 5_400_000 ==> (r matches Some(o) && o.x.value
            == 0 && o.y.value == e@.distance.value),
        e@.direction.value == 21_600_000 * turns + 10_800_000 ==> (r matches Some(o) && o.x.value
            == -e@.distance.value && o.y.value == 0),
        e@.direction.value == 21_600_000 * turns + 16_200_000 ==> (r matches Some(o) && o.x.value
            == 0 && o.y.value == -e@.distance.value),
        e@.direction.value as int % 5_400_000 != 0 ==> r is None,
{
    let d = e@.distance.value as int;
    assert(1 * d == d && 0 * d == 0 && -1 * d == -d) by (nonlinear_arith);
}

} // verus!
