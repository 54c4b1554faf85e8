//! The outline of a shape: its paths, scaled from the space in which they are
//! written onto the shape. All lengths are in EMU.
//!
//! A coordinate may name a guide. What the guides of a path come to is worked
//! out elsewhere and handed in with the path.
use vstd::prelude::*;

use crate::dimension::{
    divide, divide_nearest, hold, nearest, quotient, units, within_range, Dimension, Emu,
    SixtieThousandthDeg,
};
use crate::model::drawing::{
    AdjCoord, AdjPoint, CustomGeometry, PathCommand, PathDef, PathFillMode, TextRect,
};
use crate::model::geometry::{Offset, Rect, Size};
use crate::scan::str_eq;

verus! {

/// EMU in a point. Guides come in as many parts of a unit of their path.
pub const EMU_PER_POINT: i64 = 12_700;

/// What a guide comes to, in twelve-thousand-seven-hundredths of a unit of its
/// path.
#[derive(Debug)]
pub struct GuideValue {
    pub name: String,
    pub value: i64,
}

/// The value of a guide: the last under its name, where there is one.
pub open spec fn known_guide(values: Seq<GuideValue>, name: Seq<char>) -> Option<i64>
    decreases values.len(),
{
    if values.len() == 0 {
        None
    } else if values.last().name@ == name {
        Some(values.last().value)
    } else {
        known_guide(values.drop_last(), name)
    }
}

/// The value of a guide, and nothing where there is none under its name.
pub open spec fn guide(values: Seq<GuideValue>, name: Seq<char>) -> i64 {
    match known_guide(values, name) {
        Some(v) => v,
        None => 0,
    }
}

/// The value of a guide, where there is one under its name.
pub fn look_up_guide(values: &Vec<GuideValue>, name: &str) -> (r: Option<i64>)
    ensures
        r == known_guide(values@, name@),
{
    let mut i: usize = values.len();
    assert(values@.take(i as int) =~= values@);
    while i > 0
        invariant
            i <= values@.len(),
            known_guide(values@, name@) == known_guide(values@.take(i as int), name@),
        decreases i,
    {
        let ghost part = values@.take(i as int);
        assert(part.drop_last() =~= values@.take(i - 1));
        assert(part.last() == values@[i - 1]);
        let k: usize = i - 1;
        if str_eq(values[k].name.as_str(), name) {
            return Some(values[k].value);
        }
        i = k;
    }
    None
}

/// The value of a guide.
fn find_guide(values: &Vec<GuideValue>, name: &str) -> (r: i64)
    ensures
        r == guide(values@, name@),
{
    match look_up_guide(values, name) {
        Some(v) => v,
        None => 0,
    }
}

/// A length on a shape, from `value` parts of a unit of its path. A path with a
/// space of its own is scaled onto the shape. Without one, a unit is a point of
/// the shape itself. Where the shape has no length, everything falls together.
pub open spec fn on_axis(value: int, parts: int, declared: int, extent: int) -> int {
    if declared > 0 {
        nearest(value * extent, declared * parts)
    } else if extent > 0 {
        nearest(value * EMU_PER_POINT, parts)
    } else {
        nearest(value * extent, parts)
    }
}

/// A coordinate on a shape.
pub open spec fn coordinate(
    c: AdjCoord,
    values: Seq<GuideValue>,
    declared: int,
    extent: int,
) -> Dimension<Emu> {
    units(
        within_range(
            match c {
                AdjCoord::Lit(v) => on_axis(v as int, 1, declared, extent),
                AdjCoord::Guide(n) => on_axis(
                    guide(values, n@) as int,
                    EMU_PER_POINT as int,
                    declared,
                    extent,
                ),
            },
        ),
    )
}

/// A length on a shape.
fn scale(value: i64, parts: i64, declared: i64, extent: i64) -> (r: i128)
    requires
        1 <= parts <= EMU_PER_POINT,
    ensures
        r == on_axis(value as int, parts as int, declared as int, extent as int),
{
    let v: i128 = value as i128;
    let e: i128 = extent as i128;
    assert(-0x4000_0000_0000_0000_0000_0000_0000_0000 <= v * e
        <= 0x4000_0000_0000_0000_0000_0000_0000_0000) by (nonlinear_arith)
        requires
            -0x8000_0000_0000_0000 <= v <= 0x8000_0000_0000_0000,
            -0x8000_0000_0000_0000 <= e <= 0x8000_0000_0000_0000,
    ;
    if declared > 0 {
        let d: i128 = declared as i128;
        let p: i128 = parts as i128;
        assert(0 < d * p < 0x1_0000_0000_0000_0000_0000_0000) by (nonlinear_arith)
            requires
                0 < d <= 0x7fff_ffff_ffff_ffff,
                1 <= p <= 12_700,
        ;
        divide_nearest(v * e, d * p)
    } else if extent > 0 {
        let unit: i128 = EMU_PER_POINT as i128;
        assert(-0x4000_0000_0000_0000_0000_0000_0000_0000 <= v * unit
            <= 0x4000_0000_0000_0000_0000_0000_0000_0000) by (nonlinear_arith)
            requires
                -0x8000_0000_0000_0000 <= v <= 0x8000_0000_0000_0000,
                unit == 12_700,
        ;
        divide_nearest(v * unit, parts as i128)
    } else {
        divide_nearest(v * e, parts as i128)
    }
}

/// A coordinate on a shape.
fn read_coordinate(c: &AdjCoord, values: &Vec<GuideValue>, declared: i64, extent: i64) -> (r:
    Dimension<Emu>)
    ensures
        r == coordinate(*c, values@, declared as int, extent as int),
{
    match c {
        AdjCoord::Lit(v) => Dimension::new(hold(scale(*v, 1, declared, extent))),
        AdjCoord::Guide(n) => Dimension::new(
            hold(
                scale(find_guide(values, n.as_str()), EMU_PER_POINT, declared, extent),
            ),
        ),
    }
}

/// An angle, which is never scaled.
pub open spec fn angle(c: AdjCoord, values: Seq<GuideValue>) -> Dimension<SixtieThousandthDeg> {
    units(
        match c {
            AdjCoord::Lit(v) => v,
            AdjCoord::Guide(n) => quotient(
                guide(values, n@) as int,
                EMU_PER_POINT as int,
            ) as i64,
        },
    )
}

/// An angle.
fn read_angle(c: &AdjCoord, values: &Vec<GuideValue>) -> (r: Dimension<SixtieThousandthDeg>)
    ensures
        r == angle(*c, values@),
{
    match c {
        AdjCoord::Lit(v) => Dimension::new(*v),
        AdjCoord::Guide(n) => Dimension::new(divide(find_guide(values, n.as_str()), EMU_PER_POINT)),
    }
}

/// A step of an outline on a shape.
#[derive(Debug, Clone, Copy, PartialEq, Eq)]
pub enum PathVerb {
    MoveTo(Offset<Emu>),
    LineTo(Offset<Emu>),
    QuadTo(Offset<Emu>, Offset<Emu>),
    CubicTo(Offset<Emu>, Offset<Emu>, Offset<Emu>),
    ArcTo {
        radii: Size<Emu>,
        start_angle: Dimension<SixtieThousandthDeg>,
        swing_angle: Dimension<SixtieThousandthDeg>,
    },
    Close,
}

/// A path of an outline.
#[derive(Debug)]
pub struct SubPath {
    pub verbs: Vec<PathVerb>,
    pub fill_mode: PathFillMode,
    pub stroked: bool,
}

/// The outline of a shape, and the box for its text.
#[derive(Debug)]
pub struct ShapePath {
    pub paths: Vec<SubPath>,
    pub text_rect: Option<Rect<Emu>>,
}

/// The space of a path, and the shape onto which it is scaled.
#[derive(Debug, Clone, Copy, PartialEq, Eq)]
pub struct PathSpace {
    pub declared: Size<Emu>,
    pub extent: Size<Emu>,
}

/// The space of a path.
pub open spec fn space_of(path: PathDef, extent: Size<Emu>) -> PathSpace {
    PathSpace { declared: Size { width: path.w, height: path.h }, extent }
}

/// A coordinate from left to right.
pub open spec fn across(c: AdjCoord, values: Seq<GuideValue>, s: PathSpace) -> Dimension<Emu> {
    coordinate(c, values, s.declared.width.value as int, s.extent.width.value as int)
}

/// A coordinate from top to bottom.
pub open spec fn down(c: AdjCoord, values: Seq<GuideValue>, s: PathSpace) -> Dimension<Emu> {
    coordinate(c, values, s.declared.height.value as int, s.extent.height.value as int)
}

/// A point on a shape.
pub open spec fn point(p: AdjPoint, values: Seq<GuideValue>, s: PathSpace) -> Offset<Emu> {
    Offset { x: across(p.x, values, s), y: down(p.y, values, s) }
}

/// A point on a shape.
fn read_point(p: &AdjPoint, values: &Vec<GuideValue>, s: PathSpace) -> (r: Offset<Emu>)
    ensures
        r == point(*p, values@, s),
{
    Offset {
        x: read_coordinate(&p.x, values, s.declared.width.raw(), s.extent.width.raw()),
        y: read_coordinate(&p.y, values, s.declared.height.raw(), s.extent.height.raw()),
    }
}

/// A step of an outline.
pub open spec fn verb(c: PathCommand, values: Seq<GuideValue>, s: PathSpace) -> PathVerb {
    match c {
        PathCommand::MoveTo(p) => PathVerb::MoveTo(point(p, values, s)),
        PathCommand::LineTo(p) => PathVerb::LineTo(point(p, values, s)),
        PathCommand::QuadBezTo(c, p) => PathVerb::QuadTo(point(c, values, s), point(p, values, s)),
        PathCommand::CubicBezTo(c1, c2, p) => PathVerb::CubicTo(
            point(c1, values, s),
            point(c2, values, s),
            point(p, values, s),
        ),
        PathCommand::ArcTo { wr, hr, start_angle, swing_angle } => PathVerb::ArcTo {
            radii: Size { width: across(wr, values, s), height: down(hr, values, s) },
            start_angle: angle(start_angle, values),
            swing_angle: angle(swing_angle, values),
        },
        PathCommand::Close => PathVerb::Close,
    }
}

/// A step of an outline.
fn read_verb(c: &PathCommand, values: &Vec<GuideValue>, s: PathSpace) -> (r: PathVerb)
    ensures
        r == verb(*c, values@, s),
{
    match c {
        PathCommand::MoveTo(p) => PathVerb::MoveTo(read_point(p, values, s)),
        PathCommand::LineTo(p) => PathVerb::LineTo(read_point(p, values, s)),
        PathCommand::QuadBezTo(c, p) => PathVerb::QuadTo(
            read_point(c, values, s),
            read_point(p, values, s),
        ),
        PathCommand::CubicBezTo(c1, c2, p) => PathVerb::CubicTo(
            read_point(c1, values, s),
            read_point(c2, values, s),
            read_point(p, values, s),
        ),
        PathCommand::ArcTo { wr, hr, start_angle, swing_angle } => PathVerb::ArcTo {
            radii: Size {
                width: read_coordinate(wr, values, s.declared.width.raw(), s.extent.width.raw()),
                height: read_coordinate(
                    hr,
                    values,
                    s.declared.height.raw(),
                    s.extent.height.raw(),
                ),
            },
            start_angle: read_angle(start_angle, values),
            swing_angle: read_angle(swing_angle, values),
        },
        PathCommand::Close => PathVerb::Close,
    }
}

/// The steps of an outline.
pub open spec fn verbs_of(
    commands: Seq<PathCommand>,
    values: Seq<GuideValue>,
    s: PathSpace,
) -> Seq<PathVerb> {
    commands.map_values(|c: PathCommand| verb(c, values, s))
}

/// Whether a path of an outline is one as it is written, scaled onto a shape.
pub open spec fn is_subpath(
    sub: SubPath,
    path: PathDef,
    values: Seq<GuideValue>,
    extent: Size<Emu>,
) -> bool {
    &&& sub.verbs@ == verbs_of(path.commands@, values, space_of(path, extent))
    &&& sub.fill_mode == path.fill
    &&& sub.stroked == path.stroke
}

/// A path, scaled onto a shape.
fn build_subpath(path: &PathDef, values: &Vec<GuideValue>, extent: Size<Emu>) -> (r: SubPath)
    ensures
        is_subpath(r, *path, values@, extent),
{
    let s: PathSpace = PathSpace { declared: Size { width: path.w, height: path.h }, extent };
    let ghost all = verbs_of(path.commands@, values@, s);
    let mut verbs: Vec<PathVerb> = Vec::new();
    let mut i: usize = 0;
    while i < path.commands.len()
        invariant
            i <= path.commands@.len(),
            all == verbs_of(path.commands@, values@, s),
            verbs@ == all.take(i as int),
        decreases path.commands@.len() - i,
    {
        verbs.push(read_verb(&path.commands[i], values, s));
        assert(verbs@ =~= all.take(i + 1));
        i = i + 1;
    }
    assert(all.take(i as int) =~= all);
    SubPath { verbs, fill_mode: path.fill, stroked: path.stroke }
}

/// The length from one coordinate to another, and at least nothing.
pub open spec fn span(from: Dimension<Emu>, to: Dimension<Emu>) -> Dimension<Emu> {
    units(
        if to.value > from.value {
            within_range(to.value - from.value)
        } else {
            0
        },
    )
}

/// The length from one coordinate to another.
fn read_span(from: Dimension<Emu>, to: Dimension<Emu>) -> (r: Dimension<Emu>)
    ensures
        r == span(from, to),
{
    if to.raw() > from.raw() {
        Dimension::new(hold(to.raw() as i128 - from.raw() as i128))
    } else {
        Dimension::new(0)
    }
}

/// The box for the text of a shape.
pub open spec fn text_box(rect: TextRect, values: Seq<GuideValue>, s: PathSpace) -> Rect<Emu> {
    let l = across(rect.left, values, s);
    let t = down(rect.top, values, s);
    let r = across(rect.right, values, s);
    let b = down(rect.bottom, values, s);
    Rect { origin: Offset { x: l, y: t }, size: Size { width: span(l, r), height: span(t, b) } }
}

/// The box for the text of a shape.
fn resolve_text_rect(rect: &TextRect, path: &PathDef, values: &Vec<GuideValue>, extent: Size<Emu>) -> (r:
    Rect<Emu>)
    ensures
        r == text_box(*rect, values@, space_of(*path, extent)),
{
    let w: i64 = path.w.raw();
    let h: i64 = path.h.raw();
    let l: Dimension<Emu> = read_coordinate(&rect.left, values, w, extent.width.raw());
    let t: Dimension<Emu> = read_coordinate(&rect.top, values, h, extent.height.raw());
    let r: Dimension<Emu> = read_coordinate(&rect.right, values, w, extent.width.raw());
    let b: Dimension<Emu> = read_coordinate(&rect.bottom, values, h, extent.height.raw());
    Rect {
        origin: Offset { x: l, y: t },
        size: Size { width: read_span(l, r), height: read_span(t, b) },
    }
}

/// Whether an outline is that of a geometry on a shape. The box for text is that
/// of the first path's space.
pub open spec fn is_outline(
    o: ShapePath,
    geom: CustomGeometry,
    extent: Size<Emu>,
    guides: Seq<Vec<GuideValue>>,
) -> bool {
    &&& o.paths@.len() == geom.paths@.len()
    &&& forall|i: int|
        0 <= i < o.paths@.len() ==> is_subpath(
            #[trigger] o.paths@[i],
            geom.paths@[i],
            guides[i]@,
            extent,
        )
    &&& o.text_rect == match geom.rect {
        Some(rect) => Some(text_box(rect, guides[0]@, space_of(geom.paths@[0], extent))),
        None => None,
    }
}

/// The outline of a shape with a geometry, given what the guides of each path
/// come to. A geometry without paths has none.
pub fn build_custom(geom: &CustomGeometry, extent: Size<Emu>, guides: &Vec<Vec<GuideValue>>) -> (r:
    Option<ShapePath>)
    requires
        guides@.len() == geom.paths@.len(),
    ensures
        match r {
            Some(o) => geom.paths@.len() > 0 && is_outline(o, *geom, extent, guides@),
            None => geom.paths@.len() == 0,
        },
{
    if geom.paths.len() == 0 {
        return None;
    }
    let mut paths: Vec<SubPath> = Vec::new();
    let mut i: usize = 0;
    while i < geom.paths.len()
        invariant
            i <= geom.paths@.len(),
            guides@.len() == geom.paths@.len(),
            paths@.len() == i,
            forall|k: int|
                0 <= k < i ==> is_subpath(
                    #[trigger] paths@[k],
                    geom.paths@[k],
                    guides@[k]@,
                    extent,
                ),
        decreases geom.paths@.len() - i,
    {
        paths.push(build_subpath(&geom.paths[i], &guides[i], extent));
        i = i + 1;
    }
    let text_rect: Option<Rect<Emu>> = match &geom.rect {
        Some(rect) => Some(resolve_text_rect(rect, &geom.paths[0], &guides[0], extent)),
        None => None,
    };
    Some(ShapePath { paths, text_rect })
}

/// A path's own width becomes the shape's, and its origin stays one: what a path
/// with a space of its own is drawn from end to end, is drawn from end to end of
/// the shape.
pub proof fn a_path_fills_its_shape(declared: int, extent: int)
    requires
        0 < declared,
        0 <= extent,
    ensures
        on_axis(declared, 1, declared, extent) == extent,
        on_axis(0, 1, declared, extent) == 0,
{
    assert((2 * (declared * extent) + declared) / (2 * declared) == extent) by (nonlinear_arith)
        requires
            0 < declared,
            0 <= extent,
    ;
    assert(declared / (2 * declared) == 0) by (nonlinear_arith)
        requires
            0 < declared,
    ;
    assert(0 * extent == 0) by (nonlinear_arith);
}

/// In a path without a space of its own a guide is what it comes to on the
/// shape.
pub proof fn a_guide_in_the_shapes_own_space(value: int, extent: int)
    requires
        0 < extent,
    ensures
        on_axis(value, EMU_PER_POINT as int, 0, extent) == value,
{
    let n = value * EMU_PER_POINT;
    assert(n == 12_700 * value) by (nonlinear_arith)
        requires
            n == value * EMU_PER_POINT,
            EMU_PER_POINT == 12_700,
    ;
    assert(2 * EMU_PER_POINT as int == 25_400);
    if value >= 0 {
        assert((25_400 * value + 12_700) / 25_400 == value);
    } else {
        assert((25_400 * -value + 12_700) / 25_400 == -value);
    }
}

/// A quarter of a turn.
pub const QUARTER_TURN: i64 = 5_400_000;

/// Half a turn.
pub const HALF_TURN: i64 = 10_800_000;

/// Three quarters of a turn.
pub const THREE_QUARTER_TURN: i64 = 16_200_000;

/// A point.
pub open spec fn at(x: int, y: int) -> Offset<Emu> {
    Offset { x: units(within_range(x)), y: units(within_range(y)) }
}

/// A point.
pub(crate) fn point_at(x: i128, y: i128) -> (r: Offset<Emu>)
    ensures
        r == at(x as int, y as int),
{
    Offset { x: Dimension::new(hold(x)), y: Dimension::new(hold(y)) }
}

/// An arc.
pub open spec fn arc(rx: int, ry: int, start: i64, swing: i64) -> PathVerb {
    PathVerb::ArcTo {
        radii: Size { width: units(within_range(rx)), height: units(within_range(ry)) },
        start_angle: units(start),
        swing_angle: units(swing),
    }
}

/// An arc.
pub(crate) fn arc_to(rx: i128, ry: i128, start: i64, swing: i64) -> (r: PathVerb)
    ensures
        r == arc(rx as int, ry as int, start, swing),
{
    PathVerb::ArcTo {
        radii: Size { width: Dimension::new(hold(rx)), height: Dimension::new(hold(ry)) },
        start_angle: Dimension::new(start),
        swing_angle: Dimension::new(swing),
    }
}

/// A box.
pub open spec fn box_at(x: int, y: int, w: int, h: int) -> Rect<Emu> {
    Rect {
        origin: at(x, y),
        size: Size { width: units(within_range(w)), height: units(within_range(h)) },
    }
}

/// A box.
pub(crate) fn rect_at(x: i128, y: i128, w: i128, h: i128) -> (r: Rect<Emu>)
    ensures
        r == box_at(x as int, y as int, w as int, h as int),
{
    Rect {
        origin: point_at(x, y),
        size: Size { width: Dimension::new(hold(w)), height: Dimension::new(hold(h)) },
    }
}

} // verus!
