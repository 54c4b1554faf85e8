//! What a colour expression stands for: a colour of the theme or of its own,
//! and the transforms that still apply to it.
use vstd::prelude::*;
use std::rc::Rc;

use crate::model::color::{
    default_color_map, transforms_of, ColorMap, ColorTransform, DrawingColor, SchemeColorVal,
};
use crate::model::theme::{Theme, ThemeColorScheme};

verus! {

/// A colour: red, green and blue, and the transforms to apply to it in turn.
#[derive(Debug, PartialEq, Eq)]
pub struct ResolvedColor {
    pub rgb: u32,
    pub transforms: Rc<Vec<ColorTransform>>,
}

impl Clone for ResolvedColor {
    fn clone(&self) -> (r: Self)
        ensures
            r == *self,
    {
        ResolvedColor { rgb: self.rgb, transforms: self.transforms.clone() }
    }
}

/// What a colour holds.
pub struct Shade {
    pub rgb: u32,
    pub transforms: Seq<ColorTransform>,
}

impl View for ResolvedColor {
    type V = Shade;

    open spec fn view(&self) -> Shade {
        Shade { rgb: self.rgb, transforms: self.transforms@ }
    }
}

/// Black.
pub open spec fn black() -> Shade {
    Shade { rgb: 0, transforms: Seq::empty() }
}

impl ResolvedColor {
    /// Black.
    pub fn black() -> (r: Self)
        ensures
            r@ == black(),
    {
        let r: ResolvedColor = ResolvedColor { rgb: 0, transforms: Rc::new(Vec::new()) };
        assert(r.transforms@ =~= Seq::<ColorTransform>::empty());
        r
    }

    /// The given colour as it stands.
    pub fn from_rgb24(rgb: u32) -> (r: Self)
        ensures
            r@ == (Shade { rgb, transforms: Seq::empty() }),
    {
        let r: ResolvedColor = ResolvedColor { rgb, transforms: Rc::new(Vec::new()) };
        assert(r.transforms@ =~= Seq::<ColorTransform>::empty());
        r
    }
}

/// What a colour expression is resolved against.
pub struct DrawingColorContext<'a> {
    pub theme: Option<&'a Theme>,
    /// The colour map in force, where one is stated.
    pub color_map: Option<ColorMap>,
    /// The colour that stands for the placeholder colour.
    pub placeholder: Option<ResolvedColor>,
}

/// What a context holds.
pub struct Palette {
    pub scheme: Option<ThemeColorScheme>,
    pub color_map: Option<ColorMap>,
    pub placeholder: Option<Shade>,
}

impl<'a> View for DrawingColorContext<'a> {
    type V = Palette;

    open spec fn view(&self) -> Palette {
        Palette {
            scheme: match self.theme {
                Some(t) => Some(t.color_scheme),
                None => None,
            },
            color_map: self.color_map,
            placeholder: shade_of(self.placeholder),
        }
    }
}

impl<'a> Clone for DrawingColorContext<'a> {
    fn clone(&self) -> (r: Self)
        ensures
            r == *self,
    {
        let placeholder: Option<ResolvedColor> = self.placeholder.clone();
        assert(placeholder == self.placeholder);
        DrawingColorContext { theme: self.theme, color_map: self.color_map, placeholder }
    }
}

impl<'a> DrawingColorContext<'a> {
    /// A context with a theme alone.
    pub fn new(theme: Option<&'a Theme>) -> (r: Self)
        ensures
            r == (DrawingColorContext { theme, color_map: None, placeholder: None }),
    {
        DrawingColorContext { theme, color_map: None, placeholder: None }
    }

    /// The context with a colour map.
    pub fn with_color_map(self, color_map: Option<ColorMap>) -> (r: Self)
        ensures
            r == (DrawingColorContext { color_map, ..self }),
    {
        DrawingColorContext { theme: self.theme, color_map, placeholder: self.placeholder }
    }

    /// The context with a placeholder colour.
    pub fn with_placeholder(&self, color: ResolvedColor) -> (r: Self)
        ensures
            r == (DrawingColorContext { placeholder: Some(color), ..*self }),
    {
        DrawingColorContext {
            theme: self.theme,
            color_map: self.color_map,
            placeholder: Some(color),
        }
    }
}

/// The slot that a name stands for under a colour map.
pub open spec fn mapped(map: ColorMap, name: SchemeColorVal) -> SchemeColorVal {
    match name {
        SchemeColorVal::Bg1 => map.bg1,
        SchemeColorVal::Tx1 => map.tx1,
        SchemeColorVal::Bg2 => map.bg2,
        SchemeColorVal::Tx2 => map.tx2,
        SchemeColorVal::Accent1 => map.accent1,
        SchemeColorVal::Accent2 => map.accent2,
        SchemeColorVal::Accent3 => map.accent3,
        SchemeColorVal::Accent4 => map.accent4,
        SchemeColorVal::Accent5 => map.accent5,
        SchemeColorVal::Accent6 => map.accent6,
        SchemeColorVal::Hlink => map.hlink,
        SchemeColorVal::FolHlink => map.folink,
        _ => name,
    }
}

/// The slot that a name stands for under a colour map.
fn map_name(map: &ColorMap, name: SchemeColorVal) -> (r: SchemeColorVal)
    ensures
        r == mapped(*map, name),
{
    match name {
        SchemeColorVal::Bg1 => map.bg1,
        SchemeColorVal::Tx1 => map.tx1,
        SchemeColorVal::Bg2 => map.bg2,
        SchemeColorVal::Tx2 => map.tx2,
        SchemeColorVal::Accent1 => map.accent1,
        SchemeColorVal::Accent2 => map.accent2,
        SchemeColorVal::Accent3 => map.accent3,
        SchemeColorVal::Accent4 => map.accent4,
        SchemeColorVal::Accent5 => map.accent5,
        SchemeColorVal::Accent6 => map.accent6,
        SchemeColorVal::Hlink => map.hlink,
        SchemeColorVal::FolHlink => map.folink,
        _ => name,
    }
}

/// The colour in a slot of a theme.
pub open spec fn slot_color(scheme: ThemeColorScheme, slot: SchemeColorVal) -> u32 {
    match slot {
        SchemeColorVal::Dk1 => scheme.dark1,
        SchemeColorVal::Tx1 => scheme.dark1,
        SchemeColorVal::Lt1 => scheme.light1,
        SchemeColorVal::Bg1 => scheme.light1,
        SchemeColorVal::Dk2 => scheme.dark2,
        SchemeColorVal::Tx2 => scheme.dark2,
        SchemeColorVal::Lt2 => scheme.light2,
        SchemeColorVal::Bg2 => scheme.light2,
        SchemeColorVal::Accent1 => scheme.accent1,
        SchemeColorVal::Accent2 => scheme.accent2,
        SchemeColorVal::Accent3 => scheme.accent3,
        SchemeColorVal::Accent4 => scheme.accent4,
        SchemeColorVal::Accent5 => scheme.accent5,
        SchemeColorVal::Accent6 => scheme.accent6,
        SchemeColorVal::Hlink => scheme.hyperlink,
        SchemeColorVal::FolHlink => scheme.followed_hyperlink,
        SchemeColorVal::PhClr => 0,
    }
}

/// The colour in a slot of a theme.
fn read_slot(scheme: &ThemeColorScheme, slot: SchemeColorVal) -> (r: u32)
    ensures
        r == slot_color(*scheme, slot),
{
    match slot {
        SchemeColorVal::Dk1 => scheme.dark1,
        SchemeColorVal::Tx1 => scheme.dark1,
        SchemeColorVal::Lt1 => scheme.light1,
        SchemeColorVal::Bg1 => scheme.light1,
        SchemeColorVal::Dk2 => scheme.dark2,
        SchemeColorVal::Tx2 => scheme.dark2,
        SchemeColorVal::Lt2 => scheme.light2,
        SchemeColorVal::Bg2 => scheme.light2,
        SchemeColorVal::Accent1 => scheme.accent1,
        SchemeColorVal::Accent2 => scheme.accent2,
        SchemeColorVal::Accent3 => scheme.accent3,
        SchemeColorVal::Accent4 => scheme.accent4,
        SchemeColorVal::Accent5 => scheme.accent5,
        SchemeColorVal::Accent6 => scheme.accent6,
        SchemeColorVal::Hlink => scheme.hyperlink,
        SchemeColorVal::FolHlink => scheme.followed_hyperlink,
        SchemeColorVal::PhClr => 0,
    }
}

/// The colour that a name stands for. The placeholder colour is the one that
/// the context supplies, with its transforms; any other is the theme's, under
/// the colour map in force or else the usual one. What nothing supplies is
/// black.
pub open spec fn named_color(name: SchemeColorVal, palette: Palette) -> Shade {
    if name is PhClr {
        match palette.placeholder {
            Some(p) => p,
            None => black(),
        }
    } else {
        match palette.scheme {
            Some(s) => Shade {
                rgb: slot_color(
                    s,
                    mapped(
                        match palette.color_map {
                            Some(m) => m,
                            None => default_color_map(),
                        },
                        name,
                    ),
                ),
                transforms: Seq::empty(),
            },
            None => black(),
        }
    }
}

/// What an optional colour holds.
pub open spec fn shade_of(c: Option<ResolvedColor>) -> Option<Shade> {
    match c {
        Some(x) => Some(x@),
        None => None,
    }
}

/// What a colour expression stands for: the colour that it starts from, with
/// its own transforms behind those that the colour brings.
pub open spec fn resolved_color(c: DrawingColor, palette: Palette) -> Shade {
    let base = match c {
        DrawingColor::Srgb { rgb, transforms } => Shade { rgb, transforms: Seq::empty() },
        DrawingColor::Scheme { name, transforms } => named_color(name, palette),
    };
    Shade { rgb: base.rgb, transforms: base.transforms + transforms_of(c)@ }
}

/// Transforms, and others behind them.
fn chain(first: &Vec<ColorTransform>, second: &Vec<ColorTransform>) -> (r: Rc<Vec<ColorTransform>>)
    ensures
        r@ == first@ + second@,
{
    let mut out: Vec<ColorTransform> = Vec::new();
    let mut i: usize = 0;
    while i < first.len()
        invariant
            i <= first@.len(),
            out@ == first@.take(i as int),
        decreases first@.len() - i,
    {
        out.push(first[i]);
        assert(out@ =~= first@.take(i + 1));
        i = i + 1;
    }
    assert(first@.take(i as int) =~= first@);
    let mut k: usize = 0;
    assert(out@ =~= first@ + second@.take(0));
    while k < second.len()
        invariant
            k <= second@.len(),
            out@ == first@ + second@.take(k as int),
        decreases second@.len() - k,
    {
        out.push(second[k]);
        assert(out@ =~= first@ + second@.take(k + 1));
        k = k + 1;
    }
    assert(second@.take(k as int) =~= second@);
    Rc::new(out)
}

/// What a colour expression stands for.
pub fn resolve_drawing_color(c: &DrawingColor, ctx: &DrawingColorContext) -> (r: ResolvedColor)
    ensures
        r@ == resolved_color(*c, ctx@),
{
    let none: Vec<ColorTransform> = Vec::new();
    assert(none@ =~= Seq::<ColorTransform>::empty());
    match c {
        DrawingColor::Srgb { rgb, transforms } => {
            let transforms: Rc<Vec<ColorTransform>> = chain(&none, transforms);
            ResolvedColor { rgb: *rgb, transforms }
        },
        DrawingColor::Scheme { name, transforms } => {
            match name {
                SchemeColorVal::PhClr => {
                    match &ctx.placeholder {
                        Some(p) => ResolvedColor {
                            rgb: p.rgb,
                            transforms: chain(&p.transforms, transforms),
                        },
                        None => ResolvedColor { rgb: 0, transforms: chain(&none, transforms) },
                    }
                },
                _ => {
                    let rgb: u32 = match ctx.theme {
                        Some(t) => {
                            let map: ColorMap = match ctx.color_map {
                                Some(m) => m,
                                None => ColorMap::default(),
                            };
                            read_slot(&t.color_scheme, map_name(&map, *name))
                        },
                        None => 0,
                    };
                    ResolvedColor { rgb, transforms: chain(&none, transforms) }
                },
            }
        },
    }
}

} // verus!
