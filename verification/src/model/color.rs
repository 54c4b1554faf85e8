//! Colours as a file states them.
use vstd::prelude::*;
use std::rc::Rc;

verus! {

/// A colour slot of a theme, or a name that a colour map leads to one.
#[derive(Debug, Clone, Copy, PartialEq, Eq, Structural)]
pub enum SchemeColorVal {
    Bg1,
    Tx1,
    Bg2,
    Tx2,
    Accent1,
    Accent2,
    Accent3,
    Accent4,
    Accent5,
    Accent6,
    Hlink,
    FolHlink,
    Dk1,
    Lt1,
    Dk2,
    Lt2,
    /// The colour that the reference to a theme style supplies.
    PhClr,
}

/// What a colour transform does to a colour.
#[derive(Debug, Clone, Copy, PartialEq, Eq, Structural)]
pub enum ColorTransformKind {
    Tint,
    Shade,
    Alpha,
    LumMod,
    LumOff,
    SatMod,
    SatOff,
    HueMod,
    HueOff,
}

/// One step of a colour expression, with its value in thousandths of a percent.
#[derive(Debug, Clone, Copy, PartialEq, Eq)]
pub struct ColorTransform {
    pub kind: ColorTransformKind,
    pub value: i64,
}

/// A colour expression: a base colour and the transforms applied to it in turn.
#[derive(Debug, PartialEq, Eq)]
pub enum DrawingColor {
    Srgb { rgb: u32, transforms: Rc<Vec<ColorTransform>> },
    Scheme { name: SchemeColorVal, transforms: Rc<Vec<ColorTransform>> },
}

impl Clone for DrawingColor {
    fn clone(&self) -> (r: Self)
        ensures
            r == *self,
    {
        match self {
            DrawingColor::Srgb { rgb, transforms } => DrawingColor::Srgb {
                rgb: *rgb,
                transforms: transforms.clone(),
            },
            DrawingColor::Scheme { name, transforms } => DrawingColor::Scheme {
                name: *name,
                transforms: transforms.clone(),
            },
        }
    }
}

/// The transforms of a colour expression.
pub open spec fn transforms_of(c: DrawingColor) -> Rc<Vec<ColorTransform>> {
    match c {
        DrawingColor::Srgb { rgb, transforms } => transforms,
        DrawingColor::Scheme { name, transforms } => transforms,
    }
}

impl DrawingColor {
    /// The colour with the given red, green and blue, as it stands.
    pub fn srgb(rgb: u32) -> (r: Self)
        ensures
            r matches DrawingColor::Srgb { rgb: v, transforms } && v == rgb && transforms@.len()
                == 0,
    {
        DrawingColor::Srgb { rgb, transforms: Rc::new(Vec::new()) }
    }

    /// A colour of the theme, as it stands.
    pub fn scheme(name: SchemeColorVal) -> (r: Self)
        ensures
            r matches DrawingColor::Scheme { name: v, transforms } && v == name && transforms@.len()
                == 0,
    {
        DrawingColor::Scheme { name, transforms: Rc::new(Vec::new()) }
    }

    /// The transforms, in the order in which they apply.
    pub fn transforms(&self) -> (r: &Vec<ColorTransform>)
        ensures
            *r == *transforms_of(*self),
    {
        match self {
            DrawingColor::Srgb { rgb: _, transforms } => transforms,
            DrawingColor::Scheme { name: _, transforms } => transforms,
        }
    }
}

/// Which theme slot each of the twelve colour names stands for.
#[derive(Debug, Clone, Copy, PartialEq, Eq)]
pub struct ColorMap {
    pub bg1: SchemeColorVal,
    pub tx1: SchemeColorVal,
    pub bg2: SchemeColorVal,
    pub tx2: SchemeColorVal,
    pub accent1: SchemeColorVal,
    pub accent2: SchemeColorVal,
    pub accent3: SchemeColorVal,
    pub accent4: SchemeColorVal,
    pub accent5: SchemeColorVal,
    pub accent6: SchemeColorVal,
    pub hlink: SchemeColorVal,
    pub folink: SchemeColorVal,
}

/// The usual colour map: dark text on a light background, every other name
/// its own slot.
pub open spec fn default_color_map() -> ColorMap {
    ColorMap {
        bg1: SchemeColorVal::Lt1,
        tx1: SchemeColorVal::Dk1,
        bg2: SchemeColorVal::Lt2,
        tx2: SchemeColorVal::Dk2,
        accent1: SchemeColorVal::Accent1,
        accent2: SchemeColorVal::Accent2,
        accent3: SchemeColorVal::Accent3,
        accent4: SchemeColorVal::Accent4,
        accent5: SchemeColorVal::Accent5,
        accent6: SchemeColorVal::Accent6,
        hlink: SchemeColorVal::Hlink,
        folink: SchemeColorVal::FolHlink,
    }
}

impl Default for ColorMap {
    fn default() -> (r: Self)
        ensures
            r == default_color_map(),
    {
        ColorMap {
            bg1: SchemeColorVal::Lt1,
            tx1: SchemeColorVal::Dk1,
            bg2: SchemeColorVal::Lt2,
            tx2: SchemeColorVal::Dk2,
            accent1: SchemeColorVal::Accent1,
            accent2: SchemeColorVal::Accent2,
            accent3: SchemeColorVal::Accent3,
            accent4: SchemeColorVal::Accent4,
            accent5: SchemeColorVal::Accent5,
            accent6: SchemeColorVal::Accent6,
            hlink: SchemeColorVal::Hlink,
            folink: SchemeColorVal::FolHlink,
        }
    }
}

} // verus!
