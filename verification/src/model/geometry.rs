//! Positions, sizes and transforms.
use vstd::prelude::*;

use crate::dimension::{Dimension, Emu, SixtieThousandthDeg};

verus! {

/// A position relative to an origin.
#[derive(Debug, PartialEq, Eq)]
pub struct Offset<U> {
    pub x: Dimension<U>,
    pub y: Dimension<U>,
}

impl<U> Clone for Offset<U> {
    fn clone(&self) -> (r: Self)
        ensures
            r == *self,
    {
        Offset { x: self.x, y: self.y }
    }
}

impl<U> Copy for Offset<U> {

}

/// A width and a height.
#[derive(Debug, PartialEq, Eq)]
pub struct Size<U> {
    pub width: Dimension<U>,
    pub height: Dimension<U>,
}

impl<U> Clone for Size<U> {
    fn clone(&self) -> (r: Self)
        ensures
            r == *self,
    {
        Size { width: self.width, height: self.height }
    }
}

impl<U> Copy for Size<U> {

}

/// A rectangle.
#[derive(Debug, PartialEq, Eq)]
pub struct Rect<U> {
    pub origin: Offset<U>,
    pub size: Size<U>,
}

impl<U> Clone for Rect<U> {
    fn clone(&self) -> (r: Self)
        ensures
            r == *self,
    {
        Rect { origin: self.origin, size: self.size }
    }
}

impl<U> Copy for Rect<U> {

}

/// Where a shape stands: an offset and an extent, turned about the centre and
/// flipped.
#[derive(Debug, Clone, Copy, PartialEq, Eq)]
pub struct Transform2D {
    pub rotation: Option<Dimension<SixtieThousandthDeg>>,
    pub flip_h: Option<bool>,
    pub flip_v: Option<bool>,
    pub offset: Option<Offset<Emu>>,
    pub extent: Option<Size<Emu>>,
}

} // verus!
