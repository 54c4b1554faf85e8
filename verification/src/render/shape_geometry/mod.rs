//! The outlines of shapes.
pub mod custom;
pub mod ellipse;
pub mod pen;
pub mod presets;
pub mod round_rect;
