//! The document model: geometry, colours, fills, run formatting, themes.
pub mod color;
pub mod drawing;
pub mod font;
pub mod geometry;
pub mod image;
pub mod run;
pub mod theme;
