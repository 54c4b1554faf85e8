//! Preparing what is drawn: colours, fills, outlines, fonts and pages.
pub mod color;
pub mod draw_command;
pub mod error;
pub mod font_aliases;
pub mod font_db;
pub mod font_names;
pub mod fonts;
pub mod pages;
pub mod pixels;
pub mod shape_body;
pub mod shape_geometry;
pub mod shape_visuals;
pub mod words;
