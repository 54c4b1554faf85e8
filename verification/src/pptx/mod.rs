//! Presentations: slides, their shapes and their text, and what each takes
//! from the slide's layout and master.
pub mod cascade;
pub mod geometry;
pub mod media;
pub mod package;
pub mod shape_parse;
pub mod shape_read;
pub mod shapes;
pub mod text;
pub mod text_parse;
pub mod text_read;
pub mod textcascade;
pub mod turning;
pub mod upright;
