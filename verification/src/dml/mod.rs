//! Reading of drawing elements: colours, fills, outlines and the properties
//! of shapes and of text boxes.
pub mod body;
pub mod color;
pub mod fill;
pub mod shape;
