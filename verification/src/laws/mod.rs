//! What the operations of the library are for, told of their arguments and
//! results: each law follows from what the operations promise.
pub mod paint;
pub mod inheritance;
pub mod text_inheritance;
pub mod words;
pub mod reading;
pub mod text_reading;
pub mod placing;
pub mod slides;
pub mod drawing_reading;
pub mod shape_reading;
pub mod packages;
pub mod fonts;
pub mod layout;
pub mod outlines;
pub mod documents;
pub mod pictures;
pub mod parsing;
pub mod refusals;
pub mod details;
