pub mod dimension;
pub mod dml;
pub mod docx;
pub mod error;
pub mod laws;
pub mod model;
pub mod opc;
pub mod pptx;
pub mod render;
pub mod scan;
pub mod xml;
