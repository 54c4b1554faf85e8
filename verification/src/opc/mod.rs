//! Packages: parts by path, and the relationships between them.
pub mod archive;
pub mod contents;
pub mod path;
pub mod relationships;
