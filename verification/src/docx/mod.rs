//! Reading word-processing documents.
pub mod numbering;
pub mod run;
