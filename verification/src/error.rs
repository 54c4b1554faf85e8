//! Why a part cannot be read.
use vstd::prelude::*;

verus! {

/// Why a package or a part cannot be read.
#[derive(Debug, PartialEq, Eq)]
pub enum ParseError {
    /// The package is no archive, or one of its entries cannot be read.
    Container,
    /// The part is not well-formed, or holds no element.
    Malformed,
    /// An element that is read states something twice, leaves out what it
    /// must state, or holds what cannot be decoded.
    Schema,
    /// The package holds no part of this path.
    MissingPart(String),
}

} // verus!
