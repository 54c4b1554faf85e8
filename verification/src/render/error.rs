//! What can go wrong when pages are prepared.
use vstd::prelude::*;

verus! {

/// Why nothing can be prepared.
#[derive(Debug, Clone, Copy, PartialEq, Eq, Structural)]
pub enum RenderError {
    /// The host has no font at all, and the document carries none.
    NoFontsAvailable,
}

impl RenderError {
    /// What to tell the user.
    pub fn message(&self) -> (r: &'static str)
        ensures
            r@
                == "no fonts available on this system — install at least one font, or check that fontconfig is configured"@,
    {
        "no fonts available on this system — install at least one font, or check that fontconfig is configured"
    }
}

} // verus!
