//! Fonts that a document carries with it.
use vstd::prelude::*;

verus! {

/// Which cut of a family an embedded font is.
#[derive(Debug, Clone, Copy, PartialEq, Eq, Hash, Structural)]
pub enum EmbeddedFontVariant {
    Regular,
    Bold,
    Italic,
    BoldItalic,
}

/// A font that a document carries.
#[derive(Debug)]
pub struct EmbeddedFont {
    pub family: String,
    pub variant: EmbeddedFontVariant,
    pub data: Vec<u8>,
}

/// What an embedded font holds.
pub struct EmbeddedFontView {
    pub family: Seq<char>,
    pub variant: EmbeddedFontVariant,
    pub data: Seq<u8>,
}

impl View for EmbeddedFont {
    type V = EmbeddedFontView;

    open spec fn view(&self) -> EmbeddedFontView {
        EmbeddedFontView { family: self.family@, variant: self.variant, data: self.data@ }
    }
}

/// What embedded fonts hold.
pub open spec fn font_views(fonts: Seq<EmbeddedFont>) -> Seq<EmbeddedFontView> {
    fonts.map_values(|f: EmbeddedFont| f@)
}

} // verus!
