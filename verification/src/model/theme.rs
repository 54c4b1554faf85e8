//! Themes: colour schemes, font schemes, and the lists of styles that shapes
//! refer to.
use vstd::prelude::*;

use crate::model::drawing::{DrawingFill, EffectList, Outline};

verus! {

/// A theme.
///
/// The style lists are counted from one by the references to them: entry 1 of
/// a list is its first.
#[derive(Debug)]
pub struct Theme {
    pub color_scheme: ThemeColorScheme,
    pub major_font: ThemeFontScheme,
    pub minor_font: ThemeFontScheme,
    /// The fills that shapes refer to.
    pub fill_styles: Vec<DrawingFill>,
    /// The fills that backgrounds refer to, from 1001 on.
    pub bg_fill_styles: Vec<DrawingFill>,
    /// The outlines that shapes refer to.
    pub line_styles: Vec<Outline>,
    /// The effects that shapes refer to.
    pub effect_styles: Vec<EffectList>,
}

impl Default for Theme {
    fn default() -> (r: Self)
        ensures
            r.fill_styles@.len() == 0,
            r.bg_fill_styles@.len() == 0,
            r.line_styles@.len() == 0,
            r.effect_styles@.len() == 0,
            r.color_scheme == no_colors(),
    {
        Theme {
            color_scheme: ThemeColorScheme::default(),
            major_font: ThemeFontScheme::default(),
            minor_font: ThemeFontScheme::default(),
            fill_styles: Vec::new(),
            bg_fill_styles: Vec::new(),
            line_styles: Vec::new(),
            effect_styles: Vec::new(),
        }
    }
}

/// The twelve colours of a theme, as red, green and blue.
#[derive(Debug, Clone, Copy, PartialEq, Eq)]
pub struct ThemeColorScheme {
    pub dark1: u32,
    pub light1: u32,
    pub dark2: u32,
    pub light2: u32,
    pub accent1: u32,
    pub accent2: u32,
    pub accent3: u32,
    pub accent4: u32,
    pub accent5: u32,
    pub accent6: u32,
    pub hyperlink: u32,
    pub followed_hyperlink: u32,
}

/// The scheme in which every colour is black.
pub open spec fn no_colors() -> ThemeColorScheme {
    ThemeColorScheme {
        dark1: 0,
        light1: 0,
        dark2: 0,
        light2: 0,
        accent1: 0,
        accent2: 0,
        accent3: 0,
        accent4: 0,
        accent5: 0,
        accent6: 0,
        hyperlink: 0,
        followed_hyperlink: 0,
    }
}

impl Default for ThemeColorScheme {
    fn default() -> (r: Self)
        ensures
            r == no_colors(),
    {
        ThemeColorScheme {
            dark1: 0,
            light1: 0,
            dark2: 0,
            light2: 0,
            accent1: 0,
            accent2: 0,
            accent3: 0,
            accent4: 0,
            accent5: 0,
            accent6: 0,
            hyperlink: 0,
            followed_hyperlink: 0,
        }
    }
}

/// The fonts of a theme, for headings or for text.
#[derive(Debug)]
pub struct ThemeFontScheme {
    pub latin: String,
    pub east_asian: String,
    pub complex_script: String,
    /// The fonts for single scripts.
    pub script_fonts: Vec<ThemeScriptFont>,
}

impl Default for ThemeFontScheme {
    fn default() -> (r: Self)
        ensures
            r.latin@.len() == 0,
            r.east_asian@.len() == 0,
            r.complex_script@.len() == 0,
            r.script_fonts@.len() == 0,
    {
        ThemeFontScheme {
            latin: String::new(),
            east_asian: String::new(),
            complex_script: String::new(),
            script_fonts: Vec::new(),
        }
    }
}

/// The font for one script.
#[derive(Debug)]
pub struct ThemeScriptFont {
    pub script: ScriptTag,
    pub typeface: String,
}

/// A script, by its ISO 15924 code.
#[derive(Debug, PartialEq, Eq, Hash)]
pub enum ScriptTag {
    Arab,
    Armn,
    Beng,
    Bopo,
    Bugi,
    Cans,
    Cher,
    Deva,
    Ethi,
    Geor,
    Gujr,
    Guru,
    Hang,
    Hans,
    Hant,
    Hebr,
    Java,
    Jpan,
    Khmr,
    Knda,
    Laoo,
    Lisu,
    Mlym,
    Mong,
    Mymr,
    Nkoo,
    Olck,
    Orya,
    Osma,
    Phag,
    Sinh,
    Sora,
    Syre,
    Syrj,
    Syrn,
    Syrc,
    Tale,
    Talu,
    Taml,
    Telu,
    Tfng,
    Thaa,
    Thai,
    Tibt,
    Uigh,
    Viet,
    Yiii,
    /// A code that is none of these.
    Other(String),
}

} // verus!
