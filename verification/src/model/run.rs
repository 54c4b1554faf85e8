//! Run formatting.
use vstd::prelude::*;

use crate::dimension::{Dimension, HalfPoints, Twips};
use crate::model::color::DrawingColor;

verus! {

/// How a paragraph is aligned.
#[derive(Debug, Clone, Copy, PartialEq, Eq, Structural)]
pub enum Alignment {
    Start,
    Center,
    End,
    Both,
    Distribute,
    Thai,
}

/// How a run is underlined.
#[derive(Debug, Clone, Copy, PartialEq, Eq, Structural)]
pub enum UnderlineStyle {
    NoUnderline,
    Words,
    Single,
    Double,
    Thick,
    Dotted,
    Dash,
    Wave,
}

/// How a run is struck through.
#[derive(Debug, Clone, Copy, PartialEq, Eq, Structural)]
pub enum StrikeStyle {
    NoStrike,
    Single,
    Double,
}

/// Whether a run is raised or lowered.
#[derive(Debug, Clone, Copy, PartialEq, Eq, Structural)]
pub enum VerticalAlign {
    Superscript,
    Subscript,
}

/// A font of the theme.
#[derive(Debug, Clone, Copy, PartialEq, Eq, Structural)]
pub enum ThemeFontRef {
    MajorHAnsi,
    MajorEastAsia,
    MajorBidi,
    MinorHAnsi,
    MinorEastAsia,
    MinorBidi,
}

/// The font for one class of characters: named, or of the theme.
#[derive(Debug, PartialEq, Eq)]
pub struct FontSlot {
    pub explicit: Option<String>,
    pub theme: Option<ThemeFontRef>,
}

impl Clone for FontSlot {
    fn clone(&self) -> (r: Self)
        ensures
            r == *self,
    {
        let explicit: Option<String> = self.explicit.clone();
        assert(explicit == self.explicit);
        FontSlot { explicit, theme: self.theme }
    }
}

/// A slot that names no font.
pub open spec fn unset_slot() -> FontSlot {
    FontSlot { explicit: None, theme: None }
}

impl Default for FontSlot {
    fn default() -> (r: Self)
        ensures
            r == unset_slot(),
    {
        FontSlot { explicit: None, theme: None }
    }
}

impl FontSlot {
    /// A slot that names a font by its family.
    pub fn from_name(name: String) -> (r: Self)
        ensures
            r == (FontSlot { explicit: Some(name), theme: None }),
    {
        FontSlot { explicit: Some(name), theme: None }
    }
}

/// The fonts of a run, one for each class of characters.
#[derive(Debug, PartialEq, Eq)]
pub struct FontSet {
    pub ascii: FontSlot,
    pub high_ansi: FontSlot,
    pub east_asian: FontSlot,
    pub complex_script: FontSlot,
}

impl Clone for FontSet {
    fn clone(&self) -> (r: Self)
        ensures
            r == *self,
    {
        FontSet {
            ascii: self.ascii.clone(),
            high_ansi: self.high_ansi.clone(),
            east_asian: self.east_asian.clone(),
            complex_script: self.complex_script.clone(),
        }
    }
}

/// A font set that names no font.
pub open spec fn unset_fonts() -> FontSet {
    FontSet {
        ascii: unset_slot(),
        high_ansi: unset_slot(),
        east_asian: unset_slot(),
        complex_script: unset_slot(),
    }
}

impl Default for FontSet {
    fn default() -> (r: Self)
        ensures
            r == unset_fonts(),
    {
        FontSet {
            ascii: FontSlot::default(),
            high_ansi: FontSlot::default(),
            east_asian: FontSlot::default(),
            complex_script: FontSlot::default(),
        }
    }
}

/// A text colour as `w:color` states it.
#[derive(Debug, Clone, Copy, PartialEq, Eq, Structural)]
pub enum Color {
    Auto,
    Rgb(u32),
}

/// The formatting of a run. `None` is what the file leaves unsaid.
#[derive(Debug, PartialEq, Eq)]
pub struct RunProperties {
    pub fonts: FontSet,
    pub font_size: Option<Dimension<HalfPoints>>,
    pub bold: Option<bool>,
    pub italic: Option<bool>,
    pub underline: Option<UnderlineStyle>,
    pub strike: Option<StrikeStyle>,
    pub color: Option<Color>,
    pub drawing_color: Option<DrawingColor>,
    pub spacing: Option<Dimension<Twips>>,
    pub kerning: Option<Dimension<HalfPoints>>,
    pub all_caps: Option<bool>,
    pub small_caps: Option<bool>,
    pub vertical_align: Option<VerticalAlign>,
}

impl Clone for RunProperties {
    fn clone(&self) -> (r: Self)
        ensures
            r == *self,
    {
        let drawing_color: Option<DrawingColor> = self.drawing_color.clone();
        assert(drawing_color == self.drawing_color);
        RunProperties {
            fonts: self.fonts.clone(),
            font_size: self.font_size,
            bold: self.bold,
            italic: self.italic,
            underline: self.underline,
            strike: self.strike,
            color: self.color,
            drawing_color,
            spacing: self.spacing,
            kerning: self.kerning,
            all_caps: self.all_caps,
            small_caps: self.small_caps,
            vertical_align: self.vertical_align,
        }
    }
}

/// Formatting that leaves everything unsaid.
pub open spec fn unset_run() -> RunProperties {
    RunProperties {
        fonts: unset_fonts(),
        font_size: None,
        bold: None,
        italic: None,
        underline: None,
        strike: None,
        color: None,
        drawing_color: None,
        spacing: None,
        kerning: None,
        all_caps: None,
        small_caps: None,
        vertical_align: None,
    }
}

impl Default for RunProperties {
    fn default() -> (r: Self)
        ensures
            r == unset_run(),
    {
        RunProperties {
            fonts: FontSet::default(),
            font_size: None,
            bold: None,
            italic: None,
            underline: None,
            strike: None,
            color: None,
            drawing_color: None,
            spacing: None,
            kerning: None,
            all_caps: None,
            small_caps: None,
            vertical_align: None,
        }
    }
}

/// A value, or where there is none the value it inherits.
pub open spec fn or<T>(own: Option<T>, base: Option<T>) -> Option<T> {
    if own is Some {
        own
    } else {
        base
    }
}

/// A font slot, or where it names no font the slot it inherits.
pub open spec fn slot_or(own: FontSlot, base: FontSlot) -> FontSlot {
    if own == unset_slot() {
        base
    } else {
        own
    }
}

/// Run formatting with what it leaves unsaid taken from `base`.
pub open spec fn merged(own: RunProperties, base: RunProperties) -> RunProperties {
    RunProperties {
        fonts: FontSet {
            ascii: slot_or(own.fonts.ascii, base.fonts.ascii),
            high_ansi: slot_or(own.fonts.high_ansi, base.fonts.high_ansi),
            east_asian: slot_or(own.fonts.east_asian, base.fonts.east_asian),
            complex_script: slot_or(own.fonts.complex_script, base.fonts.complex_script),
        },
        font_size: or(own.font_size, base.font_size),
        bold: or(own.bold, base.bold),
        italic: or(own.italic, base.italic),
        underline: or(own.underline, base.underline),
        strike: or(own.strike, base.strike),
        color: or(own.color, base.color),
        drawing_color: or(own.drawing_color, base.drawing_color),
        spacing: or(own.spacing, base.spacing),
        kerning: or(own.kerning, base.kerning),
        all_caps: or(own.all_caps, base.all_caps),
        small_caps: or(own.small_caps, base.small_caps),
        vertical_align: or(own.vertical_align, base.vertical_align),
    }
}

/// A value, or where there is none the value it inherits.
pub fn fill<T: Copy>(slot: &mut Option<T>, base: Option<T>)
    ensures
        *final(slot) == or(*old(slot), base),
{
    if slot.is_none() {
        *slot = base;
    }
}

/// A font slot, or where it names no font the slot it inherits.
fn fill_slot(slot: &mut FontSlot, base: &FontSlot)
    ensures
        *final(slot) == slot_or(*old(slot), *base),
{
    if slot.explicit.is_none() && slot.theme.is_none() {
        *slot = base.clone();
    }
}

/// Takes what a run's formatting leaves unsaid from `base`.
pub fn merge_run_properties(own: &mut RunProperties, base: &RunProperties)
    ensures
        *final(own) == merged(*old(own), *base),
{
    fill_slot(&mut own.fonts.ascii, &base.fonts.ascii);
    fill_slot(&mut own.fonts.high_ansi, &base.fonts.high_ansi);
    fill_slot(&mut own.fonts.east_asian, &base.fonts.east_asian);
    fill_slot(&mut own.fonts.complex_script, &base.fonts.complex_script);
    fill(&mut own.font_size, base.font_size);
    fill(&mut own.bold, base.bold);
    fill(&mut own.italic, base.italic);
    fill(&mut own.underline, base.underline);
    fill(&mut own.strike, base.strike);
    fill(&mut own.color, base.color);
    if own.drawing_color.is_none() {
        let inherited: Option<DrawingColor> = base.drawing_color.clone();
        assert(inherited == base.drawing_color);
        own.drawing_color = inherited;
    }
    fill(&mut own.spacing, base.spacing);
    fill(&mut own.kerning, base.kerning);
    fill(&mut own.all_caps, base.all_caps);
    fill(&mut own.small_caps, base.small_caps);
    fill(&mut own.vertical_align, base.vertical_align);
}

/// Inheriting from the nearer base first, and then from the farther, is to
/// inherit from the two merged.
pub proof fn merging_associates(own: RunProperties, near: RunProperties, far: RunProperties)
    ensures
        merged(merged(own, near), far) == merged(own, merged(near, far)),
{
}

/// Formatting that leaves nothing to inherit from, and inheriting from it,
/// change nothing.
pub proof fn merging_with_nothing(run: RunProperties)
    ensures
        merged(run, unset_run()) == run,
        merged(unset_run(), run) == run,
{
}

} // verus!
