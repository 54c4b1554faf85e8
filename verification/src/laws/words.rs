//! The words that attributes hold.
use vstd::prelude::*;

use crate::docx::numbering::{LevelSuffix, NumberFormat};
use crate::docx::run::{Justification, WordUnderline};
use crate::model::color::SchemeColorVal;
use crate::model::drawing::{
    FontCollectionIndex, LineCap, PresetLineDashVal, TextAnchoringType, TextVertOverflow,
    TextVerticalType, TextWrappingType,
};
use crate::model::run::{Alignment, StrikeStyle, ThemeFontRef, UnderlineStyle, VerticalAlign};
use crate::pptx::text_read::TextCaps;
use crate::xml::lenient::AttrValue;

verus! {

/// The names of the colours of a theme. Any other word stands for nothing.
pub proof fn names_of_colours(s: &str, r: Option<SchemeColorVal>)
    requires
        call_ensures(<SchemeColorVal as AttrValue>::parse, (s,), r),
    ensures
        r == Some(SchemeColorVal::Bg1) ==> s@ == "bg1"@,
        r == Some(SchemeColorVal::Tx1) ==> s@ == "tx1"@,
        r == Some(SchemeColorVal::Bg2) ==> s@ == "bg2"@,
        r == Some(SchemeColorVal::Tx2) ==> s@ == "tx2"@,
        r == Some(SchemeColorVal::Accent1) ==> s@ == "accent1"@,
        r == Some(SchemeColorVal::Accent2) ==> s@ == "accent2"@,
        r == Some(SchemeColorVal::Accent3) ==> s@ == "accent3"@,
        r == Some(SchemeColorVal::Accent4) ==> s@ == "accent4"@,
        r == Some(SchemeColorVal::Accent5) ==> s@ == "accent5"@,
        r == Some(SchemeColorVal::Accent6) ==> s@ == "accent6"@,
        r == Some(SchemeColorVal::Hlink) ==> s@ == "hlink"@,
        r == Some(SchemeColorVal::FolHlink) ==> s@ == "folHlink"@,
        r == Some(SchemeColorVal::Dk1) ==> s@ == "dk1"@,
        r == Some(SchemeColorVal::Lt1) ==> s@ == "lt1"@,
        r == Some(SchemeColorVal::Dk2) ==> s@ == "dk2"@,
        r == Some(SchemeColorVal::Lt2) ==> s@ == "lt2"@,
        r == Some(SchemeColorVal::PhClr) ==> s@ == "phClr"@,
        s@ == "bg1"@ ==> r is Some,
        s@ == "tx1"@ ==> r is Some,
        s@ == "bg2"@ ==> r is Some,
        s@ == "tx2"@ ==> r is Some,
        s@ == "accent1"@ ==> r is Some,
        s@ == "accent2"@ ==> r is Some,
        s@ == "accent3"@ ==> r is Some,
        s@ == "accent4"@ ==> r is Some,
        s@ == "accent5"@ ==> r is Some,
        s@ == "accent6"@ ==> r is Some,
        s@ == "hlink"@ ==> r is Some,
        s@ == "folHlink"@ ==> r is Some,
        s@ == "dk1"@ ==> r is Some,
        s@ == "lt1"@ ==> r is Some,
        s@ == "dk2"@ ==> r is Some,
        s@ == "lt2"@ ==> r is Some,
        s@ == "phClr"@ ==> r is Some,
{
}

/// The words for where text stands in its box. Any other word stands for nothing.
pub proof fn words_for_anchors(s: &str, r: Option<TextAnchoringType>)
    requires
        call_ensures(<TextAnchoringType as AttrValue>::parse, (s,), r),
    ensures
        r == Some(TextAnchoringType::Top) ==> s@ == "t"@,
        r == Some(TextAnchoringType::Center) ==> s@ == "ctr"@,
        r == Some(TextAnchoringType::Bottom) ==> s@ == "b"@,
        r == Some(TextAnchoringType::Justified) ==> s@ == "just"@,
        r == Some(TextAnchoringType::Distributed) ==> s@ == "dist"@,
        s@ == "t"@ ==> r is Some,
        s@ == "ctr"@ ==> r is Some,
        s@ == "b"@ ==> r is Some,
        s@ == "just"@ ==> r is Some,
        s@ == "dist"@ ==> r is Some,
{
}

/// The words for the direction of text. Any other word stands for nothing.
pub proof fn words_for_directions(s: &str, r: Option<TextVerticalType>)
    requires
        call_ensures(<TextVerticalType as AttrValue>::parse, (s,), r),
    ensures
        r == Some(TextVerticalType::Horizontal) ==> s@ == "horz"@,
        r == Some(TextVerticalType::Vertical) ==> s@ == "vert"@,
        r == Some(TextVerticalType::Vertical270) ==> s@ == "vert270"@,
        r == Some(TextVerticalType::WordArtVertical) ==> s@ == "wordArtVert"@,
        r == Some(TextVerticalType::EastAsianVertical) ==> s@ == "eaVert"@,
        r == Some(TextVerticalType::MongolianVertical) ==> s@ == "mongolianVert"@,
        r == Some(TextVerticalType::WordArtVerticalRtl) ==> s@ == "wordArtVertRtl"@,
        s@ == "horz"@ ==> r is Some,
        s@ == "vert"@ ==> r is Some,
        s@ == "vert270"@ ==> r is Some,
        s@ == "wordArtVert"@ ==> r is Some,
        s@ == "eaVert"@ ==> r is Some,
        s@ == "mongolianVert"@ ==> r is Some,
        s@ == "wordArtVertRtl"@ ==> r is Some,
{
}

/// The words for whether lines are broken. Any other word stands for nothing.
pub proof fn words_for_wrapping(s: &str, r: Option<TextWrappingType>)
    requires
        call_ensures(<TextWrappingType as AttrValue>::parse, (s,), r),
    ensures
        r == Some(TextWrappingType::NoWrap) ==> s@ == "none"@,
        r == Some(TextWrappingType::Square) ==> s@ == "square"@,
        s@ == "none"@ ==> r is Some,
        s@ == "square"@ ==> r is Some,
{
}

/// The words for what becomes of text that is too high. Any other word stands for nothing.
pub proof fn words_for_overflow(s: &str, r: Option<TextVertOverflow>)
    requires
        call_ensures(<TextVertOverflow as AttrValue>::parse, (s,), r),
    ensures
        r == Some(TextVertOverflow::Overflow) ==> s@ == "overflow"@,
        r == Some(TextVertOverflow::Clip) ==> s@ == "clip"@,
        r == Some(TextVertOverflow::Ellipsis) ==> s@ == "ellipsis"@,
        s@ == "overflow"@ ==> r is Some,
        s@ == "clip"@ ==> r is Some,
        s@ == "ellipsis"@ ==> r is Some,
{
}

/// The words for the ends of a line. Any other word stands for nothing.
pub proof fn words_for_ends(s: &str, r: Option<LineCap>)
    requires
        call_ensures(<LineCap as AttrValue>::parse, (s,), r),
    ensures
        r == Some(LineCap::Flat) ==> s@ == "flat"@,
        r == Some(LineCap::Round) ==> s@ == "rnd"@,
        r == Some(LineCap::Square) ==> s@ == "sq"@,
        s@ == "flat"@ ==> r is Some,
        s@ == "rnd"@ ==> r is Some,
        s@ == "sq"@ ==> r is Some,
{
}

/// The names of dash patterns. Any other word stands for nothing.
pub proof fn names_of_dashes(s: &str, r: Option<PresetLineDashVal>)
    requires
        call_ensures(<PresetLineDashVal as AttrValue>::parse, (s,), r),
    ensures
        r == Some(PresetLineDashVal::Solid) ==> s@ == "solid"@,
        r == Some(PresetLineDashVal::Dot) ==> s@ == "dot"@,
        r == Some(PresetLineDashVal::Dash) ==> s@ == "dash"@,
        r == Some(PresetLineDashVal::LgDash) ==> s@ == "lgDash"@,
        r == Some(PresetLineDashVal::DashDot) ==> s@ == "dashDot"@,
        r == Some(PresetLineDashVal::LgDashDot) ==> s@ == "lgDashDot"@,
        r == Some(PresetLineDashVal::LgDashDotDot) ==> s@ == "lgDashDotDot"@,
        r == Some(PresetLineDashVal::SysDash) ==> s@ == "sysDash"@,
        r == Some(PresetLineDashVal::SysDot) ==> s@ == "sysDot"@,
        r == Some(PresetLineDashVal::SysDashDot) ==> s@ == "sysDashDot"@,
        r == Some(PresetLineDashVal::SysDashDotDot) ==> s@ == "sysDashDotDot"@,
        s@ == "solid"@ ==> r is Some,
        s@ == "dot"@ ==> r is Some,
        s@ == "dash"@ ==> r is Some,
        s@ == "lgDash"@ ==> r is Some,
        s@ == "dashDot"@ ==> r is Some,
        s@ == "lgDashDot"@ ==> r is Some,
        s@ == "lgDashDotDot"@ ==> r is Some,
        s@ == "sysDash"@ ==> r is Some,
        s@ == "sysDot"@ ==> r is Some,
        s@ == "sysDashDot"@ ==> r is Some,
        s@ == "sysDashDotDot"@ ==> r is Some,
{
}

/// The words for the fonts of a theme. Any other word stands for nothing.
pub proof fn words_for_font_collections(s: &str, r: Option<FontCollectionIndex>)
    requires
        call_ensures(<FontCollectionIndex as AttrValue>::parse, (s,), r),
    ensures
        r == Some(FontCollectionIndex::Major) ==> s@ == "major"@,
        r == Some(FontCollectionIndex::Minor) ==> s@ == "minor"@,
        r == Some(FontCollectionIndex::NoFont) ==> s@ == "none"@,
        s@ == "major"@ ==> r is Some,
        s@ == "minor"@ ==> r is Some,
        s@ == "none"@ ==> r is Some,
{
}

/// The words for how a numbered paragraph is aligned. Any other word stands for nothing.
pub proof fn words_for_justification(s: &str, r: Option<Justification>)
    requires
        call_ensures(<Justification as AttrValue>::parse, (s,), r),
    ensures
        r == Some((Justification { value: Alignment::Start })) ==> s@ == "left"@ || s@ == "start"@,
        r == Some((Justification { value: Alignment::Center })) ==> s@ == "center"@,
        r == Some((Justification { value: Alignment::End })) ==> s@ == "right"@ || s@ == "end"@,
        r == Some((Justification { value: Alignment::Both })) ==> s@ == "both"@,
        r == Some((Justification { value: Alignment::Distribute })) ==> s@ == "distribute"@,
        r == Some((Justification { value: Alignment::Thai })) ==> s@ == "thaiDistribute"@,
        s@ == "left"@ ==> r is Some,
        s@ == "start"@ ==> r is Some,
        s@ == "center"@ ==> r is Some,
        s@ == "right"@ ==> r is Some,
        s@ == "end"@ ==> r is Some,
        s@ == "both"@ ==> r is Some,
        s@ == "distribute"@ ==> r is Some,
        s@ == "thaiDistribute"@ ==> r is Some,
{
}

/// The words for how a run of a document is underlined. Any other word stands for nothing.
pub proof fn words_for_word_underlines(s: &str, r: Option<WordUnderline>)
    requires
        call_ensures(<WordUnderline as AttrValue>::parse, (s,), r),
    ensures
        r == Some((WordUnderline { value: UnderlineStyle::NoUnderline })) ==> s@ == "none"@,
        r == Some((WordUnderline { value: UnderlineStyle::Words })) ==> s@ == "words"@,
        r == Some((WordUnderline { value: UnderlineStyle::Single })) ==> s@ == "single"@,
        r == Some((WordUnderline { value: UnderlineStyle::Double })) ==> s@ == "double"@,
        r == Some((WordUnderline { value: UnderlineStyle::Thick })) ==> s@ == "thick"@,
        r == Some((WordUnderline { value: UnderlineStyle::Dotted })) ==> s@ == "dotted"@,
        r == Some((WordUnderline { value: UnderlineStyle::Dash })) ==> s@ == "dash"@,
        r == Some((WordUnderline { value: UnderlineStyle::Wave })) ==> s@ == "wave"@,
        s@ == "none"@ ==> r is Some,
        s@ == "words"@ ==> r is Some,
        s@ == "single"@ ==> r is Some,
        s@ == "double"@ ==> r is Some,
        s@ == "thick"@ ==> r is Some,
        s@ == "dotted"@ ==> r is Some,
        s@ == "dash"@ ==> r is Some,
        s@ == "wave"@ ==> r is Some,
{
}

/// The words for whether a run is raised or lowered. Any other word stands for nothing.
pub proof fn words_for_raising(s: &str, r: Option<VerticalAlign>)
    requires
        call_ensures(<VerticalAlign as AttrValue>::parse, (s,), r),
    ensures
        r == Some(VerticalAlign::Superscript) ==> s@ == "superscript"@,
        r == Some(VerticalAlign::Subscript) ==> s@ == "subscript"@,
        s@ == "superscript"@ ==> r is Some,
        s@ == "subscript"@ ==> r is Some,
{
}

/// The names of the fonts of a theme. Any other word stands for nothing.
pub proof fn names_of_theme_fonts(s: &str, r: Option<ThemeFontRef>)
    requires
        call_ensures(<ThemeFontRef as AttrValue>::parse, (s,), r),
    ensures
        r == Some(ThemeFontRef::MajorHAnsi) ==> s@ == "majorAscii"@ || s@ == "majorHAnsi"@,
        r == Some(ThemeFontRef::MajorEastAsia) ==> s@ == "majorEastAsia"@,
        r == Some(ThemeFontRef::MajorBidi) ==> s@ == "majorBidi"@,
        r == Some(ThemeFontRef::MinorHAnsi) ==> s@ == "minorAscii"@ || s@ == "minorHAnsi"@,
        r == Some(ThemeFontRef::MinorEastAsia) ==> s@ == "minorEastAsia"@,
        r == Some(ThemeFontRef::MinorBidi) ==> s@ == "minorBidi"@,
        s@ == "majorAscii"@ ==> r is Some,
        s@ == "majorHAnsi"@ ==> r is Some,
        s@ == "majorEastAsia"@ ==> r is Some,
        s@ == "majorBidi"@ ==> r is Some,
        s@ == "minorAscii"@ ==> r is Some,
        s@ == "minorHAnsi"@ ==> r is Some,
        s@ == "minorEastAsia"@ ==> r is Some,
        s@ == "minorBidi"@ ==> r is Some,
{
}

/// The names of number formats. Any other word stands for nothing.
pub proof fn names_of_number_formats(s: &str, r: Option<NumberFormat>)
    requires
        call_ensures(<NumberFormat as AttrValue>::parse, (s,), r),
    ensures
        r == Some(NumberFormat::Decimal) ==> s@ == "decimal"@,
        r == Some(NumberFormat::UpperRoman) ==> s@ == "upperRoman"@,
        r == Some(NumberFormat::LowerRoman) ==> s@ == "lowerRoman"@,
        r == Some(NumberFormat::UpperLetter) ==> s@ == "upperLetter"@,
        r == Some(NumberFormat::LowerLetter) ==> s@ == "lowerLetter"@,
        r == Some(NumberFormat::Ordinal) ==> s@ == "ordinal"@,
        r == Some(NumberFormat::CardinalText) ==> s@ == "cardinalText"@,
        r == Some(NumberFormat::OrdinalText) ==> s@ == "ordinalText"@,
        r == Some(NumberFormat::DecimalZero) ==> s@ == "decimalZero"@,
        r == Some(NumberFormat::Bullet) ==> s@ == "bullet"@,
        r == Some(NumberFormat::NoNumber) ==> s@ == "none"@,
        s@ == "decimal"@ ==> r is Some,
        s@ == "upperRoman"@ ==> r is Some,
        s@ == "lowerRoman"@ ==> r is Some,
        s@ == "upperLetter"@ ==> r is Some,
        s@ == "lowerLetter"@ ==> r is Some,
        s@ == "ordinal"@ ==> r is Some,
        s@ == "cardinalText"@ ==> r is Some,
        s@ == "ordinalText"@ ==> r is Some,
        s@ == "decimalZero"@ ==> r is Some,
        s@ == "bullet"@ ==> r is Some,
        s@ == "none"@ ==> r is Some,
{
}

/// The words for what follows a number. Any other word stands for nothing.
pub proof fn words_for_suffixes(s: &str, r: Option<LevelSuffix>)
    requires
        call_ensures(<LevelSuffix as AttrValue>::parse, (s,), r),
    ensures
        r == Some(LevelSuffix::Tab) ==> s@ == "tab"@,
        r == Some(LevelSuffix::Space) ==> s@ == "space"@,
        r == Some(LevelSuffix::Nothing) ==> s@ == "nothing"@,
        s@ == "tab"@ ==> r is Some,
        s@ == "space"@ ==> r is Some,
        s@ == "nothing"@ ==> r is Some,
{
}

/// The words for how a paragraph is aligned. Any other word stands for nothing.
pub proof fn words_for_alignment(s: &str, r: Option<Alignment>)
    requires
        call_ensures(<Alignment as AttrValue>::parse, (s,), r),
    ensures
        r == Some(Alignment::Start) ==> s@ == "l"@,
        r == Some(Alignment::Center) ==> s@ == "ctr"@,
        r == Some(Alignment::End) ==> s@ == "r"@,
        r == Some(Alignment::Both) ==> s@ == "just"@ || s@ == "justLow"@,
        r == Some(Alignment::Distribute) ==> s@ == "dist"@,
        r == Some(Alignment::Thai) ==> s@ == "thaiDist"@,
        s@ == "l"@ ==> r is Some,
        s@ == "ctr"@ ==> r is Some,
        s@ == "r"@ ==> r is Some,
        s@ == "just"@ ==> r is Some,
        s@ == "justLow"@ ==> r is Some,
        s@ == "dist"@ ==> r is Some,
        s@ == "thaiDist"@ ==> r is Some,
{
}

/// The words for how a run is underlined. Any other word stands for nothing.
pub proof fn words_for_underlines(s: &str, r: Option<UnderlineStyle>)
    requires
        call_ensures(<UnderlineStyle as AttrValue>::parse, (s,), r),
    ensures
        r == Some(UnderlineStyle::NoUnderline) ==> s@ == "none"@,
        r == Some(UnderlineStyle::Words) ==> s@ == "words"@,
        r == Some(UnderlineStyle::Single) ==> s@ == "sng"@,
        r == Some(UnderlineStyle::Double) ==> s@ == "dbl"@,
        r == Some(UnderlineStyle::Thick) ==> s@ == "heavy"@,
        r == Some(UnderlineStyle::Dotted) ==> s@ == "dotted"@,
        r == Some(UnderlineStyle::Dash) ==> s@ == "dash"@,
        r == Some(UnderlineStyle::Wave) ==> s@ == "wavy"@,
        s@ == "none"@ ==> r is Some,
        s@ == "words"@ ==> r is Some,
        s@ == "sng"@ ==> r is Some,
        s@ == "dbl"@ ==> r is Some,
        s@ == "heavy"@ ==> r is Some,
        s@ == "dotted"@ ==> r is Some,
        s@ == "dash"@ ==> r is Some,
        s@ == "wavy"@ ==> r is Some,
{
}

/// The words for how a run is struck through. Any other word stands for nothing.
pub proof fn words_for_strikes(s: &str, r: Option<StrikeStyle>)
    requires
        call_ensures(<StrikeStyle as AttrValue>::parse, (s,), r),
    ensures
        r == Some(StrikeStyle::NoStrike) ==> s@ == "noStrike"@,
        r == Some(StrikeStyle::Single) ==> s@ == "sngStrike"@,
        r == Some(StrikeStyle::Double) ==> s@ == "dblStrike"@,
        s@ == "noStrike"@ ==> r is Some,
        s@ == "sngStrike"@ ==> r is Some,
        s@ == "dblStrike"@ ==> r is Some,
{
}

/// The words for how letters are capitalised. Any other word stands for nothing.
pub proof fn words_for_capitals(s: &str, r: Option<TextCaps>)
    requires
        call_ensures(<TextCaps as AttrValue>::parse, (s,), r),
    ensures
        r == Some(TextCaps::NoCaps) ==> s@ == "none"@,
        r == Some(TextCaps::Small) ==> s@ == "small"@,
        r == Some(TextCaps::All) ==> s@ == "all"@,
        s@ == "none"@ ==> r is Some,
        s@ == "small"@ ==> r is Some,
        s@ == "all"@ ==> r is Some,
{
}

} // verus!
