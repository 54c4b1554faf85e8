//! Formatting as a word-processing document states it.
use vstd::prelude::*;

use crate::dimension::{Dimension, HalfPoints, Twips};
use crate::dml::color::{parse_rgb, rgb_value};
use crate::model::run::{
    Alignment, Color, FontSet, FontSlot, RunProperties, StrikeStyle, ThemeFontRef, UnderlineStyle,
    VerticalAlign,
};
use crate::scan::str_eq;
use crate::xml::event::opt_view;
use crate::xml::lenient::{is_true, opt_attr, opt_val_attr, reads, AttrValue};
use crate::xml::query::{attr, attribute, attribute_of, child, child_named, opt_attr_of};
use crate::xml::schema::{check_element, check_opt, conforms, element_at, opt_conforms};
use crate::xml::tree::Element;

verus! {

/// How a paragraph is aligned, as a word-processing document names it.
#[derive(Debug, Clone, Copy, PartialEq, Eq, Structural)]
pub struct Justification {
    pub value: Alignment,
}

impl AttrValue for Justification {
    open spec fn read(s: Seq<char>) -> Option<Justification> {
        if s == "left"@ {
            Some(Justification { value: Alignment::Start })
        } else if s == "start"@ {
            Some(Justification { value: Alignment::Start })
        } else if s == "center"@ {
            Some(Justification { value: Alignment::Center })
        } else if s == "right"@ {
            Some(Justification { value: Alignment::End })
        } else if s == "end"@ {
            Some(Justification { value: Alignment::End })
        } else if s == "both"@ {
            Some(Justification { value: Alignment::Both })
        } else if s == "distribute"@ {
            Some(Justification { value: Alignment::Distribute })
        } else if s == "thaiDistribute"@ {
            Some(Justification { value: Alignment::Thai })
        } else {
            None
        }
    }

    fn parse(s: &str) -> (r: Option<Justification>) {
        if str_eq(s, "left") {
            Some(Justification { value: Alignment::Start })
        } else if str_eq(s, "start") {
            Some(Justification { value: Alignment::Start })
        } else if str_eq(s, "center") {
            Some(Justification { value: Alignment::Center })
        } else if str_eq(s, "right") {
            Some(Justification { value: Alignment::End })
        } else if str_eq(s, "end") {
            Some(Justification { value: Alignment::End })
        } else if str_eq(s, "both") {
            Some(Justification { value: Alignment::Both })
        } else if str_eq(s, "distribute") {
            Some(Justification { value: Alignment::Distribute })
        } else if str_eq(s, "thaiDistribute") {
            Some(Justification { value: Alignment::Thai })
        } else {
            None
        }
    }
}

/// How a run is underlined, as a word-processing document names it.
#[derive(Debug, Clone, Copy, PartialEq, Eq, Structural)]
pub struct WordUnderline {
    pub value: UnderlineStyle,
}

impl AttrValue for WordUnderline {
    open spec fn read(s: Seq<char>) -> Option<WordUnderline> {
        if s == "none"@ {
            Some(WordUnderline { value: UnderlineStyle::NoUnderline })
        } else if s == "words"@ {
            Some(WordUnderline { value: UnderlineStyle::Words })
        } else if s == "single"@ {
            Some(WordUnderline { value: UnderlineStyle::Single })
        } else if s == "double"@ {
            Some(WordUnderline { value: UnderlineStyle::Double })
        } else if s == "thick"@ {
            Some(WordUnderline { value: UnderlineStyle::Thick })
        } else if s == "dotted"@ {
            Some(WordUnderline { value: UnderlineStyle::Dotted })
        } else if s == "dash"@ {
            Some(WordUnderline { value: UnderlineStyle::Dash })
        } else if s == "wave"@ {
            Some(WordUnderline { value: UnderlineStyle::Wave })
        } else {
            None
        }
    }

    fn parse(s: &str) -> (r: Option<WordUnderline>) {
        if str_eq(s, "none") {
            Some(WordUnderline { value: UnderlineStyle::NoUnderline })
        } else if str_eq(s, "words") {
            Some(WordUnderline { value: UnderlineStyle::Words })
        } else if str_eq(s, "single") {
            Some(WordUnderline { value: UnderlineStyle::Single })
        } else if str_eq(s, "double") {
            Some(WordUnderline { value: UnderlineStyle::Double })
        } else if str_eq(s, "thick") {
            Some(WordUnderline { value: UnderlineStyle::Thick })
        } else if str_eq(s, "dotted") {
            Some(WordUnderline { value: UnderlineStyle::Dotted })
        } else if str_eq(s, "dash") {
            Some(WordUnderline { value: UnderlineStyle::Dash })
        } else if str_eq(s, "wave") {
            Some(WordUnderline { value: UnderlineStyle::Wave })
        } else {
            None
        }
    }
}

impl AttrValue for VerticalAlign {
    open spec fn read(s: Seq<char>) -> Option<VerticalAlign> {
        if s == "superscript"@ {
            Some(VerticalAlign::Superscript)
        } else if s == "subscript"@ {
            Some(VerticalAlign::Subscript)
        } else {
            None
        }
    }

    fn parse(s: &str) -> (r: Option<VerticalAlign>) {
        if str_eq(s, "superscript") {
            Some(VerticalAlign::Superscript)
        } else if str_eq(s, "subscript") {
            Some(VerticalAlign::Subscript)
        } else {
            None
        }
    }
}

impl AttrValue for ThemeFontRef {
    open spec fn read(s: Seq<char>) -> Option<ThemeFontRef> {
        if s == "majorAscii"@ {
            Some(ThemeFontRef::MajorHAnsi)
        } else if s == "majorHAnsi"@ {
            Some(ThemeFontRef::MajorHAnsi)
        } else if s == "majorEastAsia"@ {
            Some(ThemeFontRef::MajorEastAsia)
        } else if s == "majorBidi"@ {
            Some(ThemeFontRef::MajorBidi)
        } else if s == "minorAscii"@ {
            Some(ThemeFontRef::MinorHAnsi)
        } else if s == "minorHAnsi"@ {
            Some(ThemeFontRef::MinorHAnsi)
        } else if s == "minorEastAsia"@ {
            Some(ThemeFontRef::MinorEastAsia)
        } else if s == "minorBidi"@ {
            Some(ThemeFontRef::MinorBidi)
        } else {
            None
        }
    }

    fn parse(s: &str) -> (r: Option<ThemeFontRef>) {
        if str_eq(s, "majorAscii") {
            Some(ThemeFontRef::MajorHAnsi)
        } else if str_eq(s, "majorHAnsi") {
            Some(ThemeFontRef::MajorHAnsi)
        } else if str_eq(s, "majorEastAsia") {
            Some(ThemeFontRef::MajorEastAsia)
        } else if str_eq(s, "majorBidi") {
            Some(ThemeFontRef::MajorBidi)
        } else if str_eq(s, "minorAscii") {
            Some(ThemeFontRef::MinorHAnsi)
        } else if str_eq(s, "minorHAnsi") {
            Some(ThemeFontRef::MinorHAnsi)
        } else if str_eq(s, "minorEastAsia") {
            Some(ThemeFontRef::MinorEastAsia)
        } else if str_eq(s, "minorBidi") {
            Some(ThemeFontRef::MinorBidi)
        } else {
            None
        }
    }
}

/// Whether a switch is on: an element that states no value is.
pub open spec fn switch(e: Option<Element>) -> Option<bool> {
    match e {
        Some(x) => match attr(x, "val"@) {
            Some(v) => Some(v == "1"@ || v == "true"@ || v == "on"@),
            None => Some(true),
        },
        None => None,
    }
}

/// Whether a switch is on.
pub fn read_switch(e: Option<&Element>) -> (r: Option<bool>)
    ensures
        r == switch(element_at(e)),
{
    match e {
        Some(x) => match attribute(x, "val") {
            Some(v) => Some(is_true(v.as_str())),
            None => Some(true),
        },
        None => None,
    }
}

/// The indent of a first line from the rest of its paragraph.
#[derive(Debug, Clone, Copy, PartialEq, Eq)]
pub enum FirstLineIndent {
    FirstLine(Dimension<Twips>),
    Hanging(Dimension<Twips>),
}

/// The indentation of a paragraph.
#[derive(Debug, Clone, Copy, PartialEq, Eq)]
pub struct Indentation {
    pub start: Option<Dimension<Twips>>,
    pub end: Option<Dimension<Twips>>,
    pub first_line: Option<FirstLineIndent>,
}

/// The value of the first of two names that has one.
pub open spec fn either(e: Element, name: Seq<char>, other: Seq<char>) -> Option<Dimension<Twips>> {
    match reads::<Dimension<Twips>>(attr(e, name)) {
        Some(v) => Some(v),
        None => reads(attr(e, other)),
    }
}

/// The value of the first of two names that has one.
fn read_either(e: &Element, name: &str, other: &str) -> (r: Option<Dimension<Twips>>)
    ensures
        r == either(*e, name@, other@),
{
    let own: Option<Dimension<Twips>> = opt_attr(e, name);
    match own {
        Some(v) => Some(v),
        None => opt_attr(e, other),
    }
}

/// The indentation that an `ind` element states. A hanging first line counts
/// before an indented one.
pub open spec fn indentation_in(e: Element) -> Indentation {
    Indentation {
        start: either(e, "start"@, "left"@),
        end: either(e, "end"@, "right"@),
        first_line: match reads::<Dimension<Twips>>(attr(e, "hanging"@)) {
            Some(v) => Some(FirstLineIndent::Hanging(v)),
            None => match reads::<Dimension<Twips>>(attr(e, "firstLine"@)) {
                Some(v) => Some(FirstLineIndent::FirstLine(v)),
                None => None,
            },
        },
    }
}

/// The indentation that an `ind` element states.
pub fn read_indentation(e: &Element) -> (r: Indentation)
    ensures
        r == indentation_in(*e),
{
    let hanging: Option<Dimension<Twips>> = opt_attr(e, "hanging");
    let indented: Option<Dimension<Twips>> = opt_attr(e, "firstLine");
    Indentation {
        start: read_either(e, "start", "left"),
        end: read_either(e, "end", "right"),
        first_line: match hanging {
            Some(v) => Some(FirstLineIndent::Hanging(v)),
            None => match indented {
                Some(v) => Some(FirstLineIndent::FirstLine(v)),
                None => None,
            },
        },
    }
}

/// The colour that a value states.
pub open spec fn color_of(value: Option<Seq<char>>) -> Option<Color> {
    match value {
        Some(s) => if s == "auto"@ {
            Some(Color::Auto)
        } else {
            match rgb_value(s) {
                Some(v) => Some(Color::Rgb(v as u32)),
                None => None,
            }
        },
        None => None,
    }
}

/// The colour that a value states.
fn read_word_color(e: Option<&Element>) -> (r: Option<Color>)
    ensures
        r == color_of(opt_attr_of(element_at(e), "val"@)),
{
    match attribute_of(e, "val") {
        Some(s) => if str_eq(s.as_str(), "auto") {
            Some(Color::Auto)
        } else {
            match parse_rgb(s.as_str()) {
                Some(v) => Some(Color::Rgb(v)),
                None => None,
            }
        },
        None => None,
    }
}

/// Whether a font slot is what two attributes state.
pub open spec fn is_word_slot(
    e: Option<Element>,
    name: Seq<char>,
    theme: Seq<char>,
    s: FontSlot,
) -> bool {
    &&& opt_view(s.explicit) == opt_attr_of(e, name)
    &&& s.theme == reads::<ThemeFontRef>(opt_attr_of(e, theme))
}

/// The font slot that two attributes state.
fn read_word_slot(e: Option<&Element>, name: &str, theme: &str) -> (s: FontSlot)
    ensures
        is_word_slot(element_at(e), name@, theme@, s),
{
    let named: Option<String> = attribute_of(e, theme);
    FontSlot {
        explicit: attribute_of(e, name),
        theme: match named {
            Some(t) => ThemeFontRef::parse(t.as_str()),
            None => None,
        },
    }
}

/// How a run is struck through, by its two switches.
pub open spec fn strike_of(single: Option<bool>, double: Option<bool>) -> Option<StrikeStyle> {
    if double == Some(true) {
        Some(StrikeStyle::Double)
    } else if single == Some(true) {
        Some(StrikeStyle::Single)
    } else if single is Some || double is Some {
        Some(StrikeStyle::NoStrike)
    } else {
        None
    }
}

/// Whether run formatting is what an `rPr` element states.
pub open spec fn is_word_run(e: Element, p: RunProperties) -> bool {
    let fonts = child_named(e, "rFonts"@);
    &&& is_word_slot(fonts, "ascii"@, "asciiTheme"@, p.fonts.ascii)
    &&& is_word_slot(fonts, "hAnsi"@, "hAnsiTheme"@, p.fonts.high_ansi)
    &&& is_word_slot(fonts, "eastAsia"@, "eastAsiaTheme"@, p.fonts.east_asian)
    &&& is_word_slot(fonts, "cs"@, "cstheme"@, p.fonts.complex_script)
    &&& p.font_size == reads::<Dimension<HalfPoints>>(
        opt_attr_of(child_named(e, "sz"@), "val"@),
    )
    &&& p.bold == switch(child_named(e, "b"@))
    &&& p.italic == switch(child_named(e, "i"@))
    &&& p.underline == match reads::<WordUnderline>(opt_attr_of(child_named(e, "u"@), "val"@)) {
        Some(u) => Some(u.value),
        None => None,
    }
    &&& p.strike == strike_of(
        switch(child_named(e, "strike"@)),
        switch(child_named(e, "dstrike"@)),
    )
    &&& p.color == color_of(opt_attr_of(child_named(e, "color"@), "val"@))
    &&& p.drawing_color is None
    &&& p.spacing == reads::<Dimension<Twips>>(
        opt_attr_of(child_named(e, "spacing"@), "val"@),
    )
    &&& p.kerning == reads::<Dimension<HalfPoints>>(
        opt_attr_of(child_named(e, "kern"@), "val"@),
    )
    &&& p.all_caps == switch(child_named(e, "caps"@))
    &&& p.small_caps == switch(child_named(e, "smallCaps"@))
    &&& p.vertical_align == reads::<VerticalAlign>(
        opt_attr_of(child_named(e, "vertAlign"@), "val"@),
    )
}

/// The run formatting that an `rPr` element states.
pub fn read_word_run(e: &Element) -> (p: RunProperties)
    ensures
        is_word_run(*e, p),
{
    let fonts: Option<&Element> = child(e, "rFonts");
    let underline: Option<WordUnderline> = opt_val_attr(e, "u");
    let single: Option<bool> = read_switch(child(e, "strike"));
    let double: Option<bool> = read_switch(child(e, "dstrike"));
    let strike: Option<StrikeStyle> = match (single, double) {
        (_, Some(true)) => Some(StrikeStyle::Double),
        (Some(true), _) => Some(StrikeStyle::Single),
        (None, None) => None,
        _ => Some(StrikeStyle::NoStrike),
    };
    RunProperties {
        fonts: FontSet {
            ascii: read_word_slot(fonts, "ascii", "asciiTheme"),
            high_ansi: read_word_slot(fonts, "hAnsi", "hAnsiTheme"),
            east_asian: read_word_slot(fonts, "eastAsia", "eastAsiaTheme"),
            complex_script: read_word_slot(fonts, "cs", "cstheme"),
        },
        font_size: opt_val_attr(e, "sz"),
        bold: read_switch(child(e, "b")),
        italic: read_switch(child(e, "i")),
        underline: match underline {
            Some(u) => Some(u.value),
            None => None,
        },
        strike,
        color: read_word_color(child(e, "color")),
        drawing_color: None,
        spacing: opt_val_attr(e, "spacing"),
        kerning: opt_val_attr(e, "kern"),
        all_caps: read_switch(child(e, "caps")),
        small_caps: read_switch(child(e, "smallCaps")),
        vertical_align: opt_val_attr(e, "vertAlign"),
    }
}

/// The names of the parts of run formatting that state one value each.
pub open spec fn run_values() -> Seq<Seq<char>> {
    seq![
        "sz"@,
        "b"@,
        "i"@,
        "u"@,
        "strike"@,
        "dstrike"@,
        "color"@,
        "spacing"@,
        "kern"@,
        "caps"@,
        "smallCaps"@,
        "vertAlign"@,
    ]
}

/// Whether an `rPr` element reads.
pub open spec fn word_run_reads(e: Element) -> bool {
    &&& conforms(
        e,
        seq![],
        seq![
            "rFonts",
            "sz",
            "b",
            "i",
            "u",
            "strike",
            "dstrike",
            "color",
            "spacing",
            "kern",
            "caps",
            "smallCaps",
            "vertAlign",
        ],
        seq![],
    )
    &&& opt_conforms(
        child_named(e, "rFonts"@),
        seq![
            "ascii",
            "hAnsi",
            "eastAsia",
            "cs",
            "asciiTheme",
            "hAnsiTheme",
            "eastAsiaTheme",
            "cstheme",
        ],
        seq![],
    )
    &&& forall|i: int|
        0 <= i < run_values().len() ==> opt_conforms(
            child_named(e, #[trigger] run_values()[i]),
            seq!["val"],
            seq![],
        )
}

/// Whether a part of formatting that states one value reads.
pub fn check_value(e: Option<&Element>) -> (r: bool)
    ensures
        r == opt_conforms(element_at(e), seq!["val"], seq![]),
{
    let known: [&str; 1] = ["val"];
    let none: [&str; 0] = [];
    assert(known@ =~= seq!["val"]);
    assert(none@ =~= seq![]);
    check_opt(e, &known, &none)
}

/// Whether an `rPr` element reads.
pub fn check_word_run(e: &Element) -> (r: bool)
    ensures
        r == word_run_reads(*e),
{
    let single: [&str; 13] = [
        "rFonts",
        "sz",
        "b",
        "i",
        "u",
        "strike",
        "dstrike",
        "color",
        "spacing",
        "kern",
        "caps",
        "smallCaps",
        "vertAlign",
    ];
    let fonts: [&str; 8] = [
        "ascii",
        "hAnsi",
        "eastAsia",
        "cs",
        "asciiTheme",
        "hAnsiTheme",
        "eastAsiaTheme",
        "cstheme",
    ];
    let none: [&str; 0] = [];
    assert(single@ =~= seq![
        "rFonts",
        "sz",
        "b",
        "i",
        "u",
        "strike",
        "dstrike",
        "color",
        "spacing",
        "kern",
        "caps",
        "smallCaps",
        "vertAlign",
    ]);
    assert(fonts@ =~= seq![
        "ascii",
        "hAnsi",
        "eastAsia",
        "cs",
        "asciiTheme",
        "hAnsiTheme",
        "eastAsiaTheme",
        "cstheme",
    ]);
    assert(none@ =~= seq![]);
    if !check_element(e, &none, &single, &none) || !check_opt(child(e, "rFonts"), &fonts, &none) {
        return false;
    }
    let mut i: usize = 1;
    while i < 13
        invariant
            1 <= i <= 13,
            single@.len() == 13,
            forall|k: int| 0 <= k < 12 ==> #[trigger] run_values()[k] == single@[k + 1]@,
            forall|k: int|
                0 <= k < i - 1 ==> opt_conforms(
                    child_named(*e, #[trigger] run_values()[k]),
                    seq!["val"],
                    seq![],
                ),
        decreases 13 - i,
    {
        let ok: bool = check_value(child(e, single[i]));
        assert(run_values()[i - 1] == single@[i as int]@);
        if !ok {
            assert(!opt_conforms(child_named(*e, run_values()[i - 1]), seq!["val"], seq![]));
            return false;
        }
        i = i + 1;
    }
    true
}

} // verus!
