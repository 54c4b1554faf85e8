//! What is read of text documents.
use vstd::prelude::*;

use crate::docx::numbering::{numbering_from, LevelSuffix, NumberingDefinitions};
use crate::docx::run::{
    read_indentation, read_switch, read_word_run, FirstLineIndent, Indentation, Justification,
};
use crate::error::ParseError;
use crate::dml::color::parse_rgb;
use crate::laws::text_reading::{is_measure, number};
use crate::model::run::{Color, FontSlot, RunProperties, StrikeStyle, ThemeFontRef, VerticalAlign};
use crate::xml::event::opt_view;
use crate::xml::lenient::reads;
use crate::xml::query::{attr, child_named, children_named, element_name};
use crate::xml::tree::{Element, Node};

verus! {

/// Whether a switch is what the child of a name states: on where it says nothing
/// or one of three words, off where it says another, and unsaid without it.
pub open spec fn is_switch(e: Element, name: Seq<char>, b: Option<bool>) -> bool {
    match child_named(e, name) {
        None => b is None,
        Some(x) => match attr(x, "val"@) {
            None => b == Some(true),
            Some(v) => b is Some && (b == Some(true) <==> v == "1"@ || v == "true"@ || v == "on"@),
        },
    }
}

/// Whether a measure is what the child of a name states.
pub open spec fn is_value<U>(
    e: Element,
    name: Seq<char>,
    d: Option<crate::dimension::Dimension<U>>,
) -> bool {
    match child_named(e, name) {
        None => d is None,
        Some(x) => is_measure(x, "val"@, d),
    }
}

/// A switch is on unless it says otherwise.
pub proof fn a_switch_is_on_by_itself(e: &Element, r: Option<bool>, none: Option<bool>)
    requires
        call_ensures(read_switch, (Some(e),), r),
        call_ensures(read_switch, (None::<&Element>,), none),
    ensures
        none is None,
        r is Some,
        attr(*e, "val"@) is None ==> r == Some(true),
        attr(*e, "val"@) matches Some(v) ==> (r == Some(true) <==> v == "1"@ || v == "true"@ || v
            == "on"@),
{
}

/// An indentation is from the start and from the end, or else from the left and
/// from the right; a first line that hangs counts before one that is moved in.
pub proof fn an_indentation_is_read_by_its_names(e: &Element, r: Indentation)
    requires
        call_ensures(read_indentation, (e,), r),
    ensures
        number(*e, "start"@) is Some ==> is_measure(*e, "start"@, r.start),
        number(*e, "start"@) is None ==> is_measure(*e, "left"@, r.start),
        number(*e, "end"@) is Some ==> is_measure(*e, "end"@, r.end),
        number(*e, "end"@) is None ==> is_measure(*e, "right"@, r.end),
        number(*e, "hanging"@) matches Some(n) ==> (
        r.first_line matches Some(FirstLineIndent::Hanging(d)) && d.value == n),
        number(*e, "hanging"@) is None ==> {
            &&& number(*e, "firstLine"@) matches Some(n) ==> (
            r.first_line matches Some(FirstLineIndent::FirstLine(d)) && d.value == n)
            &&& number(*e, "firstLine"@) is None ==> r.first_line is None
        },
{
}

/// Whether a font is what two attributes of an element state.
pub open spec fn is_font(e: Element, name: Seq<char>, theme: Seq<char>, s: FontSlot) -> bool {
    &&& opt_view(s.explicit) == attr(e, name)
    &&& s.theme == reads::<ThemeFontRef>(attr(e, theme))
}

/// The formatting of a run is read by its names: its switches, its measures and a
/// font for each script.
pub proof fn a_run_is_read_by_its_names(e: &Element, p: RunProperties)
    requires
        call_ensures(read_word_run, (e,), p),
    ensures
        is_switch(*e, "b"@, p.bold),
        is_switch(*e, "i"@, p.italic),
        is_switch(*e, "caps"@, p.all_caps),
        is_switch(*e, "smallCaps"@, p.small_caps),
        is_value(*e, "sz"@, p.font_size),
        is_value(*e, "spacing"@, p.spacing),
        is_value(*e, "kern"@, p.kerning),
        p.drawing_color is None,
        child_named(*e, "vertAlign"@) is None ==> p.vertical_align is None,
        child_named(*e, "vertAlign"@) matches Some(x) ==> p.vertical_align == reads::<
            VerticalAlign,
        >(attr(x, "val"@)),
        child_named(*e, "rFonts"@) matches Some(f) ==> {
            &&& is_font(f, "ascii"@, "asciiTheme"@, p.fonts.ascii)
            &&& is_font(f, "hAnsi"@, "hAnsiTheme"@, p.fonts.high_ansi)
            &&& is_font(f, "eastAsia"@, "eastAsiaTheme"@, p.fonts.east_asian)
            &&& is_font(f, "cs"@, "cstheme"@, p.fonts.complex_script)
        },
        child_named(*e, "rFonts"@) is None ==> p.fonts.ascii.explicit is None
            && p.fonts.ascii.theme is None && p.fonts.east_asian.explicit is None
            && p.fonts.complex_script.explicit is None && p.fonts.high_ansi.explicit is None,
{
}

/// A run is struck through twice where it says so, or else once where it says so;
/// where it only denies it, not at all.
pub proof fn how_a_run_is_struck_through(
    e: &Element,
    single: Option<bool>,
    double: Option<bool>,
    p: RunProperties,
)
    requires
        call_ensures(read_word_run, (e,), p),
        is_switch(*e, "strike"@, single),
        is_switch(*e, "dstrike"@, double),
    ensures
        p.strike == Some(StrikeStyle::Double) <==> double == Some(true),
        p.strike == Some(StrikeStyle::Single) <==> double != Some(true) && single == Some(true),
        p.strike is None <==> double is None && single is None,
{
}

/// The colour of a run is the one it spells out, or what stands out by itself.
pub proof fn the_colour_of_a_run_is_spelled_out(
    e: &Element,
    x: Element,
    s: &str,
    rgb: Option<u32>,
    p: RunProperties,
)
    requires
        call_ensures(read_word_run, (e,), p),
        call_ensures(parse_rgb, (s,), rgb),
    ensures
        child_named(*e, "color"@) is None ==> p.color is None,
        child_named(*e, "color"@) == Some(x) ==> {
            &&& attr(x, "val"@) is None ==> p.color is None
            &&& attr(x, "val"@) == Some("auto"@) ==> p.color == Some(Color::Auto)
            &&& attr(x, "val"@) == Some(s@) && s@ != "auto"@ ==> match rgb {
                Some(v) => p.color == Some(Color::Rgb(v)),
                None => p.color is None,
            }
        },
{
}

/// Whether definitions were read of a root element that ends with an element of a
/// name.
pub open spec fn defined_behind(
    root: Element,
    d: NumberingDefinitions,
    e: Element,
    name: Seq<char>,
) -> bool {
    &&& call_ensures(
        numbering_from,
        (&Some(root),),
        Ok::<NumberingDefinitions, ParseError>(d),
    )
    &&& root.children@.len() > 0
    &&& root.children@.last() matches Node::Element(x) && *x == e
    &&& element_name(e) == Some(name)
}

/// A numbering is found by its id, the last of that id, with its levels in order.
/// A level without a number is the first.
pub proof fn a_numbering_is_found_by_its_id(
    root: Element,
    d: NumberingDefinitions,
    e: Element,
    id: i64,
    i: int,
)
    requires
        defined_behind(root, d, e, "abstractNum"@),
        number(e, "abstractNumId"@) == Some(id),
        0 <= i < children_named(e, "lvl"@).len(),
    ensures
        d.abstract_nums@.contains_key(id),
        ({
            let a = d.abstract_nums@[id];
            let x = children_named(e, "lvl"@)[i];
            &&& a.levels@.len() == children_named(e, "lvl"@).len()
            &&& reads::<u8>(attr(x, "ilvl"@)) matches Some(n) ==> a.levels@[i].level == n
            &&& reads::<u8>(attr(x, "ilvl"@)) is None ==> a.levels@[i].level == 0
            &&& is_level_read(x, a.levels@[i])
        }),
{
    assert(crate::docx::numbering::last_with_id(
        root.children@,
        "abstractNum"@,
        "abstractNumId"@,
        id,
    ) == Some(e));
    assert(d.abstract_nums@.contains_key(id));
    let a = d.abstract_nums@[id];
    assert(crate::docx::numbering::is_abstract(e, a));
    let x = children_named(e, "lvl"@)[i];
    assert(crate::docx::numbering::is_level(x, crate::docx::numbering::level_of(x), a.levels@[i]));
}

/// Whether a level has the format, the text, the first number, the suffix and the
/// rest that its element states, each under its own name.
pub open spec fn is_level_read(
    x: Element,
    l: crate::docx::numbering::NumberingLevelDefinition,
) -> bool {
    &&& match child_named(x, "numFmt"@) {
        Some(f) => l.format == reads::<crate::docx::numbering::NumberFormat>(attr(f, "val"@)),
        None => l.format is None,
    }
    &&& match child_named(x, "lvlText"@) {
        Some(t) => match attr(t, "val"@) {
            Some(s) => l.level_text@ == s,
            None => l.level_text@.len() == 0,
        },
        None => l.level_text@.len() == 0,
    }
    &&& match child_named(x, "start"@) {
        Some(s) => l.start == reads::<u32>(attr(s, "val"@)),
        None => l.start is None,
    }
    &&& match child_named(x, "lvlPicBulletId"@) {
        Some(b) => l.lvl_pic_bullet_id == number(b, "val"@),
        None => l.lvl_pic_bullet_id is None,
    }
    &&& match child_named(x, "suff"@) {
        Some(s) => match reads::<LevelSuffix>(attr(s, "val"@)) {
            Some(v) => l.suffix == v,
            None => l.suffix is Tab,
        },
        None => l.suffix is Tab,
    }
    &&& child_named(x, "isLgl"@) is None ==> !l.is_legal
    &&& is_switch(x, "isLgl"@, Some(true)) <==> l.is_legal
    &&& child_named(x, "rPr"@) is Some <==> l.run_properties is Some
    &&& match child_named(x, "pPr"@) {
        Some(p) => child_named(p, "ind"@) is Some <==> l.indentation is Some,
        None => l.indentation is None,
    }
}

/// An instance is found by its id, of the numbering that it names, with what it
/// changes in order. What it changes of a level is of the level that the change
/// is for.
pub proof fn an_instance_is_found_by_its_id(
    root: Element,
    d: NumberingDefinitions,
    e: Element,
    id: i64,
    i: int,
)
    requires
        defined_behind(root, d, e, "num"@),
        number(e, "numId"@) == Some(id),
        0 <= i < children_named(e, "lvlOverride"@).len(),
    ensures
        d.numbering_instances@.contains_key(id),
        ({
            let n = d.numbering_instances@[id];
            let x = children_named(e, "lvlOverride"@)[i];
            let o = n.level_overrides@[i];
            &&& n.level_overrides@.len() == children_named(e, "lvlOverride"@).len()
            &&& match child_named(e, "abstractNumId"@) {
                Some(a) => match number(a, "val"@) {
                    Some(v) => n.abstract_num_id == v,
                    None => n.abstract_num_id == 0,
                },
                None => n.abstract_num_id == 0,
            }
            &&& reads::<u8>(attr(x, "ilvl"@)) matches Some(k) ==> o.level == k
            &&& reads::<u8>(attr(x, "ilvl"@)) is None ==> o.level == 0
            &&& match child_named(x, "startOverride"@) {
                Some(s) => o.start_override == reads::<u32>(attr(s, "val"@)),
                None => o.start_override is None,
            }
            &&& match child_named(x, "lvl"@) {
                Some(l) => o.definition matches Some(v) && v.level == o.level && is_level_read(l, v),
                None => o.definition is None,
            }
        }),
{
    assert(crate::docx::numbering::last_with_id(root.children@, "num"@, "numId"@, id) == Some(e));
    assert(d.numbering_instances@.contains_key(id));
    let n = d.numbering_instances@[id];
    assert(crate::docx::numbering::is_instance(e, n));
    let x = children_named(e, "lvlOverride"@)[i];
    assert(crate::docx::numbering::is_override(x, n.level_overrides@[i]));
}

/// A picture for numbers is found by its id, and known to be there or not.
pub proof fn a_picture_for_numbers_is_found_by_its_id(
    root: Element,
    d: NumberingDefinitions,
    e: Element,
    id: i64,
)
    requires
        defined_behind(root, d, e, "numPicBullet"@),
        number(e, "numPicBulletId"@) == Some(id),
    ensures
        d.pic_bullets@.contains_key(id),
        d.pic_bullets@[id].id == id,
        d.pic_bullets@[id].has_pict <==> child_named(e, "pict"@) is Some,
{
    assert(crate::docx::numbering::last_with_id(
        root.children@,
        "numPicBullet"@,
        "numPicBulletId"@,
        id,
    ) == Some(e));
    assert(d.pic_bullets@.contains_key(id));
}

/// What stands behind the definitions of other ids does not change them: whether
/// there is one of an id is the same without it.
pub proof fn other_definitions_stay(
    few: Element,
    more: Element,
    a: NumberingDefinitions,
    b: NumberingDefinitions,
    n: Node,
    id: i64,
)
    requires
        call_ensures(numbering_from, (&Some(few),), Ok::<NumberingDefinitions, ParseError>(a)),
        call_ensures(numbering_from, (&Some(more),), Ok::<NumberingDefinitions, ParseError>(b)),
        more.children@ == few.children@.push(n),
    ensures
        few.children@.len() == 0 ==> !a.abstract_nums@.contains_key(id)
            && !a.numbering_instances@.contains_key(id) && !a.pic_bullets@.contains_key(id),
        !(n matches Node::Element(e) && element_name(*e) == Some("abstractNum"@) && number(
            *e,
            "abstractNumId"@,
        ) == Some(id)) ==> (a.abstract_nums@.contains_key(id) <==> b.abstract_nums@.contains_key(
            id,
        )),
        !(n matches Node::Element(e) && element_name(*e) == Some("num"@) && number(*e, "numId"@)
            == Some(id)) ==> (a.numbering_instances@.contains_key(id)
            <==> b.numbering_instances@.contains_key(id)),
        !(n matches Node::Element(e) && element_name(*e) == Some("numPicBullet"@) && number(
            *e,
            "numPicBulletId"@,
        ) == Some(id)) ==> (a.pic_bullets@.contains_key(id) <==> b.pic_bullets@.contains_key(id)),
{
    assert(more.children@.drop_last() =~= few.children@);
    let x = a.abstract_nums@.contains_key(id);
    let y = a.numbering_instances@.contains_key(id);
    let z = a.pic_bullets@.contains_key(id);
    let u = b.abstract_nums@.contains_key(id);
    let v = b.numbering_instances@.contains_key(id);
    let w = b.pic_bullets@.contains_key(id);
}

/// A level has the side that its number keeps to, the indentation of its paragraph
/// and the formatting of its own run.
pub proof fn a_level_is_set_as_stated(
    root: Element,
    d: NumberingDefinitions,
    e: Element,
    id: i64,
    i: int,
    pr: Element,
    ind: &Element,
    n: Indentation,
    run: &Element,
    p: RunProperties,
)
    requires
        defined_behind(root, d, e, "abstractNum"@),
        number(e, "abstractNumId"@) == Some(id),
        0 <= i < children_named(e, "lvl"@).len(),
        call_ensures(read_indentation, (ind,), n),
        call_ensures(read_word_run, (run,), p),
    ensures
        ({
            let x = children_named(e, "lvl"@)[i];
            let l = d.abstract_nums@[id].levels@[i];
            &&& child_named(x, "pPr"@) == Some(pr) && child_named(pr, "ind"@) == Some(*ind)
                ==> l.indentation == Some(n)
            &&& child_named(x, "lvlJc"@) is None ==> l.justification is None
            &&& child_named(x, "lvlJc"@) matches Some(j) ==> match reads::<Justification>(
                attr(j, "val"@),
            ) {
                Some(v) => l.justification == Some(v.value),
                None => l.justification is None,
            }
            &&& child_named(x, "rPr"@) == Some(*run) ==> (l.run_properties matches Some(q)
                && q.bold == p.bold && q.italic == p.italic && q.font_size == p.font_size && q.color
                == p.color && q.underline == p.underline && q.strike == p.strike)
        }),
{
    a_numbering_is_found_by_its_id(root, d, e, id, i);
    let a = d.abstract_nums@[id];
    assert(d.abstract_nums@.contains_key(id));
    assert(crate::docx::numbering::last_with_id(
        root.children@,
        "abstractNum"@,
        "abstractNumId"@,
        id,
    ) == Some(e));
    assert(crate::docx::numbering::is_abstract(e, a));
    let x = children_named(e, "lvl"@)[i];
    assert(crate::docx::numbering::is_level(x, crate::docx::numbering::level_of(x), a.levels@[i]));
}

} // verus!
