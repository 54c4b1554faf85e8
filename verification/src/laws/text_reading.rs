//! What is read of text.
use vstd::prelude::*;

use crate::model::run::{FontSlot, RunProperties, ThemeFontRef, VerticalAlign};
use crate::pptx::text::{
    inline_text, AutoNumberScheme, Bullet, HyperlinkTarget, Inline, ListStyle, RunElement, Spacing,
    TextBody, TextParagraph, TextParagraphProperties,
};
use crate::pptx::text_read::{
    is_paragraph_properties, is_run_properties, pieces_in, read_list_style, read_paragraph,
    read_paragraph_properties, read_run_properties, read_text_body,
};
use crate::scan::trimmed;
use crate::xml::event::opt_view;
use crate::xml::lenient::reads;
use crate::xml::query::{attr, child_named, children_named, opt_attr_of, text_in};
use crate::xml::tree::{Element, Node};
use crate::laws::reading::is_element_called;

verus! {

/// The number that an attribute holds.
pub open spec fn number(e: Element, name: Seq<char>) -> Option<i64> {
    reads::<i64>(attr(e, name))
}

/// Whether a number is a measure in parts, given in parts so many times smaller,
/// with what is left over dropped.
pub open spec fn is_share(whole: int, parts: int, n: int) -> bool {
    &&& n >= 0 ==> parts * whole <= n < parts * whole + parts
    &&& n < 0 ==> parts * whole - parts < n <= parts * whole
}

/// The words for true and false, between white space or not.
pub open spec fn is_word_for(s: Option<Seq<char>>, b: Option<bool>) -> bool {
    &&& s is None ==> b is None
    &&& b == Some(true) ==> (s matches Some(v) && (trimmed(v) == "1"@ || trimmed(v) == "true"@
        || trimmed(v) == "on"@))
    &&& b == Some(false) ==> (s matches Some(v) && (trimmed(v) == "0"@ || trimmed(v) == "false"@
        || trimmed(v) == "off"@))
    &&& b is None ==> (s matches Some(v) ==> trimmed(v) != "1"@ && trimmed(v) != "true"@
        && trimmed(v) != "on"@ && trimmed(v) != "0"@ && trimmed(v) != "false"@ && trimmed(v)
        != "off"@)
}

/// A run whose baseline is above nothing is raised, one below it is lowered, and
/// any other stands where it stands.
pub proof fn a_baseline_raises_or_lowers(e: &Element, p: RunProperties)
    requires
        call_ensures(read_run_properties, (e,), p),
    ensures
        number(*e, "baseline"@) matches Some(n) ==> {
            &&& n > 0 ==> p.vertical_align == Some(VerticalAlign::Superscript)
            &&& n < 0 ==> p.vertical_align == Some(VerticalAlign::Subscript)
            &&& n == 0 ==> p.vertical_align is None
        },
        number(*e, "baseline"@) is None ==> p.vertical_align is None,
{
}

/// Sizes and kerning, stated in hundredths of a point, are read in halves, and
/// spacing in twentieths.
pub proof fn sizes_are_read_in_their_units(e: &Element, p: RunProperties)
    requires
        call_ensures(read_run_properties, (e,), p),
    ensures
        number(*e, "sz"@) is Some <==> p.font_size is Some,
        p.font_size matches Some(s) ==> is_share(s.value as int, 50, number(*e, "sz"@)->0 as int),
        number(*e, "kern"@) is Some <==> p.kerning is Some,
        p.kerning matches Some(s) ==> is_share(s.value as int, 50, number(*e, "kern"@)->0 as int),
        number(*e, "spc"@) is Some <==> p.spacing is Some,
        p.spacing matches Some(s) ==> is_share(s.value as int, 5, number(*e, "spc"@)->0 as int),
{
}

/// Bold and italic are said, denied or left unsaid by their own attributes.
pub proof fn bold_and_italic_are_said_by_their_attributes(e: &Element, p: RunProperties)
    requires
        call_ensures(read_run_properties, (e,), p),
    ensures
        is_word_for(attr(*e, "b"@), p.bold),
        is_word_for(attr(*e, "i"@), p.italic),
        p.color is None,
{
}

/// Capitals of one kind or the other are asked for, or both denied.
pub proof fn capitals_are_asked_for_or_denied(e: &Element, p: RunProperties)
    requires
        call_ensures(read_run_properties, (e,), p),
    ensures
        attr(*e, "cap"@) == Some("all"@) ==> p.all_caps == Some(true) && p.small_caps is None,
        attr(*e, "cap"@) == Some("small"@) ==> p.small_caps == Some(true) && p.all_caps is None,
        attr(*e, "cap"@) == Some("none"@) ==> p.small_caps == Some(false) && p.all_caps == Some(
            false,
        ),
        p.all_caps is Some || p.small_caps is Some ==> attr(*e, "cap"@) == Some("all"@) || attr(
            *e,
            "cap"@,
        ) == Some("small"@) || attr(*e, "cap"@) == Some("none"@),
{
    reveal_strlit("all");
    reveal_strlit("small");
    reveal_strlit("none");
    assert("all"@.len() == 3 && "small"@.len() == 5 && "none"@.len() == 4);
}

/// The underline and the strike of a run are what their attributes say.
pub proof fn lines_through_and_under_a_run(e: &Element, p: RunProperties)
    requires
        call_ensures(read_run_properties, (e,), p),
    ensures
        p.underline matches Some(u) ==> {
            &&& u is NoUnderline ==> attr(*e, "u"@) == Some("none"@)
            &&& u is Words ==> attr(*e, "u"@) == Some("words"@)
            &&& u is Single ==> attr(*e, "u"@) == Some("sng"@)
            &&& u is Double ==> attr(*e, "u"@) == Some("dbl"@)
            &&& u is Thick ==> attr(*e, "u"@) == Some("heavy"@)
            &&& u is Dotted ==> attr(*e, "u"@) == Some("dotted"@)
            &&& u is Dash ==> attr(*e, "u"@) == Some("dash"@)
            &&& u is Wave ==> attr(*e, "u"@) == Some("wavy"@)
        },
        attr(*e, "u"@) == Some("none"@) || attr(*e, "u"@) == Some("sng"@) || attr(*e, "u"@) == Some(
            "dbl"@,
        ) ==> p.underline is Some,
        p.strike matches Some(u) ==> {
            &&& u is NoStrike ==> attr(*e, "strike"@) == Some("noStrike"@)
            &&& u is Single ==> attr(*e, "strike"@) == Some("sngStrike"@)
            &&& u is Double ==> attr(*e, "strike"@) == Some("dblStrike"@)
        },
        attr(*e, "strike"@) == Some("noStrike"@) || attr(*e, "strike"@) == Some("sngStrike"@)
            || attr(*e, "strike"@) == Some("dblStrike"@) ==> p.strike is Some,
{
}

/// Whether a slot is the font of a typeface: a font of the theme where the
/// typeface is one of the six names for those, or else the font of that name.
pub open spec fn is_font_of(typeface: Option<Seq<char>>, s: FontSlot) -> bool {
    match typeface {
        None => s.explicit is None && s.theme is None,
        Some(t) => {
            &&& s.explicit is Some <==> s.theme is None
            &&& s.explicit matches Some(n) ==> n@ == t
            &&& s.theme == Some(ThemeFontRef::MajorHAnsi) ==> t == "+mj-lt"@
            &&& s.theme == Some(ThemeFontRef::MajorEastAsia) ==> t == "+mj-ea"@
            &&& s.theme == Some(ThemeFontRef::MajorBidi) ==> t == "+mj-cs"@
            &&& s.theme == Some(ThemeFontRef::MinorHAnsi) ==> t == "+mn-lt"@
            &&& s.theme == Some(ThemeFontRef::MinorEastAsia) ==> t == "+mn-ea"@
            &&& s.theme == Some(ThemeFontRef::MinorBidi) ==> t == "+mn-cs"@
            &&& s.theme is None ==> t != "+mj-lt"@ && t != "+mj-ea"@ && t != "+mj-cs"@ && t
                != "+mn-lt"@ && t != "+mn-ea"@ && t != "+mn-cs"@
        },
    }
}

/// Latin letters, East Asian characters and complex scripts each take their
/// font from their own element.
pub proof fn each_script_has_its_font(e: &Element, p: RunProperties)
    requires
        call_ensures(read_run_properties, (e,), p),
    ensures
        is_font_of(opt_attr_of(child_named(*e, "latin"@), "typeface"@), p.fonts.ascii),
        is_font_of(opt_attr_of(child_named(*e, "latin"@), "typeface"@), p.fonts.high_ansi),
        is_font_of(opt_attr_of(child_named(*e, "ea"@), "typeface"@), p.fonts.east_asian),
        is_font_of(opt_attr_of(child_named(*e, "cs"@), "typeface"@), p.fonts.complex_script),
{
}

/// The colour of a run is the one that its plain fill holds.
pub proof fn the_colour_of_a_run_is_its_fills(
    e: &Element,
    p: RunProperties,
    f: &Element,
    c: Option<crate::model::color::DrawingColor>,
)
    requires
        call_ensures(read_run_properties, (e,), p),
        call_ensures(crate::dml::color::read_color, (f,), c),
    ensures
        child_named(*e, "solidFill"@) is None ==> p.drawing_color is None,
        child_named(*e, "solidFill"@) == Some(*f) ==> {
            &&& p.drawing_color is Some <==> c is Some
            &&& p.drawing_color matches Some(x) ==> crate::dml::color::color_view(x)
                == crate::dml::color::color_view(c->0)
        },
{
}

/// Whether a measure is the number that an attribute holds.
pub open spec fn is_measure<U>(
    e: Element,
    name: Seq<char>,
    d: Option<crate::dimension::Dimension<U>>,
) -> bool {
    &&& d is Some <==> number(e, name) is Some
    &&& d matches Some(x) ==> number(e, name) == Some(x.value)
}

/// Whether a spacing is what an element states: the percentage that it holds,
/// or else the points.
pub open spec fn is_spacing(e: Option<Element>, s: Option<Spacing>) -> bool {
    match e {
        None => s is None,
        Some(x) => {
            let percent = reads::<i64>(opt_attr_of(child_named(x, "spcPct"@), "val"@));
            let points = reads::<i64>(opt_attr_of(child_named(x, "spcPts"@), "val"@));
            &&& percent matches Some(n) ==> (s matches Some(Spacing::Percent(d)) && d.value == n)
            &&& percent is None ==> (points matches Some(n) ==> (s matches Some(Spacing::Points(d))
                && d.value == n))
            &&& percent is None && points is None ==> s is None
        },
    }
}

/// The margins, the indent and the tabs of a paragraph are the numbers of their
/// own attributes, its spacings those of their own elements, and its level is at
/// most the deepest.
pub proof fn measures_of_a_paragraph(e: &Element, p: TextParagraphProperties)
    requires
        call_ensures(read_paragraph_properties, (e,), p),
    ensures
        is_measure(*e, "marL"@, p.margin_left),
        is_measure(*e, "marR"@, p.margin_right),
        is_measure(*e, "indent"@, p.indent),
        is_measure(*e, "defTabSz"@, p.default_tab_size),
        is_word_for(attr(*e, "rtl"@), p.rtl),
        is_spacing(child_named(*e, "lnSpc"@), p.line_spacing),
        is_spacing(child_named(*e, "spcBef"@), p.space_before),
        is_spacing(child_named(*e, "spcAft"@), p.space_after),
        reads::<u8>(attr(*e, "lvl"@)) is None ==> p.level is None,
        reads::<u8>(attr(*e, "lvl"@)) matches Some(n) ==> p.level == Some(
            if n <= 8 {
                n
            } else {
                8u8
            },
        ),
{
}

/// The alignment of a paragraph is what its attribute says.
pub proof fn the_alignment_of_a_paragraph(e: &Element, p: TextParagraphProperties)
    requires
        call_ensures(read_paragraph_properties, (e,), p),
    ensures
        p.alignment matches Some(a) ==> {
            &&& a is Start ==> attr(*e, "algn"@) == Some("l"@)
            &&& a is Center ==> attr(*e, "algn"@) == Some("ctr"@)
            &&& a is End ==> attr(*e, "algn"@) == Some("r"@)
            &&& a is Both ==> attr(*e, "algn"@) == Some("just"@) || attr(*e, "algn"@) == Some(
                "justLow"@,
            )
            &&& a is Distribute ==> attr(*e, "algn"@) == Some("dist"@)
            &&& a is Thai ==> attr(*e, "algn"@) == Some("thaiDist"@)
        },
        attr(*e, "algn"@) == Some("l"@) || attr(*e, "algn"@) == Some("ctr"@) || attr(*e, "algn"@)
            == Some("r"@) || attr(*e, "algn"@) == Some("just"@) ==> p.alignment is Some,
{
}

/// Whether a numbering scheme goes by a name.
pub open spec fn goes_by(r: AutoNumberScheme, s: Seq<char>) -> bool {
    &&& r is ArabicPeriod ==> s == "arabicPeriod"@
    &&& r is ArabicParenR ==> s == "arabicParenR"@
    &&& r is ArabicParenBoth ==> s == "arabicParenBoth"@
    &&& r is AlphaLcPeriod ==> s == "alphaLcPeriod"@
    &&& r is AlphaUcPeriod ==> s == "alphaUcPeriod"@
    &&& r is AlphaLcParenR ==> s == "alphaLcParenR"@
    &&& r is AlphaUcParenR ==> s == "alphaUcParenR"@
    &&& r is RomanLcPeriod ==> s == "romanLcPeriod"@
    &&& r is RomanUcPeriod ==> s == "romanUcPeriod"@
    &&& r matches AutoNumberScheme::Other(n) ==> n@ == s && s != "arabicPeriod"@ && s
        != "arabicParenR"@ && s != "arabicParenBoth"@ && s != "alphaLcPeriod"@ && s
        != "alphaUcPeriod"@ && s != "alphaLcParenR"@ && s != "alphaUcParenR"@ && s
        != "romanLcPeriod"@ && s != "romanUcPeriod"@
}

/// An explicit absence of a bullet wins over a number, and a number over a
/// character. A number counts from where it says, a character is of the font
/// that is named, and without a character there is no bullet.
pub proof fn the_bullet_of_a_paragraph(e: &Element, p: TextParagraphProperties)
    requires
        call_ensures(read_paragraph_properties, (e,), p),
    ensures
        child_named(*e, "buNone"@) is Some ==> p.bullet == Some(Bullet::NoBullet),
        child_named(*e, "buNone"@) is None ==> {
            &&& child_named(*e, "buAutoNum"@) matches Some(a) ==> (
            p.bullet matches Some(Bullet::AutoNumber { scheme, start_at }) && start_at == reads::<
                u32,
            >(attr(a, "startAt"@)) && (attr(a, "type"@) matches Some(s) ==> goes_by(scheme, s)))
            &&& child_named(*e, "buAutoNum"@) is None ==> {
                &&& child_named(*e, "buChar"@) is None ==> p.bullet is None
                &&& child_named(*e, "buChar"@) matches Some(c) ==> match attr(c, "char"@) {
                    None => p.bullet is None,
                    Some(s) => if s.len() == 0 {
                        p.bullet is None
                    } else {
                        p.bullet matches Some(Bullet::Character { char, font }) && char@ == s
                            && opt_view(font) == opt_attr_of(
                            child_named(*e, "buFont"@),
                            "typeface"@,
                        )
                    },
                }
            }
        },
{
}

/// The names of numbering schemes.
pub proof fn names_of_numbering_schemes(s: &str, r: AutoNumberScheme)
    requires
        call_ensures(AutoNumberScheme::from_str, (s,), r),
    ensures
        goes_by(r, s@),
{
}

/// What the runs of a level start from is what its own element says.
pub proof fn the_runs_of_a_paragraph(
    e: &Element,
    p: TextParagraphProperties,
    d: &Element,
    r: RunProperties,
)
    requires
        call_ensures(read_paragraph_properties, (e,), p),
        call_ensures(read_run_properties, (d,), r),
    ensures
        child_named(*e, "defRPr"@) is None ==> p.default_run_properties is None,
        child_named(*e, "defRPr"@) == Some(*d) ==> (p.default_run_properties matches Some(x)
            && x.font_size == r.font_size && x.bold == r.bold && x.italic == r.italic && x.underline
            == r.underline && x.strike == r.strike && x.spacing == r.spacing && x.kerning
            == r.kerning && x.all_caps == r.all_caps && x.small_caps == r.small_caps
            && x.vertical_align == r.vertical_align),
{
}

/// Whether the formatting of a level is read from an element of a name.
pub open spec fn is_level_of(
    e: Element,
    name: Seq<char>,
    l: Option<Box<TextParagraphProperties>>,
) -> bool {
    &&& l is Some <==> child_named(e, name) is Some
    &&& l matches Some(p) ==> is_paragraph_properties(child_named(e, name)->0, *p)
}

/// Each of the nine levels of a list style is read from its own element, the
/// first from the one that is counted as one.
pub proof fn levels_are_read_by_their_names(e: &Element, l: ListStyle)
    requires
        call_ensures(read_list_style, (Some(e),), l),
    ensures
        is_level_of(*e, "lvl1pPr"@, l.levels@[0]),
        is_level_of(*e, "lvl2pPr"@, l.levels@[1]),
        is_level_of(*e, "lvl3pPr"@, l.levels@[2]),
        is_level_of(*e, "lvl4pPr"@, l.levels@[3]),
        is_level_of(*e, "lvl5pPr"@, l.levels@[4]),
        is_level_of(*e, "lvl6pPr"@, l.levels@[5]),
        is_level_of(*e, "lvl7pPr"@, l.levels@[6]),
        is_level_of(*e, "lvl8pPr"@, l.levels@[7]),
        is_level_of(*e, "lvl9pPr"@, l.levels@[8]),
{
    assert(crate::pptx::text_read::is_level(
        *e,
        crate::pptx::text_read::level_name(0),
        l.levels@[0],
    ));
}

/// A list style that is not there states nothing.
pub proof fn without_an_element_no_level_is_stated(l: ListStyle, i: int)
    requires
        call_ensures(read_list_style, (None,), l),
        0 <= i < 9,
    ensures
        l.levels@[i] is None,
{
}

/// The text of a child of an element.
pub open spec fn holds_text(e: Element, s: Seq<char>) -> bool {
    match child_named(e, "t"@) {
        Some(t) => text_in(t.children@) == s,
        None => s.len() == 0,
    }
}

/// Whether an element leads somewhere.
pub open spec fn leads_somewhere(e: Element) -> bool {
    child_named(e, "rPr"@) matches Some(f) && child_named(f, "hlinkClick"@) is Some
}

/// A run that leads nowhere stands behind what was there, with its text and its
/// own formatting.
pub proof fn a_run_stands_behind_what_was_there(
    few: &Element,
    many: &Element,
    run: Element,
    a: TextParagraph,
    b: TextParagraph,
    s: Seq<char>,
)
    requires
        call_ensures(read_paragraph, (few,), a),
        call_ensures(read_paragraph, (many,), b),
        many.children@ == few.children@.push(Node::Element(Box::new(run))),
        is_element_called(Node::Element(Box::new(run)), "r"@),
        !leads_somewhere(run),
        holds_text(run, s),
    ensures
        b.content@.len() == a.content@.len() + 1,
        b.content@.last() matches Inline::TextRun(r) && {
            &&& r.content@.len() == 1
            &&& r.content@[0] matches RunElement::Text(t) && t@ == s
            &&& child_named(run, "rPr"@) matches Some(f) ==> is_run_properties(f, r.properties)
            &&& child_named(run, "rPr"@) is None ==> r.properties.font_size is None
                && r.properties.bold is None && r.properties.italic is None
        },
{
    let n = Node::Element(Box::new(run));
    assert(many.children@.drop_last() =~= few.children@);
    let before = pieces_in(few.children@);
    let after = pieces_in(many.children@);
    assert(after.len() == before.len() + 1);
    let k = before.len() as int;
    assert(crate::pptx::text_read::is_piece(after[k], b.content@[k]));
    if child_named(run, "t"@) is None {
        assert(s =~= Seq::<char>::empty());
    }
}

/// A line break stands behind what was there, and a field does with the text
/// that it holds. A field without text, and any other node, add nothing.
pub proof fn breaks_and_fields_stand_behind_what_was_there(
    few: &Element,
    many: &Element,
    n: Node,
    a: TextParagraph,
    b: TextParagraph,
    s: Seq<char>,
)
    requires
        call_ensures(read_paragraph, (few,), a),
        call_ensures(read_paragraph, (many,), b),
        many.children@ == few.children@.push(n),
        n matches Node::Element(e) ==> !leads_somewhere(*e) && holds_text(*e, s),
    ensures
        is_element_called(n, "br"@) ==> b.content@.len() == a.content@.len() + 1
            && (b.content@.last() matches Inline::TextRun(r) && r.content@.len() == 1
            && r.content@[0] is LineBreak),
        is_element_called(n, "fld"@) && s.len() > 0 ==> b.content@.len() == a.content@.len() + 1
            && (b.content@.last() matches Inline::TextRun(r) && r.content@.len() == 1 && (
        r.content@[0] matches RunElement::Text(t) && t@ == s)),
        is_element_called(n, "fld"@) && s.len() == 0 ==> b.content@.len() == a.content@.len(),
        !is_element_called(n, "r"@) && !is_element_called(n, "br"@) && !is_element_called(
            n,
            "fld"@,
        ) ==> b.content@.len() == a.content@.len(),
        few.children@.len() == 0 ==> a.content@.len() == 0,
{
    reveal_strlit("r");
    reveal_strlit("br");
    reveal_strlit("fld");
    assert("r"@.len() == 1 && "br"@.len() == 2 && "fld"@.len() == 3);
    assert(many.children@.drop_last() =~= few.children@);
    let before = pieces_in(few.children@);
    let after = pieces_in(many.children@);
    if after.len() > before.len() {
        let k = before.len() as int;
        assert(crate::pptx::text_read::is_piece(after[k], b.content@[k]));
    }
    if let Node::Element(e) = n {
        if child_named(*e, "t"@) is None {
            assert(s =~= Seq::<char>::empty());
        }
    }
}

/// A run that leads to the target of a relationship is in a hyperlink to it. It
/// joins the hyperlink before it where that one leads there too.
pub proof fn a_run_that_leads_somewhere_is_linked(
    few: &Element,
    many: &Element,
    run: Element,
    a: TextParagraph,
    b: TextParagraph,
    id: Seq<char>,
)
    requires
        call_ensures(read_paragraph, (few,), a),
        call_ensures(read_paragraph, (many,), b),
        many.children@ == few.children@.push(Node::Element(Box::new(run))),
        is_element_called(Node::Element(Box::new(run)), "r"@),
        child_named(run, "rPr"@) matches Some(f) && child_named(f, "hlinkClick"@) matches Some(h)
            && attr(h, "id"@) == Some(id),
        id.len() > 0,
    ensures
        b.content@.len() > 0,
        b.content@.last() matches Inline::Hyperlink(h) && (
        h.target matches HyperlinkTarget::ExternalRel(r) && r.id@ == id) && {
            let joins = a.content@.len() > 0 && (a.content@.last() matches Inline::Hyperlink(g) && (
            g.target matches HyperlinkTarget::ExternalRel(q) && q.id@ == id));
            &&& joins ==> b.content@.len() == a.content@.len() && h.content@.len() == (
            a.content@.last()->Hyperlink_0).content@.len() + 1
            &&& !joins ==> b.content@.len() == a.content@.len() + 1 && h.content@.len() == 1
        },
{
    assert(many.children@.drop_last() =~= few.children@);
    let before = pieces_in(few.children@);
    let after = pieces_in(many.children@);
    let k = after.len() - 1;
    assert(crate::pptx::text_read::is_piece(after[k], b.content@[k]));
    if before.len() > 0 {
        let j = before.len() - 1;
        assert(crate::pptx::text_read::is_piece(before[j], a.content@[j]));
    }
}

/// A run whose link has an empty relationship, or none and no action of the
/// presentation, leads nowhere; one with an action of the presentation leads to
/// a place in it.
pub proof fn where_actions_lead(
    few: &Element,
    many: &Element,
    run: Element,
    a: TextParagraph,
    b: TextParagraph,
    h: Element,
)
    requires
        call_ensures(read_paragraph, (few,), a),
        call_ensures(read_paragraph, (many,), b),
        many.children@ == few.children@.push(Node::Element(Box::new(run))),
        is_element_called(Node::Element(Box::new(run)), "r"@),
        child_named(run, "rPr"@) matches Some(f) && child_named(f, "hlinkClick"@) == Some(h),
    ensures
        attr(h, "id"@) matches Some(id) ==> (id.len() == 0 ==> b.content@.last() is TextRun),
        attr(h, "id"@) is None && attr(h, "action"@) is None ==> b.content@.last() is TextRun,
        attr(h, "id"@) is None ==> (attr(h, "action"@) matches Some(s) ==> if s.len() >= 11
            && s.take(11) == "ppaction://"@ {
            b.content@.last() matches Inline::Hyperlink(l) && (
            l.target matches HyperlinkTarget::Internal { anchor } && anchor@ == s)
        } else {
            b.content@.last() is TextRun
        }),
{
    reveal_strlit("ppaction://");
    assert("ppaction://"@.len() == 11);
    assert(many.children@.drop_last() =~= few.children@);
    let before = pieces_in(few.children@);
    let after = pieces_in(many.children@);
    let k = after.len() - 1;
    assert(crate::pptx::text_read::is_piece(after[k], b.content@[k]));
}

/// The formatting of a paragraph is that of its own element, and that of its
/// mark the last that is stated.
pub proof fn the_formatting_of_a_paragraph(e: &Element, p: TextParagraph)
    requires
        call_ensures(read_paragraph, (e,), p),
    ensures
        child_named(*e, "pPr"@) matches Some(x) ==> is_paragraph_properties(x, p.properties),
        child_named(*e, "pPr"@) is None ==> p.properties.level is None && p.properties.alignment
            is None && p.properties.bullet is None && p.properties.default_run_properties is None
            && p.properties.margin_left is None && p.properties.indent is None,
        children_named(*e, "endParaRPr"@).len() == 0 ==> p.end_run_properties is None,
        children_named(*e, "endParaRPr"@).len() > 0 ==> (p.end_run_properties matches Some(r)
            && is_run_properties(children_named(*e, "endParaRPr"@).last(), r)),
{
}

/// A text body has a paragraph for each of its paragraph elements, in order, and
/// its own list style and properties.
pub proof fn a_body_has_its_paragraphs_in_order(e: &Element, b: TextBody, i: int)
    requires
        call_ensures(read_text_body, (e,), b),
        0 <= i < children_named(*e, "p"@).len(),
    ensures
        b.paragraphs@.len() == children_named(*e, "p"@).len(),
        crate::pptx::text_read::is_paragraph(children_named(*e, "p"@)[i], b.paragraphs@[i]),
        child_named(*e, "bodyPr"@) is None <==> b.body_pr is None,
        child_named(*e, "lstStyle"@) is None ==> b.list_style.levels@[0] is None,
{
}

/// The text of a paragraph is that of its pieces, one behind the other: a line
/// break is a new line, a tab is a tab, and a hyperlink is the text of what is
/// in it.
pub proof fn text_follows_text(
    few: &TextParagraph,
    many: &TextParagraph,
    a: String,
    b: String,
)
    requires
        call_ensures(TextParagraph::text, (few,), a),
        call_ensures(TextParagraph::text, (many,), b),
        many.content@.len() == few.content@.len() + 1,
        many.content@.drop_last() == few.content@,
    ensures
        many.content@.last() matches Inline::TextRun(r) ==> (r.content@.len() == 1 ==> {
            &&& r.content@[0] matches RunElement::Text(t) ==> b@ == a@ + t@
            &&& r.content@[0] is LineBreak ==> b@ == a@ + seq!['\n']
            &&& r.content@[0] is Tab ==> b@ == a@ + seq!['\t']
        }),
        many.content@.last() matches Inline::Hyperlink(h) ==> b@ == a@ + inline_text(h.content@),
        few.content@.len() == 0 ==> a@.len() == 0,
{
    if let Inline::TextRun(r) = many.content@.last() {
        if r.content@.len() == 1 {
            assert(r.content@.drop_last() =~= Seq::<RunElement>::empty());
            assert(r.content@.last() == r.content@[0]);
            assert(crate::pptx::text::run_text(r.content@.drop_last()) =~= Seq::<char>::empty());
            assert(crate::pptx::text::run_text(r.content@) =~= crate::pptx::text::piece_text(
                r.content@[0],
            ));
        }
    }
}

/// The text of a body is that of its paragraphs, each on a line of its own.
pub proof fn paragraphs_are_lines(
    few: &TextBody,
    many: &TextBody,
    a: String,
    b: String,
    last: String,
)
    requires
        call_ensures(TextBody::plain_text, (few,), a),
        call_ensures(TextBody::plain_text, (many,), b),
        many.paragraphs@.len() == few.paragraphs@.len() + 1,
        many.paragraphs@.drop_last() == few.paragraphs@,
        call_ensures(TextParagraph::text, (&many.paragraphs@.last(),), last),
    ensures
        few.paragraphs@.len() == 0 ==> a@.len() == 0 && b@ == last@,
        few.paragraphs@.len() > 0 ==> b@ == a@ + seq!['\n'] + last@,
{
    if few.paragraphs@.len() == 0 {
        assert(many.paragraphs@[0] == many.paragraphs@.last());
    }
}

/// A body is empty exactly where the text of each paragraph is.
pub proof fn an_empty_body_has_no_text(b: &TextBody, r: bool, i: int, text: String)
    requires
        call_ensures(TextBody::is_empty, (b,), r),
        0 <= i < b.paragraphs@.len(),
        call_ensures(TextParagraph::text, (&b.paragraphs@[i],), text),
    ensures
        r ==> text@.len() == 0,
        !r ==> exists|j: int|
            0 <= j < b.paragraphs@.len() && inline_text(
                (#[trigger] b.paragraphs@[j]).content@,
            ).len() > 0,
{
}

} // verus!
