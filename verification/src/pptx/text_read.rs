//! Reading of text bodies.
use vstd::prelude::*;

use crate::dimension::{
    divide, quotient, units, Dimension, Emu, HalfPoints, HundredthPoints, ThousandthPercent, Twips,
};
use crate::dml::body::{body_properties, read_body_properties};
use crate::dml::color::{is_color_in, read_color};
use crate::model::drawing::RelId;
use crate::model::run::{
    unset_run, unset_slot, Alignment, FontSet, FontSlot, RunProperties, StrikeStyle, ThemeFontRef,
    UnderlineStyle, VerticalAlign,
};
use crate::pptx::text::{
    inline_text, lines, piece_text, run_text, unset_paragraph, AutoNumberScheme, Bullet, Hyperlink,
    HyperlinkTarget, Inline, ListStyle, RunElement, Spacing, TextBody, TextParagraph,
    TextParagraphProperties, TextRun, MAX_LIST_LEVEL,
};
use crate::scan::{begins_with, starts_with, str_eq, trim, trimmed};
use crate::xml::event::opt_view;
use crate::xml::lenient::{opt_attr, reads, AttrValue};
use crate::xml::query::{
    attr, attribute, attribute_of, child, child_named, children, children_named, element_local_name,
    element_name, element_text, opt_attr_of, text_in,
};
use crate::xml::tree::{Element, Node};

verus! {

impl AttrValue for Alignment {
    open spec fn read(s: Seq<char>) -> Option<Alignment> {
        if s == "l"@ {
            Some(Alignment::Start)
        } else if s == "ctr"@ {
            Some(Alignment::Center)
        } else if s == "r"@ {
            Some(Alignment::End)
        } else if s == "just"@ {
            Some(Alignment::Both)
        } else if s == "justLow"@ {
            Some(Alignment::Both)
        } else if s == "dist"@ {
            Some(Alignment::Distribute)
        } else if s == "thaiDist"@ {
            Some(Alignment::Thai)
        } else {
            None
        }
    }

    fn parse(s: &str) -> (r: Option<Alignment>) {
        if str_eq(s, "l") {
            Some(Alignment::Start)
        } else if str_eq(s, "ctr") {
            Some(Alignment::Center)
        } else if str_eq(s, "r") {
            Some(Alignment::End)
        } else if str_eq(s, "just") {
            Some(Alignment::Both)
        } else if str_eq(s, "justLow") {
            Some(Alignment::Both)
        } else if str_eq(s, "dist") {
            Some(Alignment::Distribute)
        } else if str_eq(s, "thaiDist") {
            Some(Alignment::Thai)
        } else {
            None
        }
    }
}

impl AttrValue for UnderlineStyle {
    open spec fn read(s: Seq<char>) -> Option<UnderlineStyle> {
        if s == "none"@ {
            Some(UnderlineStyle::NoUnderline)
        } else if s == "words"@ {
            Some(UnderlineStyle::Words)
        } else if s == "sng"@ {
            Some(UnderlineStyle::Single)
        } else if s == "dbl"@ {
            Some(UnderlineStyle::Double)
        } else if s == "heavy"@ {
            Some(UnderlineStyle::Thick)
        } else if s == "dotted"@ {
            Some(UnderlineStyle::Dotted)
        } else if s == "dash"@ {
            Some(UnderlineStyle::Dash)
        } else if s == "wavy"@ {
            Some(UnderlineStyle::Wave)
        } else {
            None
        }
    }

    fn parse(s: &str) -> (r: Option<UnderlineStyle>) {
        if str_eq(s, "none") {
            Some(UnderlineStyle::NoUnderline)
        } else if str_eq(s, "words") {
            Some(UnderlineStyle::Words)
        } else if str_eq(s, "sng") {
            Some(UnderlineStyle::Single)
        } else if str_eq(s, "dbl") {
            Some(UnderlineStyle::Double)
        } else if str_eq(s, "heavy") {
            Some(UnderlineStyle::Thick)
        } else if str_eq(s, "dotted") {
            Some(UnderlineStyle::Dotted)
        } else if str_eq(s, "dash") {
            Some(UnderlineStyle::Dash)
        } else if str_eq(s, "wavy") {
            Some(UnderlineStyle::Wave)
        } else {
            None
        }
    }
}

impl AttrValue for StrikeStyle {
    open spec fn read(s: Seq<char>) -> Option<StrikeStyle> {
        if s == "noStrike"@ {
            Some(StrikeStyle::NoStrike)
        } else if s == "sngStrike"@ {
            Some(StrikeStyle::Single)
        } else if s == "dblStrike"@ {
            Some(StrikeStyle::Double)
        } else {
            None
        }
    }

    fn parse(s: &str) -> (r: Option<StrikeStyle>) {
        if str_eq(s, "noStrike") {
            Some(StrikeStyle::NoStrike)
        } else if str_eq(s, "sngStrike") {
            Some(StrikeStyle::Single)
        } else if str_eq(s, "dblStrike") {
            Some(StrikeStyle::Double)
        } else {
            None
        }
    }
}

/// How letters are capitalised.
#[derive(Debug, Clone, Copy, PartialEq, Eq, Structural)]
pub enum TextCaps {
    NoCaps,
    Small,
    All,
}

impl AttrValue for TextCaps {
    open spec fn read(s: Seq<char>) -> Option<TextCaps> {
        if s == "none"@ {
            Some(TextCaps::NoCaps)
        } else if s == "small"@ {
            Some(TextCaps::Small)
        } else if s == "all"@ {
            Some(TextCaps::All)
        } else {
            None
        }
    }

    fn parse(s: &str) -> (r: Option<TextCaps>) {
        if str_eq(s, "none") {
            Some(TextCaps::NoCaps)
        } else if str_eq(s, "small") {
            Some(TextCaps::Small)
        } else if str_eq(s, "all") {
            Some(TextCaps::All)
        } else {
            None
        }
    }
}

/// A truth value that may be left unsaid: anything but the schema's words for
/// true and false leaves it unsaid.
pub open spec fn ooxml_bool(s: Option<Seq<char>>) -> Option<bool> {
    match s {
        Some(raw) => {
            let v = trimmed(raw);
            if v == "1"@ || v == "true"@ || v == "on"@ {
                Some(true)
            } else if v == "0"@ || v == "false"@ || v == "off"@ {
                Some(false)
            } else {
                None
            }
        },
        None => None,
    }
}

/// Whether characters are those of a string.
fn spells(chars: &Vec<char>, s: &str) -> (r: bool)
    ensures
        r == (chars@ == s@),
{
    let want: Vec<char> = crate::scan::chars_of(s);
    if chars.len() != want.len() {
        return false;
    }
    let mut i: usize = 0;
    while i < want.len()
        invariant
            want@ == s@,
            chars@.len() == want@.len(),
            i <= want@.len(),
            forall|j: int| 0 <= j < i ==> chars@[j] == want@[j],
        decreases want@.len() - i,
    {
        if chars[i] != want[i] {
            return false;
        }
        i = i + 1;
    }
    assert(chars@ =~= s@);
    true
}

/// A truth value that may be left unsaid.
fn opt_ooxml_bool(e: &Element, name: &str) -> (r: Option<bool>)
    ensures
        r == ooxml_bool(attr(*e, name@)),
{
    match attribute(e, name) {
        Some(raw) => {
            let v: Vec<char> = trim(raw.as_str());
            if spells(&v, "1") || spells(&v, "true") || spells(&v, "on") {
                Some(true)
            } else if spells(&v, "0") || spells(&v, "false") || spells(&v, "off") {
                Some(false)
            } else {
                None
            }
        },
        None => None,
    }
}

/// A size in half-points.
pub open spec fn half_points(v: Option<Dimension<HundredthPoints>>) -> Option<
    Dimension<HalfPoints>,
> {
    match v {
        Some(d) => Some(units(quotient(d.value as int, 50) as i64)),
        None => None,
    }
}

/// A spacing in twentieths of a point.
pub open spec fn twentieths(v: Option<Dimension<HundredthPoints>>) -> Option<Dimension<Twips>> {
    match v {
        Some(d) => Some(units(quotient(d.value as int, 5) as i64)),
        None => None,
    }
}

/// A size in half-points.
fn to_half_points(v: Option<Dimension<HundredthPoints>>) -> (r: Option<Dimension<HalfPoints>>)
    ensures
        r == half_points(v),
{
    match v {
        Some(d) => Some(Dimension::new(divide(d.raw(), 50))),
        None => None,
    }
}

/// A spacing in twentieths of a point.
fn to_twentieths(v: Option<Dimension<HundredthPoints>>) -> (r: Option<Dimension<Twips>>)
    ensures
        r == twentieths(v),
{
    match v {
        Some(d) => Some(Dimension::new(divide(d.raw(), 5))),
        None => None,
    }
}

/// The font of the theme that a typeface stands for, where it stands for one.
pub open spec fn theme_font(typeface: Seq<char>) -> Option<ThemeFontRef> {
    if typeface == "+mj-lt"@ {
        Some(ThemeFontRef::MajorHAnsi)
    } else if typeface == "+mj-ea"@ {
        Some(ThemeFontRef::MajorEastAsia)
    } else if typeface == "+mj-cs"@ {
        Some(ThemeFontRef::MajorBidi)
    } else if typeface == "+mn-lt"@ {
        Some(ThemeFontRef::MinorHAnsi)
    } else if typeface == "+mn-ea"@ {
        Some(ThemeFontRef::MinorEastAsia)
    } else if typeface == "+mn-cs"@ {
        Some(ThemeFontRef::MinorBidi)
    } else {
        None
    }
}

/// Whether a slot is what a font element states.
pub open spec fn is_slot(e: Option<Element>, s: FontSlot) -> bool {
    match opt_attr_of(e, "typeface"@) {
        Some(t) => match theme_font(t) {
            Some(f) => s == (FontSlot { explicit: None, theme: Some(f) }),
            None => opt_view(s.explicit) == Some(t) && s.theme is None,
        },
        None => s == unset_slot(),
    }
}

/// The slot that a font element states.
fn read_slot(e: Option<&Element>) -> (s: FontSlot)
    ensures
        is_slot(
            match e {
                Some(x) => Some(*x),
                None => None,
            },
            s,
        ),
{
    let typeface: String = match attribute_of(e, "typeface") {
        Some(t) => t,
        None => {
            return FontSlot::default();
        },
    };
    let t: &str = typeface.as_str();
    let theme: Option<ThemeFontRef> = if str_eq(t, "+mj-lt") {
        Some(ThemeFontRef::MajorHAnsi)
    } else if str_eq(t, "+mj-ea") {
        Some(ThemeFontRef::MajorEastAsia)
    } else if str_eq(t, "+mj-cs") {
        Some(ThemeFontRef::MajorBidi)
    } else if str_eq(t, "+mn-lt") {
        Some(ThemeFontRef::MinorHAnsi)
    } else if str_eq(t, "+mn-ea") {
        Some(ThemeFontRef::MinorEastAsia)
    } else if str_eq(t, "+mn-cs") {
        Some(ThemeFontRef::MinorBidi)
    } else {
        None
    };
    if theme.is_some() {
        FontSlot { explicit: None, theme }
    } else {
        FontSlot::from_name(typeface)
    }
}

/// Whether capitals are all that a capitalisation asks for.
pub open spec fn all_caps(cap: Option<TextCaps>) -> Option<bool> {
    match cap {
        Some(TextCaps::All) => Some(true),
        Some(TextCaps::NoCaps) => Some(false),
        _ => None,
    }
}

/// Whether small capitals are what a capitalisation asks for.
pub open spec fn small_caps(cap: Option<TextCaps>) -> Option<bool> {
    match cap {
        Some(TextCaps::Small) => Some(true),
        Some(TextCaps::NoCaps) => Some(false),
        _ => None,
    }
}

/// Whether a baseline shift raises or lowers a run.
pub open spec fn shift(baseline: Option<Dimension<ThousandthPercent>>) -> Option<VerticalAlign> {
    match baseline {
        Some(b) => if b.value > 0 {
            Some(VerticalAlign::Superscript)
        } else if b.value < 0 {
            Some(VerticalAlign::Subscript)
        } else {
            None
        },
        None => None,
    }
}

/// Whether run formatting is what a run formatting element states.
pub open spec fn is_run_properties(e: Element, p: RunProperties) -> bool {
    &&& p.font_size == half_points(reads(attr(e, "sz"@)))
    &&& p.bold == ooxml_bool(attr(e, "b"@))
    &&& p.italic == ooxml_bool(attr(e, "i"@))
    &&& p.underline == reads::<UnderlineStyle>(attr(e, "u"@))
    &&& p.strike == reads::<StrikeStyle>(attr(e, "strike"@))
    &&& p.color is None
    &&& match child_named(e, "solidFill"@) {
        Some(f) => is_color_in(f, p.drawing_color),
        None => p.drawing_color is None,
    }
    &&& p.spacing == twentieths(reads(attr(e, "spc"@)))
    &&& p.kerning == half_points(reads(attr(e, "kern"@)))
    &&& p.all_caps == all_caps(reads(attr(e, "cap"@)))
    &&& p.small_caps == small_caps(reads(attr(e, "cap"@)))
    &&& p.vertical_align == shift(reads(attr(e, "baseline"@)))
    &&& is_slot(child_named(e, "latin"@), p.fonts.ascii)
    &&& p.fonts.high_ansi == p.fonts.ascii
    &&& is_slot(child_named(e, "ea"@), p.fonts.east_asian)
    &&& is_slot(child_named(e, "cs"@), p.fonts.complex_script)
}

/// The run formatting that an element states.
pub fn read_run_properties(e: &Element) -> (p: RunProperties)
    ensures
        is_run_properties(*e, p),
{
    let cap: Option<TextCaps> = opt_attr(e, "cap");
    let baseline: Option<Dimension<ThousandthPercent>> = opt_attr(e, "baseline");
    let ascii: FontSlot = read_slot(child(e, "latin"));
    let high_ansi: FontSlot = ascii.clone();
    RunProperties {
        fonts: FontSet {
            ascii,
            high_ansi,
            east_asian: read_slot(child(e, "ea")),
            complex_script: read_slot(child(e, "cs")),
        },
        font_size: to_half_points(opt_attr(e, "sz")),
        bold: opt_ooxml_bool(e, "b"),
        italic: opt_ooxml_bool(e, "i"),
        underline: opt_attr(e, "u"),
        strike: opt_attr(e, "strike"),
        color: None,
        drawing_color: match child(e, "solidFill") {
            Some(f) => read_color(f),
            None => None,
        },
        spacing: to_twentieths(opt_attr(e, "spc")),
        kerning: to_half_points(opt_attr(e, "kern")),
        all_caps: match cap {
            Some(TextCaps::All) => Some(true),
            Some(TextCaps::NoCaps) => Some(false),
            _ => None,
        },
        small_caps: match cap {
            Some(TextCaps::Small) => Some(true),
            Some(TextCaps::NoCaps) => Some(false),
            _ => None,
        },
        vertical_align: match baseline {
            Some(b) => if b.raw() > 0 {
                Some(VerticalAlign::Superscript)
            } else if b.raw() < 0 {
                Some(VerticalAlign::Subscript)
            } else {
                None
            },
            None => None,
        },
    }
}

/// The target of a hyperlink, by its text.
pub enum LinkView {
    Rel(Seq<char>),
    Url(Seq<char>),
    Internal(Seq<char>),
}

/// The target of a hyperlink, by its text.
pub open spec fn link_view(t: HyperlinkTarget) -> LinkView {
    match t {
        HyperlinkTarget::ExternalRel(r) => LinkView::Rel(r.id@),
        HyperlinkTarget::ExternalUrl(u) => LinkView::Url(u@),
        HyperlinkTarget::Internal { anchor } => LinkView::Internal(anchor@),
    }
}

/// Where a run with the given formatting element leads. An action without a
/// relationship leads to a place in the document; an empty relationship id is
/// a link that was removed.
pub open spec fn link_of(e: Element) -> Option<LinkView> {
    match child_named(e, "hlinkClick"@) {
        Some(h) => match (attr(h, "id"@), attr(h, "action"@)) {
            (Some(id), _) => if id.len() > 0 {
                Some(LinkView::Rel(id))
            } else {
                None
            },
            (None, Some(action)) => if begins_with(action, "ppaction://"@) {
                Some(LinkView::Internal(action))
            } else {
                None
            },
            (None, None) => None,
        },
        None => None,
    }
}

/// Where a run with the given formatting element leads.
fn hyperlink_target(e: &Element) -> (r: Option<HyperlinkTarget>)
    ensures
        (match r {
            Some(t) => Some(link_view(t)),
            None => None,
        }) == link_of(*e),
{
    match child(e, "hlinkClick") {
        Some(h) => match attribute(h, "id") {
            Some(id) => if !id.as_str().is_empty() {
                Some(HyperlinkTarget::ExternalRel(RelId { id }))
            } else {
                None
            },
            None => match attribute(h, "action") {
                Some(action) => if starts_with(action.as_str(), "ppaction://") {
                    Some(HyperlinkTarget::Internal { anchor: action })
                } else {
                    None
                },
                None => None,
            },
        },
        None => None,
    }
}

/// Whether two hyperlinks lead to the same place.
fn same_target(a: &HyperlinkTarget, b: &HyperlinkTarget) -> (r: bool)
    ensures
        r == (link_view(*a) == link_view(*b)),
{
    match (a, b) {
        (HyperlinkTarget::ExternalRel(x), HyperlinkTarget::ExternalRel(y)) => x.same(y),
        (HyperlinkTarget::ExternalUrl(x), HyperlinkTarget::ExternalUrl(y)) => str_eq(
            x.as_str(),
            y.as_str(),
        ),
        (
            HyperlinkTarget::Internal { anchor: x },
            HyperlinkTarget::Internal { anchor: y },
        ) => str_eq(x.as_str(), y.as_str()),
        _ => false,
    }
}

/// A run as a paragraph states it: its formatting element, and its text, or
/// none for a line break.
pub struct RunView {
    pub formatting: Option<Element>,
    pub text: Option<Seq<char>>,
}

/// A member of a paragraph: a run, or a hyperlink over runs.
pub enum PieceView {
    Run(RunView),
    Link(LinkView, Seq<RunView>),
}

/// The members of a paragraph after one more run. A run that leads where the
/// hyperlink before it leads joins that hyperlink.
pub open spec fn with_run(pieces: Seq<PieceView>, run: RunView, link: Option<LinkView>) -> Seq<
    PieceView,
> {
    match link {
        None => pieces.push(PieceView::Run(run)),
        Some(l) => if pieces.len() > 0 && (pieces.last() matches PieceView::Link(m, runs) && m == l) {
            pieces.drop_last().push(PieceView::Link(l, pieces.last()->Link_1.push(run)))
        } else {
            pieces.push(PieceView::Link(l, seq![run]))
        },
    }
}

/// Where the text of a run leads.
pub open spec fn run_link(formatting: Option<Element>) -> Option<LinkView> {
    match formatting {
        Some(f) => link_of(f),
        None => None,
    }
}

/// The text of a child, empty where there is none.
pub open spec fn child_text(e: Element, name: Seq<char>) -> Seq<char> {
    match child_named(e, name) {
        Some(t) => text_in(t.children@),
        None => Seq::empty(),
    }
}

/// The members of a paragraph after one more node.
pub open spec fn with_node(pieces: Seq<PieceView>, n: Node) -> Seq<PieceView> {
    match n {
        Node::Element(e) => {
            let formatting = child_named(*e, "rPr"@);
            let text = child_text(*e, "t"@);
            match element_name(*e) {
                Some(name) => if name == "r"@ {
                    with_run(pieces, RunView { formatting, text: Some(text) }, run_link(formatting))
                } else if name == "br"@ {
                    pieces.push(PieceView::Run(RunView { formatting, text: None }))
                } else if name == "fld"@ && text.len() > 0 {
                    with_run(pieces, RunView { formatting, text: Some(text) }, run_link(formatting))
                } else {
                    pieces
                },
                None => pieces,
            }
        },
        _ => pieces,
    }
}

/// The members of a paragraph that a list of nodes states, in document order.
pub open spec fn pieces_in(nodes: Seq<Node>) -> Seq<PieceView>
    decreases nodes.len(),
{
    if nodes.len() == 0 {
        Seq::empty()
    } else {
        with_node(pieces_in(nodes.drop_last()), nodes.last())
    }
}

/// Two neighbours in a paragraph are never two hyperlinks to the same place.
pub proof fn neighbouring_links_differ(nodes: Seq<Node>, i: int)
    requires
        0 <= i < pieces_in(nodes).len() - 1,
    ensures
        pieces_in(nodes)[i] matches PieceView::Link(a, _) ==> (pieces_in(nodes)[i
            + 1] matches PieceView::Link(b, _) ==> a != b),
    decreases nodes.len(),
{
    let before = pieces_in(nodes.drop_last());
    if i < before.len() - 1 {
        neighbouring_links_differ(nodes.drop_last(), i);
    }
}

/// Whether run formatting is what an optional element states.
pub open spec fn is_formatting(e: Option<Element>, p: RunProperties) -> bool {
    match e {
        Some(x) => is_run_properties(x, p),
        None => p == unset_run(),
    }
}

/// Whether a run is the one that a paragraph states.
pub open spec fn is_run(v: RunView, r: TextRun) -> bool {
    &&& is_formatting(v.formatting, r.properties)
    &&& r.content@.len() == 1
    &&& match v.text {
        Some(s) => r.content@[0] matches RunElement::Text(t) && t@ == s,
        None => r.content@[0] is LineBreak,
    }
}

/// Whether an inline is the run that a paragraph states.
pub open spec fn is_run_inline(v: RunView, i: Inline) -> bool {
    i matches Inline::TextRun(r) && is_run(v, *r)
}

/// Whether an inline is the member that a paragraph states.
pub open spec fn is_piece(v: PieceView, i: Inline) -> bool {
    match v {
        PieceView::Run(r) => is_run_inline(r, i),
        PieceView::Link(l, runs) => {
            &&& i matches Inline::Hyperlink(h)
            &&& link_view(h.target) == l
            &&& h.content@.len() == runs.len()
            &&& forall|k: int|
                0 <= k < runs.len() ==> is_run_inline(runs[k], #[trigger] h.content@[k])
        },
    }
}

/// Whether inlines are the members that a paragraph states.
pub open spec fn are_pieces(pieces: Seq<PieceView>, content: Seq<Inline>) -> bool {
    &&& content.len() == pieces.len()
    &&& forall|k: int| 0 <= k < pieces.len() ==> is_piece(pieces[k], #[trigger] content[k])
}

/// Appends a run, in a hyperlink where it leads somewhere.
fn push_maybe_linked(
    run: Inline,
    target: Option<HyperlinkTarget>,
    out: &mut Vec<Inline>,
    Ghost(v): Ghost<RunView>,
    Ghost(pieces): Ghost<Seq<PieceView>>,
)
    requires
        is_run_inline(v, run),
        are_pieces(pieces, old(out)@),
    ensures
        are_pieces(
            with_run(
                pieces,
                v,
                match target {
                    Some(t) => Some(link_view(t)),
                    None => None,
                },
            ),
            final(out)@,
        ),
{
    let target: HyperlinkTarget = match target {
        Some(t) => t,
        None => {
            out.push(run);
            return;
        },
    };
    let ghost before = out@;
    match out.pop() {
        Some(Inline::Hyperlink(mut prev)) => {
            assert(is_piece(pieces.last(), before.last()));
            if same_target(&prev.target, &target) {
                let ghost runs = pieces.last()->Link_1;
                let ghost was = prev.content@;
                prev.content.push(run);
                let ghost joined = runs.push(v);
                assert forall|k: int| 0 <= k < joined.len() implies is_run_inline(
                    joined[k],
                    #[trigger] prev.content@[k],
                ) by {
                    if k < runs.len() {
                        assert(was[k] == prev.content@[k]);
                    }
                }
                out.push(Inline::Hyperlink(prev));
            } else {
                out.push(Inline::Hyperlink(prev));
                assert(out@ =~= before);
                let mut content: Vec<Inline> = Vec::new();
                content.push(run);
                out.push(Inline::Hyperlink(Hyperlink { target, content }));
            }
        },
        Some(other) => {
            assert(is_piece(pieces.last(), before.last()));
            out.push(other);
            assert(out@ =~= before);
            let mut content: Vec<Inline> = Vec::new();
            content.push(run);
            out.push(Inline::Hyperlink(Hyperlink { target, content }));
        },
        None => {
            let mut content: Vec<Inline> = Vec::new();
            content.push(run);
            out.push(Inline::Hyperlink(Hyperlink { target, content }));
        },
    }
}

/// The formatting that an optional element states.
fn read_formatting(e: Option<&Element>) -> (p: RunProperties)
    ensures
        is_formatting(
            match e {
                Some(x) => Some(*x),
                None => None,
            },
            p,
        ),
{
    match e {
        Some(x) => read_run_properties(x),
        None => RunProperties::default(),
    }
}

/// A run with one piece of content.
fn one_piece_run(formatting: Option<&Element>, piece: RunElement) -> (r: Inline)
    ensures
        r matches Inline::TextRun(run) && is_formatting(
            match formatting {
                Some(x) => Some(*x),
                None => None,
            },
            run.properties,
        ) && run.content@ == seq![piece],
{
    let mut content: Vec<RunElement> = Vec::new();
    content.push(piece);
    assert(content@ =~= seq![piece]);
    Inline::TextRun(Box::new(TextRun { properties: read_formatting(formatting), content }))
}

/// The text of a child, empty where there is none.
fn read_child_text(e: &Element, name: &str) -> (r: String)
    ensures
        r@ == child_text(*e, name@),
{
    match child(e, name) {
        Some(t) => element_text(t),
        None => String::new(),
    }
}

/// Appends what a node states to the members of a paragraph.
fn push_node(n: &Node, out: &mut Vec<Inline>, Ghost(pieces): Ghost<Seq<PieceView>>)
    requires
        are_pieces(pieces, old(out)@),
    ensures
        are_pieces(with_node(pieces, *n), final(out)@),
{
    match n {
        Node::Element(e) => {
            let name: String = match element_local_name(e) {
                Some(n) => n,
                None => {
                    return;
                },
            };
            proof {
                reveal_strlit("r");
                reveal_strlit("fld");
                reveal_strlit("br");
                assert("r"@.len() != "fld"@.len());
                assert("br"@.len() != "fld"@.len());
                assert("r"@.len() != "br"@.len());
            }
            let field: bool = str_eq(name.as_str(), "fld");
            let formatting: Option<&Element> = child(e, "rPr");
            let ghost view = child_named(**e, "rPr"@);
            if field || str_eq(name.as_str(), "r") {
                let text: String = read_child_text(e, "t");
                if !field || !text.as_str().is_empty() {
                    let target: Option<HyperlinkTarget> = match formatting {
                        Some(f) => hyperlink_target(f),
                        None => None,
                    };
                    let ghost v = RunView { formatting: view, text: Some(text@) };
                    let run: Inline = one_piece_run(formatting, RunElement::Text(text));
                    push_maybe_linked(run, target, out, Ghost(v), Ghost(pieces));
                }
            } else if str_eq(name.as_str(), "br") {
                let ghost v = RunView { formatting: view, text: None };
                let run: Inline = one_piece_run(formatting, RunElement::LineBreak);
                out.push(run);
            }
        },
        _ => {},
    }
}

/// The formatting of a level, at most the deepest that a list has.
pub open spec fn clamped_level(v: Option<u8>) -> Option<u8> {
    match v {
        Some(l) => Some(if l < MAX_LIST_LEVEL {
            l
        } else {
            (MAX_LIST_LEVEL - 1) as u8
        }),
        None => None,
    }
}

/// The spacing that an element states: a percentage before points.
pub open spec fn spacing_in(e: Option<Element>) -> Option<Spacing> {
    match e {
        Some(x) => match reads(opt_attr_of(child_named(x, "spcPct"@), "val"@)) {
            Some(p) => Some(Spacing::Percent(p)),
            None => match reads(opt_attr_of(child_named(x, "spcPts"@), "val"@)) {
                Some(p) => Some(Spacing::Points(p)),
                None => None,
            },
        },
        None => None,
    }
}

/// The spacing that an element states.
fn read_spacing(e: Option<&Element>) -> (r: Option<Spacing>)
    ensures
        r == spacing_in(
            match e {
                Some(x) => Some(*x),
                None => None,
            },
        ),
{
    match e {
        Some(x) => match crate::xml::lenient::opt_val_attr(x, "spcPct") {
            Some(p) => Some(Spacing::Percent(p)),
            None => match crate::xml::lenient::opt_val_attr(x, "spcPts") {
                Some(p) => Some(Spacing::Points(p)),
                None => None,
            },
        },
        None => None,
    }
}

/// Whether a numbering scheme is the one of the given name.
pub open spec fn is_scheme(s: Seq<char>, a: AutoNumberScheme) -> bool {
    if s == "arabicPeriod"@ {
        a is ArabicPeriod
    } else if s == "arabicParenR"@ {
        a is ArabicParenR
    } else if s == "arabicParenBoth"@ {
        a is ArabicParenBoth
    } else if s == "alphaLcPeriod"@ {
        a is AlphaLcPeriod
    } else if s == "alphaUcPeriod"@ {
        a is AlphaUcPeriod
    } else if s == "alphaLcParenR"@ {
        a is AlphaLcParenR
    } else if s == "alphaUcParenR"@ {
        a is AlphaUcParenR
    } else if s == "romanLcPeriod"@ {
        a is RomanLcPeriod
    } else if s == "romanUcPeriod"@ {
        a is RomanUcPeriod
    } else {
        a matches AutoNumberScheme::Other(n) && n@ == s
    }
}

impl AutoNumberScheme {
    /// The numbering scheme of the given name.
    pub fn from_str(s: &str) -> (r: Self)
        ensures
            is_scheme(s@, r),
    {
        if str_eq(s, "arabicPeriod") {
            AutoNumberScheme::ArabicPeriod
        } else if str_eq(s, "arabicParenR") {
            AutoNumberScheme::ArabicParenR
        } else if str_eq(s, "arabicParenBoth") {
            AutoNumberScheme::ArabicParenBoth
        } else if str_eq(s, "alphaLcPeriod") {
            AutoNumberScheme::AlphaLcPeriod
        } else if str_eq(s, "alphaUcPeriod") {
            AutoNumberScheme::AlphaUcPeriod
        } else if str_eq(s, "alphaLcParenR") {
            AutoNumberScheme::AlphaLcParenR
        } else if str_eq(s, "alphaUcParenR") {
            AutoNumberScheme::AlphaUcParenR
        } else if str_eq(s, "romanLcPeriod") {
            AutoNumberScheme::RomanLcPeriod
        } else if str_eq(s, "romanUcPeriod") {
            AutoNumberScheme::RomanUcPeriod
        } else {
            AutoNumberScheme::Other(s.to_owned())
        }
    }
}

/// An attribute's value, empty where it is absent.
pub open spec fn attr_text(e: Element, name: Seq<char>) -> Seq<char> {
    match attr(e, name) {
        Some(s) => s,
        None => Seq::empty(),
    }
}

/// An attribute's value, empty where it is absent.
fn read_attr_text(e: &Element, name: &str) -> (r: String)
    ensures
        r@ == attr_text(*e, name@),
{
    match attribute(e, name) {
        Some(s) => s,
        None => String::new(),
    }
}

/// Whether a bullet is the one that a paragraph formatting element states.
/// An explicit absence wins over a number, and a number over a character; a
/// character bullet without a character is none.
pub open spec fn is_bullet(e: Element, b: Option<Bullet>) -> bool {
    if child_named(e, "buNone"@) is Some {
        b == Some(Bullet::NoBullet)
    } else {
        match child_named(e, "buAutoNum"@) {
            Some(a) => b matches Some(Bullet::AutoNumber { scheme, start_at }) && is_scheme(
                attr_text(a, "type"@),
                scheme,
            ) && start_at == reads::<u32>(attr(a, "startAt"@)),
            None => match child_named(e, "buChar"@) {
                Some(c) => if attr_text(c, "char"@).len() > 0 {
                    b matches Some(Bullet::Character { char, font }) && char@ == attr_text(
                        c,
                        "char"@,
                    ) && opt_view(font) == opt_attr_of(child_named(e, "buFont"@), "typeface"@)
                } else {
                    b is None
                },
                None => b is None,
            },
        }
    }
}

/// The bullet that a paragraph formatting element states.
fn read_bullet(e: &Element) -> (b: Option<Bullet>)
    ensures
        is_bullet(*e, b),
{
    if child(e, "buNone").is_some() {
        return Some(Bullet::NoBullet);
    }
    match child(e, "buAutoNum") {
        Some(a) => {
            let name: String = read_attr_text(a, "type");
            Some(
                Bullet::AutoNumber {
                    scheme: AutoNumberScheme::from_str(name.as_str()),
                    start_at: opt_attr(a, "startAt"),
                },
            )
        },
        None => match child(e, "buChar") {
            Some(c) => {
                let char: String = read_attr_text(c, "char");
                if char.as_str().is_empty() {
                    None
                } else {
                    Some(
                        Bullet::Character {
                            char,
                            font: attribute_of(child(e, "buFont"), "typeface"),
                        },
                    )
                }
            },
            None => None,
        },
    }
}

/// Whether paragraph formatting is what an element states.
pub open spec fn is_paragraph_properties(e: Element, p: TextParagraphProperties) -> bool {
    &&& p.level == clamped_level(reads(attr(e, "lvl"@)))
    &&& p.alignment == reads::<Alignment>(attr(e, "algn"@))
    &&& p.margin_left == reads::<Dimension<Emu>>(attr(e, "marL"@))
    &&& p.margin_right == reads::<Dimension<Emu>>(attr(e, "marR"@))
    &&& p.indent == reads::<Dimension<Emu>>(attr(e, "indent"@))
    &&& p.default_tab_size == reads::<Dimension<Emu>>(attr(e, "defTabSz"@))
    &&& p.rtl == ooxml_bool(attr(e, "rtl"@))
    &&& p.line_spacing == spacing_in(child_named(e, "lnSpc"@))
    &&& p.space_before == spacing_in(child_named(e, "spcBef"@))
    &&& p.space_after == spacing_in(child_named(e, "spcAft"@))
    &&& is_bullet(e, p.bullet)
    &&& match child_named(e, "defRPr"@) {
        Some(d) => p.default_run_properties matches Some(r) && is_run_properties(d, r),
        None => p.default_run_properties is None,
    }
}

/// The paragraph formatting that an element states.
pub fn read_paragraph_properties(e: &Element) -> (p: TextParagraphProperties)
    ensures
        is_paragraph_properties(*e, p),
{
    let stated: Option<u8> = opt_attr(e, "lvl");
    TextParagraphProperties {
        level: match stated {
            Some(l) => Some(if l < MAX_LIST_LEVEL {
                l
            } else {
                MAX_LIST_LEVEL - 1
            }),
            None => None,
        },
        alignment: opt_attr(e, "algn"),
        margin_left: opt_attr(e, "marL"),
        margin_right: opt_attr(e, "marR"),
        indent: opt_attr(e, "indent"),
        default_tab_size: opt_attr(e, "defTabSz"),
        rtl: opt_ooxml_bool(e, "rtl"),
        line_spacing: read_spacing(child(e, "lnSpc")),
        space_before: read_spacing(child(e, "spcBef")),
        space_after: read_spacing(child(e, "spcAft")),
        bullet: read_bullet(e),
        default_run_properties: match child(e, "defRPr") {
            Some(d) => Some(read_run_properties(d)),
            None => None,
        },
    }
}

/// The element that states the formatting of a level, counted from zero.
pub open spec fn level_name(level: int) -> Seq<char> {
    if level == 0 {
        "lvl1pPr"@
    } else if level == 1 {
        "lvl2pPr"@
    } else if level == 2 {
        "lvl3pPr"@
    } else if level == 3 {
        "lvl4pPr"@
    } else if level == 4 {
        "lvl5pPr"@
    } else if level == 5 {
        "lvl6pPr"@
    } else if level == 6 {
        "lvl7pPr"@
    } else if level == 7 {
        "lvl8pPr"@
    } else {
        "lvl9pPr"@
    }
}

/// Whether the formatting of a level is what a list style element states.
pub open spec fn is_level(
    e: Element,
    name: Seq<char>,
    l: Option<Box<TextParagraphProperties>>,
) -> bool {
    match child_named(e, name) {
        Some(x) => l matches Some(p) && is_paragraph_properties(x, *p),
        None => l is None,
    }
}

/// Whether a list style is what an element states.
pub open spec fn is_list_style(e: Option<Element>, l: ListStyle) -> bool {
    match e {
        Some(x) => forall|i: int|
            0 <= i < 9 ==> is_level(x, level_name(i), #[trigger] l.levels@[i]),
        None => l.states_nothing(),
    }
}

/// The formatting of a level that a list style element states.
fn read_level(e: &Element, name: &str) -> (l: Option<Box<TextParagraphProperties>>)
    ensures
        is_level(*e, name@, l),
{
    match child(e, name) {
        Some(x) => Some(Box::new(read_paragraph_properties(x))),
        None => None,
    }
}

/// The list style that an element states.
pub fn read_list_style(e: Option<&Element>) -> (l: ListStyle)
    ensures
        is_list_style(
            match e {
                Some(x) => Some(*x),
                None => None,
            },
            l,
        ),
{
    match e {
        Some(x) => ListStyle {
            levels: [
                read_level(x, "lvl1pPr"),
                read_level(x, "lvl2pPr"),
                read_level(x, "lvl3pPr"),
                read_level(x, "lvl4pPr"),
                read_level(x, "lvl5pPr"),
                read_level(x, "lvl6pPr"),
                read_level(x, "lvl7pPr"),
                read_level(x, "lvl8pPr"),
                read_level(x, "lvl9pPr"),
            ],
        },
        None => ListStyle::default(),
    }
}

/// Whether a paragraph is what an element states. Of several formattings of
/// the paragraph mark the last counts.
pub open spec fn is_paragraph(e: Element, p: TextParagraph) -> bool {
    let marks = children_named(e, "endParaRPr"@);
    &&& match child_named(e, "pPr"@) {
        Some(x) => is_paragraph_properties(x, p.properties),
        None => p.properties == unset_paragraph(),
    }
    &&& are_pieces(pieces_in(e.children@), p.content@)
    &&& if marks.len() > 0 {
        p.end_run_properties matches Some(r) && is_run_properties(marks.last(), r)
    } else {
        p.end_run_properties is None
    }
}

/// The paragraph that an element states.
pub fn read_paragraph(e: &Element) -> (p: TextParagraph)
    ensures
        is_paragraph(*e, p),
{
    let mut content: Vec<Inline> = Vec::new();
    let mut i: usize = 0;
    while i < e.children.len()
        invariant
            i <= e.children@.len(),
            are_pieces(pieces_in(e.children@.take(i as int)), content@),
        decreases e.children@.len() - i,
    {
        assert(e.children@.take(i + 1).drop_last() =~= e.children@.take(i as int));
        push_node(
            &e.children[i],
            &mut content,
            Ghost(pieces_in(e.children@.take(i as int))),
        );
        i = i + 1;
    }
    assert(e.children@.take(i as int) =~= e.children@);
    let marks: Vec<&Element> = children(e, "endParaRPr");
    TextParagraph {
        properties: match child(e, "pPr") {
            Some(x) => read_paragraph_properties(x),
            None => TextParagraphProperties::default(),
        },
        content,
        end_run_properties: if marks.len() > 0 {
            Some(read_run_properties(marks[marks.len() - 1]))
        } else {
            None
        },
    }
}

/// Whether a text body is what an element states.
pub open spec fn is_text_body(e: Element, b: TextBody) -> bool {
    let stated = children_named(e, "p"@);
    &&& b.body_pr == match child_named(e, "bodyPr"@) {
        Some(x) => Some(body_properties(x)),
        None => None,
    }
    &&& is_list_style(child_named(e, "lstStyle"@), b.list_style)
    &&& b.paragraphs@.len() == stated.len()
    &&& forall|i: int|
        0 <= i < stated.len() ==> is_paragraph(stated[i], #[trigger] b.paragraphs@[i])
}

/// The text body that an element states.
pub fn read_text_body(e: &Element) -> (b: TextBody)
    ensures
        is_text_body(*e, b),
{
    let stated: Vec<&Element> = children(e, "p");
    let mut paragraphs: Vec<TextParagraph> = Vec::new();
    let mut i: usize = 0;
    while i < stated.len()
        invariant
            stated@.len() == children_named(*e, "p"@).len(),
            forall|k: int|
                0 <= k < stated@.len() ==> *#[trigger] stated@[k] == children_named(
                    *e,
                    "p"@,
                )[k],
            i <= stated@.len(),
            paragraphs@.len() == i,
            forall|k: int|
                0 <= k < i ==> is_paragraph(
                    children_named(*e, "p"@)[k],
                    #[trigger] paragraphs@[k],
                ),
        decreases stated@.len() - i,
    {
        paragraphs.push(read_paragraph(stated[i]));
        i = i + 1;
    }
    TextBody {
        body_pr: match child(e, "bodyPr") {
            Some(x) => Some(read_body_properties(x)),
            None => None,
        },
        list_style: read_list_style(child(e, "lstStyle")),
        paragraphs,
    }
}

/// The text of a run as a paragraph states it.
pub open spec fn run_view_text(v: RunView) -> Seq<char> {
    match v.text {
        Some(s) => s,
        None => seq!['\n'],
    }
}

/// The text of runs.
pub open spec fn runs_text(runs: Seq<RunView>) -> Seq<char>
    decreases runs.len(),
{
    if runs.len() == 0 {
        Seq::empty()
    } else {
        runs_text(runs.drop_last()) + run_view_text(runs.last())
    }
}

/// The text of the members of a paragraph.
pub open spec fn pieces_text(pieces: Seq<PieceView>) -> Seq<char>
    decreases pieces.len(),
{
    if pieces.len() == 0 {
        Seq::empty()
    } else {
        pieces_text(pieces.drop_last()) + match pieces.last() {
            PieceView::Run(r) => run_view_text(r),
            PieceView::Link(_, runs) => runs_text(runs),
        }
    }
}

/// The text that paragraph elements state, one line for each.
pub open spec fn paragraph_lines(stated: Seq<Element>) -> Seq<char>
    decreases stated.len(),
{
    if stated.len() == 0 {
        Seq::empty()
    } else if stated.len() == 1 {
        pieces_text(pieces_in(stated[0].children@))
    } else {
        paragraph_lines(stated.drop_last()) + seq!['\n'] + pieces_text(
            pieces_in(stated.last().children@),
        )
    }
}

/// The text that a text body element states.
pub open spec fn body_text(e: Element) -> Seq<char> {
    paragraph_lines(children_named(e, "p"@))
}

proof fn run_inline_text(v: RunView, i: Inline)
    requires
        is_run_inline(v, i),
    ensures
        i matches Inline::TextRun(r) && run_text(r.content@) == run_view_text(v),
{
    let r = i->TextRun_0;
    assert(r.content@.drop_last() =~= Seq::<RunElement>::empty());
    assert(r.content@.last() == r.content@[0]);
    assert(run_text(r.content@.drop_last()) =~= Seq::<char>::empty());
    assert(run_text(r.content@) =~= piece_text(r.content@[0]));
}

proof fn linked_text(runs: Seq<RunView>, content: Seq<Inline>)
    requires
        content.len() == runs.len(),
        forall|k: int| 0 <= k < runs.len() ==> is_run_inline(runs[k], #[trigger] content[k]),
    ensures
        inline_text(content) == runs_text(runs),
    decreases runs.len(),
{
    if runs.len() > 0 {
        let last = content.last();
        assert(is_run_inline(runs.last(), content[content.len() - 1]));
        run_inline_text(runs.last(), last);
        assert forall|k: int| 0 <= k < runs.drop_last().len() implies is_run_inline(
            runs.drop_last()[k],
            #[trigger] content.drop_last()[k],
        ) by {
            assert(content.drop_last()[k] == content[k]);
        }
        linked_text(runs.drop_last(), content.drop_last());
    }
}

proof fn member_text(pieces: Seq<PieceView>, content: Seq<Inline>)
    requires
        are_pieces(pieces, content),
    ensures
        inline_text(content) == pieces_text(pieces),
    decreases pieces.len(),
{
    if pieces.len() > 0 {
        assert(is_piece(pieces.last(), content[content.len() - 1]));
        match pieces.last() {
            PieceView::Run(r) => {
                run_inline_text(r, content.last());
            },
            PieceView::Link(_, runs) => {
                linked_text(runs, content.last()->Hyperlink_0.content@);
            },
        }
        assert(are_pieces(pieces.drop_last(), content.drop_last())) by {
            assert forall|k: int| 0 <= k < pieces.drop_last().len() implies is_piece(
                pieces.drop_last()[k],
                #[trigger] content.drop_last()[k],
            ) by {
                assert(content.drop_last()[k] == content[k]);
            }
        }
        member_text(pieces.drop_last(), content.drop_last());
    }
}

proof fn paragraphs_text(stated: Seq<Element>, paragraphs: Seq<TextParagraph>)
    requires
        paragraphs.len() == stated.len(),
        forall|i: int| 0 <= i < stated.len() ==> is_paragraph(stated[i], #[trigger] paragraphs[i]),
    ensures
        lines(paragraphs) == paragraph_lines(stated),
    decreases stated.len(),
{
    if stated.len() > 0 {
        let n = stated.len() - 1;
        assert(is_paragraph(stated[n], paragraphs[n]));
        member_text(pieces_in(stated.last().children@), paragraphs.last().content@);
        if stated.len() > 1 {
            assert forall|i: int| 0 <= i < stated.drop_last().len() implies is_paragraph(
                stated.drop_last()[i],
                #[trigger] paragraphs.drop_last()[i],
            ) by {
                assert(paragraphs.drop_last()[i] == paragraphs[i]);
            }
            paragraphs_text(stated.drop_last(), paragraphs.drop_last());
        }
    }
}

/// The text of a text body is the text that its element states.
pub proof fn text_is_preserved(e: Element, b: TextBody)
    requires
        is_text_body(e, b),
    ensures
        lines(b.paragraphs@) == body_text(e),
{
    paragraphs_text(children_named(e, "p"@), b.paragraphs@);
}

} // verus!
