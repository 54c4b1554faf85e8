//! Text bodies: paragraphs, runs, and the formatting that levels of a list
//! carry.
use vstd::prelude::*;

use crate::dimension::{Dimension, Emu, HundredthPoints, ThousandthPercent};
use crate::model::drawing::{BodyProperties, RelId};
use crate::model::run::{Alignment, RunProperties};

verus! {

/// The number of list levels.
pub const MAX_LIST_LEVEL: u8 = 9;

/// One piece of a run.
#[derive(Debug, PartialEq, Eq)]
pub enum RunElement {
    Text(String),
    LineBreak,
    Tab,
}

/// Text in one formatting.
#[derive(Debug, PartialEq, Eq)]
pub struct TextRun {
    pub properties: RunProperties,
    pub content: Vec<RunElement>,
}

/// Where a hyperlink leads.
#[derive(Debug, PartialEq, Eq)]
pub enum HyperlinkTarget {
    /// The target of a relationship.
    ExternalRel(RelId),
    ExternalUrl(String),
    /// A place in the document.
    Internal { anchor: String },
}

/// A hyperlink over part of a paragraph.
#[derive(Debug, PartialEq, Eq)]
pub struct Hyperlink {
    pub target: HyperlinkTarget,
    pub content: Vec<Inline>,
}

/// A member of a paragraph.
#[derive(Debug, PartialEq, Eq)]
pub enum Inline {
    TextRun(Box<TextRun>),
    Hyperlink(Hyperlink),
}

/// The text of a piece of a run.
pub open spec fn piece_text(e: RunElement) -> Seq<char> {
    match e {
        RunElement::Text(t) => t@,
        RunElement::LineBreak => seq!['\n'],
        RunElement::Tab => seq!['\t'],
    }
}

/// The text of a run.
pub open spec fn run_text(pieces: Seq<RunElement>) -> Seq<char>
    decreases pieces.len(),
{
    if pieces.len() == 0 {
        Seq::empty()
    } else {
        run_text(pieces.drop_last()) + piece_text(pieces.last())
    }
}

/// The text of the members of a paragraph, those of hyperlinks among them.
pub open spec fn inline_text(inlines: Seq<Inline>) -> Seq<char>
    decreases inlines,
{
    if inlines.len() == 0 {
        Seq::empty()
    } else {
        inline_text(inlines.drop_last()) + match inlines.last() {
            Inline::TextRun(run) => run_text(run.content@),
            Inline::Hyperlink(link) => inline_text(link.content@),
        }
    }
}

/// Appends the text of the members of a paragraph.
fn collect_text(inlines: &Vec<Inline>, out: &mut String)
    ensures
        final(out)@ == old(out)@ + inline_text(inlines@),
    decreases inlines@,
{
    let ghost start = out@;
    let mut i: usize = 0;
    assert(start + inline_text(inlines@.take(0)) =~= start);
    while i < inlines.len()
        invariant
            i <= inlines@.len(),
            out@ == start + inline_text(inlines@.take(i as int)),
        decreases inlines@.len() - i,
    {
        let ghost part = inlines@.take(i + 1);
        assert(part.drop_last() =~= inlines@.take(i as int));
        assert(part.last() == inlines@[i as int]);
        match &inlines[i] {
            Inline::TextRun(run) => {
                let ghost before = out@;
                let mut k: usize = 0;
                assert(before + run_text(run.content@.take(0)) =~= before);
                while k < run.content.len()
                    invariant
                        k <= run.content@.len(),
                        out@ == before + run_text(run.content@.take(k as int)),
                    decreases run.content@.len() - k,
                {
                    let ghost pieces = run.content@.take(k + 1);
                    assert(pieces.drop_last() =~= run.content@.take(k as int));
                    let ghost was = out@;
                    match &run.content[k] {
                        RunElement::Text(t) => {
                            out.append(t.as_str());
                        },
                        RunElement::LineBreak => {
                            proof {
                                reveal_strlit("\n");
                            }
                            out.append("\n");
                            assert("\n"@ =~= seq!['\n']);
                        },
                        RunElement::Tab => {
                            proof {
                                reveal_strlit("\t");
                            }
                            out.append("\t");
                            assert("\t"@ =~= seq!['\t']);
                        },
                    }
                    assert(out@ =~= before + (run_text(run.content@.take(k as int)) + piece_text(
                        run.content@[k as int],
                    )));
                    k = k + 1;
                }
                assert(run.content@.take(k as int) =~= run.content@);
                assert(out@ =~= start + (inline_text(inlines@.take(i as int)) + run_text(
                    run.content@,
                )));
            },
            Inline::Hyperlink(link) => {
                assert(decreases_to!(inlines@ => inlines@[i as int]));
                collect_text(&link.content, out);
                assert(out@ =~= start + (inline_text(inlines@.take(i as int)) + inline_text(
                    link.content@,
                )));
            },
        }
        i = i + 1;
    }
    assert(inlines@.take(i as int) =~= inlines@);
}

/// A text body.
#[derive(Debug)]
pub struct TextBody {
    /// Insets, anchoring, fitting and rotation.
    pub body_pr: Option<BodyProperties>,
    /// The formatting that this body states for each level of a list.
    pub list_style: ListStyle,
    pub paragraphs: Vec<TextParagraph>,
}

/// The texts of paragraphs, one line for each.
pub open spec fn lines(paragraphs: Seq<TextParagraph>) -> Seq<char>
    decreases paragraphs.len(),
{
    if paragraphs.len() == 0 {
        Seq::empty()
    } else if paragraphs.len() == 1 {
        inline_text(paragraphs[0].content@)
    } else {
        lines(paragraphs.drop_last()) + seq!['\n'] + inline_text(paragraphs.last().content@)
    }
}

impl TextBody {
    /// Whether no paragraph has any text.
    pub open spec fn has_no_text(self) -> bool {
        forall|i: int|
            0 <= i < self.paragraphs@.len() ==> inline_text(
                (#[trigger] self.paragraphs@[i]).content@,
            ).len() == 0
    }

    /// Whether the body carries no text at all.
    pub fn is_empty(&self) -> (r: bool)
        ensures
            r == self.has_no_text(),
    {
        let mut i: usize = 0;
        while i < self.paragraphs.len()
            invariant
                i <= self.paragraphs@.len(),
                forall|j: int|
                    0 <= j < i ==> inline_text((#[trigger] self.paragraphs@[j]).content@).len()
                        == 0,
            decreases self.paragraphs@.len() - i,
        {
            let text: String = self.paragraphs[i].text();
            if !text.as_str().is_empty() {
                assert(inline_text(self.paragraphs@[i as int].content@).len() != 0);
                return false;
            }
            i = i + 1;
        }
        true
    }

    /// The text, one line for each paragraph.
    pub fn plain_text(&self) -> (r: String)
        ensures
            r@ == lines(self.paragraphs@),
    {
        let mut out: String = String::new();
        let mut i: usize = 0;
        while i < self.paragraphs.len()
            invariant
                i <= self.paragraphs@.len(),
                out@ == lines(self.paragraphs@.take(i as int)),
            decreases self.paragraphs@.len() - i,
        {
            let ghost part = self.paragraphs@.take(i + 1);
            assert(part.drop_last() =~= self.paragraphs@.take(i as int));
            assert(part.last() == self.paragraphs@[i as int]);
            let ghost before = out@;
            if i > 0 {
                proof {
                    reveal_strlit("\n");
                }
                out.append("\n");
                assert("\n"@ =~= seq!['\n']);
            }
            let text: String = self.paragraphs[i].text();
            out.append(text.as_str());
            proof {
                if i == 0 {
                    assert(out@ =~= text@);
                    assert(part[0] == self.paragraphs@[0]);
                }
            }
            i = i + 1;
        }
        assert(self.paragraphs@.take(i as int) =~= self.paragraphs@);
        out
    }
}

/// A paragraph.
#[derive(Debug)]
pub struct TextParagraph {
    /// The paragraph's own formatting, with nothing inherited yet.
    pub properties: TextParagraphProperties,
    pub content: Vec<Inline>,
    /// The formatting of the paragraph mark, the only formatting that an
    /// empty paragraph has.
    pub end_run_properties: Option<RunProperties>,
}

impl TextParagraph {
    /// The text of every run, with line breaks as `\n`.
    pub fn text(&self) -> (r: String)
        ensures
            r@ == inline_text(self.content@),
    {
        let mut out: String = String::new();
        collect_text(&self.content, &mut out);
        assert(Seq::<char>::empty() + inline_text(self.content@) =~= inline_text(self.content@));
        out
    }
}

/// The formatting of the nine levels of a list, counted from zero.
#[derive(Debug)]
pub struct ListStyle {
    pub levels: [Option<Box<TextParagraphProperties>>; 9],
}

impl ListStyle {
    /// The formatting of a level, where the style states one.
    pub open spec fn at(self, level: int) -> Option<TextParagraphProperties> {
        if 0 <= level < 9 {
            match self.levels@[level] {
                Some(p) => Some(*p),
                None => None,
            }
        } else {
            None
        }
    }

    /// Whether no level is stated.
    pub open spec fn states_nothing(self) -> bool {
        forall|i: int| 0 <= i < 9 ==> #[trigger] self.levels@[i] is None
    }

    /// The formatting of a level, counted from zero. A level that a list
    /// cannot have is stated by no style.
    pub fn level(&self, level: u8) -> (r: Option<&TextParagraphProperties>)
        ensures
            r is Some <==> self.at(level as int) is Some,
            r is Some ==> *r->0 == self.at(level as int)->0,
    {
        if level < MAX_LIST_LEVEL {
            match &self.levels[level as usize] {
                Some(p) => Some(&**p),
                None => None,
            }
        } else {
            None
        }
    }

    /// Whether no level is stated.
    pub fn is_empty(&self) -> (r: bool)
        ensures
            r == self.states_nothing(),
    {
        let mut i: usize = 0;
        while i < 9
            invariant
                i <= 9,
                forall|j: int| 0 <= j < i ==> #[trigger] self.levels@[j] is None,
            decreases 9 - i,
        {
            if self.levels[i].is_some() {
                assert(!(self.levels@[i as int] is None));
                return false;
            }
            i = i + 1;
        }
        true
    }
}

impl Default for ListStyle {
    fn default() -> (r: Self)
        ensures
            r.states_nothing(),
    {
        ListStyle { levels: [None, None, None, None, None, None, None, None, None] }
    }
}

/// The formatting of a paragraph. `None` is what the file leaves unsaid.
#[derive(Debug, PartialEq, Eq)]
pub struct TextParagraphProperties {
    /// The outline depth, from 0 to 8.
    pub level: Option<u8>,
    pub alignment: Option<Alignment>,
    /// Where the text starts.
    pub margin_left: Option<Dimension<Emu>>,
    pub margin_right: Option<Dimension<Emu>>,
    /// The indent of the first line from the left margin.
    pub indent: Option<Dimension<Emu>>,
    pub default_tab_size: Option<Dimension<Emu>>,
    pub rtl: Option<bool>,
    pub line_spacing: Option<Spacing>,
    pub space_before: Option<Spacing>,
    pub space_after: Option<Spacing>,
    /// The bullet. `Some(Bullet::NoBullet)` is an explicit absence, which
    /// overrides an inherited bullet.
    pub bullet: Option<Bullet>,
    /// The formatting that the runs of the level start from.
    pub default_run_properties: Option<RunProperties>,
}

/// Formatting that leaves everything unsaid.
pub open spec fn unset_paragraph() -> TextParagraphProperties {
    TextParagraphProperties {
        level: None,
        alignment: None,
        margin_left: None,
        margin_right: None,
        indent: None,
        default_tab_size: None,
        rtl: None,
        line_spacing: None,
        space_before: None,
        space_after: None,
        bullet: None,
        default_run_properties: None,
    }
}

impl Default for TextParagraphProperties {
    fn default() -> (r: Self)
        ensures
            r == unset_paragraph(),
    {
        TextParagraphProperties {
            level: None,
            alignment: None,
            margin_left: None,
            margin_right: None,
            indent: None,
            default_tab_size: None,
            rtl: None,
            line_spacing: None,
            space_before: None,
            space_after: None,
            bullet: None,
            default_run_properties: None,
        }
    }
}

/// A spacing: relative to the line height, or absolute.
#[derive(Debug, Clone, Copy, PartialEq, Eq)]
pub enum Spacing {
    Percent(Dimension<ThousandthPercent>),
    Points(Dimension<HundredthPoints>),
}

/// The bullet of a paragraph.
#[derive(Debug, PartialEq, Eq)]
pub enum Bullet {
    /// Explicitly none.
    NoBullet,
    /// A character, of a font where one is named.
    Character { char: String, font: Option<String> },
    /// A number, counted from `start_at`.
    AutoNumber { scheme: AutoNumberScheme, start_at: Option<u32> },
}

impl Clone for Bullet {
    fn clone(&self) -> (r: Self)
        ensures
            r == *self,
    {
        match self {
            Bullet::NoBullet => Bullet::NoBullet,
            Bullet::Character { char, font } => {
                let copy: Option<String> = font.clone();
                assert(copy == *font);
                Bullet::Character { char: char.clone(), font: copy }
            },
            Bullet::AutoNumber { scheme, start_at } => Bullet::AutoNumber {
                scheme: scheme.clone(),
                start_at: *start_at,
            },
        }
    }
}

/// How the numbers of a list are written.
#[derive(Debug, PartialEq, Eq)]
pub enum AutoNumberScheme {
    /// `1.`
    ArabicPeriod,
    /// `1)`
    ArabicParenR,
    /// `(1)`
    ArabicParenBoth,
    /// `a.`
    AlphaLcPeriod,
    /// `A.`
    AlphaUcPeriod,
    /// `a)`
    AlphaLcParenR,
    /// `A)`
    AlphaUcParenR,
    /// `i.`
    RomanLcPeriod,
    /// `I.`
    RomanUcPeriod,
    /// A scheme that is none of these, by its name.
    Other(String),
}

impl Clone for AutoNumberScheme {
    fn clone(&self) -> (r: Self)
        ensures
            r == *self,
    {
        match self {
            AutoNumberScheme::ArabicPeriod => AutoNumberScheme::ArabicPeriod,
            AutoNumberScheme::ArabicParenR => AutoNumberScheme::ArabicParenR,
            AutoNumberScheme::ArabicParenBoth => AutoNumberScheme::ArabicParenBoth,
            AutoNumberScheme::AlphaLcPeriod => AutoNumberScheme::AlphaLcPeriod,
            AutoNumberScheme::AlphaUcPeriod => AutoNumberScheme::AlphaUcPeriod,
            AutoNumberScheme::AlphaLcParenR => AutoNumberScheme::AlphaLcParenR,
            AutoNumberScheme::AlphaUcParenR => AutoNumberScheme::AlphaUcParenR,
            AutoNumberScheme::RomanLcPeriod => AutoNumberScheme::RomanLcPeriod,
            AutoNumberScheme::RomanUcPeriod => AutoNumberScheme::RomanUcPeriod,
            AutoNumberScheme::Other(s) => AutoNumberScheme::Other(s.clone()),
        }
    }
}

/// A master's formatting for titles, for text and for the rest.
#[derive(Debug)]
pub struct TextStyles {
    pub title: ListStyle,
    pub body: ListStyle,
    pub other: ListStyle,
}

impl TextStyles {
    /// Whether none of the three states anything.
    pub fn is_empty(&self) -> (r: bool)
        ensures
            r == (self.title.states_nothing() && self.body.states_nothing()
                && self.other.states_nothing()),
    {
        self.title.is_empty() && self.body.is_empty() && self.other.is_empty()
    }
}

impl Default for TextStyles {
    fn default() -> (r: Self)
        ensures
            r.title.states_nothing(),
            r.body.states_nothing(),
            r.other.states_nothing(),
    {
        TextStyles {
            title: ListStyle::default(),
            body: ListStyle::default(),
            other: ListStyle::default(),
        }
    }
}

} // verus!
