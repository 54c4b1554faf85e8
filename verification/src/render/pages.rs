//! The pages of a document: which pages each section has, how they are numbered,
//! and what goes on where.
//!
//! The pages of a section are laid out elsewhere, one section after the other.
//! Before each of them it is asked here where the section begins, and behind it
//! it is told how many pages came of it. A section that goes on where the one
//! before it ended takes over the last page of that one.
use vstd::prelude::*;

use crate::dimension::{divide_nearest, nearest};
use crate::docx::run::{FirstLineIndent, Indentation};

verus! {

/// The pages of a section, by their size and margins. Lengths are in EMU.
#[derive(Clone, Copy, Debug, PartialEq, Eq, Structural)]
pub struct PageFacts {
    pub width: i64,
    pub height: i64,
    /// The margin left of the content.
    pub left: i64,
    /// The margin above the content.
    pub top: i64,
    pub content_width: i64,
}

/// A section, by what decides on its pages.
#[derive(Clone, Copy, Debug, PartialEq, Eq, Structural)]
pub struct SectionFacts {
    /// Whether the section goes on on the page on which the one before it ends.
    pub continuous: bool,
    /// The number of its first page, where it states one.
    pub page_number_start: Option<u32>,
    /// How many blocks it holds.
    pub blocks: usize,
    /// Whether its first page has headers and footers of its own.
    pub title_page: Option<bool>,
    pub page: PageFacts,
}

/// Where a section begins.
#[derive(Clone, Copy, Debug, PartialEq, Eq, Structural)]
pub struct SectionStart {
    /// The number of its first page, as readers see it.
    pub logical_page_base: u64,
    /// How many blocks the sections before it hold.
    pub block_base: usize,
    /// Whether it goes on on the page that was held back.
    pub resumes: bool,
}

/// The pages of a section.
#[derive(Clone, Copy, Debug, PartialEq, Eq, Structural)]
pub struct SectionPages {
    /// How many pages come before them.
    pub first: usize,
    /// How many there are. A page that the next section takes over is that
    /// section's.
    pub count: usize,
    /// The number of the first, as readers see it.
    pub logical_page_base: u64,
    pub title_page: bool,
}

/// How far the pages of a document have come.
#[derive(Debug)]
pub struct PageState {
    /// The number of the next page, as readers see it.
    pub next_logical: u64,
    /// How many blocks have been begun.
    pub block_base: usize,
    /// How many pages there are.
    pub pages: usize,
    /// Whether the last page is held back for the next section.
    pub pending: bool,
    pub sections: Vec<SectionPages>,
}

/// How far the pages of a document have come.
pub struct Progress {
    pub next_logical: u64,
    pub block_base: usize,
    pub pages: usize,
    pub pending: bool,
    pub sections: Seq<SectionPages>,
}

impl View for PageState {
    type V = Progress;

    open spec fn view(&self) -> Progress {
        Progress {
            next_logical: self.next_logical,
            block_base: self.block_base,
            pages: self.pages,
            pending: self.pending,
            sections: self.sections@,
        }
    }
}

/// Before any section.
pub open spec fn at_first() -> Progress {
    Progress { next_logical: 1, block_base: 0, pages: 0, pending: false, sections: Seq::empty() }
}

/// The number of the first page of a section: the one that it states, or else
/// the next.
pub open spec fn first_number(next_logical: u64, s: SectionFacts) -> u64 {
    match s.page_number_start {
        Some(n) => n as u64,
        None => next_logical,
    }
}

/// Where a section begins.
pub open spec fn start_of(p: Progress, s: SectionFacts) -> SectionStart {
    SectionStart {
        logical_page_base: first_number(p.next_logical, s),
        block_base: p.block_base,
        resumes: s.continuous && p.pending,
    }
}

/// Whether the last page of a section is held back: the next section goes on on
/// it.
pub open spec fn holds_back(laid: nat, next: Option<SectionFacts>) -> bool {
    laid > 0 && (next matches Some(n) && n.continuous)
}

/// How many pages a section keeps.
pub open spec fn own_pages(laid: nat, next: Option<SectionFacts>) -> nat {
    if holds_back(laid, next) {
        (laid - 1) as nat
    } else {
        laid
    }
}

/// Whether there are numbers for the pages and blocks of a section.
pub open spec fn can_count(
    p: Progress,
    s: SectionFacts,
    laid: nat,
    next: Option<SectionFacts>,
) -> bool {
    &&& p.block_base + s.blocks <= usize::MAX
    &&& p.pages + own_pages(laid, next) <= usize::MAX
    &&& first_number(p.next_logical, s) + own_pages(laid, next) <= u64::MAX
}

/// How far the pages have come behind a section of which so many pages came.
pub open spec fn behind(
    p: Progress,
    s: SectionFacts,
    laid: nat,
    next: Option<SectionFacts>,
) -> Progress {
    let base = first_number(p.next_logical, s);
    let count = own_pages(laid, next);
    Progress {
        next_logical: (base + count) as u64,
        block_base: (p.block_base + s.blocks) as usize,
        pages: (p.pages + count) as usize,
        pending: holds_back(laid, next),
        sections: p.sections.push(
            SectionPages {
                first: p.pages,
                count: count as usize,
                logical_page_base: base,
                title_page: s.title_page == Some(true),
            },
        ),
    }
}

/// What a reference refers to.
pub open spec fn facts_of(s: Option<&SectionFacts>) -> Option<SectionFacts> {
    match s {
        Some(x) => Some(*x),
        None => None,
    }
}

impl PageState {
    /// Before any section. The first page has the number one.
    pub fn new() -> (r: Self)
        ensures
            r@ == at_first(),
    {
        let r: PageState = PageState {
            next_logical: 1,
            block_base: 0,
            pages: 0,
            pending: false,
            sections: Vec::new(),
        };
        assert(r@.sections =~= Seq::empty());
        r
    }

    /// Where a section begins.
    pub fn begin_section(&self, s: &SectionFacts) -> (r: SectionStart)
        ensures
            r == start_of(self@, *s),
    {
        SectionStart {
            logical_page_base: next_logical_page_base(self.next_logical, s),
            block_base: self.block_base,
            resumes: s.continuous && self.pending,
        }
    }

    /// Takes in how many pages came of a section, and tells whether the last of
    /// them is held back for the next section.
    pub fn end_section(
        &mut self,
        s: &SectionFacts,
        laid: usize,
        next: Option<&SectionFacts>,
    ) -> (held: bool)
        requires
            can_count(old(self)@, *s, laid as nat, facts_of(next)),
        ensures
            held == holds_back(laid as nat, facts_of(next)),
            final(self)@ == behind(old(self)@, *s, laid as nat, facts_of(next)),
    {
        let ghost before = self@;
        let next_continues: bool = match next {
            Some(n) => n.continuous,
            None => false,
        };
        let held: bool = laid > 0 && next_continues;
        let count: usize = if held {
            laid - 1
        } else {
            laid
        };
        let base: u64 = next_logical_page_base(self.next_logical, s);
        let title_page: bool = match s.title_page {
            Some(b) => b,
            None => false,
        };
        self.sections.push(
            SectionPages { first: self.pages, count, logical_page_base: base, title_page },
        );
        self.pages = self.pages + count;
        self.block_base = self.block_base + s.blocks;
        self.next_logical = base + count as u64;
        self.pending = held;
        assert(self@ == behind(before, *s, laid as nat, facts_of(next)));
        held
    }
}

/// The number of the first page of a section.
fn next_logical_page_base(next_logical: u64, s: &SectionFacts) -> (r: u64)
    ensures
        r == first_number(next_logical, *s),
{
    match s.page_number_start {
        Some(n) => n as u64,
        None => next_logical,
    }
}

/// The section behind the first so many.
pub open spec fn section_behind(sections: Seq<SectionFacts>, k: int) -> Option<SectionFacts> {
    if 0 <= k < sections.len() {
        Some(sections[k])
    } else {
        None
    }
}

/// How far the pages have come behind the first `k` sections.
pub open spec fn progress(sections: Seq<SectionFacts>, laid: Seq<usize>, k: nat) -> Progress
    decreases k,
{
    if k == 0 {
        at_first()
    } else {
        behind(
            progress(sections, laid, (k - 1) as nat),
            sections[k - 1],
            laid[k - 1] as nat,
            section_behind(sections, k as int),
        )
    }
}

/// Whether there are numbers for all pages and blocks.
pub open spec fn all_can_count(sections: Seq<SectionFacts>, laid: Seq<usize>) -> bool {
    forall|k: int|
        0 <= k < sections.len() ==> can_count(
            #[trigger] progress(sections, laid, k as nat),
            sections[k],
            laid[k] as nat,
            section_behind(sections, k + 1),
        )
}

/// The pages of a document.
#[derive(Debug)]
pub struct DocumentPages {
    pub sections: Vec<SectionPages>,
    /// Where each section begins.
    pub starts: Vec<SectionStart>,
    /// How many pages the sections have together.
    pub section_pages: usize,
    /// The page with the endnotes, where there are any. It comes behind those of
    /// the sections.
    pub endnote_page: Option<EndnotePage>,
    /// The size of the one page of a document that has no other.
    pub blank_page: Option<PageFacts>,
    /// How many pages the document has: the number that headers and footers
    /// tell. It is at least one.
    pub total_pages: usize,
}

/// How many pages a document has whose sections have so many.
pub open spec fn page_count_of(pages: nat, endnotes: bool) -> nat {
    if endnotes {
        pages + 1
    } else if pages == 0 {
        1
    } else {
        pages
    }
}

/// The size and margins of the last section's pages, or those of a document
/// without a section.
pub open spec fn last_page_facts(sections: Seq<SectionFacts>, usual: PageFacts) -> PageFacts {
    if sections.len() > 0 {
        sections.last().page
    } else {
        usual
    }
}

/// Whether the endnotes of a document stand where they should: all on one page
/// of the last section's size, or on none where there are none.
pub open spec fn endnotes_stand(
    page: Option<EndnotePage>,
    sections: Seq<SectionFacts>,
    usual: PageFacts,
    indent: i64,
    notes: Seq<u64>,
) -> bool {
    match page {
        Some(p) => notes.len() > 0 && is_endnote_page(
            p,
            last_page_facts(sections, usual),
            indent,
            notes,
        ),
        None => notes.len() == 0,
    }
}

/// The pages of a document of whose sections so many pages came, and whose
/// endnotes are so high. The line above the notes is moved in by `indent`
/// twentieths of a point. `usual` is the page of a document without a section.
pub fn layout_document(
    sections: &Vec<SectionFacts>,
    laid: &Vec<usize>,
    usual: PageFacts,
    indent: i64,
    notes: &Vec<u64>,
) -> (r: DocumentPages)
    requires
        laid@.len() == sections@.len(),
        all_can_count(sections@, laid@),
        progress(sections@, laid@, sections@.len()).pages < usize::MAX,
        heights_before(notes@, notes@.len()) <= u64::MAX,
    ensures
        ({
            let end = progress(sections@, laid@, sections@.len());
            &&& r.sections@ == end.sections
            &&& r.starts@.len() == sections@.len()
            &&& forall|k: int|
                0 <= k < sections@.len() ==> #[trigger] r.starts@[k] == start_of(
                    progress(sections@, laid@, k as nat),
                    sections@[k],
                )
            &&& r.section_pages == end.pages
            &&& endnotes_stand(r.endnote_page, sections@, usual, indent, notes@)
            &&& r.blank_page == (if end.pages == 0 && notes@.len() == 0 {
                Some(usual)
            } else {
                None
            })
            &&& r.total_pages == page_count_of(end.pages as nat, notes@.len() > 0)
        }),
        r.total_pages == r.section_pages + (if r.endnote_page is Some {
            1int
        } else {
            0int
        }) + (if r.blank_page is Some {
            1int
        } else {
            0int
        }),
{
    let mut state: PageState = PageState::new();
    let mut starts: Vec<SectionStart> = Vec::new();
    let mut last: PageFacts = usual;
    let mut i: usize = 0;
    while i < sections.len()
        invariant
            i <= sections@.len(),
            laid@.len() == sections@.len(),
            all_can_count(sections@, laid@),
            state@ == progress(sections@, laid@, i as nat),
            last == last_page_facts(sections@.take(i as int), usual),
            starts@.len() == i,
            forall|k: int|
                0 <= k < i ==> #[trigger] starts@[k] == start_of(
                    progress(sections@, laid@, k as nat),
                    sections@[k],
                ),
        decreases sections@.len() - i,
    {
        let s: SectionFacts = sections[i];
        starts.push(state.begin_section(&s));
        last = s.page;
        assert(sections@.take(i + 1).last() == s);
        let next: Option<&SectionFacts> = if i + 1 < sections.len() {
            Some(&sections[i + 1])
        } else {
            None
        };
        assert(facts_of(next) == section_behind(sections@, i + 1));
        let ghost k: int = i as int;
        assert(can_count(
            progress(sections@, laid@, k as nat),
            sections@[k],
            laid@[k] as nat,
            section_behind(sections@, k + 1),
        ));
        let _ = state.end_section(&s, laid[i], next);
        i = i + 1;
    }
    assert(sections@.take(i as int) =~= sections@);
    let pages: usize = state.pages;
    let mut total_pages: usize = pages;
    let mut endnote_page: Option<EndnotePage> = None;
    let mut blank_page: Option<PageFacts> = None;
    if notes.len() > 0 {
        endnote_page = Some(layout_endnotes(last, indent, notes));
        total_pages = pages + 1;
    } else if pages == 0 {
        blank_page = Some(usual);
        total_pages = 1;
    }
    DocumentPages {
        sections: state.sections,
        starts,
        section_pages: pages,
        endnote_page,
        blank_page,
        total_pages,
    }
}

/// There are as many ranges of pages as sections, each begins where the one
/// before it ends, and together they hold all pages.
pub proof fn sections_share_the_pages(sections: Seq<SectionFacts>, laid: Seq<usize>, k: nat)
    requires
        laid.len() == sections.len(),
        k <= sections.len(),
        all_can_count(sections, laid),
    ensures
        ({
            let p = progress(sections, laid, k);
            &&& p.sections.len() == k
            &&& k > 0 ==> p.sections[0].first == 0 && p.sections[k - 1].first + p.sections[k
                - 1].count == p.pages
            &&& k == 0 ==> p.pages == 0
            &&& forall|i: int|
                0 <= i < k - 1 ==> (#[trigger] p.sections[i]).first + p.sections[i].count
                    == p.sections[i + 1].first
        }),
    decreases k,
{
    if k > 0 {
        let j = (k - 1) as nat;
        sections_share_the_pages(sections, laid, j);
        let before = progress(sections, laid, j);
        let after = progress(sections, laid, k);
        assert(can_count(
            before,
            sections[j as int],
            laid[j as int] as nat,
            section_behind(sections, k as int),
        ));
        assert(after.sections[k - 1].first == before.pages);
        assert forall|i: int| 0 <= i < k - 1 implies (#[trigger] after.sections[i]).first
            + after.sections[i].count == after.sections[i + 1].first by {
            assert(after.sections[i] == before.sections[i]);
            if i < k - 2 {
                assert(after.sections[i + 1] == before.sections[i + 1]);
            }
        }
        if k > 1 {
            assert(after.sections[0] == before.sections[0]);
        }
    }
}

/// A page that is held back is never lost: the section behind it goes on on it,
/// and behind the last section none is held back.
pub proof fn a_held_page_is_taken_over(sections: Seq<SectionFacts>, laid: Seq<usize>, k: nat)
    requires
        0 < k <= sections.len(),
        progress(sections, laid, k).pending,
    ensures
        k < sections.len(),
        start_of(progress(sections, laid, k), sections[k as int]).resumes,
{
}

/// A section without a number of its own goes on with the numbers of the section
/// before it; one with a number begins with that.
pub proof fn numbers_go_on(sections: Seq<SectionFacts>, laid: Seq<usize>, k: nat)
    requires
        laid.len() == sections.len(),
        0 < k < sections.len(),
        all_can_count(sections, laid),
    ensures
        ({
            let p = progress(sections, laid, k);
            let base = start_of(p, sections[k as int]).logical_page_base;
            match sections[k as int].page_number_start {
                Some(n) => base == n,
                None => base == p.sections[k - 1].logical_page_base + p.sections[k - 1].count,
            }
        }),
{
    let j = (k - 1) as nat;
    sections_share_the_pages(sections, laid, j);
    assert(can_count(
        progress(sections, laid, j),
        sections[j as int],
        laid[j as int] as nat,
        section_behind(sections, k as int),
    ));
}

/// How many blocks the first `k` sections hold.
pub open spec fn blocks_before(sections: Seq<SectionFacts>, k: nat) -> nat
    decreases k,
{
    if k == 0 {
        0
    } else {
        blocks_before(sections, (k - 1) as nat) + sections[k - 1].blocks as nat
    }
}

/// The blocks of a section are counted on from those of the sections before it.
pub proof fn blocks_are_counted_on(sections: Seq<SectionFacts>, laid: Seq<usize>, k: nat)
    requires
        laid.len() == sections.len(),
        k <= sections.len(),
        all_can_count(sections, laid),
    ensures
        progress(sections, laid, k).block_base == blocks_before(sections, k),
    decreases k,
{
    if k > 0 {
        let j = (k - 1) as nat;
        blocks_are_counted_on(sections, laid, j);
        assert(can_count(
            progress(sections, laid, j),
            sections[j as int],
            laid[j as int] as nat,
            section_behind(sections, k as int),
        ));
    }
}

/// How many of the first pages of the first `k` sections are held back.
pub open spec fn held_before(sections: Seq<SectionFacts>, laid: Seq<usize>, k: nat) -> nat
    decreases k,
{
    if k == 0 {
        0
    } else {
        held_before(sections, laid, (k - 1) as nat) + if holds_back(
            laid[k - 1] as nat,
            section_behind(sections, k as int),
        ) {
            1nat
        } else {
            0nat
        }
    }
}

/// How many pages came of the first `k` sections.
pub open spec fn laid_before(laid: Seq<usize>, k: nat) -> nat
    decreases k,
{
    if k == 0 {
        0
    } else {
        laid_before(laid, (k - 1) as nat) + laid[k - 1] as nat
    }
}

/// A page that two sections share is counted once: there are as many pages as
/// came of all sections, less those that were held back.
pub proof fn a_shared_page_counts_once(sections: Seq<SectionFacts>, laid: Seq<usize>, k: nat)
    requires
        laid.len() == sections.len(),
        k <= sections.len(),
        all_can_count(sections, laid),
    ensures
        progress(sections, laid, k).pages + held_before(sections, laid, k) == laid_before(laid, k),
    decreases k,
{
    if k > 0 {
        let j = (k - 1) as nat;
        a_shared_page_counts_once(sections, laid, j);
        assert(can_count(
            progress(sections, laid, j),
            sections[j as int],
            laid[j as int] as nat,
            section_behind(sections, k as int),
        ));
    }
}

/// How far the line above footnotes and endnotes is moved in, in twentieths of a
/// point: as the first line of an ordinary paragraph. A line that hangs out
/// moves it not at all.
pub open spec fn separator_of(indentation: Option<Indentation>) -> i64 {
    match indentation {
        Some(i) => match i.first_line {
            Some(FirstLineIndent::FirstLine(v)) => v.value,
            _ => 0,
        },
        None => 0,
    }
}

/// How far the line above footnotes and endnotes is moved in.
pub fn separator_indent(indentation: &Option<Indentation>) -> (r: i64)
    ensures
        r == separator_of(*indentation),
{
    match indentation {
        Some(i) => match i.first_line {
            Some(FirstLineIndent::FirstLine(v)) => v.raw(),
            _ => 0,
        },
        None => 0,
    }
}

/// Where a floating picture of a header or footer stands.
#[derive(Clone, Copy, Debug, PartialEq, Eq, Structural)]
pub enum FloatY {
    /// From the top of the page.
    Absolute(i64),
    /// From its paragraph.
    RelativeToParagraph(i64),
}

/// A floating picture of a header or footer. Lengths are in EMU.
#[derive(Clone, Copy, Debug, PartialEq, Eq, Structural)]
pub struct FloatFacts {
    /// Whether text keeps clear of it above and below.
    pub wraps_top_and_bottom: bool,
    pub y: FloatY,
    pub height: i64,
}

/// The bottom of a floating picture in a header that begins at a margin.
pub open spec fn header_float_bottom(f: FloatFacts, margin: int) -> int {
    match f.y {
        FloatY::Absolute(y) => y + f.height,
        FloatY::RelativeToParagraph(off) => margin + off + f.height,
    }
}

/// How far a floating picture reaches up from the bottom of the page in a footer
/// that ends at a margin.
pub open spec fn footer_float_extent(f: FloatFacts, margin: int, page_height: int) -> int {
    match f.y {
        FloatY::Absolute(y) => page_height - y,
        FloatY::RelativeToParagraph(off) => margin + off + f.height,
    }
}

/// How far down the floating pictures of a header reach that text keeps clear of.
pub open spec fn header_floats(floats: Seq<FloatFacts>, margin: int) -> int
    decreases floats.len(),
{
    if floats.len() == 0 {
        0
    } else {
        let before = header_floats(floats.drop_last(), margin);
        let last = header_float_bottom(floats.last(), margin);
        if floats.last().wraps_top_and_bottom && last > before {
            last
        } else {
            before
        }
    }
}

/// How far up the floating pictures of a footer reach that text keeps clear of.
pub open spec fn footer_floats(floats: Seq<FloatFacts>, margin: int, page_height: int) -> int
    decreases floats.len(),
{
    if floats.len() == 0 {
        0
    } else {
        let before = footer_floats(floats.drop_last(), margin, page_height);
        let last = footer_float_extent(floats.last(), margin, page_height);
        if floats.last().wraps_top_and_bottom && last > before {
            last
        } else {
            before
        }
    }
}

/// The greater of two numbers.
pub open spec fn greater(a: int, b: int) -> int {
    if a >= b {
        a
    } else {
        b
    }
}

/// How far down a header reaches whose text is so high.
pub fn measure_header_bottom(header_margin: i64, text_height: u64, floats: &Vec<FloatFacts>) -> (r:
    i128)
    ensures
        r == greater(
            header_margin + text_height,
            header_floats(floats@, header_margin as int),
        ),
{
    let mut end: i128 = 0;
    let mut i: usize = 0;
    while i < floats.len()
        invariant
            i <= floats@.len(),
            end == header_floats(floats@.take(i as int), header_margin as int),
        decreases floats@.len() - i,
    {
        assert(floats@.take(i + 1).drop_last() =~= floats@.take(i as int));
        assert(floats@.take(i + 1).last() == floats@[i as int]);
        let f: FloatFacts = floats[i];
        let bottom: i128 = match f.y {
            FloatY::Absolute(y) => y as i128 + f.height as i128,
            FloatY::RelativeToParagraph(off) => header_margin as i128 + off as i128
                + f.height as i128,
        };
        if f.wraps_top_and_bottom && bottom > end {
            end = bottom;
        }
        i = i + 1;
    }
    assert(floats@.take(i as int) =~= floats@);
    let text: i128 = header_margin as i128 + text_height as i128;
    if text >= end {
        text
    } else {
        end
    }
}

/// How far up from the bottom of the page a footer reaches whose text is so
/// high.
pub fn measure_footer_extent(
    footer_margin: i64,
    text_height: u64,
    page_height: i64,
    floats: &Vec<FloatFacts>,
) -> (r: i128)
    ensures
        r == greater(
            footer_margin + text_height,
            footer_floats(floats@, footer_margin as int, page_height as int),
        ),
{
    let mut end: i128 = 0;
    let mut i: usize = 0;
    while i < floats.len()
        invariant
            i <= floats@.len(),
            end == footer_floats(
                floats@.take(i as int),
                footer_margin as int,
                page_height as int,
            ),
        decreases floats@.len() - i,
    {
        assert(floats@.take(i + 1).drop_last() =~= floats@.take(i as int));
        assert(floats@.take(i + 1).last() == floats@[i as int]);
        let f: FloatFacts = floats[i];
        let extent: i128 = match f.y {
            FloatY::Absolute(y) => page_height as i128 - y as i128,
            FloatY::RelativeToParagraph(off) => footer_margin as i128 + off as i128
                + f.height as i128,
        };
        if f.wraps_top_and_bottom && extent > end {
            end = extent;
        }
        i = i + 1;
    }
    assert(floats@.take(i as int) =~= floats@);
    let text: i128 = footer_margin as i128 + text_height as i128;
    if text >= end {
        text
    } else {
        end
    }
}

/// The places of blocks among those of the whole document, from their places
/// among those of their section.
pub open spec fn counted_on(sources: Seq<usize>, base: usize) -> Seq<int> {
    sources.map_values(|i: usize| i + base)
}

/// The places of blocks among those of the whole document, from their places
/// among those of their section.
pub fn block_sources(sources: &Vec<usize>, base: usize) -> (r: Vec<usize>)
    requires
        forall|k: int| 0 <= k < sources@.len() ==> #[trigger] sources@[k] + base <= usize::MAX,
    ensures
        r@.map_values(|i: usize| i as int) == counted_on(sources@, base),
{
    let mut out: Vec<usize> = Vec::new();
    let mut i: usize = 0;
    while i < sources.len()
        invariant
            i <= sources@.len(),
            out@.len() == i,
            forall|k: int| 0 <= k < sources@.len() ==> #[trigger] sources@[k] + base <= usize::MAX,
            forall|k: int| 0 <= k < i ==> #[trigger] out@[k] == sources@[k] + base,
        decreases sources@.len() - i,
    {
        out.push(sources[i] + base);
        i = i + 1;
    }
    assert(out@.map_values(|i: usize| i as int) =~= counted_on(sources@, base));
    out
}

/// What there is for the pages of a section: for its first page, for those with
/// even numbers, and for all others.
#[derive(Debug)]
pub struct HeaderFooterSet<T> {
    pub default: Option<T>,
    pub first: Option<T>,
    pub even: Option<T>,
}

/// A header or a footer, by what decides on the room that it takes.
#[derive(Debug)]
pub struct SlotFacts {
    /// The height of its text.
    pub text_height: u64,
    pub floats: Vec<FloatFacts>,
}

/// How far down a header reaches, where there is one.
pub open spec fn header_room(slot: Option<SlotFacts>, header_margin: i64) -> Option<int> {
    match slot {
        Some(f) => Some(
            greater(
                header_margin + f.text_height,
                header_floats(f.floats@, header_margin as int),
            ),
        ),
        None => None,
    }
}

/// How far up from the bottom of the page a footer reaches, where there is one.
pub open spec fn footer_room(
    slot: Option<SlotFacts>,
    footer_margin: i64,
    page_height: i64,
) -> Option<int> {
    match slot {
        Some(f) => Some(
            greater(
                footer_margin + f.text_height,
                footer_floats(f.floats@, footer_margin as int, page_height as int),
            ),
        ),
        None => None,
    }
}

/// A length, where there is one.
pub open spec fn opt_length(n: Option<i128>) -> Option<int> {
    match n {
        Some(x) => Some(x as int),
        None => None,
    }
}

/// How far down a header reaches, where there is one.
fn measure_header(slot: &Option<SlotFacts>, header_margin: i64) -> (r: Option<i128>)
    ensures
        opt_length(r) == header_room(*slot, header_margin),
{
    match slot {
        Some(f) => Some(measure_header_bottom(header_margin, f.text_height, &f.floats)),
        None => None,
    }
}

/// How far up a footer reaches, where there is one.
fn measure_footer(slot: &Option<SlotFacts>, footer_margin: i64, page_height: i64) -> (r: Option<
    i128,
>)
    ensures
        opt_length(r) == footer_room(*slot, footer_margin, page_height),
{
    match slot {
        Some(f) => Some(
            measure_footer_extent(footer_margin, f.text_height, page_height, &f.floats),
        ),
        None => None,
    }
}

/// The room that the headers and footers of a section take, each on its own, so
/// that every page can keep clear of the one that it has.
pub fn measure_header_footer_clearance(
    header_margin: i64,
    footer_margin: i64,
    page_height: i64,
    headers: &HeaderFooterSet<SlotFacts>,
    footers: &HeaderFooterSet<SlotFacts>,
) -> (r: (HeaderFooterSet<i128>, HeaderFooterSet<i128>))
    ensures
        opt_length(r.0.default) == header_room(headers.default, header_margin),
        opt_length(r.0.first) == header_room(headers.first, header_margin),
        opt_length(r.0.even) == header_room(headers.even, header_margin),
        opt_length(r.1.default) == footer_room(footers.default, footer_margin, page_height),
        opt_length(r.1.first) == footer_room(footers.first, footer_margin, page_height),
        opt_length(r.1.even) == footer_room(footers.even, footer_margin, page_height),
{
    (
        HeaderFooterSet {
            default: measure_header(&headers.default, header_margin),
            first: measure_header(&headers.first, header_margin),
            even: measure_header(&headers.even, header_margin),
        },
        HeaderFooterSet {
            default: measure_footer(&footers.default, footer_margin, page_height),
            first: measure_footer(&footers.first, footer_margin, page_height),
            even: measure_footer(&footers.even, footer_margin, page_height),
        },
    )
}

/// The room below the line above the endnotes: four points.
pub const SEPARATOR_ROOM: i64 = 50_800;

/// The width of the line above the endnotes: half a point.
pub const SEPARATOR_WIDTH: i64 = 6_350;

/// EMU in a twentieth of a point.
pub const EMU_PER_TWIP: i64 = 635;

/// The heights of the first `k` notes, added up.
pub open spec fn heights_before(heights: Seq<u64>, k: nat) -> nat
    decreases k,
{
    if k == 0 {
        0
    } else {
        heights_before(heights, (k - 1) as nat) + heights[k - 1] as nat
    }
}

/// Where a note begins, from the top of a page whose content begins at `top`.
pub open spec fn note_start(top: int, heights: Seq<u64>, k: nat) -> int {
    top + SEPARATOR_ROOM + heights_before(heights, k)
}

/// A thing on the page with the endnotes. Lengths are in EMU, from the left and
/// from the top of the page.
#[derive(Clone, Copy, Debug, PartialEq, Eq, Structural)]
pub enum EndnoteItem {
    /// A level line.
    Line { from: i128, to: i128, y: i128, width: i64, red: u8, green: u8, blue: u8 },
    /// A note, by its place among all notes.
    Note { note: usize, x: i64, y: i128 },
}

/// The page with the endnotes: its size, and what is drawn on it, in order.
#[derive(Debug)]
pub struct EndnotePage {
    pub width: i64,
    pub height: i64,
    pub items: Vec<EndnoteItem>,
}

/// The line above the endnotes: black, half a point wide, a third as long as the
/// content, and moved in by `indent` twentieths of a point.
pub open spec fn separator_line(page: PageFacts, indent: i64) -> EndnoteItem {
    let from = page.left + indent * EMU_PER_TWIP;
    EndnoteItem::Line {
        from: from as i128,
        to: (from + nearest(33 * page.content_width, 100)) as i128,
        y: page.top as i128,
        width: SEPARATOR_WIDTH,
        red: 0,
        green: 0,
        blue: 0,
    }
}

/// A note on the page with the endnotes.
pub open spec fn note_item(page: PageFacts, notes: Seq<u64>, k: int) -> EndnoteItem {
    EndnoteItem::Note {
        note: k as usize,
        x: page.left,
        y: note_start(page.top as int, notes, k as nat) as i128,
    }
}

/// Whether a page is the one with the endnotes: of the given size, first the line
/// above the notes, then every note once, in order, each where the one before it
/// ends.
pub open spec fn is_endnote_page(
    r: EndnotePage,
    page: PageFacts,
    indent: i64,
    notes: Seq<u64>,
) -> bool {
    &&& r.width == page.width
    &&& r.height == page.height
    &&& r.items@.len() == notes.len() + 1
    &&& r.items@[0] == separator_line(page, indent)
    &&& forall|k: int|
        0 <= k < notes.len() ==> #[trigger] r.items@[k + 1] == note_item(page, notes, k)
}

/// Lays out the page with the endnotes, each as high as given: a line, and below
/// it one note after the other.
pub fn layout_endnotes(page: PageFacts, indent: i64, notes: &Vec<u64>) -> (r: EndnotePage)
    requires
        heights_before(notes@, notes@.len()) <= u64::MAX,
    ensures
        is_endnote_page(r, page, indent, notes@),
{
    let from: i128 = page.left as i128 + indent as i128 * EMU_PER_TWIP as i128;
    let share: i128 = 33 * page.content_width as i128;
    let length: i128 = divide_nearest(share, 100);
    assert(length == if share >= 0 {
        (2 * share + 100) / 200
    } else {
        -((2 * -share + 100) / 200)
    });
    let line: EndnoteItem = EndnoteItem::Line {
        from,
        to: from + length,
        y: page.top as i128,
        width: SEPARATOR_WIDTH,
        red: 0,
        green: 0,
        blue: 0,
    };
    let mut items: Vec<EndnoteItem> = Vec::new();
    items.push(line);
    let mut at: i128 = page.top as i128 + SEPARATOR_ROOM as i128;
    let mut i: usize = 0;
    while i < notes.len()
        invariant
            i <= notes@.len(),
            heights_before(notes@, notes@.len()) <= u64::MAX,
            at == note_start(page.top as int, notes@, i as nat),
            items@.len() == i + 1,
            items@[0] == separator_line(page, indent),
            forall|k: int| 0 <= k < i ==> #[trigger] items@[k + 1] == note_item(page, notes@, k),
        decreases notes@.len() - i,
    {
        let ghost before = items@;
        items.push(EndnoteItem::Note { note: i, x: page.left, y: at });
        assert forall|k: int| 0 <= k < i + 1 implies #[trigger] items@[k + 1] == note_item(
            page,
            notes@,
            k,
        ) by {
            if k < i {
                assert(items@[k + 1] == before[k + 1]);
            }
        }
        proof {
            heights_grow(notes@, (i + 1) as nat);
        }
        at = at + notes[i] as i128;
        i = i + 1;
    }
    EndnotePage { width: page.width, height: page.height, items }
}

/// More notes are no less high.
proof fn heights_grow(heights: Seq<u64>, k: nat)
    requires
        k <= heights.len(),
    ensures
        heights_before(heights, k) <= heights_before(heights, heights.len()),
    decreases heights.len() - k,
{
    if k < heights.len() {
        heights_grow(heights, k + 1);
    }
}

/// Each endnote begins where the one before it ends, and the first below the
/// line above them.
pub proof fn endnotes_follow_each_other(heights: Seq<u64>, top: int, k: nat)
    requires
        k < heights.len(),
    ensures
        note_start(top, heights, k + 1) == note_start(top, heights, k) + heights[k as int],
        note_start(top, heights, 0) > top,
{
}

} // verus!
