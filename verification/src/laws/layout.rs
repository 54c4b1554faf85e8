//! Where text, pages and what is drawn on them stand.
use vstd::prelude::*;

use crate::dimension::Emu;
use crate::docx::run::{FirstLineIndent, Indentation};
use crate::model::drawing::{BodyProperties, TextAnchoringType, TextVertOverflow};
use crate::model::geometry::Size;
use crate::render::draw_command::{
    as_ints, content_end, estimate_cursor_y, layers_keep_their_order, paint_order, painted,
    raster_pass, DrawCommand, RasterPass,
};
use crate::render::pages::{
    block_sources, can_count, facts_of, footer_floats, header_floats, heights_before,
    layout_document, layout_endnotes, measure_footer_extent, measure_header_bottom,
    measure_header_footer_clearance, note_start, separator_indent, DocumentPages, EndnoteItem,
    EndnotePage, FloatFacts, FloatY, HeaderFooterSet, PageFacts, PageState, SectionFacts,
    SectionStart, SlotFacts,
};
use crate::render::shape_body::{
    ints, kept_of, layout_shape_body, measure_shape_body, BodyAnchor, BodyInsets, PlacedBody,
    StackedBody,
};

verus! {

/// The space around text is what its sides state, each for itself; where nothing
/// is said it is a tenth of an inch at the sides and half of that above and below.
pub proof fn sides_have_their_own_space(body: Option<&BodyProperties>, r: BodyInsets)
    requires
        call_ensures(BodyInsets::resolve, (body,), r),
    ensures
        body is None ==> 10 * r.left == 914_400 && 10 * r.right == 914_400 && 20 * r.top == 914_400
            && 20 * r.bottom == 914_400,
        body matches Some(b) ==> {
            &&& b.left_inset matches Some(d) ==> r.left == d.value
            &&& b.left_inset is None ==> 10 * r.left == 914_400
            &&& b.top_inset matches Some(d) ==> r.top == d.value
            &&& b.top_inset is None ==> 20 * r.top == 914_400
            &&& b.right_inset matches Some(d) ==> r.right == d.value
            &&& b.right_inset is None ==> 10 * r.right == 914_400
            &&& b.bottom_inset matches Some(d) ==> r.bottom == d.value
            &&& b.bottom_inset is None ==> 20 * r.bottom == 914_400
        },
{
}

/// What the space around text leaves of a box, together with that space, is the
/// box; where the space takes all of it, nothing is left.
pub proof fn space_and_text_fill_the_box(
    insets: &BodyInsets,
    extent: Size<Emu>,
    w: u128,
    h: u128,
)
    requires
        call_ensures(BodyInsets::content_width, (insets, extent), w),
        call_ensures(BodyInsets::content_height, (insets, extent), h),
    ensures
        w > 0 ==> insets.left + w + insets.right == extent.width.value,
        w == 0 <==> insets.left + insets.right >= extent.width.value,
        h > 0 ==> insets.top + h + insets.bottom == extent.height.value,
        h == 0 <==> insets.top + insets.bottom >= extent.height.value,
{
}

/// Text stands in the middle or at the bottom only where it asks to.
pub proof fn text_stands_where_it_asks_to(a: Option<TextAnchoringType>, r: BodyAnchor)
    requires
        call_ensures(BodyAnchor::resolve, (a,), r),
    ensures
        r is Center <==> a == Some(TextAnchoringType::Center),
        r is Bottom <==> a == Some(TextAnchoringType::Bottom),
{
}

/// Text at the top begins there, at the bottom ends there, and in the middle has
/// as much above as below it. Text that is too high begins at the top.
pub proof fn what_is_to_spare_is_split(
    anchor: BodyAnchor,
    height: u128,
    text: u128,
    r: u128,
)
    requires
        call_ensures(BodyAnchor::offset, (anchor, height, text), r),
    ensures
        anchor is Top ==> r == 0,
        anchor is Bottom && text <= height ==> r + text == height,
        anchor is Center && text <= height ==> 0 <= (height - text) - 2 * r <= 1,
        text >= height ==> r == 0,
{
}

/// A body needs the space around its text and the text, which is not stacked where
/// there is no width for it.
pub proof fn what_a_body_needs(
    stacked: u64,
    width: i64,
    body: Option<&BodyProperties>,
    insets: BodyInsets,
    extent: Size<Emu>,
    w: u128,
    r: i128,
)
    requires
        call_ensures(measure_shape_body, (stacked, width, body), r),
        call_ensures(BodyInsets::resolve, (body,), insets),
        extent.width.value == width,
        call_ensures(BodyInsets::content_width, (&insets, extent), w),
    ensures
        w > 0 ==> r == insets.top + stacked + insets.bottom,
        w == 0 ==> r == insets.top + insets.bottom,
{
}

proof fn what_is_kept(
    spans: Seq<Option<(i64, i64)>>,
    overflow: TextVertOverflow,
    top: int,
    bottom: int,
)
    ensures
        ({
            let kept = kept_of(spans, overflow, top, bottom);
            &&& forall|i: int|
                0 <= i < kept.len() ==> 0 <= #[trigger] kept[i] < spans.len() && (
                overflow is Overflow || (spans[kept[i]] matches Some(s) ==> s.1 + top <= bottom))
            &&& forall|i: int, j: int|
                0 <= i < j < kept.len() ==> (#[trigger] kept[i]) < (#[trigger] kept[j])
            &&& forall|n: int|
                0 <= n < spans.len() && (overflow is Overflow || ((#[trigger] spans[n]) matches Some(
                    s,
                ) ==> s.1 + top <= bottom)) ==> kept.contains(n)
        }),
    decreases spans.len(),
{
    if spans.len() > 0 {
        let shorter = spans.drop_last();
        what_is_kept(shorter, overflow, top, bottom);
        let before = kept_of(shorter, overflow, top, bottom);
        let kept = kept_of(spans, overflow, top, bottom);
        assert(forall|n: int| 0 <= n < shorter.len() ==> #[trigger] shorter[n] == spans[n]);
        assert(spans[spans.len() - 1] == spans.last());
        assert forall|n: int|
            0 <= n < spans.len() && (overflow is Overflow || ((#[trigger] spans[n]) matches Some(s)
                ==> s.1 + top <= bottom)) implies kept.contains(n) by {
            if n < shorter.len() {
                assert(shorter[n] == spans[n]);
                assert(before.contains(n));
                let k = choose|k: int| 0 <= k < before.len() && before[k] == n;
                assert(kept[k] == n);
            } else {
                assert(kept == before.push(n));
                assert(kept[kept.len() - 1] == n);
            }
        }
    }
}

/// Text is placed inside the space around it, as low as its anchor says. What is
/// drawn of it is drawn in order: all of it where it may overflow, and otherwise
/// all that does not reach below the box.
pub proof fn how_text_is_placed(
    stacked: &StackedBody,
    extent: Size<Emu>,
    body: Option<&BodyProperties>,
    insets: BodyInsets,
    anchor: BodyAnchor,
    w: u128,
    h: u128,
    drop: u128,
    r: PlacedBody,
)
    requires
        call_ensures(layout_shape_body, (stacked, extent, body), r),
        call_ensures(BodyInsets::resolve, (body,), insets),
        call_ensures(
            BodyAnchor::resolve,
            (match body {
                Some(b) => b.anchor,
                None => None::<TextAnchoringType>,
            },),
            anchor,
        ),
        call_ensures(BodyInsets::content_width, (&insets, extent), w),
        call_ensures(BodyInsets::content_height, (&insets, extent), h),
        call_ensures(BodyAnchor::offset, (anchor, h, stacked.height as u128), drop),
    ensures
        r.left == insets.left,
        r.top == insets.top + drop,
        w == 0 ==> r.kept@.len() == 0,
        w > 0 ==> {
            let overflows = match body {
                Some(b) => b.vert_overflow is None || b.vert_overflow == Some(
                    TextVertOverflow::Overflow,
                ),
                None => true,
            };
            &&& forall|i: int, j: int|
                0 <= i < j < r.kept@.len() ==> (#[trigger] r.kept@[i]) < (#[trigger] r.kept@[j])
            &&& forall|i: int| 0 <= i < r.kept@.len() ==> #[trigger] r.kept@[i] < stacked.spans@.len()
            &&& forall|n: int|
                0 <= n < stacked.spans@.len() && overflows ==> ints(r.kept@).contains(n)
            &&& forall|n: int|
                0 <= n < stacked.spans@.len() && !overflows ==> (ints(r.kept@).contains(n) <==> (
                (#[trigger] stacked.spans@[n]) matches Some(s) ==> s.1 + r.top <= insets.top + h))
        },
{
    let top = r.top as int;
    let bottom = insets.top + h;
    let overflow = match body {
        Some(b) => match b.vert_overflow {
            Some(o) => o,
            None => TextVertOverflow::Overflow,
        },
        None => TextVertOverflow::Overflow,
    };
    if w > 0 {
        what_is_kept(stacked.spans@, overflow, top, bottom);
        let kept = kept_of(stacked.spans@, overflow, top, bottom);
        assert(ints(r.kept@) == kept);
        assert(kept.len() == r.kept@.len());
        assert(forall|i: int| 0 <= i < kept.len() ==> kept[i] == #[trigger] r.kept@[i]);
        assert forall|n: int|
            0 <= n < stacked.spans@.len() && overflow is Overflow implies kept.contains(n) by {
            let s = stacked.spans@[n];
        }
        assert forall|n: int|
            0 <= n < stacked.spans@.len() && !(overflow is Overflow) implies (kept.contains(n) <==> (
        (#[trigger] stacked.spans@[n]) matches Some(s) ==> s.1 + top <= bottom)) by {
            if kept.contains(n) {
                let i = choose|i: int| 0 <= i < kept.len() && kept[i] == n;
                assert(kept[i] == n);
            }
        }
    } else {
        assert(ints(r.kept@).len() == r.kept@.len());
    }
}

/// A section begins with the number that it states, or else with the next, and
/// goes on on a page only where that page was held back and it may.
pub proof fn where_a_section_begins(state: &PageState, s: &SectionFacts, r: SectionStart)
    requires
        call_ensures(PageState::begin_section, (state, s), r),
    ensures
        s.page_number_start matches Some(n) ==> r.logical_page_base == n,
        s.page_number_start is None ==> r.logical_page_base == state.next_logical,
        r.block_base == state.block_base,
        r.resumes <==> s.continuous && state.pending,
{
}

/// Before any section the next page is the first.
pub proof fn pages_are_counted_from_one(r: PageState)
    requires
        call_ensures(PageState::new, (), r),
    ensures
        r.next_logical == 1,
        r.pages == 0,
        r.block_base == 0,
        !r.pending,
        r.sections@.len() == 0,
{
}

/// Of the pages of a section the last is held back where the next section goes on
/// on it. The others are counted behind those before them, and numbered from
/// where the section begins.
pub proof fn pages_are_counted_on(
    state: &mut PageState,
    s: &SectionFacts,
    laid: usize,
    next: Option<&SectionFacts>,
    start: SectionStart,
    held: bool,
)
    requires
        can_count(old(state)@, *s, laid as nat, facts_of(next)),
        call_ensures(PageState::end_section, (state, s, laid, next), held),
        call_ensures(PageState::begin_section, (old(state), s), start),
    ensures
        held <==> laid > 0 && (next matches Some(n) && n.continuous),
        ({
            let before = old(state)@;
            let after = final(state)@;
            let own = laid - if held {
                1int
            } else {
                0int
            };
            &&& after.pending == held
            &&& after.pages == before.pages + own
            &&& after.block_base == before.block_base + s.blocks
            &&& after.next_logical == start.logical_page_base + own
            &&& after.sections.len() == before.sections.len() + 1
            &&& after.sections.last().first == before.pages
            &&& after.sections.last().count == own
            &&& after.sections.last().logical_page_base == start.logical_page_base
            &&& after.sections.last().title_page <==> s.title_page == Some(true)
            &&& forall|i: int|
                0 <= i < before.sections.len() ==> after.sections[i] == #[trigger] before.sections[i]
        }),
{
}

/// A document has a page for its endnotes behind those of its sections, of the
/// size of its last section; and where it has no page at all, a blank one.
pub proof fn what_pages_a_document_has(
    sections: &Vec<SectionFacts>,
    laid: &Vec<usize>,
    usual: PageFacts,
    indent: i64,
    notes: &Vec<u64>,
    r: DocumentPages,
)
    requires
        call_ensures(layout_document, (sections, laid, usual, indent, notes), r),
    ensures
        r.starts@.len() == sections@.len(),
        r.endnote_page is Some <==> notes@.len() > 0,
        r.endnote_page matches Some(p) ==> {
            &&& sections@.len() == 0 ==> p.width == usual.width && p.height == usual.height
            &&& sections@.len() > 0 ==> p.width == sections@[sections@.len() - 1].page.width
                && p.height == sections@[sections@.len() - 1].page.height
        },
        r.blank_page is Some <==> r.section_pages == 0 && notes@.len() == 0,
        r.blank_page matches Some(p) ==> p == usual,
        r.total_pages >= 1,
        r.total_pages == r.section_pages + (if notes@.len() > 0 || r.section_pages == 0 {
            1int
        } else {
            0int
        }),
        sections@.len() > 0 ==> r.starts@[0].block_base == 0 && !r.starts@[0].resumes,
{
    if sections@.len() > 0 {
        assert(r.starts@[0] == crate::render::pages::start_of(
            crate::render::pages::progress(sections@, laid@, 0),
            sections@[0],
        ));
    }
}

proof fn how_far_header_floats_reach(floats: Seq<FloatFacts>, margin: int)
    ensures
        header_floats(floats, margin) >= 0,
        forall|i: int|
            0 <= i < floats.len() && (#[trigger] floats[i]).wraps_top_and_bottom ==> header_floats(
                floats,
                margin,
            ) >= match floats[i].y {
                FloatY::Absolute(y) => y + floats[i].height,
                FloatY::RelativeToParagraph(off) => margin + off + floats[i].height,
            },
        header_floats(floats, margin) > 0 ==> exists|i: int|
            0 <= i < floats.len() && (#[trigger] floats[i]).wraps_top_and_bottom && header_floats(
                floats,
                margin,
            ) == match floats[i].y {
                FloatY::Absolute(y) => y + floats[i].height,
                FloatY::RelativeToParagraph(off) => margin + off + floats[i].height,
            },
    decreases floats.len(),
{
    if floats.len() > 0 {
        let shorter = floats.drop_last();
        how_far_header_floats_reach(shorter, margin);
        assert(forall|i: int| 0 <= i < shorter.len() ==> #[trigger] shorter[i] == floats[i]);
        assert(floats[floats.len() - 1] == floats.last());
        let before = header_floats(shorter, margin);
        assert forall|i: int|
            0 <= i < floats.len() && (#[trigger] floats[i]).wraps_top_and_bottom implies header_floats(
            floats,
            margin,
        ) >= match floats[i].y {
            FloatY::Absolute(y) => y + floats[i].height,
            FloatY::RelativeToParagraph(off) => margin + off + floats[i].height,
        } by {
            if i < shorter.len() {
                assert(shorter[i] == floats[i]);
            }
        }
        if header_floats(floats, margin) == before && before > 0 {
            let i = choose|i: int|
                0 <= i < shorter.len() && (#[trigger] shorter[i]).wraps_top_and_bottom && before
                    == match shorter[i].y {
                    FloatY::Absolute(y) => y + shorter[i].height,
                    FloatY::RelativeToParagraph(off) => margin + off + shorter[i].height,
                };
            assert(floats[i] == shorter[i]);
        }
    }
}

/// A header reaches below its text and below every picture that text keeps clear
/// of above and below, and no further than the lowest of them.
pub proof fn how_far_a_header_reaches(
    margin: i64,
    text: u64,
    floats: &Vec<FloatFacts>,
    r: i128,
)
    requires
        call_ensures(measure_header_bottom, (margin, text, floats), r),
    ensures
        r >= margin + text,
        forall|i: int|
            0 <= i < floats@.len() && (#[trigger] floats@[i]).wraps_top_and_bottom ==> r
                >= match floats@[i].y {
                FloatY::Absolute(y) => y + floats@[i].height,
                FloatY::RelativeToParagraph(off) => margin + off + floats@[i].height,
            },
        r > 0 && r != margin + text ==> exists|i: int|
            0 <= i < floats@.len() && (#[trigger] floats@[i]).wraps_top_and_bottom && r
                == match floats@[i].y {
                FloatY::Absolute(y) => y + floats@[i].height,
                FloatY::RelativeToParagraph(off) => margin + off + floats@[i].height,
            },
{
    how_far_header_floats_reach(floats@, margin as int);
}

proof fn how_far_footer_floats_reach(floats: Seq<FloatFacts>, margin: int, page: int)
    ensures
        footer_floats(floats, margin, page) >= 0,
        forall|i: int|
            0 <= i < floats.len() && (#[trigger] floats[i]).wraps_top_and_bottom ==> footer_floats(
                floats,
                margin,
                page,
            ) >= match floats[i].y {
                FloatY::Absolute(y) => page - y,
                FloatY::RelativeToParagraph(off) => margin + off + floats[i].height,
            },
        footer_floats(floats, margin, page) > 0 ==> exists|i: int|
            0 <= i < floats.len() && (#[trigger] floats[i]).wraps_top_and_bottom && footer_floats(
                floats,
                margin,
                page,
            ) == match floats[i].y {
                FloatY::Absolute(y) => page - y,
                FloatY::RelativeToParagraph(off) => margin + off + floats[i].height,
            },
    decreases floats.len(),
{
    if floats.len() > 0 {
        let shorter = floats.drop_last();
        how_far_footer_floats_reach(shorter, margin, page);
        assert(forall|i: int| 0 <= i < shorter.len() ==> #[trigger] shorter[i] == floats[i]);
        assert(floats[floats.len() - 1] == floats.last());
        let before = footer_floats(shorter, margin, page);
        assert forall|i: int|
            0 <= i < floats.len() && (#[trigger] floats[i]).wraps_top_and_bottom implies footer_floats(
            floats,
            margin,
            page,
        ) >= match floats[i].y {
            FloatY::Absolute(y) => page - y,
            FloatY::RelativeToParagraph(off) => margin + off + floats[i].height,
        } by {
            if i < shorter.len() {
                assert(shorter[i] == floats[i]);
            }
        }
        if footer_floats(floats, margin, page) == before && before > 0 {
            let i = choose|i: int|
                0 <= i < shorter.len() && (#[trigger] shorter[i]).wraps_top_and_bottom && before
                    == match shorter[i].y {
                    FloatY::Absolute(y) => page - y,
                    FloatY::RelativeToParagraph(off) => margin + off + shorter[i].height,
                };
            assert(floats[i] == shorter[i]);
        }
    }
}

/// A footer reaches up to its text and to every picture that text keeps clear of
/// above and below, and no further than the highest of them.
pub proof fn how_far_a_footer_reaches(
    margin: i64,
    text: u64,
    page: i64,
    floats: &Vec<FloatFacts>,
    r: i128,
)
    requires
        call_ensures(measure_footer_extent, (margin, text, page, floats), r),
    ensures
        r >= margin + text,
        forall|i: int|
            0 <= i < floats@.len() && (#[trigger] floats@[i]).wraps_top_and_bottom ==> r
                >= match floats@[i].y {
                FloatY::Absolute(y) => page - y,
                FloatY::RelativeToParagraph(off) => margin + off + floats@[i].height,
            },
        r > 0 && r != margin + text ==> exists|i: int|
            0 <= i < floats@.len() && (#[trigger] floats@[i]).wraps_top_and_bottom && r
                == match floats@[i].y {
                FloatY::Absolute(y) => page - y,
                FloatY::RelativeToParagraph(off) => margin + off + floats@[i].height,
            },
{
    how_far_footer_floats_reach(floats@, margin as int, page as int);
}

/// Each header and each footer takes the room that it takes by itself, on the
/// pages that it is for.
pub proof fn headers_and_footers_take_their_own_room(
    header_margin: i64,
    footer_margin: i64,
    page: i64,
    headers: &HeaderFooterSet<SlotFacts>,
    footers: &HeaderFooterSet<SlotFacts>,
    slot: SlotFacts,
    top: i128,
    bottom: i128,
    r: (HeaderFooterSet<i128>, HeaderFooterSet<i128>),
)
    requires
        call_ensures(
            measure_header_footer_clearance,
            (header_margin, footer_margin, page, headers, footers),
            r,
        ),
        call_ensures(measure_header_bottom, (header_margin, slot.text_height, &slot.floats), top),
        call_ensures(
            measure_footer_extent,
            (footer_margin, slot.text_height, page, &slot.floats),
            bottom,
        ),
    ensures
        headers.default is None ==> r.0.default is None,
        headers.first is None ==> r.0.first is None,
        headers.even is None ==> r.0.even is None,
        footers.default is None ==> r.1.default is None,
        footers.first is None ==> r.1.first is None,
        footers.even is None ==> r.1.even is None,
        headers.default == Some(slot) ==> r.0.default == Some(top),
        headers.first == Some(slot) ==> r.0.first == Some(top),
        headers.even == Some(slot) ==> r.0.even == Some(top),
        footers.default == Some(slot) ==> r.1.default == Some(bottom),
        footers.first == Some(slot) ==> r.1.first == Some(bottom),
        footers.even == Some(slot) ==> r.1.even == Some(bottom),
{
}

/// The line above the notes is moved in as a first line is, and not at all by one
/// that hangs out.
pub proof fn the_line_above_notes_is_moved_in(
    i: &Option<Indentation>,
    r: i64,
)
    requires
        call_ensures(separator_indent, (i,), r),
    ensures
        *i is None ==> r == 0,
        *i matches Some(x) ==> {
            &&& x.first_line is None ==> r == 0
            &&& x.first_line matches Some(FirstLineIndent::FirstLine(v)) ==> r
                == v.value
            &&& x.first_line matches Some(FirstLineIndent::Hanging(_)) ==> r == 0
        },
{
}

/// The blocks of a section are counted on from those before it.
pub proof fn blocks_are_counted_from_their_base(sources: &Vec<usize>, base: usize, r: Vec<usize>, i: int)
    requires
        call_ensures(block_sources, (sources, base), r),
        0 <= i < sources@.len(),
    ensures
        r@.len() == sources@.len(),
        r@[i] == base + sources@[i],
{
    let all = crate::render::pages::counted_on(sources@, base);
    let shown = r@.map_values(|i: usize| i as int);
    assert(shown.len() == r@.len());
    assert(all.len() == sources@.len());
    assert(shown[i] == r@[i] as int);
    assert(all[i] == sources@[i] + base);
}

proof fn some_heights_are_no_more_than_all(heights: Seq<u64>, k: nat)
    requires
        k <= heights.len(),
    ensures
        heights_before(heights, k) <= heights_before(heights, heights.len()),
    decreases heights.len() - k,
{
    if k < heights.len() {
        some_heights_are_no_more_than_all(heights, k + 1);
    }
}

/// The page with the endnotes begins with a black line, half a point wide and a
/// third of the content long; four points below it begins the first note, and
/// each note begins where the one before it ends.
pub proof fn how_endnotes_are_laid_out(
    page: PageFacts,
    indent: i64,
    notes: &Vec<u64>,
    r: EndnotePage,
    k: int,
)
    requires
        heights_before(notes@, notes@.len()) <= u64::MAX,
        call_ensures(layout_endnotes, (page, indent, notes), r),
        0 <= k < notes@.len(),
    ensures
        r.width == page.width,
        r.height == page.height,
        r.items@.len() == notes@.len() + 1,
        r.items@[0] matches EndnoteItem::Line { from, to, y, width, red, green, blue } && {
            &&& from == page.left + 635 * indent
            &&& -50 <= 100 * (to - from) - 33 * page.content_width <= 50
            &&& y == page.top
            &&& 2 * width == 12_700
            &&& red == 0 && green == 0 && blue == 0
        },
        r.items@[k + 1] matches EndnoteItem::Note { note, x, y } && {
            &&& note == k
            &&& x == page.left
            &&& k == 0 ==> y == page.top + 4 * 12_700
            &&& k > 0 ==> (r.items@[k] matches EndnoteItem::Note { note: _, x: _, y: above } && y
                == above + notes@[k - 1])
        },
{
    assert(notes.len() == notes@.len());
    some_heights_are_no_more_than_all(notes@, k as nat);
    assert(r.items@[k + 1] == crate::render::pages::note_item(page, notes@, k));
    if k > 0 {
        some_heights_are_no_more_than_all(notes@, (k - 1) as nat);
        let j = k - 1;
        assert(r.items@[j + 1] == crate::render::pages::note_item(page, notes@, j));
        assert(note_start(page.top as int, notes@, k as nat) == note_start(
            page.top as int,
            notes@,
            j as nat,
        ) + notes@[j]);
    }
}

/// Where a thing on a page ends, if it takes room at all.
pub open spec fn ends_at(c: DrawCommand, y: int) -> bool {
    match c {
        DrawCommand::Text { baseline, font_size } => y == baseline + font_size,
        DrawCommand::Underline { start_y, end_y } => (y == start_y || y == end_y) && y >= start_y
            && y >= end_y,
        DrawCommand::Line { start_y, end_y } => (y == start_y || y == end_y) && y >= start_y && y
            >= end_y,
        DrawCommand::Image { top, height } => y == top + height,
        DrawCommand::EmojiCluster { top, height } => y == top + height,
        DrawCommand::Rect { top, height } => y == top + height,
        DrawCommand::Path { top, height } => y == top + height,
        _ => false,
    }
}

proof fn where_content_ends(commands: Seq<DrawCommand>, margin: int)
    ensures
        content_end(commands, margin) >= margin,
        forall|i: int, y: int|
            0 <= i < commands.len() && #[trigger] ends_at(commands[i], y) ==> y <= content_end(
                commands,
                margin,
            ),
        content_end(commands, margin) != margin ==> exists|i: int|
            0 <= i < commands.len() && ends_at(
                #[trigger] commands[i],
                content_end(commands, margin),
            ),
    decreases commands.len(),
{
    if commands.len() > 0 {
        let shorter = commands.drop_last();
        where_content_ends(shorter, margin);
        assert(commands[commands.len() - 1] == commands.last());
        let before = content_end(shorter, margin);
        assert forall|i: int, y: int|
            0 <= i < commands.len() && #[trigger] ends_at(commands[i], y) implies y <= content_end(
            commands,
            margin,
        ) by {
            if i < shorter.len() {
                assert(shorter[i] == commands[i]);
                assert(ends_at(shorter[i], y));
            }
        }
        if content_end(commands, margin) == before && before != margin {
            let i = choose|i: int| 0 <= i < shorter.len() && ends_at(#[trigger] shorter[i], before);
            assert(commands[i] == shorter[i]);
        } else if content_end(commands, margin) != before {
            assert(ends_at(commands[commands.len() - 1], content_end(commands, margin)));
        }
    }
}

/// The content of a page ends where the lowest thing on it ends, or at the margin
/// where nothing ends below that.
pub proof fn content_ends_with_its_lowest_thing(
    commands: &Vec<DrawCommand>,
    margin: i64,
    r: i128,
    i: int,
    y: int,
)
    requires
        call_ensures(estimate_cursor_y, (commands, margin), r),
    ensures
        r >= margin,
        0 <= i < commands@.len() && ends_at(commands@[i], y) ==> y <= r,
        r != margin ==> exists|k: int|
            0 <= k < commands@.len() && ends_at(#[trigger] commands@[k], r as int),
{
    where_content_ends(commands@, margin as int);
}

/// How high the layer of a thing is, from the lowest.
pub open spec fn height_of(c: DrawCommand) -> int {
    match c {
        DrawCommand::Path { .. } => 0,
        DrawCommand::Rect { .. } => 1,
        DrawCommand::Image { .. } => 2,
        DrawCommand::Text { .. } => 3,
        DrawCommand::Underline { .. } => 3,
        DrawCommand::Line { .. } => 3,
        DrawCommand::EmojiCluster { .. } => 3,
        _ => -1,
    }
}

/// Shapes lie below shading, shading below pictures, and pictures below letters
/// and lines.
pub proof fn layers_are_told_by_their_things(c: &DrawCommand, r: Option<RasterPass>)
    requires
        call_ensures(raster_pass, (c,), r),
    ensures
        r == Some(RasterPass::Shape) <==> height_of(*c) == 0,
        r == Some(RasterPass::Shading) <==> height_of(*c) == 1,
        r == Some(RasterPass::Media) <==> height_of(*c) == 2,
        r == Some(RasterPass::Ink) <==> height_of(*c) == 3,
        r is None <==> height_of(*c) < 0,
{
}

/// What is painted is painted from the lowest layer up, and within a layer in
/// order; all that has a layer is painted, and nothing else.
pub proof fn layers_are_painted_from_below(
    commands: &Vec<DrawCommand>,
    r: Vec<usize>,
    i: int,
    j: int,
    n: int,
)
    requires
        call_ensures(paint_order, (commands,), r),
        0 <= i < j < r@.len(),
    ensures
        r@[i] < commands@.len(),
        height_of(commands@[r@[i] as int]) >= 0,
        height_of(commands@[r@[i] as int]) <= height_of(commands@[r@[j] as int]),
        height_of(commands@[r@[i] as int]) == height_of(commands@[r@[j] as int]) ==> r@[i] < r@[j],
        0 <= n < commands@.len() && height_of(commands@[n]) >= 0 ==> as_ints(r@).contains(n),
{
    layers_keep_their_order(commands@);
    let all = painted(commands@);
    assert(as_ints(r@) == all);
    assert(all.len() == r@.len());
    assert(all[i] == r@[i] as int);
    assert(all[j] == r@[j] as int);
    assert(crate::render::draw_command::level(commands@[all[i]]) == height_of(commands@[all[i]]));
    assert(crate::render::draw_command::level(commands@[all[j]]) == height_of(commands@[all[j]]));
}

} // verus!
