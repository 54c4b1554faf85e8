use liteparse_ooxml::dimension::Dimension;
use liteparse_ooxml::docx::run::{FirstLineIndent, Indentation};
use liteparse_ooxml::render::draw_command::{
    estimate_cursor_y, paint_order, raster_pass, DrawCommand, RasterPass,
};
use liteparse_ooxml::render::pages::{
    block_sources, layout_document, layout_endnotes, measure_footer_extent, measure_header_bottom,
    measure_header_footer_clearance, separator_indent, DocumentPages, EndnoteItem, FloatFacts,
    FloatY, HeaderFooterSet, PageFacts, PageState, SectionFacts, SectionPages, SlotFacts,
};

const USUAL: PageFacts =
    PageFacts { width: 5000, height: 7000, left: 500, top: 700, content_width: 4000 };

const WIDE: PageFacts =
    PageFacts { width: 900, height: 400, left: 100, top: 1000, content_width: 200 };

fn section(continuous: bool, start: Option<u32>) -> SectionFacts {
    SectionFacts { continuous, page_number_start: start, blocks: 3, title_page: None, page: USUAL }
}

fn lay_out(sections: &Vec<SectionFacts>, laid: Vec<usize>, notes: Vec<u64>) -> DocumentPages {
    layout_document(sections, &laid, USUAL, 2, &notes)
}

#[test]
fn a_continuous_section_takes_over_the_last_page() {
    let sections = vec![section(false, None), section(true, None), section(false, None)];
    let plan = lay_out(&sections, vec![2, 3, 1], vec![]);
    let counts: Vec<_> = plan.sections.iter().map(|s| (s.first, s.count)).collect();
    assert_eq!(counts, [(0, 1), (1, 3), (4, 1)]);
    let resumes: Vec<_> = plan.starts.iter().map(|s| s.resumes).collect();
    assert_eq!(resumes, [false, true, false]);
    assert_eq!((plan.section_pages, plan.total_pages), (5, 5));
    let bases: Vec<_> = plan.starts.iter().map(|s| s.block_base).collect();
    assert_eq!(bases, [0, 3, 6]);
}

#[test]
fn page_numbers_go_on_or_begin_anew() {
    let sections = vec![section(false, None), section(false, None), section(false, Some(10))];
    let plan = lay_out(&sections, vec![2, 3, 1], vec![]);
    let numbers: Vec<_> = plan.sections.iter().map(|s| s.logical_page_base).collect();
    assert_eq!(numbers, [1, 3, 10]);
}

#[test]
fn an_empty_document_has_a_page() {
    let plan = lay_out(&vec![], vec![], vec![]);
    assert_eq!((plan.section_pages, plan.total_pages, plan.blank_page), (0, 1, Some(USUAL)));
    assert!(plan.endnote_page.is_none());
    let notes = lay_out(&vec![], vec![], vec![10]);
    assert_eq!((notes.section_pages, notes.total_pages, notes.blank_page), (0, 1, None));
    assert_eq!(notes.endnote_page.expect("notes").width, 5000);
}

#[test]
fn endnotes_count_among_the_pages_that_headers_tell() {
    let plan = lay_out(&vec![section(false, None)], vec![2], vec![30, 5]);
    assert_eq!((plan.section_pages, plan.total_pages), (2, 3));
    let without = lay_out(&vec![section(false, None)], vec![2], vec![]);
    assert_eq!((without.section_pages, without.total_pages), (2, 2));
    assert!(without.endnote_page.is_none() && without.blank_page.is_none());
}

#[test]
fn endnotes_stand_on_a_page_of_the_last_section() {
    let last = SectionFacts { page: WIDE, ..section(false, None) };
    let plan = lay_out(&vec![section(false, None), last], vec![1, 1], vec![30, 0, 5]);
    let page = plan.endnote_page.expect("notes");
    assert_eq!((page.width, page.height), (900, 400));
    assert_eq!(page.items, layout_endnotes(WIDE, 2, &vec![30, 0, 5]).items);
}

#[test]
fn a_section_is_told_where_it_begins() {
    let first = SectionFacts { title_page: Some(true), ..section(false, Some(7)) };
    let next = section(true, None);
    let mut state = PageState::new();
    assert_eq!(state.begin_section(&first).logical_page_base, 7);
    assert!(state.end_section(&first, 1, Some(&next)));
    assert_eq!(
        state.sections[0],
        SectionPages { first: 0, count: 0, logical_page_base: 7, title_page: true }
    );
    assert!(state.begin_section(&next).resumes);
    assert_eq!(state.begin_section(&next).logical_page_base, 7);
    assert!(!state.end_section(&next, 0, Some(&next)));
    assert!(!state.pending);
}

#[test]
fn content_ends_where_the_lowest_thing_does() {
    let commands = vec![
        DrawCommand::Text { baseline: 100, font_size: 12 },
        DrawCommand::Line { start_y: 150, end_y: 120 },
        DrawCommand::Outline,
        DrawCommand::LinkAnnotation,
        DrawCommand::EmojiCluster { top: 140, height: 30 },
    ];
    assert_eq!(estimate_cursor_y(&commands, 72), 170);
    assert_eq!(estimate_cursor_y(&commands, 500), 500);
    assert_eq!(estimate_cursor_y(&vec![], 72), 72);
    assert_eq!(estimate_cursor_y(&vec![DrawCommand::Path { top: 90, height: 9 }], 72), 99);
}

#[test]
fn layers_are_painted_from_the_lowest() {
    let commands = vec![
        DrawCommand::Text { baseline: 0, font_size: 0 },
        DrawCommand::Image { top: 0, height: 0 },
        DrawCommand::NamedDestination,
        DrawCommand::Rect { top: 0, height: 0 },
        DrawCommand::Path { top: 0, height: 0 },
        DrawCommand::Underline { start_y: 0, end_y: 0 },
        DrawCommand::Path { top: 1, height: 1 },
        DrawCommand::Transform,
    ];
    assert_eq!(paint_order(&commands), vec![4, 6, 3, 1, 0, 5]);
    assert_eq!(raster_pass(&commands[1]), Some(RasterPass::Media));
    assert_eq!(raster_pass(&DrawCommand::Float), None);
}

#[test]
fn only_an_indented_first_line_moves_the_separator() {
    let with = |first_line| Some(Indentation { start: None, end: None, first_line });
    assert_eq!(separator_indent(&with(Some(FirstLineIndent::FirstLine(Dimension::new(720))))), 720);
    assert_eq!(separator_indent(&with(Some(FirstLineIndent::Hanging(Dimension::new(720))))), 0);
    assert_eq!(separator_indent(&with(None)), 0);
    assert_eq!(separator_indent(&None), 0);
}

#[test]
fn headers_and_footers_reach_as_far_as_what_text_keeps_clear_of() {
    let float = |wraps_top_and_bottom, y, height| FloatFacts { wraps_top_and_bottom, y, height };
    let floats = vec![
        float(true, FloatY::Absolute(100), 50),
        float(true, FloatY::RelativeToParagraph(20), 60),
        float(false, FloatY::Absolute(900), 50),
    ];
    assert_eq!(measure_header_bottom(36, 40, &floats), 150);
    assert_eq!(measure_header_bottom(36, 400, &floats), 436);
    assert_eq!(measure_footer_extent(36, 10, 800, &floats), 700);
    assert_eq!(measure_footer_extent(36, 10, 120, &floats), 116);
}

#[test]
fn blocks_are_counted_through_the_whole_document() {
    assert_eq!(block_sources(&vec![0, 0, 2], 5), [5, 5, 7]);
    assert!(block_sources(&vec![], 5).is_empty());
}

#[test]
fn every_header_and_footer_takes_its_own_room() {
    let slot = |text_height, floats| Some(SlotFacts { text_height, floats });
    let tall = FloatFacts { wraps_top_and_bottom: true, y: FloatY::Absolute(700), height: 250 };
    let headers = HeaderFooterSet {
        default: slot(40, vec![]),
        first: slot(40, vec![tall]),
        even: None,
    };
    let footers = HeaderFooterSet { default: None, first: slot(30, vec![tall]), even: slot(30, vec![]) };
    let (above, below) = measure_header_footer_clearance(10, 20, 1000, &headers, &footers);
    assert_eq!((above.default, above.first, above.even), (Some(50), Some(950), None));
    assert_eq!((below.default, below.first, below.even), (None, Some(300), Some(50)));
}

#[test]
fn endnotes_stand_below_their_line() {
    let page = layout_endnotes(WIDE, 2, &vec![30, 0, 5]);
    let line = EndnoteItem::Line {
        from: 1370,
        to: 1436,
        y: 1000,
        width: 6350,
        red: 0,
        green: 0,
        blue: 0,
    };
    let note = |note, y| EndnoteItem::Note { note, x: 100, y };
    assert_eq!(page.items, [line, note(0, 51_800), note(1, 51_830), note(2, 51_830)]);
}
