//! What the formatting of a paragraph comes to.
use vstd::prelude::*;

use crate::model::run::{
    merge_run_properties, merged, unset_run, FontSlot, RunProperties,
};
use crate::pptx::cascade::{counterparts, first_counterpart, MatchRule};
use crate::pptx::shapes::{Placeholder, Shape};
use crate::pptx::text::{ListStyle, TextParagraphProperties};
use crate::pptx::textcascade::{
    absorbed, after_rung, climbed, direct_style, finished, level_in, level_of, resolved, styles_in,
    PlaceholderTextStyles, ResolvedTextStyle, SizeSource, TextCascade,
};
use crate::render::shape_visuals::at;
use crate::laws::inheritance::share;

verus! {

/// Whether formatting is what a list style states for a level, counted from
/// zero; nothing where the list has no such level.
pub open spec fn is_level(
    style: ListStyle,
    level: u8,
    p: Option<TextParagraphProperties>,
) -> bool {
    if level < 9 {
        match style.levels@[level as int] {
            Some(x) => p == Some(*x),
            None => p is None,
        }
    } else {
        p is None
    }
}

/// Whether formatting is that of the first of a part's placeholders with the
/// index of a given one, or nothing where there is none.
pub open spec fn is_found_by_index(
    entries: Seq<(Placeholder, ListStyle)>,
    ph: Placeholder,
    level: u8,
    p: Option<TextParagraphProperties>,
) -> bool {
    &&& (forall|k: int| 0 <= k < entries.len() ==> (#[trigger] entries[k]).0.idx != ph.idx) ==> p
        is None
    &&& forall|k: int|
        0 <= k < entries.len() && (#[trigger] entries[k]).0.idx == ph.idx && (forall|j: int|
            0 <= j < k ==> (#[trigger] entries[j]).0.idx != ph.idx) ==> is_level(
            entries[k].1,
            level,
            p,
        )
}

/// Whether formatting is that of the first of a part's placeholders whose kind
/// shares a master's placeholder with that of a given one, or nothing where
/// there is none.
pub open spec fn is_found_by_kind(
    entries: Seq<(Placeholder, ListStyle)>,
    ph: Placeholder,
    level: u8,
    p: Option<TextParagraphProperties>,
) -> bool {
    &&& (forall|k: int|
        0 <= k < entries.len() ==> !share((#[trigger] entries[k]).0.kind, ph.kind)) ==> p is None
    &&& forall|k: int|
        0 <= k < entries.len() && share((#[trigger] entries[k]).0.kind, ph.kind) && (forall|j: int|
            0 <= j < k ==> !share((#[trigger] entries[j]).0.kind, ph.kind)) ==> is_level(
            entries[k].1,
            level,
            p,
        )
}

/// What stands behind the formatting of a paragraph.
pub struct Behind {
    pub shape: Option<TextParagraphProperties>,
    pub layout: Option<TextParagraphProperties>,
    pub master: Option<TextParagraphProperties>,
    pub styles: Option<TextParagraphProperties>,
    pub deck: Option<TextParagraphProperties>,
}

/// Whether that stands behind a paragraph's formatting: its level of the shape's
/// list style, of the layout's placeholder with the same index, of the master's
/// placeholder of its kind, of the master's style for titles, for texts or for
/// the rest, and of the presentation's default. A shape that fills no
/// placeholder has none of the three in the middle.
pub open spec fn stands_behind(
    c: TextCascade,
    direct: TextParagraphProperties,
    placeholder: Option<&Placeholder>,
    b: Behind,
) -> bool {
    let level = match direct.level {
        Some(l) => l,
        None => 0,
    };
    &&& c.shape is None ==> b.shape is None
    &&& c.shape matches Some(s) ==> is_level(*s, level, b.shape)
    &&& c.deck is None ==> b.deck is None && b.styles is None
    &&& c.deck matches Some(d) ==> is_level(d.default_text_style, level, b.deck)
    &&& placeholder is None ==> b.layout is None && b.master is None && b.styles is None
    &&& placeholder matches Some(ph) ==> {
        &&& c.layout is None ==> b.layout is None
        &&& c.layout matches Some(l) ==> is_found_by_index(l@, *ph, level, b.layout)
        &&& c.master is None ==> b.master is None
        &&& c.master matches Some(m) ==> is_found_by_kind(m@, *ph, level, b.master)
        &&& c.deck matches Some(d) ==> {
            let k = ph.kind;
            if k is Title || k is CtrTitle {
                is_level(d.master_styles.title, level, b.styles)
            } else if k is Dt || k is Ftr || k is SldNum || k is SldImg || k is Hdr {
                is_level(d.master_styles.other, level, b.styles)
            } else {
                is_level(d.master_styles.body, level, b.styles)
            }
        }
    }
}

/// What paragraph formatting states of one thing.
pub open spec fn stated<T>(
    p: Option<TextParagraphProperties>,
    what: spec_fn(TextParagraphProperties) -> Option<T>,
) -> Option<T> {
    match p {
        Some(x) => what(x),
        None => None,
    }
}

/// What paragraph formatting states of one thing of its runs.
pub open spec fn run_stated<T>(
    p: TextParagraphProperties,
    what: spec_fn(RunProperties) -> Option<T>,
) -> Option<T> {
    match p.default_run_properties {
        Some(r) => what(r),
        None => None,
    }
}

/// The first of a paragraph and what stands behind it that states a thing says
/// what it is.
pub open spec fn nearest<T>(
    own: TextParagraphProperties,
    b: Behind,
    what: spec_fn(TextParagraphProperties) -> Option<T>,
) -> Option<T> {
    if what(own) is Some {
        what(own)
    } else if stated(b.shape, what) is Some {
        stated(b.shape, what)
    } else if stated(b.layout, what) is Some {
        stated(b.layout, what)
    } else if stated(b.master, what) is Some {
        stated(b.master, what)
    } else if stated(b.styles, what) is Some {
        stated(b.styles, what)
    } else {
        stated(b.deck, what)
    }
}

/// A font slot that names a font.
pub open spec fn named(s: FontSlot) -> Option<FontSlot> {
    if s.explicit is None && s.theme is None {
        None
    } else {
        Some(s)
    }
}

proof fn first_by_index(entries: Seq<(Placeholder, ListStyle)>, ph: Placeholder, k: int)
    requires
        0 <= k <= entries.len(),
        forall|j: int| 0 <= j < k ==> !counterparts((#[trigger] entries[j]).0, ph, MatchRule::Idx),
        k < entries.len() ==> counterparts(entries[k].0, ph, MatchRule::Idx),
    ensures
        first_counterpart(entries, ph, MatchRule::Idx) == if k < entries.len() {
            Some(entries[k].1)
        } else {
            None
        },
    decreases entries.len(),
{
    if k > 0 {
        let rest = entries.skip(1);
        assert(forall|j: int| 0 <= j < rest.len() ==> #[trigger] rest[j] == entries[j + 1]);
        assert(!counterparts(entries[0].0, ph, MatchRule::Idx));
        first_by_index(rest, ph, k - 1);
    }
}

proof fn first_by_kind(entries: Seq<(Placeholder, ListStyle)>, ph: Placeholder, k: int)
    requires
        0 <= k <= entries.len(),
        forall|j: int|
            0 <= j < k ==> !counterparts((#[trigger] entries[j]).0, ph, MatchRule::CollapsedKind),
        k < entries.len() ==> counterparts(entries[k].0, ph, MatchRule::CollapsedKind),
    ensures
        first_counterpart(entries, ph, MatchRule::CollapsedKind) == if k < entries.len() {
            Some(entries[k].1)
        } else {
            None
        },
    decreases entries.len(),
{
    if k > 0 {
        let rest = entries.skip(1);
        assert(forall|j: int| 0 <= j < rest.len() ==> #[trigger] rest[j] == entries[j + 1]);
        assert(!counterparts(entries[0].0, ph, MatchRule::CollapsedKind));
        first_by_kind(rest, ph, k - 1);
    }
}

/// The place of the first entry that meets a test, or the number of entries.
proof fn a_first_one<T>(entries: Seq<T>, test: spec_fn(T) -> bool) -> (k: int)
    ensures
        0 <= k <= entries.len(),
        forall|j: int| 0 <= j < k ==> !test(#[trigger] entries[j]),
        k < entries.len() ==> test(entries[k]),
    decreases entries.len(),
{
    if entries.len() == 0 {
        0
    } else if test(entries[0]) {
        0
    } else {
        let rest = entries.skip(1);
        let k = a_first_one(rest, test);
        assert forall|j: int| 0 <= j < k + 1 implies !test(#[trigger] entries[j]) by {
            if j > 0 {
                assert(rest[j - 1] == entries[j]);
            }
        }
        k + 1
    }
}

/// What is found by index is what the layout's counterpart states.
proof fn the_layouts_rung(
    entries: Seq<(Placeholder, ListStyle)>,
    ph: Placeholder,
    level: u8,
    p: Option<TextParagraphProperties>,
)
    requires
        is_found_by_index(entries, ph, level, p),
    ensures
        level_in(first_counterpart(entries, ph, MatchRule::Idx), level) == p,
{
    let k = a_first_one(entries, |e: (Placeholder, ListStyle)| e.0.idx == ph.idx);
    assert forall|j: int| 0 <= j < k implies (#[trigger] entries[j]).0.idx != ph.idx by {}
    first_by_index(entries, ph, k);
}

/// What is found by kind is what the master's counterpart states.
proof fn the_masters_rung(
    entries: Seq<(Placeholder, ListStyle)>,
    ph: Placeholder,
    level: u8,
    p: Option<TextParagraphProperties>,
)
    requires
        is_found_by_kind(entries, ph, level, p),
    ensures
        level_in(first_counterpart(entries, ph, MatchRule::CollapsedKind), level) == p,
{
    let k = a_first_one(entries, |e: (Placeholder, ListStyle)| share(e.0.kind, ph.kind));
    assert forall|j: int| 0 <= j < k implies !share((#[trigger] entries[j]).0.kind, ph.kind) by {}
    assert forall|j: int| 0 <= j < k implies !counterparts(
        (#[trigger] entries[j]).0,
        ph,
        MatchRule::CollapsedKind,
    ) by {
        assert(!share(entries[j].0.kind, ph.kind));
    }
    first_by_kind(entries, ph, k);
}

/// What stands behind a paragraph, the nearest first.
pub open spec fn in_order(b: Behind, placeholder: Option<&Placeholder>) -> Seq<
    (Option<TextParagraphProperties>, SizeSource),
> {
    match placeholder {
        Some(_) => seq![
            (b.shape, SizeSource::ShapeListStyle),
            (b.layout, SizeSource::LayoutPlaceholder),
            (b.master, SizeSource::MasterPlaceholder),
            (b.styles, SizeSource::MasterTextStyles),
            (b.deck, SizeSource::DefaultTextStyle),
        ],
        None => seq![
            (b.shape, SizeSource::ShapeListStyle),
            (b.deck, SizeSource::DefaultTextStyle),
        ],
    }
}

/// What stands behind a paragraph is what the cascade climbs.
proof fn rungs_are_behind(
    c: TextCascade,
    direct: TextParagraphProperties,
    placeholder: Option<&Placeholder>,
    b: Behind,
)
    requires
        stands_behind(c, direct, placeholder, b),
    ensures
        c.rungs(level_of(direct), at(placeholder)) == in_order(b, placeholder),
{
    let level = level_of(direct);
    let rungs = c.rungs(level, at(placeholder));
    let want = in_order(b, placeholder);
    assert(rungs[0] == want[0]);
    assert(rungs.last() == want.last());
    if let Some(ph) = placeholder {
        assert(rungs[1] == want[1]) by {
            if let Some(l) = c.layout {
                the_layouts_rung(l@, *ph, level, b.layout);
            }
        }
        assert(rungs[2] == want[2]) by {
            if let Some(m) = c.master {
                the_masters_rung(m@, *ph, level, b.master);
            }
        }
        assert(rungs[3] == want[3]) by {
            assert(c.deck is None ==> rungs[3].0 is None);
        }
        assert(rungs[4] == want[4]);
        assert(rungs.len() == 5 && want.len() == 5);
    }
    assert(rungs =~= want);
}

/// A style after the rungs that stand behind a paragraph.
spec fn climbed_all(start: (ResolvedTextStyle, Option<SizeSource>), b: Behind) -> (
    ResolvedTextStyle,
    Option<SizeSource>,
) {
    after_rung(
        after_rung(
            after_rung(
                after_rung(
                    after_rung(start, (b.shape, SizeSource::ShapeListStyle)),
                    (b.layout, SizeSource::LayoutPlaceholder),
                ),
                (b.master, SizeSource::MasterPlaceholder),
            ),
            (b.styles, SizeSource::MasterTextStyles),
        ),
        (b.deck, SizeSource::DefaultTextStyle),
    )
}

/// What a paragraph starts from.
spec fn start_of(direct: TextParagraphProperties) -> (ResolvedTextStyle, Option<SizeSource>) {
    let own = direct_style(direct);
    (
        own,
        if own.run_defaults.font_size is Some {
            Some(SizeSource::Direct)
        } else {
            None
        },
    )
}

/// A climb over five rungs, one by one.
proof fn five_rungs(
    start: (ResolvedTextStyle, Option<SizeSource>),
    b: Behind,
    placeholder: Option<&Placeholder>,
)
    requires
        placeholder is None ==> b.layout is None && b.master is None && b.styles is None,
    ensures
        climbed(start, in_order(b, placeholder)) == climbed_all(start, b),
{
    reveal_with_fuel(climbed, 6);
    let sources = in_order(b, placeholder);
    let a = sources.drop_last();
    if placeholder is Some {
        let c = a.drop_last();
        let d = c.drop_last();
        let e = d.drop_last();
        assert(a.last() == sources[3] && c.last() == sources[2] && d.last() == sources[1]
            && e.last() == sources[0]);
        assert(e.drop_last().len() == 0);
    } else {
        assert(a.last() == sources[0]);
        assert(a.drop_last().len() == 0);
    }
}

/// What is resolved is what is climbed, finished.
proof fn resolving_climbs(
    c: TextCascade,
    direct: TextParagraphProperties,
    placeholder: Option<&Placeholder>,
    b: Behind,
)
    requires
        stands_behind(c, direct, placeholder, b),
    ensures
        resolved(direct, c.rungs(level_of(direct), at(placeholder))) == finished(
            climbed_all(start_of(direct), b),
        ),
{
    rungs_are_behind(c, direct, placeholder, b);
    five_rungs(start_of(direct), b, placeholder);
}

/// A thing that is taken where it is not stated is what the nearest states.
proof fn a_thing_is_the_nearests<T>(
    direct: TextParagraphProperties,
    b: Behind,
    of: spec_fn(ResolvedTextStyle) -> Option<T>,
    what: spec_fn(TextParagraphProperties) -> Option<T>,
)
    requires
        forall|s: ResolvedTextStyle, p: TextParagraphProperties| #[trigger]
            of(absorbed(s, p)) == if of(s) is Some {
                of(s)
            } else {
                what(p)
            },
        of(direct_style(direct)) == what(direct),
    ensures
        of(climbed_all(start_of(direct), b).0) == nearest(direct, b, what),
{
    let s0 = start_of(direct);
    let s1 = after_rung(s0, (b.shape, SizeSource::ShapeListStyle));
    let s2 = after_rung(s1, (b.layout, SizeSource::LayoutPlaceholder));
    let s3 = after_rung(s2, (b.master, SizeSource::MasterPlaceholder));
    let s4 = after_rung(s3, (b.styles, SizeSource::MasterTextStyles));
    let s5 = after_rung(s4, (b.deck, SizeSource::DefaultTextStyle));
    a_rung_adds(s0, (b.shape, SizeSource::ShapeListStyle), of, what);
    a_rung_adds(s1, (b.layout, SizeSource::LayoutPlaceholder), of, what);
    a_rung_adds(s2, (b.master, SizeSource::MasterPlaceholder), of, what);
    a_rung_adds(s3, (b.styles, SizeSource::MasterTextStyles), of, what);
    a_rung_adds(s4, (b.deck, SizeSource::DefaultTextStyle), of, what);
}

/// A rung adds what is not stated yet.
proof fn a_rung_adds<T>(
    s: (ResolvedTextStyle, Option<SizeSource>),
    rung: (Option<TextParagraphProperties>, SizeSource),
    of: spec_fn(ResolvedTextStyle) -> Option<T>,
    what: spec_fn(TextParagraphProperties) -> Option<T>,
)
    requires
        forall|s: ResolvedTextStyle, p: TextParagraphProperties| #[trigger]
            of(absorbed(s, p)) == if of(s) is Some {
                of(s)
            } else {
                what(p)
            },
    ensures
        of(after_rung(s, rung).0) == if of(s.0) is Some {
            of(s.0)
        } else {
            stated(rung.0, what)
        },
{
    if let Some(p) = rung.0 {
        assert(of(absorbed(s.0, p)) == if of(s.0) is Some {
            of(s.0)
        } else {
            what(p)
        });
    }
}

/// A thing of runs that is taken where it is not stated is what the nearest
/// states.
proof fn a_thing_of_runs_is_the_nearests<T>(
    direct: TextParagraphProperties,
    b: Behind,
    what: spec_fn(RunProperties) -> Option<T>,
)
    requires
        forall|x: RunProperties, y: RunProperties| #[trigger]
            what(merged(x, y)) == if what(x) is Some {
                what(x)
            } else {
                what(y)
            },
        what(unset_run()) is None,
    ensures
        what(climbed_all(start_of(direct), b).0.run_defaults) == nearest(
            direct,
            b,
            |p: TextParagraphProperties| run_stated(p, what),
        ),
{
    let of = |s: ResolvedTextStyle| what(s.run_defaults);
    let g = |p: TextParagraphProperties| run_stated(p, what);
    assert forall|s: ResolvedTextStyle, p: TextParagraphProperties| #[trigger]
        of(absorbed(s, p)) == if of(s) is Some {
            of(s)
        } else {
            g(p)
        } by {
        if let Some(run) = p.default_run_properties {
            assert(what(merged(s.run_defaults, run)) == if what(s.run_defaults) is Some {
                what(s.run_defaults)
            } else {
                what(run)
            });
        }
    }
    a_thing_is_the_nearests(direct, b, of, g);
}

/// Every property of a paragraph is what the nearest source states that states
/// it: the paragraph itself, the shape's list style, the layout's placeholder,
/// the master's, the master's style for the kind, and the presentation's
/// default, in this order.
pub proof fn the_nearest_source_counts(
    c: &TextCascade,
    direct: &TextParagraphProperties,
    placeholder: Option<&Placeholder>,
    b: Behind,
    r: ResolvedTextStyle,
)
    requires
        call_ensures(TextCascade::resolve, (c, direct, placeholder), r),
        stands_behind(*c, *direct, placeholder, b),
    ensures
        r.level == match direct.level {
            Some(l) => l,
            None => 0u8,
        },
        r.alignment == nearest(*direct, b, |p: TextParagraphProperties| p.alignment),
        r.margin_left == nearest(*direct, b, |p: TextParagraphProperties| p.margin_left),
        r.margin_right == nearest(*direct, b, |p: TextParagraphProperties| p.margin_right),
        r.indent == nearest(*direct, b, |p: TextParagraphProperties| p.indent),
        r.default_tab_size == nearest(*direct, b, |p: TextParagraphProperties| p.default_tab_size),
        r.rtl == nearest(*direct, b, |p: TextParagraphProperties| p.rtl),
        r.line_spacing == nearest(*direct, b, |p: TextParagraphProperties| p.line_spacing),
        r.space_before == nearest(*direct, b, |p: TextParagraphProperties| p.space_before),
        r.space_after == nearest(*direct, b, |p: TextParagraphProperties| p.space_after),
        r.bullet == nearest(*direct, b, |p: TextParagraphProperties| p.bullet),
{
    resolving_climbs(*c, *direct, placeholder, b);
    a_thing_is_the_nearests(
        *direct,
        b,
        |s: ResolvedTextStyle| s.alignment,
        |p: TextParagraphProperties| p.alignment,
    );
    a_thing_is_the_nearests(
        *direct,
        b,
        |s: ResolvedTextStyle| s.margin_left,
        |p: TextParagraphProperties| p.margin_left,
    );
    a_thing_is_the_nearests(
        *direct,
        b,
        |s: ResolvedTextStyle| s.margin_right,
        |p: TextParagraphProperties| p.margin_right,
    );
    a_thing_is_the_nearests(
        *direct,
        b,
        |s: ResolvedTextStyle| s.indent,
        |p: TextParagraphProperties| p.indent,
    );
    a_thing_is_the_nearests(
        *direct,
        b,
        |s: ResolvedTextStyle| s.default_tab_size,
        |p: TextParagraphProperties| p.default_tab_size,
    );
    a_thing_is_the_nearests(
        *direct,
        b,
        |s: ResolvedTextStyle| s.rtl,
        |p: TextParagraphProperties| p.rtl,
    );
    a_thing_is_the_nearests(
        *direct,
        b,
        |s: ResolvedTextStyle| s.line_spacing,
        |p: TextParagraphProperties| p.line_spacing,
    );
    a_thing_is_the_nearests(
        *direct,
        b,
        |s: ResolvedTextStyle| s.space_before,
        |p: TextParagraphProperties| p.space_before,
    );
    a_thing_is_the_nearests(
        *direct,
        b,
        |s: ResolvedTextStyle| s.space_after,
        |p: TextParagraphProperties| p.space_after,
    );
    a_thing_is_the_nearests(
        *direct,
        b,
        |s: ResolvedTextStyle| s.bullet,
        |p: TextParagraphProperties| p.bullet,
    );
}

/// Everything that a run starts from is what the nearest source states of runs
/// that states it. Where nothing states a size it is eighteen points.
pub proof fn the_nearest_source_counts_for_runs(
    c: &TextCascade,
    direct: &TextParagraphProperties,
    placeholder: Option<&Placeholder>,
    b: Behind,
    r: ResolvedTextStyle,
)
    requires
        call_ensures(TextCascade::resolve, (c, direct, placeholder), r),
        stands_behind(*c, *direct, placeholder, b),
    ensures
        ({
            let run = r.run_defaults;
            let size = nearest(
                *direct,
                b,
                |p: TextParagraphProperties| run_stated(p, |x: RunProperties| x.font_size),
            );
            &&& size is Some ==> run.font_size == size
            &&& size is None ==> (run.font_size matches Some(s) && s.value == 36)
            &&& run.bold == nearest(
                *direct,
                b,
                |p: TextParagraphProperties| run_stated(p, |x: RunProperties| x.bold),
            )
            &&& run.italic == nearest(
                *direct,
                b,
                |p: TextParagraphProperties| run_stated(p, |x: RunProperties| x.italic),
            )
            &&& run.underline == nearest(
                *direct,
                b,
                |p: TextParagraphProperties| run_stated(p, |x: RunProperties| x.underline),
            )
            &&& run.strike == nearest(
                *direct,
                b,
                |p: TextParagraphProperties| run_stated(p, |x: RunProperties| x.strike),
            )
            &&& run.color == nearest(
                *direct,
                b,
                |p: TextParagraphProperties| run_stated(p, |x: RunProperties| x.color),
            )
            &&& run.drawing_color == nearest(
                *direct,
                b,
                |p: TextParagraphProperties| run_stated(p, |x: RunProperties| x.drawing_color),
            )
            &&& run.spacing == nearest(
                *direct,
                b,
                |p: TextParagraphProperties| run_stated(p, |x: RunProperties| x.spacing),
            )
            &&& run.kerning == nearest(
                *direct,
                b,
                |p: TextParagraphProperties| run_stated(p, |x: RunProperties| x.kerning),
            )
            &&& run.all_caps == nearest(
                *direct,
                b,
                |p: TextParagraphProperties| run_stated(p, |x: RunProperties| x.all_caps),
            )
            &&& run.small_caps == nearest(
                *direct,
                b,
                |p: TextParagraphProperties| run_stated(p, |x: RunProperties| x.small_caps),
            )
            &&& run.vertical_align == nearest(
                *direct,
                b,
                |p: TextParagraphProperties| run_stated(p, |x: RunProperties| x.vertical_align),
            )
            &&& named(run.fonts.ascii) == nearest(
                *direct,
                b,
                |p: TextParagraphProperties| run_stated(p, |x: RunProperties| named(x.fonts.ascii)),
            )
            &&& named(run.fonts.high_ansi) == nearest(
                *direct,
                b,
                |p: TextParagraphProperties|
                    run_stated(p, |x: RunProperties| named(x.fonts.high_ansi)),
            )
            &&& named(run.fonts.east_asian) == nearest(
                *direct,
                b,
                |p: TextParagraphProperties|
                    run_stated(p, |x: RunProperties| named(x.fonts.east_asian)),
            )
            &&& named(run.fonts.complex_script) == nearest(
                *direct,
                b,
                |p: TextParagraphProperties|
                    run_stated(p, |x: RunProperties| named(x.fonts.complex_script)),
            )
        }),
{
    resolving_climbs(*c, *direct, placeholder, b);
    a_thing_of_runs_is_the_nearests(*direct, b, |x: RunProperties| x.font_size);
    a_thing_of_runs_is_the_nearests(*direct, b, |x: RunProperties| x.bold);
    a_thing_of_runs_is_the_nearests(*direct, b, |x: RunProperties| x.italic);
    a_thing_of_runs_is_the_nearests(*direct, b, |x: RunProperties| x.underline);
    a_thing_of_runs_is_the_nearests(*direct, b, |x: RunProperties| x.strike);
    a_thing_of_runs_is_the_nearests(*direct, b, |x: RunProperties| x.color);
    a_thing_of_runs_is_the_nearests(*direct, b, |x: RunProperties| x.drawing_color);
    a_thing_of_runs_is_the_nearests(*direct, b, |x: RunProperties| x.spacing);
    a_thing_of_runs_is_the_nearests(*direct, b, |x: RunProperties| x.kerning);
    a_thing_of_runs_is_the_nearests(*direct, b, |x: RunProperties| x.all_caps);
    a_thing_of_runs_is_the_nearests(*direct, b, |x: RunProperties| x.small_caps);
    a_thing_of_runs_is_the_nearests(*direct, b, |x: RunProperties| x.vertical_align);
    a_thing_of_runs_is_the_nearests(*direct, b, |x: RunProperties| named(x.fonts.ascii));
    a_thing_of_runs_is_the_nearests(*direct, b, |x: RunProperties| named(x.fonts.high_ansi));
    a_thing_of_runs_is_the_nearests(*direct, b, |x: RunProperties| named(x.fonts.east_asian));
    a_thing_of_runs_is_the_nearests(*direct, b, |x: RunProperties| named(x.fonts.complex_script));
}

/// Whether paragraph formatting states a size for its runs.
pub open spec fn sizes(p: Option<TextParagraphProperties>) -> bool {
    p matches Some(x) && x.default_run_properties matches Some(run) && run.font_size is Some
}

/// The source of the size that is named is the nearest that states one.
pub proof fn the_source_of_the_size_is_the_nearest(
    c: &TextCascade,
    direct: &TextParagraphProperties,
    placeholder: Option<&Placeholder>,
    b: Behind,
    r: ResolvedTextStyle,
)
    requires
        call_ensures(TextCascade::resolve, (c, direct, placeholder), r),
        stands_behind(*c, *direct, placeholder, b),
    ensures
        ({
            let own = sizes(Some(*direct));
            &&& r.size_source is Direct <==> own
            &&& r.size_source is ShapeListStyle <==> !own && sizes(b.shape)
            &&& r.size_source is LayoutPlaceholder <==> !own && !sizes(b.shape) && sizes(b.layout)
            &&& r.size_source is MasterPlaceholder <==> !own && !sizes(b.shape) && !sizes(b.layout)
                && sizes(b.master)
            &&& r.size_source is MasterTextStyles <==> !own && !sizes(b.shape) && !sizes(b.layout)
                && !sizes(b.master) && sizes(b.styles)
            &&& r.size_source is DefaultTextStyle <==> !own && !sizes(b.shape) && !sizes(b.layout)
                && !sizes(b.master) && !sizes(b.styles) && sizes(b.deck)
            &&& r.size_source is SpecDefault <==> !own && !sizes(b.shape) && !sizes(b.layout)
                && !sizes(b.master) && !sizes(b.styles) && !sizes(b.deck)
        }),
{
    resolving_climbs(*c, *direct, placeholder, b);
    a_thing_of_runs_is_the_nearests(*direct, b, |x: RunProperties| x.font_size);
}

/// A run keeps all that it states itself, and takes the rest from where it
/// starts.
pub proof fn a_run_keeps_what_it_states(own: &mut RunProperties, base: &RunProperties)
    requires
        call_ensures(merge_run_properties, (own, base), ()),
    ensures
        ({
            let a = *old(own);
            let r = *final(own);
            &&& r.font_size == if a.font_size is Some { a.font_size } else { base.font_size }
            &&& r.bold == if a.bold is Some { a.bold } else { base.bold }
            &&& r.italic == if a.italic is Some { a.italic } else { base.italic }
            &&& r.underline == if a.underline is Some { a.underline } else { base.underline }
            &&& r.strike == if a.strike is Some { a.strike } else { base.strike }
            &&& r.color == if a.color is Some { a.color } else { base.color }
            &&& r.drawing_color == if a.drawing_color is Some {
                a.drawing_color
            } else {
                base.drawing_color
            }
            &&& r.spacing == if a.spacing is Some { a.spacing } else { base.spacing }
            &&& r.kerning == if a.kerning is Some { a.kerning } else { base.kerning }
            &&& r.all_caps == if a.all_caps is Some { a.all_caps } else { base.all_caps }
            &&& r.small_caps == if a.small_caps is Some { a.small_caps } else { base.small_caps }
            &&& r.vertical_align == if a.vertical_align is Some {
                a.vertical_align
            } else {
                base.vertical_align
            }
            &&& r.fonts.ascii == if named(a.fonts.ascii) is Some {
                a.fonts.ascii
            } else {
                base.fonts.ascii
            }
            &&& r.fonts.high_ansi == if named(a.fonts.high_ansi) is Some {
                a.fonts.high_ansi
            } else {
                base.fonts.high_ansi
            }
            &&& r.fonts.east_asian == if named(a.fonts.east_asian) is Some {
                a.fonts.east_asian
            } else {
                base.fonts.east_asian
            }
            &&& r.fonts.complex_script == if named(a.fonts.complex_script) is Some {
                a.fonts.complex_script
            } else {
                base.fonts.complex_script
            }
        }),
{
}

/// To give a run what its paragraph resolves to is to merge it with what the
/// paragraph's runs start from.
pub proof fn a_style_is_applied_as_it_merges(
    style: &ResolvedTextStyle,
    run: &mut RunProperties,
    other: &mut RunProperties,
)
    requires
        call_ensures(ResolvedTextStyle::apply_to_run, (style, run), ()),
        call_ensures(merge_run_properties, (other, &style.run_defaults), ()),
        *old(run) == *old(other),
    ensures
        *final(run) == *final(other),
{
}

/// The list styles that a part supplies are those of its placeholders whose text
/// states one, in document order.
pub proof fn a_part_supplies_the_styles_of_its_placeholders(
    shapes: &[Shape],
    r: PlaceholderTextStyles,
    i: int,
    ph: Placeholder,
    style: ListStyle,
)
    requires
        call_ensures(PlaceholderTextStyles::from_part, (shapes,), r),
        0 <= i < shapes@.len(),
        shapes@[i].placeholder == Some(ph),
        shapes@[i].kind matches crate::pptx::shapes::ShapeKind::AutoShape(a) && a.text matches Some(t)
            && t.list_style == style,
        exists|l: int| 0 <= l < 9 && (#[trigger] style.levels@[l]) is Some,
        forall|j: int|
            0 <= j < i ==> ((#[trigger] shapes@[j]).placeholder matches Some(q) ==> q.idx != ph.idx),
    ensures
        exists|k: int|
            0 <= k < r@.len() && #[trigger] r@[k] == (ph, style) && forall|j: int|
                0 <= j < k ==> (#[trigger] r@[j]).0.idx != ph.idx,
{
    let all = shapes@;
    assert(!style.states_nothing());
    let part = all.take(i + 1);
    assert(part.drop_last() =~= all.take(i));
    assert(part.last() == all[i]);
    earlier_styles(all, ph, i);
    let before = styles_in(all.take(i));
    let now = styles_in(part);
    assert(now == before.push((ph, style)));
    later_styles(all, i + 1);
    let k = before.len() as int;
    assert(r@[k] == now[k]);
    assert forall|j: int| 0 <= j < k implies (#[trigger] r@[j]).0.idx != ph.idx by {
        assert(r@[j] == now[j]);
        assert(now[j] == before[j]);
    }
}

proof fn earlier_styles(shapes: Seq<Shape>, ph: Placeholder, n: int)
    requires
        0 <= n <= shapes.len(),
        forall|j: int|
            0 <= j < n ==> ((#[trigger] shapes[j]).placeholder matches Some(q) ==> q.idx != ph.idx),
    ensures
        forall|k: int|
            0 <= k < styles_in(shapes.take(n)).len() ==> (#[trigger] styles_in(
                shapes.take(n),
            )[k]).0.idx != ph.idx,
    decreases n,
{
    if n > 0 {
        earlier_styles(shapes, ph, n - 1);
        assert(shapes.take(n).drop_last() =~= shapes.take(n - 1));
        assert(shapes.take(n).last() == shapes[n - 1]);
    }
}

proof fn later_styles(shapes: Seq<Shape>, n: int)
    requires
        0 <= n <= shapes.len(),
    ensures
        styles_in(shapes.take(n)).len() <= styles_in(shapes).len(),
        forall|k: int|
            0 <= k < styles_in(shapes.take(n)).len() ==> styles_in(shapes)[k] == #[trigger] styles_in(
                shapes.take(n),
            )[k],
    decreases shapes.len() - n,
{
    if n == shapes.len() {
        assert(shapes.take(n) =~= shapes);
    } else {
        later_styles(shapes, n + 1);
        assert(shapes.take(n + 1).drop_last() =~= shapes.take(n));
        let a = styles_in(shapes.take(n));
        let b = styles_in(shapes.take(n + 1));
        assert forall|k: int| 0 <= k < a.len() implies styles_in(shapes)[k] == #[trigger] a[k] by {
            assert(b[k] == a[k]);
        }
    }
}

} // verus!
