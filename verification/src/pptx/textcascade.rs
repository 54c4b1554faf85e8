//! What text inherits: the formatting that a paragraph and its runs start
//! from.
//!
//! A paragraph's own formatting comes first. Behind it stand the list style of
//! its shape, of the layout's placeholder, of the master's placeholder, the
//! master's style for the kind of placeholder, and the presentation's default,
//! each at the paragraph's level. Every property is taken from the first of
//! them that states it. A shape that fills no placeholder has no counterpart
//! to inherit from, and a size that nothing states is the format's default.
use vstd::prelude::*;

use crate::dimension::{units, Dimension, Emu};
use crate::model::run::{
    fill, merge_run_properties, merged, or, unset_run, Alignment, RunProperties,
};
use crate::pptx::cascade::{are_counterparts, first_counterpart, MatchRule};
use crate::pptx::shapes::{Placeholder, PlaceholderKind, Shape};
use crate::pptx::text::{Bullet, ListStyle, Spacing, TextParagraphProperties, TextStyles};

verus! {

/// The font size that the format gives to text for which nothing states one,
/// in half-points.
pub const SPEC_DEFAULT_FONT_SIZE: i64 = 36;

/// The three styles of a master.
#[derive(Debug, Clone, Copy, PartialEq, Eq, Structural)]
pub enum TextStyleClass {
    Title,
    Body,
    Other,
}

/// Which of a master's styles a kind of placeholder reads.
pub open spec fn class_of(kind: PlaceholderKind) -> TextStyleClass {
    match kind {
        PlaceholderKind::Title => TextStyleClass::Title,
        PlaceholderKind::CtrTitle => TextStyleClass::Title,
        PlaceholderKind::Dt => TextStyleClass::Other,
        PlaceholderKind::Ftr => TextStyleClass::Other,
        PlaceholderKind::SldNum => TextStyleClass::Other,
        PlaceholderKind::SldImg => TextStyleClass::Other,
        PlaceholderKind::Hdr => TextStyleClass::Other,
        _ => TextStyleClass::Body,
    }
}

/// A master's style of a class.
pub open spec fn style_of(class: TextStyleClass, styles: TextStyles) -> ListStyle {
    match class {
        TextStyleClass::Title => styles.title,
        TextStyleClass::Body => styles.body,
        TextStyleClass::Other => styles.other,
    }
}

impl TextStyleClass {
    /// Which of a master's styles a kind of placeholder reads.
    pub fn of(kind: PlaceholderKind) -> (r: Self)
        ensures
            r == class_of(kind),
    {
        match kind {
            PlaceholderKind::Title => TextStyleClass::Title,
            PlaceholderKind::CtrTitle => TextStyleClass::Title,
            PlaceholderKind::Dt => TextStyleClass::Other,
            PlaceholderKind::Ftr => TextStyleClass::Other,
            PlaceholderKind::SldNum => TextStyleClass::Other,
            PlaceholderKind::SldImg => TextStyleClass::Other,
            PlaceholderKind::Hdr => TextStyleClass::Other,
            _ => TextStyleClass::Body,
        }
    }

    /// The master's style of this class.
    fn pick(self, styles: &TextStyles) -> (r: &ListStyle)
        ensures
            *r == style_of(self, *styles),
    {
        match self {
            TextStyleClass::Title => &styles.title,
            TextStyleClass::Body => &styles.body,
            TextStyleClass::Other => &styles.other,
        }
    }
}

/// The list styles that the placeholders of a part supply.
pub struct PlaceholderTextStyles<'a> {
    entries: Vec<(Placeholder, &'a ListStyle)>,
}

impl<'a> View for PlaceholderTextStyles<'a> {
    type V = Seq<(Placeholder, ListStyle)>;

    closed spec fn view(&self) -> Seq<(Placeholder, ListStyle)> {
        held(self.entries@)
    }
}

/// The list styles behind references.
pub open spec fn held(entries: Seq<(Placeholder, &ListStyle)>) -> Seq<(Placeholder, ListStyle)> {
    entries.map_values(|e: (Placeholder, &ListStyle)| (e.0, *e.1))
}

/// What the placeholders of a part supply, in document order: every list style
/// that states something.
pub open spec fn styles_in(shapes: Seq<Shape>) -> Seq<(Placeholder, ListStyle)>
    decreases shapes.len(),
{
    if shapes.len() == 0 {
        Seq::empty()
    } else {
        let rest = styles_in(shapes.drop_last());
        match (shapes.last().placeholder, shapes.last().own_text()) {
            (Some(ph), Some(t)) => if t.list_style.states_nothing() {
                rest
            } else {
                rest.push((ph, t.list_style))
            },
            _ => rest,
        }
    }
}

impl<'a> PlaceholderTextStyles<'a> {
    /// Indexes the placeholders at the top level of a layout or a master.
    pub fn from_part(shapes: &'a [Shape]) -> (r: Self)
        ensures
            r@ == styles_in(shapes@),
    {
        let mut entries: Vec<(Placeholder, &'a ListStyle)> = Vec::new();
        assert(held(entries@) =~= styles_in(shapes@.take(0)));
        let mut i: usize = 0;
        while i < shapes.len()
            invariant
                i <= shapes@.len(),
                held(entries@) == styles_in(shapes@.take(i as int)),
            decreases shapes@.len() - i,
        {
            assert(shapes@.take(i + 1).drop_last() =~= shapes@.take(i as int));
            let shape: &'a Shape = &shapes[i];
            match (shape.placeholder, shape.text()) {
                (Some(ph), Some(t)) => {
                    if !t.list_style.is_empty() {
                        let ghost before = held(entries@);
                        entries.push((ph, &t.list_style));
                        assert(held(entries@) =~= before.push((ph, t.list_style)));
                    }
                },
                _ => {},
            }
            i = i + 1;
        }
        assert(shapes@.take(i as int) =~= shapes@);
        PlaceholderTextStyles { entries }
    }

    /// The list style of a placeholder's counterpart.
    fn lookup(&self, ph: &Placeholder, rule: MatchRule) -> (r: Option<&'a ListStyle>)
        ensures
            (match r {
                Some(s) => Some(*s),
                None => None,
            }) == first_counterpart(self@, *ph, rule),
    {
        let ghost all = self@;
        let mut i: usize = 0;
        assert(all.skip(0) =~= all);
        while i < self.entries.len()
            invariant
                all == held(self.entries@),
                i <= all.len(),
                first_counterpart(all, *ph, rule) == first_counterpart(
                    all.skip(i as int),
                    *ph,
                    rule,
                ),
            decreases all.len() - i,
        {
            assert(all.skip(i as int)[0] == all[i as int]);
            assert(all.skip(i as int).skip(1) =~= all.skip(i + 1));
            if are_counterparts(&self.entries[i].0, ph, rule) {
                return Some(self.entries[i].1);
            }
            i = i + 1;
        }
        None
    }

    /// Whether the part supplies nothing.
    pub fn is_empty(&self) -> (r: bool)
        ensures
            r == (self@.len() == 0),
    {
        self.entries.len() == 0
    }
}

impl<'a> Default for PlaceholderTextStyles<'a> {
    fn default() -> (r: Self)
        ensures
            r@.len() == 0,
    {
        PlaceholderTextStyles { entries: Vec::new() }
    }
}

/// What a presentation supplies to all the slides of one master.
pub struct DeckTextDefaults {
    /// The master's styles.
    pub master_styles: TextStyles,
    /// The presentation's default.
    pub default_text_style: ListStyle,
}

impl Default for DeckTextDefaults {
    fn default() -> (r: Self)
        ensures
            r.master_styles.title.states_nothing(),
            r.master_styles.body.states_nothing(),
            r.master_styles.other.states_nothing(),
            r.default_text_style.states_nothing(),
    {
        DeckTextDefaults {
            master_styles: TextStyles::default(),
            default_text_style: ListStyle::default(),
        }
    }
}

/// What the text of a shape can inherit from.
pub struct TextCascade<'a> {
    /// The shape's own list style.
    pub shape: Option<&'a ListStyle>,
    /// What the layout's placeholders supply.
    pub layout: Option<&'a PlaceholderTextStyles<'a>>,
    /// What the master's placeholders supply.
    pub master: Option<&'a PlaceholderTextStyles<'a>>,
    pub deck: Option<&'a DeckTextDefaults>,
}

/// Where a font size comes from.
#[derive(Debug, Clone, Copy, PartialEq, Eq, Structural)]
pub enum SizeSource {
    /// The paragraph itself.
    Direct,
    ShapeListStyle,
    LayoutPlaceholder,
    MasterPlaceholder,
    MasterTextStyles,
    DefaultTextStyle,
    /// Nothing states one.
    SpecDefault,
}

/// The formatting of a paragraph with all that it inherits.
#[derive(Debug)]
pub struct ResolvedTextStyle {
    /// The paragraph's level, counted from zero.
    pub level: u8,
    pub alignment: Option<Alignment>,
    pub margin_left: Option<Dimension<Emu>>,
    pub margin_right: Option<Dimension<Emu>>,
    pub indent: Option<Dimension<Emu>>,
    pub default_tab_size: Option<Dimension<Emu>>,
    pub rtl: Option<bool>,
    pub line_spacing: Option<Spacing>,
    pub space_before: Option<Spacing>,
    pub space_after: Option<Spacing>,
    /// The bullet. `Some(Bullet::NoBullet)` is an explicit absence.
    pub bullet: Option<Bullet>,
    /// The formatting that runs start from. It always states a font size.
    pub run_defaults: RunProperties,
    pub size_source: SizeSource,
}

/// A style with what it leaves unsaid taken from paragraph formatting.
pub open spec fn absorbed(
    s: ResolvedTextStyle,
    base: TextParagraphProperties,
) -> ResolvedTextStyle {
    ResolvedTextStyle {
        level: s.level,
        alignment: or(s.alignment, base.alignment),
        margin_left: or(s.margin_left, base.margin_left),
        margin_right: or(s.margin_right, base.margin_right),
        indent: or(s.indent, base.indent),
        default_tab_size: or(s.default_tab_size, base.default_tab_size),
        rtl: or(s.rtl, base.rtl),
        line_spacing: or(s.line_spacing, base.line_spacing),
        space_before: or(s.space_before, base.space_before),
        space_after: or(s.space_after, base.space_after),
        bullet: or(s.bullet, base.bullet),
        run_defaults: match base.default_run_properties {
            Some(run) => merged(s.run_defaults, run),
            None => s.run_defaults,
        },
        size_source: s.size_source,
    }
}

/// The level of a paragraph.
pub open spec fn level_of(direct: TextParagraphProperties) -> u8 {
    match direct.level {
        Some(l) => l,
        None => 0,
    }
}

/// A paragraph's own formatting.
pub open spec fn direct_style(direct: TextParagraphProperties) -> ResolvedTextStyle {
    ResolvedTextStyle {
        level: level_of(direct),
        alignment: direct.alignment,
        margin_left: direct.margin_left,
        margin_right: direct.margin_right,
        indent: direct.indent,
        default_tab_size: direct.default_tab_size,
        rtl: direct.rtl,
        line_spacing: direct.line_spacing,
        space_before: direct.space_before,
        space_after: direct.space_after,
        bullet: direct.bullet,
        run_defaults: match direct.default_run_properties {
            Some(run) => run,
            None => unset_run(),
        },
        size_source: SizeSource::Direct,
    }
}

/// The formatting of a level of an optional list style.
pub open spec fn level_in(style: Option<ListStyle>, level: u8) -> Option<TextParagraphProperties> {
    match style {
        Some(s) => s.at(level as int),
        None => None,
    }
}

/// The list style that a part's counterpart of a placeholder supplies.
pub open spec fn counterpart_style(
    part: Option<&PlaceholderTextStyles>,
    ph: Placeholder,
    rule: MatchRule,
) -> Option<ListStyle> {
    match part {
        Some(p) => first_counterpart(p@, ph, rule),
        None => None,
    }
}

impl<'a> TextCascade<'a> {
    /// What stands behind a paragraph's own formatting, the nearest first.
    pub open spec fn rungs(self, level: u8, placeholder: Option<Placeholder>) -> Seq<
        (Option<TextParagraphProperties>, SizeSource),
    > {
        let own = (
            level_in(
                match self.shape {
                    Some(s) => Some(*s),
                    None => None,
                },
                level,
            ),
            SizeSource::ShapeListStyle,
        );
        let last = (
            level_in(
                match self.deck {
                    Some(d) => Some(d.default_text_style),
                    None => None,
                },
                level,
            ),
            SizeSource::DefaultTextStyle,
        );
        match placeholder {
            None => seq![own, last],
            Some(ph) => seq![
                own,
                (
                    level_in(counterpart_style(self.layout, ph, MatchRule::Idx), level),
                    SizeSource::LayoutPlaceholder,
                ),
                (
                    level_in(counterpart_style(self.master, ph, MatchRule::CollapsedKind), level),
                    SizeSource::MasterPlaceholder,
                ),
                (
                    level_in(
                        match self.deck {
                            Some(d) => Some(style_of(class_of(ph.kind), d.master_styles)),
                            None => None,
                        },
                        level,
                    ),
                    SizeSource::MasterTextStyles,
                ),
                last,
            ],
        }
    }
}

/// A style, and where its size comes from, after one rung more.
pub open spec fn after_rung(
    s: (ResolvedTextStyle, Option<SizeSource>),
    rung: (Option<TextParagraphProperties>, SizeSource),
) -> (ResolvedTextStyle, Option<SizeSource>) {
    match rung.0 {
        None => s,
        Some(p) => {
            let next = absorbed(s.0, p);
            (
                next,
                if s.1 is None && next.run_defaults.font_size is Some {
                    Some(rung.1)
                } else {
                    s.1
                },
            )
        },
    }
}

/// A style, and where its size comes from, after all rungs in turn.
pub open spec fn climbed(
    start: (ResolvedTextStyle, Option<SizeSource>),
    rungs: Seq<(Option<TextParagraphProperties>, SizeSource)>,
) -> (ResolvedTextStyle, Option<SizeSource>)
    decreases rungs.len(),
{
    if rungs.len() == 0 {
        start
    } else {
        after_rung(climbed(start, rungs.drop_last()), rungs.last())
    }
}

/// A style with the default size where it has none.
pub open spec fn finished(s: (ResolvedTextStyle, Option<SizeSource>)) -> ResolvedTextStyle {
    ResolvedTextStyle {
        run_defaults: RunProperties {
            font_size: or(s.0.run_defaults.font_size, Some(units(SPEC_DEFAULT_FONT_SIZE))),
            ..s.0.run_defaults
        },
        size_source: match s.1 {
            Some(source) => source,
            None => SizeSource::SpecDefault,
        },
        ..s.0
    }
}

/// A paragraph's own formatting with all that stands behind it.
pub open spec fn resolved(
    direct: TextParagraphProperties,
    rungs: Seq<(Option<TextParagraphProperties>, SizeSource)>,
) -> ResolvedTextStyle {
    let own = direct_style(direct);
    finished(
        climbed(
            (
                own,
                if own.run_defaults.font_size is Some {
                    Some(SizeSource::Direct)
                } else {
                    None
                },
            ),
            rungs,
        ),
    )
}

/// Takes what a style leaves unsaid from one rung.
fn climb(
    out: &mut ResolvedTextStyle,
    size_source: &mut Option<SizeSource>,
    props: Option<&TextParagraphProperties>,
    source: SizeSource,
)
    ensures
        (*final(out), *final(size_source)) == after_rung(
            (*old(out), *old(size_source)),
            (
                match props {
                    Some(p) => Some(*p),
                    None => None,
                },
                source,
            ),
        ),
{
    match props {
        Some(p) => {
            out.absorb(p);
            if size_source.is_none() && out.run_defaults.font_size.is_some() {
                *size_source = Some(source);
            }
        },
        None => {},
    }
}

/// The formatting of a level of an optional list style.
fn level_of_style<'b>(style: Option<&'b ListStyle>, level: u8) -> (r: Option<
    &'b TextParagraphProperties,
>)
    ensures
        (match r {
            Some(p) => Some(*p),
            None => None,
        }) == level_in(
            match style {
                Some(s) => Some(*s),
                None => None,
            },
            level,
        ),
{
    match style {
        Some(s) => s.level(level),
        None => None,
    }
}

impl<'a> TextCascade<'a> {
    /// The formatting of a paragraph with all that it inherits. Without a
    /// placeholder only the shape's own list style and the presentation's
    /// default stand behind it.
    pub fn resolve(
        &self,
        direct: &TextParagraphProperties,
        placeholder: Option<&Placeholder>,
    ) -> (r: ResolvedTextStyle)
        ensures
            r == resolved(
                *direct,
                self.rungs(
                    level_of(*direct),
                    match placeholder {
                        Some(p) => Some(*p),
                        None => None,
                    },
                ),
            ),
    {
        let level: u8 = match direct.level {
            Some(l) => l,
            None => 0,
        };
        let bullet: Option<Bullet> = direct.bullet.clone();
        assert(bullet == direct.bullet);
        let run_defaults: RunProperties = match &direct.default_run_properties {
            Some(run) => run.clone(),
            None => RunProperties::default(),
        };
        let mut out: ResolvedTextStyle = ResolvedTextStyle {
            level,
            alignment: direct.alignment,
            margin_left: direct.margin_left,
            margin_right: direct.margin_right,
            indent: direct.indent,
            default_tab_size: direct.default_tab_size,
            rtl: direct.rtl,
            line_spacing: direct.line_spacing,
            space_before: direct.space_before,
            space_after: direct.space_after,
            bullet,
            run_defaults,
            size_source: SizeSource::Direct,
        };
        let mut size_source: Option<SizeSource> = if out.run_defaults.font_size.is_some() {
            Some(SizeSource::Direct)
        } else {
            None
        };
        let ghost start = (out, size_source);
        let ghost rungs = self.rungs(
            level,
            match placeholder {
                Some(p) => Some(*p),
                None => None,
            },
        );
        assert(climbed(start, rungs.take(0)) == start);
        climb(
            &mut out,
            &mut size_source,
            level_of_style(self.shape, level),
            SizeSource::ShapeListStyle,
        );
        assert(rungs.take(1).drop_last() =~= rungs.take(0));
        assert((out, size_source) == climbed(start, rungs.take(1)));
        match placeholder {
            Some(ph) => {
                let layout: Option<&ListStyle> = match self.layout {
                    Some(l) => l.lookup(ph, MatchRule::Idx),
                    None => None,
                };
                climb(
                    &mut out,
                    &mut size_source,
                    level_of_style(layout, level),
                    SizeSource::LayoutPlaceholder,
                );
                assert(rungs.take(2).drop_last() =~= rungs.take(1));
                assert((out, size_source) == climbed(start, rungs.take(2)));
                let master: Option<&ListStyle> = match self.master {
                    Some(m) => m.lookup(ph, MatchRule::CollapsedKind),
                    None => None,
                };
                climb(
                    &mut out,
                    &mut size_source,
                    level_of_style(master, level),
                    SizeSource::MasterPlaceholder,
                );
                assert(rungs.take(3).drop_last() =~= rungs.take(2));
                assert((out, size_source) == climbed(start, rungs.take(3)));
                let styles: Option<&ListStyle> = match self.deck {
                    Some(d) => Some(TextStyleClass::of(ph.kind).pick(&d.master_styles)),
                    None => None,
                };
                climb(
                    &mut out,
                    &mut size_source,
                    level_of_style(styles, level),
                    SizeSource::MasterTextStyles,
                );
                assert(rungs.take(4).drop_last() =~= rungs.take(3));
                assert((out, size_source) == climbed(start, rungs.take(4)));
            },
            None => {},
        }
        let default_style: Option<&ListStyle> = match self.deck {
            Some(d) => Some(&d.default_text_style),
            None => None,
        };
        climb(
            &mut out,
            &mut size_source,
            level_of_style(default_style, level),
            SizeSource::DefaultTextStyle,
        );
        assert(rungs.drop_last() =~= rungs.take(rungs.len() - 1));
        assert((out, size_source) == climbed(start, rungs));
        out.size_source = match size_source {
            Some(source) => source,
            None => SizeSource::SpecDefault,
        };
        if out.run_defaults.font_size.is_none() {
            out.run_defaults.font_size = Some(Dimension::new(SPEC_DEFAULT_FONT_SIZE));
        }
        out
    }
}

impl ResolvedTextStyle {
    /// Gives a run what its own formatting leaves unsaid.
    pub fn apply_to_run(&self, run: &mut RunProperties)
        ensures
            *final(run) == merged(*old(run), self.run_defaults),
    {
        merge_run_properties(run, &self.run_defaults);
    }

    /// Takes what the style leaves unsaid from paragraph formatting.
    fn absorb(&mut self, base: &TextParagraphProperties)
        ensures
            *final(self) == absorbed(*old(self), *base),
    {
        fill(&mut self.alignment, base.alignment);
        fill(&mut self.margin_left, base.margin_left);
        fill(&mut self.margin_right, base.margin_right);
        fill(&mut self.indent, base.indent);
        fill(&mut self.default_tab_size, base.default_tab_size);
        fill(&mut self.rtl, base.rtl);
        fill(&mut self.line_spacing, base.line_spacing);
        fill(&mut self.space_before, base.space_before);
        fill(&mut self.space_after, base.space_after);
        if self.bullet.is_none() {
            let inherited: Option<Bullet> = base.bullet.clone();
            assert(inherited == base.bullet);
            self.bullet = inherited;
        }
        match &base.default_run_properties {
            Some(run) => {
                merge_run_properties(&mut self.run_defaults, run);
            },
            None => {},
        }
    }
}

/// Whether everything that one style states, another states too.
pub open spec fn keeps(a: ResolvedTextStyle, b: ResolvedTextStyle) -> bool {
    &&& b.level == a.level
    &&& a.alignment is Some ==> b.alignment == a.alignment
    &&& a.margin_left is Some ==> b.margin_left == a.margin_left
    &&& a.margin_right is Some ==> b.margin_right == a.margin_right
    &&& a.indent is Some ==> b.indent == a.indent
    &&& a.default_tab_size is Some ==> b.default_tab_size == a.default_tab_size
    &&& a.rtl is Some ==> b.rtl == a.rtl
    &&& a.line_spacing is Some ==> b.line_spacing == a.line_spacing
    &&& a.space_before is Some ==> b.space_before == a.space_before
    &&& a.space_after is Some ==> b.space_after == a.space_after
    &&& a.bullet is Some ==> b.bullet == a.bullet
    &&& a.run_defaults.font_size is Some ==> b.run_defaults.font_size == a.run_defaults.font_size
    &&& a.run_defaults.bold is Some ==> b.run_defaults.bold == a.run_defaults.bold
    &&& a.run_defaults.italic is Some ==> b.run_defaults.italic == a.run_defaults.italic
    &&& a.run_defaults.underline is Some ==> b.run_defaults.underline == a.run_defaults.underline
    &&& a.run_defaults.strike is Some ==> b.run_defaults.strike == a.run_defaults.strike
    &&& a.run_defaults.color is Some ==> b.run_defaults.color == a.run_defaults.color
    &&& a.run_defaults.drawing_color is Some ==> b.run_defaults.drawing_color
        == a.run_defaults.drawing_color
    &&& a.run_defaults.spacing is Some ==> b.run_defaults.spacing == a.run_defaults.spacing
    &&& a.run_defaults.kerning is Some ==> b.run_defaults.kerning == a.run_defaults.kerning
    &&& a.run_defaults.all_caps is Some ==> b.run_defaults.all_caps == a.run_defaults.all_caps
    &&& a.run_defaults.small_caps is Some ==> b.run_defaults.small_caps == a.run_defaults.small_caps
    &&& a.run_defaults.vertical_align is Some ==> b.run_defaults.vertical_align
        == a.run_defaults.vertical_align
}

/// What is nearer wins: whatever is stated stays as it is stated, whatever
/// stands behind it, an explicit "off" and an explicit absence of a bullet
/// with it.
pub proof fn what_is_stated_is_kept(
    start: (ResolvedTextStyle, Option<SizeSource>),
    rungs: Seq<(Option<TextParagraphProperties>, SizeSource)>,
)
    ensures
        keeps(start.0, climbed(start, rungs).0),
    decreases rungs.len(),
{
    if rungs.len() > 0 {
        what_is_stated_is_kept(start, rungs.drop_last());
    }
}

/// What a paragraph states itself is what it resolves to, and its font size is
/// stated in any case.
pub proof fn own_formatting_wins(
    direct: TextParagraphProperties,
    rungs: Seq<(Option<TextParagraphProperties>, SizeSource)>,
)
    ensures
        keeps(direct_style(direct), resolved(direct, rungs)),
        resolved(direct, rungs).run_defaults.font_size is Some,
{
    let own = direct_style(direct);
    let source = if own.run_defaults.font_size is Some {
        Some(SizeSource::Direct)
    } else {
        None
    };
    what_is_stated_is_kept((own, source), rungs);
}

/// To climb some rungs and then others is to climb them all.
pub proof fn climbing_continues(
    start: (ResolvedTextStyle, Option<SizeSource>),
    near: Seq<(Option<TextParagraphProperties>, SizeSource)>,
    far: Seq<(Option<TextParagraphProperties>, SizeSource)>,
)
    ensures
        climbed(start, near + far) == climbed(climbed(start, near), far),
    decreases far.len(),
{
    let all = near + far;
    if far.len() == 0 {
        assert(all =~= near);
    } else {
        assert(all.drop_last() =~= near + far.drop_last());
        climbing_continues(start, near, far.drop_last());
    }
}

/// The source of the size is the format's default exactly where neither the
/// paragraph nor a rung states a size.
pub proof fn the_default_size_is_the_last_resort(
    direct: TextParagraphProperties,
    rungs: Seq<(Option<TextParagraphProperties>, SizeSource)>,
)
    requires
        forall|i: int| 0 <= i < rungs.len() ==> (#[trigger] rungs[i]).1 != SizeSource::SpecDefault,
    ensures
        resolved(direct, rungs).size_source == SizeSource::SpecDefault <==> {
            &&& direct_style(direct).run_defaults.font_size is None
            &&& forall|i: int|
                0 <= i < rungs.len() ==> !states_size((#[trigger] rungs[i]).0)
        },
{
    let own = direct_style(direct);
    let source = if own.run_defaults.font_size is Some {
        Some(SizeSource::Direct)
    } else {
        None
    };
    sizes_are_noticed((own, source), rungs);
}

/// Whether paragraph formatting states a font size.
pub open spec fn states_size(p: Option<TextParagraphProperties>) -> bool {
    p matches Some(x) && x.default_run_properties matches Some(run) && run.font_size is Some
}

proof fn sizes_are_noticed(
    start: (ResolvedTextStyle, Option<SizeSource>),
    rungs: Seq<(Option<TextParagraphProperties>, SizeSource)>,
)
    requires
        start.1 is Some <==> start.0.run_defaults.font_size is Some,
        start.1 != Some(SizeSource::SpecDefault),
        forall|i: int| 0 <= i < rungs.len() ==> (#[trigger] rungs[i]).1 != SizeSource::SpecDefault,
    ensures
        climbed(start, rungs).1 is Some <==> climbed(start, rungs).0.run_defaults.font_size is Some,
        climbed(start, rungs).1 != Some(SizeSource::SpecDefault),
        climbed(start, rungs).1 is None <==> start.1 is None && forall|i: int|
            0 <= i < rungs.len() ==> !states_size((#[trigger] rungs[i]).0),
    decreases rungs.len(),
{
    if rungs.len() > 0 {
        let rest = rungs.drop_last();
        assert forall|i: int| 0 <= i < rest.len() implies (#[trigger] rest[i]).1
            != SizeSource::SpecDefault by {
            assert(rest[i] == rungs[i]);
        }
        sizes_are_noticed(start, rest);
        assert(rungs.last() == rungs[rungs.len() - 1]);
        assert(forall|i: int| 0 <= i < rest.len() ==> #[trigger] rest[i] == rungs[i]);
        assert(climbed(start, rungs) == after_rung(climbed(start, rest), rungs.last()));
        if climbed(start, rest).1 is None && !states_size(rungs.last().0) {
            assert forall|i: int| 0 <= i < rungs.len() implies !states_size(
                (#[trigger] rungs[i]).0,
            ) by {
                if i < rest.len() {
                    assert(rest[i] == rungs[i]);
                }
            }
        }
    }
}

/// A part that supplies nothing is as good as none.
pub proof fn an_empty_source_is_an_absent_one(
    with: TextCascade,
    without: TextCascade,
    level: u8,
    placeholder: Option<Placeholder>,
)
    requires
        with.shape == without.shape,
        with.layout matches Some(l) && l@.len() == 0,
        with.master matches Some(m) && m@.len() == 0,
        with.deck matches Some(d) && d.master_styles.title.states_nothing()
            && d.master_styles.body.states_nothing() && d.master_styles.other.states_nothing()
            && d.default_text_style.states_nothing(),
        without.layout is None,
        without.master is None,
        without.deck is None,
    ensures
        with.rungs(level, placeholder) == without.rungs(level, placeholder),
{
    let d = with.deck->0;
    assert(d.default_text_style.at(level as int) is None);
    match placeholder {
        Some(ph) => {
            let style = style_of(class_of(ph.kind), d.master_styles);
            assert(style.at(level as int) is None);
            assert(counterpart_style(with.layout, ph, MatchRule::Idx) is None);
            assert(counterpart_style(with.master, ph, MatchRule::CollapsedKind) is None);
        },
        None => {},
    }
    assert(with.rungs(level, placeholder) =~= without.rungs(level, placeholder));
}

} // verus!
