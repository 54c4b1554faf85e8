//! Preset shapes: geometries with a name.
//!
//! A preset is a geometry like any other. What a shape says of its own
//! adjustments takes the place of what the preset says.
use vstd::prelude::*;

use crate::dimension::Emu;
use crate::model::drawing::{CustomGeometry, GeomGuide, PresetGeometry};
use crate::model::geometry::Size;
use crate::render::shape_geometry::custom::{build_custom, is_outline, GuideValue, ShapePath};
use crate::scan::str_eq;

verus! {

/// What a guide says.
pub struct GuideText {
    pub name: Seq<char>,
    pub formula: Seq<char>,
}

/// What a guide says.
pub open spec fn guide_text(g: GeomGuide) -> GuideText {
    GuideText { name: g.name@, formula: g.formula@ }
}

/// What guides say.
pub open spec fn guide_texts(all: Seq<GeomGuide>) -> Seq<GuideText> {
    all.map_values(|g: GeomGuide| guide_text(g))
}

/// The first guide under a name.
pub open spec fn first_named(all: Seq<GuideText>, name: Seq<char>) -> Option<GuideText>
    decreases all.len(),
{
    if all.len() == 0 {
        None
    } else {
        match first_named(all.drop_last(), name) {
            Some(g) => Some(g),
            None => if all.last().name == name {
                Some(all.last())
            } else {
                None
            },
        }
    }
}

/// A guide, or what stands for it.
pub open spec fn overridden(d: GuideText, overrides: Seq<GuideText>) -> GuideText {
    match first_named(overrides, d.name) {
        Some(o) => o,
        None => d,
    }
}

/// Those of the first guides whose names others do not have.
pub open spec fn unknown_to(all: Seq<GuideText>, others: Seq<GuideText>) -> Seq<GuideText>
    decreases all.len(),
{
    if all.len() == 0 {
        Seq::empty()
    } else {
        let before = unknown_to(all.drop_last(), others);
        if first_named(others, all.last().name) is None {
            before.push(all.last())
        } else {
            before
        }
    }
}

/// The adjustments of a preset with those of a shape: each of the preset's in
/// its place, as the shape has it where it does, and behind them those that only
/// the shape has.
pub open spec fn merged(defaults: Seq<GuideText>, overrides: Seq<GuideText>) -> Seq<GuideText> {
    defaults.map_values(|d: GuideText| overridden(d, overrides)) + unknown_to(overrides, defaults)
}

/// A copy of a guide.
fn copy_guide(g: &GeomGuide) -> (r: GeomGuide)
    ensures
        guide_text(r) == guide_text(*g),
{
    GeomGuide { name: g.name.clone(), formula: g.formula.clone() }
}

/// The place of the first guide under a name.
fn find_named(all: &Vec<GeomGuide>, name: &str) -> (r: Option<usize>)
    ensures
        match r {
            Some(k) => k < all@.len() && first_named(guide_texts(all@), name@) == Some(
                guide_text(all@[k as int]),
            ),
            None => first_named(guide_texts(all@), name@) is None,
        },
{
    let ghost held = guide_texts(all@);
    let mut i: usize = 0;
    let mut found: Option<usize> = None;
    while i < all.len()
        invariant
            i <= all@.len(),
            held == guide_texts(all@),
            match found {
                Some(k) => k < i && first_named(held.take(i as int), name@) == Some(held[k as int]),
                None => first_named(held.take(i as int), name@) is None,
            },
        decreases all@.len() - i,
    {
        assert(held.take(i + 1).drop_last() =~= held.take(i as int));
        assert(held.take(i + 1).last() == guide_text(all@[i as int]));
        if found.is_none() && str_eq(all[i].name.as_str(), name) {
            found = Some(i);
        }
        i = i + 1;
    }
    assert(held.take(i as int) =~= held);
    found
}

/// The adjustments of a preset with those of a shape.
pub fn merge_adjust_values(defaults: &Vec<GeomGuide>, overrides: &Vec<GeomGuide>) -> (r: Vec<
    GeomGuide,
>)
    ensures
        guide_texts(r@) == merged(guide_texts(defaults@), guide_texts(overrides@)),
{
    let ghost ds = guide_texts(defaults@);
    let ghost os = guide_texts(overrides@);
    let ghost first = ds.map_values(|d: GuideText| overridden(d, os));
    let mut out: Vec<GeomGuide> = Vec::new();
    let mut i: usize = 0;
    assert(guide_texts(out@) =~= first.take(0));
    while i < defaults.len()
        invariant
            i <= defaults@.len(),
            ds == guide_texts(defaults@),
            os == guide_texts(overrides@),
            first == ds.map_values(|d: GuideText| overridden(d, os)),
            guide_texts(out@) == first.take(i as int),
        decreases defaults@.len() - i,
    {
        let ghost before = guide_texts(out@);
        let g: GeomGuide = match find_named(overrides, defaults[i].name.as_str()) {
            Some(k) => copy_guide(&overrides[k]),
            None => copy_guide(&defaults[i]),
        };
        assert(ds[i as int] == guide_text(defaults@[i as int]));
        assert(guide_text(g) == first[i as int]);
        out.push(g);
        assert(guide_texts(out@) =~= before.push(first[i as int]));
        assert(before.push(first[i as int]) =~= first.take(i + 1));
        i = i + 1;
    }
    assert(first.take(i as int) =~= first);
    let mut j: usize = 0;
    assert(first + unknown_to(os.take(0), ds) =~= first);
    while j < overrides.len()
        invariant
            j <= overrides@.len(),
            ds == guide_texts(defaults@),
            os == guide_texts(overrides@),
            guide_texts(out@) == first + unknown_to(os.take(j as int), ds),
        decreases overrides@.len() - j,
    {
        assert(os.take(j + 1).drop_last() =~= os.take(j as int));
        assert(os.take(j + 1).last() == guide_text(overrides@[j as int]));
        if find_named(defaults, overrides[j].name.as_str()).is_none() {
            let ghost before = guide_texts(out@);
            out.push(copy_guide(&overrides[j]));
            assert(guide_texts(out@) =~= before.push(os[j as int]));
            assert(before.push(os[j as int]) =~= first + unknown_to(os.take(j + 1), ds));
        }
        j = j + 1;
    }
    assert(os.take(j as int) =~= os);
    out
}

/// Merging with nothing changes nothing.
pub proof fn no_override_changes_nothing(defaults: Seq<GuideText>)
    ensures
        merged(defaults, Seq::empty()) == defaults,
{
    assert(merged(defaults, Seq::empty()) =~= defaults);
}

/// Each adjustment of a preset stays in its place, and it is as the shape has it
/// where the shape has it.
pub proof fn adjustments_keep_their_place(
    defaults: Seq<GuideText>,
    overrides: Seq<GuideText>,
    i: int,
)
    requires
        0 <= i < defaults.len(),
    ensures
        merged(defaults, overrides)[i].name == defaults[i].name,
        first_named(overrides, defaults[i].name) is None ==> merged(defaults, overrides)[i]
            == defaults[i],
        first_named(overrides, defaults[i].name) matches Some(o) ==> merged(defaults, overrides)[i]
            == o,
{
    a_first_has_the_name(overrides, defaults[i].name);
}

/// A guide found under a name has it.
proof fn a_first_has_the_name(all: Seq<GuideText>, name: Seq<char>)
    ensures
        first_named(all, name) matches Some(g) ==> g.name == name,
    decreases all.len(),
{
    if all.len() > 0 {
        a_first_has_the_name(all.drop_last(), name);
    }
}

/// A preset: its name, and what it is.
#[derive(Debug)]
pub struct PresetEntry {
    pub name: String,
    pub geometry: CustomGeometry,
}

/// The presets that are known.
#[derive(Debug)]
pub struct PresetTable {
    pub entries: Vec<PresetEntry>,
}

/// The place of the last preset under a name.
pub open spec fn preset_place(entries: Seq<PresetEntry>, name: Seq<char>) -> Option<int>
    decreases entries.len(),
{
    if entries.len() == 0 {
        None
    } else if entries.last().name@ == name {
        Some(entries.len() - 1)
    } else {
        preset_place(entries.drop_last(), name)
    }
}

/// A preset for a shape: what it is, with the adjustments that hold for the
/// shape.
#[derive(Debug)]
pub struct ResolvedPreset<'a> {
    pub definition: &'a CustomGeometry,
    pub av_list: Vec<GeomGuide>,
}

impl PresetTable {
    /// What a preset is.
    fn find(&self, preset: &str) -> (r: Option<&CustomGeometry>)
        ensures
            match r {
                Some(g) => (preset_place(self.entries@, preset@) matches Some(k) && *g
                    == self.entries@[k].geometry),
                None => preset_place(self.entries@, preset@) is None,
            },
    {
        let mut i: usize = self.entries.len();
        assert(self.entries@.take(i as int) =~= self.entries@);
        while i > 0
            invariant
                i <= self.entries@.len(),
                preset_place(self.entries@, preset@) == preset_place(
                    self.entries@.take(i as int),
                    preset@,
                ),
            decreases i,
        {
            let ghost part = self.entries@.take(i as int);
            assert(part.drop_last() =~= self.entries@.take(i - 1));
            assert(part.last() == self.entries@[i - 1]);
            let k: usize = i - 1;
            if str_eq(self.entries[k].name.as_str(), preset) {
                assert(preset_place(self.entries@, preset@) == Some(k as int));
                return Some(&self.entries[k].geometry);
            }
            i = k;
        }
        None
    }

    /// A preset for a shape with adjustments of its own. There is none for a
    /// name that the table does not hold.
    pub fn resolve(&self, preset: &str, adjust_values: &Vec<GeomGuide>) -> (r: Option<
        ResolvedPreset<'_>,
    >)
        ensures
            match r {
                Some(p) => (preset_place(self.entries@, preset@) matches Some(k) && *p.definition
                    == self.entries@[k].geometry && guide_texts(p.av_list@) == merged(
                    guide_texts(self.entries@[k].geometry.av_list@),
                    guide_texts(adjust_values@),
                )),
                None => preset_place(self.entries@, preset@) is None,
            },
    {
        match self.find(preset) {
            Some(g) => Some(
                ResolvedPreset {
                    definition: g,
                    av_list: merge_adjust_values(&g.av_list, adjust_values),
                },
            ),
            None => None,
        }
    }
}

/// The outline of a shape that is a preset, given what the guides of each path
/// come to. There is none for a name that the table does not hold.
pub fn build_preset(
    table: &PresetTable,
    def: &PresetGeometry,
    extent: Size<Emu>,
    guides: &Vec<Vec<GuideValue>>,
) -> (r: Option<ShapePath>)
    requires
        preset_place(table.entries@, def.preset@) matches Some(k) ==> guides@.len()
            == table.entries@[k].geometry.paths@.len(),
    ensures
        match preset_place(table.entries@, def.preset@) {
            Some(k) => match r {
                Some(o) => is_outline(o, table.entries@[k].geometry, extent, guides@)
                    && table.entries@[k].geometry.paths@.len() > 0,
                None => table.entries@[k].geometry.paths@.len() == 0,
            },
            None => r is None,
        },
{
    match table.find(def.preset.as_str()) {
        Some(g) => build_custom(g, extent, guides),
        None => None,
    }
}

} // verus!
