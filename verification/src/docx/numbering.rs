//! The numbering definitions of a word-processing document.
//!
//! A definition without a usable id is dropped: under an id made up for it, it
//! would take the place of another.
use vstd::prelude::*;
use std::collections::HashMap;

use crate::docx::run::{
    check_value, check_word_run, indentation_in, is_word_run, read_indentation, read_switch,
    read_word_run, switch, word_run_reads, Indentation, Justification,
};
use crate::error::ParseError;
use crate::model::run::{Alignment, RunProperties};
use crate::scan::str_eq;
use crate::xml::extension::{from_xml, part_root};
use crate::xml::lenient::{opt_attr, opt_val_attr, or_default, reads, AttrValue};
use crate::xml::query::{
    attr, attribute_of, child, child_named, children, children_named, element_local_name,
    element_name, grandchild, opt_attr_of,
};
use crate::xml::schema::{
    check_element, check_element_with_rest, check_opt, conforms, conforms_with_rest, opt_conforms,
};
use crate::xml::tree::{Element, Node};

verus! {

broadcast use vstd::std_specs::hash::group_hash_axioms;

/// How the numbers of a level are written.
#[derive(Debug, Clone, Copy, PartialEq, Eq, Structural)]
pub enum NumberFormat {
    Decimal,
    UpperRoman,
    LowerRoman,
    UpperLetter,
    LowerLetter,
    Ordinal,
    CardinalText,
    OrdinalText,
    DecimalZero,
    Bullet,
    NoNumber,
}

impl AttrValue for NumberFormat {
    open spec fn read(s: Seq<char>) -> Option<NumberFormat> {
        if s == "decimal"@ {
            Some(NumberFormat::Decimal)
        } else if s == "upperRoman"@ {
            Some(NumberFormat::UpperRoman)
        } else if s == "lowerRoman"@ {
            Some(NumberFormat::LowerRoman)
        } else if s == "upperLetter"@ {
            Some(NumberFormat::UpperLetter)
        } else if s == "lowerLetter"@ {
            Some(NumberFormat::LowerLetter)
        } else if s == "ordinal"@ {
            Some(NumberFormat::Ordinal)
        } else if s == "cardinalText"@ {
            Some(NumberFormat::CardinalText)
        } else if s == "ordinalText"@ {
            Some(NumberFormat::OrdinalText)
        } else if s == "decimalZero"@ {
            Some(NumberFormat::DecimalZero)
        } else if s == "bullet"@ {
            Some(NumberFormat::Bullet)
        } else if s == "none"@ {
            Some(NumberFormat::NoNumber)
        } else {
            None
        }
    }

    fn parse(s: &str) -> (r: Option<NumberFormat>) {
        if str_eq(s, "decimal") {
            Some(NumberFormat::Decimal)
        } else if str_eq(s, "upperRoman") {
            Some(NumberFormat::UpperRoman)
        } else if str_eq(s, "lowerRoman") {
            Some(NumberFormat::LowerRoman)
        } else if str_eq(s, "upperLetter") {
            Some(NumberFormat::UpperLetter)
        } else if str_eq(s, "lowerLetter") {
            Some(NumberFormat::LowerLetter)
        } else if str_eq(s, "ordinal") {
            Some(NumberFormat::Ordinal)
        } else if str_eq(s, "cardinalText") {
            Some(NumberFormat::CardinalText)
        } else if str_eq(s, "ordinalText") {
            Some(NumberFormat::OrdinalText)
        } else if str_eq(s, "decimalZero") {
            Some(NumberFormat::DecimalZero)
        } else if str_eq(s, "bullet") {
            Some(NumberFormat::Bullet)
        } else if str_eq(s, "none") {
            Some(NumberFormat::NoNumber)
        } else {
            None
        }
    }
}

/// What stands between a number and its text.
#[derive(Debug, Clone, Copy, PartialEq, Eq, Structural)]
pub enum LevelSuffix {
    Tab,
    Space,
    Nothing,
}

impl AttrValue for LevelSuffix {
    open spec fn read(s: Seq<char>) -> Option<LevelSuffix> {
        if s == "tab"@ {
            Some(LevelSuffix::Tab)
        } else if s == "space"@ {
            Some(LevelSuffix::Space)
        } else if s == "nothing"@ {
            Some(LevelSuffix::Nothing)
        } else {
            None
        }
    }

    fn parse(s: &str) -> (r: Option<LevelSuffix>) {
        if str_eq(s, "tab") {
            Some(LevelSuffix::Tab)
        } else if str_eq(s, "space") {
            Some(LevelSuffix::Space)
        } else if str_eq(s, "nothing") {
            Some(LevelSuffix::Nothing)
        } else {
            None
        }
    }
}

/// A level of a numbering.
#[derive(Debug)]
pub struct NumberingLevelDefinition {
    pub level: u8,
    pub format: Option<NumberFormat>,
    pub level_text: String,
    pub start: Option<u32>,
    pub justification: Option<Alignment>,
    pub indentation: Option<Indentation>,
    pub run_properties: Option<RunProperties>,
    /// The id of the picture that stands for the number.
    pub lvl_pic_bullet_id: Option<i64>,
    pub suffix: LevelSuffix,
    /// Whether all numbers are written as decimals.
    pub is_legal: bool,
}

/// The levels of a numbering.
#[derive(Debug)]
pub struct AbstractNumbering {
    pub levels: Vec<NumberingLevelDefinition>,
}

/// What an instance changes about a level.
#[derive(Debug)]
pub struct LevelOverride {
    pub level: u8,
    pub start_override: Option<u32>,
    pub definition: Option<NumberingLevelDefinition>,
}

/// An instance of a numbering.
#[derive(Debug)]
pub struct NumberingInstance {
    pub abstract_num_id: i64,
    pub level_overrides: Vec<LevelOverride>,
}

/// A picture that can stand for a number.
#[derive(Debug, Clone, Copy, PartialEq, Eq)]
pub struct NumPicBullet {
    pub id: i64,
    /// Whether there is a picture.
    pub has_pict: bool,
}

/// The numbering definitions of a document, each by its id.
pub struct NumberingDefinitions {
    pub abstract_nums: HashMap<i64, AbstractNumbering>,
    pub numbering_instances: HashMap<i64, NumberingInstance>,
    pub pic_bullets: HashMap<i64, NumPicBullet>,
}

/// The level that an element states.
pub open spec fn level_of(e: Element) -> u8 {
    match reads::<u8>(attr(e, "ilvl"@)) {
        Some(v) => v,
        None => 0,
    }
}

/// Whether a level definition, apart from its number, is what an element
/// states.
pub open spec fn is_level(e: Element, level: u8, d: NumberingLevelDefinition) -> bool {
    &&& d.level == level
    &&& d.format == reads::<NumberFormat>(opt_attr_of(child_named(e, "numFmt"@), "val"@))
    &&& d.level_text@ == match opt_attr_of(child_named(e, "lvlText"@), "val"@) {
        Some(s) => s,
        None => Seq::empty(),
    }
    &&& d.start == reads::<u32>(opt_attr_of(child_named(e, "start"@), "val"@))
    &&& d.justification == match reads::<Justification>(
        opt_attr_of(child_named(e, "lvlJc"@), "val"@),
    ) {
        Some(j) => Some(j.value),
        None => None,
    }
    &&& d.indentation == match grandchild(e, "pPr"@, "ind"@) {
        Some(x) => Some(indentation_in(x)),
        None => None,
    }
    &&& match child_named(e, "rPr"@) {
        Some(x) => d.run_properties matches Some(p) && is_word_run(x, p),
        None => d.run_properties is None,
    }
    &&& d.lvl_pic_bullet_id == reads::<i64>(
        opt_attr_of(child_named(e, "lvlPicBulletId"@), "val"@),
    )
    &&& d.suffix == match reads::<LevelSuffix>(opt_attr_of(child_named(e, "suff"@), "val"@)) {
        Some(s) => s,
        None => LevelSuffix::Tab,
    }
    &&& d.is_legal == (switch(child_named(e, "isLgl"@)) == Some(true))
}

/// The level definition that an element states.
fn read_level(e: &Element, level: u8) -> (d: NumberingLevelDefinition)
    ensures
        is_level(*e, level, d),
{
    let justification: Option<Justification> = opt_val_attr(e, "lvlJc");
    let suffix: Option<LevelSuffix> = opt_val_attr(e, "suff");
    let indentation: Option<Indentation> = match child(e, "pPr") {
        Some(p) => match child(p, "ind") {
            Some(x) => Some(read_indentation(x)),
            None => None,
        },
        None => None,
    };
    NumberingLevelDefinition {
        level,
        format: opt_val_attr(e, "numFmt"),
        level_text: match attribute_of(child(e, "lvlText"), "val") {
            Some(s) => s,
            None => String::new(),
        },
        start: opt_val_attr(e, "start"),
        justification: match justification {
            Some(j) => Some(j.value),
            None => None,
        },
        indentation,
        run_properties: match child(e, "rPr") {
            Some(x) => Some(read_word_run(x)),
            None => None,
        },
        lvl_pic_bullet_id: opt_val_attr(e, "lvlPicBulletId"),
        suffix: match suffix {
            Some(s) => s,
            None => LevelSuffix::Tab,
        },
        is_legal: match read_switch(child(e, "isLgl")) {
            Some(b) => b,
            None => false,
        },
    }
}

/// Whether a numbering is what an element states.
pub open spec fn is_abstract(e: Element, a: AbstractNumbering) -> bool {
    let stated = children_named(e, "lvl"@);
    &&& a.levels@.len() == stated.len()
    &&& forall|i: int|
        0 <= i < stated.len() ==> is_level(stated[i], level_of(stated[i]), #[trigger] a.levels@[i])
}

/// The numbering that an element states.
fn read_abstract(e: &Element) -> (a: AbstractNumbering)
    ensures
        is_abstract(*e, a),
{
    let stated: Vec<&Element> = children(e, "lvl");
    let ghost all = children_named(*e, "lvl"@);
    let mut levels: Vec<NumberingLevelDefinition> = Vec::new();
    let mut i: usize = 0;
    while i < stated.len()
        invariant
            stated@.len() == all.len(),
            forall|k: int| 0 <= k < stated@.len() ==> *#[trigger] stated@[k] == all[k],
            i <= stated@.len(),
            levels@.len() == i,
            forall|k: int|
                0 <= k < i ==> is_level(all[k], level_of(all[k]), #[trigger] levels@[k]),
        decreases stated@.len() - i,
    {
        let level: u8 = or_default(stated[i], "ilvl", 0);
        levels.push(read_level(stated[i], level));
        i = i + 1;
    }
    AbstractNumbering { levels }
}

/// Whether an override is what an element states. Its own level counts, not
/// that of the definition in it.
pub open spec fn is_override(e: Element, o: LevelOverride) -> bool {
    &&& o.level == level_of(e)
    &&& o.start_override == reads::<u32>(opt_attr_of(child_named(e, "startOverride"@), "val"@))
    &&& match child_named(e, "lvl"@) {
        Some(x) => o.definition matches Some(d) && is_level(x, level_of(e), d),
        None => o.definition is None,
    }
}

/// Whether an instance is what an element states. One that names no numbering
/// is of numbering zero.
pub open spec fn is_instance(e: Element, n: NumberingInstance) -> bool {
    let stated = children_named(e, "lvlOverride"@);
    &&& n.abstract_num_id == match reads::<i64>(
        opt_attr_of(child_named(e, "abstractNumId"@), "val"@),
    ) {
        Some(v) => v,
        None => 0,
    }
    &&& n.level_overrides@.len() == stated.len()
    &&& forall|i: int|
        0 <= i < stated.len() ==> is_override(stated[i], #[trigger] n.level_overrides@[i])
}

/// The instance that an element states.
fn convert_num(e: &Element) -> (n: NumberingInstance)
    ensures
        is_instance(*e, n),
{
    let stated: Vec<&Element> = children(e, "lvlOverride");
    let ghost all = children_named(*e, "lvlOverride"@);
    let mut level_overrides: Vec<LevelOverride> = Vec::new();
    let mut i: usize = 0;
    while i < stated.len()
        invariant
            stated@.len() == all.len(),
            forall|k: int| 0 <= k < stated@.len() ==> *#[trigger] stated@[k] == all[k],
            i <= stated@.len(),
            level_overrides@.len() == i,
            forall|k: int| 0 <= k < i ==> is_override(all[k], #[trigger] level_overrides@[k]),
        decreases stated@.len() - i,
    {
        let level: u8 = or_default(stated[i], "ilvl", 0);
        level_overrides.push(
            LevelOverride {
                level,
                start_override: opt_val_attr(stated[i], "startOverride"),
                definition: match child(stated[i], "lvl") {
                    Some(x) => Some(read_level(x, level)),
                    None => None,
                },
            },
        );
        i = i + 1;
    }
    let stated_id: Option<i64> = opt_val_attr(e, "abstractNumId");
    NumberingInstance {
        abstract_num_id: match stated_id {
            Some(v) => v,
            None => 0,
        },
        level_overrides,
    }
}

/// The last element of a name whose id is the given one.
pub open spec fn last_with_id(
    nodes: Seq<Node>,
    name: Seq<char>,
    key: Seq<char>,
    id: i64,
) -> Option<Element>
    decreases nodes.len(),
{
    if nodes.len() == 0 {
        None
    } else {
        match keyed(nodes.last(), name, key) {
            Some(k) => if k == id {
                Some(*nodes.last()->Element_0)
            } else {
                last_with_id(nodes.drop_last(), name, key, id)
            },
            None => last_with_id(nodes.drop_last(), name, key, id),
        }
    }
}

/// The id of a node, where it is an element of the name and states one.
pub open spec fn keyed(n: Node, name: Seq<char>, key: Seq<char>) -> Option<i64> {
    match n {
        Node::Element(e) => if element_name(*e) == Some(name) {
            reads::<i64>(attr(*e, key))
        } else {
            None
        },
        _ => None,
    }
}

/// Whether numberings are those that nodes state, each id's last.
pub open spec fn are_abstracts(nodes: Seq<Node>, m: Map<i64, AbstractNumbering>) -> bool {
    forall|id: i64|
        match last_with_id(nodes, "abstractNum"@, "abstractNumId"@, id) {
            Some(e) => (#[trigger] m.contains_key(id)) && is_abstract(e, m[id]),
            None => !m.contains_key(id),
        }
}

/// Whether instances are those that nodes state, each id's last.
pub open spec fn are_instances(nodes: Seq<Node>, m: Map<i64, NumberingInstance>) -> bool {
    forall|id: i64|
        match last_with_id(nodes, "num"@, "numId"@, id) {
            Some(e) => (#[trigger] m.contains_key(id)) && is_instance(e, m[id]),
            None => !m.contains_key(id),
        }
}

/// Whether pictures are those that nodes state, each id's last.
pub open spec fn are_bullets(nodes: Seq<Node>, m: Map<i64, NumPicBullet>) -> bool {
    forall|id: i64|
        match last_with_id(nodes, "numPicBullet"@, "numPicBulletId"@, id) {
            Some(e) => (#[trigger] m.contains_key(id)) && m[id] == (NumPicBullet {
                id,
                has_pict: child_named(e, "pict"@) is Some,
            }),
            None => !m.contains_key(id),
        }
}

/// Whether definitions are those that nodes state.
pub open spec fn are_definitions(nodes: Seq<Node>, d: NumberingDefinitions) -> bool {
    &&& are_abstracts(nodes, d.abstract_nums@)
    &&& are_instances(nodes, d.numbering_instances@)
    &&& are_bullets(nodes, d.pic_bullets@)
}

impl Default for NumberingDefinitions {
    fn default() -> (r: Self)
        ensures
            r.abstract_nums@ == Map::<i64, AbstractNumbering>::empty(),
            r.numbering_instances@ == Map::<i64, NumberingInstance>::empty(),
            r.pic_bullets@ == Map::<i64, NumPicBullet>::empty(),
    {
        NumberingDefinitions {
            abstract_nums: HashMap::new(),
            numbering_instances: HashMap::new(),
            pic_bullets: HashMap::new(),
        }
    }
}

/// The id of a node, where it is an element of the name and states one.
fn read_key(n: &Node, name: &str, key: &str) -> (r: Option<i64>)
    ensures
        r == keyed(*n, name@, key@),
{
    match n {
        Node::Element(e) => match element_local_name(e) {
            Some(s) => if str_eq(s.as_str(), name) {
                opt_attr(e, key)
            } else {
                None
            },
            None => None,
        },
        _ => None,
    }
}

/// Enters the numbering that a node states.
fn enter_numbering(m: &mut HashMap<i64, AbstractNumbering>, n: &Node, Ghost(before): Ghost<Seq<Node>>)
    requires
        are_abstracts(before, old(m)@),
    ensures
        are_abstracts(before.push(*n), final(m)@),
{
    let ghost after = before.push(*n);
    assert(after.drop_last() =~= before);
    let ghost held = m@;
    match read_key(n, "abstractNum", "abstractNumId") {
        Some(id) => {
            match n {
                Node::Element(e) => {
                    let _ = m.insert(id, read_abstract(e));
                },
                _ => {},
            }
        },
        None => {},
    }
    assert forall|id: i64|
        match last_with_id(after, "abstractNum"@, "abstractNumId"@, id) {
            Some(e) => (#[trigger] m@.contains_key(id)) && is_abstract(e, m@[id]),
            None => !m@.contains_key(id),
        } by {
        assert(held.contains_key(id) || !held.contains_key(id));
    }
}

/// Enters the instance that a node states.
fn enter_instance(m: &mut HashMap<i64, NumberingInstance>, n: &Node, Ghost(before): Ghost<Seq<Node>>)
    requires
        are_instances(before, old(m)@),
    ensures
        are_instances(before.push(*n), final(m)@),
{
    let ghost after = before.push(*n);
    assert(after.drop_last() =~= before);
    let ghost held = m@;
    match read_key(n, "num", "numId") {
        Some(id) => {
            match n {
                Node::Element(e) => {
                    let _ = m.insert(id, convert_num(e));
                },
                _ => {},
            }
        },
        None => {},
    }
    assert forall|id: i64|
        match last_with_id(after, "num"@, "numId"@, id) {
            Some(e) => (#[trigger] m@.contains_key(id)) && is_instance(e, m@[id]),
            None => !m@.contains_key(id),
        } by {
        assert(held.contains_key(id) || !held.contains_key(id));
    }
}

/// Enters the picture that a node states.
fn enter_bullet(m: &mut HashMap<i64, NumPicBullet>, n: &Node, Ghost(before): Ghost<Seq<Node>>)
    requires
        are_bullets(before, old(m)@),
    ensures
        are_bullets(before.push(*n), final(m)@),
{
    let ghost after = before.push(*n);
    assert(after.drop_last() =~= before);
    let ghost held = m@;
    match read_key(n, "numPicBullet", "numPicBulletId") {
        Some(id) => {
            match n {
                Node::Element(e) => {
                    let has_pict: bool = child(e, "pict").is_some();
                    let _ = m.insert(id, NumPicBullet { id, has_pict });
                },
                _ => {},
            }
        },
        None => {},
    }
    assert forall|id: i64|
        match last_with_id(after, "numPicBullet"@, "numPicBulletId"@, id) {
            Some(e) => (#[trigger] m@.contains_key(id)) && m@[id] == (NumPicBullet {
                id,
                has_pict: child_named(e, "pict"@) is Some,
            }),
            None => !m@.contains_key(id),
        } by {
        assert(held.contains_key(id) || !held.contains_key(id));
    }
}

/// Whether a level reads.
pub open spec fn level_reads(e: Element) -> bool {
    &&& conforms(
        e,
        seq!["ilvl"],
        seq![
            "numFmt",
            "lvlText",
            "start",
            "lvlJc",
            "suff",
            "isLgl",
            "pPr",
            "rPr",
            "lvlPicBulletId",
        ],
        seq![],
    )
    &&& opt_conforms(child_named(e, "numFmt"@), seq!["val"], seq![])
    &&& match child_named(e, "lvlText"@) {
        Some(x) => conforms(x, seq!["val"], seq![], seq![]) && attr(x, "val"@) is Some,
        None => true,
    }
    &&& opt_conforms(child_named(e, "start"@), seq!["val"], seq![])
    &&& opt_conforms(child_named(e, "lvlJc"@), seq!["val"], seq![])
    &&& opt_conforms(child_named(e, "suff"@), seq!["val"], seq![])
    &&& opt_conforms(child_named(e, "isLgl"@), seq!["val"], seq![])
    &&& opt_conforms(child_named(e, "pPr"@), seq![], seq!["ind"])
    &&& opt_conforms(
        grandchild(e, "pPr"@, "ind"@),
        seq!["start", "left", "end", "right", "hanging", "firstLine"],
        seq![],
    )
    &&& match child_named(e, "rPr"@) {
        Some(x) => word_run_reads(x),
        None => true,
    }
    &&& opt_conforms(child_named(e, "lvlPicBulletId"@), seq!["val"], seq![])
}

/// Whether a level reads.
fn check_level(e: &Element) -> (r: bool)
    ensures
        r == level_reads(*e),
{
    let known: [&str; 1] = ["ilvl"];
    let single: [&str; 9] = [
        "numFmt",
        "lvlText",
        "start",
        "lvlJc",
        "suff",
        "isLgl",
        "pPr",
        "rPr",
        "lvlPicBulletId",
    ];
    let valued: [&str; 1] = ["val"];
    let indent: [&str; 1] = ["ind"];
    let sides: [&str; 6] = ["start", "left", "end", "right", "hanging", "firstLine"];
    let none: [&str; 0] = [];
    assert(known@ =~= seq!["ilvl"]);
    assert(single@ =~= seq![
        "numFmt",
        "lvlText",
        "start",
        "lvlJc",
        "suff",
        "isLgl",
        "pPr",
        "rPr",
        "lvlPicBulletId",
    ]);
    assert(valued@ =~= seq!["val"]);
    assert(indent@ =~= seq!["ind"]);
    assert(sides@ =~= seq!["start", "left", "end", "right", "hanging", "firstLine"]);
    assert(none@ =~= seq![]);
    check_element(e, &known, &single, &none) && check_value(child(e, "numFmt")) && (match child(
        e,
        "lvlText",
    ) {
        Some(x) => check_element(x, &valued, &none, &none) && attribute_of(
            Some(x),
            "val",
        ).is_some(),
        None => true,
    }) && check_value(child(e, "start")) && check_value(child(e, "lvlJc")) && check_value(
        child(e, "suff"),
    ) && check_value(child(e, "isLgl")) && check_opt(child(e, "pPr"), &none, &indent) && (
    match child(e, "pPr") {
        Some(p) => check_opt(child(p, "ind"), &sides, &none),
        None => true,
    }) && (match child(e, "rPr") {
        Some(x) => check_word_run(x),
        None => true,
    }) && check_value(child(e, "lvlPicBulletId"))
}

/// Whether a numbering reads.
pub open spec fn abstract_reads(e: Element) -> bool {
    let levels = children_named(e, "lvl"@);
    &&& conforms(e, seq!["abstractNumId"], seq![], seq!["lvl"])
    &&& forall|i: int| 0 <= i < levels.len() ==> level_reads(#[trigger] levels[i])
}

/// Whether a numbering reads.
fn check_abstract(e: &Element) -> (r: bool)
    ensures
        r == abstract_reads(*e),
{
    let known: [&str; 1] = ["abstractNumId"];
    let lists: [&str; 1] = ["lvl"];
    let none: [&str; 0] = [];
    assert(known@ =~= seq!["abstractNumId"]);
    assert(lists@ =~= seq!["lvl"]);
    assert(none@ =~= seq![]);
    if !check_element(e, &known, &none, &lists) {
        return false;
    }
    let levels: Vec<&Element> = children(e, "lvl");
    let ghost all = children_named(*e, "lvl"@);
    let mut i: usize = 0;
    while i < levels.len()
        invariant
            all == children_named(*e, "lvl"@),
            levels@.len() == all.len(),
            forall|k: int| 0 <= k < levels@.len() ==> *#[trigger] levels@[k] == all[k],
            i <= levels@.len(),
            forall|k: int| 0 <= k < i ==> level_reads(#[trigger] all[k]),
        decreases levels@.len() - i,
    {
        if !check_level(levels[i]) {
            assert(!level_reads(all[i as int]));
            return false;
        }
        i = i + 1;
    }
    true
}

/// Whether an override reads.
pub open spec fn override_reads(e: Element) -> bool {
    &&& conforms(e, seq!["ilvl"], seq!["startOverride", "lvl"], seq![])
    &&& opt_conforms(child_named(e, "startOverride"@), seq!["val"], seq![])
    &&& match child_named(e, "lvl"@) {
        Some(x) => level_reads(x),
        None => true,
    }
}

/// Whether an override reads.
fn check_override(e: &Element) -> (r: bool)
    ensures
        r == override_reads(*e),
{
    let known: [&str; 1] = ["ilvl"];
    let single: [&str; 2] = ["startOverride", "lvl"];
    let none: [&str; 0] = [];
    assert(known@ =~= seq!["ilvl"]);
    assert(single@ =~= seq!["startOverride", "lvl"]);
    assert(none@ =~= seq![]);
    check_element(e, &known, &single, &none) && check_value(child(e, "startOverride"))
        && match child(e, "lvl") {
        Some(x) => check_level(x),
        None => true,
    }
}

/// Whether an instance reads.
pub open spec fn instance_reads(e: Element) -> bool {
    let overrides = children_named(e, "lvlOverride"@);
    &&& conforms(e, seq!["numId"], seq!["abstractNumId"], seq!["lvlOverride"])
    &&& opt_conforms(child_named(e, "abstractNumId"@), seq!["val"], seq![])
    &&& forall|i: int| 0 <= i < overrides.len() ==> override_reads(#[trigger] overrides[i])
}

/// Whether an instance reads.
fn check_instance(e: &Element) -> (r: bool)
    ensures
        r == instance_reads(*e),
{
    let known: [&str; 1] = ["numId"];
    let single: [&str; 1] = ["abstractNumId"];
    let lists: [&str; 1] = ["lvlOverride"];
    assert(known@ =~= seq!["numId"]);
    assert(single@ =~= seq!["abstractNumId"]);
    assert(lists@ =~= seq!["lvlOverride"]);
    if !check_element(e, &known, &single, &lists) || !check_value(child(e, "abstractNumId")) {
        return false;
    }
    let overrides: Vec<&Element> = children(e, "lvlOverride");
    let ghost all = children_named(*e, "lvlOverride"@);
    let mut i: usize = 0;
    while i < overrides.len()
        invariant
            all == children_named(*e, "lvlOverride"@),
            overrides@.len() == all.len(),
            forall|k: int| 0 <= k < overrides@.len() ==> *#[trigger] overrides@[k] == all[k],
            i <= overrides@.len(),
            forall|k: int| 0 <= k < i ==> override_reads(#[trigger] all[k]),
        decreases overrides@.len() - i,
    {
        if !check_override(overrides[i]) {
            assert(!override_reads(all[i as int]));
            return false;
        }
        i = i + 1;
    }
    true
}

/// Whether a child of the root reads. One of a name that is none of the three
/// is passed over.
pub open spec fn definition_reads(n: Node) -> bool {
    match n {
        Node::Element(e) => if element_name(*e) == Some("abstractNum"@) {
            abstract_reads(*e)
        } else if element_name(*e) == Some("num"@) {
            instance_reads(*e)
        } else if element_name(*e) == Some("numPicBullet"@) {
            conforms(*e, seq!["numPicBulletId"], seq!["pict"], seq![])
        } else {
            true
        },
        _ => true,
    }
}

/// Whether a child of the root reads.
fn check_definition(n: &Node) -> (r: bool)
    ensures
        r == definition_reads(*n),
{
    match n {
        Node::Element(e) => {
            let name: String = match element_local_name(e) {
                Some(s) => s,
                None => {
                    return true;
                },
            };
            if str_eq(name.as_str(), "abstractNum") {
                check_abstract(e)
            } else if str_eq(name.as_str(), "num") {
                check_instance(e)
            } else if str_eq(name.as_str(), "numPicBullet") {
                let known: [&str; 1] = ["numPicBulletId"];
                let single: [&str; 1] = ["pict"];
                let none: [&str; 0] = [];
                assert(known@ =~= seq!["numPicBulletId"]);
                assert(single@ =~= seq!["pict"]);
                assert(none@ =~= seq![]);
                check_element(e, &known, &single, &none)
            } else {
                true
            }
        },
        _ => true,
    }
}

/// Whether the numbering part reads.
pub open spec fn numbering_reads(e: Element) -> bool {
    &&& conforms_with_rest(e, seq![], seq![])
    &&& forall|i: int| 0 <= i < e.children@.len() ==> definition_reads(#[trigger] e.children@[i])
}

/// Whether a result is what the root element of a numbering part gives.
pub open spec fn numbering_outcome(
    root: Option<Element>,
    r: Result<NumberingDefinitions, ParseError>,
) -> bool {
    match root {
        Some(e) => if numbering_reads(e) {
            r matches Ok(d) && are_definitions(e.children@, d)
        } else {
            r == Err::<NumberingDefinitions, ParseError>(ParseError::Schema)
        },
        None => r == Err::<NumberingDefinitions, ParseError>(ParseError::Malformed),
    }
}

/// The definitions that the root element of a numbering part states.
pub fn numbering_from(root: &Option<Element>) -> (r: Result<NumberingDefinitions, ParseError>)
    ensures
        numbering_outcome(*root, r),
{
    let e: &Element = match root {
        Some(e) => e,
        None => {
            return Err(ParseError::Malformed);
        },
    };
    let none: [&str; 0] = [];
    assert(none@ =~= seq![]);
    if !check_element_with_rest(e, &none, &none) {
        return Err(ParseError::Schema);
    }
    let mut d: NumberingDefinitions = NumberingDefinitions::default();
    let mut i: usize = 0;
    assert(are_definitions(e.children@.take(0), d));
    while i < e.children.len()
        invariant
            *root == Some(*e),
            i <= e.children@.len(),
            forall|k: int| 0 <= k < i ==> definition_reads(#[trigger] e.children@[k]),
            are_definitions(e.children@.take(i as int), d),
        decreases e.children@.len() - i,
    {
        if !check_definition(&e.children[i]) {
            assert(!definition_reads(e.children@[i as int]));
            return Err(ParseError::Schema);
        }
        let ghost so_far = e.children@.take(i as int);
        enter_numbering(&mut d.abstract_nums, &e.children[i], Ghost(so_far));
        enter_instance(&mut d.numbering_instances, &e.children[i], Ghost(so_far));
        enter_bullet(&mut d.pic_bullets, &e.children[i], Ghost(so_far));
        assert(e.children@.take(i + 1) =~= e.children@.take(i as int).push(e.children@[i as int]));
        i = i + 1;
    }
    assert(e.children@.take(i as int) =~= e.children@);
    Ok(d)
}

/// Reads the numbering part of a document. An empty part defines nothing.
pub fn parse_numbering(data: &[u8]) -> (r: Result<NumberingDefinitions, ParseError>)
    ensures
        data@.len() == 0 ==> (r matches Ok(d) && are_definitions(Seq::empty(), d)),
        data@.len() > 0 ==> exists|root: Option<Element>| #[trigger]
            part_root(data@, root) && numbering_outcome(root, r),
{
    if data.len() == 0 {
        let d: NumberingDefinitions = NumberingDefinitions::default();
        assert(are_definitions(Seq::empty(), d));
        return Ok(d);
    }
    let root: Option<Element> = from_xml(data);
    numbering_from(&root)
}

} // verus!
