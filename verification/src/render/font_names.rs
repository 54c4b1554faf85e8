//! What the name of a font says: style words at its end, families that can
//! stand in for it, and the words for a weight.
use vstd::prelude::*;

use crate::render::words::{
    is_same_name, join_words, lowercase, read_words, same_name, spaced, spelled, to_lowercase, words,
};
use crate::scan::str_eq;

verus! {

/// Whether a substitute reproduces the metrics of a font or merely its look.
#[derive(Clone, Copy, PartialEq, Eq, Debug, Structural)]
pub enum SubstKind {
    /// Made to be dropped in: the same advances and the same line metrics.
    Metric,
    /// Of a similar design, with other metrics.
    Visual,
}

/// Whether a word in lower case names a style. `roman` and `book` do not: they
/// end the names of families.
pub open spec fn is_style_word(w: Seq<char>) -> bool {
    ||| w == "bold"@
    ||| w == "italic"@
    ||| w == "oblique"@
    ||| w == "regular"@
    ||| w == "light"@
    ||| w == "medium"@
    ||| w == "semibold"@
    ||| w == "demibold"@
    ||| w == "black"@
    ||| w == "heavy"@
    ||| w == "thin"@
}

/// Whether a word in lower case names a style.
fn style_word(w: &str) -> (r: bool)
    ensures
        r == is_style_word(w@),
{
    str_eq(w, "bold")
        || str_eq(w, "italic")
        || str_eq(w, "oblique")
        || str_eq(w, "regular")
        || str_eq(w, "light")
        || str_eq(w, "medium")
        || str_eq(w, "semibold")
        || str_eq(w, "demibold")
        || str_eq(w, "black")
        || str_eq(w, "heavy")
        || str_eq(w, "thin")
}

/// How many words are left of a name once the style words at its end are
/// taken off. The first word always stays.
pub open spec fn kept_words(all: Seq<Seq<char>>) -> nat
    decreases all.len(),
{
    if all.len() > 1 && is_style_word(lowercase(all.last())) {
        kept_words(all.drop_last())
    } else {
        all.len()
    }
}

/// A name without the style words at its end, where it has any.
pub open spec fn stripped(family: Seq<char>) -> Option<Seq<char>> {
    let all = words(family);
    let n = kept_words(all);
    if n < all.len() {
        Some(spaced(all.take(n as int)))
    } else {
        None
    }
}

/// A name without the style words at its end, where it has any.
pub fn strip_style_suffix(family: &str) -> (r: Option<String>)
    ensures
        crate::xml::event::opt_view(r) == stripped(family@),
{
    let all: Vec<Vec<char>> = read_words(family);
    let ghost held = spelled(all@);
    let total: usize = all.len();
    let mut n: usize = total;
    assert(held.take(n as int) =~= held);
    while n > 1
        invariant
            held == spelled(all@),
            held == words(family@),
            total == all@.len(),
            n <= total,
            kept_words(held.take(n as int)) == kept_words(held),
        ensures
            n <= total,
            kept_words(held) == n,
        decreases n,
    {
        let ghost part = held.take(n as int);
        assert(part.drop_last() =~= held.take(n - 1));
        assert(part.last() == all@[n - 1]@);
        let mut word: String = String::new();
        crate::opc::path::append_chars(&mut word, &all[n - 1]);
        assert(word@ =~= all@[n - 1]@);
        let small: String = to_lowercase(word.as_str());
        if !style_word(small.as_str()) {
            break;
        }
        n = n - 1;
    }
    if n < total {
        Some(join_words(&all, n))
    } else {
        None
    }
}

/// At least one word of a name is kept.
pub proof fn stripping_keeps_a_word(all: Seq<Seq<char>>)
    requires
        all.len() > 0,
    ensures
        0 < kept_words(all) <= all.len(),
    decreases all.len(),
{
    if all.len() > 1 {
        stripping_keeps_a_word(all.drop_last());
    }
}

/// Stripping the style words off a name takes all of them: what is left ends in
/// another word, or is a single one.
pub proof fn stripping_takes_all_style_words(all: Seq<Seq<char>>)
    ensures
        kept_words(all.take(kept_words(all) as int)) == kept_words(all),
        kept_words(all) > 1 ==> !is_style_word(lowercase(all[kept_words(all) - 1])),
    decreases all.len(),
{
    if all.len() > 1 && is_style_word(lowercase(all.last())) {
        let shorter = all.drop_last();
        stripping_takes_all_style_words(shorter);
        stripping_keeps_a_word(shorter);
        assert(all.take(kept_words(all) as int) =~= shorter.take(kept_words(all) as int));
    } else {
        assert(all.take(all.len() as int) =~= all);
    }
}

/// What candidates for a substitution hold.
pub open spec fn candidates(all: Seq<(&str, SubstKind)>) -> Seq<(Seq<char>, SubstKind)> {
    all.map_values(|c: (&str, SubstKind)| (c.0@, c.1))
}

/// The families that can stand in for a family, the best first.
pub open spec fn substitution_row(name: Seq<char>) -> Option<Seq<(Seq<char>, SubstKind)>> {
    if same_name("Calibri"@, name) {
        Some(seq![("Carlito"@, SubstKind::Metric)])
    } else if same_name("Calibri Light"@, name) {
        Some(seq![("Carlito"@, SubstKind::Visual)])
    } else if same_name("Cambria"@, name) {
        Some(seq![("Caladea"@, SubstKind::Metric)])
    } else if same_name("Segoe UI"@, name) {
        Some(seq![("Selawik"@, SubstKind::Metric)])
    } else if same_name("Arial"@, name) {
        Some(seq![
            ("Liberation Sans"@, SubstKind::Metric),
            ("Arimo"@, SubstKind::Metric),
            ("Helvetica"@, SubstKind::Visual),
        ])
    } else if same_name("Times New Roman"@, name) {
        Some(seq![("Liberation Serif"@, SubstKind::Metric), ("Tinos"@, SubstKind::Metric)])
    } else if same_name("Courier New"@, name) {
        Some(seq![("Liberation Mono"@, SubstKind::Metric), ("Cousine"@, SubstKind::Metric)])
    } else if same_name("Georgia"@, name) {
        Some(seq![("Gelasio"@, SubstKind::Metric), ("Tinos"@, SubstKind::Visual)])
    } else if same_name("Helvetica"@, name) {
        Some(seq![
            ("Nimbus Sans"@, SubstKind::Visual),
            ("TeX Gyre Heros"@, SubstKind::Visual),
            ("Arial"@, SubstKind::Visual),
            ("Liberation Sans"@, SubstKind::Visual),
        ])
    } else if same_name("Times"@, name) {
        Some(seq![
            ("Nimbus Roman"@, SubstKind::Visual),
            ("TeX Gyre Termes"@, SubstKind::Visual),
            ("Liberation Serif"@, SubstKind::Visual),
        ])
    } else if same_name("Courier"@, name) {
        Some(seq![
            ("Nimbus Mono PS"@, SubstKind::Visual),
            ("TeX Gyre Cursor"@, SubstKind::Visual),
            ("Liberation Mono"@, SubstKind::Visual),
        ])
    } else if same_name("Palatino"@, name) {
        Some(seq![("P052"@, SubstKind::Visual), ("TeX Gyre Pagella"@, SubstKind::Visual)])
    } else if same_name("Palatino Linotype"@, name) {
        Some(seq![("P052"@, SubstKind::Visual), ("TeX Gyre Pagella"@, SubstKind::Visual)])
    } else if same_name("Book Antiqua"@, name) {
        Some(seq![("P052"@, SubstKind::Visual), ("TeX Gyre Pagella"@, SubstKind::Visual)])
    } else if same_name("Century Schoolbook"@, name) {
        Some(seq![("C059"@, SubstKind::Visual), ("TeX Gyre Schola"@, SubstKind::Visual)])
    } else if same_name("New Century Schoolbook"@, name) {
        Some(seq![("C059"@, SubstKind::Visual), ("TeX Gyre Schola"@, SubstKind::Visual)])
    } else if same_name("Bookman Old Style"@, name) {
        Some(seq![("URW Bookman"@, SubstKind::Visual), ("TeX Gyre Bonum"@, SubstKind::Visual)])
    } else if same_name("Century Gothic"@, name) {
        Some(seq![("URW Gothic"@, SubstKind::Visual), ("TeX Gyre Adventor"@, SubstKind::Visual)])
    } else if same_name("AvantGarde"@, name) {
        Some(seq![("URW Gothic"@, SubstKind::Visual), ("TeX Gyre Adventor"@, SubstKind::Visual)])
    } else if same_name("ZapfChancery"@, name) {
        Some(seq![("Z003"@, SubstKind::Visual)])
    } else if same_name("Monotype Corsiva"@, name) {
        Some(seq![("Z003"@, SubstKind::Visual)])
    } else if same_name("Symbol"@, name) {
        Some(seq![("Standard Symbols PS"@, SubstKind::Visual)])
    } else if same_name("ZapfDingbats"@, name) {
        Some(seq![("D050000L"@, SubstKind::Visual)])
    } else {
        None
    }
}

/// One candidate.
fn one(a: &'static str, ka: SubstKind) -> (r: Vec<(&'static str, SubstKind)>)
    ensures
        candidates(r@) == seq![(a@, ka)],
{
    let r: Vec<(&'static str, SubstKind)> = vec![(a, ka)];
    assert(candidates(r@) =~= seq![(a@, ka)]);
    r
}

/// Two candidates.
fn two(a: &'static str, ka: SubstKind, b: &'static str, kb: SubstKind) -> (r: Vec<
    (&'static str, SubstKind),
>)
    ensures
        candidates(r@) == seq![(a@, ka), (b@, kb)],
{
    let r: Vec<(&'static str, SubstKind)> = vec![(a, ka), (b, kb)];
    assert(candidates(r@) =~= seq![(a@, ka), (b@, kb)]);
    r
}

/// Three candidates.
fn three(
    a: &'static str,
    ka: SubstKind,
    b: &'static str,
    kb: SubstKind,
    c: &'static str,
    kc: SubstKind,
) -> (r: Vec<(&'static str, SubstKind)>)
    ensures
        candidates(r@) == seq![(a@, ka), (b@, kb), (c@, kc)],
{
    let r: Vec<(&'static str, SubstKind)> = vec![(a, ka), (b, kb), (c, kc)];
    assert(candidates(r@) =~= seq![(a@, ka), (b@, kb), (c@, kc)]);
    r
}

/// The families that can stand in for a family. Clones that keep the metrics
/// come first. A family without such a row has none on purpose: no free font
/// keeps its metrics, and a fallback to a generic font is to be seen as one.
fn read_row(name: &str) -> (r: Option<Vec<(&'static str, SubstKind)>>)
    ensures
        match r {
            Some(v) => substitution_row(name@) == Some(candidates(v@)),
            None => substitution_row(name@) is None,
        },
{
    if is_same_name("Calibri", name) {
        Some(one("Carlito", SubstKind::Metric))
    } else if is_same_name("Calibri Light", name) {
        Some(one("Carlito", SubstKind::Visual))
    } else if is_same_name("Cambria", name) {
        Some(one("Caladea", SubstKind::Metric))
    } else if is_same_name("Segoe UI", name) {
        Some(one("Selawik", SubstKind::Metric))
    } else if is_same_name("Arial", name) {
        Some(three(
            "Liberation Sans", SubstKind::Metric,
            "Arimo", SubstKind::Metric,
            "Helvetica", SubstKind::Visual,
        ))
    } else if is_same_name("Times New Roman", name) {
        Some(two("Liberation Serif", SubstKind::Metric, "Tinos", SubstKind::Metric))
    } else if is_same_name("Courier New", name) {
        Some(two("Liberation Mono", SubstKind::Metric, "Cousine", SubstKind::Metric))
    } else if is_same_name("Georgia", name) {
        Some(two("Gelasio", SubstKind::Metric, "Tinos", SubstKind::Visual))
    } else if is_same_name("Helvetica", name) {
        let r: Vec<(&'static str, SubstKind)> = vec![
            ("Nimbus Sans", SubstKind::Visual),
            ("TeX Gyre Heros", SubstKind::Visual),
            ("Arial", SubstKind::Visual),
            ("Liberation Sans", SubstKind::Visual),
        ];
        assert(candidates(r@) =~= seq![
            ("Nimbus Sans"@, SubstKind::Visual),
            ("TeX Gyre Heros"@, SubstKind::Visual),
            ("Arial"@, SubstKind::Visual),
            ("Liberation Sans"@, SubstKind::Visual),
        ]);
        Some(r)
    } else if is_same_name("Times", name) {
        Some(three(
            "Nimbus Roman", SubstKind::Visual,
            "TeX Gyre Termes", SubstKind::Visual,
            "Liberation Serif", SubstKind::Visual,
        ))
    } else if is_same_name("Courier", name) {
        Some(three(
            "Nimbus Mono PS", SubstKind::Visual,
            "TeX Gyre Cursor", SubstKind::Visual,
            "Liberation Mono", SubstKind::Visual,
        ))
    } else if is_same_name("Palatino", name) {
        Some(two("P052", SubstKind::Visual, "TeX Gyre Pagella", SubstKind::Visual))
    } else if is_same_name("Palatino Linotype", name) {
        Some(two("P052", SubstKind::Visual, "TeX Gyre Pagella", SubstKind::Visual))
    } else if is_same_name("Book Antiqua", name) {
        Some(two("P052", SubstKind::Visual, "TeX Gyre Pagella", SubstKind::Visual))
    } else if is_same_name("Century Schoolbook", name) {
        Some(two("C059", SubstKind::Visual, "TeX Gyre Schola", SubstKind::Visual))
    } else if is_same_name("New Century Schoolbook", name) {
        Some(two("C059", SubstKind::Visual, "TeX Gyre Schola", SubstKind::Visual))
    } else if is_same_name("Bookman Old Style", name) {
        Some(two("URW Bookman", SubstKind::Visual, "TeX Gyre Bonum", SubstKind::Visual))
    } else if is_same_name("Century Gothic", name) {
        Some(two("URW Gothic", SubstKind::Visual, "TeX Gyre Adventor", SubstKind::Visual))
    } else if is_same_name("AvantGarde", name) {
        Some(two("URW Gothic", SubstKind::Visual, "TeX Gyre Adventor", SubstKind::Visual))
    } else if is_same_name("ZapfChancery", name) {
        Some(one("Z003", SubstKind::Visual))
    } else if is_same_name("Monotype Corsiva", name) {
        Some(one("Z003", SubstKind::Visual))
    } else if is_same_name("Symbol", name) {
        Some(one("Standard Symbols PS", SubstKind::Visual))
    } else if is_same_name("ZapfDingbats", name) {
        Some(one("D050000L", SubstKind::Visual))
    } else {
        None
    }
}

/// The families that can stand in for a family: those of its own row, or else
/// of the row of its name without style words.
pub open spec fn substitutes(family: Seq<char>) -> Seq<(Seq<char>, SubstKind)> {
    match substitution_row(family) {
        Some(row) => row,
        None => match stripped(family) {
            Some(base) => match substitution_row(base) {
                Some(row) => row,
                None => Seq::empty(),
            },
            None => Seq::empty(),
        },
    }
}

/// The families that can stand in for a family, the best first.
pub fn substitutes_for(family: &str) -> (r: Vec<(&'static str, SubstKind)>)
    ensures
        candidates(r@) == substitutes(family@),
{
    match read_row(family) {
        Some(row) => row,
        None => {
            let none: Vec<(&'static str, SubstKind)> = Vec::new();
            assert(candidates(none@) =~= Seq::empty());
            match strip_style_suffix(family) {
                Some(base) => match read_row(base.as_str()) {
                    Some(row) => row,
                    None => none,
                },
                None => none,
            }
        },
    }
}

/// In every row the clones that keep the metrics come before those that do not.
pub proof fn clones_come_first(family: Seq<char>, i: int, j: int)
    requires
        0 <= i < j < substitutes(family).len(),
        substitutes(family)[j].1 == SubstKind::Metric,
    ensures
        substitutes(family)[i].1 == SubstKind::Metric,
{
}

/// The words for a weight, as the names of faces hold them.
pub open spec fn weight_words(weight: u16) -> Seq<Seq<char>> {
    if weight == 100 {
        seq!["Thin"@, "Hairline"@]
    } else if weight == 200 {
        seq!["ExtraLight"@, "Extra Light"@, "UltraLight"@, "Ultra Light"@]
    } else if weight == 300 {
        seq!["Light"@]
    } else if weight == 400 {
        seq!["Regular"@, "Normal"@]
    } else if weight == 500 {
        seq!["Medium"@]
    } else if weight == 600 {
        seq!["Semibold"@, "SemiBold"@, "Semi Bold"@, "DemiBold"@, "Demi Bold"@]
    } else if weight == 700 {
        seq!["Bold"@]
    } else if weight == 800 {
        seq!["ExtraBold"@, "Extra Bold"@, "UltraBold"@, "Ultra Bold"@]
    } else if weight == 900 {
        seq!["Black"@, "Heavy"@]
    } else {
        Seq::empty()
    }
}

/// What words hold.
pub open spec fn views(all: Seq<&str>) -> Seq<Seq<char>> {
    all.map_values(|w: &str| w@)
}

/// The words for a weight, as the names of faces hold them.
pub fn canonical_weight_names(weight: u16) -> (r: Vec<&'static str>)
    ensures
        views(r@) == weight_words(weight),
{
    let r: Vec<&'static str> = if weight == 100 {
        vec!["Thin", "Hairline"]
    } else if weight == 200 {
        vec!["ExtraLight", "Extra Light", "UltraLight", "Ultra Light"]
    } else if weight == 300 {
        vec!["Light"]
    } else if weight == 400 {
        vec!["Regular", "Normal"]
    } else if weight == 500 {
        vec!["Medium"]
    } else if weight == 600 {
        vec!["Semibold", "SemiBold", "Semi Bold", "DemiBold", "Demi Bold"]
    } else if weight == 700 {
        vec!["Bold"]
    } else if weight == 800 {
        vec!["ExtraBold", "Extra Bold", "UltraBold", "Ultra Bold"]
    } else if weight == 900 {
        vec!["Black", "Heavy"]
    } else {
        vec![]
    };
    assert(views(r@) =~= weight_words(weight));
    r
}

/// The weight to ask for where the name of a face says one and the text asks
/// for another. An ordinary weight says nothing: it does not make a light face
/// heavier. A heavier one does.
pub open spec fn merged_weight(alias_weight: u16, requested_weight: u16) -> u16 {
    if requested_weight > 400 && requested_weight > alias_weight {
        requested_weight
    } else {
        alias_weight
    }
}

/// The weight to ask for where the name of a face says one and the text asks
/// for another.
pub fn merged_alias_weight(alias_weight: u16, requested_weight: u16) -> (r: u16)
    ensures
        r == merged_weight(alias_weight, requested_weight),
{
    if requested_weight > 400 && requested_weight > alias_weight {
        requested_weight
    } else {
        alias_weight
    }
}

} // verus!
