//! Which face answers for a font.
use vstd::prelude::*;

use crate::model::font::EmbeddedFontVariant;
use crate::opc::path::lower;
use crate::render::font_aliases::{
    alias, claim_views, face_name_key, find_alias, name_key, AliasClaim, Claim,
};
use crate::render::font_db::nearest_face;
use crate::render::font_names::{
    candidates, canonical_weight_names, merged_alias_weight, stripped, strip_style_suffix,
    substitutes, substitutes_for, SubstKind,
};
use crate::render::fonts::{
    by_alias, by_candidates, by_last_resort, last_registered, last_resorts, EmbeddedFontId,
    FontRegistry, FontStyle, Registered, RegistryView, ResolveRule, TypefaceEntry, TypefaceOrigin,
};
use crate::render::words::{lowercase, spaced, words};

verus! {

/// Whether two names differ in capitals at most.
pub open spec fn same_but_for_capitals(a: Seq<char>, b: Seq<char>) -> bool {
    lower(a) == lower(b)
}

/// Whether families that can stand in for a name are listed for it.
pub open spec fn is_listed(name: Seq<char>, r: Seq<(&str, SubstKind)>) -> bool {
    ||| same_but_for_capitals("Calibri"@, name) && r.len() == 1 && r[0].0@ == "Carlito"@ && r[0].1 is Metric
    ||| same_but_for_capitals("Calibri Light"@, name) && r.len() == 1 && r[0].0@ == "Carlito"@ && r[0].1 is Visual
    ||| same_but_for_capitals("Cambria"@, name) && r.len() == 1 && r[0].0@ == "Caladea"@ && r[0].1 is Metric
    ||| same_but_for_capitals("Segoe UI"@, name) && r.len() == 1 && r[0].0@ == "Selawik"@ && r[0].1 is Metric
    ||| same_but_for_capitals("Arial"@, name) && r.len() == 3 && r[0].0@ == "Liberation Sans"@ && r[0].1 is Metric && r[1].0@ == "Arimo"@ && r[1].1 is Metric && r[2].0@ == "Helvetica"@ && r[2].1 is Visual
    ||| same_but_for_capitals("Times New Roman"@, name) && r.len() == 2 && r[0].0@ == "Liberation Serif"@ && r[0].1 is Metric && r[1].0@ == "Tinos"@ && r[1].1 is Metric
    ||| same_but_for_capitals("Courier New"@, name) && r.len() == 2 && r[0].0@ == "Liberation Mono"@ && r[0].1 is Metric && r[1].0@ == "Cousine"@ && r[1].1 is Metric
    ||| same_but_for_capitals("Georgia"@, name) && r.len() == 2 && r[0].0@ == "Gelasio"@ && r[0].1 is Metric && r[1].0@ == "Tinos"@ && r[1].1 is Visual
    ||| same_but_for_capitals("Helvetica"@, name) && r.len() == 4 && r[0].0@ == "Nimbus Sans"@ && r[0].1 is Visual && r[1].0@ == "TeX Gyre Heros"@ && r[1].1 is Visual && r[2].0@ == "Arial"@ && r[2].1 is Visual && r[3].0@ == "Liberation Sans"@ && r[3].1 is Visual
    ||| same_but_for_capitals("Times"@, name) && r.len() == 3 && r[0].0@ == "Nimbus Roman"@ && r[0].1 is Visual && r[1].0@ == "TeX Gyre Termes"@ && r[1].1 is Visual && r[2].0@ == "Liberation Serif"@ && r[2].1 is Visual
    ||| same_but_for_capitals("Courier"@, name) && r.len() == 3 && r[0].0@ == "Nimbus Mono PS"@ && r[0].1 is Visual && r[1].0@ == "TeX Gyre Cursor"@ && r[1].1 is Visual && r[2].0@ == "Liberation Mono"@ && r[2].1 is Visual
    ||| same_but_for_capitals("Palatino"@, name) && r.len() == 2 && r[0].0@ == "P052"@ && r[0].1 is Visual && r[1].0@ == "TeX Gyre Pagella"@ && r[1].1 is Visual
    ||| same_but_for_capitals("Palatino Linotype"@, name) && r.len() == 2 && r[0].0@ == "P052"@ && r[0].1 is Visual && r[1].0@ == "TeX Gyre Pagella"@ && r[1].1 is Visual
    ||| same_but_for_capitals("Book Antiqua"@, name) && r.len() == 2 && r[0].0@ == "P052"@ && r[0].1 is Visual && r[1].0@ == "TeX Gyre Pagella"@ && r[1].1 is Visual
    ||| same_but_for_capitals("Century Schoolbook"@, name) && r.len() == 2 && r[0].0@ == "C059"@ && r[0].1 is Visual && r[1].0@ == "TeX Gyre Schola"@ && r[1].1 is Visual
    ||| same_but_for_capitals("New Century Schoolbook"@, name) && r.len() == 2 && r[0].0@ == "C059"@ && r[0].1 is Visual && r[1].0@ == "TeX Gyre Schola"@ && r[1].1 is Visual
    ||| same_but_for_capitals("Bookman Old Style"@, name) && r.len() == 2 && r[0].0@ == "URW Bookman"@ && r[0].1 is Visual && r[1].0@ == "TeX Gyre Bonum"@ && r[1].1 is Visual
    ||| same_but_for_capitals("Century Gothic"@, name) && r.len() == 2 && r[0].0@ == "URW Gothic"@ && r[0].1 is Visual && r[1].0@ == "TeX Gyre Adventor"@ && r[1].1 is Visual
    ||| same_but_for_capitals("AvantGarde"@, name) && r.len() == 2 && r[0].0@ == "URW Gothic"@ && r[0].1 is Visual && r[1].0@ == "TeX Gyre Adventor"@ && r[1].1 is Visual
    ||| same_but_for_capitals("ZapfChancery"@, name) && r.len() == 1 && r[0].0@ == "Z003"@ && r[0].1 is Visual
    ||| same_but_for_capitals("Monotype Corsiva"@, name) && r.len() == 1 && r[0].0@ == "Z003"@ && r[0].1 is Visual
    ||| same_but_for_capitals("Symbol"@, name) && r.len() == 1 && r[0].0@ == "Standard Symbols PS"@ && r[0].1 is Visual
    ||| same_but_for_capitals("ZapfDingbats"@, name) && r.len() == 1 && r[0].0@ == "D050000L"@ && r[0].1 is Visual
}

/// Whether any family is listed for a name.
pub open spec fn has_list(name: Seq<char>) -> bool {
    ||| same_but_for_capitals("Calibri"@, name)
    ||| same_but_for_capitals("Calibri Light"@, name)
    ||| same_but_for_capitals("Cambria"@, name)
    ||| same_but_for_capitals("Segoe UI"@, name)
    ||| same_but_for_capitals("Arial"@, name)
    ||| same_but_for_capitals("Times New Roman"@, name)
    ||| same_but_for_capitals("Courier New"@, name)
    ||| same_but_for_capitals("Georgia"@, name)
    ||| same_but_for_capitals("Helvetica"@, name)
    ||| same_but_for_capitals("Times"@, name)
    ||| same_but_for_capitals("Courier"@, name)
    ||| same_but_for_capitals("Palatino"@, name)
    ||| same_but_for_capitals("Palatino Linotype"@, name)
    ||| same_but_for_capitals("Book Antiqua"@, name)
    ||| same_but_for_capitals("Century Schoolbook"@, name)
    ||| same_but_for_capitals("New Century Schoolbook"@, name)
    ||| same_but_for_capitals("Bookman Old Style"@, name)
    ||| same_but_for_capitals("Century Gothic"@, name)
    ||| same_but_for_capitals("AvantGarde"@, name)
    ||| same_but_for_capitals("ZapfChancery"@, name)
    ||| same_but_for_capitals("Monotype Corsiva"@, name)
    ||| same_but_for_capitals("Symbol"@, name)
    ||| same_but_for_capitals("ZapfDingbats"@, name)
}

/// The families that stand in for a family are those listed for its name, or else
/// those for its name without the words for styles.
pub proof fn which_families_stand_in(
    family: &str,
    base: Option<String>,
    r: Vec<(&'static str, SubstKind)>,
)
    requires
        call_ensures(substitutes_for, (family,), r),
        call_ensures(strip_style_suffix, (family,), base),
    ensures
        has_list(family@) ==> is_listed(family@, r@),
        !has_list(family@) ==> {
            &&& base is None ==> r@.len() == 0
            &&& base matches Some(b) ==> {
                &&& has_list(b@) ==> is_listed(b@, r@)
                &&& !has_list(b@) ==> r@.len() == 0
            }
        },
{
    let all = candidates(r@);
    assert(all.len() == r@.len());
    assert(r@.len() > 0 ==> all[0] == (r@[0].0@, r@[0].1));
    assert(r@.len() > 1 ==> all[1] == (r@[1].0@, r@[1].1));
    assert(r@.len() > 2 ==> all[2] == (r@[2].0@, r@[2].1));
    assert(r@.len() > 3 ==> all[3] == (r@[3].0@, r@[3].1));
}

/// The words for a weight, as the names of faces hold them.
pub proof fn weights_have_their_words(weight: u16, r: Vec<&'static str>)
    requires
        call_ensures(canonical_weight_names, (weight,), r),
    ensures
        weight == 100 ==> r@.len() == 2 && r@[0]@ == "Thin"@ && r@[1]@ == "Hairline"@,
        weight == 200 ==> r@.len() == 4 && r@[0]@ == "ExtraLight"@ && r@[1]@ == "Extra Light"@ && r@[2]@ == "UltraLight"@ && r@[3]@ == "Ultra Light"@,
        weight == 300 ==> r@.len() == 1 && r@[0]@ == "Light"@,
        weight == 400 ==> r@.len() == 2 && r@[0]@ == "Regular"@ && r@[1]@ == "Normal"@,
        weight == 500 ==> r@.len() == 1 && r@[0]@ == "Medium"@,
        weight == 600 ==> r@.len() == 5 && r@[0]@ == "Semibold"@ && r@[1]@ == "SemiBold"@ && r@[2]@ == "Semi Bold"@ && r@[3]@ == "DemiBold"@ && r@[4]@ == "Demi Bold"@,
        weight == 700 ==> r@.len() == 1 && r@[0]@ == "Bold"@,
        weight == 800 ==> r@.len() == 4 && r@[0]@ == "ExtraBold"@ && r@[1]@ == "Extra Bold"@ && r@[2]@ == "UltraBold"@ && r@[3]@ == "Ultra Bold"@,
        weight == 900 ==> r@.len() == 2 && r@[0]@ == "Black"@ && r@[1]@ == "Heavy"@,
        weight % 100 != 0 || weight == 0 || weight > 900 ==> r@.len() == 0,
{
    let all = crate::render::font_names::views(r@);
    assert(all.len() == r@.len());
    assert(forall|i: int| 0 <= i < r@.len() ==> all[i] == (#[trigger] r@[i])@);
}

/// A weight that is asked for makes the face of a name heavier, where it is more
/// than normal, and never lighter.
pub proof fn a_weight_makes_no_face_lighter(alias: u16, asked: u16, r: u16)
    requires
        call_ensures(merged_alias_weight, (alias, asked), r),
    ensures
        r >= alias,
        r == alias || r == asked,
        asked <= 400 ==> r == alias,
        asked > 400 ==> r >= asked,
{
}

/// A style of bold or slanted text.
pub proof fn styles_are_told_by_their_flags(bold: bool, italic: bool, r: FontStyle, p: FontStyle)
    requires
        call_ensures(FontStyle::from_flags, (bold, italic), r),
        call_ensures(FontStyle::normal, (), p),
    ensures
        r.italic == italic,
        bold ==> r.weight == 700 && r.weight > p.weight,
        !bold ==> r.weight == p.weight && p.weight == 400,
        !p.italic,
{
}

/// Whether a style is of a variant. From six hundred on a weight is bold.
pub open spec fn is_variant(style: FontStyle, variant: EmbeddedFontVariant) -> bool {
    match variant {
        EmbeddedFontVariant::Regular => style.weight < 600 && !style.italic,
        EmbeddedFontVariant::Bold => style.weight >= 600 && !style.italic,
        EmbeddedFontVariant::Italic => style.weight < 600 && style.italic,
        EmbeddedFontVariant::BoldItalic => style.weight >= 600 && style.italic,
    }
}

/// Whether a registered font is for a family and a style.
pub open spec fn is_for(font: Registered, family: Seq<char>, style: FontStyle) -> bool {
    font.key == lowercase(family) && is_variant(style, font.variant)
}

/// Whether the document carries a font for a family and a style.
pub open spec fn carries(r: RegistryView, family: Seq<char>, style: FontStyle) -> bool {
    exists|i: int| 0 <= i < r.embedded.len() && is_for(#[trigger] r.embedded[i], family, style)
}

proof fn the_last_registered_counts(
    all: Seq<Registered>,
    family: Seq<char>,
    style: FontStyle,
)
    ensures
        ({
            let variant = crate::render::fonts::variant_of(style.weight, style.italic);
            let found = last_registered(all, lowercase(family), variant);
            &&& found is None ==> forall|i: int|
                0 <= i < all.len() ==> !is_for(#[trigger] all[i], family, style)
            &&& found matches Some(k) ==> 0 <= k < all.len() && is_for(all[k], family, style)
                && forall|i: int|
                k < i < all.len() ==> !is_for(#[trigger] all[i], family, style)
        }),
    decreases all.len(),
{
    if all.len() > 0 {
        let shorter = all.drop_last();
        the_last_registered_counts(shorter, family, style);
        assert(forall|i: int| 0 <= i < shorter.len() ==> #[trigger] shorter[i] == all[i]);
        assert(all[all.len() - 1] == all.last());
        assert forall|i: int| 0 <= i < all.len() implies all[i] == all.last() || all[i]
            == shorter[i] by {
        }
    }
}

/// Whether the host has a family of this name.
pub open spec fn offers(r: RegistryView, family: Seq<char>, weight: u16, italic: bool) -> bool {
    nearest_face(r.faces, family, weight, italic) is Some
}

/// Whether the host has the family that a name is claimed for.
pub open spec fn has_claimed(r: RegistryView, family: Seq<char>, style: FontStyle) -> bool {
    alias(r.claims, name_key(family)) matches Some(c) && offers(
        r,
        c.family,
        if style.weight > 400 && style.weight > c.weight {
            style.weight
        } else {
            c.weight
        },
        style.italic,
    )
}

/// Whether the host has a family under its name without the words for styles.
pub open spec fn has_base(r: RegistryView, family: Seq<char>, style: FontStyle) -> bool {
    stripped(family) matches Some(base) && offers(r, base, style.weight, style.italic)
}

/// Whether the host has a family that stands in for another.
pub open spec fn has_substitute(r: RegistryView, family: Seq<char>, style: FontStyle) -> bool {
    exists|i: int|
        0 <= i < substitutes(family).len() && offers(
            r,
            (#[trigger] substitutes(family)[i]).0,
            style.weight,
            style.italic,
        )
}

proof fn the_first_candidate_counts(
    r: RegistryView,
    all: Seq<(Seq<char>, SubstKind)>,
    style: FontStyle,
)
    ensures
        by_candidates(r, all, style) is None ==> forall|i: int|
            0 <= i < all.len() ==> !offers(r, (#[trigger] all[i]).0, style.weight, style.italic),
        by_candidates(r, all, style) matches Some(a) ==> exists|i: int|
            0 <= i < all.len() && nearest_face(
                r.faces,
                (#[trigger] all[i]).0,
                style.weight,
                style.italic,
            ) == Some(a.0.id) && a.1 == ResolveRule::Substitution(all[i].1) && a.0.origin is System
                && forall|j: int|
                0 <= j < i ==> !offers(r, (#[trigger] all[j]).0, style.weight, style.italic),
    decreases all.len(),
{
    if all.len() > 0 {
        let rest = all.skip(1);
        if offers(r, all[0].0, style.weight, style.italic) {
            assert(all[0] == all[0]);
        } else {
            the_first_candidate_counts(r, rest, style);
            assert(forall|i: int| 0 <= i < rest.len() ==> #[trigger] rest[i] == all[i + 1]);
            if let Some(a) = by_candidates(r, all, style) {
                let i = choose|i: int|
                    0 <= i < rest.len() && nearest_face(
                        r.faces,
                        (#[trigger] rest[i]).0,
                        style.weight,
                        style.italic,
                    ) == Some(a.0.id) && a.1 == ResolveRule::Substitution(rest[i].1)
                        && a.0.origin is System && forall|j: int|
                        0 <= j < i ==> !offers(
                            r,
                            (#[trigger] rest[j]).0,
                            style.weight,
                            style.italic,
                        );
                assert(all[i + 1] == rest[i]);
                assert forall|j: int| 0 <= j < i + 1 implies !offers(
                    r,
                    (#[trigger] all[j]).0,
                    style.weight,
                    style.italic,
                ) by {
                    if j > 0 {
                        assert(rest[j - 1] == all[j]);
                    }
                }
            } else {
                assert forall|i: int| 0 <= i < all.len() implies !offers(
                    r,
                    (#[trigger] all[i]).0,
                    style.weight,
                    style.italic,
                ) by {
                    if i > 0 {
                        assert(rest[i - 1] == all[i]);
                    }
                }
            }
        }
    }
}

proof fn a_last_resort_is_told(r: RegistryView, names: Seq<Seq<char>>, style: FontStyle)
    ensures
        by_last_resort(r, names, style) is None <==> r.faces.len() == 0 && forall|i: int|
            0 <= i < names.len() ==> !offers(r, #[trigger] names[i], style.weight, style.italic),
        by_last_resort(r, names, style) matches Some(a) ==> a.1 is LastResort && a.0.origin
            is System,
    decreases names.len(),
{
    if names.len() > 0 {
        let rest = names.skip(1);
        a_last_resort_is_told(r, rest, style);
        assert(forall|i: int| 0 <= i < rest.len() ==> #[trigger] rest[i] == names[i + 1]);
        if by_last_resort(r, rest, style) is None && !offers(
            r,
            names[0],
            style.weight,
            style.italic,
        ) {
            assert forall|i: int| 0 <= i < names.len() implies !offers(
                r,
                #[trigger] names[i],
                style.weight,
                style.italic,
            ) by {
                if i > 0 {
                    assert(rest[i - 1] == names[i]);
                }
            }
        }
        if by_last_resort(r, names, style) is Some && r.faces.len() == 0 {
            if !offers(r, names[0], style.weight, style.italic) {
                let i = choose|i: int|
                    0 <= i < rest.len() && offers(
                        r,
                        #[trigger] rest[i],
                        style.weight,
                        style.italic,
                    );
                assert(names[i + 1] == rest[i]);
            }
        }
    }
}

/// Where nothing was asked before, the first of these answers: a font that the
/// document carries, the family itself, the family that its name is claimed for,
/// its name without the words for styles, a family that stands in for it, the
/// usual family without serifs, and at last any.
pub proof fn which_rule_answers(
    reg: &mut FontRegistry,
    family: &str,
    style: FontStyle,
    rule: ResolveRule,
)
    requires
        call_ensures(FontRegistry::resolve_rule, (reg, family, style), rule),
        old(reg)@.answers.len() == 0,
    ensures
        ({
            let r = old(reg)@;
            let carried = carries(r, family@, style);
            let own = offers(r, family@, style.weight, style.italic);
            let claimed = has_claimed(r, family@, style);
            let base = has_base(r, family@, style);
            let stand_in = has_substitute(r, family@, style);
            let usual = offers(r, r.sans_serif, style.weight, style.italic);
            &&& rule is Embedded <==> carried
            &&& rule is Exact <==> !carried && own
            &&& rule is Alias <==> !carried && !own && claimed
            &&& rule is StyleSuffix <==> !carried && !own && !claimed && base
            &&& rule is Substitution <==> !carried && !own && !claimed && !base && stand_in
            &&& rule is Generic <==> !carried && !own && !claimed && !base && !stand_in && usual
            &&& rule is NoFace ==> r.faces.len() == 0
            &&& rule matches ResolveRule::Substitution(kind) ==> exists|i: int|
                0 <= i < substitutes(family@).len() && (#[trigger] substitutes(family@)[i]).1
                    == kind && offers(r, substitutes(family@)[i].0, style.weight, style.italic)
                    && forall|j: int|
                    0 <= j < i ==> !offers(
                        r,
                        (#[trigger] substitutes(family@)[j]).0,
                        style.weight,
                        style.italic,
                    )
        }),
{
    let r = old(reg)@;
    let a = crate::render::fonts::resolution(r, family@, style);
    assert(crate::render::fonts::kept(
        r.answers,
        crate::render::fonts::key_of(family@, style),
    ) is None);
    the_last_registered_counts(r.embedded, family@, style);
    the_first_candidate_counts(r, substitutes(family@), style);
    a_last_resort_is_told(r, last_resorts(), style);
    assert(by_alias(r, family@, style) is Some <==> has_claimed(r, family@, style));
}

/// The face that answers is the one of the last font that the document carries for
/// the family and style, or else the nearest of the family.
pub proof fn which_face_answers(
    reg: &mut FontRegistry,
    family: &str,
    style: FontStyle,
    e: TypefaceEntry,
)
    requires
        call_ensures(FontRegistry::resolve, (reg, family, style), e),
        old(reg)@.answers.len() == 0,
        old(reg)@.embedded.len() <= u32::MAX,
    ensures
        ({
            let r = old(reg)@;
            &&& carries(r, family@, style) ==> (e.origin matches TypefaceOrigin::Embedded { id } && {
                &&& id.0 < r.embedded.len()
                &&& is_for(r.embedded[id.0 as int], family@, style)
                &&& e.id == r.embedded[id.0 as int].face
                &&& forall|i: int|
                    id.0 < i < r.embedded.len() ==> !is_for(
                        #[trigger] r.embedded[i],
                        family@,
                        style,
                    )
            })
            &&& !carries(r, family@, style) ==> e.origin is System
            &&& !carries(r, family@, style) && offers(r, family@, style.weight, style.italic)
                ==> nearest_face(r.faces, family@, style.weight, style.italic) == Some(e.id)
            &&& !carries(r, family@, style) && !offers(r, family@, style.weight, style.italic)
                && !has_claimed(r, family@, style) && has_base(r, family@, style)
                ==> nearest_face(r.faces, stripped(family@)->0, style.weight, style.italic) == Some(
                e.id,
            )
        }),
{
    let r = old(reg)@;
    assert(crate::render::fonts::kept(
        r.answers,
        crate::render::fonts::key_of(family@, style),
    ) is None);
    the_last_registered_counts(r.embedded, family@, style);
    the_first_candidate_counts(r, substitutes(family@), style);
    a_last_resort_is_told(r, last_resorts(), style);
    assert(by_alias(r, family@, style) is Some <==> has_claimed(r, family@, style));
}

/// A face of the family itself, and of no other, is exact.
pub proof fn an_exact_face_is_of_the_family(
    reg: &FontRegistry,
    family: &str,
    style: FontStyle,
    r: Option<TypefaceEntry>,
)
    requires
        call_ensures(FontRegistry::resolve_exact, (reg, family, style), r),
    ensures
        carries(reg@, family@, style) ==> (r matches Some(e) && e.origin is Embedded),
        !carries(reg@, family@, style) ==> match r {
            Some(e) => e.origin is System && nearest_face(
                reg@.faces,
                family@,
                style.weight,
                style.italic,
            ) == Some(e.id),
            None => !offers(reg@, family@, style.weight, style.italic),
        },
{
    the_last_registered_counts(reg@.embedded, family@, style);
}

/// Fonts are numbered in the order in which they were registered.
pub proof fn fonts_are_numbered_in_order(
    reg: &mut FontRegistry,
    family: &str,
    variant: EmbeddedFontVariant,
    bytes: Vec<u8>,
    id: EmbeddedFontId,
)
    requires
        call_ensures(
            FontRegistry::register_embedded,
            (reg, family, variant, bytes),
            Ok::<EmbeddedFontId, crate::render::fonts::RegisterError>(id),
        ),
    ensures
        id.0 == old(reg)@.embedded.len(),
        final(reg)@.embedded.len() == old(reg)@.embedded.len() + 1,
        final(reg)@.embedded.last().family == family@,
        final(reg)@.embedded.last().variant == variant,
        forall|i: int|
            0 <= i < old(reg)@.embedded.len() ==> final(reg)@.embedded[i] == #[trigger] old(
                reg,
            )@.embedded[i],
{
}

/// A rule holds on another machine where it names a font: guesses do not.
pub proof fn which_rules_hold_elsewhere(rule: ResolveRule, r: bool)
    requires
        call_ensures(ResolveRule::deterministic, (rule,), r),
    ensures
        rule is Generic || rule is LastResort || rule is NoFace || rule
            == ResolveRule::Substitution(SubstKind::Visual) <==> !r,
{
}

/// Rules are told by their names.
pub proof fn rules_have_their_names(rule: ResolveRule, r: &'static str)
    requires
        call_ensures(ResolveRule::name, (rule,), r),
    ensures
        rule is Embedded ==> r@ == "embedded"@,
        rule is Exact ==> r@ == "exact"@,
        rule is Alias ==> r@ == "alias"@,
        rule is StyleSuffix ==> r@ == "style_suffix"@,
        rule == ResolveRule::Substitution(SubstKind::Metric) ==> r@ == "substitution_metric"@,
        rule == ResolveRule::Substitution(SubstKind::Visual) ==> r@ == "substitution_visual"@,
        rule is Generic ==> r@ == "generic"@,
        rule is LastResort ==> r@ == "last_resort"@,
        rule is NoFace ==> r@ == "none"@,
{
}

/// A name stands for what all that claim it agree on, and for nothing where two
/// disagree or none claims it.
pub proof fn a_name_stands_for_what_is_agreed(
    claims: &Vec<AliasClaim>,
    key: &str,
    r: Option<(String, u16)>,
)
    requires
        call_ensures(find_alias, (claims, key), r),
    ensures
        r matches Some(t) ==> forall|i: int|
            0 <= i < claims@.len() && (#[trigger] claims@[i]).key@ == key@ ==> claims@[i].family@
                == t.0@ && claims@[i].weight == t.1,
        (forall|i: int| 0 <= i < claims@.len() ==> (#[trigger] claims@[i]).key@ != key@) ==> r
            is None,
        forall|i: int, j: int|
            0 <= i < claims@.len() && 0 <= j < claims@.len() && (#[trigger] claims@[i]).key@ == key@
                && (#[trigger] claims@[j]).key@ == key@ && (claims@[i].family@
                != claims@[j].family@ || claims@[i].weight != claims@[j].weight) ==> r is None,
{
    let all = claim_views(claims@);
    assert(forall|i: int| 0 <= i < all.len() ==> #[trigger] all[i] == claims@[i]@);
    if let Some(t) = r {
        let c = Claim { key: key@, family: t.0@, weight: t.1 };
        assert forall|i: int| 0 <= i < claims@.len() && (#[trigger] claims@[i]).key@
            == key@ implies claims@[i].family@ == t.0@ && claims@[i].weight == t.1 by {
            assert(all[i] == claims@[i]@);
            assert(all[i].key == c.key);
        }
        let k = a_claim_is_found(all, key@);
        assert(all[k] == claims@[k]@);
    }
}

proof fn a_claim_is_found(claims: Seq<Claim>, key: Seq<char>) -> (k: int)
    requires
        alias(claims, key) is Some,
    ensures
        0 <= k < claims.len(),
        claims[k].key == key,
    decreases claims.len(),
{
    let first = crate::render::font_aliases::first_claim(claims, key);
    a_first_claim(claims, key)
}

proof fn a_first_claim(claims: Seq<Claim>, key: Seq<char>) -> (k: int)
    requires
        crate::render::font_aliases::first_claim(claims, key) is Some,
    ensures
        0 <= k < claims.len(),
        claims[k].key == key,
    decreases claims.len(),
{
    let shorter = claims.drop_last();
    if crate::render::font_aliases::first_claim(shorter, key) is Some {
        let k = a_first_claim(shorter, key);
        assert(claims[k] == shorter[k]);
        k
    } else {
        claims.len() - 1
    }
}

/// Whether a word, in lower case, is one for a style.
pub open spec fn names_a_style(w: Seq<char>) -> bool {
    ||| w == "bold"@
    ||| w == "italic"@
    ||| w == "oblique"@
    ||| w == "regular"@
    ||| w == "light"@
    ||| w == "medium"@
    ||| w == "semibold"@
    ||| w == "demibold"@
    ||| w == "black"@
    ||| w == "heavy"@
    ||| w == "thin"@
}

/// The words for styles at the end of a name are taken off, all of them but the
/// first word of the name; a name that ends otherwise has none to take off.
pub proof fn words_for_styles_are_taken_off(family: &str, r: Option<String>)
    requires
        call_ensures(strip_style_suffix, (family,), r),
    ensures
        ({
            let all = words(family@);
            &&& all.len() <= 1 || !names_a_style(lowercase(all.last())) ==> r is None
            &&& all.len() > 1 && names_a_style(lowercase(all.last())) ==> r is Some
            &&& all.len() == 2 && names_a_style(lowercase(all[1])) ==> (r matches Some(s) && s@
                == all[0])
            &&& all.len() == 3 && names_a_style(lowercase(all[2])) && !names_a_style(
                lowercase(all[1]),
            ) ==> (r matches Some(s) && s@ == all[0] + seq![' '] + all[1])
        }),
{
    let all = words(family@);
    let n = crate::render::font_names::kept_words(all);
    if all.len() > 0 {
        crate::render::font_names::stripping_keeps_a_word(all);
    }
    if all.len() > 1 && names_a_style(lowercase(all.last())) {
        crate::render::font_names::stripping_keeps_a_word(all.drop_last());
        assert(n == crate::render::font_names::kept_words(all.drop_last()));
        assert(n < all.len());
        if all.len() == 2 {
            assert(n == 1);
            assert(all.take(1).len() == 1);
            assert(spaced(all.take(1)) == all[0]);
        }
        if all.len() == 3 && !names_a_style(lowercase(all[1])) {
            assert(all.drop_last().last() == all[1]);
            assert(n == 2);
            let kept = all.take(2);
            assert(kept.drop_last() =~= seq![all[0]]);
            assert(kept.last() == all[1]);
            assert(spaced(seq![all[0]]) == all[0]);
            assert(spaced(kept) == all[0] + seq![' '] + all[1]);
        }
    }
}

/// Names of the same words are looked up as one, whatever stands between them.
pub proof fn names_are_looked_up_by_their_words(a: &str, b: &str, x: String, y: String)
    requires
        call_ensures(face_name_key, (a,), x),
        call_ensures(face_name_key, (b,), y),
    ensures
        words(a@) == words(b@) ==> x@ == y@,
        words(a@).len() == 1 ==> x@ == lowercase(words(a@)[0]),
        words(a@).len() == 2 ==> x@ == lowercase(words(a@)[0] + seq![' '] + words(a@)[1]),
{
    let all = words(a@);
    if all.len() == 2 {
        assert(all.drop_last() =~= seq![all[0]]);
        assert(spaced(seq![all[0]]) == all[0]);
        assert(spaced(all) == all[0] + seq![' '] + all[1]);
    }
}

/// Where nothing else answers, the families of last resort are tried in turn, and
/// at last the first face of all answers.
pub proof fn which_face_is_the_last_resort(
    reg: &mut FontRegistry,
    family: &str,
    style: FontStyle,
    e: TypefaceEntry,
    rule: ResolveRule,
)
    requires
        call_ensures(FontRegistry::resolve, (reg, family, style), e),
        old(reg)@.answers.len() == 0,
        old(reg)@.faces.len() > 0,
        !carries(old(reg)@, family@, style),
        !offers(old(reg)@, family@, style.weight, style.italic),
        !has_claimed(old(reg)@, family@, style),
        !has_base(old(reg)@, family@, style),
        !has_substitute(old(reg)@, family@, style),
    ensures
        ({
            let r = old(reg)@;
            let at = |name: Seq<char>| nearest_face(r.faces, name, style.weight, style.italic);
            let usual = at(r.sans_serif);
            let a = at("DejaVu Sans"@);
            let b = at("Liberation Sans"@);
            let c = at("Arial"@);
            let d = at("Helvetica"@);
            let f = at("Noto Sans"@);
            let g = at("FreeSans"@);
            &&& usual is Some ==> usual == Some(e.id)
            &&& usual is None && a is Some ==> a == Some(e.id)
            &&& usual is None && a is None && b is Some ==> b == Some(e.id)
            &&& usual is None && a is None && b is None && c is Some ==> c == Some(e.id)
            &&& usual is None && a is None && b is None && c is None && d is Some ==> d == Some(
                e.id,
            )
            &&& usual is None && a is None && b is None && c is None && d is None && f is Some ==> f
                == Some(e.id)
            &&& usual is None && a is None && b is None && c is None && d is None && f is None && g
                is Some ==> g == Some(e.id)
            &&& usual is None && a is None && b is None && c is None && d is None && f is None && g
                is None ==> e.id == r.faces[0].id
        }),
{
    let r = old(reg)@;
    assert(crate::render::fonts::kept(
        r.answers,
        crate::render::fonts::key_of(family@, style),
    ) is None);
    the_last_registered_counts(r.embedded, family@, style);
    the_first_candidate_counts(r, substitutes(family@), style);
    assert(by_alias(r, family@, style) is None);
    let all = last_resorts();
    let s1 = all.skip(1);
    let s2 = s1.skip(1);
    let s3 = s2.skip(1);
    let s4 = s3.skip(1);
    let s5 = s4.skip(1);
    let s6 = s5.skip(1);
    assert(all[0] == "DejaVu Sans"@ && s1[0] == "Liberation Sans"@ && s2[0] == "Arial"@ && s3[0]
        == "Helvetica"@ && s4[0] == "Noto Sans"@ && s5[0] == "FreeSans"@);
    assert(s6.len() == 0);
    reveal_with_fuel(by_last_resort, 8);
}

/// A family that a name is claimed for answers with the face nearest to the weight
/// of the claim, or to the one asked for where that is heavier than normal and
/// than the claim.
pub proof fn which_face_a_claim_gives(
    reg: &mut FontRegistry,
    family: &str,
    style: FontStyle,
    c: Claim,
    w: u16,
    e: TypefaceEntry,
)
    requires
        call_ensures(FontRegistry::resolve, (reg, family, style), e),
        old(reg)@.answers.len() == 0,
        !carries(old(reg)@, family@, style),
        !offers(old(reg)@, family@, style.weight, style.italic),
        alias(old(reg)@.claims, name_key(family@)) == Some(c),
        call_ensures(merged_alias_weight, (c.weight, style.weight), w),
        offers(old(reg)@, c.family, w, style.italic),
    ensures
        nearest_face(old(reg)@.faces, c.family, w, style.italic) == Some(e.id),
{
    let r = old(reg)@;
    assert(crate::render::fonts::kept(
        r.answers,
        crate::render::fonts::key_of(family@, style),
    ) is None);
    the_last_registered_counts(r.embedded, family@, style);
}

} // verus!
