//! Which face of a font answers for a family and a style, and why.
//!
//! The fonts of a host differ from those of another. So each answer comes with
//! the rule that gave it, and only some rules give the same face everywhere.
use vstd::prelude::*;

use crate::model::font::{font_views, EmbeddedFont, EmbeddedFontVariant, EmbeddedFontView};
use crate::pptx::package::copy_bytes;
use crate::render::error::RenderError;
use crate::render::font_aliases::{
    alias, claim_views, claims_of, face_name_key, find_alias, name_key, read_claims, AliasClaim,
    Claim,
};
use crate::render::font_db::{
    face_views, faces_in, faces_of, has_family, have_joined, host_faces, load_font, names_face_of,
    nearest_face, query_family, query_host, read_faces, sans_serif_name, sans_serif_of, texts, Face,
    FaceView,
};
use crate::render::font_names::{
    candidates, merged_alias_weight, merged_weight, strip_style_suffix, stripped, substitutes,
    substitutes_for, views, SubstKind,
};
use crate::render::words::{lowercase, to_lowercase};
use crate::scan::str_eq;

verus! {

/// A weight and a slant.
#[derive(Clone, Copy, Debug, PartialEq, Eq, Hash, Structural)]
pub struct FontStyle {
    /// 400 is normal, 700 is bold.
    pub weight: u16,
    pub italic: bool,
}

impl FontStyle {
    pub fn normal() -> (r: Self)
        ensures
            r == (FontStyle { weight: 400, italic: false }),
    {
        FontStyle { weight: 400, italic: false }
    }

    pub fn bold() -> (r: Self)
        ensures
            r == (FontStyle { weight: 700, italic: false }),
    {
        FontStyle { weight: 700, italic: false }
    }

    pub fn italic() -> (r: Self)
        ensures
            r == (FontStyle { weight: 400, italic: true }),
    {
        FontStyle { weight: 400, italic: true }
    }

    pub fn bold_italic() -> (r: Self)
        ensures
            r == (FontStyle { weight: 700, italic: true }),
    {
        FontStyle { weight: 700, italic: true }
    }

    pub fn from_flags(bold: bool, italic: bool) -> (r: Self)
        ensures
            r.weight == (if bold { 700u16 } else { 400u16 }),
            r.italic == italic,
    {
        FontStyle { weight: if bold { 700 } else { 400 }, italic }
    }
}

/// The number of a font that was registered as embedded.
#[derive(Clone, Copy, Debug, PartialEq, Eq, Hash, PartialOrd, Ord, Structural)]
pub struct EmbeddedFontId(pub u32);

impl EmbeddedFontId {
    pub fn raw(self) -> (r: u32)
        ensures
            r == self.0,
    {
        self.0
    }
}

/// The identity of a face of the host.
#[derive(Clone, Copy, Debug, PartialEq, Eq, Hash, PartialOrd, Ord)]
pub struct TypefaceId(pub fontdb::ID);

/// Where a face comes from.
#[derive(Clone, Copy, Debug, PartialEq, Eq)]
pub enum TypefaceOrigin {
    /// From a font that the document carries.
    Embedded { id: EmbeddedFontId },
    /// From the fonts of the host.
    System { typeface_id: TypefaceId },
}

/// A face that was found.
#[derive(Clone, Copy, Debug)]
pub struct TypefaceEntry {
    pub id: fontdb::ID,
    pub origin: TypefaceOrigin,
}

/// What is asked for: a family in lower case, a weight and a slant.
#[derive(Hash, Eq, PartialEq, Debug)]
pub struct TypefaceKey {
    pub family_lc: String,
    pub weight: u16,
    pub italic: bool,
}

/// What a key holds.
pub struct KeyView {
    pub family: Seq<char>,
    pub weight: u16,
    pub italic: bool,
}

impl View for TypefaceKey {
    type V = KeyView;

    open spec fn view(&self) -> KeyView {
        KeyView { family: self.family_lc@, weight: self.weight, italic: self.italic }
    }
}

/// The key under which an answer is kept.
pub open spec fn key_of(family: Seq<char>, style: FontStyle) -> KeyView {
    KeyView { family: lowercase(family), weight: style.weight, italic: style.italic }
}

impl TypefaceKey {
    pub fn new(family: &str, style: FontStyle) -> (r: Self)
        ensures
            r@ == key_of(family@, style),
    {
        TypefaceKey { family_lc: to_lowercase(family), weight: style.weight, italic: style.italic }
    }

    /// Whether two keys are the same.
    pub fn same(&self, other: &TypefaceKey) -> (r: bool)
        ensures
            r == (self@ == other@),
    {
        self.weight == other.weight && self.italic == other.italic && str_eq(
            self.family_lc.as_str(),
            other.family_lc.as_str(),
        )
    }

    /// A copy.
    pub fn copy(&self) -> (r: TypefaceKey)
        ensures
            r@ == self@,
    {
        TypefaceKey {
            family_lc: self.family_lc.clone(),
            weight: self.weight,
            italic: self.italic,
        }
    }
}

/// Why a font could not be registered.
#[derive(Debug)]
pub enum RegisterError {
    /// The bytes hold no face.
    InvalidFontData { family: String, variant: EmbeddedFontVariant },
}

/// Which rule gave an answer.
#[derive(Clone, Copy, PartialEq, Eq, Debug, Structural)]
pub enum ResolveRule {
    /// The document carries the font.
    Embedded,
    /// The host has the family.
    Exact,
    /// The name is that of a face, or of a family with a weight.
    Alias,
    /// The name is that of a family with style words behind it.
    StyleSuffix,
    /// Another family stands in.
    Substitution(SubstKind),
    /// The sans-serif of the host stands in: a property of the machine.
    Generic,
    /// The host has not even its own sans-serif; some face stands in.
    LastResort,
    /// There is no face at all.
    NoFace,
}

/// What a rule is called.
pub open spec fn rule_name(rule: ResolveRule) -> Seq<char> {
    match rule {
        ResolveRule::Embedded => "embedded"@,
        ResolveRule::Exact => "exact"@,
        ResolveRule::Alias => "alias"@,
        ResolveRule::StyleSuffix => "style_suffix"@,
        ResolveRule::Substitution(SubstKind::Metric) => "substitution_metric"@,
        ResolveRule::Substitution(SubstKind::Visual) => "substitution_visual"@,
        ResolveRule::Generic => "generic"@,
        ResolveRule::LastResort => "last_resort"@,
        ResolveRule::NoFace => "none"@,
    }
}

/// Whether a rule gives the same geometry on another host that has the named
/// fonts.
pub open spec fn is_deterministic(rule: ResolveRule) -> bool {
    ||| rule is Embedded
    ||| rule is Exact
    ||| rule is Alias
    ||| rule is StyleSuffix
    ||| rule == ResolveRule::Substitution(SubstKind::Metric)
}

impl ResolveRule {
    pub fn name(self) -> (r: &'static str)
        ensures
            r@ == rule_name(self),
    {
        match self {
            ResolveRule::Embedded => "embedded",
            ResolveRule::Exact => "exact",
            ResolveRule::Alias => "alias",
            ResolveRule::StyleSuffix => "style_suffix",
            ResolveRule::Substitution(SubstKind::Metric) => "substitution_metric",
            ResolveRule::Substitution(SubstKind::Visual) => "substitution_visual",
            ResolveRule::Generic => "generic",
            ResolveRule::LastResort => "last_resort",
            ResolveRule::NoFace => "none",
        }
    }

    pub fn deterministic(self) -> (r: bool)
        ensures
            r == is_deterministic(self),
    {
        match self {
            ResolveRule::Embedded => true,
            ResolveRule::Exact => true,
            ResolveRule::Alias => true,
            ResolveRule::StyleSuffix => true,
            ResolveRule::Substitution(SubstKind::Metric) => true,
            _ => false,
        }
    }
}

/// A font that was registered as embedded.
#[derive(Debug)]
struct EmbeddedRecord {
    family: String,
    family_lc: String,
    variant: EmbeddedFontVariant,
    face: fontdb::ID,
}

/// What a registered font is.
pub struct Registered {
    pub family: Seq<char>,
    pub key: Seq<char>,
    pub variant: EmbeddedFontVariant,
    pub face: fontdb::ID,
}

impl View for EmbeddedRecord {
    type V = Registered;

    closed spec fn view(&self) -> Registered {
        Registered {
            family: self.family@,
            key: self.family_lc@,
            variant: self.variant,
            face: self.face,
        }
    }
}

/// What registered fonts are.
spec fn record_views(all: Seq<EmbeddedRecord>) -> Seq<Registered> {
    all.map_values(|r: EmbeddedRecord| r@)
}

/// The place of the font that was registered last under a name and a variant.
pub open spec fn last_registered(
    all: Seq<Registered>,
    key: Seq<char>,
    variant: EmbeddedFontVariant,
) -> Option<int>
    decreases all.len(),
{
    if all.len() == 0 {
        None
    } else if all.last().key == key && all.last().variant == variant {
        Some(all.len() - 1)
    } else {
        last_registered(all.drop_last(), key, variant)
    }
}

/// An answer that is kept.
#[derive(Debug)]
struct CachedFace {
    key: TypefaceKey,
    entry: TypefaceEntry,
    rule: ResolveRule,
}

/// What is kept of an answer.
pub struct Answer {
    pub key: KeyView,
    pub entry: TypefaceEntry,
    pub rule: ResolveRule,
}

impl View for CachedFace {
    type V = Answer;

    closed spec fn view(&self) -> Answer {
        Answer { key: self.key@, entry: self.entry, rule: self.rule }
    }
}

/// What is kept of answers.
spec fn answer_views(all: Seq<CachedFace>) -> Seq<Answer> {
    all.map_values(|c: CachedFace| c@)
}

/// The answer that is kept under a key.
pub open spec fn kept(all: Seq<Answer>, key: KeyView) -> Option<Answer>
    decreases all.len(),
{
    if all.len() == 0 {
        None
    } else if all.last().key == key {
        Some(all.last())
    } else {
        kept(all.drop_last(), key)
    }
}

/// The variant that a style asks for. From a weight of 600 on it is a bold one.
pub open spec fn variant_of(weight: u16, italic: bool) -> EmbeddedFontVariant {
    if weight >= 600 {
        if italic {
            EmbeddedFontVariant::BoldItalic
        } else {
            EmbeddedFontVariant::Bold
        }
    } else if italic {
        EmbeddedFontVariant::Italic
    } else {
        EmbeddedFontVariant::Regular
    }
}

/// The variant that a style asks for.
fn variant_for_style(weight: u16, italic: bool) -> (r: EmbeddedFontVariant)
    ensures
        r == variant_of(weight, italic),
{
    if weight >= 600 {
        if italic {
            EmbeddedFontVariant::BoldItalic
        } else {
            EmbeddedFontVariant::Bold
        }
    } else if italic {
        EmbeddedFontVariant::Italic
    } else {
        EmbeddedFontVariant::Regular
    }
}

/// A face of the host, found under an id.
pub open spec fn system_face(id: fontdb::ID) -> TypefaceEntry {
    TypefaceEntry { id, origin: TypefaceOrigin::System { typeface_id: TypefaceId(id) } }
}

/// A face of the host, found under an id.
fn system_entry(id: fontdb::ID) -> (r: TypefaceEntry)
    ensures
        r == system_face(id),
{
    TypefaceEntry { id, origin: TypefaceOrigin::System { typeface_id: TypefaceId(id) } }
}

/// What a registry knows.
pub struct RegistryView {
    pub faces: Seq<FaceView>,
    pub sans_serif: Seq<char>,
    pub embedded: Seq<Registered>,
    pub claims: Seq<Claim>,
    pub answers: Seq<Answer>,
}

/// An answer: a face, and the rule that gave it.
pub type Answered = Option<(TypefaceEntry, ResolveRule)>;

/// The face of the host that is nearest to a style within a family, as the
/// answer of a rule.
pub open spec fn by_family(
    r: RegistryView,
    family: Seq<char>,
    weight: u16,
    italic: bool,
    rule: ResolveRule,
) -> Answered {
    match nearest_face(r.faces, family, weight, italic) {
        Some(id) => Some((system_face(id), rule)),
        None => None,
    }
}

/// The font that the document carries for a family and a style.
pub open spec fn embedded_face(r: RegistryView, family: Seq<char>, style: FontStyle) -> Option<
    TypefaceEntry,
> {
    match last_registered(r.embedded, lowercase(family), variant_of(style.weight, style.italic)) {
        Some(k) => Some(
            TypefaceEntry {
                id: r.embedded[k].face,
                origin: TypefaceOrigin::Embedded { id: EmbeddedFontId(k as u32) },
            },
        ),
        None => None,
    }
}

/// The face of a family that a name stands for.
pub open spec fn by_alias(r: RegistryView, family: Seq<char>, style: FontStyle) -> Answered {
    match alias(r.claims, name_key(family)) {
        Some(c) => by_family(
            r,
            c.family,
            merged_weight(c.weight, style.weight),
            style.italic,
            ResolveRule::Alias,
        ),
        None => None,
    }
}

/// The face of the family that is left when the style words are taken off.
pub open spec fn by_suffix(r: RegistryView, family: Seq<char>, style: FontStyle) -> Answered {
    match stripped(family) {
        Some(base) => by_family(r, base, style.weight, style.italic, ResolveRule::StyleSuffix),
        None => None,
    }
}

/// The face of the first candidate that the host has.
pub open spec fn by_candidates(
    r: RegistryView,
    all: Seq<(Seq<char>, SubstKind)>,
    style: FontStyle,
) -> Answered
    decreases all.len(),
{
    if all.len() == 0 {
        None
    } else {
        let first = by_family(
            r,
            all[0].0,
            style.weight,
            style.italic,
            ResolveRule::Substitution(all[0].1),
        );
        if first is Some {
            first
        } else {
            by_candidates(r, all.skip(1), style)
        }
    }
}

/// The families tried before any face at all is taken.
pub open spec fn last_resorts() -> Seq<Seq<char>> {
    seq![
        "DejaVu Sans"@,
        "Liberation Sans"@,
        "Arial"@,
        "Helvetica"@,
        "Noto Sans"@,
        "FreeSans"@,
    ]
}

/// The face of the first family of a list that the host has, or any face.
pub open spec fn by_last_resort(r: RegistryView, names: Seq<Seq<char>>, style: FontStyle) -> Answered
    decreases names.len(),
{
    if names.len() == 0 {
        if r.faces.len() > 0 {
            Some((system_face(r.faces[0].id), ResolveRule::LastResort))
        } else {
            None
        }
    } else {
        let first = by_family(
            r,
            names[0],
            style.weight,
            style.italic,
            ResolveRule::LastResort,
        );
        if first is Some {
            first
        } else {
            by_last_resort(r, names.skip(1), style)
        }
    }
}

/// The one answer, or else the other.
pub open spec fn or_else(a: Answered, b: Answered) -> Answered {
    if a is Some {
        a
    } else {
        b
    }
}

/// What a family that the document carries answers.
pub open spec fn by_embedded(r: RegistryView, family: Seq<char>, style: FontStyle) -> Answered {
    match embedded_face(r, family, style) {
        Some(e) => Some((e, ResolveRule::Embedded)),
        None => None,
    }
}

/// What answers for a family and a style when no answer is kept.
pub open spec fn resolution(r: RegistryView, family: Seq<char>, style: FontStyle) -> Answered {
    or_else(
        by_embedded(r, family, style),
        or_else(
            by_family(r, family, style.weight, style.italic, ResolveRule::Exact),
            or_else(
                by_alias(r, family, style),
                or_else(
                    by_suffix(r, family, style),
                    or_else(
                        by_candidates(r, substitutes(family), style),
                        or_else(
                            by_family(
                                r,
                                r.sans_serif,
                                style.weight,
                                style.italic,
                                ResolveRule::Generic,
                            ),
                            by_last_resort(r, last_resorts(), style),
                        ),
                    ),
                ),
            ),
        ),
    )
}

/// What answers for a family and a style: what is kept, or else what is found.
pub open spec fn answered(r: RegistryView, family: Seq<char>, style: FontStyle) -> Answered {
    match kept(r.answers, key_of(family, style)) {
        Some(a) => Some((a.entry, a.rule)),
        None => resolution(r, family, style),
    }
}

/// What is known once a question has been answered: an answer that was not
/// kept is kept now.
pub open spec fn after_asking(r: RegistryView, family: Seq<char>, style: FontStyle) -> RegistryView {
    let key = key_of(family, style);
    if kept(r.answers, key) is Some {
        r
    } else {
        match resolution(r, family, style) {
            Some(a) => RegistryView {
                answers: r.answers.push(Answer { key, entry: a.0, rule: a.1 }),
                ..r
            },
            None => r,
        }
    }
}

/// The fonts of a host, the fonts that a document carries, and the answers
/// given so far.
pub struct FontRegistry {
    db: fontdb::Database,
    embedded: Vec<EmbeddedRecord>,
    aliases: Vec<AliasClaim>,
    cache: Vec<CachedFace>,
}

impl View for FontRegistry {
    type V = RegistryView;

    closed spec fn view(&self) -> RegistryView {
        RegistryView {
            faces: faces_of(self.db),
            sans_serif: sans_serif_of(self.db),
            embedded: record_views(self.embedded@),
            claims: claim_views(self.aliases@),
            answers: answer_views(self.cache@),
        }
    }
}

impl FontRegistry {
    /// The database of the host's fonts.
    pub closed spec fn database(&self) -> fontdb::Database {
        self.db
    }

    /// A registry over the fonts of a host, without embedded ones.
    pub fn new(db: fontdb::Database) -> (r: Self)
        ensures
            r.database() == db,
            r@ == (RegistryView {
                faces: faces_of(db),
                sans_serif: sans_serif_of(db),
                embedded: Seq::empty(),
                claims: claims_of(faces_of(db)),
                answers: Seq::empty(),
            }),
    {
        let faces: Vec<Face> = read_faces(&db);
        let aliases: Vec<AliasClaim> = read_claims(&faces);
        let r: FontRegistry = FontRegistry {
            db,
            embedded: Vec::new(),
            aliases,
            cache: Vec::new(),
        };
        assert(r@.embedded =~= Seq::empty());
        assert(r@.answers =~= Seq::empty());
        r
    }

    pub fn db(&self) -> (r: &fontdb::Database)
        ensures
            *r == self.database(),
    {
        &self.db
    }

    pub fn embedded_font_count(&self) -> (r: usize)
        ensures
            r == self@.embedded.len(),
    {
        self.embedded.len()
    }

    pub fn cached_typeface_count(&self) -> (r: usize)
        ensures
            r == self@.answers.len(),
    {
        self.cache.len()
    }

    /// The family and the variant of an embedded font.
    pub fn embedded_meta(&self, id: EmbeddedFontId) -> (r: (&str, EmbeddedFontVariant))
        requires
            id.0 < self@.embedded.len(),
        ensures
            r.0@ == self@.embedded[id.0 as int].family,
            r.1 == self@.embedded[id.0 as int].variant,
    {
        let k: usize = id.0 as usize;
        assert(self@.embedded[k as int] == self.embedded@[k as int]@);
        (self.embedded[k].family.as_str(), self.embedded[k].variant)
    }

    /// The font that the document carries for a family and a style.
    fn find_embedded(&self, family: &str, style: FontStyle) -> (r: Option<TypefaceEntry>)
        ensures
            r == embedded_face(self@, family@, style),
    {
        let key: String = to_lowercase(family);
        let variant: EmbeddedFontVariant = variant_for_style(style.weight, style.italic);
        let ghost all = self@.embedded;
        let mut i: usize = self.embedded.len();
        assert(all.take(i as int) =~= all);
        while i > 0
            invariant
                i <= self.embedded@.len(),
                all == record_views(self.embedded@),
                all == self@.embedded,
                key@ == lowercase(family@),
                variant == variant_of(style.weight, style.italic),
                last_registered(all, key@, variant) == last_registered(
                    all.take(i as int),
                    key@,
                    variant,
                ),
            decreases i,
        {
            let ghost part = all.take(i as int);
            assert(part.drop_last() =~= all.take(i - 1));
            assert(part.last() == self.embedded@[i - 1]@);
            let k: usize = i - 1;
            if self.embedded[k].variant == variant && str_eq(
                self.embedded[k].family_lc.as_str(),
                key.as_str(),
            ) {
                assert(last_registered(all, key@, variant) == Some(k as int));
                assert(all[k as int] == self.embedded@[k as int]@);
                return Some(
                    TypefaceEntry {
                        id: self.embedded[k].face,
                        origin: TypefaceOrigin::Embedded { id: EmbeddedFontId(k as u32) },
                    },
                );
            }
            i = k;
        }
        None
    }

    /// The face of the host that is nearest to a style within a family.
    fn query(&self, family: &str, weight: u16, italic: bool, rule: ResolveRule) -> (r: Answered)
        ensures
            r == by_family(self@, family@, weight, italic, rule),
    {
        match query_family(&self.db, family, weight, italic) {
            Some(id) => Some((system_entry(id), rule)),
            None => None,
        }
    }

    /// The face of a family that a name stands for.
    fn query_alias(&self, family: &str, style: FontStyle) -> (r: Answered)
        ensures
            r == by_alias(self@, family@, style),
    {
        let key: String = face_name_key(family);
        match find_alias(&self.aliases, key.as_str()) {
            Some(t) => self.query(
                t.0.as_str(),
                merged_alias_weight(t.1, style.weight),
                style.italic,
                ResolveRule::Alias,
            ),
            None => None,
        }
    }

    /// The face of the first candidate that the host has.
    fn query_candidates(&self, all: &Vec<(&'static str, SubstKind)>, style: FontStyle) -> (r:
        Answered)
        ensures
            r == by_candidates(self@, candidates(all@), style),
    {
        let ghost held = candidates(all@);
        let mut i: usize = 0;
        assert(held.skip(0) =~= held);
        while i < all.len()
            invariant
                i <= all@.len(),
                held == candidates(all@),
                by_candidates(self@, held, style) == by_candidates(
                    self@,
                    held.skip(i as int),
                    style,
                ),
            decreases all@.len() - i,
        {
            assert(held.skip(i as int)[0] == held[i as int]);
            assert(held.skip(i as int).skip(1) =~= held.skip(i + 1));
            let c: (&'static str, SubstKind) = all[i];
            let found: Answered = self.query(
                c.0,
                style.weight,
                style.italic,
                ResolveRule::Substitution(c.1),
            );
            if found.is_some() {
                return found;
            }
            i = i + 1;
        }
        None
    }

    /// The face of the first family of the last resorts that the host has, or
    /// any face.
    fn query_last_resorts(&self, style: FontStyle) -> (r: Answered)
        ensures
            r == by_last_resort(self@, last_resorts(), style),
    {
        let names: Vec<&'static str> = vec![
            "DejaVu Sans",
            "Liberation Sans",
            "Arial",
            "Helvetica",
            "Noto Sans",
            "FreeSans",
        ];
        let ghost held = views(names@);
        assert(held =~= last_resorts());
        let mut i: usize = 0;
        assert(held.skip(0) =~= held);
        while i < names.len()
            invariant
                i <= names@.len(),
                held == views(names@),
                held == last_resorts(),
                by_last_resort(self@, held, style) == by_last_resort(
                    self@,
                    held.skip(i as int),
                    style,
                ),
            decreases names@.len() - i,
        {
            assert(held.skip(i as int)[0] == held[i as int]);
            assert(held.skip(i as int).skip(1) =~= held.skip(i + 1));
            let found: Answered = self.query(
                names[i],
                style.weight,
                style.italic,
                ResolveRule::LastResort,
            );
            if found.is_some() {
                return found;
            }
            i = i + 1;
        }
        let faces: Vec<Face> = read_faces(&self.db);
        if faces.len() > 0 {
            assert(self@.faces[0] == faces@[0]@);
            Some((system_entry(faces[0].id), ResolveRule::LastResort))
        } else {
            None
        }
    }

    /// What answers for a family and a style, whatever is kept.
    fn resolve_uncached(&self, family: &str, style: FontStyle) -> (r: Answered)
        ensures
            r == resolution(self@, family@, style),
    {
        let embedded: Option<TypefaceEntry> = self.find_embedded(family, style);
        if let Some(e) = embedded {
            return Some((e, ResolveRule::Embedded));
        }
        let exact: Answered = self.query(family, style.weight, style.italic, ResolveRule::Exact);
        if exact.is_some() {
            return exact;
        }
        let aliased: Answered = self.query_alias(family, style);
        if aliased.is_some() {
            return aliased;
        }
        if let Some(base) = strip_style_suffix(family) {
            let found: Answered = self.query(
                base.as_str(),
                style.weight,
                style.italic,
                ResolveRule::StyleSuffix,
            );
            if found.is_some() {
                return found;
            }
        }
        let substituted: Answered = self.query_candidates(&substitutes_for(family), style);
        if substituted.is_some() {
            return substituted;
        }
        let sans_serif: String = sans_serif_name(&self.db);
        let generic: Answered = self.query(
            sans_serif.as_str(),
            style.weight,
            style.italic,
            ResolveRule::Generic,
        );
        if generic.is_some() {
            return generic;
        }
        self.query_last_resorts(style)
    }

    /// The answer that is kept under a key.
    fn recall(&self, key: &TypefaceKey) -> (r: Answered)
        ensures
            r == match kept(self@.answers, key@) {
                Some(a) => Some((a.entry, a.rule)),
                None => None,
            },
    {
        let ghost all = self@.answers;
        let mut i: usize = self.cache.len();
        assert(all.take(i as int) =~= all);
        while i > 0
            invariant
                i <= self.cache@.len(),
                all == answer_views(self.cache@),
                all == self@.answers,
                kept(all, key@) == kept(all.take(i as int), key@),
            decreases i,
        {
            let ghost part = all.take(i as int);
            assert(part.drop_last() =~= all.take(i - 1));
            assert(part.last() == self.cache@[i - 1]@);
            let k: usize = i - 1;
            if self.cache[k].key.same(key) {
                return Some((self.cache[k].entry, self.cache[k].rule));
            }
            i = k;
        }
        None
    }

    /// What answers for a family and a style. The answer is kept.
    fn ask(&mut self, family: &str, style: FontStyle) -> (r: Answered)
        ensures
            r == answered(old(self)@, family@, style),
            final(self)@ == after_asking(old(self)@, family@, style),
            final(self).database() == old(self).database(),
    {
        let key: TypefaceKey = TypefaceKey::new(family, style);
        let known: Answered = self.recall(&key);
        if known.is_some() {
            return known;
        }
        let found: Answered = self.resolve_uncached(family, style);
        if let Some(a) = found {
            let ghost before = self@;
            self.cache.push(CachedFace { key, entry: a.0, rule: a.1 });
            assert(self@.answers =~= before.answers.push(
                Answer { key: key_of(family@, style), entry: a.0, rule: a.1 },
            ));
        }
        found
    }

    /// The face for a family and a style. Embedded fonts win over those of the
    /// host. The answer is kept for the next time.
    pub fn resolve(&mut self, family: &str, style: FontStyle) -> (r: TypefaceEntry)
        requires
            old(self)@.faces.len() > 0,
        ensures
            answered(old(self)@, family@, style) is Some,
            r == (answered(old(self)@, family@, style)->0).0,
            final(self)@ == after_asking(old(self)@, family@, style),
            final(self).database() == old(self).database(),
    {
        proof {
            some_face_answers(self@, family@, style);
        }
        self.ask(family, style).unwrap().0
    }

    /// The rule that answers for a family and a style. Without any face there
    /// is no such rule.
    pub fn resolve_rule(&mut self, family: &str, style: FontStyle) -> (r: ResolveRule)
        ensures
            r == match answered(old(self)@, family@, style) {
                Some(a) => a.1,
                None => ResolveRule::NoFace,
            },
            final(self)@ == after_asking(old(self)@, family@, style),
            final(self).database() == old(self).database(),
    {
        match self.ask(family, style) {
            Some(a) => a.1,
            None => ResolveRule::NoFace,
        }
    }
}

/// The answers that are kept when a font is registered: those for another
/// family or another variant.
pub open spec fn unaffected(all: Seq<Answer>, key: Seq<char>, variant: EmbeddedFontVariant) -> Seq<
    Answer,
>
    decreases all.len(),
{
    if all.len() == 0 {
        Seq::empty()
    } else {
        let before = unaffected(all.drop_last(), key, variant);
        if concerns(all.last().key, key, variant) {
            before
        } else {
            before.push(all.last())
        }
    }
}

/// Whether a question is for a family and a variant.
pub open spec fn concerns(k: KeyView, family: Seq<char>, variant: EmbeddedFontVariant) -> bool {
    k.family == family && variant_of(k.weight, k.italic) == variant
}

/// A font as it is registered.
pub open spec fn as_registered(
    family: Seq<char>,
    variant: EmbeddedFontVariant,
    face: fontdb::ID,
) -> Registered {
    Registered { family, key: lowercase(family), variant, face }
}

/// Whether a registry has taken in a font: its faces have joined the others
/// under some ids, the first of them is registered under the next number, and
/// the answers that it concerns are forgotten.
pub open spec fn has_registered(
    before: RegistryView,
    after: RegistryView,
    family: Seq<char>,
    variant: EmbeddedFontVariant,
    ids: Seq<fontdb::ID>,
) -> bool {
    &&& ids.len() > 0
    &&& have_joined(before.faces, after.faces, ids)
    &&& after.embedded == before.embedded.push(as_registered(family, variant, ids[0]))
    &&& after.answers == unaffected(before.answers, lowercase(family), variant)
    &&& after.claims == before.claims
    &&& after.sans_serif == before.sans_serif
}

/// Whether a registry has taken in a font with such bytes.
pub open spec fn taken_in(
    before: RegistryView,
    after: RegistryView,
    family: Seq<char>,
    variant: EmbeddedFontVariant,
    bytes: Seq<u8>,
) -> bool {
    exists|ids: Seq<fontdb::ID>|
        ids.len() == faces_in(bytes) && #[trigger] has_registered(
            before,
            after,
            family,
            variant,
            ids,
        )
}

/// Whether a registry has refused a font: nothing is new.
pub open spec fn has_refused(before: RegistryView, after: RegistryView) -> bool {
    &&& have_joined(before.faces, after.faces, Seq::empty())
    &&& after.embedded == before.embedded
    &&& after.answers == before.answers
    &&& after.claims == before.claims
    &&& after.sans_serif == before.sans_serif
}

impl FontRegistry {
    /// Forgets the answers for a family and a variant.
    fn forget(&mut self, family_lc: &str, variant: EmbeddedFontVariant)
        ensures
            final(self)@ == (RegistryView {
                answers: unaffected(old(self)@.answers, family_lc@, variant),
                ..old(self)@
            }),
            final(self).database() == old(self).database(),
    {
        let ghost all = self@.answers;
        let mut left: Vec<CachedFace> = Vec::new();
        let mut i: usize = 0;
        assert(answer_views(left@) =~= unaffected(all.take(0), family_lc@, variant));
        while i < self.cache.len()
            invariant
                i <= self.cache@.len(),
                all == answer_views(self.cache@),
                answer_views(left@) == unaffected(all.take(i as int), family_lc@, variant),
            decreases self.cache@.len() - i,
        {
            assert(all.take(i + 1).drop_last() =~= all.take(i as int));
            assert(all.take(i + 1).last() == self.cache@[i as int]@);
            let c: &CachedFace = &self.cache[i];
            let hit: bool = variant_for_style(c.key.weight, c.key.italic) == variant && str_eq(
                c.key.family_lc.as_str(),
                family_lc,
            );
            if !hit {
                let ghost before = answer_views(left@);
                left.push(CachedFace { key: c.key.copy(), entry: c.entry, rule: c.rule });
                assert(answer_views(left@) =~= before.push(all[i as int]));
            }
            i = i + 1;
        }
        assert(all.take(i as int) =~= all);
        self.cache = left;
    }

    /// Registers a font that the document carries. From then on it answers for
    /// its family and variant.
    pub fn register_embedded(
        &mut self,
        family: &str,
        variant: EmbeddedFontVariant,
        bytes: Vec<u8>,
    ) -> (r: Result<EmbeddedFontId, RegisterError>)
        requires
            old(self)@.embedded.len() <= u32::MAX,
        ensures
            r is Ok <==> faces_in(bytes@) > 0,
            match r {
                Ok(id) => id.0 == old(self)@.embedded.len() && taken_in(
                    old(self)@,
                    final(self)@,
                    family@,
                    variant,
                    bytes@,
                ),
                Err(RegisterError::InvalidFontData { family: f, variant: v }) => f@ == family@ && v
                    == variant && has_refused(old(self)@, final(self)@),
            },
    {
        let ghost before = self@;
        let ids: Vec<fontdb::ID> = load_font(&mut self.db, bytes);
        if ids.len() == 0 {
            assert(ids@ =~= Seq::empty());
            return Err(
                RegisterError::InvalidFontData { family: family.to_owned(), variant },
            );
        }
        let face: fontdb::ID = ids[0];
        let id: EmbeddedFontId = EmbeddedFontId(self.embedded.len() as u32);
        let family_lc: String = to_lowercase(family);
        self.forget(family_lc.as_str(), variant);
        self.embedded.push(
            EmbeddedRecord { family: family.to_owned(), family_lc, variant, face },
        );
        assert(self@.embedded =~= before.embedded.push(as_registered(family@, variant, face)));
        assert(has_registered(before, self@, family@, variant, ids@));
        Ok(id)
    }
}

/// The face for a family and a style among the fonts that the document carries
/// and the families of the host, with nothing in their stead.
pub open spec fn exact_face(r: RegistryView, family: Seq<char>, style: FontStyle) -> Option<
    TypefaceEntry,
> {
    match embedded_face(r, family, style) {
        Some(e) => Some(e),
        None => match nearest_face(r.faces, family, style.weight, style.italic) {
            Some(id) => Some(system_face(id)),
            None => None,
        },
    }
}

/// The face for a family and a style among the fonts of the host, those in
/// memory left aside.
pub open spec fn host_face(r: RegistryView, family: Seq<char>, style: FontStyle) -> Option<
    TypefaceEntry,
> {
    match nearest_face(host_faces(r.faces), family, style.weight, style.italic) {
        Some(id) => Some(system_face(id)),
        None => None,
    }
}

/// The four styles that are asked for ahead of time.
pub open spec fn four_styles() -> Seq<FontStyle> {
    seq![
        FontStyle { weight: 400, italic: false },
        FontStyle { weight: 700, italic: false },
        FontStyle { weight: 400, italic: true },
        FontStyle { weight: 700, italic: true },
    ]
}

/// What is known once styles of a family have been asked for.
pub open spec fn after_styles(r: RegistryView, family: Seq<char>, styles: Seq<FontStyle>) -> RegistryView
    decreases styles.len(),
{
    if styles.len() == 0 {
        r
    } else {
        after_asking(after_styles(r, family, styles.drop_last()), family, styles.last())
    }
}

/// What is known once families have been asked for, in all four styles.
pub open spec fn after_families(r: RegistryView, families: Seq<Seq<char>>) -> RegistryView
    decreases families.len(),
{
    if families.len() == 0 {
        r
    } else {
        after_styles(after_families(r, families.drop_last()), families.last(), four_styles())
    }
}

/// Whether a registry has been offered a font.
pub open spec fn offered(before: RegistryView, after: RegistryView, font: EmbeddedFontView) -> bool {
    if faces_in(font.data) > 0 {
        taken_in(before, after, font.family, font.variant, font.data)
    } else {
        has_refused(before, after)
    }
}

/// Whether a registry has been offered fonts, one after the other.
pub open spec fn offered_all(
    before: RegistryView,
    after: RegistryView,
    fonts: Seq<EmbeddedFontView>,
) -> bool
    decreases fonts.len(),
{
    if fonts.len() == 0 {
        after == before
    } else {
        exists|between: RegistryView|
            offered_all(before, between, fonts.drop_last()) && #[trigger] offered(
                between,
                after,
                fonts.last(),
            )
    }
}

/// How many faces there are in fonts.
pub open spec fn faces_in_all(fonts: Seq<EmbeddedFontView>) -> nat
    decreases fonts.len(),
{
    if fonts.len() == 0 {
        0
    } else {
        faces_in_all(fonts.drop_last()) + faces_in(fonts.last().data)
    }
}

/// What a registry over the fonts of a host knows.
pub open spec fn fresh(db: fontdb::Database) -> RegistryView {
    RegistryView {
        faces: faces_of(db),
        sans_serif: sans_serif_of(db),
        embedded: Seq::empty(),
        claims: claims_of(faces_of(db)),
        answers: Seq::empty(),
    }
}

/// Whether a registry is over the fonts of a host and those of a document, with
/// some families asked for ahead of time.
pub open spec fn is_built(
    after: RegistryView,
    db: fontdb::Database,
    fonts: Seq<EmbeddedFontView>,
    families: Seq<Seq<char>>,
) -> bool {
    exists|between: RegistryView| #[trigger]
        offered_all(fresh(db), between, fonts) && after == after_families(
            RegistryView { claims: claims_of(between.faces), ..between },
            families,
        )
}

impl FontRegistry {
    /// A registry over the fonts of a host and those that a document carries,
    /// with families asked for ahead of time. A font without a face is passed
    /// over. Without any face at all there is no registry.
    pub fn build(
        db: fontdb::Database,
        embedded: &Vec<EmbeddedFont>,
        families: &Vec<String>,
    ) -> (r: Result<Self, RenderError>)
        requires
            embedded@.len() <= u32::MAX,
        ensures
            r is Ok <==> faces_of(db).len() + faces_in_all(font_views(embedded@)) > 0,
            r matches Ok(reg) ==> is_built(
                reg@,
                db,
                font_views(embedded@),
                texts(families@),
            ) && reg@.faces.len() > 0,
    {
        let mut reg: FontRegistry = FontRegistry::new(db);
        let ghost fonts = font_views(embedded@);
        let mut i: usize = 0;
        assert(reg@ == fresh(db));
        assert(offered_all(fresh(db), reg@, fonts.take(0)));
        while i < embedded.len()
            invariant
                i <= embedded@.len() <= u32::MAX,
                fonts == font_views(embedded@),
                offered_all(fresh(db), reg@, fonts.take(i as int)),
                reg@.embedded.len() <= i,
                reg@.faces.len() == faces_of(db).len() + faces_in_all(fonts.take(i as int)),
            decreases embedded@.len() - i,
        {
            let ghost between = reg@;
            let ghost part = fonts.take(i + 1);
            assert(part.drop_last() =~= fonts.take(i as int));
            assert(part.last() == embedded@[i as int]@);
            let font: &EmbeddedFont = &embedded[i];
            let r: Result<EmbeddedFontId, RegisterError> = reg.register_embedded(
                font.family.as_str(),
                font.variant,
                copy_bytes(&font.data),
            );
            assert(offered_all(fresh(db), between, part.drop_last()));
            assert(offered(between, reg@, part.last()));
            assert(offered_all(fresh(db), reg@, part));
            i = i + 1;
        }
        assert(fonts.take(i as int) =~= fonts);
        let faces: Vec<Face> = read_faces(&reg.db);
        assert(faces@.len() == reg@.faces.len()) by {
            assert(reg@.faces == face_views(faces@));
        }
        if faces.len() == 0 {
            return Err(RenderError::NoFontsAvailable);
        }
        let ghost between = reg@;
        reg.aliases = read_claims(&faces);
        assert(reg@ == (RegistryView { claims: claims_of(between.faces), ..between }));
        reg.preload(families);
        proof {
            asking_families_keeps_faces(
                RegistryView { claims: claims_of(between.faces), ..between },
                texts(families@),
            );
        }
        Ok(reg)
    }

    /// The face for a family and a style, or nothing: a face of another family
    /// never stands in.
    pub fn resolve_exact(&self, family: &str, style: FontStyle) -> (r: Option<TypefaceEntry>)
        ensures
            r == exact_face(self@, family@, style),
            r is Some <==> embedded_face(self@, family@, style) is Some || has_family(
                self@.faces,
                family@,
            ),
    {
        let embedded: Option<TypefaceEntry> = self.find_embedded(family, style);
        if embedded.is_some() {
            return embedded;
        }
        match query_family(&self.db, family, style.weight, style.italic) {
            Some(id) => Some(system_entry(id)),
            None => None,
        }
    }

    /// The face of the host for a family and a style, or nothing. Fonts in
    /// memory, as those are that a document carries, are passed over: they
    /// neither answer nor keep one of the host from answering.
    pub fn resolve_system_only(&self, family: &str, style: FontStyle) -> (r: Option<TypefaceEntry>)
        ensures
            r == host_face(self@, family@, style),
            r is Some <==> has_family(host_faces(self@.faces), family@),
            r matches Some(e) ==> names_face_of(host_faces(self@.faces), family@, e.id),
    {
        match query_host(&self.db, family, style.weight, style.italic) {
            Some(id) => Some(system_entry(id)),
            None => None,
        }
    }

    /// Asks for all four styles of each family.
    pub fn preload(&mut self, families: &Vec<String>)
        ensures
            final(self)@ == after_families(old(self)@, texts(families@)),
            final(self).database() == old(self).database(),
    {
        let ghost before = self@;
        let ghost names = texts(families@);
        let mut i: usize = 0;
        while i < families.len()
            invariant
                i <= families@.len(),
                names == texts(families@),
                self@ == after_families(before, names.take(i as int)),
                self.database() == old(self).database(),
            decreases families@.len() - i,
        {
            let ghost part = names.take(i + 1);
            assert(part.drop_last() =~= names.take(i as int));
            assert(part.last() == families@[i as int]@);
            self.preload_family(families[i].as_str());
            i = i + 1;
        }
        assert(names.take(i as int) =~= names);
    }

    /// Asks for all four styles of a family.
    fn preload_family(&mut self, family: &str)
        ensures
            final(self)@ == after_styles(old(self)@, family@, four_styles()),
            final(self).database() == old(self).database(),
    {
        let ghost before = self@;
        let ghost all = four_styles();
        let a: Answered = self.ask(family, FontStyle::normal());
        let b: Answered = self.ask(family, FontStyle::bold());
        let c: Answered = self.ask(family, FontStyle::italic());
        let d: Answered = self.ask(family, FontStyle::bold_italic());
        proof {
            assert(all.drop_last().drop_last().drop_last().drop_last() =~= Seq::empty());
            reveal_with_fuel(after_styles, 5);
        }
    }

    /// All answers that are kept, in the order in which they were given.
    pub fn cached_entries(&self) -> (r: Vec<(TypefaceKey, TypefaceEntry)>)
        ensures
            r@.len() == self@.answers.len(),
            forall|i: int|
                0 <= i < r@.len() ==> (#[trigger] r@[i]).0@ == self@.answers[i].key && r@[i].1
                    == self@.answers[i].entry,
    {
        let mut out: Vec<(TypefaceKey, TypefaceEntry)> = Vec::new();
        let mut i: usize = 0;
        while i < self.cache.len()
            invariant
                i <= self.cache@.len(),
                out@.len() == i,
                forall|k: int|
                    0 <= k < i ==> (#[trigger] out@[k]).0@ == self@.answers[k].key && out@[k].1
                        == self@.answers[k].entry,
            decreases self.cache@.len() - i,
        {
            assert(self@.answers[i as int] == self.cache@[i as int]@);
            out.push((self.cache[i].key.copy(), self.cache[i].entry));
            i = i + 1;
        }
        out
    }
}

/// Asking for styles changes no faces.
proof fn asking_styles_keeps_faces(r: RegistryView, family: Seq<char>, styles: Seq<FontStyle>)
    ensures
        after_styles(r, family, styles).faces == r.faces,
    decreases styles.len(),
{
    if styles.len() > 0 {
        asking_styles_keeps_faces(r, family, styles.drop_last());
    }
}

/// Asking for families changes no faces.
proof fn asking_families_keeps_faces(r: RegistryView, families: Seq<Seq<char>>)
    ensures
        after_families(r, families).faces == r.faces,
    decreases families.len(),
{
    if families.len() > 0 {
        asking_families_keeps_faces(r, families.drop_last());
        asking_styles_keeps_faces(
            after_families(r, families.drop_last()),
            families.last(),
            four_styles(),
        );
    }
}

/// No answer that a font concerns is left once it is registered.
proof fn concerned_answers_are_forgotten(
    all: Seq<Answer>,
    family: Seq<char>,
    variant: EmbeddedFontVariant,
    key: KeyView,
)
    ensures
        kept(unaffected(all, family, variant), key) == (if concerns(key, family, variant) {
            None
        } else {
            kept(all, key)
        }),
    decreases all.len(),
{
    if all.len() > 0 {
        let before = unaffected(all.drop_last(), family, variant);
        concerned_answers_are_forgotten(all.drop_last(), family, variant, key);
        assert(before.push(all.last()).drop_last() =~= before);
    }
}

/// A font that was registered answers from then on for its family, however its
/// name is written in upper and lower case, and its variant. This holds also
/// where something else answered before.
pub proof fn a_registered_font_answers(
    before: RegistryView,
    after: RegistryView,
    family: Seq<char>,
    variant: EmbeddedFontVariant,
    ids: Seq<fontdb::ID>,
    asked: Seq<char>,
    style: FontStyle,
)
    requires
        has_registered(before, after, family, variant, ids),
        lowercase(asked) == lowercase(family),
        variant_of(style.weight, style.italic) == variant,
    ensures
        answered(after, asked, style) == Some(
            (
                TypefaceEntry {
                    id: ids[0],
                    origin: TypefaceOrigin::Embedded {
                        id: EmbeddedFontId(before.embedded.len() as u32),
                    },
                },
                ResolveRule::Embedded,
            ),
        ),
{
    concerned_answers_are_forgotten(
        before.answers,
        lowercase(family),
        variant,
        key_of(asked, style),
    );
}

/// Registering a font leaves the answers for other families and variants.
pub proof fn other_answers_stay(
    before: RegistryView,
    after: RegistryView,
    family: Seq<char>,
    variant: EmbeddedFontVariant,
    ids: Seq<fontdb::ID>,
    key: KeyView,
)
    requires
        has_registered(before, after, family, variant, ids),
        !concerns(key, lowercase(family), variant),
    ensures
        kept(after.answers, key) == kept(before.answers, key),
{
    concerned_answers_are_forgotten(before.answers, lowercase(family), variant, key);
}

/// Whoever asks again gets the same answer, and nothing more is kept.
pub proof fn asking_again_gives_the_same_answer(
    r: RegistryView,
    family: Seq<char>,
    style: FontStyle,
)
    ensures
        answered(after_asking(r, family, style), family, style) == answered(r, family, style),
        after_asking(after_asking(r, family, style), family, style) == after_asking(
            r,
            family,
            style,
        ),
{
}

/// Asking changes no answer that is kept.
pub proof fn asking_keeps_what_is_kept(
    r: RegistryView,
    family: Seq<char>,
    style: FontStyle,
    key: KeyView,
)
    requires
        kept(r.answers, key) is Some,
    ensures
        kept(after_asking(r, family, style).answers, key) == kept(r.answers, key),
{
    let asked = key_of(family, style);
    if kept(r.answers, asked) is None {
        match resolution(r, family, style) {
            Some(a) => {
                let more = r.answers.push(Answer { key: asked, entry: a.0, rule: a.1 });
                assert(more.drop_last() =~= r.answers);
            },
            None => {},
        }
    }
}

/// Whether no two answers are kept under one key.
pub open spec fn keys_differ(all: Seq<Answer>) -> bool {
    forall|i: int, j: int| 0 <= i < j < all.len() ==> (#[trigger] all[i]).key != (#[trigger] all[j]).key
}

/// Nothing is kept under a key exactly where no answer has it.
proof fn kept_means_present(all: Seq<Answer>, key: KeyView)
    ensures
        kept(all, key) is None <==> forall|i: int|
            0 <= i < all.len() ==> (#[trigger] all[i]).key != key,
    decreases all.len(),
{
    if all.len() > 0 {
        let shorter = all.drop_last();
        kept_means_present(shorter, key);
        assert(forall|i: int| 0 <= i < shorter.len() ==> all[i] == shorter[i]);
        assert(all[all.len() - 1] == all.last());
        if kept(all, key) is None {
            assert forall|i: int| 0 <= i < all.len() implies (#[trigger] all[i]).key != key by {
                if i < shorter.len() {
                    assert(shorter[i].key != key);
                }
            }
        }
    }
}

/// Asking keeps at most one answer under each key.
pub proof fn one_answer_is_kept_for_a_key(r: RegistryView, family: Seq<char>, style: FontStyle)
    requires
        keys_differ(r.answers),
    ensures
        keys_differ(after_asking(r, family, style).answers),
{
    kept_means_present(r.answers, key_of(family, style));
}

/// A family that the host has, and that the document does not carry, answers
/// for itself.
pub proof fn a_family_of_the_host_answers_for_itself(
    r: RegistryView,
    family: Seq<char>,
    style: FontStyle,
)
    requires
        embedded_face(r, family, style) is None,
        nearest_face(r.faces, family, style.weight, style.italic) is Some,
    ensures
        resolution(r, family, style) == Some(
            (
                system_face(
                    nearest_face(r.faces, family, style.weight, style.italic)->0,
                ),
                ResolveRule::Exact,
            ),
        ),
{
}

/// Where neither the document nor the host has a family, under its own name, as
/// an alias, without style words or as a substitute, the answer is marked as a
/// property of the machine.
pub proof fn a_guess_is_marked(r: RegistryView, family: Seq<char>, style: FontStyle)
    requires
        r.faces.len() > 0,
        embedded_face(r, family, style) is None,
        nearest_face(r.faces, family, style.weight, style.italic) is None,
        by_alias(r, family, style) is None,
        by_suffix(r, family, style) is None,
        by_candidates(r, substitutes(family), style) is None,
    ensures
        resolution(r, family, style) matches Some(a) && !is_deterministic(a.1),
{
    a_last_resort_is_marked(r, last_resorts(), style);
}

/// A last resort is marked as such.
proof fn a_last_resort_is_marked(r: RegistryView, names: Seq<Seq<char>>, style: FontStyle)
    requires
        r.faces.len() > 0,
    ensures
        by_last_resort(r, names, style) matches Some(a) && a.1 == ResolveRule::LastResort,
    decreases names.len(),
{
    if names.len() > 0 {
        a_last_resort_is_marked(r, names.skip(1), style);
    }
}

/// Where there is a face at all, something answers.
pub proof fn some_face_answers(r: RegistryView, family: Seq<char>, style: FontStyle)
    requires
        r.faces.len() > 0,
    ensures
        resolution(r, family, style) is Some,
        answered(r, family, style) is Some,
{
    the_last_resort_answers(r, last_resorts(), style);
}

/// Where there is a face at all, a last resort answers.
proof fn the_last_resort_answers(r: RegistryView, names: Seq<Seq<char>>, style: FontStyle)
    requires
        r.faces.len() > 0,
    ensures
        by_last_resort(r, names, style) is Some,
    decreases names.len(),
{
    if names.len() > 0 {
        the_last_resort_answers(r, names.skip(1), style);
    }
}

} // verus!
