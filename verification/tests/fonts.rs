use liteparse_ooxml::model::font::{EmbeddedFont, EmbeddedFontVariant};
use liteparse_ooxml::render::error::RenderError;
use liteparse_ooxml::render::font_names::{
    canonical_weight_names, merged_alias_weight, strip_style_suffix, substitutes_for, SubstKind,
};
use liteparse_ooxml::render::fonts::{
    EmbeddedFontId, FontRegistry, FontStyle, RegisterError, ResolveRule, TypefaceKey,
    TypefaceOrigin,
};

#[test]
fn style_suffix_strips_trailing_style_words() {
    assert_eq!(
        strip_style_suffix("Times New Roman Bold").as_deref(),
        Some("Times New Roman")
    );
    assert_eq!(strip_style_suffix("Foo Bold Italic").as_deref(), Some("Foo"));
    assert_eq!(strip_style_suffix("Times New Roman"), None);
    assert_eq!(strip_style_suffix("Century Schoolbook"), None);
    assert_eq!(strip_style_suffix("Bold"), None);
}

#[test]
fn substitution_lookup_reaches_family_through_face_name() {
    assert!(!substitutes_for("Calibri").is_empty());
    assert!(!substitutes_for("Calibri Light Italic").is_empty());
    assert!(substitutes_for("Comic Sans MS").is_empty());
}

#[test]
fn merged_weight_ignores_content_free_normal() {
    assert_eq!(merged_alias_weight(300, 400), 300);
    assert_eq!(merged_alias_weight(300, 700), 700);
    assert_eq!(merged_alias_weight(900, 700), 900);
}

fn host() -> fontdb::Database {
    let mut db = fontdb::Database::new();
    db.load_system_fonts();
    db
}

#[test]
fn resolve_is_total_and_records_a_rule() {
    let mut reg = FontRegistry::new(host());
    if reg.db().faces().next().is_none() {
        return;
    }
    let _ = reg.resolve("Definitely Not A Font 123", FontStyle::normal());
    let rule = reg.resolve_rule("Definitely Not A Font 123", FontStyle::normal());
    assert!(
        !rule.deterministic(),
        "an unknown family must be flagged host-dependent, got {rule:?}"
    );
    let first_family = reg
        .db()
        .faces()
        .next()
        .and_then(|f| f.families.first().map(|(n, _)| n.clone()))
        .unwrap();
    let _ = reg.resolve(&first_family, FontStyle::normal());
    assert_eq!(reg.resolve_rule(&first_family, FontStyle::normal()).name(), "exact");
}

#[test]
fn case_and_spaces_do_not_hide_a_style_word() {
    assert_eq!(strip_style_suffix("  Foo   bar  ITALIC ").as_deref(), Some("Foo bar"));
    assert_eq!(strip_style_suffix(""), None);
}

#[test]
fn rows_name_the_clones_first() {
    assert_eq!(
        substitutes_for("ARIAL"),
        vec![
            ("Liberation Sans", SubstKind::Metric),
            ("Arimo", SubstKind::Metric),
            ("Helvetica", SubstKind::Visual),
        ]
    );
    assert_eq!(substitutes_for("Calibri Light"), vec![("Carlito", SubstKind::Visual)]);
    assert_eq!(
        substitutes_for("Helvetica")[2..],
        [("Arial", SubstKind::Visual), ("Liberation Sans", SubstKind::Visual)]
    );
}

#[test]
fn weights_have_names() {
    assert_eq!(canonical_weight_names(300), vec!["Light"]);
    assert_eq!(canonical_weight_names(100), vec!["Thin", "Hairline"]);
    assert!(canonical_weight_names(350).is_empty());
}

#[test]
fn styles_come_from_flags() {
    assert_eq!(FontStyle::from_flags(false, false), FontStyle::normal());
    assert_eq!(FontStyle::from_flags(true, false), FontStyle::bold());
    assert_eq!(FontStyle::from_flags(false, true), FontStyle::italic());
    assert_eq!(FontStyle::from_flags(true, true), FontStyle::bold_italic());
}

#[test]
fn keys_are_in_lower_case() {
    let key = TypefaceKey::new("Ärial NARROW", FontStyle::bold());
    assert_eq!(key.family_lc, "ärial narrow");
    assert_eq!((key.weight, key.italic), (700, false));
}

#[test]
fn rules_have_names_and_only_some_hold_everywhere() {
    let told = [
        (ResolveRule::Embedded, "embedded", true),
        (ResolveRule::Exact, "exact", true),
        (ResolveRule::Alias, "alias", true),
        (ResolveRule::StyleSuffix, "style_suffix", true),
        (ResolveRule::Substitution(SubstKind::Metric), "substitution_metric", true),
        (ResolveRule::Substitution(SubstKind::Visual), "substitution_visual", false),
        (ResolveRule::Generic, "generic", false),
        (ResolveRule::LastResort, "last_resort", false),
        (ResolveRule::NoFace, "none", false),
    ];
    for (rule, name, holds) in told {
        assert_eq!(rule.name(), name);
        assert_eq!(rule.deterministic(), holds);
    }
}

#[test]
fn without_any_face_no_rule_answers() {
    let mut reg = FontRegistry::new(fontdb::Database::new());
    assert_eq!(reg.resolve_rule("Arial", FontStyle::normal()), ResolveRule::NoFace);
    assert_eq!(reg.cached_typeface_count(), 0);
    assert!(reg.resolve_exact("Arial", FontStyle::normal()).is_none());
    assert!(reg.resolve_system_only("Arial", FontStyle::normal()).is_none());
    let built = FontRegistry::build(fontdb::Database::new(), &vec![], &vec![]);
    assert!(matches!(built, Err(RenderError::NoFontsAvailable)));
    assert!(RenderError::NoFontsAvailable.message().starts_with("no fonts available"));
}

#[test]
fn bytes_that_are_no_font_are_refused() {
    let mut reg = FontRegistry::new(fontdb::Database::new());
    match reg.register_embedded("Foo", EmbeddedFontVariant::Bold, b"no font".to_vec()) {
        Err(RegisterError::InvalidFontData { family, variant }) => {
            assert_eq!(family, "Foo");
            assert_eq!(variant, EmbeddedFontVariant::Bold);
        }
        Ok(_) => panic!("expected a refusal"),
    }
    assert_eq!(reg.embedded_font_count(), 0);
}

/// A face with names of its own, and no font behind it.
fn face(family: &str, name: &str, weight: u16, style: fontdb::Style) -> fontdb::FaceInfo {
    fontdb::FaceInfo {
        id: fontdb::ID::dummy(),
        source: fontdb::Source::File("nowhere.ttf".into()),
        index: 0,
        families: vec![(family.to_string(), fontdb::Language::English_UnitedStates)],
        post_script_name: name.to_string(),
        style,
        weight: fontdb::Weight(weight),
        stretch: fontdb::Stretch::Normal,
        monospaced: false,
    }
}

fn registry(faces: &[(&str, &str, u16)]) -> FontRegistry {
    let mut db = fontdb::Database::new();
    for (family, name, weight) in faces {
        db.push_face_info(face(family, name, *weight, fontdb::Style::Normal));
    }
    FontRegistry::new(db)
}

fn rule_of(reg: &mut FontRegistry, family: &str) -> ResolveRule {
    reg.resolve_rule(family, FontStyle::normal())
}

#[test]
fn each_rule_answers_in_its_turn() {
    let mut reg = registry(&[
        ("Foo", "Foo-Regular", 400),
        ("Foo", "Foo-Light", 300),
        ("Liberation Sans", "LiberationSans", 400),
        ("Helvetica", "Helvetica", 400),
    ]);
    assert_eq!(rule_of(&mut reg, "Foo"), ResolveRule::Exact);
    assert_eq!(rule_of(&mut reg, "foo light"), ResolveRule::Alias);
    assert_eq!(rule_of(&mut reg, "Foo-Light"), ResolveRule::Alias);
    assert_eq!(rule_of(&mut reg, "Foo Oblique"), ResolveRule::StyleSuffix);
    assert_eq!(rule_of(&mut reg, "Arial"), ResolveRule::Substitution(SubstKind::Metric));
    assert_eq!(rule_of(&mut reg, "Nothing"), ResolveRule::LastResort);
    let light = reg.resolve("Foo Light", FontStyle::normal());
    let weight = reg.db().face(light.id).unwrap().weight;
    assert_eq!(weight, fontdb::Weight(300));
}

#[test]
fn a_name_that_two_families_claim_answers_for_neither() {
    let mut reg = registry(&[("Foo", "Same", 400), ("Bar", "Same", 400), ("Foo", "Own", 700)]);
    assert_eq!(rule_of(&mut reg, "Same"), ResolveRule::LastResort);
    assert_eq!(rule_of(&mut reg, "Own"), ResolveRule::Alias);
}

#[test]
fn the_sans_serif_of_the_host_is_marked_as_such() {
    let mut db = fontdb::Database::new();
    db.push_face_info(face("Foo", "Foo", 400, fontdb::Style::Normal));
    db.push_face_info(face("House Sans", "HouseSans", 400, fontdb::Style::Normal));
    db.set_sans_serif_family("House Sans");
    let mut reg = FontRegistry::new(db);
    assert_eq!(rule_of(&mut reg, "Nothing"), ResolveRule::Generic);
    let found = reg.resolve("Nothing", FontStyle::normal());
    assert_eq!(reg.db().face(found.id).unwrap().families[0].0, "House Sans");
}

#[test]
fn asking_again_keeps_one_answer() {
    let mut reg = registry(&[("Foo", "Foo", 400)]);
    let first = reg.resolve("Foo", FontStyle::normal());
    let again = reg.resolve("FOO", FontStyle::normal());
    assert_eq!(first.id, again.id);
    assert_eq!(reg.cached_typeface_count(), 1);
    let kept = reg.cached_entries();
    assert_eq!(kept.len(), 1);
    assert_eq!(kept[0].0.family_lc, "foo");
    assert!(matches!(kept[0].1.origin, TypefaceOrigin::System { .. }));
}

#[test]
fn four_styles_are_asked_for_ahead_of_time() {
    let mut reg = registry(&[("Foo", "Foo", 400)]);
    reg.preload(&vec!["Foo".to_string(), "Bar".to_string(), "foo".to_string()]);
    assert_eq!(reg.cached_typeface_count(), 8);
}

#[test]
fn nothing_stands_in_for_an_exact_family() {
    let reg = registry(&[("Foo", "Foo-Regular", 400)]);
    assert!(reg.resolve_exact("Foo", FontStyle::bold()).is_some());
    assert!(reg.resolve_exact("Foo-Regular", FontStyle::normal()).is_none());
    assert!(reg.resolve_system_only("Foo", FontStyle::normal()).is_some());
}

#[test]
fn an_embedded_font_does_not_hide_one_of_the_host() {
    // The font in memory is upright and of normal weight, the host's is bold.
    let mut reg = registry(&[("Foo", "Foo-Bold", 700)]);
    let host = reg.resolve_system_only("Foo", FontStyle::normal()).unwrap();
    let bytes = font_bytes("Foo", "Foo-Regular");
    reg.register_embedded("Foo", EmbeddedFontVariant::Regular, bytes).unwrap();
    let exact = reg.resolve_exact("Foo", FontStyle::normal()).unwrap();
    assert!(matches!(exact.origin, TypefaceOrigin::Embedded { .. }));
    assert_ne!(exact.id, host.id);
    let again = reg.resolve_system_only("Foo", FontStyle::normal()).unwrap();
    assert_eq!(again.id, host.id);
    assert!(matches!(again.origin, TypefaceOrigin::System { .. }));
    assert_eq!(reg.db().len(), 2);
}

/// The bytes of a font that holds nothing but its names.
fn font_bytes(family: &str, name: &str) -> Vec<u8> {
    let utf16 = |s: &str| s.encode_utf16().flat_map(|u| u.to_be_bytes()).collect::<Vec<u8>>();
    let (family, name) = (utf16(family), utf16(name));
    let mut names: Vec<u8> = Vec::new();
    for n in [0u16, 2, 30] {
        names.extend(n.to_be_bytes());
    }
    for (id, text, at) in [(1u16, &family, 0), (6, &name, family.len())] {
        for n in [3u16, 1, 0x409, id, text.len() as u16, at as u16] {
            names.extend(n.to_be_bytes());
        }
    }
    names.extend(&family);
    names.extend(&name);
    let mut font: Vec<u8> = vec![0, 1, 0, 0, 0, 1, 0, 0, 0, 0, 0, 0];
    font.extend(b"name");
    for n in [0u32, 28, names.len() as u32] {
        font.extend(n.to_be_bytes());
    }
    font.extend(names);
    font
}

#[test]
fn an_embedded_font_answers_even_where_another_did() {
    let bytes = font_bytes("Bar", "Bar-Bold");
    let mut reg = registry(&[("Foo", "Foo", 400)]);
    let before = reg.resolve("Foo", FontStyle::bold());
    assert!(matches!(before.origin, TypefaceOrigin::System { .. }));
    let id = reg.register_embedded("FOO", EmbeddedFontVariant::Bold, bytes.clone()).unwrap();
    assert_eq!(id, EmbeddedFontId(0));
    assert_eq!(reg.embedded_meta(id), ("FOO", EmbeddedFontVariant::Bold));
    let after = reg.resolve("Foo", FontStyle::bold());
    assert!(matches!(after.origin, TypefaceOrigin::Embedded { id } if id.raw() == 0));
    assert_eq!(reg.resolve_rule("foo", FontStyle::bold()), ResolveRule::Embedded);
    assert_eq!(reg.resolve_rule("Foo", FontStyle::normal()), ResolveRule::Exact);
    let again = reg.register_embedded("Foo", EmbeddedFontVariant::Bold, bytes).unwrap();
    assert_eq!(again.raw(), 1);
    let latest = reg.resolve("Foo", FontStyle::bold());
    assert!(matches!(latest.origin, TypefaceOrigin::Embedded { id } if id.raw() == 1));
}

#[test]
fn a_registry_takes_in_the_fonts_of_a_document() {
    let bytes = font_bytes("Inner Name", "Inner-Name");
    let fonts = vec![
        EmbeddedFont {
            family: "Broken".to_string(),
            variant: EmbeddedFontVariant::Regular,
            data: vec![1, 2, 3],
        },
        EmbeddedFont {
            family: "Carried".to_string(),
            variant: EmbeddedFontVariant::Regular,
            data: bytes,
        },
    ];
    let families = vec!["Carried".to_string()];
    let mut reg = FontRegistry::build(fontdb::Database::new(), &fonts, &families)
        .ok()
        .expect("one font can be read");
    assert_eq!(reg.embedded_font_count(), 1);
    assert_eq!(reg.cached_typeface_count(), 4);
    assert_eq!(rule_of(&mut reg, "Carried"), ResolveRule::Embedded);
    assert_eq!(rule_of(&mut reg, "Inner-Name"), ResolveRule::Alias);
    assert!(reg.resolve_system_only("Inner Name", FontStyle::normal()).is_none());
    assert!(reg.resolve_exact("Inner Name", FontStyle::normal()).is_some());
}
