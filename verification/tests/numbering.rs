use liteparse_ooxml::docx::numbering::{parse_numbering, LevelSuffix};
use liteparse_ooxml::error::ParseError;


/// `1.0` is never taken for the id 1.
#[test]
fn non_integer_numbering_ids_are_dropped_never_coerced() {
    let xml = br#"<w:numbering xmlns:w="http://schemas.openxmlformats.org/wordprocessingml/2006/main"><w:abstractNum w:abstractNumId="1.0"/></w:numbering>"#;
    let defs = parse_numbering(xml).expect("a bad id must not fail the document");
    assert!(
        defs.abstract_nums.is_empty(),
        "\"1.0\" must not be keyed as any id"
    );
}

/// A malformed definition must not take its well-formed siblings with it.
#[test]
fn a_bad_numbering_id_does_not_discard_valid_definitions() {
    let xml = br#"
      <w:numbering xmlns:w="http://schemas.openxmlformats.org/wordprocessingml/2006/main">
        <w:abstractNum w:abstractNumId="bogusValue"><w:lvl w:ilvl="0"><w:lvlText w:val="X%1"/></w:lvl></w:abstractNum>
        <w:abstractNum w:abstractNumId="2"><w:lvl w:ilvl="0"><w:lvlText w:val="B%1"/></w:lvl></w:abstractNum>
        <w:num w:numId="12"><w:abstractNumId w:val="2"/></w:num>
      </w:numbering>"#;
    let defs = parse_numbering(xml).unwrap();
    assert_eq!(defs.abstract_nums.len(), 1);
    assert!(defs.abstract_nums.contains_key(&2));
    assert_eq!(defs.numbering_instances.len(), 1);
}

#[test]
fn repeated_abstract_and_concrete_numbering_definitions_are_collected() {
    let xml = br#"
      <w:numbering xmlns:w="http://schemas.openxmlformats.org/wordprocessingml/2006/main">
        <w:abstractNum w:abstractNumId="1"><w:lvl w:ilvl="0"><w:lvlText w:val="A%1"/></w:lvl></w:abstractNum>
        <w:num w:numId="11"><w:abstractNumId w:val="1"/></w:num>
        <w:abstractNum w:abstractNumId="2"><w:lvl w:ilvl="0"><w:lvlText w:val="B%1"/></w:lvl></w:abstractNum>
        <w:num w:numId="12"><w:abstractNumId w:val="2"/></w:num>
      </w:numbering>"#;
    let defs = parse_numbering(xml).unwrap();
    assert_eq!(defs.abstract_nums.len(), 2);
    assert_eq!(defs.numbering_instances.len(), 2);
    assert_eq!(
        defs.numbering_instances[&11].abstract_num_id,
        1
    );
    assert_eq!(
        defs.numbering_instances[&12].abstract_num_id,
        2
    );
}

#[test]
fn num_without_abstract_ref_defaults_to_zero() {
    // `<w:num>` with no `<w:abstractNumId>` binds to abstract 0 (with a warn).
    let xml = br#"<w:numbering xmlns:w="http://schemas.openxmlformats.org/wordprocessingml/2006/main"><w:num w:numId="7"/></w:numbering>"#;
    let defs = parse_numbering(xml).unwrap();
    assert_eq!(
        defs.numbering_instances[&7].abstract_num_id,
        0
    );
}

#[test]
fn lvl_override_uses_override_ilvl_not_inner_lvl() {
    // The override's own @ilvl wins over the nested `<w:lvl w:ilvl>`.
    let xml = br#"
      <w:numbering xmlns:w="http://schemas.openxmlformats.org/wordprocessingml/2006/main">
        <w:num w:numId="9">
          <w:abstractNumId w:val="1"/>
          <w:lvlOverride w:ilvl="2">
            <w:lvl w:ilvl="0"><w:lvlText w:val="X%1"/></w:lvl>
          </w:lvlOverride>
        </w:num>
      </w:numbering>"#;
    let defs = parse_numbering(xml).unwrap();
    let inst = &defs.numbering_instances[&9];
    assert_eq!(inst.level_overrides.len(), 1);
    assert_eq!(inst.level_overrides[0].level, 2);
    assert!(inst.level_overrides[0].definition.is_some());
}

#[test]
fn lvl_suff_and_islgl_parse() {
    let xml = br#"<w:numbering xmlns:w="http://schemas.openxmlformats.org/wordprocessingml/2006/main">
        <w:abstractNum w:abstractNumId="1">
          <w:lvl w:ilvl="0">
            <w:numFmt w:val="decimal"/>
            <w:lvlText w:val="%1."/>
            <w:suff w:val="space"/>
            <w:isLgl/>
          </w:lvl>
        </w:abstractNum>
      </w:numbering>"#;
    let lvl = &parse_numbering(xml).unwrap().abstract_nums[&1].levels[0];
    assert_eq!(lvl.suffix, LevelSuffix::Space);
    assert!(lvl.is_legal);
}

#[test]
fn lvl_suff_defaults_to_tab_and_islgl_false() {
    let xml = br#"<w:numbering xmlns:w="http://schemas.openxmlformats.org/wordprocessingml/2006/main">
        <w:abstractNum w:abstractNumId="1"><w:lvl w:ilvl="0"><w:lvlText w:val="%1."/></w:lvl></w:abstractNum>
      </w:numbering>"#;
    let lvl = &parse_numbering(xml).unwrap().abstract_nums[&1].levels[0];
    assert_eq!(lvl.suffix, LevelSuffix::Tab);
    assert!(!lvl.is_legal);
}

#[test]
fn start_override_without_lvl_is_captured() {
    // A `<w:lvlOverride>` may carry only `<w:startOverride>` (no `<w:lvl>`).
    let xml = br#"<w:numbering xmlns:w="http://schemas.openxmlformats.org/wordprocessingml/2006/main">
        <w:num w:numId="3">
          <w:abstractNumId w:val="1"/>
          <w:lvlOverride w:ilvl="0"><w:startOverride w:val="5"/></w:lvlOverride>
        </w:num>
      </w:numbering>"#;
    let defs = parse_numbering(xml).unwrap();
    let inst = &defs.numbering_instances[&3];
    assert_eq!(inst.level_overrides.len(), 1);
    assert_eq!(inst.level_overrides[0].level, 0);
    assert_eq!(inst.level_overrides[0].start_override, Some(5));
    assert!(inst.level_overrides[0].definition.is_none());
}

#[test]
fn unknown_numbering_root_children_do_not_discard_known_definitions() {
    let xml = br#"
      <w:numbering xmlns:w="http://schemas.openxmlformats.org/wordprocessingml/2006/main">
        <w:abstractNum w:abstractNumId="3"/>
        <w:futureExtension><w:nested w:val="ignored"/></w:futureExtension>
        <w:num w:numId="13"><w:abstractNumId w:val="3"/></w:num>
      </w:numbering>"#;
    let defs = parse_numbering(xml).unwrap();
    assert!(defs.abstract_nums.contains_key(&3));
    assert!(defs.numbering_instances.contains_key(&13));
}

#[test]
fn a_part_that_is_no_xml_is_malformed() {
    assert_eq!(parse_numbering(b"<w:numbering>").err(), Some(ParseError::Malformed));
}

#[test]
fn the_last_definition_under_an_id_counts() {
    let xml = br#"<w:numbering xmlns:w="w">
        <w:abstractNum w:abstractNumId="1"><w:lvl w:ilvl="0"><w:lvlText w:val="A"/></w:lvl></w:abstractNum>
        <w:abstractNum w:abstractNumId="1"><w:lvl w:ilvl="0"><w:lvlText w:val="B"/></w:lvl></w:abstractNum>
      </w:numbering>"#;
    let defs = parse_numbering(xml).unwrap();
    assert_eq!(defs.abstract_nums.len(), 1);
    assert_eq!(defs.abstract_nums[&1].levels[0].level_text, "B");
}
