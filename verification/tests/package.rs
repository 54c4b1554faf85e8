use liteparse_ooxml::model::image::ImageFormat;
use liteparse_ooxml::pptx::package::parse_presentation;

const PRES: &str = r#"<?xml version="1.0"?>
<p:presentation xmlns:p="p" xmlns:r="r">
  <p:sldMasterIdLst><p:sldMasterId id="2147483660" r:id="rId1"/></p:sldMasterIdLst>
  <p:sldIdLst>
    <p:sldId id="322" r:id="rId2"/>
    <p:sldId id="260" r:id="rId3"/>
  </p:sldIdLst>
  <p:sldSz cx="12192000" cy="6858000"/>
  <p:notesSz cx="6858000" cy="9144000"/>
</p:presentation>"#;

#[test]
fn slide_ids_read_r_id_not_the_numeric_id() {
    let p = parse_presentation(PRES.as_bytes()).unwrap();
    assert_eq!(p.slide_rel_ids, vec!["rId2", "rId3"]);
    // If `@id` ever leaks into this list, resolution silently yields no
    // part and the deck comes out empty rather than erroring.
    assert!(!p.slide_rel_ids.iter().any(|s| s == "322" || s == "260"));
}

#[test]
fn master_ids_do_not_leak_into_the_slide_list() {
    let p = parse_presentation(PRES.as_bytes()).unwrap();
    assert_eq!(p.slide_rel_ids.len(), 2);
    assert!(!p.slide_rel_ids.iter().any(|s| s == "rId1"));
}

#[test]
fn custom_show_slide_ids_are_ignored() {
    let xml = r#"<p:presentation xmlns:p="p" xmlns:r="r">
  <p:sldIdLst><p:sldId id="1" r:id="rId2"/></p:sldIdLst>
  <p:custShowLst><p:custShow name="s" id="0"><p:sldLst>
    <p:sldId id="1" r:id="rId2"/><p:sldId id="1" r:id="rId2"/>
  </p:sldLst></p:custShow></p:custShowLst>
</p:presentation>"#;
    assert_eq!(
        parse_presentation(xml.as_bytes()).unwrap().slide_rel_ids,
        vec!["rId2"]
    );
}

#[test]
fn sizes_are_read_and_converted() {
    let p = parse_presentation(PRES.as_bytes()).unwrap();
    assert_eq!(p.slide_size, Some((12_192_000, 6_858_000)));
    assert_eq!(p.notes_size, Some((6_858_000, 9_144_000)));
}

#[test]
fn missing_slide_size_falls_back_rather_than_failing() {
    let xml = r#"<p:presentation xmlns:p="p" xmlns:r="r"><p:sldIdLst/></p:presentation>"#;
    let p = parse_presentation(xml.as_bytes()).unwrap();
    assert_eq!(p.slide_size, None);
    assert!(p.slide_rel_ids.is_empty());
}

#[test]
fn slide_without_rel_id_is_skipped() {
    let xml = r#"<p:presentation xmlns:p="p" xmlns:r="r"><p:sldIdLst>
  <p:sldId id="1" r:id="rId2"/><p:sldId id="2"/><p:sldId id="3" r:id="rId4"/>
</p:sldIdLst></p:presentation>"#;
    assert_eq!(
        parse_presentation(xml.as_bytes()).unwrap().slide_rel_ids,
        vec!["rId2", "rId4"]
    );
}

#[test]
fn jfif_extension_falls_through_to_magic_bytes() {
    let jpeg = [0xFF, 0xD8, 0xFF, 0xE0, 0x00, 0x10, b'J', b'F', b'I', b'F'];
    assert_eq!(ImageFormat::detect("ppt/media/image7.jfif", &jpeg), ImageFormat::Jpeg);
}
