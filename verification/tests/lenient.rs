use liteparse_ooxml::dimension::{Dimension, Emu, HalfPoints, Twips};
use liteparse_ooxml::docx::run::{read_switch, Justification};
use liteparse_ooxml::model::run::Alignment;
use liteparse_ooxml::xml::extension::from_xml;
use liteparse_ooxml::xml::lenient::{
    opt_attr, opt_val_attr, optional_nonnegative_dimension, or_default,
};
use liteparse_ooxml::xml::query::{attribute, child, children, element_text};
use liteparse_ooxml::xml::tree::Element;

fn root(xml: &str) -> Element {
    from_xml(xml.as_bytes()).expect("fixture parses")
}

fn attr(xml: &str) -> Option<Alignment> {
    let j: Option<Justification> = opt_attr(&root(xml), "jc");
    j.map(|j| j.value)
}

fn val(xml: &str) -> Option<Alignment> {
    let j: Option<Justification> = opt_val_attr(&root(xml), "jc");
    j.map(|j| j.value)
}

#[test]
fn attr_known_value_parses() {
    assert_eq!(attr(r#"<p jc="left"/>"#), Some(Alignment::Start));
}

#[test]
fn attr_unknown_value_is_none_not_an_error() {
    assert_eq!(attr(r#"<p jc="bogusValue"/>"#), None);
}

#[test]
fn attr_absent_is_none() {
    assert_eq!(attr("<p/>"), None);
}

#[test]
fn val_known_value_parses() {
    assert_eq!(val(r#"<p><jc val="right"/></p>"#), Some(Alignment::End));
}

#[test]
fn val_unknown_value_is_none_not_an_error() {
    assert_eq!(val(r#"<p><jc val="bogusValue"/></p>"#), None);
}

#[test]
fn val_absent_element_and_absent_attr_are_both_none() {
    assert_eq!(val("<p/>"), None);
    assert_eq!(val("<p><jc/></p>"), None);
}

#[test]
fn valid_numeric_attribute_is_not_swallowed() {
    let n: Option<u32> = opt_attr(&root(r#"<x n="3"/>"#), "n");
    assert_eq!(n, Some(3), "a valid number must survive");
}

#[test]
fn valid_numeric_val_element_is_not_swallowed() {
    let n: Option<i64> = opt_val_attr(&root(r#"<x><n val="-7"/></x>"#), "n");
    assert_eq!(n, Some(-7));
}

#[test]
fn bogus_numeric_attribute_is_none_not_an_error() {
    let n: Option<u32> = opt_attr(&root(r#"<x n="bogusValue"/>"#), "n");
    assert_eq!(n, None);
}

#[test]
fn out_of_range_numeric_attribute_is_none_not_a_wrapped_value() {
    let n: Option<u32> = opt_attr(&root(r#"<x n="4294967296"/>"#), "n");
    assert_eq!(n, None);
}

#[test]
fn or_default_coerces_numbers_and_falls_back() {
    let ok: u32 = or_default(&root(r#"<x n="12"/>"#), "n", 0);
    assert_eq!(ok, 12);
    let bad: u32 = or_default(&root(r#"<x n="bogusValue"/>"#), "n", 0);
    assert_eq!(bad, 0);
}

#[test]
fn twips_attribute_deserializes() {
    let v: Option<Dimension<Twips>> = opt_attr(&root(r#"<x val="720"/>"#), "val");
    assert_eq!(v.unwrap().raw(), 720);
}

#[test]
fn mixed_unit_attributes() {
    let e = root(r#"<ext w="914400" h="400"/>"#);
    let w: Option<Dimension<Emu>> = opt_attr(&e, "w");
    let h: Option<Dimension<HalfPoints>> = opt_attr(&e, "h");
    assert_eq!(w.unwrap().raw(), 914_400);
    assert_eq!(h.unwrap().raw(), 400);
}

#[test]
fn negative_values_preserved() {
    let v: Option<Dimension<Twips>> = opt_attr(&root(r#"<x val="-120"/>"#), "val");
    assert_eq!(v.unwrap().raw(), -120);
}

#[test]
fn non_integer_rejected() {
    let v: Option<Dimension<Twips>> = opt_attr(&root(r#"<x val="abc"/>"#), "val");
    assert!(v.is_none(), "expected nothing, got {:?}", v.map(|d| d.raw()));
}

#[test]
fn negative_fractions_are_unspecified_for_optional_nonnegative_dimensions() {
    for raw in ["-0.1", "-0.49"] {
        let e = root(&format!(r#"<x val="{raw}"/>"#));
        let v: Option<Dimension<Twips>> = optional_nonnegative_dimension(&e, "val");
        assert_eq!(v.map(|d| d.raw()), None, "{raw:?} must be unspecified, not coerced");
    }
}

#[test]
fn unparseable_optional_nonnegative_dimension_is_unspecified() {
    let e = root(r#"<x val="bogusValue"/>"#);
    let v: Option<Dimension<Twips>> = optional_nonnegative_dimension(&e, "val");
    assert_eq!(v.map(|d| d.raw()), None);
}

#[test]
fn valid_optional_nonnegative_dimension_still_parses() {
    let e = root(r#"<x val="240"/>"#);
    let v: Option<Dimension<Twips>> = optional_nonnegative_dimension(&e, "val");
    assert_eq!(v.map(|d| d.raw()), Some(240));
}

fn switches(e: &Element, name: &str) -> Vec<bool> {
    children(e, name).into_iter().map(|c| read_switch(Some(c)).unwrap()).collect()
}

#[test]
fn w14_collision_with_transitional_element_is_resolved() {
    let xml = r#"<rPr xmlns:w14="http://schemas.microsoft.com/office/word/2010/wordml">
        <shadow val="0"/>
        <b/>
        <w14:shadow w14:blurRad="0" w14:dist="0"><w14:srgbClr w14:val="000000"/></w14:shadow>
    </rPr>"#;
    let p = root(xml);
    assert_eq!(switches(&p, "shadow"), vec![false], "w:shadow val=0 must survive");
    assert_eq!(switches(&p, "b"), vec![true]);
}

#[test]
fn lone_w14_element_does_not_impersonate_transitional_field() {
    let p = root(r#"<rPr><w14:shadow w14:blurRad="50800" w14:dist="38100"/></rPr>"#);
    assert!(switches(&p, "shadow").is_empty(), "extension element must not set the boolean");
}

#[test]
fn extension_attributes_pass_through() {
    let p = root(r#"<p w14:paraId="12AB34CD"><b/></p>"#);
    assert_eq!(attribute(&p, "paraId").as_deref(), Some("12AB34CD"));
    assert_eq!(switches(&p, "b"), vec![true]);
}

#[test]
fn filter_preserves_escaped_text() {
    let p = root(r#"<r><w14:glow w14:rad="0"/><t>a &amp; b &lt; c</t></r>"#);
    assert_eq!(element_text(child(&p, "t").unwrap()), "a & b < c");
}

#[test]
fn w16_family_stripped_wp14_kept() {
    let xml = r#"<x>
        <w16se:symEx w16se:font="Wingdings"/>
        <shadow/>
        <wp14:sizeRelH>keep</wp14:sizeRelH>
    </x>"#;
    let p = root(xml);
    assert_eq!(element_text(child(&p, "sizeRelH").unwrap()), "keep");
    assert_eq!(switches(&p, "shadow"), vec![true]);
    assert!(child(&p, "symEx").is_none());
}

#[test]
fn a_document_that_ends_early_has_no_root() {
    assert!(from_xml(b"<a><b></a>").is_none());
    assert!(from_xml(b"").is_none());
}

#[test]
fn a_part_reads_alike_without_its_extension_elements() {
    let whole = br#"<w:rPr w14:paraId="1"><w14:shadow w:val="x"><w:b/></w14:shadow><w:b/><w16se:symEx/>a &amp; b<wp14:keep/></w:rPr>"#;
    let cut = br#"<w:rPr w14:paraId="1"><w:b/>a &amp; b<wp14:keep/></w:rPr>"#;
    let read = |xml: &[u8]| format!("{:?}", from_xml(xml).expect("well-formed"));
    assert_eq!(read(whole), read(cut));
    assert_ne!(read(whole), read(b"<w:rPr/>"));
    assert!(from_xml(b"<w:rPr><w14:shadow></w:rPr>").is_none());
}
