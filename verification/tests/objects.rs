use liteparse_ooxml::error::ParseError;
use liteparse_ooxml::pptx::shape_parse::parse_single_object;
use liteparse_ooxml::pptx::shapes::ShapeKind;
use liteparse_ooxml::pptx::text_parse::parse_diagram_text;

const SPACES: &str = r#"xmlns:a="http://schemas.openxmlformats.org/drawingml/2006/main" xmlns:p="http://schemas.openxmlformats.org/presentationml/2006/main""#;

fn object(tag: &str, inner: &str) -> Vec<u8> {
    format!("<p:{tag} {SPACES}>{inner}</p:{tag}>").into_bytes()
}

const SP: &str = r#"<p:nvSpPr><p:cNvPr id="4" name="Box"/><p:cNvSpPr/><p:nvPr/></p:nvSpPr><p:spPr/>"#;

#[test]
fn a_shape_on_its_own_is_read() {
    let shape = parse_single_object(&object("sp", SP)).expect("read").expect("a shape");
    assert_eq!((shape.non_visual.id, shape.non_visual.name.as_str()), (4, "Box"));
    assert!(matches!(shape.kind, ShapeKind::AutoShape(_)), "{:?}", shape.kind);
}

#[test]
fn a_connector_on_its_own_is_read() {
    let inner = r#"<p:nvCxnSpPr><p:cNvPr id="5" name="Line"/><p:cNvCxnSpPr/><p:nvPr/></p:nvCxnSpPr><p:spPr/>"#;
    let shape = parse_single_object(&object("cxnSp", inner)).expect("read").expect("a shape");
    assert_eq!(shape.non_visual.id, 5);
    assert!(matches!(shape.kind, ShapeKind::Connector(_)), "{:?}", shape.kind);
}

#[test]
fn a_group_on_its_own_keeps_its_members() {
    let inner = format!(
        r#"<p:nvGrpSpPr><p:cNvPr id="6" name="Group"/><p:cNvGrpSpPr/><p:nvPr/></p:nvGrpSpPr><p:grpSpPr/>
           <p:sp>{SP}</p:sp><p:sp>{SP}</p:sp>"#
    );
    let shape = parse_single_object(&object("grpSp", &inner)).expect("read").expect("a shape");
    assert_eq!(shape.non_visual.id, 6);
    match shape.kind {
        ShapeKind::Group(g) => assert_eq!(g.children.len(), 2),
        other => panic!("expected a group, got {other:?}"),
    }
}

#[test]
fn any_other_object_on_its_own_is_none() {
    assert!(parse_single_object(&object("pic", "")).expect("read").is_none());
    assert!(parse_single_object(&object("graphicFrame", "")).expect("read").is_none());
}

#[test]
fn what_is_no_object_is_refused() {
    assert_eq!(parse_single_object(b"<p:sp><").err(), Some(ParseError::Malformed));
    let twice = format!("{SP}<p:spPr/>");
    assert_eq!(parse_single_object(&object("sp", &twice)).err(), Some(ParseError::Schema));
}

#[test]
fn the_text_of_a_diagram_comes_point_by_point() {
    let xml = format!(
        r#"<p:dataModel {SPACES}><p:ptLst>
            <p:pt modelId="1"><p:t><a:p><a:r><a:t>one &amp; only</a:t></a:r></a:p></p:t></p:pt>
            <p:pt modelId="2"/>
            <p:pt modelId="3"><p:t><a:p/></p:t></p:pt>
            <p:pt modelId="4"><p:t><a:p><a:r><a:t>two</a:t></a:r></a:p></p:t></p:pt>
          </p:ptLst></p:dataModel>"#
    );
    let bodies = parse_diagram_text(xml.as_bytes()).expect("read");
    let texts: Vec<String> = bodies.iter().map(|b| b.paragraphs[0].text()).collect();
    assert_eq!(texts, ["one & only", "", "two"]);
}

#[test]
fn a_diagram_without_points_has_no_text() {
    let empty = format!("<p:dataModel {SPACES}/>");
    assert!(parse_diagram_text(empty.as_bytes()).expect("read").is_empty());
    assert_eq!(parse_diagram_text(b"").err(), Some(ParseError::Malformed));
    let twice = format!("<p:dataModel {SPACES}><p:ptLst/><p:ptLst/></p:dataModel>");
    assert_eq!(parse_diagram_text(twice.as_bytes()).err(), Some(ParseError::Schema));
}
