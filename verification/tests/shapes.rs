use liteparse_ooxml::dimension::Dimension;
use liteparse_ooxml::model::color::SchemeColorVal;
use liteparse_ooxml::model::drawing::{DrawingFill, TextAnchoringType};
use liteparse_ooxml::pptx::shape_parse::{
    parse_shape_tree, parse_slide_part, shows_inherited_shapes,
};
use liteparse_ooxml::pptx::shapes::{
    visit_all, Background, GraphicFramePayload, PlaceholderKind, Shape, ShapeKind, SlidePart,
    TableCellProperties,
};

fn tree(inner: &str) -> Vec<Shape> {
    let xml = format!(
        r#"<p:sld xmlns:a="http://schemas.openxmlformats.org/drawingml/2006/main"
                      xmlns:p="http://schemas.openxmlformats.org/presentationml/2006/main"
                      xmlns:r="http://schemas.openxmlformats.org/officeDocument/2006/relationships"
                      xmlns:mc="http://schemas.openxmlformats.org/markup-compatibility/2006">
                 <p:cSld><p:spTree>
                   <p:nvGrpSpPr><p:cNvPr id="1" name=""/><p:cNvGrpSpPr/><p:nvPr/></p:nvGrpSpPr>
                   <p:grpSpPr/>
                   {inner}
                 </p:spTree></p:cSld>
               </p:sld>"#
    );
    parse_shape_tree(xml.as_bytes()).expect("parses")
}

fn part(inner: &str) -> SlidePart {
    let xml = format!(
        r#"<p:sldMaster xmlns:a="http://schemas.openxmlformats.org/drawingml/2006/main"
                      xmlns:p="http://schemas.openxmlformats.org/presentationml/2006/main">
                 <p:cSld><p:spTree/></p:cSld>
                 {inner}
               </p:sldMaster>"#
    );
    parse_slide_part(xml.as_bytes()).expect("parses")
}

#[test]
fn swapped_clr_map_is_read() {
    let p = part(
        r#"<p:clrMap bg1="lt1" tx1="dk1" bg2="dk2" tx2="lt2" accent1="accent1"
                         accent2="accent2" accent3="accent3" accent4="accent4"
                         accent5="accent5" accent6="accent6" hlink="hlink"
                         folHlink="folHlink"/>"#,
    );
    let map = p.color_map.expect("stated");
    assert_eq!(map.tx2, SchemeColorVal::Lt2);
    assert_eq!(map.bg2, SchemeColorVal::Dk2);
    assert_eq!(map.tx1, SchemeColorVal::Dk1);
}

#[test]
fn master_clr_mapping_override_is_inherit_not_default() {
    let p = part(r#"<p:clrMapOvr><a:masterClrMapping/></p:clrMapOvr>"#);
    assert_eq!(p.color_map, None);
}

#[test]
fn override_clr_mapping_states_a_map() {
    let p = part(
        r#"<p:clrMapOvr><a:overrideClrMapping bg1="dk1" tx1="lt1" bg2="lt2" tx2="dk2"
                 accent1="accent1" accent2="accent2" accent3="accent3" accent4="accent4"
                 accent5="accent5" accent6="accent6" hlink="hlink" folHlink="folHlink"/>
               </p:clrMapOvr>"#,
    );
    let map = p.color_map.expect("stated");
    assert_eq!(map.tx1, SchemeColorVal::Lt1);
    assert_eq!(map.bg1, SchemeColorVal::Dk1);
}

fn sp(inner: &str) -> String {
    format!(
        r#"<p:sp><p:nvSpPr><p:cNvPr id="2" name="s"/><p:cNvSpPr/><p:nvPr/></p:nvSpPr>
                 {inner}
               </p:sp>"#
    )
}

#[test]
fn sp_tree_scaffolding_is_not_mistaken_for_a_shape() {
    assert!(tree("").is_empty());
}

#[test]
fn document_order_is_preserved_across_kinds() {
    let shapes = tree(&format!(
        r#"{}
               <p:cxnSp><p:nvCxnSpPr><p:cNvPr id="3" name="c"/></p:nvCxnSpPr><p:spPr/></p:cxnSp>
               {}"#,
        sp("<p:spPr/>"),
        sp("<p:spPr/>")
    ));
    assert_eq!(shapes.len(), 3);
    assert!(matches!(shapes[0].kind, ShapeKind::AutoShape(_)));
    assert!(matches!(shapes[1].kind, ShapeKind::Connector(_)));
    assert!(matches!(shapes[2].kind, ShapeKind::AutoShape(_)));
}

#[test]
fn missing_xfrm_is_none_not_origin() {
    let shapes = tree(&sp(r#"<p:spPr/><p:txBody><a:p/></p:txBody>"#));
    assert!(shapes[0].transform.is_none());
    assert!(shapes[0].needs_inherited_geometry());
}

#[test]
fn explicit_xfrm_is_read_through_sp_pr() {
    let shapes = tree(&sp(
        r#"<p:spPr><a:xfrm><a:off x="914400" y="457200"/><a:ext cx="1828800" cy="685800"/></a:xfrm></p:spPr>"#,
    ));
    let t = shapes[0].transform.expect("transform present");
    assert_eq!(t.offset.expect("offset").x.raw(), 914400);
    assert_eq!(t.extent.expect("extent").width.raw(), 1828800);
    assert!(!shapes[0].needs_inherited_geometry());
}

#[test]
fn shape_style_lowers_all_four_references() {
    let shapes = tree(&sp(r#"<p:spPr/><p:style>
                 <a:lnRef idx="2"><a:schemeClr val="accent1"><a:shade val="50000"/></a:schemeClr></a:lnRef>
                 <a:fillRef idx="1"><a:schemeClr val="accent1"/></a:fillRef>
                 <a:effectRef idx="0"><a:schemeClr val="accent1"/></a:effectRef>
                 <a:fontRef idx="minor"><a:schemeClr val="lt1"/></a:fontRef>
               </p:style>"#));
    let style = shapes[0].style.as_ref().expect("p:style lowered");
    let ln = style.line_ref.as_ref().expect("lnRef");
    assert_eq!(ln.idx, 2);
    assert!(ln.color.is_some(), "the phClr substitute must survive");
    assert_eq!(style.fill_ref.as_ref().expect("fillRef").idx, 1);
    assert_eq!(style.effect_ref.as_ref().expect("effectRef").idx, 0);
    assert!(style.font_ref.is_some(), "parsed, though unused for now");
}

#[test]
fn shape_without_style_has_no_references() {
    let shapes = tree(&sp("<p:spPr/>"));
    assert!(shapes[0].style.is_none());
}

#[test]
fn placeholder_idx_holds_u32_max() {
    let shapes = tree(
        r#"<p:sp><p:nvSpPr><p:cNvPr id="2" name="s"/><p:cNvSpPr/>
                 <p:nvPr><p:ph type="body" idx="4294967295"/></p:nvPr></p:nvSpPr><p:spPr/></p:sp>"#,
    );
    assert_eq!(shapes[0].placeholder.as_ref().unwrap().idx, u32::MAX);
}

#[test]
fn placeholder_defaults_to_body_index_zero() {
    let shapes = tree(
        r#"<p:sp><p:nvSpPr><p:cNvPr id="2" name="s"/><p:cNvSpPr/>
                 <p:nvPr><p:ph/></p:nvPr></p:nvSpPr><p:spPr/></p:sp>"#,
    );
    let ph = shapes[0].placeholder.as_ref().expect("placeholder");
    assert_eq!(ph.kind, PlaceholderKind::Body);
    assert_eq!(ph.idx, 0);
}

#[test]
fn unknown_placeholder_type_is_distinguishable_from_body() {
    let shapes = tree(
        r#"<p:sp><p:nvSpPr><p:cNvPr id="2" name="s"/><p:cNvSpPr/>
                 <p:nvPr><p:ph type="bogus"/></p:nvPr></p:nvSpPr><p:spPr/></p:sp>"#,
    );
    assert_eq!(
        shapes[0].placeholder.as_ref().unwrap().kind,
        PlaceholderKind::Unknown
    );
}

#[test]
fn master_collapse_map_matches_python_pptx() {
    assert_eq!(PlaceholderKind::CtrTitle.collapsed_for_master(), PlaceholderKind::Title);
    assert_eq!(PlaceholderKind::Title.collapsed_for_master(), PlaceholderKind::Title);
    for body_ish in [
        PlaceholderKind::SubTitle, PlaceholderKind::Obj, PlaceholderKind::Chart, PlaceholderKind::Tbl, PlaceholderKind::ClipArt, PlaceholderKind::Dgm, PlaceholderKind::Media, PlaceholderKind::Pic, PlaceholderKind::SldImg, PlaceholderKind::Body,
    ] {
        assert_eq!(body_ish.collapsed_for_master(), PlaceholderKind::Body);
    }
    for self_mapped in [PlaceholderKind::Dt, PlaceholderKind::Ftr, PlaceholderKind::SldNum] {
        assert_eq!(self_mapped.collapsed_for_master(), self_mapped);
    }
}

#[test]
fn graphic_frame_transform_comes_from_p_xfrm() {
    let shapes = tree(
        r#"<p:graphicFrame>
                 <p:nvGraphicFramePr><p:cNvPr id="4" name="t"/></p:nvGraphicFramePr>
                 <p:xfrm><a:off x="100" y="200"/><a:ext cx="300" cy="400"/></p:xfrm>
                 <a:graphic><a:graphicData uri="http://schemas.openxmlformats.org/drawingml/2006/table">
                   <a:tbl><a:tblGrid><a:gridCol w="300"/></a:tblGrid></a:tbl>
                 </a:graphicData></a:graphic>
               </p:graphicFrame>"#,
    );
    let t = shapes[0].transform.expect("transform present");
    assert_eq!(t.offset.expect("offset").y.raw(), 200);
}

#[test]
fn table_merges_keep_origin_spans_and_absorbed_flags() {
    let shapes = tree(
        r#"<p:graphicFrame>
                 <p:nvGraphicFramePr><p:cNvPr id="4" name="t"/></p:nvGraphicFramePr>
                 <a:graphic><a:graphicData uri="http://schemas.openxmlformats.org/drawingml/2006/table">
                   <a:tbl>
                     <a:tblPr firstRow="1"/>
                     <a:tblGrid><a:gridCol w="100"/><a:gridCol w="100"/></a:tblGrid>
                     <a:tr h="370840">
                       <a:tc gridSpan="2"><a:txBody><a:p><a:r><a:t>wide</a:t></a:r></a:p></a:txBody></a:tc>
                       <a:tc hMerge="1"><a:txBody><a:p/></a:txBody></a:tc>
                     </a:tr>
                   </a:tbl>
                 </a:graphicData></a:graphic>
               </p:graphicFrame>"#,
    );
    let ShapeKind::GraphicFrame(frame) = &shapes[0].kind else {
        panic!("expected a graphic frame");
    };
    let GraphicFramePayload::Table(table) = &frame.payload else {
        panic!("expected a table payload");
    };
    assert!(table.first_row);
    assert_eq!(table.grid.len(), 2);
    assert_eq!(table.rows[0].height.expect("height").raw(), 370840);
    assert_eq!(table.rows[0].cells[0].grid_span, 2);
    assert!(!table.rows[0].cells[0].is_absorbed());
    assert!(table.rows[0].cells[1].is_absorbed());
}

#[test]
fn cell_properties_are_read_off_tc_pr() {
    let shapes = tree(
        r#"<p:graphicFrame>
                 <p:nvGraphicFramePr><p:cNvPr id="3" name="t"/></p:nvGraphicFramePr>
                 <a:graphic><a:graphicData uri="http://schemas.openxmlformats.org/drawingml/2006/table">
                   <a:tbl>
                     <a:tblGrid><a:gridCol w="100"/></a:tblGrid>
                     <a:tr h="200">
                       <a:tc><a:txBody><a:p/></a:txBody>
                         <a:tcPr marL="0" marR="12700" marT="1" marB="2" anchor="ctr">
                           <a:lnL/><a:solidFill/>
                         </a:tcPr></a:tc>
                     </a:tr>
                     <a:tr h="200"><a:tc><a:txBody><a:p/></a:txBody></a:tc></a:tr>
                   </a:tbl>
                 </a:graphicData></a:graphic>
               </p:graphicFrame>"#,
    );
    let ShapeKind::GraphicFrame(frame) = &shapes[0].kind else {
        panic!("expected a graphic frame");
    };
    let GraphicFramePayload::Table(table) = &frame.payload else {
        panic!("expected a table payload");
    };

    let pr = &table.rows[0].cells[0].properties;
    assert_eq!(pr.left_margin.expect("marL").raw(), 0);
    assert_eq!(pr.right_margin.expect("marR").raw(), 12700);
    assert_eq!(pr.anchor, Some(TextAnchoringType::Center));
    assert_eq!(pr.vert, None);

    let bare = &table.rows[1].cells[0].properties;
    assert_eq!(*bare, TableCellProperties::default());
    assert_eq!(bare.text_body_properties().left_inset, None);
}

#[test]
fn cell_properties_map_onto_body_properties() {
    let pr = TableCellProperties {
        left_margin: Some(Dimension::new(1)),
        top_margin: Some(Dimension::new(2)),
        right_margin: Some(Dimension::new(3)),
        bottom_margin: Some(Dimension::new(4)),
        anchor: Some(TextAnchoringType::Bottom),
        vert: None,
    };
    let bp = pr.text_body_properties();
    assert_eq!(bp.left_inset.unwrap().raw(), 1);
    assert_eq!(bp.top_inset.unwrap().raw(), 2);
    assert_eq!(bp.right_inset.unwrap().raw(), 3);
    assert_eq!(bp.bottom_inset.unwrap().raw(), 4);
    assert_eq!(bp.anchor, Some(TextAnchoringType::Bottom));
    assert!(bp.rotation.is_none() && bp.wrap.is_none() && bp.auto_fit.is_none());
}

#[test]
fn unsupported_graphic_frame_payload_keeps_its_uri() {
    let shapes = tree(
        r#"<p:graphicFrame>
                 <p:nvGraphicFramePr><p:cNvPr id="4" name="d"/></p:nvGraphicFramePr>
                 <a:graphic><a:graphicData uri="http://schemas.openxmlformats.org/drawingml/2006/diagram"/></a:graphic>
               </p:graphicFrame>"#,
    );
    let ShapeKind::GraphicFrame(frame) = &shapes[0].kind else {
        panic!("expected a graphic frame");
    };
    match &frame.payload {
        GraphicFramePayload::Unsupported { uri } => assert!(uri.ends_with("diagram")),
        other => panic!("expected Unsupported, got {other:?}"),
    }
}

#[test]
fn group_child_coordinate_space_is_captured() {
    let shapes = tree(&format!(
        r#"<p:grpSp>
                 <p:nvGrpSpPr><p:cNvPr id="5" name="g"/><p:cNvGrpSpPr/><p:nvPr/></p:nvGrpSpPr>
                 <p:grpSpPr>
                   <a:xfrm>
                     <a:off x="10" y="20"/><a:ext cx="30" cy="40"/>
                     <a:chOff x="50" y="60"/><a:chExt cx="70" cy="80"/>
                   </a:xfrm>
                 </p:grpSpPr>
                 {}
               </p:grpSp>"#,
        sp("<p:spPr/>")
    ));
    assert_eq!(shapes.len(), 1);
    let ShapeKind::Group(group) = &shapes[0].kind else {
        panic!("expected a group");
    };
    assert_eq!(shapes[0].transform.unwrap().offset.unwrap().x.raw(), 10);
    assert_eq!(group.child_offset.expect("chOff").x.raw(), 50);
    assert_eq!(group.child_extent.expect("chExt").width.raw(), 70);
    assert_eq!(group.children.len(), 1);
}

#[test]
fn group_fill_is_lowered() {
    let shapes = tree(&format!(
        r#"<p:grpSp>
                 <p:nvGrpSpPr><p:cNvPr id="5" name="g"/></p:nvGrpSpPr>
                 <p:grpSpPr><a:solidFill><a:srgbClr val="FF0000"/></a:solidFill></p:grpSpPr>
                 {}
               </p:grpSp>"#,
        sp("<p:spPr><a:grpFill/></p:spPr>")
    ));
    let ShapeKind::Group(group) = &shapes[0].kind else {
        panic!("expected a group");
    };
    assert!(matches!(group.fill, Some(DrawingFill::Solid(_))));
    let ShapeKind::AutoShape(member) = &group.children[0].kind else {
        panic!("expected an autoshape");
    };
    assert!(matches!(
        member.properties.as_ref().and_then(|p| p.fill.as_ref()),
        Some(DrawingFill::Group)
    ));
}

#[test]
fn group_without_a_fill_lowers_to_none() {
    let shapes = tree(
        r#"<p:grpSp>
                 <p:nvGrpSpPr><p:cNvPr id="5" name="g"/></p:nvGrpSpPr>
                 <p:grpSpPr><a:xfrm><a:off x="1" y="2"/><a:ext cx="3" cy="4"/></a:xfrm></p:grpSpPr>
               </p:grpSp>"#,
    );
    let ShapeKind::Group(group) = &shapes[0].kind else {
        panic!("expected a group");
    };
    assert!(group.fill.is_none());
    assert_eq!(shapes[0].transform.unwrap().offset.unwrap().x.raw(), 1);
}

#[test]
fn groups_nest_and_visit_is_preorder() {
    let shapes = tree(&format!(
        r#"<p:grpSp><p:nvGrpSpPr><p:cNvPr id="5" name="outer"/></p:nvGrpSpPr><p:grpSpPr/>
                 <p:grpSp><p:nvGrpSpPr><p:cNvPr id="6" name="inner"/></p:nvGrpSpPr><p:grpSpPr/>
                   {}
                 </p:grpSp>
               </p:grpSp>"#,
        sp("<p:spPr/>")
    ));
    let mut visited = Vec::new();
    visit_all(&shapes, &mut visited);
    let names: Vec<String> = visited.iter().map(|s| s.non_visual.name.clone()).collect();
    assert_eq!(names, vec!["outer", "inner", "s"]);
}

#[test]
fn alternate_content_splices_the_winning_branch_in_place() {
    let shapes = tree(&format!(
        r#"{}
               <mc:AlternateContent>
                 <mc:Choice Requires="p14"><p:contentPart r:id="rId9"/></mc:Choice>
                 <mc:Fallback>{}</mc:Fallback>
               </mc:AlternateContent>
               {}"#,
        sp("<p:spPr/>"),
        sp(r#"<p:spPr/><p:txBody><a:p><a:r><a:t>fallback</a:t></a:r></a:p></p:txBody>"#),
        sp("<p:spPr/>")
    ));
    assert_eq!(shapes.len(), 3, "one branch contributes exactly one shape");
    assert_eq!(
        shapes[1].text().expect("text body").plain_text(),
        "fallback",
        "an ink Choice lowers to nothing, so the picture fallback wins"
    );
}

#[test]
fn alternate_content_prefers_the_branch_with_more_text() {
    let shapes = tree(&format!(
        r#"<mc:AlternateContent>
                 <mc:Choice Requires="a14">{}</mc:Choice>
                 <mc:Fallback><p:pic>
                   <p:nvPicPr><p:cNvPr id="9" name="eq"/><p:cNvPicPr/></p:nvPicPr>
                   <p:blipFill><a:blip r:embed="rId2"/></p:blipFill><p:spPr/>
                 </p:pic></mc:Fallback>
               </mc:AlternateContent>"#,
        sp(r#"<p:spPr/><p:txBody><a:p><a:r><a:t> = </a:t></a:r></a:p></p:txBody>"#)
    ));
    assert_eq!(shapes.len(), 1);
    assert_eq!(shapes[0].text().expect("text body").plain_text(), " = ");
}

#[test]
fn alternate_content_without_fallback_takes_the_choice() {
    let shapes = tree(&format!(
        r#"<mc:AlternateContent>
                 <mc:Choice Requires="a14">{}</mc:Choice>
               </mc:AlternateContent>"#,
        sp(r#"<p:spPr/><p:txBody><a:p><a:r><a:t>choice</a:t></a:r></a:p></p:txBody>"#)
    ));
    assert_eq!(shapes.len(), 1);
    assert_eq!(shapes[0].text().expect("text body").plain_text(), "choice");
}

#[test]
fn alternate_content_tie_goes_to_the_choice() {
    let shapes = tree(&format!(
        r#"<mc:AlternateContent>
                 <mc:Choice Requires="a14">{}</mc:Choice>
                 <mc:Fallback>{}</mc:Fallback>
               </mc:AlternateContent>"#,
        sp(r#"<p:spPr/><p:txBody><a:p><a:r><a:t>same</a:t></a:r></a:p></p:txBody>"#),
        sp(r#"<p:spPr/><p:txBody><a:p><a:r><a:t>same</a:t></a:r></a:p></p:txBody>"#)
    ));
    assert_eq!(shapes.len(), 1, "exactly one branch survives");
}

#[test]
fn alternate_content_counts_characters() {
    // Three letters that take six bytes, against four that take four.
    let shapes = tree(&format!(
        r#"<mc:AlternateContent>
                 <mc:Choice Requires="a14">{}</mc:Choice>
                 <mc:Fallback>{}</mc:Fallback>
               </mc:AlternateContent>"#,
        sp("<p:spPr/><p:txBody><a:p><a:r><a:t>\u{3b1}\u{3b2}\u{3b3}</a:t></a:r></a:p></p:txBody>"),
        sp(r#"<p:spPr/><p:txBody><a:p><a:r><a:t>abcd</a:t></a:r></a:p></p:txBody>"#)
    ));
    assert_eq!(shapes.len(), 1);
    assert_eq!(shapes[0].text().expect("text body").plain_text(), "abcd");
}

#[test]
fn picture_placeholder_survives() {
    let shapes = tree(
        r#"<p:pic>
                 <p:nvPicPr>
                   <p:cNvPr id="7" name="img"/><p:cNvPicPr/>
                   <p:nvPr><p:ph type="pic" idx="13"/></p:nvPr>
                 </p:nvPicPr>
                 <p:blipFill><a:blip r:embed="rId2"/><a:stretch/></p:blipFill>
                 <p:spPr/>
               </p:pic>"#,
    );
    assert!(matches!(shapes[0].kind, ShapeKind::Picture(_)));
    let ph = shapes[0].placeholder.as_ref().expect("placeholder");
    assert_eq!(ph.kind, PlaceholderKind::Pic);
    assert_eq!(ph.idx, 13);
    assert!(shapes[0].needs_inherited_geometry());
}

#[test]
fn picture_blip_relationship_is_kept() {
    let shapes = tree(
        r#"<p:pic>
                 <p:nvPicPr><p:cNvPr id="7" name="img"/><p:cNvPicPr/></p:nvPicPr>
                 <p:blipFill><a:blip r:embed="rId2"/><a:stretch/></p:blipFill>
                 <p:spPr><a:xfrm><a:off x="1" y="2"/><a:ext cx="3" cy="4"/></a:xfrm></p:spPr>
               </p:pic>"#,
    );
    let ShapeKind::Picture(pic) = &shapes[0].kind else {
        panic!("expected a picture");
    };
    assert_eq!(
        pic.blip_fill
            .blip
            .as_ref()
            .and_then(|b| b.embed.as_ref())
            .map(|r| r.as_str()),
        Some("rId2")
    );
    assert_eq!(shapes[0].non_visual.name, "img");
}

#[test]
fn text_box_flag_is_read() {
    let shapes = tree(
        r#"<p:sp><p:nvSpPr><p:cNvPr id="2" name="s"/><p:cNvSpPr txBox="1"/><p:nvPr/></p:nvSpPr>
                 <p:spPr/></p:sp>"#,
    );
    let ShapeKind::AutoShape(auto) = &shapes[0].kind else {
        panic!("expected an autoshape");
    };
    assert!(auto.is_text_box);
}

#[test]
fn part_without_a_shape_tree_is_empty_not_an_error() {
    let xml =
        r#"<p:notes xmlns:p="http://schemas.openxmlformats.org/presentationml/2006/main"/>"#;
    assert!(parse_shape_tree(xml.as_bytes()).expect("parses").is_empty());
}

#[test]
fn unmodelled_shape_tree_member_does_not_fail_the_part() {
    let shapes = tree(&format!(
        r#"<p:contentPart r:id="rId9"/>{}"#,
        sp("<p:spPr/>")
    ));
    assert_eq!(shapes.len(), 1);
}

fn part_with_bg(bg: &str) -> SlidePart {
    let xml = format!(
        r#"<p:sld xmlns:a="http://schemas.openxmlformats.org/drawingml/2006/main"
                      xmlns:p="http://schemas.openxmlformats.org/presentationml/2006/main"
                      xmlns:r="http://schemas.openxmlformats.org/officeDocument/2006/relationships">
                 <p:cSld>
                   {bg}
                   <p:spTree>
                     <p:nvGrpSpPr><p:cNvPr id="1" name=""/><p:cNvGrpSpPr/><p:nvPr/></p:nvGrpSpPr>
                     <p:grpSpPr/>
                   </p:spTree>
                 </p:cSld>
               </p:sld>"#
    );
    parse_slide_part(xml.as_bytes()).expect("parses")
}

#[test]
fn bg_pr_solid_fill_is_read() {
    let part = part_with_bg(
        r#"<p:bg><p:bgPr><a:solidFill><a:srgbClr val="FF0000"/></a:solidFill>
                 <a:effectLst/></p:bgPr></p:bg>"#,
    );
    match part.background {
        Some(Background::Properties(DrawingFill::Solid(_))) => {}
        other => panic!("expected a solid bgPr, got {other:?}"),
    }
}

#[test]
fn bg_ref_keeps_its_thousand_offset_index() {
    let part =
        part_with_bg(r#"<p:bg><p:bgRef idx="1001"><a:schemeClr val="bg1"/></p:bgRef></p:bg>"#);
    match part.background {
        Some(Background::Reference(r)) => {
            assert_eq!(r.idx, 1001);
            assert!(r.color.is_some(), "the phClr substitute must survive");
        }
        other => panic!("expected a bgRef, got {other:?}"),
    }
}

#[test]
fn absent_bg_is_none() {
    assert!(part_with_bg("").background.is_none());
}

#[test]
fn bg_pr_without_a_fill_declares_nothing() {
    let part = part_with_bg(r#"<p:bg><p:bgPr><a:effectLst/></p:bgPr></p:bg>"#);
    assert!(part.background.is_none());
}

#[test]
fn bg_pr_no_fill_is_a_declaration_not_an_absence() {
    let part = part_with_bg(r#"<p:bg><p:bgPr><a:noFill/></p:bgPr></p:bg>"#);
    assert!(matches!(
        part.background,
        Some(Background::Properties(DrawingFill::NoFill))
    ));
}

#[test]
fn background_and_shapes_come_from_one_parse() {
    let xml = r#"<p:sld xmlns:a="http://schemas.openxmlformats.org/drawingml/2006/main"
                            xmlns:p="http://schemas.openxmlformats.org/presentationml/2006/main">
             <p:cSld>
               <p:bg><p:bgPr><a:solidFill><a:srgbClr val="00FF00"/></a:solidFill></p:bgPr></p:bg>
               <p:spTree>
                 <p:nvGrpSpPr><p:cNvPr id="1" name=""/><p:cNvGrpSpPr/><p:nvPr/></p:nvGrpSpPr>
                 <p:grpSpPr/>
                 <p:sp><p:nvSpPr><p:cNvPr id="2" name="s"/><p:cNvSpPr/><p:nvPr/></p:nvSpPr>
                   <p:spPr/></p:sp>
               </p:spTree>
             </p:cSld></p:sld>"#;
    let part = parse_slide_part(xml.as_bytes()).expect("parses");
    assert_eq!(part.shapes.len(), 1);
    assert!(part.background.is_some());
}

fn show_inherited(root_attrs: &str) -> bool {
    let xml = format!(
        r#"<p:sld xmlns:a="http://schemas.openxmlformats.org/drawingml/2006/main"
                      xmlns:p="http://schemas.openxmlformats.org/presentationml/2006/main"
                      {root_attrs}>
                 <p:cSld><p:spTree>
                   <p:nvGrpSpPr><p:cNvPr id="1" name=""/><p:cNvGrpSpPr/><p:nvPr/></p:nvGrpSpPr>
                   <p:grpSpPr/>
                 </p:spTree></p:cSld>
               </p:sld>"#
    );
    let full = parse_slide_part(xml.as_bytes())
        .expect("parses")
        .show_inherited_shapes;
    assert_eq!(
        full,
        shows_inherited_shapes(xml.as_bytes()),
        "cheap reader disagreed on {root_attrs:?}"
    );
    full
}

#[test]
fn cheap_reader_agrees_with_the_full_parse() {
    for attrs in [
        "",
        r#"showMasterSp="0""#,
        r#"showMasterSp="1""#,
        r#"showMasterSp="true""#,
        r#"showMasterSp="false""#,
        r#"showMasterSp="on""#,
        r#"showMasterSp="off""#,
        r#"showMasterSp="yes""#,
        r#"preserve="1""#,
    ] {
        show_inherited(attrs);
    }
}

#[test]
fn cheap_reader_reads_the_root_not_a_descendant() {
    let xml = r#"<p:sldLayout xmlns:p="http://schemas.openxmlformats.org/presentationml/2006/main"
                                  showMasterSp="0">
                       <p:cSld><p:spTree><p:sp showMasterSp="1"/></p:spTree></p:cSld>
                     </p:sldLayout>"#;
    assert!(!shows_inherited_shapes(xml.as_bytes()));
}

#[test]
fn show_master_sp_defaults_to_true() {
    assert!(show_inherited(""));
}

#[test]
fn show_master_sp_is_read_when_stated() {
    assert!(!show_inherited(r#"showMasterSp="0""#));
    assert!(show_inherited(r#"showMasterSp="1""#));
}

#[test]
fn the_root_alone_agrees_with_the_part_however_it_is_written() {
    let agreed = |xml: &str, shown: bool| {
        let part = parse_slide_part(xml.as_bytes()).expect("parses");
        assert_eq!(part.show_inherited_shapes, shown, "{xml}");
        assert_eq!(shows_inherited_shapes(xml.as_bytes()), shown, "{xml}");
    };
    agreed(r#"<p:sld showMasterSp="0"/>"#, false);
    agreed(r#"<p:sld/>"#, true);
    agreed(r#"<p:sld x:showMasterSp="0"></p:sld>"#, false);
    agreed(r#"<?xml version="1.0"?> <!-- a --> <p:sld showMasterSp="0"><p:cSld/></p:sld>"#, false);
    agreed(r#"<w14:a showMasterSp="0"><b/></w14:a><w15:c/><p:sld showMasterSp="1"/>"#, true);
    agreed(r#"<w14:a showMasterSp="1"/><p:sld showMasterSp="off"/>"#, false);
}

#[test]
fn what_cannot_be_read_shows_its_inherited_shapes() {
    assert!(shows_inherited_shapes(b""));
    assert!(shows_inherited_shapes(b"<p:sld"));
    assert!(shows_inherited_shapes(b"<w14:sld showMasterSp=\"0\"/>"));
}
