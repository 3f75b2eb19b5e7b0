use docx_rust::anchor::{PositionH, PositionV, WpAnchor};
use docx_rust::drawing::{
    CnvGraphicFramePr, DocPr, EffectExtent, Extent, Graphic, SizeRelH, SizeRelV,
};
use docx_rust::error::DrawingMLError;
use docx_rust::lexical::{serialize_bool_ooxml, serialize_bool_ooxml_explicit};

#[test]
fn test_bool_serialization_ooxml_standard() {
    assert_eq!(serialize_bool_ooxml(true), "1");
    assert_eq!(serialize_bool_ooxml(false), "0");

    assert_ne!(serialize_bool_ooxml(true), "true");
    assert_ne!(serialize_bool_ooxml(false), "false");
}

#[test]
fn explicit_bool_serialization_agrees() {
    assert_eq!(serialize_bool_ooxml_explicit(true), "1");
    assert_eq!(serialize_bool_ooxml_explicit(false), "0");
}

#[test]
fn test_anchor_boolean_attributes() {
    let mut anchor = WpAnchor::safe_default(
        Extent { cx: 1151890, cy: 1447165 },
        DocPr { id: Some(1), name: Some("Grafik 1".to_string()), descr: None },
        Graphic::default(),
    );
    anchor.behind_doc = false;
    anchor.locked = true;
    anchor.layout_in_cell = false;
    anchor.allow_overlap = true;
    anchor.simple_pos = false;

    let xml = anchor.to_xml().unwrap();

    assert!(xml.contains(r#"behindDoc="0""#));
    assert!(xml.contains(r#"locked="1""#));
    assert!(xml.contains(r#"layoutInCell="0""#));
    assert!(xml.contains(r#"allowOverlap="1""#));
    assert!(xml.contains(r#"simplePos="0""#));

    assert!(!xml.contains("true"));
    assert!(!xml.contains("false"));
}

#[test]
fn test_position_h_validation() {
    let broken_pos =
        PositionH { relative_from: "column".to_string(), align: None, pos_offset: None };
    assert!(broken_pos.validate().is_err());

    let invalid_pos = PositionH {
        relative_from: "column".to_string(),
        align: Some("center".to_string()),
        pos_offset: Some(100),
    };
    assert!(invalid_pos.validate().is_err());

    let valid_align = PositionH {
        relative_from: "column".to_string(),
        align: Some("center".to_string()),
        pos_offset: None,
    };
    assert!(valid_align.validate().is_ok());

    let valid_offset =
        PositionH { relative_from: "column".to_string(), align: None, pos_offset: Some(100) };
    assert!(valid_offset.validate().is_ok());
}

#[test]
fn test_wp_anchor_safe_default() {
    let extent = Extent { cx: 1151890, cy: 1447165 };
    let doc_pr = DocPr { id: Some(1), name: Some("Grafik 1".to_string()), descr: None };
    let graphic = Graphic::default();

    let anchor = WpAnchor::safe_default(extent, doc_pr, graphic);

    assert!(anchor.validate().is_ok());

    assert!(anchor.position_h.align.is_some() || anchor.position_h.pos_offset.is_some());
    assert!(anchor.position_v.align.is_some() || anchor.position_v.pos_offset.is_some());
}

#[test]
fn test_position_v_validation() {
    let broken_pos =
        PositionV { relative_from: "paragraph".to_string(), align: None, pos_offset: None };
    assert!(broken_pos.validate().is_err());

    let valid_pos =
        PositionV { relative_from: "paragraph".to_string(), align: None, pos_offset: Some(82550) };
    assert!(valid_pos.validate().is_ok());
}

#[test]
fn validation_tells_missing_from_contradictory() {
    let neither = PositionH { relative_from: "page".to_string(), align: None, pos_offset: None };
    match neither.validate() {
        Err(DrawingMLError::MissingRequiredElement(m)) => {
            assert_eq!(m, "positionH requires either align or posOffset - THIS IS THE MAIN CORRUPTION CAUSE")
        }
        other => panic!("unexpected: {:?}", other),
    }
    let both = PositionV {
        relative_from: "page".to_string(),
        align: Some("top".to_string()),
        pos_offset: Some(1),
    };
    match both.validate() {
        Err(DrawingMLError::InvalidPositioning(m)) => {
            assert_eq!(m, "positionV cannot have both align and posOffset")
        }
        other => panic!("unexpected: {:?}", other),
    }
    assert_eq!(
        DrawingMLError::MissingRequiredElement("x".to_string()).message(),
        "Missing required element: x"
    );
    assert_eq!(
        DrawingMLError::InvalidPositioning("y".to_string()).message(),
        "Invalid positioning: y"
    );
    assert_eq!(
        DrawingMLError::IncompleteStructure("z".to_string()).message(),
        "Incomplete structure: z"
    );
}

#[test]
fn safe_defaults_have_the_documented_values() {
    let h = PositionH::safe_default();
    assert_eq!(h.relative_from, "column");
    assert_eq!(h.align.as_deref(), Some("center"));
    assert_eq!(h.pos_offset, None);
    let v = PositionV::safe_default();
    assert_eq!(v.relative_from, "paragraph");
    assert_eq!(v.align, None);
    assert_eq!(v.pos_offset, Some(0));
    let anchor = WpAnchor::safe_default(Extent::default(), DocPr::default(), Graphic::default());
    assert_eq!((anchor.dist_t, anchor.dist_b, anchor.dist_l, anchor.dist_r), (0, 0, 114300, 114300));
    assert_eq!(anchor.relative_height, 251659264);
    assert!(!anchor.simple_pos && !anchor.behind_doc && !anchor.locked);
    assert!(anchor.layout_in_cell && anchor.allow_overlap);
    assert_eq!(anchor.size_rel_h.relative_from, "margin");
    assert_eq!(anchor.size_rel_v.pct_height, 0);
    assert!(anchor.graphic_frame_pr.graphic_frame_locks.no_change_aspect);
    assert_eq!(anchor.effect_extent.l, 0);
}

#[test]
fn positions_are_written_with_exactly_one_child() {
    let align = PositionH {
        relative_from: "column".to_string(),
        align: Some("center".to_string()),
        pos_offset: None,
    };
    assert_eq!(
        align.to_xml(),
        r#"<wp:positionH relativeFrom="column"><wp:align>center</wp:align></wp:positionH>"#
    );
    let offset =
        PositionV { relative_from: "paragraph".to_string(), align: None, pos_offset: Some(-82550) };
    assert_eq!(
        offset.to_xml(),
        r#"<wp:positionV relativeFrom="paragraph"><wp:posOffset>-82550</wp:posOffset></wp:positionV>"#
    );
    let neither_h = PositionH { relative_from: "page".to_string(), align: None, pos_offset: None };
    assert_eq!(
        neither_h.to_xml(),
        r#"<wp:positionH relativeFrom="page"><wp:align>center</wp:align></wp:positionH>"#
    );
    let neither_v = PositionV { relative_from: "page".to_string(), align: None, pos_offset: None };
    assert_eq!(
        neither_v.to_xml(),
        r#"<wp:positionV relativeFrom="page"><wp:posOffset>0</wp:posOffset></wp:positionV>"#
    );
}

#[test]
fn invalid_anchor_is_not_written() {
    let mut anchor =
        WpAnchor::safe_default(Extent::default(), DocPr::default(), Graphic::default());
    anchor.position_v.pos_offset = None;
    assert!(matches!(anchor.to_xml(), Err(DrawingMLError::MissingRequiredElement(_))));
    anchor.position_v.pos_offset = Some(5);
    anchor.position_h.pos_offset = Some(5);
    assert!(matches!(anchor.validate(), Err(DrawingMLError::InvalidPositioning(_))));
}

#[test]
fn complete_anchor_is_written_in_schema_order() {
    let anchor = WpAnchor {
        dist_t: 1,
        dist_b: 2,
        dist_l: 3,
        dist_r: 4,
        simple_pos: false,
        relative_height: 5,
        behind_doc: false,
        locked: true,
        layout_in_cell: true,
        allow_overlap: false,
        position_h: PositionH::safe_default(),
        position_v: PositionV::safe_default(),
        effect_extent: EffectExtent { l: 0, t: -1, r: 0, b: 7 },
        graphic_frame_pr: CnvGraphicFramePr::default(),
        size_rel_h: SizeRelH::default(),
        size_rel_v: SizeRelV::default(),
        extent: Extent { cx: 10, cy: 20 },
        doc_pr: DocPr { id: Some(9), name: Some("a\"b".to_string()), descr: None },
        graphic: Graphic::default(),
    };
    let expected = [
            r#"<wp:anchor distT="1" distB="2" distL="3" distR="4" simplePos="0" relativeHeight="5" "#,
            r#"behindDoc="0" locked="1" layoutInCell="1" allowOverlap="0">"#,
            r#"<wp:simplePos x="0" y="0"/>"#,
            r#"<wp:positionH relativeFrom="column"><wp:align>center</wp:align></wp:positionH>"#,
            r#"<wp:positionV relativeFrom="paragraph"><wp:posOffset>0</wp:posOffset></wp:positionV>"#,
            r#"<wp:extent cx="10" cy="20"/>"#,
            r#"<wp:effectExtent l="0" t="-1" r="0" b="7"/>"#,
            r#"<wp:wrapTopAndBottom/>"#,
            r#"<wp:docPr id="9" name="a&quot;b"/>"#,
            r#"<wp:cNvGraphicFramePr><a:graphicFrameLocks noChangeAspect="1"/></wp:cNvGraphicFramePr>"#,
            r#"<a:graphic xmlns:a=""><a:graphicData uri=""/></a:graphic>"#,
            r#"<wp:sizeRelH relativeFrom="margin"><wp:pctWidth>0</wp:pctWidth></wp:sizeRelH>"#,
            r#"<wp:sizeRelV relativeFrom="margin"><wp:pctHeight>0</wp:pctHeight></wp:sizeRelV>"#,
            r#"</wp:anchor>"#,
        ]
        .concat();
    assert_eq!(anchor.to_xml().unwrap(), expected);
}

#[test]
fn an_anchor_reports_what_its_first_broken_position_reports() {
    let mut anchor = WpAnchor::safe_default(
        Extent { cx: 1, cy: 1 },
        DocPr { id: Some(1), name: Some("Grafik 1".to_string()), descr: None },
        Graphic::default(),
    );
    assert_eq!(anchor.position_h.relative_from, "column");
    assert_eq!(anchor.position_h.align.as_deref(), Some("center"));
    assert_eq!(anchor.position_h.pos_offset, None);
    assert_eq!(anchor.position_v.relative_from, "paragraph");
    assert_eq!(anchor.position_v.align, None);
    assert_eq!(anchor.position_v.pos_offset, Some(0));

    anchor.position_v.pos_offset = None;
    let vertical = anchor.position_v.validate().unwrap_err().message();
    assert_eq!(vertical, "Missing required element: positionV requires either align or posOffset");
    assert_eq!(anchor.validate().unwrap_err().message(), vertical);
    assert_eq!(anchor.to_xml().unwrap_err().message(), vertical);

    anchor.position_h.pos_offset = Some(7);
    let horizontal = anchor.position_h.validate().unwrap_err().message();
    assert_eq!(horizontal, "Invalid positioning: positionH cannot have both align and posOffset");
    assert_eq!(anchor.validate().unwrap_err().message(), horizontal);
    assert_eq!(anchor.to_xml().unwrap_err().message(), horizontal);
}
