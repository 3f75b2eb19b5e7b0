use docx_rust::codec::XmlCodec;
use docx_rust::compat::{DrawingCompatibilityWarning, Fragility};
use docx_rust::codec::Keyword;
use docx_rust::drawing::{
    Anchor, DocPr, Drawing, EffectExtent, Extent, Graphic, GraphicContent, Inline,
    PositionHorizontal, PositionVertical, RelativeFromH, RelativeFromV, SizeRelH, Wrap,
    WrapTextType,
};
use docx_rust::xml::XmlElement;
use docx_rust::error::DrawingMLError;

fn create_complex_anchor_drawing() -> Drawing {
    Drawing {
        anchor: Some(Anchor {
            position_horizontal: Some(PositionHorizontal {
                relative_from: Some(RelativeFromH::Column),
                align: Some("center".to_string()),
                pos_offset: None,
            }),
            behind_doc: Some(true),
            ..Default::default()
        }),
        inline: None,
    }
}

fn create_simple_inline_drawing() -> Drawing {
    Drawing {
        anchor: None,
        inline: Some(Inline {
            dist_t: Some(0),
            dist_b: Some(0),
            dist_l: Some(0),
            dist_r: Some(0),
            ..Default::default()
        }),
    }
}

fn sturdy_anchor() -> Anchor {
    Anchor {
        simple_pos_attr: Some(1),
        position_horizontal: Some(PositionHorizontal {
            relative_from: Some(RelativeFromH::Page),
            align: None,
            pos_offset: Some(100),
        }),
        position_vertical: Some(PositionVertical {
            relative_from: None,
            align: None,
            pos_offset: Some(0),
        }),
        ..Default::default()
    }
}

#[test]
fn test_safe_mode_conversion() {
    let mut drawing = create_complex_anchor_drawing();

    let warnings = drawing.sanitize_for_compatibility().unwrap();

    match (&drawing.anchor, &drawing.inline) {
        (None, Some(_)) => {}
        _ => panic!("Should have converted complex anchor to inline"),
    }

    assert!(!warnings.is_empty());
    assert!(matches!(warnings[0], DrawingCompatibilityWarning::ComplexAnchorConverted { .. }));
}

#[test]
fn test_simple_inline_unchanged() {
    let mut drawing = create_simple_inline_drawing();

    let warnings = drawing.sanitize_for_compatibility().unwrap();

    match (&drawing.anchor, &drawing.inline) {
        (None, Some(_)) => {}
        _ => panic!("Simple inline should remain unchanged"),
    }

    assert!(warnings.is_empty());
}

#[test]
fn sanitizing_keeps_distances_size_identity_and_graphic() {
    let mut drawing = Drawing {
        anchor: Some(Anchor {
            dist_t: Some(1),
            dist_b: Some(2),
            dist_l: Some(3),
            dist_r: Some(4),
            relative_height: Some(9),
            behind_doc: Some(true),
            simple_pos_attr: Some(1),
            extent: Extent { cx: 914400, cy: 2 },
            doc_property: DocPr { id: Some(7), name: Some("pic".to_string()), descr: None },
            graphic: Graphic { a: "ns".to_string(), ..Default::default() },
            ..Default::default()
        }),
        inline: None,
    };
    let warnings = drawing.sanitize_for_compatibility().unwrap();
    assert_eq!(warnings.len(), 1);
    match &warnings[0] {
        DrawingCompatibilityWarning::ComplexAnchorConverted { reason } => {
            assert_eq!(reason, "drawing behind the text")
        }
        other => panic!("unexpected: {:?}", other),
    }
    assert!(drawing.anchor.is_none());
    let inline = drawing.inline.as_ref().unwrap();
    assert_eq!((inline.dist_t, inline.dist_b, inline.dist_l, inline.dist_r), (Some(1), Some(2), Some(3), Some(4)));
    assert_eq!(inline.extent.cx, 914400);
    assert_eq!(inline.doc_property.id, Some(7));
    assert_eq!(inline.graphic.a, "ns");

    let again = drawing.sanitize_for_compatibility().unwrap();
    assert!(again.is_empty());
    assert!(drawing.anchor.is_none());
    assert_eq!(drawing.inline.as_ref().unwrap().doc_property.id, Some(7));
}

#[test]
fn sturdy_anchor_stays_an_anchor() {
    let mut drawing = Drawing { anchor: Some(sturdy_anchor()), inline: None };
    assert!(!drawing.is_complex_anchor(&sturdy_anchor()));
    let warnings = drawing.sanitize_for_compatibility().unwrap();
    assert!(warnings.is_empty());
    assert!(drawing.anchor.is_some());
    assert!(drawing.inline.is_none());
}

#[test]
fn each_cause_of_fragility_is_found_in_order() {
    let mut a = sturdy_anchor();
    assert_eq!(a.find_fragility(), None);
    a.simple_pos_attr = Some(0);
    assert_eq!(a.find_fragility(), Some(Fragility::NoSimplePosition));
    a.simple_pos_attr = None;
    assert_eq!(a.find_fragility(), Some(Fragility::NoSimplePosition));
    a.behind_doc = Some(true);
    assert_eq!(a.find_fragility(), Some(Fragility::BehindDocument));
    a.size_rel_h = Some(SizeRelH::default());
    assert_eq!(a.find_fragility(), Some(Fragility::BehindDocument));
    a.size_rel_h = Some(SizeRelH { relative_from: "page".to_string(), pct_width: 0 });
    assert_eq!(a.find_fragility(), Some(Fragility::RelativeWidth));
    a.effect_extent = Some(EffectExtent::default());
    assert_eq!(a.find_fragility(), Some(Fragility::RelativeWidth));
    a.effect_extent = Some(EffectExtent { l: 0, t: 0, r: 1, b: 0 });
    assert_eq!(a.find_fragility(), Some(Fragility::EffectExtent));
    a.position_vertical.as_mut().unwrap().align = Some("top".to_string());
    assert_eq!(a.find_fragility(), Some(Fragility::VerticalAlignment));
    a.position_horizontal.as_mut().unwrap().align = Some("left".to_string());
    assert_eq!(a.find_fragility(), Some(Fragility::HorizontalAlignment));
    assert_eq!(Fragility::HorizontalAlignment.describe(), "horizontal alignment keyword");
}

#[test]
fn position_without_alignment_and_offset_fails_validation() {
    let neither = PositionHorizontal { relative_from: None, align: None, pos_offset: None };
    assert!(matches!(neither.validate(), Err(DrawingMLError::MissingRequiredElement(_))));
    let with_offset =
        PositionHorizontal { relative_from: None, align: None, pos_offset: Some(100) };
    assert!(with_offset.validate().is_ok());
    let with_align = PositionVertical {
        relative_from: None,
        align: Some("top".to_string()),
        pos_offset: None,
    };
    assert!(with_align.validate().is_ok());
    let both = PositionVertical {
        relative_from: None,
        align: Some("top".to_string()),
        pos_offset: Some(1),
    };
    assert!(matches!(both.validate(), Err(DrawingMLError::InvalidPositioning(_))));
}

#[test]
fn validation_names_positions_that_lack_everything() {
    let mut anchor = sturdy_anchor();
    let drawing = Drawing { anchor: Some(anchor.clone()), inline: None };
    assert!(drawing.validate_compatibility().is_empty());

    anchor.position_horizontal.as_mut().unwrap().pos_offset = None;
    anchor.position_vertical = None;
    let drawing = Drawing { anchor: Some(anchor), inline: None };
    let warnings = drawing.validate_compatibility();
    assert_eq!(warnings.len(), 1);
    match &warnings[0] {
        DrawingCompatibilityWarning::MissingRequiredElements { elements } => assert_eq!(
            elements,
            &vec![
                "positionH.align or positionH.posOffset".to_string(),
                "positionV.align or positionV.posOffset".to_string()
            ]
        ),
        other => panic!("unexpected: {:?}", other),
    }
    assert!(drawing.anchor.is_some());
    assert!(create_simple_inline_drawing().validate_compatibility().is_empty());
}

#[test]
fn anchor_is_written_with_digit_booleans_and_children_in_schema_order() {
    let anchor = Anchor {
        dist_t: Some(0),
        dist_r: Some(-5),
        behind_doc: Some(false),
        locked: Some(true),
        layout_in_cell: Some(false),
        allow_overlap: Some(true),
        position_horizontal: Some(PositionHorizontal {
            relative_from: Some(RelativeFromH::Column),
            align: None,
            pos_offset: Some(100),
        }),
        extent: Extent { cx: 914400, cy: 457200 },
        doc_property: DocPr { id: Some(1), name: Some("A & B".to_string()), descr: None },
        ..Default::default()
    };
    let xml = anchor.to_element().to_text();
    assert_eq!(
        xml,
        [
            r#"<wp:anchor distT="0" distR="-5" behindDoc="0" locked="1" layoutInCell="0" allowOverlap="1">"#,
            r#"<wp:positionH relativeFrom="column"><wp:posOffset>100</wp:posOffset></wp:positionH>"#,
            r#"<wp:extent cx="914400" cy="457200"/>"#,
            r#"<wp:docPr id="1" name="A &amp; B"/>"#,
            r#"<a:graphic xmlns:a=""><a:graphicData uri=""/></a:graphic>"#,
            r#"</wp:anchor>"#,
        ]
        .concat()
    );
    assert!(!xml.contains("true"));
    assert!(!xml.contains("false"));
}

#[test]
fn inline_always_carries_its_identity() {
    let inline = Inline { extent: Extent { cx: 1, cy: 2 }, ..Default::default() };
    assert_eq!(
        inline.to_element().to_text(),
        [
            r#"<wp:inline><wp:extent cx="1" cy="2"/><wp:docPr/>"#,
            r#"<a:graphic xmlns:a=""><a:graphicData uri=""/></a:graphic></wp:inline>"#,
        ]
        .concat()
    );
}

#[test]
fn an_anchor_without_size_or_graphic_is_still_written_with_both() {
    let xml = Anchor::default().to_element().to_text();
    assert_eq!(xml.matches("<wp:extent cx=\"0\" cy=\"0\"/>").count(), 1);
    assert_eq!(xml.matches("<wp:docPr/>").count(), 1);
    assert_eq!(xml.matches("<a:graphic ").count(), 1);
}

#[test]
fn what_a_graphic_holds_is_kept_as_it_was_read() {
    let xml = [
        r#"<a:graphic xmlns:a="ns"><a:graphicData uri="u">"#,
        r#"<pic:pic xmlns:pic="p"><pic:nvPicPr><pic:cNvPr id="0" name="n"/><pic:cNvPicPr/></pic:nvPicPr>"#,
        r#"<pic:blipFill><a:blip r:embed="rId4"/><a:stretch><a:fillRect/></a:stretch></pic:blipFill>"#,
        r#"<pic:spPr><a:xfrm><a:off x="0" y="0"/><a:ext cx="1" cy="2"/></a:xfrm><a:prstGeom prst="rect"><a:avLst/></a:prstGeom></pic:spPr></pic:pic>"#,
        r#"<c:chart r:id="rId5"><c:title>t</c:title></c:chart>"#,
        r#"</a:graphicData></a:graphic>"#,
    ]
    .concat();
    let graphic = Graphic::from_element(&XmlElement::from_text(&xml).unwrap()).unwrap();
    assert_eq!(graphic.data.children.len(), 2);
    match &graphic.data.children[0] {
        GraphicContent::Picture(p) => {
            assert_eq!(p.fill.blip.embed, "rId4");
            assert!(p.fill.stretch.as_ref().unwrap().fill_rect.is_some());
            assert_eq!(p.sp_pr.xfrm.as_ref().unwrap().ext.as_ref().unwrap().cy, Some(2));
            assert_eq!(p.sp_pr.prst_geom.as_ref().unwrap().prst.as_deref(), Some("rect"));
            assert_eq!(p.nv_pic_pr.c_nv_pr.as_ref().unwrap().name.as_deref(), Some("n"));
        }
        other => panic!("unexpected: {:?}", other),
    }
    assert!(matches!(&graphic.data.children[1], GraphicContent::Other(e) if e.tag == "c:chart"));
    assert_eq!(graphic.to_element().to_text(), xml);
    let incomplete = r#"<a:graphic><a:graphicData><pic:pic/></a:graphicData></a:graphic>"#;
    assert!(Graphic::from_element(&XmlElement::from_text(incomplete).unwrap()).is_err());
}

#[test]
fn wrapping_and_keywords_are_read_by_name() {
    let read = |xml: &str| Anchor::from_element(&XmlElement::from_text(xml).unwrap());
    let a = read(concat_anchor(r#"<wp:wrapTight wrapText="bothSides"><wp:wrapPolygon edited="0"><wp:start x="1" y="2"/><wp:lineTo x="3" y="4"/><wp:lineTo x="5" y="6"/></wp:wrapPolygon></wp:wrapTight>"#).as_str()).unwrap();
    match a.wrap.as_ref().unwrap() {
        Wrap::Tight(t) => {
            assert_eq!(t.wrap_text, WrapTextType::Both);
            assert_eq!(t.wrap_polygon.edited, Some(false));
            assert_eq!(t.wrap_polygon.start.x, Some(1));
            assert_eq!(t.wrap_polygon.lineto.len(), 2);
            assert_eq!(t.wrap_polygon.lineto[1].y, Some(6));
        }
        other => panic!("unexpected: {:?}", other),
    }
    let b = read(concat_anchor("<wp:wrapNone/><wp:wrapSquare/>").as_str()).unwrap();
    assert!(matches!(b.wrap, Some(Wrap::NoWrap(_))));
    assert!(b.to_element().to_text().contains("<wp:wrapNone/><wp:docPr/>"));
    assert!(read(concat_anchor(r#"<wp:wrapTight wrapText="left"><wp:wrapPolygon><wp:start/></wp:wrapPolygon></wp:wrapTight>"#).as_str()).is_err());
    assert!(read(concat_anchor("<wp:wrapTight/>").as_str()).is_err());
    assert!(read(r#"<wp:anchor><wp:positionV relativeFrom="sideways"/><wp:docPr/></wp:anchor>"#).is_err());
    let c = read(r#"<wp:anchor><wp:positionV relativeFrom="topMargin"><wp:align>top</wp:align></wp:positionV><wp:docPr/></wp:anchor>"#).unwrap();
    assert_eq!(c.position_vertical.as_ref().unwrap().relative_from, Some(RelativeFromV::TopMargin));
    assert_eq!(RelativeFromH::OUtsideMargin.as_str(), "outsideMargin");
    assert_eq!(RelativeFromV::parse("paragraph"), Some(RelativeFromV::Paragraph));
    assert_eq!(RelativeFromV::parse("column"), None);
    assert_eq!(RelativeFromH::parse("column"), Some(RelativeFromH::Column));
}

fn concat_anchor(inner: &str) -> String {
    ["<wp:anchor>", inner, "<wp:docPr/></wp:anchor>"].concat()
}
