use docx_rust::text::TextTree;
use docx_rust::codec::XmlCodec;
use docx_rust::document::{
    Body, BodyContent, Document, Hyperlink, Paragraph, ParagraphContent, Run, RunContent, Text,
};
use docx_rust::drawing::{Anchor, DocPr, Drawing, Extent, PositionHorizontal, RelativeFromH};
use docx_rust::error::DocxError;
use docx_rust::xml::{XmlElement, XmlNode};
use docx_rust::xml_read::{assemble_token, parse_tokens, qualify, tokenize, TokenKind, XmlToken};

#[test]
fn test_paragraph_with_hyperlink() {
    let mut paragraph = Paragraph::default()
        .push_text("Text before hyperlink ")
        .push_text("Link text")
        .push_text(" text after hyperlink");

    let text_before = paragraph.text();
    assert!(text_before.contains("Link text"));

    paragraph.replace_text(&[("Link text", "Updated link")]).unwrap();
    let updated_text = paragraph.text();

    assert!(updated_text.contains("Updated link"));
    assert!(!updated_text.contains("Link text"));
}

#[test]
fn test_empty_hyperlink_default() {
    let hyperlink = Hyperlink::default();
    assert_eq!(hyperlink.text(), "");

    let paragraph =
        Paragraph::default().push(ParagraphContent::Link(hyperlink)).push_text("Some text");

    assert_eq!(paragraph.text(), "Some text");
}

fn sample_document() -> Document {
    let mut document = Document::default();
    document.body.push_paragraph(Paragraph::default().push_text("First paragraph").push_text(" <&> "));
    document.body.push_paragraph(
        Paragraph::default().push(ParagraphContent::Link(
            Hyperlink::default().id("rId7").add_text("Chapter 1").add_text("    ").add_text("5"),
        )),
    );
    document
}

#[test]
fn document_text_survives_writing_and_reading() {
    let document = sample_document();
    let xml = document.to_xml();
    assert_eq!(
        xml,
        [
            r#"<?xml version="1.0" encoding="UTF-8" standalone="yes"?>"#,
            r#"<w:document><w:body>"#,
            r#"<w:p><w:r><w:t>First paragraph</w:t></w:r><w:r><w:t> &lt;&amp;&gt; </w:t></w:r></w:p>"#,
            r#"<w:p><w:hyperlink r:id="rId7"><w:r><w:t>Chapter 1</w:t></w:r><w:r><w:t>    </w:t></w:r>"#,
            r#"<w:r><w:t>5</w:t></w:r></w:hyperlink></w:p>"#,
            r#"</w:body></w:document>"#,
        ]
        .concat()
    );
    let back = Document::from_str(&xml).unwrap();
    assert_eq!(back.text(), document.text());
    assert_eq!(back.text(), "First paragraph <&> Chapter 1    5");
    assert_eq!(back.iter_text(), document.iter_text());
    assert_eq!(back.to_xml(), xml);
}

#[test]
fn reading_keeps_what_is_not_modelled() {
    let xml = [
        r#"<?xml version="1.0"?><!-- made by hand -->"#,
        r#"<w:document xmlns:w="http://schemas.openxmlformats.org/wordprocessingml/2006/main">"#,
        "\n  <w:body>",
        r#"<w:p><w:pPr><w:jc w:val="center"/></w:pPr><w:r><w:rPr><w:b/></w:rPr><w:t xml:space="preserve">a &quot;b&quot; </w:t></w:r></w:p>"#,
        r#"<w:tbl><w:tr><w:tc><w:p><w:r><w:t>cell</w:t></w:r></w:p></w:tc></w:tr></w:tbl>"#,
        r#"<w:sectPr/>"#,
        "</w:body>\n</w:document>\n",
    ]
    .concat();
    let document = Document::from_str(&xml).unwrap();
    assert_eq!(document.attributes.len(), 1);
    assert_eq!(document.attributes[0].key, "xmlns:w");
    assert_eq!(document.body.content.len(), 3);
    assert!(matches!(document.body.content[1], BodyContent::Table(_)));
    assert!(matches!(document.body.content[2], BodyContent::Other(_)));
    assert_eq!(document.text(), "a \"b\" ");
    let written = document.to_xml();
    assert!(written.contains(r#"<w:pPr><w:jc w:val="center"/></w:pPr>"#));
    assert!(written.contains(r#"<w:rPr><w:b/></w:rPr>"#));
    assert!(written.contains(r#"<w:t xml:space="preserve">a &quot;b&quot; </w:t>"#));
    assert!(written.contains(r#"<w:tbl><w:tr><w:tc><w:p><w:r><w:t>cell</w:t></w:r></w:p></w:tc></w:tr></w:tbl>"#));
    let again = Document::from_str(&written).unwrap();
    assert_eq!(again.to_xml(), written);
}

#[test]
fn malformed_text_is_refused() {
    assert!(matches!(Document::from_str("<w:document><w:body></w:document>"), Err(DocxError::Xml(_))));
    assert!(matches!(Document::from_str("<w:body/>"), Err(DocxError::Xml(_))));
    assert!(matches!(Document::from_str("<w:document/>"), Err(DocxError::Xml(_))));
    assert!(matches!(Document::from_str(""), Err(DocxError::Xml(_))));
    assert!(matches!(Document::from_str("<w:document><w:body/>"), Err(DocxError::Xml(_))));
    assert!(matches!(
        Document::from_str("<w:document><w:body><w:p><w:r><w:t>&bogus;</w:t></w:r></w:p></w:body></w:document>"),
        Err(DocxError::Xml(_))
    ));
    assert!(Document::from_str("<w:document><w:body/></w:document>").is_ok());
    assert_eq!(
        DocxError::Xml("x".to_string()).message(),
        "malformed XML: x"
    );
}

#[test]
fn drawing_in_a_run_is_read_and_written() {
    let drawing = Drawing {
        anchor: Some(Anchor {
            dist_t: Some(0),
            behind_doc: Some(true),
            position_horizontal: Some(PositionHorizontal {
                relative_from: Some(RelativeFromH::Column),
                align: Some("center".to_string()),
                pos_offset: None,
            }),
            extent: Extent { cx: 914400, cy: 914400 },
            doc_property: DocPr { id: Some(1), name: Some("Grafik 1".to_string()), descr: None },
            ..Default::default()
        }),
        inline: None,
    };
    let run = Run::default().push(RunContent::Drawing(drawing)).push_text("x");
    let xml = run.to_element().to_text();
    let back = Run::from_element(&XmlElement::from_text(&xml).unwrap()).unwrap();
    assert_eq!(back.to_element().to_text(), xml);
    match &back.content[0] {
        RunContent::Drawing(d) => {
            let a = d.anchor.as_ref().unwrap();
            assert_eq!(a.behind_doc, Some(true));
            assert_eq!(a.dist_t, Some(0));
            assert_eq!(a.extent.cx, 914400);
            assert_eq!(a.doc_property.name.as_deref(), Some("Grafik 1"));
            let h = a.position_horizontal.as_ref().unwrap();
            assert_eq!(h.relative_from, Some(RelativeFromH::Column));
            assert_eq!(h.align.as_deref(), Some("center"));
        }
        other => panic!("unexpected: {:?}", other),
    }
    assert_eq!(back.text(), "x");
}

#[test]
fn booleans_are_read_in_both_forms_and_numbers_are_checked() {
    let read = |xml: &str| Anchor::from_element(&XmlElement::from_text(xml).unwrap());
    let a = read(r#"<wp:anchor behindDoc="true" locked="0" layoutInCell="false" allowOverlap="1"><wp:docPr/></wp:anchor>"#).unwrap();
    assert_eq!((a.behind_doc, a.locked, a.layout_in_cell, a.allow_overlap), (Some(true), Some(false), Some(false), Some(true)));
    let xml = a.to_element().to_text();
    assert_eq!(
        xml,
        [
            r#"<wp:anchor behindDoc="1" locked="0" layoutInCell="0" allowOverlap="1">"#,
            r#"<wp:extent cx="0" cy="0"/><wp:docPr/>"#,
            r#"<a:graphic xmlns:a=""><a:graphicData uri=""/></a:graphic></wp:anchor>"#,
        ]
        .concat()
    );
    assert!(matches!(read(r#"<wp:anchor behindDoc="yes"><wp:docPr/></wp:anchor>"#), Err(DocxError::Xml(_))));
    assert!(matches!(read(r#"<wp:anchor distT="1.5"><wp:docPr/></wp:anchor>"#), Err(DocxError::Xml(_))));
    assert!(matches!(read(r#"<wp:anchor distT="99999999999999999999"><wp:docPr/></wp:anchor>"#), Err(DocxError::Xml(_))));
    assert!(matches!(read(r#"<wp:anchor/>"#), Err(DocxError::Xml(_))));
    assert!(matches!(read(r#"<wp:inline><wp:docPr/></wp:inline>"#), Err(DocxError::Xml(_))));
    let b = read(r#"<wp:anchor distT="-12" unknown="x"><other/><wp:docPr id="3"/></wp:anchor>"#).unwrap();
    assert_eq!(b.dist_t, Some(-12));
    assert_eq!(b.doc_property.id, Some(3));
}

#[test]
fn tokens_make_a_tree() {
    let tokens = tokenize(r#"<a x="1&amp;2"><b/>t<![CDATA[<c>]]><!-- n --></a>"#).unwrap();
    assert_eq!(tokens.len(), 9);
    assert!(matches!(&tokens[0], XmlToken::Start(n) if n == "a"));
    assert!(matches!(&tokens[1], XmlToken::Attribute(k, v) if k == "x" && v == "1&2"));
    assert!(matches!(&tokens[2], XmlToken::Open));
    assert!(matches!(&tokens[4], XmlToken::Empty));
    assert!(matches!(&tokens[5], XmlToken::Text(t) if t == "t"));
    assert!(matches!(&tokens[6], XmlToken::Text(t) if t == "<c>"));
    assert!(matches!(&tokens[7], XmlToken::Other));
    assert!(matches!(&tokens[8], XmlToken::Close(n) if n == "a"));
    let root = parse_tokens(&tokens).unwrap();
    assert_eq!(root.tag, "a");
    assert_eq!(root.attribute("x").unwrap(), "1&2");
    assert_eq!(root.children.len(), 3);
    assert!(matches!(&root.children[0], XmlNode::Element(e) if e.tag == "b"));
    assert_eq!(root.text(), "t<c>");
    assert_eq!(root.to_text(), r#"<a x="1&amp;2"><b/>t&lt;c&gt;</a>"#);

    let broken = vec![XmlToken::Start("a".to_string()), XmlToken::Open, XmlToken::Close("b".to_string())];
    assert!(parse_tokens(&broken).is_err());
    let unfinished = vec![XmlToken::Start("a".to_string()), XmlToken::Open];
    assert!(parse_tokens(&unfinished).is_err());
    let only_other = vec![XmlToken::Other];
    assert!(parse_tokens(&only_other).is_err());
    let with_prologue = vec![XmlToken::Other, XmlToken::Start("a".to_string()), XmlToken::Empty, XmlToken::Other];
    assert_eq!(parse_tokens(&with_prologue).unwrap().tag, "a");
}

#[test]
fn names_are_qualified_and_tokens_assembled() {
    assert_eq!(qualify("w", "p"), "w:p");
    assert_eq!(qualify("", "Types"), "Types");
    assert!(matches!(
        assemble_token(TokenKind::ElementClose, "w", "p", None),
        Some(XmlToken::Close(n)) if n == "w:p"
    ));
    assert!(assemble_token(TokenKind::Attribute, "", "a", None).is_none());
    assert!(assemble_token(TokenKind::Text, "", "", None).is_none());
    assert!(matches!(
        assemble_token(TokenKind::Cdata, "", "", Some("x".to_string())),
        Some(XmlToken::Text(t)) if t == "x"
    ));
    assert!(matches!(assemble_token(TokenKind::Other, "", "", None), Some(XmlToken::Other)));
}

#[test]
fn body_replacement_reaches_every_leaf() {
    let mut body = Body::default();
    body.push_paragraph(Paragraph::default().push_text("Before link ").push_text("old text").push_text(" after link"));
    body.push(BodyContent::Paragraph(Paragraph::default().push(ParagraphContent::Run(
        Run::default().push(RunContent::Text(Text::new("old text again"))),
    ))));
    body.replace_text_simple("old text", "new text");
    let text = body.text();
    assert_eq!(text, "Before link new text after linknew text again");
    assert_eq!(body.iter_text(), vec!["Before link ", "new text", " after link", "new text again"]);
}

#[test]
fn characters_that_xml_cannot_carry_are_refused_on_reading() {
    let mut document = Document::default();
    document.body.push_paragraph(Paragraph::default().push_text("a\u{0}b"));
    assert!(matches!(Document::from_str(&document.to_xml()), Err(DocxError::Xml(_))));
    let mut document = Document::default();
    document.body.push_paragraph(Paragraph::default().push_text("a\r\nb\t"));
    assert_eq!(Document::from_str(&document.to_xml()).unwrap().text(), "a\r\nb\t");
}
