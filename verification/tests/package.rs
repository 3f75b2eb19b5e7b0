use docx_rust::text::TextTree;
use zip::HasZipMetadata;
use docx_rust::compat::DrawingCompatibilityWarning;
use docx_rust::container::{pack, unpack, Entry, Part};
use docx_rust::content_type::{ContentTypes, DefaultContentType, OverrideContentType};
use docx_rust::codec::XmlCodec;
use docx_rust::compatible::CompatibleXml;
use docx_rust::document::{
    Body, BodyContent, Document, Footer, Header, Hyperlink, Paragraph, ParagraphContent, Run,
    RunContent,
};
use docx_rust::sweep::DrawingTree;
use docx_rust::docx::DEFAULT_STYLES;
use docx_rust::Docx;
use docx_rust::docx_file::{classify, collect_files, collect_texts, load_required_text, load_text, DocxFile, PartKind};
use docx_rust::drawing::{Anchor, Drawing, Inline, PositionHorizontal};
use docx_rust::error::DocxError;
use docx_rust::parse::file_name_of;
use docx_rust::media::{get_media_type, get_media_type_relation_type, image_content_type, MediaType};
use docx_rust::registry::{extension_of, knows_type, Scope};
use docx_rust::rels::{Relationship, Relationships};
use docx_rust::save::DocxSaveOptions;
use docx_rust::schema::{SCHEMA_FOOTER, SCHEMA_HEADER, SCHEMA_IMAGE, SCHEMA_OFFICE_DOCUMENT, SCHEMA_STYLES};

#[test]
fn test_simple_hyperlink_text_replacement() {
    let mut docx = Docx::default();

    let paragraph = Paragraph::default()
        .push_text("Before link ")
        .push_text("old text")
        .push_text(" after link");

    docx.document.body.push_paragraph(paragraph);

    docx.document.body.replace_text_simple("old text", "new text");
    let text = docx.document.body.text();

    assert!(text.contains("new text"));
    assert!(!text.contains("old text"));

    let buffer = docx.write().expect("Failed to write DOCX");

    let docx_file = DocxFile::from_reader(buffer).expect("Failed to read DOCX");
    let read_docx = docx_file.parse().expect("Failed to parse DOCX");

    let read_text = read_docx.document.body.text();
    assert!(read_text.contains("new text"));
}

#[test]
fn test_document_roundtrip_with_complex_content() {
    let mut docx = Docx::default();

    let para1 = Paragraph::default().push_text("First paragraph with some text");

    let para2 = Paragraph::default()
        .push_text("Second paragraph with ")
        .push_text("replaceable text")
        .push_text(" for testing");

    docx.document.body.push_paragraph(para1);
    docx.document.body.push_paragraph(para2);

    docx.document.body.replace_text_simple("replaceable text", "replaced content");

    let buffer = docx.write().expect("Failed to write");

    let docx_file = DocxFile::from_reader(buffer).expect("Failed to read");
    let read_docx = docx_file.parse().expect("Failed to parse");

    let text = read_docx.document.body.text();
    assert!(text.contains("replaced content"));
    assert!(!text.contains("replaceable text"));
    assert!(text.contains("First paragraph"));
    assert!(text.contains("Second paragraph"));
}

fn fragile_drawing() -> Drawing {
    Drawing {
        anchor: Some(Anchor {
            behind_doc: Some(true),
            position_horizontal: Some(PositionHorizontal {
                relative_from: None,
                align: None,
                pos_offset: None,
            }),
            ..Default::default()
        }),
        inline: None,
    }
}

#[test]
fn container_holds_what_one_header_and_one_image_need() {
    let image: Vec<u8> = vec![0x89, b'P', b'N', b'G', 1, 2, 3];
    let mut docx = Docx::default();
    docx.document.body.push_paragraph(Paragraph::default().push_text("body"));
    let mut header = Header::default();
    header.content.push(BodyContent::Paragraph(Paragraph::default().push_text("head")));
    docx.headers.push(("header1.xml".to_string(), header));
    docx.media.push(("media/image1.png".to_string(), MediaType::Image, &image));

    let bytes = docx.write().unwrap();

    for part in docx.collect_parts() {
        assert!(docx.content_types.content_type_of(&part.name).is_some(), "{}", part.name);
    }
    assert_eq!(
        docx.content_types.content_type_of("word/header1.xml").unwrap(),
        "application/vnd.openxmlformats-officedocument.wordprocessingml.header+xml"
    );
    assert_eq!(docx.content_types.content_type_of("word/media/image1.png").unwrap(), "image/png");
    assert_eq!(
        docx.content_types.content_type_of("_rels/.rels").unwrap(),
        "application/vnd.openxmlformats-package.relationships+xml"
    );

    let entries = unpack(bytes.clone()).unwrap();
    let names: Vec<&str> = entries.iter().map(|e| e.name.as_str()).collect();
    assert_eq!(
        names,
        vec![
            "[Content_Types].xml",
            "_rels/.rels",
            "word/document.xml",
            "word/styles.xml",
            "word/_rels/document.xml.rels",
            "word/header1.xml",
            "word/media/image1.png",
        ]
    );
    assert_eq!(entries[6].data.as_ref().unwrap(), &image);

    let rels_text = String::from_utf8(entries[4].data.clone().unwrap()).unwrap();
    let rels = Relationships::from_str(&rels_text).unwrap();
    let links: Vec<(&str, &str, &str)> = rels
        .relationships
        .iter()
        .map(|r| (r.id.as_str(), r.ty.as_str(), r.target.as_str()))
        .collect();
    assert_eq!(
        links,
        vec![
            ("rId1", SCHEMA_STYLES, "styles.xml"),
            ("rId2", SCHEMA_HEADER, "header1.xml"),
            ("rId3", SCHEMA_IMAGE, "media/image1.png"),
        ]
    );

    let file = DocxFile::from_reader(bytes).unwrap();
    let back = file.parse().unwrap();
    assert_eq!(back.headers.len(), 1);
    assert_eq!(back.headers[0].0, "header1.xml");
    assert_eq!(back.headers[0].1.text(), "head");
    assert_eq!(back.media.len(), 1);
    assert_eq!(back.media[0].0, "media/image1.png");
    assert_eq!(back.media[0].2, &image);
    assert_eq!(back.document.text(), "body");
    assert_eq!(back.styles, DEFAULT_STYLES);
    for part in back.collect_parts() {
        assert!(back.content_types.content_type_of(&part.name).is_some(), "{}", part.name);
    }
    let package_links: Vec<(&str, &str)> =
        back.rels.relationships.iter().map(|r| (r.ty.as_str(), r.target.as_str())).collect();
    assert_eq!(package_links, vec![(SCHEMA_OFFICE_DOCUMENT, "word/document.xml")]);
}

#[test]
fn writing_twice_registers_nothing_twice() {
    let mut docx = Docx::default();
    docx.footers.push(("footer1.xml".to_string(), Footer::default()));
    let first = docx.write().unwrap();
    let rels = docx.document_rels.as_ref().unwrap().relationships.len();
    let overrides = docx.content_types.overrides.len();
    let second = docx.write().unwrap();
    assert_eq!(docx.document_rels.as_ref().unwrap().relationships.len(), rels);
    assert_eq!(docx.content_types.overrides.len(), overrides);
    assert_eq!(first, second);
    let link = &docx.document_rels.as_ref().unwrap().relationships[1];
    assert_eq!((link.ty.as_str(), link.target.as_str()), (SCHEMA_FOOTER, "footer1.xml"));
}

#[test]
fn relationships_get_the_next_unused_id() {
    let mut rels = Relationships::default();
    rels.add_rel("t", "a");
    rels.add_rel("t", "b");
    rels.add_rel("t", "a");
    assert_eq!(rels.relationships.len(), 2);
    assert_eq!(rels.relationships[1].id, "rId2");
    rels.relationships.remove(0);
    rels.add_rel("u", "c");
    assert_eq!(rels.relationships[1].id, "rId1");
    assert_eq!(rels.append_rel("u", "c"), "rId3");
    assert_eq!(rels.relationships.len(), 3);
    assert_eq!(rels.next_unused_id(), "rId4");
    assert!(rels.is_used("rId2"));
    assert!(!rels.is_used("rId9"));
    assert_eq!(rels.find("u", "c"), Some(1));
    assert_eq!(rels.find("u", "a"), None);
    rels.add_all(&vec![("t".to_string(), "b".to_string()), ("x".to_string(), "y".to_string())]);
    assert_eq!(rels.relationships.len(), 4);
    assert_eq!(rels.relationships[3].id, "rId4");
    assert_eq!(
        rels.to_xml(),
        [
            r#"<?xml version="1.0" encoding="UTF-8" standalone="yes"?>"#,
            r#"<Relationships xmlns="http://schemas.openxmlformats.org/package/2006/relationships">"#,
            r#"<Relationship Id="rId2" Type="t" Target="b"/>"#,
            r#"<Relationship Id="rId1" Type="u" Target="c"/>"#,
            r#"<Relationship Id="rId3" Type="u" Target="c"/>"#,
            r#"<Relationship Id="rId4" Type="x" Target="y"/>"#,
            r#"</Relationships>"#,
        ]
        .concat()
    );
}

#[test]
fn relationships_of_unknown_type_are_kept() {
    let text = r#"<Relationships xmlns="x"><Relationship Id="rId5" Type="http://example.org/odd" Target="https://example.org" TargetMode="External"/></Relationships>"#;
    let rels = Relationships::from_str(text).unwrap();
    assert_eq!(rels.relationships.len(), 1);
    let r: &Relationship = &rels.relationships[0];
    assert_eq!(r.id, "rId5");
    assert_eq!(r.target_mode.as_deref(), Some("External"));
    assert!(rels.to_xml().contains(r#"TargetMode="External""#));
}

#[test]
fn known_relationships_are_a_view_of_all() {
    let mut rels = Relationships::default();
    rels.add_rel(SCHEMA_HEADER, "header1.xml");
    rels.add_rel("http://example.org/odd", "odd.bin");
    rels.add_rel(SCHEMA_OFFICE_DOCUMENT, "word/document.xml");
    rels.add_rel(SCHEMA_IMAGE, "media/a.png");
    let document = rels.known(Scope::Document);
    let ids: Vec<&str> = document.relationships.iter().map(|r| r.id.as_str()).collect();
    assert_eq!(ids, vec!["rId1", "rId4"]);
    let package = rels.known(Scope::Package);
    assert_eq!(package.relationships.len(), 1);
    assert_eq!(package.relationships[0].target, "word/document.xml");
    assert_eq!(rels.relationships.len(), 4);
    assert!(knows_type(Scope::Document, SCHEMA_STYLES));
    assert!(!knows_type(Scope::Package, SCHEMA_STYLES));
    assert!(!knows_type(Scope::Document, ""));
}

#[test]
fn content_types_resolve_by_override_then_by_extension() {
    let mut types = ContentTypes {
        defaults: vec![DefaultContentType { ext: "xml".to_string(), ty: "application/xml".to_string() }],
        overrides: vec![OverrideContentType {
            part: "/word/document.xml".to_string(),
            ty: "main".to_string(),
        }],
    };
    assert_eq!(types.content_type_of("word/document.xml").unwrap(), "main");
    assert_eq!(types.content_type_of("word/other.xml").unwrap(), "application/xml");
    assert_eq!(types.content_type_of("word/media/a.png"), None);
    assert_eq!(types.content_type_of("noextension"), None);
    types.ensure_default("png", "image/png");
    types.ensure_default("png", "image/other");
    assert_eq!(types.defaults.len(), 2);
    assert_eq!(types.content_type_of("word/media/a.png").unwrap(), "image/png");
    types.ensure_override("word/document.xml", "again");
    assert_eq!(types.overrides.len(), 1);
    types.ensure_override("noextension", "plain");
    assert_eq!(types.content_type_of("noextension").unwrap(), "plain");
    types.ensure_overrides(&vec![
        ("a.bin".to_string(), "A".to_string()),
        ("noextension".to_string(), "B".to_string()),
    ]);
    assert_eq!(types.overrides.len(), 3);
    assert_eq!(types.content_type_of("a.bin").unwrap(), "A");
    let back = ContentTypes::from_str(&types.to_xml()).unwrap();
    assert_eq!(back.defaults.len(), 2);
    assert_eq!(back.overrides.len(), 3);
    assert_eq!(back.content_type_of("word/document.xml").unwrap(), "main");
    assert_eq!(extension_of("word/media/a.b.PNG"), "PNG");
    assert_eq!(extension_of("none"), "");
    assert_eq!(extension_of("dir.d/none"), "d/none");
}

#[test]
fn media_are_known_by_their_extension() {
    assert_eq!(get_media_type("word/media/image1.png"), Some(MediaType::Image));
    assert_eq!(get_media_type("word/media/image1.jpeg"), Some(MediaType::Image));
    assert_eq!(get_media_type("word/media/sound.wav"), None);
    assert_eq!(get_media_type("png"), None);
    assert_eq!(get_media_type_relation_type(&MediaType::Image), SCHEMA_IMAGE);
    assert_eq!(image_content_type("jpg"), Some("image/jpeg"));
    assert_eq!(image_content_type("tiff"), Some("image/tiff"));
    assert_eq!(image_content_type("emf"), Some("image/x-emf"));
    assert_eq!(image_content_type("txt"), None);
}

fn entry(name: &str, data: &[u8]) -> Entry {
    Entry { name: name.to_string(), data: Some(data.to_vec()) }
}

fn minimal_entries() -> Vec<Entry> {
    vec![
        entry("[Content_Types].xml", b"<Types/>"),
        entry("_rels/.rels", b"<Relationships/>"),
        entry("word/document.xml", b"<w:document><w:body/></w:document>"),
    ]
}

#[test]
fn parts_that_must_be_there_are_asked_for() {
    assert!(DocxFile::from_entries(&minimal_entries()).is_ok());
    for missing in 0..3 {
        let mut entries = minimal_entries();
        entries.remove(missing);
        assert!(matches!(DocxFile::from_entries(&entries), Err(DocxError::Zip(_))));
    }
    let mut entries = minimal_entries();
    entries.push(entry("word/styles.xml", &[0xff, 0xfe]));
    assert!(matches!(DocxFile::from_entries(&entries), Err(DocxError::IO(_))));
    let mut entries = minimal_entries();
    entries.push(Entry { name: "docProps/app.xml".to_string(), data: None });
    assert!(matches!(DocxFile::from_entries(&entries), Err(DocxError::Zip(_))));
    assert!(matches!(DocxFile::from_reader(vec![1, 2, 3]), Err(DocxError::Zip(_))));
    assert_eq!(DocxError::Zip("x".to_string()).message(), "unable to unpack file: x");
    assert_eq!(DocxError::IO("x".to_string()).message(), "IO error: x");
    assert_eq!(
        DocxError::DrawingMLCompatibility("x".to_string()).message(),
        "DrawingML compatibility error: x"
    );
}

#[test]
fn entries_are_sorted_by_the_kind_of_their_name() {
    assert_eq!(classify("word/document.xml"), PartKind::Single);
    assert_eq!(classify("word/header2.xml"), PartKind::Header);
    assert_eq!(classify("word/footer1.xml"), PartKind::Footer);
    assert_eq!(classify("word/theme/theme1.xml"), PartKind::Theme);
    assert_eq!(classify("word/media/image1.png"), PartKind::Media);
    assert_eq!(classify("customXml/item1.xml"), PartKind::Custom);
    assert_eq!(classify("docProps/custom.xml"), PartKind::Custom);
    assert_eq!(classify("word/glossary/document.xml"), PartKind::Unknown);
    assert_eq!(classify("x/word/header1.xml"), PartKind::Unknown);

    let mut entries = minimal_entries();
    entries.push(entry("word/header1.xml", b"<w:hdr/>"));
    entries.push(Entry { name: "word/header2.xml".to_string(), data: None });
    entries.push(entry("word/header3.xml", &[0xff]));
    entries.push(entry("word/media/a.png", &[1, 2]));
    entries.push(entry("word/media/b.wav", &[3]));
    entries.push(entry("customXml/item1.xml", b"<x/>"));
    entries.push(entry("word/webSettings.xml", b"<ns0:webSettings/>"));
    entries.push(entry("word/document.xml", b"second"));
    assert_eq!(collect_texts(&entries, PartKind::Header), vec![("word/header1.xml".to_string(), "<w:hdr/>".to_string())]);
    assert_eq!(collect_files(&entries, PartKind::Media).len(), 2);
    assert_eq!(load_text(&entries, "word/styles.xml").unwrap(), None);
    assert_eq!(load_required_text(&entries, "word/document.xml").unwrap(), "<w:document><w:body/></w:document>");

    let file = DocxFile::from_entries(&entries).unwrap();
    assert_eq!(file.headers.len(), 1);
    assert_eq!(file.medias.len(), 2);
    assert_eq!(file.custom_xml.len(), 1);
    let docx = file.parse().unwrap();
    assert_eq!(docx.headers[0].0, "header1.xml");
    assert_eq!(docx.media.len(), 1);
    assert_eq!(docx.media[0].0, "media/a.png");
    assert_eq!(docx.web_settings.as_deref(), Some("<ns0:webSettings/>"));
    assert_eq!(docx.styles, DEFAULT_STYLES);
    assert_eq!(docx.custom_xml[0].0, "customXml/item1.xml");
}

#[test]
fn a_part_that_cannot_be_read_fails_the_whole_package() {
    let mut entries = minimal_entries();
    entries[2] = entry("word/document.xml", b"<w:document><w:body></w:document>");
    let file = DocxFile::from_entries(&entries).unwrap();
    assert!(matches!(file.parse(), Err(DocxError::Xml(_))));
    let mut entries = minimal_entries();
    entries.push(entry("word/footer1.xml", b"<w:hdr/>"));
    let file = DocxFile::from_entries(&entries).unwrap();
    assert!(matches!(file.parse(), Err(DocxError::Xml(_))));
}

#[test]
fn packing_keeps_order_names_and_bytes() {
    let parts = vec![
        Part { name: "b.txt".to_string(), data: b"second comes first".to_vec() },
        Part { name: "a/empty".to_string(), data: vec![] },
    ];
    let bytes = pack(&parts).unwrap();
    let entries = unpack(bytes).unwrap();
    assert_eq!(entries.len(), 2);
    assert_eq!(entries[0].name, "b.txt");
    assert_eq!(entries[0].data.as_deref(), Some(&b"second comes first"[..]));
    assert_eq!(entries[1].name, "a/empty");
    assert_eq!(entries[1].data.as_deref(), Some(&b""[..]));
    let twice = vec![
        Part { name: "same".to_string(), data: vec![1] },
        Part { name: "same".to_string(), data: vec![2] },
    ];
    assert!(matches!(pack(&twice), Err(DocxError::Zip(_))));
    assert!(unpack(pack(&vec![]).unwrap()).unwrap().is_empty());
}

#[test]
fn saving_with_options_validates_then_sanitizes() {
    let mut docx = Docx::default();
    docx.document.body.push_paragraph(
        Paragraph::default()
            .push(ParagraphContent::Run(Run::default().push(RunContent::Drawing(fragile_drawing()))))
            .push(ParagraphContent::Link(
                Hyperlink::default().push_run(Run::default().push(RunContent::Drawing(Drawing {
                    anchor: None,
                    inline: Some(Inline::default()),
                }))),
            )),
    );
    let mut header = Header::default();
    header.content.push(BodyContent::Paragraph(
        Paragraph::default()
            .push(ParagraphContent::Run(Run::default().push(RunContent::Drawing(fragile_drawing())))),
    ));
    docx.headers.push(("header1.xml".to_string(), header));

    assert_eq!(docx.validate_drawing_compatibility().len(), 2);
    assert_eq!(DocxSaveOptions::default(), DocxSaveOptions { use_compatibility_mode: false, validate_drawings: false });

    let (plain, none) = docx.save_with_options(DocxSaveOptions::default()).unwrap();
    assert!(none.is_empty());
    let plain_file = DocxFile::from_reader(plain).unwrap();
    let unread = plain_file.parse().unwrap();
    assert!(unread.document.to_xml().contains("<wp:anchor"));
    assert!(unread.headers[0].1.to_xml().contains("<wp:anchor"));

    let (bytes, warnings) = docx.save_with_options(DocxSaveOptions::compatible()).unwrap();
    assert_eq!(warnings.len(), 4);
    assert!(matches!(warnings[0], DrawingCompatibilityWarning::MissingRequiredElements { .. }));
    assert!(matches!(warnings[1], DrawingCompatibilityWarning::MissingRequiredElements { .. }));
    assert!(matches!(warnings[2], DrawingCompatibilityWarning::ComplexAnchorConverted { .. }));
    assert!(matches!(warnings[3], DrawingCompatibilityWarning::ComplexAnchorConverted { .. }));

    let file = DocxFile::from_reader(bytes).unwrap();
    let back = file.parse().unwrap();
    let xml = back.document.to_xml();
    assert!(xml.contains("<wp:inline>"));
    assert!(!xml.contains("<wp:anchor"));
    assert!(!back.headers[0].1.to_xml().contains("<wp:anchor"));

    let (_, again) = docx.save_compatible().unwrap();
    assert_eq!(again.len(), 2);
}

#[test]
fn saving_leaves_the_package_as_it_was() {
    let mut docx = Docx::default();
    docx.document.body.push_paragraph(
        Paragraph::default()
            .push(ParagraphContent::Run(Run::default().push(RunContent::Drawing(fragile_drawing())))),
    );
    docx.headers.push(("header1.xml".to_string(), Header::default()));
    let document = docx.document.to_xml();
    let types = docx.content_types.to_xml();
    let rels = docx.rels.to_xml();

    let (saved, warnings) = docx.save_with_options(DocxSaveOptions::compatible()).unwrap();
    assert_eq!(warnings.len(), 2);
    assert_eq!(docx.document.to_xml(), document);
    assert_eq!(docx.content_types.to_xml(), types);
    assert_eq!(docx.rels.to_xml(), rels);
    assert!(docx.document_rels.is_none());
    assert_eq!(docx.validate_drawing_compatibility().len(), 1);

    let (plain, none) = docx.save_with_options(DocxSaveOptions::default()).unwrap();
    assert!(none.is_empty());
    assert_eq!(docx.write().unwrap(), plain);
    assert_ne!(saved, plain);

    let mut sanitized = docx.clone();
    assert_eq!(sanitized.sanitize_all_drawings().unwrap().len(), 1);
    assert_eq!(sanitized.write().unwrap(), saved);
}

#[test]
fn parts_that_share_a_path_are_refused() {
    let mut docx = Docx::default();
    docx.headers.push(("header1.xml".to_string(), Header::default()));
    docx.headers.push(("header1.xml".to_string(), Header::default()));
    assert!(matches!(docx.save_compatible(), Err(DocxError::Zip(_))));
    assert!(matches!(docx.write(), Err(DocxError::Zip(_))));
}

#[test]
fn a_file_name_is_a_path_without_the_folder_it_begins_with() {
    assert_eq!(file_name_of("word/media/sword/a.png"), "media/sword/a.png");
    assert_eq!(file_name_of("word/header1.xml"), "header1.xml");
    assert_eq!(file_name_of("customXml/word/item.xml"), "customXml/word/item.xml");
    assert_eq!(file_name_of("word/"), "");
}

#[test]
fn new_document_declares_its_namespaces() {
    let docx = Docx::new();
    let xml = docx.document.to_xml();
    assert!(xml.contains(r#"xmlns:w="http://schemas.openxmlformats.org/wordprocessingml/2006/main""#));
    assert!(xml.ends_with("<w:body/></w:document>"));
    assert_eq!(Document::new().text(), "");
}

#[test]
fn every_entry_says_that_it_was_made_on_unix() {
    let mut docx = Docx::default();
    docx.headers.push(("header1.xml".to_string(), Header::default()));
    let bytes = docx.write().unwrap();
    let mut archive = zip::ZipArchive::new(std::io::Cursor::new(bytes)).unwrap();
    assert!(archive.len() >= 5);
    for at in 0..archive.len() {
        let file = archive.by_index(at).unwrap();
        assert_eq!(file.get_metadata().system, zip::System::Unix);
        assert_eq!(file.unix_mode().map(|mode| mode & 0o777), Some(0o755));
        assert_eq!(file.compression(), zip::CompressionMethod::Deflated);
    }
}

#[test]
fn two_equal_packages_are_written_as_the_same_bytes() {
    let make = || {
        let mut docx = Docx::default();
        docx.document.body.push_paragraph(Paragraph::default().push_text("same"));
        docx.footers.push(("footer1.xml".to_string(), Footer::default()));
        docx
    };
    let first = make().write().unwrap();
    let second = make().write().unwrap();
    assert_eq!(first, second);
    let (saved, _) = make().save_with_options(DocxSaveOptions::default()).unwrap();
    assert_eq!(saved, first);
}

#[test]
fn a_document_is_written_sanitized_without_being_changed() {
    let mut body = Body::default();
    body.push_paragraph(
        Paragraph::default()
            .push_text("a")
            .push(ParagraphContent::Run(Run::default().push(RunContent::Drawing(fragile_drawing())))),
    );
    let before = body.to_element().to_text();
    let mut warnings = Vec::new();
    let written = body.to_sanitized_element(&mut warnings).to_text();
    assert_eq!(warnings.len(), 1);
    assert!(matches!(warnings[0], DrawingCompatibilityWarning::ComplexAnchorConverted { .. }));
    assert_eq!(body.to_element().to_text(), before);
    assert!(before.contains("<wp:anchor") && !before.contains("<wp:inline"));
    assert!(written.contains("<wp:inline") && !written.contains("<wp:anchor"));

    let mut found = Vec::new();
    body.sanitize_drawings(&mut found);
    assert_eq!(found.len(), 1);
    assert_eq!(body.to_element().to_text(), written);
    let mut none = Vec::new();
    assert_eq!(body.to_sanitized_element(&mut none).to_text(), written);
    assert!(none.is_empty());
}
