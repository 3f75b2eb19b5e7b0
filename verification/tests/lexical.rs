use docx_rust::text::TextTree;
use docx_rust::codec::{
    bool_attribute, int_attribute, read_bool, read_count, read_flag, read_i32, read_int, read_text,
    read_text_or_empty, read_u32,
};
use docx_rust::document::{BidirectionalEmbedding, Hyperlink, Run, RunContent};
use docx_rust::drawing::Anchor;
use docx_rust::error::{DocxError, DrawingMLError};
use docx_rust::lexical::{
    chars_of, decimal_i64, decimal_u64, parse_bool, parse_i64, parse_isize, parse_u64, text_of,
};
use docx_rust::substitute::{contains, replace_all, replace_by_all, starts_with};
use docx_rust::text::join;
use docx_rust::xml::{XmlElement, XmlNode};
use docx_rust::xml_write::{write_node, XmlSink};

#[test]
fn numbers_are_written_in_plain_decimal() {
    assert_eq!(decimal_u64(0), "0");
    assert_eq!(decimal_u64(914400), "914400");
    assert_eq!(decimal_u64(u64::MAX), "18446744073709551615");
    assert_eq!(decimal_i64(-1), "-1");
    assert_eq!(decimal_i64(i64::MIN), "-9223372036854775808");
    assert_eq!(decimal_i64(i64::MAX), "9223372036854775807");
    assert_eq!(int_attribute(Some(-42)).as_deref(), Some("-42"));
    assert_eq!(int_attribute(None), None);
    assert_eq!(bool_attribute(Some(true)).as_deref(), Some("1"));
    assert_eq!(bool_attribute(Some(false)).as_deref(), Some("0"));
}

#[test]
fn numbers_are_read_strictly() {
    assert_eq!(parse_u64("0"), Some(0));
    assert_eq!(parse_u64("007"), Some(7));
    assert_eq!(parse_u64("18446744073709551615"), Some(u64::MAX));
    assert_eq!(parse_u64("18446744073709551616"), None);
    assert_eq!(parse_u64(""), None);
    assert_eq!(parse_u64("+1"), None);
    assert_eq!(parse_u64("1 "), None);
    assert_eq!(parse_i64("-9223372036854775808"), Some(i64::MIN));
    assert_eq!(parse_i64("-9223372036854775809"), None);
    assert_eq!(parse_i64("9223372036854775807"), Some(i64::MAX));
    assert_eq!(parse_i64("9223372036854775808"), None);
    assert_eq!(parse_i64("-"), None);
    assert_eq!(parse_i64("--1"), None);
    assert_eq!(parse_isize("-5"), Some(-5));
    assert_eq!(parse_bool("1"), Some(true));
    assert_eq!(parse_bool("true"), Some(true));
    assert_eq!(parse_bool("0"), Some(false));
    assert_eq!(parse_bool("false"), Some(false));
    assert_eq!(parse_bool("TRUE"), None);
    assert_eq!(parse_bool(""), None);
}

#[test]
fn attributes_are_read_with_their_defaults() {
    let text = |s: &str| s.to_string();
    assert_eq!(read_int("e", None).unwrap(), None);
    assert_eq!(read_int("e", Some(&text("12"))).unwrap(), Some(12));
    assert!(matches!(read_int("e", Some(&text("x"))), Err(DocxError::Xml(_))));
    assert_eq!(read_bool("e", Some(&text("true"))).unwrap(), Some(true));
    assert!(matches!(read_bool("e", Some(&text("2"))), Err(DocxError::Xml(_))));
    assert_eq!(read_flag("e", None).unwrap(), false);
    assert_eq!(read_flag("e", Some(&text("1"))).unwrap(), true);
    assert_eq!(read_count("e", None).unwrap(), 0);
    assert_eq!(read_count("e", Some(&text("5"))).unwrap(), 5);
    assert!(matches!(read_count("e", Some(&text("-5"))), Err(DocxError::Xml(_))));
    assert_eq!(read_i32("e", Some(&text("-2147483648"))).unwrap(), i32::MIN);
    assert!(matches!(read_i32("e", Some(&text("2147483648"))), Err(DocxError::Xml(_))));
    assert_eq!(read_u32("e", Some(&text("4294967295"))).unwrap(), u32::MAX);
    assert!(matches!(read_u32("e", Some(&text("-1"))), Err(DocxError::Xml(_))));
    assert_eq!(read_text(Some(&text("a"))).as_deref(), Some("a"));
    assert_eq!(read_text_or_empty(None), "");
    match read_int("wp:anchor", Some(&text("x"))) {
        Err(e) => assert_eq!(e.message(), "malformed XML: wp:anchor: an attribute is no integer"),
        Ok(_) => panic!("read"),
    }
}

#[test]
fn replacing_goes_from_the_left_without_overlap() {
    assert_eq!(replace_all("Old text in first run", "Old text", "New text"), "New text in first run");
    assert_eq!(replace_all("aaaa", "aa", "b"), "bb");
    assert_eq!(replace_all("aaa", "aa", "b"), "ba");
    assert_eq!(replace_all("abc", "", "-"), "-a-b-c-");
    assert_eq!(replace_all("", "", "-"), "-");
    assert_eq!(replace_all("", "a", "-"), "");
    assert_eq!(replace_all("abc", "abcd", "-"), "abc");
    assert_eq!(replace_all("a\u{e9}b", "\u{e9}", "e"), "aeb");
    assert_eq!(replace_by_all("Hello World", &[("Hello", "Hi"), ("Hi", "Ho")]), "Ho World");
    assert_eq!(replace_by_all("x", &[]), "x");
    assert!(starts_with("word/header1.xml", "word/header"));
    assert!(!starts_with("word", "word/header"));
    assert!(starts_with("x", ""));
    assert!(contains("docProps/custom.xml", "custom"));
    assert!(!contains("custo", "custom"));
    assert!(contains("", ""));
    assert_eq!(join(&vec!["a".to_string(), "".to_string(), "b".to_string()]), "ab");
    assert_eq!(text_of(&chars_of("h\u{e9}")), "h\u{e9}");
}

#[test]
fn single_leaves_are_set_by_position() {
    let mut run = Run::default().push_text("a").push(RunContent::Other(XmlElement::new("w:tab"))).push_text("b");
    assert_eq!(run.leaf_count(), 2);
    assert!(run.set_text_leaf(1, "B"));
    assert!(!run.set_text_leaf(2, "C"));
    assert_eq!(run.iter_text(), vec!["a", "B"]);
    assert_eq!(run.content.len(), 3);

    let mut link = Hyperlink::default().add_text("x").push_run(run).add_text("z");
    assert!(link.set_text_leaf(2, "y"));
    assert!(link.set_text_leaf(0, "X"));
    assert!(!link.set_text_leaf(4, "no"));
    assert_eq!(link.text(), "Xayz");
}

#[test]
fn leaves_of_embedded_runs_are_set_by_position_too() {
    let mut link = Hyperlink::default().add_text("a").add_text("b");
    link.bidirectional_embedding = Some(BidirectionalEmbedding {
        direction: Some("rtl".to_string()),
        content: vec![Run::default().push_text("c").push_text("d")],
    });
    assert_eq!(link.iter_text(), vec!["a", "b", "c", "d"]);
    for (at, text) in ["A", "B", "C", "D"].iter().enumerate() {
        assert!(link.set_text_leaf(at, text));
    }
    assert!(!link.set_text_leaf(4, "E"));
    assert_eq!(link.iter_text(), vec!["A", "B", "C", "D"]);
    assert_eq!(link.content.len(), 2);
    let embedded = link.bidirectional_embedding.as_mut().unwrap();
    assert!(embedded.set_text_leaf(1, "x"));
    assert!(!embedded.set_text_leaf(2, "y"));
    assert_eq!(link.text(), "ABCx");
}

#[test]
fn elements_are_written_after_what_a_sink_holds() {
    let mut sink = XmlSink::new();
    let mut root = XmlElement::new("a");
    root.push_attribute("k", "v'".to_string());
    root.push_optional_attribute("none", None);
    root.push_text("1 < 2".to_string());
    root.push_optional_element(None);
    root.push_optional_text_element("t", Some("x".to_string()));
    root.to_writer(&mut sink);
    write_node(&mut sink, &XmlNode::Text("\u{e9}&".to_string()));
    let anchor = Anchor { locked: Some(false), ..Default::default() };
    anchor.to_writer(&mut sink);
    assert_eq!(
        String::from_utf8(sink.finish()).unwrap(),
        [
            "<a k=\"v&apos;\">1 &lt; 2<t>x</t></a>\u{e9}&amp;<wp:anchor locked=\"0\">",
            "<wp:extent cx=\"0\" cy=\"0\"/><wp:docPr/>",
            "<a:graphic xmlns:a=\"\"><a:graphicData uri=\"\"/></a:graphic></wp:anchor>",
        ]
        .concat()
    );
    assert_eq!(root.child_text("t").as_deref(), Some("x"));
    assert_eq!(root.child_text("u"), None);
    assert_eq!(root.duplicate().to_text(), root.to_text());
    assert_eq!(root.clone().to_bytes(), root.to_text().into_bytes());
    assert_eq!(root.copy_attributes().len(), 1);
}

#[test]
fn a_drawing_error_becomes_a_compatibility_error() {
    let error = DrawingMLError::InvalidPositioning("both".to_string()).into_docx_error();
    assert!(matches!(error, DocxError::DrawingMLCompatibility(_)));
    assert_eq!(error.message(), "DrawingML compatibility error: Invalid positioning: both");
}
