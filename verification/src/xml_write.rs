//! Writing an XML tree as text, through `hard_xml`'s writer.

use vstd::prelude::*;
use vstd::utf8::*;
use crate::xml::{
    attribute_text, attributes_model, attributes_text, escaped, tree_text, trees_text,
    XmlAttribute, XmlElement, XmlNode,
};

verus! {

/// A `hard_xml::XmlWriter` over a byte vector. Writing into a byte vector
/// appends to it and lets it grow as needed, so none of the writer's
/// functions reports an error.
#[verifier::external_body]
pub struct XmlSink {
    writer: hard_xml::XmlWriter<Vec<u8>>,
}

/// `std::io::Error`: what the writer's functions return in case of failure.
#[verifier::external_type_specification]
#[verifier::external_body]
pub struct ExIoError(std::io::Error);

/// `std::string::FromUtf8Error`: bytes that are no UTF-8.
#[verifier::external_type_specification]
#[verifier::external_body]
pub struct ExFromUtf8Error(std::string::FromUtf8Error);

/// `String::from_utf8`: the text that bytes are the UTF-8 form of; an error
/// exactly where they are no valid UTF-8.
pub assume_specification[ String::from_utf8 ](bytes: Vec<u8>) -> (r: Result<
    String,
    std::string::FromUtf8Error,
>)
    ensures
        r is Ok <==> valid_utf8(bytes@),
        r matches Ok(text) ==> text@ == decode_utf8(bytes@),
;

/// The bytes that a writer over a byte vector holds so far.
pub uninterp spec fn written(sink: XmlSink) -> Seq<u8>;

/// `hard_xml::XmlWriter::new` over an empty byte vector: a writer that holds
/// nothing yet.
#[verifier::external_body]
fn new_sink() -> (sink: XmlSink)
    ensures
        written(sink) == Seq::<u8>::empty(),
{
    XmlSink { writer: hard_xml::XmlWriter::new(Vec::new()) }
}

/// `hard_xml::XmlWriter::into_inner`: hands out the bytes that were written.
#[verifier::external_body]
fn into_bytes(sink: XmlSink) -> (bytes: Vec<u8>)
    ensures
        bytes@ == written(sink),
{
    sink.writer.into_inner()
}

/// `hard_xml::XmlWriter::write_element_start`: appends `<` and the tag, as
/// UTF-8.
#[verifier::external_body]
fn write_element_start(sink: &mut XmlSink, tag: &str) -> (r: Result<
    (),
    std::io::Error,
>)
    ensures
        r is Ok,
        written(*final(sink)) == written(*old(sink)) + encode_utf8(seq!['<'] + tag@),
{
    sink.writer.write_element_start(tag)
}

/// `hard_xml::XmlWriter::write_attribute`: appends a space, the key, `="`,
/// the escaped value and `"`, as UTF-8.
#[verifier::external_body]
fn write_attribute(sink: &mut XmlSink, key: &str, value: &str) -> (r:
    Result<(), std::io::Error>)
    ensures
        r is Ok,
        written(*final(sink)) == written(*old(sink)) + encode_utf8(
            attribute_text((key@, value@)),
        ),
{
    sink.writer.write_attribute(key, value)
}

/// `hard_xml::XmlWriter::write_text`: appends the escaped text, as UTF-8.
///
#[verifier::external_body]
fn write_text(sink: &mut XmlSink, content: &str) -> (r: Result<
    (),
    std::io::Error,
>)
    ensures
        r is Ok,
        written(*final(sink)) == written(*old(sink)) + encode_utf8(escaped(content@)),
{
    sink.writer.write_text(content)
}

/// `hard_xml::XmlWriter::write_element_end_open`: appends `>`.
#[verifier::external_body]
fn write_element_end_open(sink: &mut XmlSink) -> (r: Result<
    (),
    std::io::Error,
>)
    ensures
        r is Ok,
        written(*final(sink)) == written(*old(sink)) + encode_utf8(seq!['>']),
{
    sink.writer.write_element_end_open()
}

/// `hard_xml::XmlWriter::write_element_end_close`: appends `</`, the tag and
/// `>`, as UTF-8.
#[verifier::external_body]
fn write_element_end_close(sink: &mut XmlSink, tag: &str) -> (r: Result<
    (),
    std::io::Error,
>)
    ensures
        r is Ok,
        written(*final(sink)) == written(*old(sink)) + encode_utf8(
            seq!['<', '/'] + tag@ + seq!['>'],
        ),
{
    sink.writer.write_element_end_close(tag)
}

/// `hard_xml::XmlWriter::write_element_end_empty`: appends `/>`.
#[verifier::external_body]
fn write_element_end_empty(sink: &mut XmlSink) -> (r: Result<
    (),
    std::io::Error,
>)
    ensures
        r is Ok,
        written(*final(sink)) == written(*old(sink)) + encode_utf8(seq!['/', '>']),
{
    sink.writer.write_element_end_empty()
}

/// The UTF-8 form of a text made of two parts is the two UTF-8 forms joined.
pub proof fn lemma_encode_utf8_concat(a: Seq<char>, b: Seq<char>)
    ensures
        encode_utf8(a + b) == encode_utf8(a) + encode_utf8(b),
    decreases a.len(),
{
    if a.len() == 0 {
        assert(a + b == b);
        assert(encode_utf8(a) == Seq::<u8>::empty());
        assert(Seq::<u8>::empty() + encode_utf8(b) == encode_utf8(b));
    } else {
        assert((a + b).drop_first() == a.drop_first() + b);
        lemma_encode_utf8_concat(a.drop_first(), b);
        assert((a + b)[0] == a[0]);
        assert(encode_utf8(a + b) == encode_scalar(a[0] as u32) + (encode_utf8(a.drop_first())
            + encode_utf8(b)));
        assert(encode_scalar(a[0] as u32) + (encode_utf8(a.drop_first()) + encode_utf8(b)) == (
        encode_scalar(a[0] as u32) + encode_utf8(a.drop_first())) + encode_utf8(b));
    }
}

/// Bytes that end in the UTF-8 form of `text`, followed by the UTF-8 form of
/// `more`, end in the UTF-8 form of `text + more`.
proof fn lemma_written_more(base: Seq<u8>, text: Seq<char>, more: Seq<char>)
    ensures
        (base + encode_utf8(text)) + encode_utf8(more) == base + encode_utf8(text + more),
{
    lemma_encode_utf8_concat(text, more);
    assert((base + encode_utf8(text)) + encode_utf8(more) == base + (encode_utf8(text)
        + encode_utf8(more)));
}

/// Writes the attributes of an element, in order.
fn write_attributes(sink: &mut XmlSink, attributes: &Vec<XmlAttribute>)
    ensures
        written(*final(sink)) == written(*old(sink)) + encode_utf8(
            attributes_text(attributes_model(attributes@), attributes@.len()),
        ),
{
    let ghost model = attributes_model(attributes@);
    let ghost base = written(*sink);
    proof {
        assert(encode_utf8(Seq::<char>::empty()) == Seq::<u8>::empty());
        assert(base + Seq::<u8>::empty() == base);
    }
    let mut i: usize = 0;
    while i < attributes.len()
        invariant
            i <= attributes@.len(),
            model == attributes_model(attributes@),
            written(*sink) == base + encode_utf8(attributes_text(model, i as nat)),
        decreases attributes@.len() - i,
    {
        let attribute = &attributes[i];
        let _ = write_attribute(sink, attribute.key.as_str(), attribute.value.as_str());
        proof {
            assert(model[i as int] == (attribute.key@, attribute.value@));
            lemma_written_more(
                base,
                attributes_text(model, i as nat),
                attribute_text(model[i as int]),
            );
        }
        i = i + 1;
    }
}

/// Writes a node: an element as [`write_element`] does, text escaped.
pub fn write_node(sink: &mut XmlSink, node: &XmlNode)
    ensures
        written(*final(sink)) == written(*old(sink)) + encode_utf8(tree_text(node@)),
    decreases node,
{
    match node {
        XmlNode::Element(element) => write_element(sink, element),
        XmlNode::Text(text) => {
            let _ = write_text(sink, text.as_str());
        },
    }
}

/// Writes an element: start tag with attributes, then either the end of an
/// empty tag or the content and the closing tag.
pub fn write_element(sink: &mut XmlSink, element: &XmlElement)
    ensures
        written(*final(sink)) == written(*old(sink)) + encode_utf8(tree_text(element@)),
    decreases element,
{
    let ghost base = written(*sink);
    let ghost tag = element.tag@;
    let ghost attrs = attributes_model(element.attributes@);
    let ghost kids = element@->children;
    let ghost head = seq!['<'] + tag + attributes_text(attrs, attrs.len());
    let _ = write_element_start(sink, element.tag.as_str());
    write_attributes(sink, &element.attributes);
    proof {
        lemma_written_more(base, seq!['<'] + tag, attributes_text(attrs, attrs.len()));
    }
    if element.children.len() == 0 {
        let _ = write_element_end_empty(sink);
        proof {
            lemma_written_more(base, head, seq!['/', '>']);
        }
    } else {
        let _ = write_element_end_open(sink);
        proof {
            lemma_written_more(base, head, seq!['>']);
            assert(head + seq!['>'] + trees_text(kids, 0) == head + seq!['>']);
        }
        let mut i: usize = 0;
        while i < element.children.len()
            invariant
                i <= element.children@.len(),
                kids == element@->children,
                kids.len() == element.children@.len(),
                written(*sink) == base + encode_utf8(
                    head + seq!['>'] + trees_text(kids, i as nat),
                ),
            decreases element.children@.len() - i,
        {
            let child = &element.children[i];
            write_node(sink, child);
            proof {
                assert(kids[i as int] == child@);
                lemma_written_more(
                    base,
                    head + seq!['>'] + trees_text(kids, i as nat),
                    tree_text(kids[i as int]),
                );
                assert(head + seq!['>'] + trees_text(kids, i as nat) + tree_text(kids[i as int])
                    == head + seq!['>'] + trees_text(kids, (i + 1) as nat));
            }
            i = i + 1;
        }
        let _ = write_element_end_close(sink, element.tag.as_str());
        proof {
            let body = head + seq!['>'] + trees_text(kids, kids.len());
            lemma_written_more(base, body, seq!['<', '/'] + tag + seq!['>']);
            assert(body + (seq!['<', '/'] + tag + seq!['>']) == tree_text(element@));
        }
    }
}

impl XmlSink {
    /// A sink that holds nothing yet.
    pub fn new() -> (sink: XmlSink)
        ensures
            written(sink) == Seq::<u8>::empty(),
    {
        new_sink()
    }

    /// The bytes that were written into the sink.
    pub fn finish(self) -> (bytes: Vec<u8>)
        ensures
            bytes@ == written(self),
    {
        into_bytes(self)
    }
}

impl XmlElement {
    /// Writes the element into a sink, after what the sink holds.
    pub fn to_writer(&self, sink: &mut XmlSink)
        ensures
            written(*final(sink)) == written(*old(sink)) + encode_utf8(tree_text(self@)),
    {
        write_element(sink, self);
    }

    /// The element as UTF-8 text.
    pub fn to_bytes(&self) -> (bytes: Vec<u8>)
        ensures
            bytes@ == encode_utf8(tree_text(self@)),
    {
        let mut sink = new_sink();
        write_element(&mut sink, self);
        proof {
            assert(Seq::<u8>::empty() + encode_utf8(tree_text(self@)) == encode_utf8(
                tree_text(self@),
            ));
        }
        into_bytes(sink)
    }

    /// The element as text.
    pub fn to_text(&self) -> (text: String)
        ensures
            text@ == tree_text(self@),
    {
        let bytes = self.to_bytes();
        proof {
            encode_utf8_valid_utf8(tree_text(self@));
            encode_utf8_decode_utf8(tree_text(self@));
        }
        match String::from_utf8(bytes) {
            Ok(text) => text,
            Err(_) => String::new(),
        }
    }
}

} // verus!
