//! The document tree: a document owns a body, a body owns paragraphs and
//! tables in printing order, a paragraph owns runs and hyperlinks, a run
//! owns text, field marks and drawings.
//!
//! Content that is not modelled here is kept as the element it was read
//! from and written back unchanged.

use vstd::prelude::*;
use crate::codec::{
    all_read_from, all_readable, expect_tag, optional_read_from, optional_readable, optional_text,
    optional_tree, push_all, push_optional, read_all, read_every, read_optional, read_required,
    read_text, required_read_from, required_readable, text_attribute, trees, XmlCodec,
};
use crate::drawing::Drawing;
use crate::error::DocxError;
use crate::lexical::str_eq;
use crate::part::{part_text, read_from_text, read_part, text_readable, write_part};
use crate::xml::{attributes_model, element, XmlAttribute, XmlElement, XmlTree};

verus! {

/// A piece of text in a run.
#[derive(Debug, Default, Clone)]
pub struct Text {
    /// How white space at the ends is treated.
    pub space: Option<String>,
    /// The characters.
    pub text: String,
}

impl XmlCodec for Text {
    open spec fn tree(&self) -> XmlTree {
        element("w:t"@)
            .with_optional_attribute("xml:space"@, optional_text(self.space))
            .with_child(XmlTree::Text(self.text@))
    }

    open spec fn readable(tree: XmlTree) -> bool {
        &&& tree is Element
        &&& tree.tag() == "w:t"@
    }

    open spec fn read_from(&self, tree: XmlTree) -> bool {
        &&& optional_text(self.space) == tree.attribute("xml:space"@)
        &&& self.text@ == tree.text()
    }

    fn to_element(&self) -> (e: XmlElement) {
        let mut e = XmlElement::new("w:t");
        e.push_optional_attribute("xml:space", text_attribute(&self.space));
        e.push_text(self.text.clone());
        e
    }

    fn from_element(element: &XmlElement) -> (r: Result<Text, DocxError>) {
        expect_tag(element, "w:t")?;
        let space = read_text(element.attribute("xml:space"));
        let text = element.text();
        Ok(Text { space, text })
    }
}

/// A mark that begins, divides or ends a field. It is carried along unread.
#[derive(Debug, Default, Clone)]
pub struct FieldChar {
    /// Which mark it is.
    pub ty: Option<String>,
}

impl XmlCodec for FieldChar {
    open spec fn tree(&self) -> XmlTree {
        element("w:fldChar"@).with_optional_attribute("w:fldCharType"@, optional_text(self.ty))
    }

    open spec fn readable(tree: XmlTree) -> bool {
        &&& tree is Element
        &&& tree.tag() == "w:fldChar"@
    }

    open spec fn read_from(&self, tree: XmlTree) -> bool {
        &&& optional_text(self.ty) == tree.attribute("w:fldCharType"@)
    }

    fn to_element(&self) -> (e: XmlElement) {
        let mut e = XmlElement::new("w:fldChar");
        e.push_optional_attribute("w:fldCharType", text_attribute(&self.ty));
        e
    }

    fn from_element(element: &XmlElement) -> (r: Result<FieldChar, DocxError>) {
        expect_tag(element, "w:fldChar")?;
        let ty = read_text(element.attribute("w:fldCharType"));
        Ok(FieldChar { ty })
    }
}

/// The instruction of a field. It is carried along unread.
#[derive(Debug, Default, Clone)]
pub struct InstrText {
    /// How white space at the ends is treated.
    pub space: Option<String>,
    /// The instruction.
    pub text: String,
}

impl XmlCodec for InstrText {
    open spec fn tree(&self) -> XmlTree {
        element("w:instrText"@)
            .with_optional_attribute("xml:space"@, optional_text(self.space))
            .with_child(XmlTree::Text(self.text@))
    }

    open spec fn readable(tree: XmlTree) -> bool {
        &&& tree is Element
        &&& tree.tag() == "w:instrText"@
    }

    open spec fn read_from(&self, tree: XmlTree) -> bool {
        &&& optional_text(self.space) == tree.attribute("xml:space"@)
        &&& self.text@ == tree.text()
    }

    fn to_element(&self) -> (e: XmlElement) {
        let mut e = XmlElement::new("w:instrText");
        e.push_optional_attribute("xml:space", text_attribute(&self.space));
        e.push_text(self.text.clone());
        e
    }

    fn from_element(element: &XmlElement) -> (r: Result<InstrText, DocxError>) {
        expect_tag(element, "w:instrText")?;
        let space = read_text(element.attribute("xml:space"));
        let text = element.text();
        Ok(InstrText { space, text })
    }
}

/// What a run holds, piece by piece.
#[derive(Debug, Clone)]
pub enum RunContent {
    /// Text.
    Text(Text),
    /// A field mark.
    FieldChar(FieldChar),
    /// A field instruction.
    InstrText(InstrText),
    /// A drawing.
    Drawing(Drawing),
    /// Anything else, kept as it was read.
    Other(XmlElement),
}

impl XmlCodec for RunContent {
    open spec fn tree(&self) -> XmlTree {
        match self {
            RunContent::Text(v) => v.tree(),
            RunContent::FieldChar(v) => v.tree(),
            RunContent::InstrText(v) => v.tree(),
            RunContent::Drawing(v) => v.tree(),
            RunContent::Other(e) => e@,
        }
    }

    open spec fn readable(tree: XmlTree) -> bool {
        if tree.tag() == "w:t"@ {
            Text::readable(tree)
        } else if tree.tag() == "w:fldChar"@ {
            FieldChar::readable(tree)
        } else if tree.tag() == "w:instrText"@ {
            InstrText::readable(tree)
        } else if tree.tag() == "w:drawing"@ {
            Drawing::readable(tree)
        } else {
            tree is Element
        }
    }

    open spec fn read_from(&self, tree: XmlTree) -> bool {
        if tree.tag() == "w:t"@ {
            self matches RunContent::Text(v) && v.read_from(tree)
        } else if tree.tag() == "w:fldChar"@ {
            self matches RunContent::FieldChar(v) && v.read_from(tree)
        } else if tree.tag() == "w:instrText"@ {
            self matches RunContent::InstrText(v) && v.read_from(tree)
        } else if tree.tag() == "w:drawing"@ {
            self matches RunContent::Drawing(v) && v.read_from(tree)
        } else {
            self matches RunContent::Other(e) && e@ == tree
        }
    }

    fn to_element(&self) -> (e: XmlElement) {
        match self {
            RunContent::Text(v) => v.to_element(),
            RunContent::FieldChar(v) => v.to_element(),
            RunContent::InstrText(v) => v.to_element(),
            RunContent::Drawing(v) => v.to_element(),
            RunContent::Other(e) => e.duplicate(),
        }
    }

    fn from_element(element: &XmlElement) -> (r: Result<RunContent, DocxError>) {
        if str_eq(element.tag.as_str(), "w:t") {
            Ok(RunContent::Text(Text::from_element(element)?))
        } else if str_eq(element.tag.as_str(), "w:fldChar") {
            Ok(RunContent::FieldChar(FieldChar::from_element(element)?))
        } else if str_eq(element.tag.as_str(), "w:instrText") {
            Ok(RunContent::InstrText(InstrText::from_element(element)?))
        } else if str_eq(element.tag.as_str(), "w:drawing") {
            Ok(RunContent::Drawing(Drawing::from_element(element)?))
        } else {
            Ok(RunContent::Other(element.duplicate()))
        }
    }
}

/// A run: the smallest unit of text with one formatting.
#[derive(Debug, Default, Clone)]
pub struct Run {
    /// The pieces, in order.
    pub content: Vec<RunContent>,
}

impl XmlCodec for Run {
    open spec fn tree(&self) -> XmlTree {
        element("w:r"@).with_children(trees(self.content@))
    }

    open spec fn readable(tree: XmlTree) -> bool {
        &&& tree is Element
        &&& tree.tag() == "w:r"@
        &&& all_readable::<RunContent>(tree.all_elements())
    }

    open spec fn read_from(&self, tree: XmlTree) -> bool {
        &&& all_read_from(self.content@, tree.all_elements())
    }

    fn to_element(&self) -> (e: XmlElement) {
        let mut e = XmlElement::new("w:r");
        push_all(&mut e, &self.content);
        e
    }

    fn from_element(element: &XmlElement) -> (r: Result<Run, DocxError>) {
        expect_tag(element, "w:r")?;
        let content = read_every::<RunContent>(element)?;
        Ok(Run { content })
    }
}

/// Runs embedded with a writing direction of their own.
#[derive(Debug, Default, Clone)]
pub struct BidirectionalEmbedding {
    /// The writing direction.
    pub direction: Option<String>,
    /// The runs, in order.
    pub content: Vec<Run>,
}

impl XmlCodec for BidirectionalEmbedding {
    open spec fn tree(&self) -> XmlTree {
        element("w:dir"@)
            .with_optional_attribute("w:val"@, optional_text(self.direction))
            .with_children(trees(self.content@))
    }

    open spec fn readable(tree: XmlTree) -> bool {
        &&& tree is Element
        &&& tree.tag() == "w:dir"@
        &&& all_readable::<Run>(tree.elements("w:r"@))
    }

    open spec fn read_from(&self, tree: XmlTree) -> bool {
        &&& optional_text(self.direction) == tree.attribute("w:val"@)
        &&& all_read_from(self.content@, tree.elements("w:r"@))
    }

    fn to_element(&self) -> (e: XmlElement) {
        let mut e = XmlElement::new("w:dir");
        e.push_optional_attribute("w:val", text_attribute(&self.direction));
        push_all(&mut e, &self.content);
        e
    }

    fn from_element(element: &XmlElement) -> (r: Result<BidirectionalEmbedding, DocxError>) {
        expect_tag(element, "w:dir")?;
        let direction = read_text(element.attribute("w:val"));
        let content = read_all::<Run>(element, "w:r")?;
        Ok(BidirectionalEmbedding { direction, content })
    }
}

/// A hyperlink: one clickable span made of any number of runs, each with
/// its own formatting, such as an entry of a table of contents with a
/// title, spacing and a page number.
#[derive(Debug, Default, Clone)]
pub struct Hyperlink {
    /// The id of the relationship that leads to an outside target.
    pub id: Option<String>,
    /// The name of a bookmark within the document.
    pub anchor: Option<String>,
    /// The runs, in order.
    pub content: Vec<Run>,
    /// Runs embedded with a writing direction of their own.
    pub bidirectional_embedding: Option<BidirectionalEmbedding>,
}

impl XmlCodec for Hyperlink {
    open spec fn tree(&self) -> XmlTree {
        element("w:hyperlink"@)
            .with_optional_attribute("r:id"@, optional_text(self.id))
            .with_optional_attribute("w:anchor"@, optional_text(self.anchor))
            .with_children(trees(self.content@))
            .with_optional_child(optional_tree(self.bidirectional_embedding))
    }

    open spec fn readable(tree: XmlTree) -> bool {
        &&& tree is Element
        &&& tree.tag() == "w:hyperlink"@
        &&& all_readable::<Run>(tree.elements("w:r"@))
        &&& optional_readable::<BidirectionalEmbedding>(tree.child("w:dir"@))
    }

    open spec fn read_from(&self, tree: XmlTree) -> bool {
        &&& optional_text(self.id) == tree.attribute("r:id"@)
        &&& optional_text(self.anchor) == tree.attribute("w:anchor"@)
        &&& all_read_from(self.content@, tree.elements("w:r"@))
        &&& optional_read_from(self.bidirectional_embedding, tree.child("w:dir"@))
    }

    fn to_element(&self) -> (e: XmlElement) {
        let mut e = XmlElement::new("w:hyperlink");
        e.push_optional_attribute("r:id", text_attribute(&self.id));
        e.push_optional_attribute("w:anchor", text_attribute(&self.anchor));
        push_all(&mut e, &self.content);
        push_optional(&mut e, &self.bidirectional_embedding);
        e
    }

    fn from_element(element: &XmlElement) -> (r: Result<Hyperlink, DocxError>) {
        expect_tag(element, "w:hyperlink")?;
        let id = read_text(element.attribute("r:id"));
        let anchor = read_text(element.attribute("w:anchor"));
        let content = read_all::<Run>(element, "w:r")?;
        let bidirectional_embedding = read_optional::<BidirectionalEmbedding>(element, "w:dir")?;
        Ok(Hyperlink { id, anchor, content, bidirectional_embedding })
    }
}

/// What a paragraph holds, piece by piece.
#[derive(Debug, Clone)]
pub enum ParagraphContent {
    /// A run.
    Run(Run),
    /// A hyperlink.
    Link(Hyperlink),
    /// Runs embedded with a writing direction of their own.
    Bidi(BidirectionalEmbedding),
    /// Anything else, kept as it was read.
    Other(XmlElement),
}

impl XmlCodec for ParagraphContent {
    open spec fn tree(&self) -> XmlTree {
        match self {
            ParagraphContent::Run(v) => v.tree(),
            ParagraphContent::Link(v) => v.tree(),
            ParagraphContent::Bidi(v) => v.tree(),
            ParagraphContent::Other(e) => e@,
        }
    }

    open spec fn readable(tree: XmlTree) -> bool {
        if tree.tag() == "w:r"@ {
            Run::readable(tree)
        } else if tree.tag() == "w:hyperlink"@ {
            Hyperlink::readable(tree)
        } else if tree.tag() == "w:dir"@ {
            BidirectionalEmbedding::readable(tree)
        } else {
            tree is Element
        }
    }

    open spec fn read_from(&self, tree: XmlTree) -> bool {
        if tree.tag() == "w:r"@ {
            self matches ParagraphContent::Run(v) && v.read_from(tree)
        } else if tree.tag() == "w:hyperlink"@ {
            self matches ParagraphContent::Link(v) && v.read_from(tree)
        } else if tree.tag() == "w:dir"@ {
            self matches ParagraphContent::Bidi(v) && v.read_from(tree)
        } else {
            self matches ParagraphContent::Other(e) && e@ == tree
        }
    }

    fn to_element(&self) -> (e: XmlElement) {
        match self {
            ParagraphContent::Run(v) => v.to_element(),
            ParagraphContent::Link(v) => v.to_element(),
            ParagraphContent::Bidi(v) => v.to_element(),
            ParagraphContent::Other(e) => e.duplicate(),
        }
    }

    fn from_element(element: &XmlElement) -> (r: Result<ParagraphContent, DocxError>) {
        if str_eq(element.tag.as_str(), "w:r") {
            Ok(ParagraphContent::Run(Run::from_element(element)?))
        } else if str_eq(element.tag.as_str(), "w:hyperlink") {
            Ok(ParagraphContent::Link(Hyperlink::from_element(element)?))
        } else if str_eq(element.tag.as_str(), "w:dir") {
            Ok(ParagraphContent::Bidi(BidirectionalEmbedding::from_element(element)?))
        } else {
            Ok(ParagraphContent::Other(element.duplicate()))
        }
    }
}

/// A paragraph.
#[derive(Debug, Default, Clone)]
pub struct Paragraph {
    /// The pieces, in order.
    pub content: Vec<ParagraphContent>,
}

impl XmlCodec for Paragraph {
    open spec fn tree(&self) -> XmlTree {
        element("w:p"@).with_children(trees(self.content@))
    }

    open spec fn readable(tree: XmlTree) -> bool {
        &&& tree is Element
        &&& tree.tag() == "w:p"@
        &&& all_readable::<ParagraphContent>(tree.all_elements())
    }

    open spec fn read_from(&self, tree: XmlTree) -> bool {
        &&& all_read_from(self.content@, tree.all_elements())
    }

    fn to_element(&self) -> (e: XmlElement) {
        let mut e = XmlElement::new("w:p");
        push_all(&mut e, &self.content);
        e
    }

    fn from_element(element: &XmlElement) -> (r: Result<Paragraph, DocxError>) {
        expect_tag(element, "w:p")?;
        let content = read_every::<ParagraphContent>(element)?;
        Ok(Paragraph { content })
    }
}

/// A table, kept as the element it was read from.
#[derive(Debug, Clone, Default)]
pub struct Table {
    /// The `w:tbl` element with everything in it.
    pub element: XmlElement,
}

impl XmlCodec for Table {
    open spec fn tree(&self) -> XmlTree {
        self.element@
    }

    open spec fn readable(tree: XmlTree) -> bool {
        tree is Element && tree.tag() == "w:tbl"@
    }

    open spec fn read_from(&self, tree: XmlTree) -> bool {
        self.element@ == tree
    }

    fn to_element(&self) -> (e: XmlElement) {
        self.element.duplicate()
    }

    fn from_element(element: &XmlElement) -> (r: Result<Table, DocxError>) {
        expect_tag(element, "w:tbl")?;
        Ok(Table { element: element.duplicate() })
    }
}

/// What a body holds, piece by piece.
#[derive(Debug, Clone)]
pub enum BodyContent {
    /// A paragraph.
    Paragraph(Paragraph),
    /// A table.
    Table(Table),
    /// Anything else, kept as it was read.
    Other(XmlElement),
}

impl XmlCodec for BodyContent {
    open spec fn tree(&self) -> XmlTree {
        match self {
            BodyContent::Paragraph(v) => v.tree(),
            BodyContent::Table(v) => v.tree(),
            BodyContent::Other(e) => e@,
        }
    }

    open spec fn readable(tree: XmlTree) -> bool {
        if tree.tag() == "w:p"@ {
            Paragraph::readable(tree)
        } else if tree.tag() == "w:tbl"@ {
            Table::readable(tree)
        } else {
            tree is Element
        }
    }

    open spec fn read_from(&self, tree: XmlTree) -> bool {
        if tree.tag() == "w:p"@ {
            self matches BodyContent::Paragraph(v) && v.read_from(tree)
        } else if tree.tag() == "w:tbl"@ {
            self matches BodyContent::Table(v) && v.read_from(tree)
        } else {
            self matches BodyContent::Other(e) && e@ == tree
        }
    }

    fn to_element(&self) -> (e: XmlElement) {
        match self {
            BodyContent::Paragraph(v) => v.to_element(),
            BodyContent::Table(v) => v.to_element(),
            BodyContent::Other(e) => e.duplicate(),
        }
    }

    fn from_element(element: &XmlElement) -> (r: Result<BodyContent, DocxError>) {
        if str_eq(element.tag.as_str(), "w:p") {
            Ok(BodyContent::Paragraph(Paragraph::from_element(element)?))
        } else if str_eq(element.tag.as_str(), "w:tbl") {
            Ok(BodyContent::Table(Table::from_element(element)?))
        } else {
            Ok(BodyContent::Other(element.duplicate()))
        }
    }
}

/// The body of a document: its content in printing order.
#[derive(Debug, Default, Clone)]
pub struct Body {
    /// The pieces, in order.
    pub content: Vec<BodyContent>,
}

impl XmlCodec for Body {
    open spec fn tree(&self) -> XmlTree {
        element("w:body"@).with_children(trees(self.content@))
    }

    open spec fn readable(tree: XmlTree) -> bool {
        &&& tree is Element
        &&& tree.tag() == "w:body"@
        &&& all_readable::<BodyContent>(tree.all_elements())
    }

    open spec fn read_from(&self, tree: XmlTree) -> bool {
        &&& all_read_from(self.content@, tree.all_elements())
    }

    fn to_element(&self) -> (e: XmlElement) {
        let mut e = XmlElement::new("w:body");
        push_all(&mut e, &self.content);
        e
    }

    fn from_element(element: &XmlElement) -> (r: Result<Body, DocxError>) {
        expect_tag(element, "w:body")?;
        let content = read_every::<BodyContent>(element)?;
        Ok(Body { content })
    }
}

/// The main part of a package.
#[derive(Debug, Default, Clone)]
pub struct Document {
    /// The attributes of the root element, among them the namespaces.
    pub attributes: Vec<XmlAttribute>,
    /// The body.
    pub body: Body,
}

impl XmlCodec for Document {
    open spec fn tree(&self) -> XmlTree {
        element("w:document"@)
            .with_attributes(attributes_model(self.attributes@))
            .with_child(self.body.tree())
    }

    open spec fn readable(tree: XmlTree) -> bool {
        &&& tree is Element
        &&& tree.tag() == "w:document"@
        &&& required_readable::<Body>(tree.child("w:body"@))
    }

    open spec fn read_from(&self, tree: XmlTree) -> bool {
        &&& attributes_model(self.attributes@) == tree.attributes()
        &&& required_read_from(self.body, tree.child("w:body"@))
    }

    fn to_element(&self) -> (e: XmlElement) {
        let mut e = XmlElement::new("w:document");
        e.push_attributes(&self.attributes);
        e.push_element(self.body.to_element());
        e
    }

    fn from_element(element: &XmlElement) -> (r: Result<Document, DocxError>) {
        expect_tag(element, "w:document")?;
        let attributes = element.copy_attributes();
        let body = read_required::<Body>(element, "w:body")?;
        Ok(Document { attributes, body })
    }
}

impl Document {
    /// The document as the text of a part: the XML declaration, then the element.
    pub fn to_xml(&self) -> (text: String)
        ensures
            text@ == part_text(self.tree()),
    {
        write_part(self)
    }

    /// Reads the document from the text of a part.
    pub fn from_str(text: &str) -> (r: Result<Document, DocxError>)
        ensures
            r is Ok <==> text_readable::<Document>(text@),
            r matches Ok(v) ==> read_from_text(v, text@),
            r matches Err(e) ==> e is Xml,
    {
        read_part(text)
    }
}

/// A page header.
#[derive(Debug, Default, Clone)]
pub struct Header {
    /// The attributes of the root element, among them the namespaces.
    pub attributes: Vec<XmlAttribute>,
    /// The pieces, in order.
    pub content: Vec<BodyContent>,
}

impl XmlCodec for Header {
    open spec fn tree(&self) -> XmlTree {
        element("w:hdr"@)
            .with_attributes(attributes_model(self.attributes@))
            .with_children(trees(self.content@))
    }

    open spec fn readable(tree: XmlTree) -> bool {
        &&& tree is Element
        &&& tree.tag() == "w:hdr"@
        &&& all_readable::<BodyContent>(tree.all_elements())
    }

    open spec fn read_from(&self, tree: XmlTree) -> bool {
        &&& attributes_model(self.attributes@) == tree.attributes()
        &&& all_read_from(self.content@, tree.all_elements())
    }

    fn to_element(&self) -> (e: XmlElement) {
        let mut e = XmlElement::new("w:hdr");
        e.push_attributes(&self.attributes);
        push_all(&mut e, &self.content);
        e
    }

    fn from_element(element: &XmlElement) -> (r: Result<Header, DocxError>) {
        expect_tag(element, "w:hdr")?;
        let attributes = element.copy_attributes();
        let content = read_every::<BodyContent>(element)?;
        Ok(Header { attributes, content })
    }
}

impl Header {
    /// The header as the text of a part: the XML declaration, then the element.
    pub fn to_xml(&self) -> (text: String)
        ensures
            text@ == part_text(self.tree()),
    {
        write_part(self)
    }

    /// Reads the header from the text of a part.
    pub fn from_str(text: &str) -> (r: Result<Header, DocxError>)
        ensures
            r is Ok <==> text_readable::<Header>(text@),
            r matches Ok(v) ==> read_from_text(v, text@),
            r matches Err(e) ==> e is Xml,
    {
        read_part(text)
    }
}

/// A page footer.
#[derive(Debug, Default, Clone)]
pub struct Footer {
    /// The attributes of the root element, among them the namespaces.
    pub attributes: Vec<XmlAttribute>,
    /// The pieces, in order.
    pub content: Vec<BodyContent>,
}

impl XmlCodec for Footer {
    open spec fn tree(&self) -> XmlTree {
        element("w:ftr"@)
            .with_attributes(attributes_model(self.attributes@))
            .with_children(trees(self.content@))
    }

    open spec fn readable(tree: XmlTree) -> bool {
        &&& tree is Element
        &&& tree.tag() == "w:ftr"@
        &&& all_readable::<BodyContent>(tree.all_elements())
    }

    open spec fn read_from(&self, tree: XmlTree) -> bool {
        &&& attributes_model(self.attributes@) == tree.attributes()
        &&& all_read_from(self.content@, tree.all_elements())
    }

    fn to_element(&self) -> (e: XmlElement) {
        let mut e = XmlElement::new("w:ftr");
        e.push_attributes(&self.attributes);
        push_all(&mut e, &self.content);
        e
    }

    fn from_element(element: &XmlElement) -> (r: Result<Footer, DocxError>) {
        expect_tag(element, "w:ftr")?;
        let attributes = element.copy_attributes();
        let content = read_every::<BodyContent>(element)?;
        Ok(Footer { attributes, content })
    }
}

impl Footer {
    /// The footer as the text of a part: the XML declaration, then the element.
    pub fn to_xml(&self) -> (text: String)
        ensures
            text@ == part_text(self.tree()),
    {
        write_part(self)
    }

    /// Reads the footer from the text of a part.
    pub fn from_str(text: &str) -> (r: Result<Footer, DocxError>)
        ensures
            r is Ok <==> text_readable::<Footer>(text@),
            r matches Ok(v) ==> read_from_text(v, text@),
            r matches Err(e) ==> e is Xml,
    {
        read_part(text)
    }
}
} // verus!
