//! Writing a document as it is once its drawings are sanitized, without
//! changing the document.
//!
//! [`CompatibleXml::to_sanitized_element`] walks a document as the
//! sanitizing pass does and writes what that pass would leave behind; the
//! document itself stays as it is. [`CompatibleXml::lemma_sanitized_tree`]
//! states that sanitizing in place and then writing gives the same element.

use vstd::prelude::*;
use crate::codec::{optional_text, text_attribute, trees, XmlCodec};
use crate::compat::{warnings_model, DrawingCompatibilityWarning, Pass, WarningModel};
use crate::document::{
    BidirectionalEmbedding, Body, BodyContent, Document, Footer, Header, Hyperlink, Paragraph,
    ParagraphContent, Run, RunContent,
};
use crate::drawing::{Anchor, Drawing};
use crate::codec::{int_attribute, optional_int_text};
use crate::sweep::{all_sanitized, warnings_among, warnings_of, DrawingTree};
use crate::xml::{attributes_model, element, XmlElement, XmlTree};

verus! {

impl Anchor {
    /// Writes the inline drawing that stands for the anchor once it is
    /// sanitized.
    pub fn to_inline_element(&self) -> (e: XmlElement)
        ensures
            e@ == self.simple_inline().tree(),
    {
        let mut e = XmlElement::new("wp:inline");
        e.push_optional_attribute("distT", int_attribute(self.dist_t));
        e.push_optional_attribute("distB", int_attribute(self.dist_b));
        e.push_optional_attribute("distL", int_attribute(self.dist_l));
        e.push_optional_attribute("distR", int_attribute(self.dist_r));
        e.push_element(self.extent.to_element());
        e.push_element(self.doc_property.to_element());
        e.push_element(self.graphic.to_element());
        e
    }
}

impl Drawing {
    /// Writes the drawing as it is once it is sanitized, and adds the
    /// warning of sanitizing it to the list. The drawing stays as it is.
    pub fn to_sanitized_element(&self, warnings: &mut Vec<DrawingCompatibilityWarning>) -> (e:
        XmlElement)
        ensures
            e@ == self.sanitized().tree(),
            warnings_model(final(warnings)@) == warnings_model(old(warnings)@) + self.warnings(
                Pass::Sanitize,
            ),
    {
        let ghost base = warnings_model(warnings@);
        match &self.anchor {
            Some(anchor) => {
                match anchor.find_fragility() {
                    Some(cause) => {
                        warnings.push(
                            DrawingCompatibilityWarning::ComplexAnchorConverted {
                                reason: cause.describe(),
                            },
                        );
                        assert(warnings_model(warnings@) =~= base + self.warnings(Pass::Sanitize));
                        let mut e = XmlElement::new("w:drawing");
                        e.push_element(anchor.to_inline_element());
                        e
                    },
                    None => {
                        assert(base + Seq::<WarningModel>::empty() =~= base);
                        self.to_element()
                    },
                }
            },
            None => {
                assert(base + Seq::<WarningModel>::empty() =~= base);
                self.to_element()
            },
        }
    }
}

/// A part of a document tree that can be written as it is once every
/// fragile floating drawing in it is turned inline.
pub trait CompatibleXml: DrawingTree + XmlCodec {
    /// The element that the value is written as once it is sanitized.
    spec fn sanitized_tree(&self) -> XmlTree;

    /// Writes the value as it is once it is sanitized, and adds the
    /// warnings of sanitizing it to the list, in document order. The value
    /// stays as it is.
    fn to_sanitized_element(&self, warnings: &mut Vec<DrawingCompatibilityWarning>) -> (e:
        XmlElement)
        ensures
            e@ == self.sanitized_tree(),
            warnings_model(final(warnings)@) == warnings_model(old(warnings)@) + self.warnings(
                Pass::Sanitize,
            ),
    ;

    /// A value that was sanitized in place is written as the element that
    /// the value before it is written as once it is sanitized.
    proof fn lemma_sanitized_tree(self, after: Self)
        requires
            after.is_sanitized_from(self),
        ensures
            after.tree() == self.sanitized_tree(),
    ;
}

/// The elements that the values of a list are written as once they are
/// sanitized, in order.
pub open spec fn sanitized_trees<T: CompatibleXml>(values: Seq<T>) -> Seq<XmlTree> {
    Seq::new(values.len(), |i: int| values[i].sanitized_tree())
}

/// Values that were sanitized in place are written as the elements that
/// the values before them are written as once they are sanitized.
pub proof fn lemma_sanitized_trees<T: CompatibleXml>(before: Seq<T>, after: Seq<T>)
    requires
        all_sanitized(after, before),
    ensures
        trees(after) == sanitized_trees(before),
{
    assert forall|i: int| 0 <= i < after.len() implies trees(after)[i] == sanitized_trees(
        before,
    )[i] by {
        assert(after[i].is_sanitized_from(before[i]));
        before[i].lemma_sanitized_tree(after[i]);
    }
    assert(trees(after) =~= sanitized_trees(before));
}

/// Writes each value of a list as it is once it is sanitized, in order,
/// as children of an element.
pub fn push_all_sanitized<T: CompatibleXml>(
    e: &mut XmlElement,
    values: &Vec<T>,
    warnings: &mut Vec<DrawingCompatibilityWarning>,
)
    ensures
        final(e)@ == old(e)@.with_children(sanitized_trees(values@)),
        warnings_model(final(warnings)@) == warnings_model(old(warnings)@) + warnings_of(
            values@,
            Pass::Sanitize,
        ),
{
    let ghost before = e@;
    let ghost base = warnings_model(warnings@);
    assert(sanitized_trees(values@.take(0)) =~= Seq::<XmlTree>::empty());
    assert(before.with_children(Seq::empty()) =~= before);
    assert(base + Seq::<WarningModel>::empty() =~= base);
    let mut i: usize = 0;
    while i < values.len()
        invariant
            i <= values@.len(),
            e@ == before.with_children(sanitized_trees(values@.take(i as int))),
            warnings_model(warnings@) == base + warnings_among(values@, Pass::Sanitize, i as nat),
        decreases values@.len() - i,
    {
        let child = values[i].to_sanitized_element(warnings);
        e.push_element(child);
        assert(sanitized_trees(values@.take(i + 1)) =~= sanitized_trees(
            values@.take(i as int),
        ).push(values@[i as int].sanitized_tree()));
        assert(e@ =~= before.with_children(sanitized_trees(values@.take(i + 1))));
        assert(warnings_model(warnings@) =~= base + warnings_among(
            values@,
            Pass::Sanitize,
            (i + 1) as nat,
        ));
        i = i + 1;
    }
    assert(values@.take(values@.len() as int) =~= values@);
}

impl CompatibleXml for RunContent {
    /// A drawing is written sanitized, any other piece as it is.
    open spec fn sanitized_tree(&self) -> XmlTree {
        match self {
            RunContent::Drawing(d) => d.sanitized().tree(),
            _ => self.tree(),
        }
    }

    fn to_sanitized_element(&self, warnings: &mut Vec<DrawingCompatibilityWarning>) -> (e:
        XmlElement) {
        match self {
            RunContent::Drawing(d) => d.to_sanitized_element(warnings),
            _ => {
                assert(warnings_model(warnings@) + Seq::<WarningModel>::empty() =~= warnings_model(
                    warnings@,
                ));
                self.to_element()
            },
        }
    }

    proof fn lemma_sanitized_tree(self, after: RunContent) {
    }
}

impl CompatibleXml for Run {
    open spec fn sanitized_tree(&self) -> XmlTree {
        element("w:r"@).with_children(sanitized_trees(self.content@))
    }

    fn to_sanitized_element(&self, warnings: &mut Vec<DrawingCompatibilityWarning>) -> (e:
        XmlElement) {
        let mut e = XmlElement::new("w:r");
        push_all_sanitized(&mut e, &self.content, warnings);
        e
    }

    proof fn lemma_sanitized_tree(self, after: Run) {
        lemma_sanitized_trees(self.content@, after.content@);
    }
}

impl CompatibleXml for BidirectionalEmbedding {
    open spec fn sanitized_tree(&self) -> XmlTree {
        element("w:dir"@).with_optional_attribute(
            "w:val"@,
            optional_text(self.direction),
        ).with_children(sanitized_trees(self.content@))
    }

    fn to_sanitized_element(&self, warnings: &mut Vec<DrawingCompatibilityWarning>) -> (e:
        XmlElement) {
        let mut e = XmlElement::new("w:dir");
        e.push_optional_attribute("w:val", text_attribute(&self.direction));
        push_all_sanitized(&mut e, &self.content, warnings);
        e
    }

    proof fn lemma_sanitized_tree(self, after: BidirectionalEmbedding) {
        lemma_sanitized_trees(self.content@, after.content@);
    }
}

/// The element that runs embedded with a writing direction are written as
/// once they are sanitized, where there are any.
pub open spec fn embedded_sanitized_tree(embedding: Option<BidirectionalEmbedding>) -> Option<
    XmlTree,
> {
    match embedding {
        Some(b) => Some(b.sanitized_tree()),
        None => None,
    }
}

impl CompatibleXml for Hyperlink {
    open spec fn sanitized_tree(&self) -> XmlTree {
        element("w:hyperlink"@).with_optional_attribute(
            "r:id"@,
            optional_text(self.id),
        ).with_optional_attribute("w:anchor"@, optional_text(self.anchor)).with_children(
            sanitized_trees(self.content@),
        ).with_optional_child(embedded_sanitized_tree(self.bidirectional_embedding))
    }

    fn to_sanitized_element(&self, warnings: &mut Vec<DrawingCompatibilityWarning>) -> (e:
        XmlElement) {
        let ghost base = warnings_model(warnings@);
        let mut e = XmlElement::new("w:hyperlink");
        e.push_optional_attribute("r:id", text_attribute(&self.id));
        e.push_optional_attribute("w:anchor", text_attribute(&self.anchor));
        push_all_sanitized(&mut e, &self.content, warnings);
        let ghost so_far = warnings_model(warnings@);
        match &self.bidirectional_embedding {
            Some(b) => {
                let child = b.to_sanitized_element(warnings);
                e.push_element(child);
            },
            None => {
                assert(so_far + Seq::<WarningModel>::empty() =~= so_far);
            },
        }
        assert(warnings_model(warnings@) =~= base + self.warnings(Pass::Sanitize));
        e
    }

    proof fn lemma_sanitized_tree(self, after: Hyperlink) {
        lemma_sanitized_trees(self.content@, after.content@);
        match (self.bidirectional_embedding, after.bidirectional_embedding) {
            (Some(b), Some(a)) => {
                b.lemma_sanitized_tree(a);
            },
            _ => {},
        }
    }
}

impl CompatibleXml for ParagraphContent {
    /// Runs, hyperlinks and embedded runs are written sanitized; content
    /// kept unread is written as it is.
    open spec fn sanitized_tree(&self) -> XmlTree {
        match self {
            ParagraphContent::Run(r) => r.sanitized_tree(),
            ParagraphContent::Link(h) => h.sanitized_tree(),
            ParagraphContent::Bidi(b) => b.sanitized_tree(),
            ParagraphContent::Other(e) => e@,
        }
    }

    fn to_sanitized_element(&self, warnings: &mut Vec<DrawingCompatibilityWarning>) -> (e:
        XmlElement) {
        match self {
            ParagraphContent::Run(r) => r.to_sanitized_element(warnings),
            ParagraphContent::Link(h) => h.to_sanitized_element(warnings),
            ParagraphContent::Bidi(b) => b.to_sanitized_element(warnings),
            ParagraphContent::Other(_) => {
                assert(warnings_model(warnings@) + Seq::<WarningModel>::empty() =~= warnings_model(
                    warnings@,
                ));
                self.to_element()
            },
        }
    }

    proof fn lemma_sanitized_tree(self, after: ParagraphContent) {
        match (self, after) {
            (ParagraphContent::Run(b), ParagraphContent::Run(a)) => {
                b.lemma_sanitized_tree(a);
            },
            (ParagraphContent::Link(b), ParagraphContent::Link(a)) => {
                b.lemma_sanitized_tree(a);
            },
            (ParagraphContent::Bidi(b), ParagraphContent::Bidi(a)) => {
                b.lemma_sanitized_tree(a);
            },
            _ => {},
        }
    }
}

impl CompatibleXml for Paragraph {
    open spec fn sanitized_tree(&self) -> XmlTree {
        element("w:p"@).with_children(sanitized_trees(self.content@))
    }

    fn to_sanitized_element(&self, warnings: &mut Vec<DrawingCompatibilityWarning>) -> (e:
        XmlElement) {
        let mut e = XmlElement::new("w:p");
        push_all_sanitized(&mut e, &self.content, warnings);
        e
    }

    proof fn lemma_sanitized_tree(self, after: Paragraph) {
        lemma_sanitized_trees(self.content@, after.content@);
    }
}

impl CompatibleXml for BodyContent {
    /// A paragraph is written sanitized, any other piece as it is.
    open spec fn sanitized_tree(&self) -> XmlTree {
        match self {
            BodyContent::Paragraph(p) => p.sanitized_tree(),
            _ => self.tree(),
        }
    }

    fn to_sanitized_element(&self, warnings: &mut Vec<DrawingCompatibilityWarning>) -> (e:
        XmlElement) {
        match self {
            BodyContent::Paragraph(p) => p.to_sanitized_element(warnings),
            _ => {
                assert(warnings_model(warnings@) + Seq::<WarningModel>::empty() =~= warnings_model(
                    warnings@,
                ));
                self.to_element()
            },
        }
    }

    proof fn lemma_sanitized_tree(self, after: BodyContent) {
        match (self, after) {
            (BodyContent::Paragraph(b), BodyContent::Paragraph(a)) => {
                b.lemma_sanitized_tree(a);
            },
            _ => {},
        }
    }
}

impl CompatibleXml for Body {
    open spec fn sanitized_tree(&self) -> XmlTree {
        element("w:body"@).with_children(sanitized_trees(self.content@))
    }

    fn to_sanitized_element(&self, warnings: &mut Vec<DrawingCompatibilityWarning>) -> (e:
        XmlElement) {
        let mut e = XmlElement::new("w:body");
        push_all_sanitized(&mut e, &self.content, warnings);
        e
    }

    proof fn lemma_sanitized_tree(self, after: Body) {
        lemma_sanitized_trees(self.content@, after.content@);
    }
}

impl CompatibleXml for Header {
    open spec fn sanitized_tree(&self) -> XmlTree {
        element("w:hdr"@).with_attributes(attributes_model(self.attributes@)).with_children(
            sanitized_trees(self.content@),
        )
    }

    fn to_sanitized_element(&self, warnings: &mut Vec<DrawingCompatibilityWarning>) -> (e:
        XmlElement) {
        let mut e = XmlElement::new("w:hdr");
        e.push_attributes(&self.attributes);
        push_all_sanitized(&mut e, &self.content, warnings);
        e
    }

    proof fn lemma_sanitized_tree(self, after: Header) {
        lemma_sanitized_trees(self.content@, after.content@);
    }
}

impl CompatibleXml for Footer {
    open spec fn sanitized_tree(&self) -> XmlTree {
        element("w:ftr"@).with_attributes(attributes_model(self.attributes@)).with_children(
            sanitized_trees(self.content@),
        )
    }

    fn to_sanitized_element(&self, warnings: &mut Vec<DrawingCompatibilityWarning>) -> (e:
        XmlElement) {
        let mut e = XmlElement::new("w:ftr");
        e.push_attributes(&self.attributes);
        push_all_sanitized(&mut e, &self.content, warnings);
        e
    }

    proof fn lemma_sanitized_tree(self, after: Footer) {
        lemma_sanitized_trees(self.content@, after.content@);
    }
}

impl Document {
    /// The element that the document is written as once its body is
    /// sanitized.
    pub open spec fn sanitized_tree(&self) -> XmlTree {
        element("w:document"@).with_attributes(attributes_model(self.attributes@)).with_child(
            self.body.sanitized_tree(),
        )
    }

    /// Writes the document as it is once its body is sanitized, and adds
    /// the warnings of sanitizing it to the list. The document stays as it
    /// is.
    pub fn to_sanitized_element(&self, warnings: &mut Vec<DrawingCompatibilityWarning>) -> (e:
        XmlElement)
        ensures
            e@ == self.sanitized_tree(),
            warnings_model(final(warnings)@) == warnings_model(old(warnings)@)
                + self.body.warnings(Pass::Sanitize),
    {
        let mut e = XmlElement::new("w:document");
        e.push_attributes(&self.attributes);
        let body = self.body.to_sanitized_element(warnings);
        e.push_element(body);
        e
    }

    /// A document whose body was sanitized in place is written as the
    /// element that the document before it is written as once it is
    /// sanitized.
    pub proof fn lemma_sanitized_tree(self, after: Document)
        requires
            after.attributes == self.attributes,
            after.body.is_sanitized_from(self.body),
        ensures
            after.tree() == self.sanitized_tree(),
    {
        self.body.lemma_sanitized_tree(after.body);
    }
}

} // verus!
