//! Relationships: the typed links from one part of a package to others.
//!
//! A relationship has an id, unique among the relationships of its part, a
//! type, which is a schema URI, and a target.

use vstd::prelude::*;
use vstd::string::StringExecFns;
use crate::codec::{
    all_read_from, all_readable, expect_tag, optional_text, push_all, read_all, read_text,
    read_text_or_empty, text_attribute, text_or_empty, trees, XmlCodec,
};
use crate::error::DocxError;
use crate::part::{part_text, read_from_text, read_part, text_readable, write_part};
use crate::xml::{element, XmlElement, XmlTree};

verus! {

/// A link from a part to a target.
#[derive(Debug, Default, Clone)]
pub struct Relationship {
    /// The id, by which the part refers to the target.
    pub id: String,
    /// The schema URI that says what kind of link it is.
    pub ty: String,
    /// The target, relative to the part.
    pub target: String,
    /// Whether the target lies outside the package.
    pub target_mode: Option<String>,
}

impl XmlCodec for Relationship {
    open spec fn tree(&self) -> XmlTree {
        element("Relationship"@)
            .with_attribute("Id"@, self.id@)
            .with_attribute("Type"@, self.ty@)
            .with_attribute("Target"@, self.target@)
            .with_optional_attribute("TargetMode"@, optional_text(self.target_mode))
    }

    open spec fn readable(tree: XmlTree) -> bool {
        &&& tree is Element
        &&& tree.tag() == "Relationship"@
    }

    open spec fn read_from(&self, tree: XmlTree) -> bool {
        &&& self.id@ == text_or_empty(tree.attribute("Id"@))
        &&& self.ty@ == text_or_empty(tree.attribute("Type"@))
        &&& self.target@ == text_or_empty(tree.attribute("Target"@))
        &&& optional_text(self.target_mode) == tree.attribute("TargetMode"@)
    }

    fn to_element(&self) -> (e: XmlElement) {
        let mut e = XmlElement::new("Relationship");
        e.push_attribute("Id", self.id.clone());
        e.push_attribute("Type", self.ty.clone());
        e.push_attribute("Target", self.target.clone());
        e.push_optional_attribute("TargetMode", text_attribute(&self.target_mode));
        e
    }

    fn from_element(element: &XmlElement) -> (r: Result<Relationship, DocxError>) {
        expect_tag(element, "Relationship")?;
        let id = read_text_or_empty(element.attribute("Id"));
        let ty = read_text_or_empty(element.attribute("Type"));
        let target = read_text_or_empty(element.attribute("Target"));
        let target_mode = read_text(element.attribute("TargetMode"));
        Ok(Relationship { id, ty, target, target_mode })
    }
}

/// The relationships of one part, in order.
#[derive(Debug, Default, Clone)]
pub struct Relationships {
    /// The relationships.
    pub relationships: Vec<Relationship>,
}

impl XmlCodec for Relationships {
    open spec fn tree(&self) -> XmlTree {
        element("Relationships"@)
            .with_attribute(
                "xmlns"@,
                "http://schemas.openxmlformats.org/package/2006/relationships"@,
            )
            .with_children(trees(self.relationships@))
    }

    open spec fn readable(tree: XmlTree) -> bool {
        &&& tree is Element
        &&& tree.tag() == "Relationships"@
        &&& all_readable::<Relationship>(tree.elements("Relationship"@))
    }

    open spec fn read_from(&self, tree: XmlTree) -> bool {
        &&& all_read_from(self.relationships@, tree.elements("Relationship"@))
    }

    fn to_element(&self) -> (e: XmlElement) {
        let mut e = XmlElement::new("Relationships");
        e.push_attribute(
            "xmlns",
            String::from_str("http://schemas.openxmlformats.org/package/2006/relationships"),
        );
        push_all(&mut e, &self.relationships);
        e
    }

    fn from_element(element: &XmlElement) -> (r: Result<Relationships, DocxError>) {
        expect_tag(element, "Relationships")?;
        let relationships = read_all::<Relationship>(element, "Relationship")?;
        Ok(Relationships { relationships })
    }
}

impl Relationships {
    /// The relationships as the text of a part: the XML declaration, then the element.
    pub fn to_xml(&self) -> (text: String)
        ensures
            text@ == part_text(self.tree()),
    {
        write_part(self)
    }

    /// Reads the relationships from the text of a part.
    pub fn from_str(text: &str) -> (r: Result<Relationships, DocxError>)
        ensures
            r is Ok <==> text_readable::<Relationships>(text@),
            r matches Ok(v) ==> read_from_text(v, text@),
            r matches Err(e) ==> e is Xml,
    {
        read_part(text)
    }
}
} // verus!
