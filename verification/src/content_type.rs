//! Content types: the declared type of every part of a package.
//!
//! A part gets its type from an override that names its path, or else from
//! the default for its file extension.

use vstd::prelude::*;
use vstd::string::StringExecFns;
use crate::codec::{
    all_read_from, all_readable, expect_tag, push_all, read_all, read_text_or_empty,
    text_or_empty, trees, XmlCodec,
};
use crate::error::DocxError;
use crate::part::{part_text, read_from_text, read_part, text_readable, write_part};
use crate::xml::{element, XmlElement, XmlTree};

verus! {

/// The content type of every part with a given file extension.
#[derive(Debug, Default, Clone)]
pub struct DefaultContentType {
    /// The file extension, without the dot.
    pub ext: String,
    /// The content type.
    pub ty: String,
}

impl XmlCodec for DefaultContentType {
    open spec fn tree(&self) -> XmlTree {
        element("Default"@)
            .with_attribute("Extension"@, self.ext@)
            .with_attribute("ContentType"@, self.ty@)
    }

    open spec fn readable(tree: XmlTree) -> bool {
        &&& tree is Element
        &&& tree.tag() == "Default"@
    }

    open spec fn read_from(&self, tree: XmlTree) -> bool {
        &&& self.ext@ == text_or_empty(tree.attribute("Extension"@))
        &&& self.ty@ == text_or_empty(tree.attribute("ContentType"@))
    }

    fn to_element(&self) -> (e: XmlElement) {
        let mut e = XmlElement::new("Default");
        e.push_attribute("Extension", self.ext.clone());
        e.push_attribute("ContentType", self.ty.clone());
        e
    }

    fn from_element(element: &XmlElement) -> (r: Result<DefaultContentType, DocxError>) {
        expect_tag(element, "Default")?;
        let ext = read_text_or_empty(element.attribute("Extension"));
        let ty = read_text_or_empty(element.attribute("ContentType"));
        Ok(DefaultContentType { ext, ty })
    }
}

/// The content type of one part.
#[derive(Debug, Default, Clone)]
pub struct OverrideContentType {
    /// The path of the part, with a slash in front.
    pub part: String,
    /// The content type.
    pub ty: String,
}

impl XmlCodec for OverrideContentType {
    open spec fn tree(&self) -> XmlTree {
        element("Override"@)
            .with_attribute("PartName"@, self.part@)
            .with_attribute("ContentType"@, self.ty@)
    }

    open spec fn readable(tree: XmlTree) -> bool {
        &&& tree is Element
        &&& tree.tag() == "Override"@
    }

    open spec fn read_from(&self, tree: XmlTree) -> bool {
        &&& self.part@ == text_or_empty(tree.attribute("PartName"@))
        &&& self.ty@ == text_or_empty(tree.attribute("ContentType"@))
    }

    fn to_element(&self) -> (e: XmlElement) {
        let mut e = XmlElement::new("Override");
        e.push_attribute("PartName", self.part.clone());
        e.push_attribute("ContentType", self.ty.clone());
        e
    }

    fn from_element(element: &XmlElement) -> (r: Result<OverrideContentType, DocxError>) {
        expect_tag(element, "Override")?;
        let part = read_text_or_empty(element.attribute("PartName"));
        let ty = read_text_or_empty(element.attribute("ContentType"));
        Ok(OverrideContentType { part, ty })
    }
}

/// The content types of a package.
#[derive(Debug, Default, Clone)]
pub struct ContentTypes {
    /// The defaults by extension.
    pub defaults: Vec<DefaultContentType>,
    /// The overrides by path.
    pub overrides: Vec<OverrideContentType>,
}

impl XmlCodec for ContentTypes {
    open spec fn tree(&self) -> XmlTree {
        element("Types"@)
            .with_attribute(
                "xmlns"@,
                "http://schemas.openxmlformats.org/package/2006/content-types"@,
            )
            .with_children(trees(self.defaults@))
            .with_children(trees(self.overrides@))
    }

    open spec fn readable(tree: XmlTree) -> bool {
        &&& tree is Element
        &&& tree.tag() == "Types"@
        &&& all_readable::<DefaultContentType>(tree.elements("Default"@))
        &&& all_readable::<OverrideContentType>(tree.elements("Override"@))
    }

    open spec fn read_from(&self, tree: XmlTree) -> bool {
        &&& all_read_from(self.defaults@, tree.elements("Default"@))
        &&& all_read_from(self.overrides@, tree.elements("Override"@))
    }

    fn to_element(&self) -> (e: XmlElement) {
        let mut e = XmlElement::new("Types");
        e.push_attribute(
            "xmlns",
            String::from_str("http://schemas.openxmlformats.org/package/2006/content-types"),
        );
        push_all(&mut e, &self.defaults);
        push_all(&mut e, &self.overrides);
        e
    }

    fn from_element(element: &XmlElement) -> (r: Result<ContentTypes, DocxError>) {
        expect_tag(element, "Types")?;
        let defaults = read_all::<DefaultContentType>(element, "Default")?;
        let overrides = read_all::<OverrideContentType>(element, "Override")?;
        Ok(ContentTypes { defaults, overrides })
    }
}

impl ContentTypes {
    /// The content types as the text of a part: the XML declaration, then the element.
    pub fn to_xml(&self) -> (text: String)
        ensures
            text@ == part_text(self.tree()),
    {
        write_part(self)
    }

    /// Reads the content types from the text of a part.
    pub fn from_str(text: &str) -> (r: Result<ContentTypes, DocxError>)
        ensures
            r is Ok <==> text_readable::<ContentTypes>(text@),
            r matches Ok(v) ==> read_from_text(v, text@),
            r matches Err(e) ==> e is Xml,
    {
        read_part(text)
    }
}
} // verus!
