//! The text of an XML part: a declaration followed by the root element.

use vstd::prelude::*;
use vstd::string::StringExecFns;
use crate::codec::XmlCodec;
use crate::error::DocxError;
use crate::xml::{tree_text, XmlElement, XmlTree};

verus! {

/// The declaration that every XML part begins with.
pub open spec fn declaration() -> Seq<char> {
    "<?xml version=\"1.0\" encoding=\"UTF-8\" standalone=\"yes\"?>"@
}

/// The text of a part whose root element is `root`.
pub open spec fn part_text(root: XmlTree) -> Seq<char> {
    declaration() + tree_text(root)
}

/// Whether a text can be read as a value of a type: it is XML whose root
/// element can be read as one.
pub open spec fn text_readable<T: XmlCodec>(text: Seq<char>) -> bool {
    match XmlElement::read(text) {
        Some(tree) => T::readable(tree),
        None => false,
    }
}

/// Whether a value is what a readable text stands for.
pub open spec fn read_from_text<T: XmlCodec>(value: T, text: Seq<char>) -> bool {
    match XmlElement::read(text) {
        Some(tree) => value.read_from(tree),
        None => false,
    }
}

/// Writes an element as the text of a part: the XML declaration, then the
/// element.
pub fn write_root(root: &XmlElement) -> (text: String)
    ensures
        text@ == part_text(root@),
{
    let body = root.to_text();
    String::from_str("<?xml version=\"1.0\" encoding=\"UTF-8\" standalone=\"yes\"?>").concat(
        body.as_str(),
    )
}

/// Writes a value as the text of a part: the XML declaration, then the
/// element.
pub fn write_part<T: XmlCodec>(value: &T) -> (text: String)
    ensures
        text@ == part_text(value.tree()),
{
    write_root(&value.to_element())
}

/// Reads a value from the text of a part.
pub fn read_part<T: XmlCodec>(text: &str) -> (r: Result<T, DocxError>)
    ensures
        r is Ok <==> text_readable::<T>(text@),
        r matches Ok(v) ==> read_from_text(v, text@),
        r matches Err(e) ==> e is Xml,
{
    match XmlElement::from_text(text) {
        Ok(root) => T::from_element(&root),
        Err(e) => Err(e),
    }
}

} // verus!
