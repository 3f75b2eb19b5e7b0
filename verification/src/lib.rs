//! Reading and writing of word-processing document packages.
//!
//! A package is a container of named parts. The main part is a document:
//! a tree of paragraphs, runs, hyperlinks and drawings. This library holds
//! the tree ([`document`], [`drawing`]), its text ([`text`], [`leaf`],
//! [`substitute`]), the XML it is written as and read from ([`xml`],
//! [`xml_write`], [`xml_read`], [`codec`]), the rules that keep drawings
//! openable ([`anchor`], [`compat`], [`sweep`], [`compatible`], [`save`]),
//! the books that are kept of the parts ([`rels`], [`content_type`],
//! [`registry`]) and the package with its container ([`docx`],
//! [`docx_file`], [`parse`], [`container`]).
//!
//! Every function states what it returns; the statements are proved.
//! What rests on the `hard_xml` and `zip` crates is said where it is used.

// Text and numbers.
pub mod error;
pub mod lexical;
pub mod substitute;

// XML.
pub mod codec;
pub mod part;
pub mod xml;
pub mod xml_read;
pub mod xml_write;

// The document tree.
pub mod compose;
pub mod document;
pub mod drawing;
pub mod leaf;
pub mod roundtrip;
pub mod text;

// Drawings that stay openable.
pub mod anchor;
pub mod compat;
pub mod compatible;
pub mod save;
pub mod sweep;

// The package.
pub mod container;
pub mod content_type;
pub mod docx;
pub mod docx_file;
pub mod media;
pub mod parse;
pub mod registry;
pub mod rels;
pub mod schema;

pub use crate::docx::Docx;
pub use crate::docx_file::DocxFile;
pub use crate::error::{DocxError, DocxResult};
