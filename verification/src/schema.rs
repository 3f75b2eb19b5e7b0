//! The schema URIs that classify relationships, and the content types of
//! the parts of a package.

use vstd::prelude::*;

verus! {

pub const SCHEMA_OFFICE_DOCUMENT: &'static str =
    "http://schemas.openxmlformats.org/officeDocument/2006/relationships/officeDocument";

pub const SCHEMA_CORE: &'static str =
    "http://schemas.openxmlformats.org/package/2006/relationships/metadata/core-properties";

pub const SCHEMA_REL_EXTENDED: &'static str =
    "http://schemas.openxmlformats.org/officeDocument/2006/relationships/extended-properties";

pub const SCHEMA_STYLES: &'static str =
    "http://schemas.openxmlformats.org/officeDocument/2006/relationships/styles";

pub const SCHEMA_FONT_TABLE: &'static str =
    "http://schemas.openxmlformats.org/officeDocument/2006/relationships/fontTable";

pub const SCHEMA_FOOTNOTES: &'static str =
    "http://schemas.openxmlformats.org/officeDocument/2006/relationships/footnotes";

pub const SCHEMA_ENDNOTES: &'static str =
    "http://schemas.openxmlformats.org/officeDocument/2006/relationships/endnotes";

pub const SCHEMA_SETTINGS: &'static str =
    "http://schemas.openxmlformats.org/officeDocument/2006/relationships/settings";

pub const SCHEMA_WEB_SETTINGS: &'static str =
    "http://schemas.openxmlformats.org/officeDocument/2006/relationships/webSettings";

pub const SCHEMA_COMMENTS: &'static str =
    "http://schemas.openxmlformats.org/officeDocument/2006/relationships/comments";

pub const SCHEMA_NUMBERING: &'static str =
    "http://schemas.openxmlformats.org/officeDocument/2006/relationships/numbering";

pub const SCHEMA_HEADER: &'static str =
    "http://schemas.openxmlformats.org/officeDocument/2006/relationships/header";

pub const SCHEMA_FOOTER: &'static str =
    "http://schemas.openxmlformats.org/officeDocument/2006/relationships/footer";

pub const SCHEMA_THEME: &'static str =
    "http://schemas.openxmlformats.org/officeDocument/2006/relationships/theme";

pub const SCHEMA_IMAGE: &'static str =
    "http://schemas.openxmlformats.org/officeDocument/2006/relationships/image";

pub const SCHEMA_HYPERLINK: &'static str =
    "http://schemas.openxmlformats.org/officeDocument/2006/relationships/hyperlink";

} // verus!
