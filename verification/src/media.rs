//! Media embedded in a package: which files count as images, by their
//! extension, and what they are declared as.

use vstd::prelude::*;
use crate::lexical::str_eq;
use crate::registry::{extension, extension_of};
use crate::schema::SCHEMA_IMAGE;

verus! {

/// The kinds of media that a package embeds.
#[derive(Debug, Clone, Copy, PartialEq, Eq)]
pub enum MediaType {
    /// A picture.
    Image,
}

/// The content type of images with the given file extension; nothing for
/// an extension that is not that of an image.
pub open spec fn image_type(ext: Seq<char>) -> Option<Seq<char>> {
    if ext == "png"@ {
        Some("image/png"@)
    } else if ext == "jpg"@ || ext == "jpeg"@ {
        Some("image/jpeg"@)
    } else if ext == "gif"@ {
        Some("image/gif"@)
    } else if ext == "bmp"@ {
        Some("image/bmp"@)
    } else if ext == "tif"@ || ext == "tiff"@ {
        Some("image/tiff"@)
    } else if ext == "emf"@ {
        Some("image/x-emf"@)
    } else if ext == "wmf"@ {
        Some("image/x-wmf"@)
    } else {
        None
    }
}

/// The content type of images with the given file extension.
pub fn image_content_type(ext: &str) -> (ty: Option<&'static str>)
    ensures
        match ty {
            Some(t) => image_type(ext@) == Some(t@),
            None => image_type(ext@) is None,
        },
{
    if str_eq(ext, "png") {
        Some("image/png")
    } else if str_eq(ext, "jpg") || str_eq(ext, "jpeg") {
        Some("image/jpeg")
    } else if str_eq(ext, "gif") {
        Some("image/gif")
    } else if str_eq(ext, "bmp") {
        Some("image/bmp")
    } else if str_eq(ext, "tif") || str_eq(ext, "tiff") {
        Some("image/tiff")
    } else if str_eq(ext, "emf") {
        Some("image/x-emf")
    } else if str_eq(ext, "wmf") {
        Some("image/x-wmf")
    } else {
        None
    }
}

/// The kind of media that a file of the given name is: an image where its
/// extension is that of an image, nothing otherwise.
pub open spec fn media_type(name: Seq<char>) -> Option<MediaType> {
    if image_type(extension(name)) is Some {
        Some(MediaType::Image)
    } else {
        None
    }
}

/// Tells the kind of media from the name of a file.
pub fn get_media_type(name: &str) -> (kind: Option<MediaType>)
    ensures
        kind == media_type(name@),
{
    let ext = extension_of(name);
    match image_content_type(ext.as_str()) {
        Some(_) => Some(MediaType::Image),
        None => None,
    }
}

/// The type of the relationship that leads to media of the given kind.
pub fn get_media_type_relation_type(kind: &MediaType) -> (ty: &'static str)
    ensures
        ty@ == SCHEMA_IMAGE@,
{
    match kind {
        MediaType::Image => SCHEMA_IMAGE,
    }
}

} // verus!
