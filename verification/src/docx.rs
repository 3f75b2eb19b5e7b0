//! The package: a document with its headers, footers, themes, media and the
//! parts that are carried along unread, and the books that are kept of
//! them.
//!
//! Writing a package registers a relationship for every part that is
//! there, in a fixed order, gives every part a content type, and packs the
//! parts into a container. Styles, themes, numbering, fonts, notes,
//! settings and the properties of the package are carried as the text they
//! were read as.

use vstd::prelude::*;
use crate::codec::XmlCodec;
use vstd::string::{StrSliceExecFns, StringExecFns};
use vstd::utf8::encode_utf8;
use crate::codec::optional_text;
use crate::container::{
    entries_distinct, entry_of, pack, packed, part_entries, EntryModel, Part,
};
use crate::content_type::ContentTypes;
use crate::document::{Document, Footer, Header};
use crate::error::DocxError;
use crate::media::{image_content_type, image_type, MediaType};
use crate::part::part_text;
use crate::registry::{
    defaults_model, extension, extension_of, is_linked, lemma_linked_all, linked_all,
    overrides_model, wanted_model, with_default, with_overrides, LinkModel,
};
use crate::rels::Relationships;
use crate::schema::{
    SCHEMA_COMMENTS, SCHEMA_CORE, SCHEMA_ENDNOTES, SCHEMA_FONT_TABLE, SCHEMA_FOOTER,
    SCHEMA_FOOTNOTES, SCHEMA_HEADER, SCHEMA_IMAGE, SCHEMA_NUMBERING, SCHEMA_OFFICE_DOCUMENT,
    SCHEMA_REL_EXTENDED, SCHEMA_SETTINGS, SCHEMA_STYLES, SCHEMA_THEME, SCHEMA_WEB_SETTINGS,
};

verus! {

pub const TYPE_APP: &'static str =
    "application/vnd.openxmlformats-officedocument.extended-properties+xml";

pub const TYPE_CORE: &'static str = "application/vnd.openxmlformats-package.core-properties+xml";

pub const TYPE_RELATIONSHIPS: &'static str =
    "application/vnd.openxmlformats-package.relationships+xml";

pub const TYPE_XML: &'static str = "application/xml";

pub const TYPE_BINARY: &'static str = "application/octet-stream";

pub const TYPE_DOCUMENT: &'static str =
    "application/vnd.openxmlformats-officedocument.wordprocessingml.document.main+xml";

pub const TYPE_STYLES: &'static str =
    "application/vnd.openxmlformats-officedocument.wordprocessingml.styles+xml";

pub const TYPE_FONT_TABLE: &'static str =
    "application/vnd.openxmlformats-officedocument.wordprocessingml.fontTable+xml";

pub const TYPE_FOOTNOTES: &'static str =
    "application/vnd.openxmlformats-officedocument.wordprocessingml.footnotes+xml";

pub const TYPE_ENDNOTES: &'static str =
    "application/vnd.openxmlformats-officedocument.wordprocessingml.endnotes+xml";

pub const TYPE_SETTINGS: &'static str =
    "application/vnd.openxmlformats-officedocument.wordprocessingml.settings+xml";

pub const TYPE_WEB_SETTINGS: &'static str =
    "application/vnd.openxmlformats-officedocument.wordprocessingml.webSettings+xml";

pub const TYPE_COMMENTS: &'static str =
    "application/vnd.openxmlformats-officedocument.wordprocessingml.comments+xml";

pub const TYPE_NUMBERING: &'static str =
    "application/vnd.openxmlformats-officedocument.wordprocessingml.numbering+xml";

pub const TYPE_HEADER: &'static str =
    "application/vnd.openxmlformats-officedocument.wordprocessingml.header+xml";

pub const TYPE_FOOTER: &'static str =
    "application/vnd.openxmlformats-officedocument.wordprocessingml.footer+xml";

pub const TYPE_THEME: &'static str = "application/vnd.openxmlformats-officedocument.theme+xml";

/// The styles part of a package that has none of its own.
pub const DEFAULT_STYLES: &'static str =
    "<?xml version=\"1.0\" encoding=\"UTF-8\" standalone=\"yes\"?><w:styles xmlns:w=\"http://schemas.openxmlformats.org/wordprocessingml/2006/main\"/>";

/// A package.
#[derive(Debug, Clone)]
pub struct Docx<'a> {
    /// The application properties, as text.
    pub app: Option<String>,
    /// The core properties, as text.
    pub core: Option<String>,
    /// The content types of the parts.
    pub content_types: ContentTypes,
    /// The main document.
    pub document: Document,
    /// The font table, as text.
    pub font_table: Option<String>,
    /// The styles, as text.
    pub styles: String,
    /// The relationships of the package: to the main document and to the
    /// properties.
    pub rels: Relationships,
    /// The relationships of the main document.
    pub document_rels: Option<Relationships>,
    /// The relationships of the settings.
    pub settings_rels: Option<Relationships>,
    /// The headers, each under its file name.
    pub headers: Vec<(String, Header)>,
    /// The footers, each under its file name.
    pub footers: Vec<(String, Footer)>,
    /// The themes, as text, each under its file name.
    pub themes: Vec<(String, String)>,
    /// The media, each under its file name: the kind and the bytes, which
    /// are borrowed from where they were loaded.
    pub media: Vec<(String, MediaType, &'a Vec<u8>)>,
    /// The footnotes, as text.
    pub footnotes: Option<String>,
    /// The endnotes, as text.
    pub endnotes: Option<String>,
    /// The settings, as text.
    pub settings: Option<String>,
    /// The web settings, as text.
    pub web_settings: Option<String>,
    /// The comments, as text.
    pub comments: Option<String>,
    /// The numbering definitions, as text.
    pub numbering: Option<String>,
    /// Custom parts, each under its path in the container.
    pub custom_xml: Vec<(String, Vec<u8>)>,
}

impl<'a> Default for Docx<'a> {
    /// A package that holds an empty document, the usual styles and
    /// nothing else.
    fn default() -> (docx: Docx<'a>)
        ensures
            docx.document.body.content@.len() == 0,
            docx.styles@ == DEFAULT_STYLES@,
            docx.document_rels is None,
            docx.headers@.len() == 0 && docx.footers@.len() == 0 && docx.media@.len() == 0,
    {
        Docx::new()
    }
}

/// A part of a package as it is written: its path, its content type and
/// its bytes.
#[derive(Debug, Clone, Default)]
pub struct PackagePart {
    /// The path of the part within the container.
    pub name: String,
    /// The content type of the part.
    pub ty: String,
    /// The bytes of the part.
    pub data: Vec<u8>,
}

/// The mathematical value of a part of a package.
pub struct PartModel {
    pub name: Seq<char>,
    pub ty: Seq<char>,
    pub data: Seq<u8>,
}

impl View for PackagePart {
    type V = PartModel;

    open spec fn view(&self) -> PartModel {
        PartModel { name: self.name@, ty: self.ty@, data: self.data@ }
    }
}

/// The values of a list of parts.
pub open spec fn parts_model(parts: Seq<PackagePart>) -> Seq<PartModel> {
    Seq::new(parts.len(), |i: int| parts[i]@)
}

/// The path of a file of the main document: `word/` and the file name.
pub open spec fn word_path(name: Seq<char>) -> Seq<char> {
    "word/"@ + name
}

/// The content type that media of the given file name is declared as: that
/// of images with its extension, or plain bytes.
pub open spec fn media_content_type(name: Seq<char>) -> Seq<char> {
    match image_type(extension(name)) {
        Some(ty) => ty,
        None => TYPE_BINARY@,
    }
}

/// A link that is wanted where a part is there.
pub open spec fn optional_link(present: bool, ty: Seq<char>, target: Seq<char>) -> Seq<
    (Seq<char>, Seq<char>),
> {
    if present {
        seq![(ty, target)]
    } else {
        Seq::empty()
    }
}

/// Links of one type to each of the given targets, in order.
pub open spec fn links_to(targets: Seq<Seq<char>>, ty: Seq<char>) -> Seq<(Seq<char>, Seq<char>)> {
    Seq::new(targets.len(), |i: int| (ty, targets[i]))
}

/// Adds a wanted link to a list where a part is there.
fn want_optional(wanted: &mut Vec<(String, String)>, present: bool, ty: &str, target: &str)
    ensures
        wanted_model(final(wanted)@) == wanted_model(old(wanted)@) + optional_link(
            present,
            ty@,
            target@,
        ),
{
    if present {
        wanted.push((String::from_str(ty), String::from_str(target)));
        assert(wanted_model(wanted@) =~= wanted_model(old(wanted)@) + seq![(ty@, target@)]);
    } else {
        assert(wanted_model(wanted@) =~= wanted_model(old(wanted)@) + Seq::empty());
    }
}

/// A part that a package holds in numbers, under a file name.
pub trait NamedPart: Sized {
    /// The file name by which the main document refers to the part.
    spec fn name(&self) -> Seq<char>;

    /// The part as it is written: its path, its content type and its
    /// bytes.
    spec fn part(&self) -> PartModel;

    /// The file name by which the main document refers to the part.
    fn file_name(&self) -> (name: &str)
        ensures
            name@ == self.name(),
    ;

    /// Writes the part.
    fn to_part(&self) -> (part: PackagePart)
        ensures
            part@ == self.part(),
    ;
}

/// The file names of parts, in order.
pub open spec fn names_of<T: NamedPart>(parts: Seq<T>) -> Seq<Seq<char>> {
    Seq::new(parts.len(), |i: int| parts[i].name())
}

/// Parts as they are written, in order.
pub open spec fn parts_of<T: NamedPart>(parts: Seq<T>) -> Seq<PartModel> {
    Seq::new(parts.len(), |i: int| parts[i].part())
}

/// A header under its file name.
impl NamedPart for (String, Header) {
    open spec fn name(&self) -> Seq<char> {
        self.0@
    }

    open spec fn part(&self) -> PartModel {
        PartModel {
            name: word_path(self.0@),
            ty: TYPE_HEADER@,
            data: encode_utf8(part_text(self.1.tree())),
        }
    }

    fn file_name(&self) -> (name: &str) {
        self.0.as_str()
    }

    fn to_part(&self) -> (part: PackagePart) {
        PackagePart {
            name: String::from_str("word/").concat(self.0.as_str()),
            ty: String::from_str(TYPE_HEADER),
            data: self.1.to_xml().as_str().as_bytes_vec(),
        }
    }
}

/// A footer under its file name.
impl NamedPart for (String, Footer) {
    open spec fn name(&self) -> Seq<char> {
        self.0@
    }

    open spec fn part(&self) -> PartModel {
        PartModel {
            name: word_path(self.0@),
            ty: TYPE_FOOTER@,
            data: encode_utf8(part_text(self.1.tree())),
        }
    }

    fn file_name(&self) -> (name: &str) {
        self.0.as_str()
    }

    fn to_part(&self) -> (part: PackagePart) {
        PackagePart {
            name: String::from_str("word/").concat(self.0.as_str()),
            ty: String::from_str(TYPE_FOOTER),
            data: self.1.to_xml().as_str().as_bytes_vec(),
        }
    }
}

/// A theme, as text, under its file name.
impl NamedPart for (String, String) {
    open spec fn name(&self) -> Seq<char> {
        self.0@
    }

    open spec fn part(&self) -> PartModel {
        PartModel { name: word_path(self.0@), ty: TYPE_THEME@, data: encode_utf8(self.1@) }
    }

    fn file_name(&self) -> (name: &str) {
        self.0.as_str()
    }

    fn to_part(&self) -> (part: PackagePart) {
        PackagePart {
            name: String::from_str("word/").concat(self.0.as_str()),
            ty: String::from_str(TYPE_THEME),
            data: self.1.as_str().as_bytes_vec(),
        }
    }
}

/// A media file under its file name: its content type is that of images
/// with its extension, or plain bytes.
impl<'a> NamedPart for (String, MediaType, &'a Vec<u8>) {
    open spec fn name(&self) -> Seq<char> {
        self.0@
    }

    open spec fn part(&self) -> PartModel {
        PartModel { name: word_path(self.0@), ty: media_content_type(self.0@), data: self.2@ }
    }

    fn file_name(&self) -> (name: &str) {
        self.0.as_str()
    }

    fn to_part(&self) -> (part: PackagePart) {
        let ext = extension_of(self.0.as_str());
        let ty = match image_content_type(ext.as_str()) {
            Some(t) => t,
            None => TYPE_BINARY,
        };
        PackagePart {
            name: String::from_str("word/").concat(self.0.as_str()),
            ty: String::from_str(ty),
            data: self.2.clone(),
        }
    }
}

/// A custom part under its path in the container.
impl NamedPart for (String, Vec<u8>) {
    open spec fn name(&self) -> Seq<char> {
        self.0@
    }

    open spec fn part(&self) -> PartModel {
        PartModel { name: self.0@, ty: TYPE_XML@, data: self.1@ }
    }

    fn file_name(&self) -> (name: &str) {
        self.0.as_str()
    }

    fn to_part(&self) -> (part: PackagePart) {
        PackagePart { name: self.0.clone(), ty: String::from_str(TYPE_XML), data: self.1.clone() }
    }
}

/// Adds a wanted link of one type to each of the given parts, in order.
fn want_each<T: NamedPart>(wanted: &mut Vec<(String, String)>, ty: &str, parts: &Vec<T>)
    ensures
        wanted_model(final(wanted)@) == wanted_model(old(wanted)@) + links_to(
            names_of(parts@),
            ty@,
        ),
{
    let ghost before = wanted_model(wanted@);
    assert(links_to(names_of(parts@.take(0)), ty@) =~= Seq::empty());
    assert(before + Seq::empty() =~= before);
    let mut i: usize = 0;
    while i < parts.len()
        invariant
            i <= parts@.len(),
            wanted_model(wanted@) == before + links_to(names_of(parts@.take(i as int)), ty@),
        decreases parts@.len() - i,
    {
        want_optional(wanted, true, ty, parts[i].file_name());
        assert(links_to(names_of(parts@.take(i + 1)), ty@) =~= links_to(
            names_of(parts@.take(i as int)),
            ty@,
        ) + seq![(ty@, parts@[i as int].name())]);
        i = i + 1;
    }
    assert(parts@.take(parts@.len() as int) =~= parts@);
}

/// Writes each of the given parts, in order.
fn push_each<T: NamedPart>(out: &mut Vec<PackagePart>, parts: &Vec<T>)
    ensures
        parts_model(final(out)@) == parts_model(old(out)@) + parts_of(parts@),
{
    let ghost before = parts_model(out@);
    assert(before + parts_of(parts@.take(0)) =~= before);
    let mut i: usize = 0;
    while i < parts.len()
        invariant
            i <= parts@.len(),
            parts_model(out@) == before + parts_of(parts@.take(i as int)),
        decreases parts@.len() - i,
    {
        let ghost so_far = parts_model(out@);
        let part = parts[i].to_part();
        out.push(part);
        assert(parts_model(out@) =~= so_far.push(part@));
        assert(parts_of(parts@.take(i + 1)) =~= parts_of(parts@.take(i as int)).push(
            parts@[i as int].part(),
        ));
        i = i + 1;
    }
    assert(parts@.take(parts@.len() as int) =~= parts@);
}

/// Writes each of the given parts, in order, into a list of its own.
pub fn parts_list<T: NamedPart>(parts: &Vec<T>) -> (list: Vec<PackagePart>)
    ensures
        parts_model(list@) == parts_of(parts@),
{
    let mut list: Vec<PackagePart> = Vec::new();
    assert(parts_model(list@) =~= Seq::empty());
    push_each(&mut list, parts);
    assert(Seq::<PartModel>::empty() + parts_of(parts@) =~= parts_of(parts@));
    list
}

impl<'a> Docx<'a> {
    /// A package that holds an empty document, the usual styles and
    /// nothing else.
    pub fn new() -> (docx: Docx<'a>)
        ensures
            docx.document.body.content@.len() == 0,
            docx.styles@ == DEFAULT_STYLES@,
            docx.rels.relationships@.len() == 0,
            docx.document_rels is None,
            docx.settings_rels is None,
            docx.content_types.defaults@.len() == 0,
            docx.content_types.overrides@.len() == 0,
            docx.headers@.len() == 0 && docx.footers@.len() == 0 && docx.themes@.len() == 0,
            docx.media@.len() == 0 && docx.custom_xml@.len() == 0,
            docx.app is None && docx.core is None && docx.font_table is None,
            docx.footnotes is None && docx.endnotes is None && docx.settings is None,
            docx.web_settings is None && docx.comments is None && docx.numbering is None,
            docx.has_distinct_names(),
            docx.content_types.well_formed(),
    {
        Docx {
            app: None,
            core: None,
            content_types: ContentTypes { defaults: Vec::new(), overrides: Vec::new() },
            document: Document::new(),
            font_table: None,
            styles: String::from_str(DEFAULT_STYLES),
            rels: Relationships { relationships: Vec::new() },
            document_rels: None,
            settings_rels: None,
            headers: Vec::new(),
            footers: Vec::new(),
            themes: Vec::new(),
            media: Vec::new(),
            footnotes: None,
            endnotes: None,
            settings: None,
            web_settings: None,
            comments: None,
            numbering: None,
            custom_xml: Vec::new(),
        }
    }

    /// The links that the package itself needs: to the application and
    /// the core properties where they are there, and to the main document.
    pub open spec fn package_links(&self) -> Seq<(Seq<char>, Seq<char>)> {
        optional_link(self.app is Some, SCHEMA_REL_EXTENDED@, "docProps/app.xml"@) + optional_link(
            self.core is Some,
            SCHEMA_CORE@,
            "docProps/core.xml"@,
        ) + seq![(SCHEMA_OFFICE_DOCUMENT@, "word/document.xml"@)]
    }

    /// The links that the main document needs to the single parts: to the
    /// styles, and to font table, footnotes, endnotes, settings, web
    /// settings, comments and numbering where they are there, in this
    /// order.
    pub open spec fn single_links(&self) -> Seq<(Seq<char>, Seq<char>)> {
        seq![(SCHEMA_STYLES@, "styles.xml"@)] + optional_link(
            self.font_table is Some,
            SCHEMA_FONT_TABLE@,
            "fontTable.xml"@,
        ) + optional_link(self.footnotes is Some, SCHEMA_FOOTNOTES@, "footnotes.xml"@)
            + optional_link(self.endnotes is Some, SCHEMA_ENDNOTES@, "endnotes.xml"@)
            + optional_link(self.settings is Some, SCHEMA_SETTINGS@, "settings.xml"@)
            + optional_link(self.web_settings is Some, SCHEMA_WEB_SETTINGS@, "webSettings.xml"@)
            + optional_link(self.comments is Some, SCHEMA_COMMENTS@, "comments.xml"@)
            + optional_link(self.numbering is Some, SCHEMA_NUMBERING@, "numbering.xml"@)
    }

    /// The links that the main document needs: to the single parts, then
    /// to every header, footer, theme and media file, in this order.
    pub open spec fn document_links(&self) -> Seq<(Seq<char>, Seq<char>)> {
        self.single_links() + links_to(names_of(self.headers@), SCHEMA_HEADER@) + links_to(
            names_of(self.footers@),
            SCHEMA_FOOTER@,
        ) + links_to(names_of(self.themes@), SCHEMA_THEME@) + links_to(
            names_of(self.media@),
            SCHEMA_IMAGE@,
        )
    }

    /// Lists the links that the package itself needs.
    pub fn wanted_package_links(&self) -> (wanted: Vec<(String, String)>)
        ensures
            wanted_model(wanted@) == self.package_links(),
    {
        let mut wanted: Vec<(String, String)> = Vec::new();
        assert(wanted_model(wanted@) =~= Seq::empty());
        want_optional(&mut wanted, self.app.is_some(), SCHEMA_REL_EXTENDED, "docProps/app.xml");
        want_optional(&mut wanted, self.core.is_some(), SCHEMA_CORE, "docProps/core.xml");
        want_optional(&mut wanted, true, SCHEMA_OFFICE_DOCUMENT, "word/document.xml");
        assert(wanted_model(wanted@) =~= self.package_links());
        wanted
    }

    /// Lists the links that the main document needs.
    pub fn wanted_document_links(&self) -> (wanted: Vec<(String, String)>)
        ensures
            wanted_model(wanted@) == self.document_links(),
    {
        let mut wanted: Vec<(String, String)> = Vec::new();
        assert(wanted_model(wanted@) =~= Seq::empty());
        want_optional(&mut wanted, true, SCHEMA_STYLES, "styles.xml");
        want_optional(&mut wanted, self.font_table.is_some(), SCHEMA_FONT_TABLE, "fontTable.xml");
        want_optional(&mut wanted, self.footnotes.is_some(), SCHEMA_FOOTNOTES, "footnotes.xml");
        want_optional(&mut wanted, self.endnotes.is_some(), SCHEMA_ENDNOTES, "endnotes.xml");
        want_optional(&mut wanted, self.settings.is_some(), SCHEMA_SETTINGS, "settings.xml");
        want_optional(
            &mut wanted,
            self.web_settings.is_some(),
            SCHEMA_WEB_SETTINGS,
            "webSettings.xml",
        );
        want_optional(&mut wanted, self.comments.is_some(), SCHEMA_COMMENTS, "comments.xml");
        want_optional(&mut wanted, self.numbering.is_some(), SCHEMA_NUMBERING, "numbering.xml");
        assert(wanted_model(wanted@) =~= self.single_links());
        want_each(&mut wanted, SCHEMA_HEADER, &self.headers);
        want_each(&mut wanted, SCHEMA_FOOTER, &self.footers);
        want_each(&mut wanted, SCHEMA_THEME, &self.themes);
        want_each(&mut wanted, SCHEMA_IMAGE, &self.media);
        wanted
    }

    /// The links of the main document; none where it has no relationships
    /// yet.
    pub open spec fn document_rel_links(&self) -> Seq<LinkModel> {
        match self.document_rels {
            Some(r) => r.links(),
            None => Seq::empty(),
        }
    }

    /// Registers a relationship for every part that is there, in a fixed
    /// order: for the package, the application properties, the core
    /// properties and the main document; for the main document, the styles,
    /// font table, footnotes, endnotes, settings, web settings, comments,
    /// numbering, headers, footers, themes and media. A link that is there
    /// already stays as it is; nothing but the relationships changes.
    pub fn register_relationships(&mut self)
        ensures
            final(self).rels.links() == linked_all(
                old(self).rels.links(),
                old(self).package_links(),
                old(self).package_links().len(),
            ),
            final(self).document_rels is Some,
            final(self).document_rel_links() == linked_all(
                old(self).document_rel_links(),
                old(self).document_links(),
                old(self).document_links().len(),
            ),
            old(self).rels.well_formed() ==> final(self).rels.well_formed(),
            final(self).same_content(*old(self)),
            final(self).content_types == old(self).content_types,
            forall|k: int|
                0 <= k < old(self).package_links().len() ==> is_linked(
                    final(self).rels.links(),
                    (#[trigger] old(self).package_links()[k]).0,
                    old(self).package_links()[k].1,
                ),
            forall|k: int|
                0 <= k < old(self).document_links().len() ==> is_linked(
                    final(self).document_rel_links(),
                    (#[trigger] old(self).document_links()[k]).0,
                    old(self).document_links()[k].1,
                ),
    {
        proof {
            lemma_linked_all(
                self.rels.links(),
                self.package_links(),
                self.package_links().len(),
            );
            lemma_linked_all(
                self.document_rel_links(),
                self.document_links(),
                self.document_links().len(),
            );
        }
        let package = self.wanted_package_links();
        let document = self.wanted_document_links();
        self.rels.add_all(&package);
        let mut rels = match self.document_rels.take() {
            Some(r) => r,
            None => {
                let r = Relationships { relationships: Vec::new() };
                assert(r.links() =~= Seq::empty());
                r
            },
        };
        rels.add_all(&document);
        self.document_rels = Some(rels);
    }

    /// Whether two packages hold the same parts but for the relationships
    /// of the package and of the main document and the content types.
    pub open spec fn same_content(&self, other: Docx<'a>) -> bool {
        &&& self.app == other.app
        &&& self.core == other.core
        &&& self.document == other.document
        &&& self.font_table == other.font_table
        &&& self.styles == other.styles
        &&& self.settings_rels == other.settings_rels
        &&& self.headers == other.headers
        &&& self.footers == other.footers
        &&& self.themes == other.themes
        &&& self.media == other.media
        &&& self.footnotes == other.footnotes
        &&& self.endnotes == other.endnotes
        &&& self.settings == other.settings
        &&& self.web_settings == other.web_settings
        &&& self.comments == other.comments
        &&& self.numbering == other.numbering
        &&& self.custom_xml == other.custom_xml
    }
}

/// A part that is made of text where the text is there.
pub open spec fn optional_text_part(name: Seq<char>, ty: Seq<char>, text: Option<Seq<char>>)
    -> Seq<PartModel> {
    match text {
        Some(t) => seq![PartModel { name, ty, data: encode_utf8(t) }],
        None => Seq::empty(),
    }
}

/// Adds a part to a list.
fn push_part(out: &mut Vec<PackagePart>, name: String, ty: &str, data: Vec<u8>)
    ensures
        parts_model(final(out)@) == parts_model(old(out)@) + seq![
            PartModel { name: name@, ty: ty@, data: data@ },
        ],
{
    out.push(PackagePart { name, ty: String::from_str(ty), data });
    assert(parts_model(out@) =~= parts_model(old(out)@) + seq![
        PartModel { name: name@, ty: ty@, data: data@ },
    ]);
}

/// Adds a part that is made of text to a list where the text is there.
fn push_optional_text_part(out: &mut Vec<PackagePart>, name: &str, ty: &str, text: Option<&str>)
    ensures
        parts_model(final(out)@) == parts_model(old(out)@) + optional_text_part(
            name@,
            ty@,
            match text {
                Some(t) => Some(t@),
                None => None,
            },
        ),
{
    match text {
        Some(t) => {
            push_part(out, String::from_str(name), ty, t.as_bytes_vec());
        },
        None => {
            assert(parts_model(out@) + Seq::empty() =~= parts_model(out@));
        },
    }
}

/// The text of an optional part, borrowed.
fn borrowed(text: &Option<String>) -> (r: Option<&str>)
    ensures
        match r {
            Some(t) => optional_text(*text) == Some(t@),
            None => text is None,
        },
{
    match text {
        Some(t) => Some(t.as_str()),
        None => None,
    }
}

impl<'a> Docx<'a> {
    /// The text of the relationships of the main document, where there are
    /// any.
    pub open spec fn document_rels_text(&self) -> Option<Seq<char>> {
        match self.document_rels {
            Some(r) => Some(part_text(r.tree())),
            None => None,
        }
    }

    /// The text of the relationships of the settings, where there are any.
    pub open spec fn settings_rels_text(&self) -> Option<Seq<char>> {
        match self.settings_rels {
            Some(r) => Some(part_text(r.tree())),
            None => None,
        }
    }

    /// The first parts of the package, in the order of the container: the
    /// properties, the relationships of the package, the main document, the
    /// styles and the font table.
    pub open spec fn leading_parts(&self) -> Seq<PartModel> {
        self.leading_parts_with(part_text(self.rels.tree()), part_text(self.document.tree()))
    }

    /// The first parts of the package where the relationships of the
    /// package and the main document are written as the given texts.
    pub open spec fn leading_parts_with(&self, rels: Seq<char>, document: Seq<char>) -> Seq<
        PartModel,
    > {
        optional_text_part("docProps/app.xml"@, TYPE_APP@, optional_text(self.app))
            + optional_text_part("docProps/core.xml"@, TYPE_CORE@, optional_text(self.core))
            + optional_text_part("_rels/.rels"@, TYPE_RELATIONSHIPS@, Some(rels))
            + optional_text_part("word/document.xml"@, TYPE_DOCUMENT@, Some(document))
            + optional_text_part("word/styles.xml"@, TYPE_STYLES@, Some(self.styles@))
            + optional_text_part(
            "word/fontTable.xml"@,
            TYPE_FONT_TABLE@,
            optional_text(self.font_table),
        )
    }

    /// The single parts of the main document that follow: notes, settings,
    /// comments, numbering and the relationships of the main document and
    /// of the settings.
    pub open spec fn single_parts(&self) -> Seq<PartModel> {
        self.single_parts_with(
            part_text(self.rels.tree()),
            part_text(self.document.tree()),
            self.document_rels_text(),
        )
    }

    /// The single parts of the package where the relationships of the
    /// package, the main document and its relationships are written as the
    /// given texts.
    pub open spec fn single_parts_with(
        &self,
        rels: Seq<char>,
        document: Seq<char>,
        document_rels: Option<Seq<char>>,
    ) -> Seq<PartModel> {
        self.leading_parts_with(rels, document) + optional_text_part(
            "word/footnotes.xml"@,
            TYPE_FOOTNOTES@,
            optional_text(self.footnotes),
        ) + optional_text_part("word/endnotes.xml"@, TYPE_ENDNOTES@, optional_text(self.endnotes))
            + optional_text_part("word/settings.xml"@, TYPE_SETTINGS@, optional_text(self.settings))
            + optional_text_part(
            "word/webSettings.xml"@,
            TYPE_WEB_SETTINGS@,
            optional_text(self.web_settings),
        ) + optional_text_part("word/comments.xml"@, TYPE_COMMENTS@, optional_text(self.comments))
            + optional_text_part(
            "word/numbering.xml"@,
            TYPE_NUMBERING@,
            optional_text(self.numbering),
        ) + optional_text_part(
            "word/_rels/document.xml.rels"@,
            TYPE_RELATIONSHIPS@,
            document_rels,
        ) + optional_text_part(
            "word/_rels/settings.xml.rels"@,
            TYPE_RELATIONSHIPS@,
            self.settings_rels_text(),
        )
    }

    /// The parts of the package but for the content types, in the order of
    /// the container: the single parts, then headers, footers, themes,
    /// media and custom parts.
    pub open spec fn package_parts(&self) -> Seq<PartModel> {
        self.package_parts_with(
            part_text(self.rels.tree()),
            part_text(self.document.tree()),
            self.document_rels_text(),
            parts_of(self.headers@),
            parts_of(self.footers@),
        )
    }

    /// The parts of the package but for the content types where the
    /// relationships of the package, the main document, its relationships,
    /// the headers and the footers are written as given.
    pub open spec fn package_parts_with(
        &self,
        rels: Seq<char>,
        document: Seq<char>,
        document_rels: Option<Seq<char>>,
        headers: Seq<PartModel>,
        footers: Seq<PartModel>,
    ) -> Seq<PartModel> {
        self.single_parts_with(rels, document, document_rels) + headers + footers + parts_of(
            self.themes@,
        ) + parts_of(self.media@) + parts_of(self.custom_xml@)
    }

    /// Writes the single parts of the package.
    fn collect_single_parts(&self) -> (parts: Vec<PackagePart>)
        ensures
            parts_model(parts@) == self.single_parts(),
    {
        let rels = self.rels.to_xml();
        let document = self.document.to_xml();
        let document_rels = match &self.document_rels {
            Some(r) => Some(r.to_xml()),
            None => None,
        };
        self.collect_single_parts_with(rels.as_str(), document.as_str(), borrowed(&document_rels))
    }

    /// Writes the single parts of the package where the relationships of
    /// the package, the main document and its relationships are written as
    /// the given texts.
    fn collect_single_parts_with(
        &self,
        rels: &str,
        document: &str,
        document_rels: Option<&str>,
    ) -> (parts: Vec<PackagePart>)
        ensures
            parts_model(parts@) == self.single_parts_with(
                rels@,
                document@,
                match document_rels {
                    Some(t) => Some(t@),
                    None => None,
                },
            ),
    {
        let mut parts: Vec<PackagePart> = Vec::new();
        assert(parts_model(parts@) =~= Seq::empty());
        push_optional_text_part(&mut parts, "docProps/app.xml", TYPE_APP, borrowed(&self.app));
        push_optional_text_part(&mut parts, "docProps/core.xml", TYPE_CORE, borrowed(&self.core));
        push_optional_text_part(&mut parts, "_rels/.rels", TYPE_RELATIONSHIPS, Some(rels));
        push_optional_text_part(&mut parts, "word/document.xml", TYPE_DOCUMENT, Some(document));
        push_optional_text_part(
            &mut parts,
            "word/styles.xml",
            TYPE_STYLES,
            Some(self.styles.as_str()),
        );
        push_optional_text_part(
            &mut parts,
            "word/fontTable.xml",
            TYPE_FONT_TABLE,
            borrowed(&self.font_table),
        );
        assert(parts_model(parts@) =~= self.leading_parts_with(rels@, document@));
        push_optional_text_part(
            &mut parts,
            "word/footnotes.xml",
            TYPE_FOOTNOTES,
            borrowed(&self.footnotes),
        );
        push_optional_text_part(
            &mut parts,
            "word/endnotes.xml",
            TYPE_ENDNOTES,
            borrowed(&self.endnotes),
        );
        push_optional_text_part(
            &mut parts,
            "word/settings.xml",
            TYPE_SETTINGS,
            borrowed(&self.settings),
        );
        push_optional_text_part(
            &mut parts,
            "word/webSettings.xml",
            TYPE_WEB_SETTINGS,
            borrowed(&self.web_settings),
        );
        push_optional_text_part(
            &mut parts,
            "word/comments.xml",
            TYPE_COMMENTS,
            borrowed(&self.comments),
        );
        push_optional_text_part(
            &mut parts,
            "word/numbering.xml",
            TYPE_NUMBERING,
            borrowed(&self.numbering),
        );
        push_optional_text_part(
            &mut parts,
            "word/_rels/document.xml.rels",
            TYPE_RELATIONSHIPS,
            document_rels,
        );
        let settings_rels = match &self.settings_rels {
            Some(r) => Some(r.to_xml()),
            None => None,
        };
        push_optional_text_part(
            &mut parts,
            "word/_rels/settings.xml.rels",
            TYPE_RELATIONSHIPS,
            borrowed(&settings_rels),
        );
        assert(parts_model(parts@) =~= self.single_parts_with(
            rels@,
            document@,
            match document_rels {
                Some(t) => Some(t@),
                None => None,
            },
        ));
        parts
    }

    /// Writes the parts of the package but for the content types, in the
    /// order of the container, where the relationships of the package, the
    /// main document, its relationships, the headers and the footers are
    /// written as given.
    pub fn collect_parts_with(
        &self,
        rels: &str,
        document: &str,
        document_rels: Option<&str>,
        headers: Vec<PackagePart>,
        footers: Vec<PackagePart>,
    ) -> (parts: Vec<PackagePart>)
        ensures
            parts_model(parts@) == self.package_parts_with(
                rels@,
                document@,
                match document_rels {
                    Some(t) => Some(t@),
                    None => None,
                },
                parts_model(headers@),
                parts_model(footers@),
            ),
    {
        let mut parts = self.collect_single_parts_with(rels, document, document_rels);
        let ghost singles = parts_model(parts@);
        let mut headers = headers;
        let mut footers = footers;
        let ghost header_parts = parts_model(headers@);
        let ghost footer_parts = parts_model(footers@);
        parts.append(&mut headers);
        assert(parts_model(parts@) =~= singles + header_parts);
        parts.append(&mut footers);
        assert(parts_model(parts@) =~= singles + header_parts + footer_parts);
        push_each(&mut parts, &self.themes);
        push_each(&mut parts, &self.media);
        push_each(&mut parts, &self.custom_xml);
        parts
    }

    /// Writes the parts of the package but for the content types, in the
    /// order of the container.
    pub fn collect_parts(&self) -> (parts: Vec<PackagePart>)
        ensures
            parts_model(parts@) == self.package_parts(),
    {
        let mut parts = self.collect_single_parts();
        push_each(&mut parts, &self.headers);
        push_each(&mut parts, &self.footers);
        push_each(&mut parts, &self.themes);
        push_each(&mut parts, &self.media);
        push_each(&mut parts, &self.custom_xml);
        parts
    }
}

/// Where every link that the main document needs is among its
/// relationships, there is a relationship for every header, every footer,
/// every theme and every media file.
pub proof fn lemma_links_cover_parts(docx: Docx, links: Seq<LinkModel>)
    requires
        forall|k: int|
            0 <= k < docx.document_links().len() ==> is_linked(
                links,
                (#[trigger] docx.document_links()[k]).0,
                docx.document_links()[k].1,
            ),
    ensures
        is_linked(links, SCHEMA_STYLES@, "styles.xml"@),
        forall|i: int|
            0 <= i < docx.headers@.len() ==> is_linked(
                links,
                SCHEMA_HEADER@,
                (#[trigger] docx.headers@[i]).0@,
            ),
        forall|i: int|
            0 <= i < docx.footers@.len() ==> is_linked(
                links,
                SCHEMA_FOOTER@,
                (#[trigger] docx.footers@[i]).0@,
            ),
        forall|i: int|
            0 <= i < docx.themes@.len() ==> is_linked(
                links,
                SCHEMA_THEME@,
                (#[trigger] docx.themes@[i]).0@,
            ),
        forall|i: int|
            0 <= i < docx.media@.len() ==> is_linked(
                links,
                SCHEMA_IMAGE@,
                (#[trigger] docx.media@[i]).0@,
            ),
{
    let wanted = docx.document_links();
    let singles = docx.single_links().len() as int;
    let headers = docx.headers@.len() as int;
    let footers = docx.footers@.len() as int;
    let themes = docx.themes@.len() as int;
    assert(wanted[0] == (SCHEMA_STYLES@, "styles.xml"@));
    assert forall|i: int| 0 <= i < docx.headers@.len() implies is_linked(
        links,
        SCHEMA_HEADER@,
        (#[trigger] docx.headers@[i]).0@,
    ) by {
        assert(wanted[singles + i] == (SCHEMA_HEADER@, docx.headers@[i].0@));
    }
    assert forall|i: int| 0 <= i < docx.footers@.len() implies is_linked(
        links,
        SCHEMA_FOOTER@,
        (#[trigger] docx.footers@[i]).0@,
    ) by {
        assert(wanted[singles + headers + i] == (SCHEMA_FOOTER@, docx.footers@[i].0@));
    }
    assert forall|i: int| 0 <= i < docx.themes@.len() implies is_linked(
        links,
        SCHEMA_THEME@,
        (#[trigger] docx.themes@[i]).0@,
    ) by {
        assert(wanted[singles + headers + footers + i] == (SCHEMA_THEME@, docx.themes@[i].0@));
    }
    assert forall|i: int| 0 <= i < docx.media@.len() implies is_linked(
        links,
        SCHEMA_IMAGE@,
        (#[trigger] docx.media@[i]).0@,
    ) by {
        assert(wanted[singles + headers + footers + themes + i] == (
            SCHEMA_IMAGE@,
            docx.media@[i].0@,
        ));
    }
}

/// Whether no two of the parts go by one file name.
pub open spec fn distinct_names<T: NamedPart>(parts: Seq<T>) -> bool {
    forall|i: int, j: int| 0 <= i < j < parts.len() ==> parts[i].name() != parts[j].name()
}

/// Where two parts of a list have one path, the entries that the list is
/// written as among others do not have distinct names.
pub proof fn lemma_shared_path(
    content_types: Seq<char>,
    before: Seq<PartModel>,
    list: Seq<PartModel>,
    after: Seq<PartModel>,
    i: int,
    j: int,
)
    requires
        0 <= i < j < list.len(),
        list[i].name == list[j].name,
    ensures
        !entries_distinct(package_entries(content_types, before + list + after)),
{
    let entries = package_entries(content_types, before + list + after);
    assert(entries[1 + before.len() + i].name == list[i].name);
    assert(entries[1 + before.len() + j].name == list[j].name);
}

/// The path and the content type of each part, in order.
pub open spec fn typed_parts(parts: Seq<PartModel>) -> Seq<(Seq<char>, Seq<char>)> {
    Seq::new(parts.len(), |i: int| (parts[i].name, parts[i].ty))
}

impl ContentTypes {
    /// Whether these are the content types `before` after the given parts
    /// were registered: with defaults for relationship parts and for plain
    /// XML where there were none, and with an override for each part that
    /// no override named, in the order of the parts.
    pub open spec fn is_registered_from(&self, before: ContentTypes, parts: Seq<PartModel>) -> bool {
        &&& defaults_model(self.defaults@) == with_default(
            with_default(defaults_model(before.defaults@), "rels"@, TYPE_RELATIONSHIPS@),
            "xml"@,
            TYPE_XML@,
        )
        &&& overrides_model(self.overrides@) == with_overrides(
            overrides_model(before.overrides@),
            typed_parts(parts),
            parts.len(),
        )
    }
}

/// The entries that the parts of a package are written as, after the entry
/// of the content types: each deflated, with the fixed permissions.
pub open spec fn package_entries(content_types: Seq<char>, parts: Seq<PartModel>) -> Seq<
    EntryModel,
> {
    seq![entry_of("[Content_Types].xml"@, encode_utf8(content_types))] + Seq::new(
        parts.len(),
        |i: int| entry_of(parts[i].name, parts[i].data),
    )
}

impl<'a> Docx<'a> {
    /// Whether every part of the package has a content type.
    pub open spec fn all_parts_typed(&self) -> bool {
        forall|i: int|
            0 <= i < self.package_parts().len() ==> self.content_types.resolve(
                (#[trigger] self.package_parts()[i]).name,
            ) is Some
    }

    /// Gives every one of the given parts a content type: a part that an
    /// override names keeps its type, any other gets an override with the
    /// type it comes with. Relationship parts and plain XML get defaults by
    /// extension where there are none. Nothing but the content types
    /// changes, and what resolved before still resolves.
    pub fn register_content_types(&mut self, parts: &Vec<PackagePart>)
        ensures
            forall|i: int|
                0 <= i < parts@.len() ==> final(self).content_types.resolve(
                    (#[trigger] parts@[i]).name@,
                ) is Some,
            forall|p: Seq<char>|
                old(self).content_types.resolve(p) is Some ==> #[trigger] final(self).content_types.resolve(
                    p,
                ) is Some,
            old(self).content_types.well_formed() ==> final(self).content_types.well_formed(),
            final(self).content_types.is_registered_from(
                old(self).content_types,
                parts_model(parts@),
            ),
            final(self).same_content(*old(self)),
            final(self).rels == old(self).rels,
            final(self).document_rels == old(self).document_rels,
    {
        self.content_types.register(parts);
    }
}

impl ContentTypes {
    /// Gives every one of the given parts a content type: a part that an
    /// override names keeps its type, any other gets an override with the
    /// type it comes with. Relationship parts and plain XML get defaults by
    /// extension where there are none. What resolved before still resolves.
    pub fn register(&mut self, parts: &Vec<PackagePart>)
        ensures
            forall|i: int|
                0 <= i < parts@.len() ==> final(self).resolve((#[trigger] parts@[i]).name@) is Some,
            forall|p: Seq<char>|
                old(self).resolve(p) is Some ==> #[trigger] final(self).resolve(p) is Some,
            old(self).well_formed() ==> final(self).well_formed(),
            final(self).is_registered_from(*old(self), parts_model(parts@)),
    {
        let mut typed: Vec<(String, String)> = Vec::new();
        let mut i: usize = 0;
        while i < parts.len()
            invariant
                i <= parts@.len(),
                typed@.len() == i,
                forall|k: int| 0 <= k < i ==> (#[trigger] typed@[k]).0@ == parts@[k].name@,
                forall|k: int| 0 <= k < i ==> (#[trigger] typed@[k]).1@ == parts@[k].ty@,
            decreases parts@.len() - i,
        {
            typed.push((parts[i].name.clone(), parts[i].ty.clone()));
            i = i + 1;
        }
        assert(wanted_model(typed@) =~= typed_parts(parts_model(parts@)));
        self.ensure_default("rels", TYPE_RELATIONSHIPS);
        self.ensure_default("xml", TYPE_XML);
        self.ensure_overrides(&typed);
        proof {
            assert forall|i: int| 0 <= i < parts@.len() implies self.resolve(
                (#[trigger] parts@[i]).name@,
            ) is Some by {
                assert(typed@[i].0@ == parts@[i].name@);
            }
        }
    }
}

/// Lists the entries that the content types and the parts of a package are
/// written as: the content types, then the parts in their order.
pub fn entries_of(content_types: &str, parts: &Vec<PackagePart>) -> (entries: Vec<Part>)
    ensures
        part_entries(entries@) == package_entries(content_types@, parts_model(parts@)),
{
    let mut entries: Vec<Part> = Vec::new();
    entries.push(
        Part { name: String::from_str("[Content_Types].xml"), data: content_types.as_bytes_vec() },
    );
    let ghost model = parts_model(parts@);
    let ghost wanted = package_entries(content_types@, model);
    let mut i: usize = 0;
    assert(part_entries(entries@) =~= wanted.take(1));
    while i < parts.len()
        invariant
            i <= parts@.len(),
            model == parts_model(parts@),
            wanted == package_entries(content_types@, model),
            part_entries(entries@) == wanted.take(i + 1),
        decreases parts@.len() - i,
    {
        let ghost before = entries@;
        entries.push(Part { name: parts[i].name.clone(), data: parts[i].data.clone() });
        proof {
            assert(model[i as int].name == parts@[i as int].name@);
            assert(model[i as int].data == parts@[i as int].data@);
            let rest = Seq::new(model.len(), |k: int| entry_of(model[k].name, model[k].data));
            assert(wanted[i + 1] == rest[i as int]);
            assert(part_entries(entries@) =~= part_entries(before).push(
                crate::container::part_entry(entries@.last()),
            ));
            assert(wanted.take(i + 2) =~= wanted.take(i + 1).push(wanted[i + 1]));
        }
        i = i + 1;
    }
    assert(wanted.take(parts@.len() as int + 1) =~= wanted);
    entries
}

impl<'a> Docx<'a> {

    /// The entries that the package is written as: the content types, then
    /// the parts in their order.
    pub open spec fn entries_model(&self) -> Seq<EntryModel> {
        package_entries(part_text(self.content_types.tree()), self.package_parts())
    }

    /// Whether no two parts of the package are written under one path.
    /// Headers, footers, themes, media and custom parts are kept in lists,
    /// which do not rule out that two of them go by one name; a container
    /// holds one entry under a path at most.
    pub open spec fn has_distinct_paths(&self) -> bool {
        entries_distinct(self.entries_model())
    }

    /// Whether no two headers go by one file name, and no two footers, no
    /// two themes, no two media and no two custom parts either.
    pub open spec fn has_distinct_names(&self) -> bool {
        &&& distinct_names(self.headers@)
        &&& distinct_names(self.footers@)
        &&& distinct_names(self.themes@)
        &&& distinct_names(self.media@)
        &&& distinct_names(self.custom_xml@)
    }

    /// Where two headers go by one file name, or two footers, themes,
    /// media or custom parts, two parts of the package are written under
    /// one path, so that the package cannot be written.
    pub proof fn lemma_shared_name_shares_path(self)
        requires
            !self.has_distinct_names(),
        ensures
            !self.has_distinct_paths(),
    {
        let text = part_text(self.content_types.tree());
        let singles = self.single_parts();
        let headers = parts_of(self.headers@);
        let footers = parts_of(self.footers@);
        let themes = parts_of(self.themes@);
        let media = parts_of(self.media@);
        let custom = parts_of(self.custom_xml@);
        let parts = self.package_parts();
        if !distinct_names(self.headers@) {
            let (i, j) = choose|i: int, j: int|
                0 <= i < j < self.headers@.len() && self.headers@[i].name()
                    == self.headers@[j].name();
            assert(parts =~= singles + headers + (footers + themes + media + custom));
            lemma_shared_path(text, singles, headers, footers + themes + media + custom, i, j);
        } else if !distinct_names(self.footers@) {
            let (i, j) = choose|i: int, j: int|
                0 <= i < j < self.footers@.len() && self.footers@[i].name()
                    == self.footers@[j].name();
            assert(parts =~= (singles + headers) + footers + (themes + media + custom));
            lemma_shared_path(text, singles + headers, footers, themes + media + custom, i, j);
        } else if !distinct_names(self.themes@) {
            let (i, j) = choose|i: int, j: int|
                0 <= i < j < self.themes@.len() && self.themes@[i].name() == self.themes@[j].name();
            assert(parts =~= (singles + headers + footers) + themes + (media + custom));
            lemma_shared_path(text, singles + headers + footers, themes, media + custom, i, j);
        } else if !distinct_names(self.media@) {
            let (i, j) = choose|i: int, j: int|
                0 <= i < j < self.media@.len() && self.media@[i].name() == self.media@[j].name();
            assert(parts =~= (singles + headers + footers + themes) + media + custom);
            lemma_shared_path(text, singles + headers + footers + themes, media, custom, i, j);
        } else {
            let (i, j) = choose|i: int, j: int|
                0 <= i < j < self.custom_xml@.len() && self.custom_xml@[i].name()
                    == self.custom_xml@[j].name();
            assert(parts =~= (singles + headers + footers + themes + media) + custom
                + Seq::<PartModel>::empty());
            lemma_shared_path(
                text,
                singles + headers + footers + themes + media,
                custom,
                Seq::empty(),
                i,
                j,
            );
        }
    }

    /// Whether this package is `before` after every part that is there got
    /// its relationship and its content type: the relationships and the
    /// content types hold what they held and what was missing, and nothing
    /// else changed.
    pub open spec fn is_registered_from(&self, before: Docx<'a>) -> bool {
        &&& self.rels.links() == linked_all(
            before.rels.links(),
            before.package_links(),
            before.package_links().len(),
        )
        &&& self.document_rels is Some
        &&& self.document_rel_links() == linked_all(
            before.document_rel_links(),
            before.document_links(),
            before.document_links().len(),
        )
        &&& self.content_types.is_registered_from(before.content_types, self.package_parts())
        &&& self.same_content(before)
    }

    /// Lists the entries that the package is written as, without changing
    /// it: the content types, then the parts in their order.
    pub fn entries(&self) -> (entries: Vec<Part>)
        ensures
            part_entries(entries@) == self.entries_model(),
    {
        let parts = self.collect_parts();
        let content_types = self.content_types.to_xml();
        entries_of(content_types.as_str(), &parts)
    }

    /// Gives every part that is there its relationship and its content
    /// type, and lists the entries that the package is then written as.
    /// Only the relationships and the content types of the package change.
    pub fn prepare(&mut self) -> (entries: Vec<Part>)
        ensures
            final(self).is_registered_from(*old(self)),
            part_entries(entries@) == final(self).entries_model(),
            final(self).entries_model() == old(self).saved_entries(false),
            forall|k: int|
                0 <= k < old(self).document_links().len() ==> is_linked(
                    final(self).document_rel_links(),
                    (#[trigger] old(self).document_links()[k]).0,
                    old(self).document_links()[k].1,
                ),
            final(self).all_parts_typed(),
            old(self).content_types.well_formed() ==> final(self).content_types.well_formed(),
    {
        self.register_relationships();
        let parts = self.collect_parts();
        let ghost registered = *self;
        self.register_content_types(&parts);
        proof {
            assert(self.package_parts() == registered.package_parts()) by {
                assert(self.single_parts() == registered.single_parts()) by {
                    assert(self.leading_parts() == registered.leading_parts());
                }
            }
            assert forall|i: int| 0 <= i < self.package_parts().len() implies self.content_types.resolve(
                (#[trigger] self.package_parts()[i]).name,
            ) is Some by {
                assert(parts_model(parts@)[i].name == parts@[i].name@);
            }
        }
        proof {
            self.lemma_written_as_saved(*old(self));
        }
        self.entries()
    }

    /// Writes the package into a container. Every part that is there gets
    /// its relationship and its content type, then the content types and
    /// the parts are packed in their order. The result is the archive of
    /// exactly these entries where there is one. Where two parts have one
    /// path, nothing is packed and the error says so; where the entries
    /// cannot be packed, it is an error too. Only the relationships and the
    /// content types of the package change, and the entries are those that
    /// the package is saved as with its drawings left alone.
    pub fn write(&mut self) -> (r: Result<Vec<u8>, DocxError>)
        ensures
            match packed(final(self).entries_model()) {
                Some(archive) => r matches Ok(bytes) && bytes@ == archive,
                None => r matches Err(e) && (e is Zip || e is IO),
            },
            final(self).entries_model() == old(self).saved_entries(false),
            !final(self).has_distinct_paths() ==> (r matches Err(e) && e is Zip),
            final(self).is_registered_from(*old(self)),
            forall|k: int|
                0 <= k < old(self).document_links().len() ==> is_linked(
                    final(self).document_rel_links(),
                    (#[trigger] old(self).document_links()[k]).0,
                    old(self).document_links()[k].1,
                ),
            final(self).all_parts_typed(),
            old(self).content_types.well_formed() ==> final(self).content_types.well_formed(),
    {
        let entries = self.prepare();
        pack(&entries)
    }
}

} // verus!
