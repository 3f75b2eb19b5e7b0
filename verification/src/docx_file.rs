//! A package as it comes out of a container: the text of every part that
//! is known by its name, and the files of every kind that comes in
//! numbers.
//!
//! The content types, the relationships of the package and the main
//! document must be there. Every other part may be missing. Headers,
//! footers, themes and media are known by the beginning of their path,
//! custom parts by `custom` in theirs.

use vstd::prelude::*;
use vstd::string::StringExecFns;
use vstd::utf8::{decode_utf8, valid_utf8};
use crate::codec::optional_text;
use crate::container::{archive_listing, decoded_names, entry_values, unpack, unpacked, Entry};
use crate::error::DocxError;
use crate::lexical::str_eq;
use crate::substitute::{begins_with, contains, includes, starts_with};

verus! {

/// An entry as plain values: the name and, where the entry could be read,
/// the bytes.
pub type EntryValue = (Seq<char>, Option<Seq<u8>>);

/// What looking for a part of a given name finds.
pub enum Lookup {
    /// There is no entry of that name.
    Absent,
    /// There is an entry, but it could not be read.
    Unreadable,
    /// There is an entry, but its bytes are no text.
    NotText,
    /// The text of the entry.
    Text(Seq<char>),
}

/// The data of the first entry of the given name among the first `count`
/// entries.
pub open spec fn first_named(entries: Seq<EntryValue>, name: Seq<char>, count: nat) -> Option<
    Option<Seq<u8>>,
>
    decreases count,
{
    if count == 0 || count > entries.len() {
        None
    } else {
        match first_named(entries, name, (count - 1) as nat) {
            Some(data) => Some(data),
            None => if entries[count - 1].0 == name {
                Some(entries[count - 1].1)
            } else {
                None
            },
        }
    }
}

/// What the data of an entry is as text.
pub open spec fn as_text(data: Option<Seq<u8>>) -> Lookup {
    match data {
        None => Lookup::Unreadable,
        Some(bytes) => if valid_utf8(bytes) {
            Lookup::Text(decode_utf8(bytes))
        } else {
            Lookup::NotText
        },
    }
}

/// What looking for the text of the part of the given name finds: that of
/// the first entry of that name.
pub open spec fn lookup(entries: Seq<EntryValue>, name: Seq<char>) -> Lookup {
    match first_named(entries, name, entries.len()) {
        None => Lookup::Absent,
        Some(data) => as_text(data),
    }
}

/// The text that a lookup found, if it found one.
pub open spec fn found(look: Lookup) -> Option<Seq<char>> {
    match look {
        Lookup::Text(t) => Some(t),
        _ => None,
    }
}

/// Once an entry is found among the first entries, it is the one found
/// among more of them.
pub proof fn lemma_first_named_found(
    entries: Seq<EntryValue>,
    name: Seq<char>,
    count: nat,
    more: nat,
)
    requires
        count <= more <= entries.len(),
        first_named(entries, name, count) is Some,
    ensures
        first_named(entries, name, more) == first_named(entries, name, count),
    decreases more,
{
    if more > count {
        lemma_first_named_found(entries, name, count, (more - 1) as nat);
    }
}

/// Reads bytes as text.
fn text_of_bytes(data: &Option<Vec<u8>>) -> (r: Result<String, DocxError>)
    ensures
        match as_text(
            match data {
                Some(d) => Some(d@),
                None => None,
            },
        ) {
            Lookup::Text(t) => r matches Ok(s) && s@ == t,
            Lookup::Unreadable => r matches Err(e) && e is Zip,
            Lookup::NotText => r matches Err(e) && e is IO,
            Lookup::Absent => false,
        },
{
    match data {
        None => Err(DocxError::Zip(String::from_str("an entry cannot be read"))),
        Some(bytes) => match String::from_utf8(bytes.clone()) {
            Ok(text) => Ok(text),
            Err(_) => Err(DocxError::IO(String::from_str("an entry is no UTF-8 text"))),
        },
    }
}

/// Looks for the text of the part of the given name. A missing part is no
/// error; an entry that cannot be read or is no text is one.
pub fn load_text(entries: &Vec<Entry>, name: &str) -> (r: Result<Option<String>, DocxError>)
    ensures
        match lookup(entry_values(entries@), name@) {
            Lookup::Absent => r matches Ok(None),
            Lookup::Text(t) => r matches Ok(Some(s)) && s@ == t,
            Lookup::Unreadable => r matches Err(e) && e is Zip,
            Lookup::NotText => r matches Err(e) && e is IO,
        },
{
    let ghost values = entry_values(entries@);
    let mut i: usize = 0;
    while i < entries.len()
        invariant
            i <= entries@.len(),
            values == entry_values(entries@),
            first_named(values, name@, i as nat) is None,
        decreases entries@.len() - i,
    {
        let entry = &entries[i];
        assert(values[i as int] == (entry.name@, crate::container::entry_data(*entry)));
        if str_eq(entry.name.as_str(), name) {
            proof {
                lemma_first_named_found(values, name@, (i + 1) as nat, values.len());
            }
            return match text_of_bytes(&entry.data) {
                Ok(text) => Ok(Some(text)),
                Err(e) => Err(e),
            };
        }
        i = i + 1;
    }
    Ok(None)
}

/// Looks for the text of a part that must be there. A missing part is an
/// error of the container.
pub fn load_required_text(entries: &Vec<Entry>, name: &str) -> (r: Result<String, DocxError>)
    ensures
        match lookup(entry_values(entries@), name@) {
            Lookup::Absent => r matches Err(e) && e is Zip,
            Lookup::Text(t) => r matches Ok(s) && s@ == t,
            Lookup::Unreadable => r matches Err(e) && e is Zip,
            Lookup::NotText => r matches Err(e) && e is IO,
        },
{
    match load_text(entries, name) {
        Ok(Some(text)) => Ok(text),
        Ok(None) => Err(DocxError::Zip(String::from_str(name).concat(": not found in the container"))),
        Err(e) => Err(e),
    }
}

/// The kinds of entry that a package is made of.
#[derive(Debug, Clone, Copy, PartialEq, Eq, Structural)]
pub enum PartKind {
    /// A part that is known by its exact name.
    Single,
    /// A header.
    Header,
    /// A footer.
    Footer,
    /// A theme.
    Theme,
    /// A media file.
    Media,
    /// A custom part.
    Custom,
    /// Anything else; it is not taken along.
    Unknown,
}

/// Whether a name is that of a part that is known by its exact name.
pub open spec fn is_single_name(name: Seq<char>) -> bool {
    ||| name == "docProps/app.xml"@
    ||| name == "[Content_Types].xml"@
    ||| name == "docProps/core.xml"@
    ||| name == "word/_rels/document.xml.rels"@
    ||| name == "word/_rels/settings.xml.rels"@
    ||| name == "word/document.xml"@
    ||| name == "word/fontTable.xml"@
    ||| name == "_rels/.rels"@
    ||| name == "word/styles.xml"@
    ||| name == "word/settings.xml"@
    ||| name == "word/webSettings.xml"@
    ||| name == "word/footnotes.xml"@
    ||| name == "word/endnotes.xml"@
    ||| name == "word/comments.xml"@
    ||| name == "word/numbering.xml"@
}

/// The kind of the entry of a given name: a single part by its exact
/// name; else a header, footer, theme or media file by the beginning of
/// its path; else a custom part where `custom` stands in its name.
pub open spec fn part_kind(name: Seq<char>) -> PartKind {
    if is_single_name(name) {
        PartKind::Single
    } else if begins_with(name, "word/header"@) {
        PartKind::Header
    } else if begins_with(name, "word/footer"@) {
        PartKind::Footer
    } else if begins_with(name, "word/theme/theme"@) {
        PartKind::Theme
    } else if begins_with(name, "word/media"@) {
        PartKind::Media
    } else if includes(name, "custom"@) {
        PartKind::Custom
    } else {
        PartKind::Unknown
    }
}

/// Tells the kind of an entry from its name.
pub fn classify(name: &str) -> (kind: PartKind)
    ensures
        kind == part_kind(name@),
{
    if str_eq(name, "docProps/app.xml") || str_eq(name, "[Content_Types].xml") || str_eq(
        name,
        "docProps/core.xml",
    ) || str_eq(name, "word/_rels/document.xml.rels") || str_eq(
        name,
        "word/_rels/settings.xml.rels",
    ) || str_eq(name, "word/document.xml") || str_eq(name, "word/fontTable.xml") || str_eq(
        name,
        "_rels/.rels",
    ) || str_eq(name, "word/styles.xml") || str_eq(name, "word/settings.xml") || str_eq(
        name,
        "word/webSettings.xml",
    ) || str_eq(name, "word/footnotes.xml") || str_eq(name, "word/endnotes.xml") || str_eq(
        name,
        "word/comments.xml",
    ) || str_eq(name, "word/numbering.xml") {
        PartKind::Single
    } else if starts_with(name, "word/header") {
        PartKind::Header
    } else if starts_with(name, "word/footer") {
        PartKind::Footer
    } else if starts_with(name, "word/theme/theme") {
        PartKind::Theme
    } else if starts_with(name, "word/media") {
        PartKind::Media
    } else if contains(name, "custom") {
        PartKind::Custom
    } else {
        PartKind::Unknown
    }
}

/// The entries of a kind among the first `count` entries whose bytes are
/// text, each with its name, in order. An entry that cannot be read or is
/// no text is passed over.
pub open spec fn texts_of_kind(entries: Seq<EntryValue>, kind: PartKind, count: nat) -> Seq<
    (Seq<char>, Seq<char>),
>
    decreases count,
{
    if count == 0 || count > entries.len() {
        Seq::empty()
    } else {
        let before = texts_of_kind(entries, kind, (count - 1) as nat);
        if part_kind(entries[count - 1].0) == kind {
            match as_text(entries[count - 1].1) {
                Lookup::Text(t) => before.push((entries[count - 1].0, t)),
                _ => before,
            }
        } else {
            before
        }
    }
}

/// The entries of a kind among the first `count` entries that could be
/// read, each with its name, in order.
pub open spec fn files_of_kind(entries: Seq<EntryValue>, kind: PartKind, count: nat) -> Seq<
    (Seq<char>, Seq<u8>),
>
    decreases count,
{
    if count == 0 || count > entries.len() {
        Seq::empty()
    } else {
        let before = files_of_kind(entries, kind, (count - 1) as nat);
        if part_kind(entries[count - 1].0) == kind {
            match entries[count - 1].1 {
                Some(bytes) => before.push((entries[count - 1].0, bytes)),
                None => before,
            }
        } else {
            before
        }
    }
}

/// Names with texts as pairs of character sequences.
pub open spec fn named_texts(pairs: Seq<(String, String)>) -> Seq<(Seq<char>, Seq<char>)> {
    Seq::new(pairs.len(), |i: int| (pairs[i].0@, pairs[i].1@))
}

/// Names with bytes as plain values.
pub open spec fn named_files(pairs: Seq<(String, Vec<u8>)>) -> Seq<(Seq<char>, Seq<u8>)> {
    Seq::new(pairs.len(), |i: int| (pairs[i].0@, pairs[i].1@))
}

/// Collects the entries of a kind whose bytes are text.
pub fn collect_texts(entries: &Vec<Entry>, kind: PartKind) -> (texts: Vec<(String, String)>)
    ensures
        named_texts(texts@) == texts_of_kind(entry_values(entries@), kind, entries@.len()),
{
    let ghost values = entry_values(entries@);
    let mut texts: Vec<(String, String)> = Vec::new();
    assert(named_texts(texts@) =~= Seq::empty());
    let mut i: usize = 0;
    while i < entries.len()
        invariant
            i <= entries@.len(),
            values == entry_values(entries@),
            named_texts(texts@) == texts_of_kind(values, kind, i as nat),
        decreases entries@.len() - i,
    {
        let entry = &entries[i];
        assert(values[i as int] == (entry.name@, crate::container::entry_data(*entry)));
        if classify(entry.name.as_str()) == kind {
            match text_of_bytes(&entry.data) {
                Ok(text) => {
                    let ghost before = named_texts(texts@);
                    texts.push((entry.name.clone(), text));
                    assert(named_texts(texts@) =~= before.push((entry.name@, text@)));
                },
                Err(_) => {},
            }
        }
        i = i + 1;
    }
    texts
}

/// Collects the entries of a kind that could be read.
pub fn collect_files(entries: &Vec<Entry>, kind: PartKind) -> (files: Vec<(String, Vec<u8>)>)
    ensures
        named_files(files@) == files_of_kind(entry_values(entries@), kind, entries@.len()),
{
    let ghost values = entry_values(entries@);
    let mut files: Vec<(String, Vec<u8>)> = Vec::new();
    assert(named_files(files@) =~= Seq::empty());
    let mut i: usize = 0;
    while i < entries.len()
        invariant
            i <= entries@.len(),
            values == entry_values(entries@),
            named_files(files@) == files_of_kind(values, kind, i as nat),
        decreases entries@.len() - i,
    {
        let entry = &entries[i];
        assert(values[i as int] == (entry.name@, crate::container::entry_data(*entry)));
        if classify(entry.name.as_str()) == kind {
            match &entry.data {
                Some(bytes) => {
                    let ghost before = named_files(files@);
                    files.push((entry.name.clone(), bytes.clone()));
                    assert(named_files(files@) =~= before.push((entry.name@, bytes@)));
                },
                None => {},
            }
        }
        i = i + 1;
    }
    files
}

/// A package as it comes out of a container.
#[derive(Debug, Clone, Default)]
pub struct DocxFile {
    pub app: Option<String>,
    pub content_types: String,
    pub core: Option<String>,
    pub document: String,
    pub document_rels: Option<String>,
    pub settings_rels: Option<String>,
    pub font_table: Option<String>,
    pub rels: String,
    pub styles: Option<String>,
    pub settings: Option<String>,
    pub web_settings: Option<String>,
    pub headers: Vec<(String, String)>,
    pub footers: Vec<(String, String)>,
    pub themes: Vec<(String, String)>,
    pub medias: Vec<(String, Vec<u8>)>,
    pub footnotes: Option<String>,
    pub endnotes: Option<String>,
    pub comments: Option<String>,
    pub numbering: Option<String>,
    pub custom_xml: Vec<(String, Vec<u8>)>,
}

/// Whether a part that may be missing is missing or text.
pub open spec fn optional_ok(look: Lookup) -> bool {
    look is Absent || look is Text
}

impl DocxFile {
    /// Whether the entries make a package: the content types, the
    /// relationships of the package and the main document are there as
    /// text, and every other single part is missing or text.
    pub open spec fn loadable(entries: Seq<EntryValue>) -> bool {
        &&& optional_ok(lookup(entries, "docProps/app.xml"@))
        &&& lookup(entries, "[Content_Types].xml"@) is Text
        &&& optional_ok(lookup(entries, "docProps/core.xml"@))
        &&& optional_ok(lookup(entries, "word/_rels/document.xml.rels"@))
        &&& optional_ok(lookup(entries, "word/_rels/settings.xml.rels"@))
        &&& lookup(entries, "word/document.xml"@) is Text
        &&& optional_ok(lookup(entries, "word/fontTable.xml"@))
        &&& lookup(entries, "_rels/.rels"@) is Text
        &&& optional_ok(lookup(entries, "word/styles.xml"@))
        &&& optional_ok(lookup(entries, "word/settings.xml"@))
        &&& optional_ok(lookup(entries, "word/webSettings.xml"@))
        &&& optional_ok(lookup(entries, "word/footnotes.xml"@))
        &&& optional_ok(lookup(entries, "word/endnotes.xml"@))
        &&& optional_ok(lookup(entries, "word/comments.xml"@))
        &&& optional_ok(lookup(entries, "word/numbering.xml"@))
    }

    /// Whether the single parts of this package are the texts that the
    /// entries hold under their names.
    pub open spec fn holds_singles(&self, entries: Seq<EntryValue>) -> bool {
        &&& optional_text(self.app) == found(lookup(entries, "docProps/app.xml"@))
        &&& Some(self.content_types@) == found(lookup(entries, "[Content_Types].xml"@))
        &&& optional_text(self.core) == found(lookup(entries, "docProps/core.xml"@))
        &&& optional_text(self.document_rels) == found(
            lookup(entries, "word/_rels/document.xml.rels"@),
        )
        &&& optional_text(self.settings_rels) == found(
            lookup(entries, "word/_rels/settings.xml.rels"@),
        )
        &&& Some(self.document@) == found(lookup(entries, "word/document.xml"@))
        &&& optional_text(self.font_table) == found(lookup(entries, "word/fontTable.xml"@))
        &&& Some(self.rels@) == found(lookup(entries, "_rels/.rels"@))
        &&& optional_text(self.styles) == found(lookup(entries, "word/styles.xml"@))
        &&& optional_text(self.settings) == found(lookup(entries, "word/settings.xml"@))
        &&& optional_text(self.web_settings) == found(lookup(entries, "word/webSettings.xml"@))
        &&& optional_text(self.footnotes) == found(lookup(entries, "word/footnotes.xml"@))
        &&& optional_text(self.endnotes) == found(lookup(entries, "word/endnotes.xml"@))
        &&& optional_text(self.comments) == found(lookup(entries, "word/comments.xml"@))
        &&& optional_text(self.numbering) == found(lookup(entries, "word/numbering.xml"@))
    }

    /// Whether this package is what the entries hold: the single parts
    /// under their names, and the headers, footers, themes, media and
    /// custom parts in the order of the entries.
    pub open spec fn holds(&self, entries: Seq<EntryValue>) -> bool {
        &&& self.holds_singles(entries)
        &&& named_texts(self.headers@) == texts_of_kind(entries, PartKind::Header, entries.len())
        &&& named_texts(self.footers@) == texts_of_kind(entries, PartKind::Footer, entries.len())
        &&& named_texts(self.themes@) == texts_of_kind(entries, PartKind::Theme, entries.len())
        &&& named_files(self.medias@) == files_of_kind(entries, PartKind::Media, entries.len())
        &&& named_files(self.custom_xml@) == files_of_kind(
            entries,
            PartKind::Custom,
            entries.len(),
        )
    }

    /// Makes a package of the entries of a container. Fails where a part
    /// that must be there is missing, or where a single part cannot be read
    /// or is no text; headers, footers, themes, media and custom parts that
    /// cannot be read are passed over.
    pub fn from_entries(entries: &Vec<Entry>) -> (r: Result<DocxFile, DocxError>)
        ensures
            r is Ok <==> DocxFile::loadable(entry_values(entries@)),
            r matches Ok(file) ==> file.holds(entry_values(entries@)),
            r matches Err(e) ==> e is Zip || e is IO,
    {
        let app = load_text(entries, "docProps/app.xml")?;
        let content_types = load_required_text(entries, "[Content_Types].xml")?;
        let core = load_text(entries, "docProps/core.xml")?;
        let document_rels = load_text(entries, "word/_rels/document.xml.rels")?;
        let settings_rels = load_text(entries, "word/_rels/settings.xml.rels")?;
        let document = load_required_text(entries, "word/document.xml")?;
        let font_table = load_text(entries, "word/fontTable.xml")?;
        let rels = load_required_text(entries, "_rels/.rels")?;
        let styles = load_text(entries, "word/styles.xml")?;
        let settings = load_text(entries, "word/settings.xml")?;
        let web_settings = load_text(entries, "word/webSettings.xml")?;
        let footnotes = load_text(entries, "word/footnotes.xml")?;
        let endnotes = load_text(entries, "word/endnotes.xml")?;
        let comments = load_text(entries, "word/comments.xml")?;
        let numbering = load_text(entries, "word/numbering.xml")?;
        let headers = collect_texts(entries, PartKind::Header);
        let footers = collect_texts(entries, PartKind::Footer);
        let themes = collect_texts(entries, PartKind::Theme);
        let medias = collect_files(entries, PartKind::Media);
        let custom_xml = collect_files(entries, PartKind::Custom);
        Ok(
            DocxFile {
                app,
                content_types,
                core,
                document,
                document_rels,
                settings_rels,
                font_table,
                rels,
                styles,
                settings,
                web_settings,
                headers,
                footers,
                themes,
                medias,
                footnotes,
                endnotes,
                comments,
                numbering,
                custom_xml,
            },
        )
    }

    /// The entries that a container holds, as plain values; nothing where
    /// the bytes are no container.
    pub open spec fn contents(bytes: Seq<u8>) -> Option<Seq<EntryValue>> {
        match archive_listing(bytes) {
            Some(listing) => Some(unpacked(bytes, decoded_names(listing, listing.len()))),
            None => None,
        }
    }

    /// Reads a package out of the bytes of a container.
    pub fn from_reader(bytes: Vec<u8>) -> (r: Result<DocxFile, DocxError>)
        ensures
            r is Ok <==> (DocxFile::contents(bytes@) matches Some(entries) && DocxFile::loadable(
                entries,
            )),
            r matches Ok(file) ==> (DocxFile::contents(bytes@) matches Some(entries) && file.holds(
                entries,
            )),
            r matches Err(e) ==> e is Zip || e is IO,
    {
        match unpack(bytes) {
            Ok(entries) => DocxFile::from_entries(&entries),
            Err(e) => Err(e),
        }
    }
}

} // verus!
