//! Reading a package that came out of a container: the main document, the
//! headers and footers, the content types and the relationships are read
//! from their text; every other part is carried as text or bytes.

use vstd::prelude::*;
use vstd::string::StringExecFns;
use crate::codec::{optional_text, text_attribute, XmlCodec};
use crate::content_type::ContentTypes;
use crate::document::{Document, Footer, Header};
use crate::docx::{Docx, DEFAULT_STYLES};
use crate::docx_file::{named_files, named_texts, DocxFile};
use crate::error::DocxError;
use crate::media::{get_media_type, media_type, MediaType};
use crate::part::{read_from_text, read_part, text_readable};
use crate::rels::Relationships;
use crate::lexical::chars_of;
use crate::substitute::{begins_with, starts_with};

verus! {

/// The file name that a part of the main document goes by: its path
/// without the `word/` that it begins with. A path that does not begin
/// with it is the file name itself.
pub open spec fn file_name(path: Seq<char>) -> Seq<char> {
    if begins_with(path, "word/"@) {
        path.skip(5)
    } else {
        path
    }
}

/// The file name that a part of the main document goes by.
pub fn file_name_of(path: &str) -> (name: String)
    ensures
        name@ == file_name(path@),
{
    proof {
        reveal_strlit("word/");
    }
    if !starts_with(path, "word/") {
        return String::from_str(path);
    }
    let chars = chars_of(path);
    let mut name = String::new();
    let mut i: usize = 5;
    assert(chars@.subrange(5, 5) =~= Seq::<char>::empty());
    while i < chars.len()
        invariant
            5 <= i <= chars@.len(),
            name@ == chars@.subrange(5, i as int),
        decreases chars@.len() - i,
    {
        name.push(chars[i]);
        assert(chars@.subrange(5, i + 1) =~= chars@.subrange(5, i as int).push(chars@[i as int]));
        i = i + 1;
    }
    assert(chars@.subrange(5, chars@.len() as int) =~= chars@.skip(5));
    name
}

/// The media among the first `count` files: those whose name is that of a
/// medium, each with its file name, its kind and its bytes, in order.
pub open spec fn media_among(files: Seq<(String, Vec<u8>)>, count: nat) -> Seq<
    (Seq<char>, MediaType, Seq<u8>),
>
    decreases count,
{
    if count == 0 || count > files.len() {
        Seq::empty()
    } else {
        let before = media_among(files, (count - 1) as nat);
        match media_type(files[count - 1].0@) {
            Some(kind) => before.push((file_name(files[count - 1].0@), kind, files[count - 1].1@)),
            None => before,
        }
    }
}

/// Media as plain values: file name, kind and bytes.
pub open spec fn media_model(media: Seq<(String, MediaType, &Vec<u8>)>) -> Seq<
    (Seq<char>, MediaType, Seq<u8>),
> {
    Seq::new(media.len(), |i: int| (media[i].0@, media[i].1, media[i].2@))
}

/// Texts under the file names that their paths stand for.
pub open spec fn renamed_texts(texts: Seq<(String, String)>) -> Seq<(Seq<char>, Seq<char>)> {
    Seq::new(texts.len(), |i: int| (file_name(texts[i].0@), texts[i].1@))
}

/// Whether relationships that may be absent are what a text that may be
/// absent stands for.
pub open spec fn optional_rels_read(rels: Option<Relationships>, text: Option<String>) -> bool {
    match (rels, text) {
        (Some(r), Some(t)) => read_from_text(r, t@),
        (None, None) => true,
        _ => false,
    }
}

/// Whether the text of relationships that may be absent can be read.
pub open spec fn optional_rels_readable(text: Option<String>) -> bool {
    match text {
        Some(t) => text_readable::<Relationships>(t@),
        None => true,
    }
}

/// Reads relationships that may be absent.
fn parse_optional_rels(text: &Option<String>) -> (r: Result<Option<Relationships>, DocxError>)
    ensures
        r is Ok <==> optional_rels_readable(*text),
        r matches Ok(rels) ==> optional_rels_read(rels, *text),
        r matches Err(e) ==> e is Xml,
{
    match text {
        Some(t) => match Relationships::from_str(t.as_str()) {
            Ok(rels) => Ok(Some(rels)),
            Err(e) => Err(e),
        },
        None => Ok(None),
    }
}

/// Whether every one of the first `count` texts can be read as a value of
/// a type.
pub open spec fn all_text_readable<T: XmlCodec>(texts: Seq<(String, String)>, count: nat) -> bool {
    forall|i: int| 0 <= i < count ==> text_readable::<T>(#[trigger] texts[i].1@)
}

/// Whether values are what the first `count` texts stand for, each under
/// the file name that the path of its text stands for.
pub open spec fn all_read_from_text<T: XmlCodec>(
    values: Seq<(String, T)>,
    texts: Seq<(String, String)>,
    count: nat,
) -> bool {
    &&& values.len() == count
    &&& forall|i: int|
        0 <= i < count ==> (#[trigger] values[i]).0@ == file_name(texts[i].0@) && read_from_text(
            values[i].1,
            texts[i].1@,
        )
}

/// Reads every text of a list, under its file name.
fn parse_each<T: XmlCodec>(texts: &Vec<(String, String)>) -> (r: Result<Vec<(String, T)>, DocxError>)
    ensures
        r is Ok <==> all_text_readable::<T>(texts@, texts@.len()),
        r matches Ok(values) ==> all_read_from_text(values@, texts@, texts@.len()),
        r matches Err(e) ==> e is Xml,
{
    let mut values: Vec<(String, T)> = Vec::new();
    let mut i: usize = 0;
    while i < texts.len()
        invariant
            i <= texts@.len(),
            all_text_readable::<T>(texts@, i as nat),
            all_read_from_text(values@, texts@, i as nat),
        decreases texts@.len() - i,
    {
        let name = file_name_of(texts[i].0.as_str());
        match read_part::<T>(texts[i].1.as_str()) {
            Ok(value) => {
                values.push((name, value));
            },
            Err(e) => {
                assert(!text_readable::<T>(texts@[i as int].1@));
                return Err(e);
            },
        }
        i = i + 1;
    }
    Ok(values)
}

impl DocxFile {
    /// Whether the package can be read: the main document, the content
    /// types, the relationships, and every header and footer can.
    pub open spec fn parsable(&self) -> bool {
        &&& text_readable::<Document>(self.document@)
        &&& text_readable::<ContentTypes>(self.content_types@)
        &&& text_readable::<Relationships>(self.rels@)
        &&& optional_rels_readable(self.document_rels)
        &&& optional_rels_readable(self.settings_rels)
        &&& all_text_readable::<Header>(self.headers@, self.headers@.len())
        &&& all_text_readable::<Footer>(self.footers@, self.footers@.len())
    }

    /// Whether a package is what this one stands for: the parts that are
    /// read are read from their texts; headers, footers and themes go by
    /// their file names; media are the files whose names are those of
    /// media; the styles are the usual ones where there are none;
    /// everything else is carried over as it is.
    pub open spec fn parsed_into(&self, docx: Docx) -> bool {
        &&& read_from_text(docx.document, self.document@)
        &&& read_from_text(docx.content_types, self.content_types@)
        &&& read_from_text(docx.rels, self.rels@)
        &&& optional_rels_read(docx.document_rels, self.document_rels)
        &&& optional_rels_read(docx.settings_rels, self.settings_rels)
        &&& all_read_from_text(docx.headers@, self.headers@, self.headers@.len())
        &&& all_read_from_text(docx.footers@, self.footers@, self.footers@.len())
        &&& named_texts(docx.themes@) == renamed_texts(self.themes@)
        &&& media_model(docx.media@) == media_among(self.medias@, self.medias@.len())
        &&& named_files(docx.custom_xml@) == named_files(self.custom_xml@)
        &&& optional_text(docx.app) == optional_text(self.app)
        &&& optional_text(docx.core) == optional_text(self.core)
        &&& optional_text(docx.font_table) == optional_text(self.font_table)
        &&& optional_text(docx.footnotes) == optional_text(self.footnotes)
        &&& optional_text(docx.endnotes) == optional_text(self.endnotes)
        &&& optional_text(docx.settings) == optional_text(self.settings)
        &&& optional_text(docx.comments) == optional_text(self.comments)
        &&& optional_text(docx.numbering) == optional_text(self.numbering)
        &&& optional_text(docx.web_settings) == optional_text(self.web_settings)
        &&& docx.styles@ == (match self.styles {
            Some(t) => t@,
            None => DEFAULT_STYLES@,
        })
    }

    /// Lists the media: the files whose names are those of media, with
    /// their bytes borrowed.
    fn borrow_media<'a>(&'a self) -> (media: Vec<(String, MediaType, &'a Vec<u8>)>)
        ensures
            media_model(media@) == media_among(self.medias@, self.medias@.len()),
    {
        let mut media: Vec<(String, MediaType, &'a Vec<u8>)> = Vec::new();
        assert(media_model(media@) =~= Seq::empty());
        let mut i: usize = 0;
        while i < self.medias.len()
            invariant
                i <= self.medias@.len(),
                media_model(media@) == media_among(self.medias@, i as nat),
            decreases self.medias@.len() - i,
        {
            match get_media_type(self.medias[i].0.as_str()) {
                Some(kind) => {
                    let ghost before = media_model(media@);
                    let name = file_name_of(self.medias[i].0.as_str());
                    media.push((name, kind, &self.medias[i].1));
                    assert(media_model(media@) =~= before.push(
                        (name@, kind, self.medias@[i as int].1@),
                    ));
                },
                None => {},
            }
            i = i + 1;
        }
        media
    }

    /// Lists the themes under their file names.
    fn rename_themes(&self) -> (themes: Vec<(String, String)>)
        ensures
            named_texts(themes@) == renamed_texts(self.themes@),
    {
        let mut themes: Vec<(String, String)> = Vec::new();
        let mut i: usize = 0;
        while i < self.themes.len()
            invariant
                i <= self.themes@.len(),
                themes@.len() == i,
                named_texts(themes@) == renamed_texts(self.themes@).take(i as int),
            decreases self.themes@.len() - i,
        {
            let name = file_name_of(self.themes[i].0.as_str());
            let ghost before = named_texts(themes@);
            themes.push((name, self.themes[i].1.clone()));
            assert(named_texts(themes@) =~= before.push((name@, self.themes@[i as int].1@)));
            assert(named_texts(themes@) =~= renamed_texts(self.themes@).take(i + 1));
            i = i + 1;
        }
        assert(renamed_texts(self.themes@).take(self.themes@.len() as int) =~= renamed_texts(
            self.themes@,
        ));
        themes
    }

    /// Copies the custom parts.
    fn copy_custom(&self) -> (custom: Vec<(String, Vec<u8>)>)
        ensures
            named_files(custom@) == named_files(self.custom_xml@),
    {
        let mut custom: Vec<(String, Vec<u8>)> = Vec::new();
        let mut i: usize = 0;
        while i < self.custom_xml.len()
            invariant
                i <= self.custom_xml@.len(),
                custom@.len() == i,
                named_files(custom@) == named_files(self.custom_xml@).take(i as int),
            decreases self.custom_xml@.len() - i,
        {
            let ghost before = named_files(custom@);
            custom.push((self.custom_xml[i].0.clone(), self.custom_xml[i].1.clone()));
            assert(named_files(custom@) =~= before.push(
                (self.custom_xml@[i as int].0@, self.custom_xml@[i as int].1@),
            ));
            assert(named_files(custom@) =~= named_files(self.custom_xml@).take(i + 1));
            i = i + 1;
        }
        assert(named_files(self.custom_xml@).take(self.custom_xml@.len() as int) =~= named_files(
            self.custom_xml@,
        ));
        custom
    }

    /// Reads the package. Fails with a malformed-XML error where the main
    /// document, the content types, relationships, a header or a footer
    /// cannot be read; nothing is returned then. The bytes of the media are
    /// borrowed from this value.
    pub fn parse<'a>(&'a self) -> (r: Result<Docx<'a>, DocxError>)
        ensures
            r is Ok <==> self.parsable(),
            r matches Ok(docx) ==> self.parsed_into(docx),
            r matches Err(e) ==> e is Xml,
    {
        let document = Document::from_str(self.document.as_str())?;
        let headers = parse_each::<Header>(&self.headers)?;
        let footers = parse_each::<Footer>(&self.footers)?;
        let content_types = ContentTypes::from_str(self.content_types.as_str())?;
        let document_rels = parse_optional_rels(&self.document_rels)?;
        let settings_rels = parse_optional_rels(&self.settings_rels)?;
        let rels = Relationships::from_str(self.rels.as_str())?;
        let web_settings = text_attribute(&self.web_settings);
        let styles = match &self.styles {
            Some(t) => t.clone(),
            None => String::from_str(DEFAULT_STYLES),
        };
        Ok(
            Docx {
                app: text_attribute(&self.app),
                core: text_attribute(&self.core),
                content_types,
                document,
                font_table: text_attribute(&self.font_table),
                styles,
                rels,
                document_rels,
                settings_rels,
                headers,
                footers,
                themes: self.rename_themes(),
                media: self.borrow_media(),
                footnotes: text_attribute(&self.footnotes),
                endnotes: text_attribute(&self.endnotes),
                settings: text_attribute(&self.settings),
                web_settings,
                comments: text_attribute(&self.comments),
                numbering: text_attribute(&self.numbering),
                custom_xml: self.copy_custom(),
            },
        )
    }
}

} // verus!
