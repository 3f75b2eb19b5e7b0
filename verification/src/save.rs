//! Saving a package with regard to its drawings: validating them,
//! sanitizing them, or both, before the package is written.

use vstd::prelude::*;
use vstd::string::{StrSliceExecFns, StringExecFns};
use vstd::utf8::encode_utf8;
use crate::codec::XmlCodec;
use crate::compat::{warnings_model, DrawingCompatibilityWarning, Pass, WarningModel};
use crate::compatible::CompatibleXml;
use crate::container::{entries_distinct, pack, packed, part_entries, EntryModel, Part};
use crate::docx::{
    entries_of, names_of, package_entries, parts_list, parts_model, parts_of, typed_parts,
    word_path, Docx, NamedPart, PackagePart, PartModel, TYPE_FOOTER, TYPE_HEADER,
    TYPE_RELATIONSHIPS, TYPE_XML,
};
use crate::error::DocxError;
use crate::part::{part_text, write_root};
use crate::registry::{
    defaults_model, linked_all, links_tree, overrides_model, types_tree, with_default,
    with_overrides, LinkModel,
};
use crate::rels::Relationships;
use crate::sweep::{
    all_sanitized, sanitize_all, validate_all, warnings_among, warnings_of, DrawingTree,
};
use crate::xml::XmlTree;

verus! {

/// What is done to the drawings of a package before it is saved.
#[derive(Debug, Clone, Copy, PartialEq, Eq)]
pub struct DocxSaveOptions {
    /// Whether fragile floating drawings are turned into inline ones.
    pub use_compatibility_mode: bool,
    /// Whether positions that lack what they need are reported.
    pub validate_drawings: bool,
}

impl Default for DocxSaveOptions {
    /// Options that leave the drawings alone.
    fn default() -> (options: DocxSaveOptions)
        ensures
            !options.use_compatibility_mode,
            !options.validate_drawings,
    {
        DocxSaveOptions { use_compatibility_mode: false, validate_drawings: false }
    }
}

impl DocxSaveOptions {
    /// Options that validate and sanitize the drawings.
    pub fn compatible() -> (options: DocxSaveOptions)
        ensures
            options.use_compatibility_mode,
            options.validate_drawings,
    {
        DocxSaveOptions { use_compatibility_mode: true, validate_drawings: true }
    }
}

impl<'a> Docx<'a> {
    /// The warnings that a pass gives for the package: those of the body
    /// of the main document, then those of the headers, then those of the
    /// footers.
    pub open spec fn warnings(&self, pass: Pass) -> Seq<WarningModel> {
        self.document.body.warnings(pass) + warnings_of(self.headers@, pass) + warnings_of(
            self.footers@,
            pass,
        )
    }

    /// Whether this package is `before` with every fragile floating
    /// drawing of the main document, the headers and the footers turned
    /// inline, and nothing else changed.
    pub open spec fn is_sanitized_from(&self, before: Docx<'a>) -> bool {
        &&& self.document.attributes == before.document.attributes
        &&& self.document.body.is_sanitized_from(before.document.body)
        &&& all_sanitized(self.headers@, before.headers@)
        &&& all_sanitized(self.footers@, before.footers@)
        &&& self.app == before.app
        &&& self.core == before.core
        &&& self.content_types == before.content_types
        &&& self.font_table == before.font_table
        &&& self.styles == before.styles
        &&& self.rels == before.rels
        &&& self.document_rels == before.document_rels
        &&& self.settings_rels == before.settings_rels
        &&& self.themes == before.themes
        &&& self.media == before.media
        &&& self.footnotes == before.footnotes
        &&& self.endnotes == before.endnotes
        &&& self.settings == before.settings
        &&& self.web_settings == before.web_settings
        &&& self.comments == before.comments
        &&& self.numbering == before.numbering
        &&& self.custom_xml == before.custom_xml
    }

    /// Turns every fragile floating drawing of the package into an inline
    /// one: in the body of the main document, then in the headers, then in
    /// the footers. Returns one warning for each, in that order. Always
    /// succeeds.
    pub fn sanitize_all_drawings(&mut self) -> (r: Result<
        Vec<DrawingCompatibilityWarning>,
        DocxError,
    >)
        ensures
            r matches Ok(warnings) && warnings_model(warnings@) == old(self).warnings(
                Pass::Sanitize,
            ),
            final(self).is_sanitized_from(*old(self)),
    {
        let mut warnings: Vec<DrawingCompatibilityWarning> = Vec::new();
        assert(warnings_model(warnings@) =~= Seq::empty());
        self.document.body.sanitize_drawings(&mut warnings);
        sanitize_all(&mut self.headers, &mut warnings);
        sanitize_all(&mut self.footers, &mut warnings);
        Ok(warnings)
    }

    /// Looks through the package for floating drawings whose positions
    /// lack what they need: in the body of the main document, then in the
    /// headers, then in the footers. Returns one warning for each, in that
    /// order. The package is not changed.
    pub fn validate_drawing_compatibility(&self) -> (warnings: Vec<DrawingCompatibilityWarning>)
        ensures
            warnings_model(warnings@) == self.warnings(Pass::Validate),
    {
        let mut warnings: Vec<DrawingCompatibilityWarning> = Vec::new();
        assert(warnings_model(warnings@) =~= Seq::empty());
        self.document.body.validate_drawings(&mut warnings);
        validate_all(&self.headers, &mut warnings);
        validate_all(&self.footers, &mut warnings);
        warnings
    }

    /// The warnings that saving with the given options returns: those of
    /// validating where that is asked for, then those of sanitizing where
    /// that is asked for.
    pub open spec fn save_warnings(&self, options: DocxSaveOptions) -> Seq<WarningModel> {
        (if options.validate_drawings {
            self.warnings(Pass::Validate)
        } else {
            Seq::empty()
        }) + (if options.use_compatibility_mode {
            self.warnings(Pass::Sanitize)
        } else {
            Seq::empty()
        })
    }

    /// The relationships of the package as they are saved: those that are
    /// there and those that are missing.
    pub open spec fn saved_links(&self) -> Seq<LinkModel> {
        linked_all(self.rels.links(), self.package_links(), self.package_links().len())
    }

    /// The relationships of the main document as they are saved: those
    /// that are there and those that are missing.
    pub open spec fn saved_document_links(&self) -> Seq<LinkModel> {
        linked_all(
            self.document_rel_links(),
            self.document_links(),
            self.document_links().len(),
        )
    }

    /// The parts of the package as they are saved, but for the content
    /// types: with every relationship that a part needs, and with the
    /// drawings of the main document, the headers and the footers sanitized
    /// where that is asked for.
    pub open spec fn saved_parts(&self, sanitize: bool) -> Seq<PartModel> {
        self.package_parts_with(
            part_text(links_tree(self.saved_links())),
            part_text(
                if sanitize {
                    self.document.sanitized_tree()
                } else {
                    self.document.tree()
                },
            ),
            Some(part_text(links_tree(self.saved_document_links()))),
            if sanitize {
                sanitized_parts(self.headers@, TYPE_HEADER@)
            } else {
                parts_of(self.headers@)
            },
            if sanitize {
                sanitized_parts(self.footers@, TYPE_FOOTER@)
            } else {
                parts_of(self.footers@)
            },
        )
    }

    /// The content types as they are saved: with the defaults for
    /// relationship parts and plain XML, and with an override for every
    /// part that no override named.
    pub open spec fn saved_types(&self, sanitize: bool) -> XmlTree {
        types_tree(
            with_default(
                with_default(
                    defaults_model(self.content_types.defaults@),
                    "rels"@,
                    TYPE_RELATIONSHIPS@,
                ),
                "xml"@,
                TYPE_XML@,
            ),
            with_overrides(
                overrides_model(self.content_types.overrides@),
                typed_parts(self.saved_parts(sanitize)),
                self.saved_parts(sanitize).len(),
            ),
        )
    }

    /// The entries that the package is saved as: the content types, then
    /// the parts in their order.
    pub open spec fn saved_entries(&self, sanitize: bool) -> Seq<EntryModel> {
        package_entries(part_text(self.saved_types(sanitize)), self.saved_parts(sanitize))
    }

    /// Lists the entries that the package is saved as, and adds the
    /// warnings of sanitizing to the list where sanitizing is asked for.
    /// The package stays as it is.
    pub fn entries_to_save(
        &self,
        sanitize: bool,
        warnings: &mut Vec<DrawingCompatibilityWarning>,
    ) -> (entries: Vec<Part>)
        ensures
            part_entries(entries@) == self.saved_entries(sanitize),
            warnings_model(final(warnings)@) == warnings_model(old(warnings)@) + (if sanitize {
                self.warnings(Pass::Sanitize)
            } else {
                Seq::empty()
            }),
    {
        let ghost base = warnings_model(warnings@);
        let mut rels = self.rels.duplicate();
        rels.add_all(&self.wanted_package_links());
        let mut document_rels = match &self.document_rels {
            Some(r) => r.duplicate(),
            None => {
                let r = Relationships { relationships: Vec::new() };
                assert(r.links() =~= Seq::empty());
                r
            },
        };
        document_rels.add_all(&self.wanted_document_links());
        proof {
            rels.lemma_links_tree();
            document_rels.lemma_links_tree();
        }
        let rels_text = rels.to_xml();
        let document_rels_text = document_rels.to_xml();
        let document_text;
        let headers;
        let footers;
        if sanitize {
            let document = self.document.to_sanitized_element(warnings);
            document_text = write_root(&document);
            headers = sanitized_parts_of(&self.headers, TYPE_HEADER, warnings);
            footers = sanitized_parts_of(&self.footers, TYPE_FOOTER, warnings);
            assert(warnings_model(warnings@) =~= base + self.warnings(Pass::Sanitize));
        } else {
            document_text = self.document.to_xml();
            headers = parts_list(&self.headers);
            footers = parts_list(&self.footers);
            assert(base + Seq::<WarningModel>::empty() =~= base);
        }
        let parts = self.collect_parts_with(
            rels_text.as_str(),
            document_text.as_str(),
            Some(document_rels_text.as_str()),
            headers,
            footers,
        );
        let mut types = self.content_types.duplicate();
        types.register(&parts);
        proof {
            types.lemma_types_tree();
        }
        let types_text = types.to_xml();
        entries_of(types_text.as_str(), &parts)
    }

    /// Saves the package into a container after its drawings were
    /// validated and sanitized as the options say; validating comes first.
    /// The package itself stays as it is: what is saved is the package with
    /// every relationship and content type that its parts need, and with
    /// its drawings sanitized where that is asked for. Returns the
    /// container with the warnings; a warning never stops the saving.
    /// Where two parts would be saved under one path, or the entries
    /// cannot be packed, the result is an error and no warning is returned.
    pub fn save_with_options(&self, options: DocxSaveOptions) -> (r: Result<
        (Vec<u8>, Vec<DrawingCompatibilityWarning>),
        DocxError,
    >)
        ensures
            match packed(self.saved_entries(options.use_compatibility_mode)) {
                Some(archive) => r matches Ok(saved) && saved.0@ == archive && warnings_model(
                    saved.1@,
                ) == self.save_warnings(options),
                None => r matches Err(e) && (e is Zip || e is IO),
            },
            !entries_distinct(self.saved_entries(options.use_compatibility_mode)) ==> (r matches Err(
                e,
            ) && e is Zip),
    {
        let mut warnings: Vec<DrawingCompatibilityWarning> = Vec::new();
        assert(warnings_model(warnings@) =~= Seq::empty());
        if options.validate_drawings {
            warnings = self.validate_drawing_compatibility();
        }
        let entries = self.entries_to_save(options.use_compatibility_mode, &mut warnings);
        match pack(&entries) {
            Ok(bytes) => Ok((bytes, warnings)),
            Err(e) => Err(e),
        }
    }

    /// Saves the package into a container with every fragile floating
    /// drawing turned into an inline one. The package itself stays as it
    /// is. Returns the container with one warning for each drawing that was
    /// turned.
    pub fn save_compatible(&self) -> (r: Result<
        (Vec<u8>, Vec<DrawingCompatibilityWarning>),
        DocxError,
    >)
        ensures
            match packed(self.saved_entries(true)) {
                Some(archive) => r matches Ok(saved) && saved.0@ == archive && warnings_model(
                    saved.1@,
                ) == self.warnings(Pass::Sanitize),
                None => r matches Err(e) && (e is Zip || e is IO),
            },
            !entries_distinct(self.saved_entries(true)) ==> (r matches Err(e) && e is Zip),
    {
        let options = DocxSaveOptions { use_compatibility_mode: true, validate_drawings: false };
        assert(self.save_warnings(options) =~= self.warnings(Pass::Sanitize));
        self.save_with_options(options)
    }

    /// Writing a package gives what saving it with its drawings left alone
    /// gives: the entries of a package after its parts were registered are
    /// the entries that the package before is saved as.
    pub proof fn lemma_written_as_saved(self, before: Docx<'a>)
        requires
            self.is_registered_from(before),
        ensures
            self.entries_model() == before.saved_entries(false),
    {
        self.rels.lemma_links_tree();
        self.document_rels->0.lemma_links_tree();
        self.content_types.lemma_types_tree();
        assert(self.package_parts() == before.saved_parts(false));
    }

    /// Saving with the drawings sanitized gives what sanitizing the
    /// package in place and then saving it as it is gives: the entries of
    /// the one are those of the other.
    pub proof fn lemma_saved_as_sanitized(self, before: Docx<'a>)
        requires
            self.is_sanitized_from(before),
        ensures
            self.saved_entries(false) == before.saved_entries(true),
    {
        before.document.lemma_sanitized_tree(self.document);
        assert(parts_of(self.headers@) =~= sanitized_parts(before.headers@, TYPE_HEADER@)) by {
            assert forall|i: int| 0 <= i < self.headers@.len() implies parts_of(self.headers@)[i]
                == sanitized_parts(before.headers@, TYPE_HEADER@)[i] by {
                assert(self.headers@[i].is_sanitized_from(before.headers@[i]));
                before.headers@[i].1.lemma_sanitized_tree(self.headers@[i].1);
            }
        }
        assert(parts_of(self.footers@) =~= sanitized_parts(before.footers@, TYPE_FOOTER@)) by {
            assert forall|i: int| 0 <= i < self.footers@.len() implies parts_of(self.footers@)[i]
                == sanitized_parts(before.footers@, TYPE_FOOTER@)[i] by {
                assert(self.footers@[i].is_sanitized_from(before.footers@[i]));
                before.footers@[i].1.lemma_sanitized_tree(self.footers@[i].1);
            }
        }
        assert(names_of(self.headers@) =~= names_of(before.headers@)) by {
            assert forall|i: int| 0 <= i < self.headers@.len() implies names_of(self.headers@)[i]
                == names_of(before.headers@)[i] by {
                assert(self.headers@[i].is_sanitized_from(before.headers@[i]));
            }
        }
        assert(names_of(self.footers@) =~= names_of(before.footers@)) by {
            assert forall|i: int| 0 <= i < self.footers@.len() implies names_of(self.footers@)[i]
                == names_of(before.footers@)[i] by {
                assert(self.footers@[i].is_sanitized_from(before.footers@[i]));
            }
        }
        assert(self.saved_parts(false) == before.saved_parts(true));
    }
}

/// Headers or footers as they are written once they are sanitized, each
/// under its path and with the given content type, in order.
pub open spec fn sanitized_parts<T: CompatibleXml>(parts: Seq<(String, T)>, ty: Seq<char>) -> Seq<
    PartModel,
> {
    Seq::new(
        parts.len(),
        |i: int|
            PartModel {
                name: word_path(parts[i].0@),
                ty,
                data: encode_utf8(part_text(parts[i].1.sanitized_tree())),
            },
    )
}

/// Writes headers or footers as they are once they are sanitized, in
/// order, and adds the warnings of sanitizing them to the list. They stay
/// as they are.
pub fn sanitized_parts_of<T: CompatibleXml>(
    parts: &Vec<(String, T)>,
    ty: &str,
    warnings: &mut Vec<DrawingCompatibilityWarning>,
) -> (list: Vec<PackagePart>)
    ensures
        parts_model(list@) == sanitized_parts(parts@, ty@),
        warnings_model(final(warnings)@) == warnings_model(old(warnings)@) + warnings_of(
            parts@,
            Pass::Sanitize,
        ),
{
    let ghost base = warnings_model(warnings@);
    assert(base + Seq::<WarningModel>::empty() =~= base);
    let mut list: Vec<PackagePart> = Vec::new();
    let mut i: usize = 0;
    while i < parts.len()
        invariant
            i <= parts@.len(),
            list@.len() == i,
            forall|k: int| 0 <= k < i ==> (#[trigger] list@[k])@ == sanitized_parts(parts@, ty@)[k],
            warnings_model(warnings@) == base + warnings_among(parts@, Pass::Sanitize, i as nat),
        decreases parts@.len() - i,
    {
        let root = parts[i].1.to_sanitized_element(warnings);
        let text = write_root(&root);
        proof {
            reveal_strlit("word/");
        }
        list.push(
            PackagePart {
                name: String::from_str("word/").concat(parts[i].0.as_str()),
                ty: String::from_str(ty),
                data: text.as_str().as_bytes_vec(),
            },
        );
        assert(warnings_model(warnings@) =~= base + warnings_among(
            parts@,
            Pass::Sanitize,
            (i + 1) as nat,
        ));
        i = i + 1;
    }
    assert(parts_model(list@) =~= sanitized_parts(parts@, ty@));
    list
}

} // verus!
