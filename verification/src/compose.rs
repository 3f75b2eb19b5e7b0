//! Building document trees piece by piece.

use vstd::prelude::*;
use vstd::string::StringExecFns;
use crate::document::{
    Body, BodyContent, Document, Hyperlink, Paragraph, ParagraphContent, Run, RunContent, Text,
};
use crate::xml::{attributes_model, XmlAttribute};
use crate::error::DocxError;
use crate::substitute::pairs_model;
use crate::text::{
    joined, joined_among, lemma_joined_concat, lemma_leaves_push, leaves_among, texts_model,
    TextTree,
};

verus! {

impl Text {
    /// A piece of text with the given characters.
    pub fn new(text: &str) -> (piece: Text)
        ensures
            piece.text@ == text@,
            piece.space is None,
    {
        Text { space: None, text: String::from_str(text) }
    }
}

impl Run {
    /// A run without content.
    pub fn new() -> (run: Run)
        ensures
            run.content@.len() == 0,
            run.leaves() == Seq::<Seq<char>>::empty(),
    {
        Run { content: Vec::new() }
    }

    /// The run with one more piece at the end.
    pub fn push(self, piece: RunContent) -> (run: Run)
        ensures
            run.content@ == self.content@.push(piece),
            run.leaves() == self.leaves() + piece.leaves(),
    {
        let mut run = self;
        run.content.push(piece);
        proof {
            lemma_leaves_push(self.content@, piece);
        }
        run
    }

    /// The run with one more piece of text at the end.
    pub fn push_text(self, text: &str) -> (run: Run)
        ensures
            run.content@.len() == self.content@.len() + 1,
            run.content@.drop_last() == self.content@,
            run.content@.last() matches RunContent::Text(t) && t.text@ == text@ && t.space is None,
            run.leaves() == self.leaves().push(text@),
    {
        let run = self.push(RunContent::Text(Text::new(text)));
        assert(run.content@.drop_last() =~= self.content@);
        assert(self.leaves() + seq![text@] =~= self.leaves().push(text@));
        run
    }
}

/// The text of each run of a list.
pub open spec fn run_texts(runs: Seq<Run>) -> Seq<Seq<char>> {
    Seq::new(runs.len(), |i: int| joined(runs[i].leaves()))
}

/// The text leaves of runs, joined, are the texts of the runs, joined.
pub proof fn lemma_runs_text(runs: Seq<Run>, count: nat)
    requires
        count <= runs.len(),
    ensures
        joined(leaves_among(runs, count)) == joined_among(run_texts(runs), count),
    decreases count,
{
    if count > 0 {
        lemma_runs_text(runs, (count - 1) as nat);
        lemma_joined_concat(leaves_among(runs, (count - 1) as nat), runs[count - 1].leaves());
    }
}

/// The text of a hyperlink is the concatenation, in order, of the text of
/// each of its runs.
pub proof fn lemma_hyperlink_text(link: Hyperlink)
    requires
        link.bidirectional_embedding is None,
    ensures
        joined(link.leaves()) == joined(run_texts(link.content@)),
{
    lemma_runs_text(link.content@, link.content@.len());
    assert(link.leaves() =~= leaves_among(link.content@, link.content@.len()));
}

impl Hyperlink {
    /// A hyperlink without target and content.
    pub fn new() -> (link: Hyperlink)
        ensures
            link.id is None,
            link.anchor is None,
            link.content@.len() == 0,
            link.bidirectional_embedding is None,
            link.leaves() == Seq::<Seq<char>>::empty(),
    {
        Hyperlink { id: None, anchor: None, content: Vec::new(), bidirectional_embedding: None }
    }

    /// The hyperlink with the id of the relationship that leads to its
    /// target.
    pub fn id(self, id: &str) -> (link: Hyperlink)
        ensures
            link.id matches Some(s) && s@ == id@,
            link.anchor == self.anchor,
            link.content == self.content,
            link.bidirectional_embedding == self.bidirectional_embedding,
    {
        let mut link = self;
        link.id = Some(String::from_str(id));
        link
    }

    /// The hyperlink with the name of the bookmark that it leads to.
    pub fn anchor(self, anchor: &str) -> (link: Hyperlink)
        ensures
            link.anchor matches Some(s) && s@ == anchor@,
            link.id == self.id,
            link.content == self.content,
            link.bidirectional_embedding == self.bidirectional_embedding,
    {
        let mut link = self;
        link.anchor = Some(String::from_str(anchor));
        link
    }

    /// The hyperlink with one more run at the end.
    pub fn push_run(self, run: Run) -> (link: Hyperlink)
        ensures
            link.content@ == self.content@.push(run),
            link.id == self.id,
            link.anchor == self.anchor,
            link.bidirectional_embedding == self.bidirectional_embedding,
            self.bidirectional_embedding is None ==> link.leaves() == self.leaves() + run.leaves(),
    {
        let mut link = self;
        link.content.push(run);
        proof {
            if self.bidirectional_embedding is None {
                lemma_leaves_push(self.content@, run);
                assert(link.leaves() =~= self.leaves() + run.leaves());
            }
        }
        link
    }

    /// The hyperlink with one more run at the end, which holds the given
    /// text and nothing else.
    pub fn add_text(self, text: &str) -> (link: Hyperlink)
        ensures
            link.content@.len() == self.content@.len() + 1,
            link.content@.drop_last() == self.content@,
            link.content@.last().leaves() == seq![text@],
            link.id == self.id,
            link.anchor == self.anchor,
            link.bidirectional_embedding == self.bidirectional_embedding,
            self.bidirectional_embedding is None ==> link.leaves() == self.leaves().push(text@),
    {
        let run = Run::new().push_text(text);
        assert(run.leaves() =~= seq![text@]);
        let link = self.push_run(run);
        assert(link.content@.drop_last() =~= self.content@);
        proof {
            if self.bidirectional_embedding is None {
                assert(self.leaves() + seq![text@] =~= self.leaves().push(text@));
            }
        }
        link
    }

    /// The first run, if there is one.
    pub fn first_run(&self) -> (run: Option<&Run>)
        ensures
            self.content@.len() == 0 ==> run is None,
            self.content@.len() > 0 ==> run == Some(&self.content@[0]),
    {
        if self.content.len() == 0 {
            None
        } else {
            Some(&self.content[0])
        }
    }

    /// The first run, to be changed in place, if there is one.
    pub fn first_run_mut(&mut self) -> (run: Option<&mut Run>)
        ensures
            old(self).content@.len() == 0 ==> run is None && *final(self) == *old(self),
            old(self).content@.len() > 0 ==> run is Some && *run->0 == old(self).content@[0]
                && final(self).content@ == old(self).content@.update(0, *final(run->0))
                && final(self).id == old(self).id && final(self).anchor == old(self).anchor
                && final(self).bidirectional_embedding == old(self).bidirectional_embedding,
    {
        if self.content.len() == 0 {
            None
        } else {
            Some(&mut self.content[0])
        }
    }

    /// The text of the hyperlink: the text of its runs, joined in order.
    pub fn text(&self) -> (text: String)
        ensures
            text@ == joined(self.leaves()),
    {
        TextTree::text(self)
    }

    /// The text leaves of the hyperlink, in document order.
    pub fn iter_text(&self) -> (texts: Vec<String>)
        ensures
            texts_model(texts@) == self.leaves(),
    {
        TextTree::iter_text(self)
    }

    /// Makes the replacements, one after the other, in every text leaf of
    /// the hyperlink. Always succeeds.
    pub fn replace_text(&mut self, pairs: &[(&str, &str)]) -> (r: Result<(), DocxError>)
        ensures
            r is Ok,
            final(self).is_rewrite_of(*old(self), pairs_model(pairs@)),
    {
        TextTree::replace_text(self, pairs)
    }

    /// Replaces `pattern` by `replacement` in every text leaf of the
    /// hyperlink.
    pub fn replace_text_simple(&mut self, pattern: &str, replacement: &str)
        ensures
            final(self).is_rewrite_of(*old(self), seq![(pattern@, replacement@)]),
    {
        TextTree::replace_text_simple(self, pattern, replacement)
    }

    /// A hyperlink that holds the given run and nothing else.
    pub fn from_single_run(run: Run) -> (link: Hyperlink)
        ensures
            link.content@ == seq![run],
            link.id is None,
            link.anchor is None,
            link.bidirectional_embedding is None,
            link.leaves() == run.leaves(),
    {
        let link = Hyperlink::new().push_run(run);
        assert(link.content@ =~= seq![run]);
        assert(Seq::<Seq<char>>::empty() + run.leaves() =~= run.leaves());
        link
    }
}

impl Paragraph {
    /// A paragraph without content.
    pub fn new() -> (paragraph: Paragraph)
        ensures
            paragraph.content@.len() == 0,
            paragraph.leaves() == Seq::<Seq<char>>::empty(),
    {
        Paragraph { content: Vec::new() }
    }

    /// The paragraph with one more piece at the end.
    pub fn push(self, piece: ParagraphContent) -> (paragraph: Paragraph)
        ensures
            paragraph.content@ == self.content@.push(piece),
            paragraph.leaves() == self.leaves() + piece.leaves(),
    {
        let mut paragraph = self;
        paragraph.content.push(piece);
        proof {
            lemma_leaves_push(self.content@, piece);
        }
        paragraph
    }

    /// The paragraph with one more run at the end, which holds the given
    /// text and nothing else.
    pub fn push_text(self, text: &str) -> (paragraph: Paragraph)
        ensures
            paragraph.content@.len() == self.content@.len() + 1,
            paragraph.content@.drop_last() == self.content@,
            paragraph.content@.last().leaves() == seq![text@],
            paragraph.leaves() == self.leaves().push(text@),
    {
        let run = Run::new().push_text(text);
        assert(run.leaves() =~= seq![text@]);
        let paragraph = self.push(ParagraphContent::Run(run));
        assert(paragraph.content@.drop_last() =~= self.content@);
        assert(self.leaves() + seq![text@] =~= self.leaves().push(text@));
        paragraph
    }
}

/// The namespace of the elements of a document.
pub const NAMESPACE_MAIN: &'static str =
    "http://schemas.openxmlformats.org/wordprocessingml/2006/main";

/// The namespace of the references to relationships.
pub const NAMESPACE_RELATIONSHIPS: &'static str =
    "http://schemas.openxmlformats.org/officeDocument/2006/relationships";

/// The namespace of the elements of a drawing in a document.
pub const NAMESPACE_DRAWING: &'static str =
    "http://schemas.openxmlformats.org/drawingml/2006/wordprocessingDrawing";

impl Document {
    /// An empty document whose root declares the namespaces that its
    /// elements are written in.
    pub fn new() -> (document: Document)
        ensures
            document.body.content@.len() == 0,
            document.leaves() == Seq::<Seq<char>>::empty(),
            attributes_model(document.attributes@) == seq![
                ("xmlns:w"@, NAMESPACE_MAIN@),
                ("xmlns:r"@, NAMESPACE_RELATIONSHIPS@),
                ("xmlns:wp"@, NAMESPACE_DRAWING@),
            ],
    {
        let mut attributes: Vec<XmlAttribute> = Vec::new();
        attributes.push(
            XmlAttribute { key: String::from_str("xmlns:w"), value: String::from_str(NAMESPACE_MAIN) },
        );
        attributes.push(
            XmlAttribute {
                key: String::from_str("xmlns:r"),
                value: String::from_str(NAMESPACE_RELATIONSHIPS),
            },
        );
        attributes.push(
            XmlAttribute {
                key: String::from_str("xmlns:wp"),
                value: String::from_str(NAMESPACE_DRAWING),
            },
        );
        assert(attributes_model(attributes@) =~= seq![
            ("xmlns:w"@, NAMESPACE_MAIN@),
            ("xmlns:r"@, NAMESPACE_RELATIONSHIPS@),
            ("xmlns:wp"@, NAMESPACE_DRAWING@),
        ]);
        Document { attributes, body: Body { content: Vec::new() } }
    }
}

impl Body {
    /// Adds a piece at the end of the body.
    pub fn push(&mut self, piece: BodyContent)
        ensures
            final(self).content@ == old(self).content@.push(piece),
            final(self).leaves() == old(self).leaves() + piece.leaves(),
    {
        self.content.push(piece);
        proof {
            lemma_leaves_push(old(self).content@, piece);
        }
    }

    /// Adds a paragraph at the end of the body.
    pub fn push_paragraph(&mut self, paragraph: Paragraph)
        ensures
            final(self).content@ == old(self).content@.push(BodyContent::Paragraph(paragraph)),
            final(self).leaves() == old(self).leaves() + paragraph.leaves(),
    {
        self.push(BodyContent::Paragraph(paragraph));
    }
}

} // verus!
