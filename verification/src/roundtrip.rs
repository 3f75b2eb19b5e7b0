//! Writing a document and reading it back keeps its text.
//!
//! The statement is made of trees: what is read from the element that a
//! document of paragraphs, runs and text is written as has the same text
//! leaves as the document, and reading that element always succeeds.

use vstd::prelude::*;
use crate::codec::{trees, XmlCodec};
use crate::document::{
    Body, BodyContent, Document, Paragraph, ParagraphContent, Run, RunContent, Text,
};
use crate::text::{joined, lemma_leaves_pointwise, TextTree};
use crate::xml::{all_elements_among, XmlTree};

verus! {

impl Run {
    /// Whether the run holds text and nothing else.
    pub open spec fn is_plain(&self) -> bool {
        forall|i: int| 0 <= i < self.content@.len() ==> (#[trigger] self.content@[i]) is Text
    }
}

impl Paragraph {
    /// Whether the paragraph holds runs of text and nothing else.
    pub open spec fn is_plain(&self) -> bool {
        forall|i: int|
            0 <= i < self.content@.len() ==> ((#[trigger] self.content@[i]) matches ParagraphContent::Run(
                r,
            ) && r.is_plain())
    }
}

impl Body {
    /// Whether the body holds paragraphs of runs of text and nothing else.
    pub open spec fn is_plain(&self) -> bool {
        forall|i: int|
            0 <= i < self.content@.len() ==> ((#[trigger] self.content@[i]) matches BodyContent::Paragraph(
                p,
            ) && p.is_plain())
    }
}

impl Document {
    /// Whether the document is built purely from paragraphs, runs and text.
    pub open spec fn is_plain(&self) -> bool {
        self.body.is_plain()
    }
}

/// Where every tree of a list is an element, the elements among the first
/// of them are those first trees.
pub proof fn lemma_all_elements_of_elements(trees: Seq<XmlTree>, count: nat)
    requires
        count <= trees.len(),
        forall|i: int| 0 <= i < trees.len() ==> (#[trigger] trees[i]) is Element,
    ensures
        all_elements_among(trees, count) == trees.take(count as int),
    decreases count,
{
    if count > 0 {
        lemma_all_elements_of_elements(trees, (count - 1) as nat);
        assert(trees.take(count as int) =~= trees.take(count - 1).push(trees[count - 1]));
    } else {
        assert(trees.take(0) =~= Seq::<XmlTree>::empty());
    }
}

/// The element that a text is written as can be read, and what is read
/// from it has the same characters.
pub proof fn lemma_text_round_trip(text: Text, back: Text)
    ensures
        Text::readable(text.tree()),
        back.read_from(text.tree()) ==> back.text@ == text.text@,
{
    let tree = text.tree();
    assert(tree.children() =~= seq![XmlTree::Text(text.text@)]);
    assert(tree.text() =~= text.text@) by {
        reveal_with_fuel(crate::xml::text_among, 2);
    }
}

/// The element that a run of text is written as can be read, and what is
/// read from it has the same text leaves.
pub proof fn lemma_run_round_trip(run: Run, back: Run)
    requires
        run.is_plain(),
    ensures
        Run::readable(run.tree()),
        back.read_from(run.tree()) ==> back.leaves() == run.leaves(),
{
    let tree = run.tree();
    let trees = trees(run.content@);
    assert(tree.children() =~= trees);
    assert forall|i: int| 0 <= i < trees.len() implies (#[trigger] trees[i]) is Element
        && RunContent::readable(trees[i]) by {
        let piece = run.content@[i];
        assert(piece is Text);
        lemma_text_round_trip(piece->Text_0, piece->Text_0);
    }
    lemma_all_elements_of_elements(trees, trees.len());
    assert(trees.take(trees.len() as int) =~= trees);
    assert(tree.all_elements() == trees);
    if back.read_from(tree) {
        assert forall|i: int| 0 <= i < run.content@.len() implies (#[trigger] back.content@[i]).leaves()
            == run.content@[i].leaves() by {
            let piece = run.content@[i];
            assert(piece is Text);
            assert(back.content@[i].read_from(trees[i]));
            lemma_text_round_trip(piece->Text_0, back.content@[i]->Text_0);
        }
        lemma_leaves_pointwise(back.content@, run.content@, run.content@.len());
    }
}

/// The element that a paragraph of runs of text is written as can be read,
/// and what is read from it has the same text leaves.
pub proof fn lemma_paragraph_round_trip(paragraph: Paragraph, back: Paragraph)
    requires
        paragraph.is_plain(),
    ensures
        Paragraph::readable(paragraph.tree()),
        back.read_from(paragraph.tree()) ==> back.leaves() == paragraph.leaves(),
{
    let tree = paragraph.tree();
    let trees = trees(paragraph.content@);
    assert(tree.children() =~= trees);
    assert forall|i: int| 0 <= i < trees.len() implies (#[trigger] trees[i]) is Element
        && ParagraphContent::readable(trees[i]) by {
        let piece = paragraph.content@[i];
        assert(piece is Run);
        lemma_run_round_trip(piece->Run_0, piece->Run_0);
    }
    lemma_all_elements_of_elements(trees, trees.len());
    assert(trees.take(trees.len() as int) =~= trees);
    assert(tree.all_elements() == trees);
    if back.read_from(tree) {
        assert forall|i: int| 0 <= i < paragraph.content@.len() implies (
        #[trigger] back.content@[i]).leaves() == paragraph.content@[i].leaves() by {
            let piece = paragraph.content@[i];
            assert(piece is Run);
            assert(back.content@[i].read_from(trees[i]));
            lemma_run_round_trip(piece->Run_0, back.content@[i]->Run_0);
        }
        lemma_leaves_pointwise(
            back.content@,
            paragraph.content@,
            paragraph.content@.len(),
        );
    }
}

/// The element that a body of paragraphs of runs of text is written as can
/// be read, and what is read from it has the same text leaves.
pub proof fn lemma_body_round_trip(body: Body, back: Body)
    requires
        body.is_plain(),
    ensures
        Body::readable(body.tree()),
        back.read_from(body.tree()) ==> back.leaves() == body.leaves(),
{
    let tree = body.tree();
    let trees = trees(body.content@);
    assert(tree.children() =~= trees);
    assert forall|i: int| 0 <= i < trees.len() implies (#[trigger] trees[i]) is Element
        && BodyContent::readable(trees[i]) by {
        let piece = body.content@[i];
        assert(piece is Paragraph);
        lemma_paragraph_round_trip(piece->Paragraph_0, piece->Paragraph_0);
    }
    lemma_all_elements_of_elements(trees, trees.len());
    assert(trees.take(trees.len() as int) =~= trees);
    assert(tree.all_elements() == trees);
    if back.read_from(tree) {
        assert forall|i: int| 0 <= i < body.content@.len() implies (#[trigger] back.content@[i]).leaves()
            == body.content@[i].leaves() by {
            let piece = body.content@[i];
            assert(piece is Paragraph);
            assert(back.content@[i].read_from(trees[i]));
            lemma_paragraph_round_trip(piece->Paragraph_0, back.content@[i]->Paragraph_0);
        }
        lemma_leaves_pointwise(back.content@, body.content@, body.content@.len());
    }
}

/// The element that a document built purely from paragraphs,
/// runs and text is written as can be read, and whatever document is read
/// from it has the same text.
pub proof fn lemma_document_round_trip(document: Document, back: Document)
    requires
        document.is_plain(),
        back.read_from(document.tree()),
    ensures
        Document::readable(document.tree()),
        back.leaves() == document.leaves(),
        joined(back.leaves()) == joined(document.leaves()),
{
    lemma_document_readable(document);
    let tree = document.tree();
    assert(tree.children() =~= seq![document.body.tree()]);
    assert(tree.child("w:body"@) == Some(document.body.tree())) by {
        reveal_with_fuel(crate::xml::child_among, 2);
    }
    lemma_body_round_trip(document.body, back.body);
}

/// The element that a document built purely from paragraphs, runs and text
/// is written as can be read.
pub proof fn lemma_document_readable(document: Document)
    requires
        document.is_plain(),
    ensures
        Document::readable(document.tree()),
{
    let tree = document.tree();
    assert(tree.children() =~= seq![document.body.tree()]);
    assert(tree.child("w:body"@) == Some(document.body.tree())) by {
        reveal_with_fuel(crate::xml::child_among, 2);
    }
    lemma_body_round_trip(document.body, document.body);
}

} // verus!
