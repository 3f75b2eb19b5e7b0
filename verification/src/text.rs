//! The text of a document tree: its text leaves in document order, their
//! concatenation, and replacement inside the leaves.
//!
//! A text leaf is the text of a `Text` piece of a run. Field marks, field
//! instructions, drawings, tables and content kept unread hold no leaves.
//! Replacement works leaf by leaf: no leaf is split or merged, so a pattern
//! that spans two runs is not found.

use vstd::prelude::*;
use vstd::string::StringExecFns;
use crate::document::{
    BidirectionalEmbedding, Body, BodyContent, Document, Footer, Header, Hyperlink, Paragraph,
    ParagraphContent, Run, RunContent, Text,
};
use crate::error::DocxError;
use crate::substitute::{pairs_model, replace_by_all, replaced_by_all};

verus! {

/// Pairs of a pattern and what replaces it.
pub type Pairs = Seq<(Seq<char>, Seq<char>)>;

/// The first `count` texts of a list, joined.
pub open spec fn joined_among(parts: Seq<Seq<char>>, count: nat) -> Seq<char>
    decreases count,
{
    if count == 0 || count > parts.len() {
        Seq::empty()
    } else {
        joined_among(parts, (count - 1) as nat) + parts[count - 1]
    }
}

/// The texts of a list, joined.
pub open spec fn joined(parts: Seq<Seq<char>>) -> Seq<char> {
    joined_among(parts, parts.len())
}

/// The characters of each text of a list.
pub open spec fn texts_model(texts: Seq<String>) -> Seq<Seq<char>> {
    Seq::new(texts.len(), |i: int| texts[i]@)
}

/// Text leaves with the replacements made in each of them.
pub open spec fn rewritten_leaves(leaves: Seq<Seq<char>>, pairs: Pairs) -> Seq<Seq<char>> {
    Seq::new(leaves.len(), |i: int| replaced_by_all(leaves[i], pairs))
}

/// Joining the first texts of a list is joining the list cut after them.
pub proof fn lemma_joined_among_prefix(parts: Seq<Seq<char>>, count: nat)
    requires
        count <= parts.len(),
    ensures
        joined_among(parts, count) == joined(parts.take(count as int)),
    decreases count,
{
    if count > 0 {
        lemma_joined_among_prefix(parts, (count - 1) as nat);
        lemma_joined_among_prefix(parts.take(count as int), (count - 1) as nat);
        assert(parts.take(count as int).take(count - 1) =~= parts.take(count - 1));
    }
}

/// Joining texts reaches the same whether a list is joined at once or part
/// by part.
pub proof fn lemma_joined_concat(a: Seq<Seq<char>>, b: Seq<Seq<char>>)
    ensures
        joined(a + b) == joined(a) + joined(b),
    decreases b.len(),
{
    if b.len() == 0 {
        assert(a + b =~= a);
        assert(joined(a) + joined(b) =~= joined(a));
    } else {
        let whole = a + b;
        assert(whole.drop_last() =~= a + b.drop_last());
        lemma_joined_among_prefix(whole, (whole.len() - 1) as nat);
        lemma_joined_among_prefix(b, (b.len() - 1) as nat);
        lemma_joined_concat(a, b.drop_last());
        assert(joined(whole) == joined(whole.drop_last()) + whole.last());
        assert(joined(b) == joined(b.drop_last()) + b.last());
        assert(joined(whole) =~= joined(a) + joined(b));
    }
}

/// Replacing in leaves that are listed one after the other is replacing in
/// each list.
pub proof fn lemma_rewritten_concat(a: Seq<Seq<char>>, b: Seq<Seq<char>>, pairs: Pairs)
    ensures
        rewritten_leaves(a + b, pairs) == rewritten_leaves(a, pairs) + rewritten_leaves(b, pairs),
{
    assert(rewritten_leaves(a + b, pairs) =~= rewritten_leaves(a, pairs) + rewritten_leaves(
        b,
        pairs,
    ));
}

/// Joins texts.
pub fn join(parts: &Vec<String>) -> (text: String)
    ensures
        text@ == joined(texts_model(parts@)),
{
    let ghost model = texts_model(parts@);
    let mut text = String::new();
    let mut i: usize = 0;
    while i < parts.len()
        invariant
            i <= parts@.len(),
            model == texts_model(parts@),
            text@ == joined_among(model, i as nat),
        decreases parts@.len() - i,
    {
        assert(model[i as int] == parts@[i as int]@);
        text.append(parts[i].as_str());
        i = i + 1;
    }
    text
}

/// A part of a document tree that holds text.
pub trait TextTree: Sized {
    /// The text leaves, in document order.
    spec fn leaves(&self) -> Seq<Seq<char>>;

    /// Whether this value is `before` with the replacements made in every
    /// text leaf and nothing else changed.
    spec fn is_rewrite_of(&self, before: Self, pairs: Pairs) -> bool;

    /// Appends copies of the text leaves to a list.
    fn push_leaves(&self, out: &mut Vec<String>)
        ensures
            texts_model(final(out)@) == texts_model(old(out)@) + self.leaves(),
    ;

    /// Makes the replacements, one after the other, in every text leaf.
    /// Always succeeds.
    fn replace_text(&mut self, pairs: &[(&str, &str)]) -> (r: Result<(), DocxError>)
        ensures
            r is Ok,
            final(self).is_rewrite_of(*old(self), pairs_model(pairs@)),
    ;

    /// The text leaves of a rewritten value are the
    /// leaves of the value, each with the replacements made in it; none is
    /// split or merged.
    proof fn lemma_rewrite(after: Self, before: Self, pairs: Pairs)
        requires
            after.is_rewrite_of(before, pairs),
        ensures
            after.leaves() == rewritten_leaves(before.leaves(), pairs),
    ;

    /// The text leaves, in document order.
    fn iter_text(&self) -> (texts: Vec<String>)
        ensures
            texts_model(texts@) == self.leaves(),
    {
        let mut texts: Vec<String> = Vec::new();
        self.push_leaves(&mut texts);
        assert(texts_model(Seq::<String>::empty()) + self.leaves() =~= self.leaves());
        texts
    }

    /// The text: the text leaves joined, without any markup.
    fn text(&self) -> (text: String)
        ensures
            text@ == joined(self.leaves()),
    {
        join(&self.iter_text())
    }

    /// Replaces `pattern` by `replacement` in every text leaf.
    fn replace_text_simple(&mut self, pattern: &str, replacement: &str)
        ensures
            final(self).is_rewrite_of(*old(self), seq![(pattern@, replacement@)]),
    {
        let pairs = [(pattern, replacement)];
        assert(pairs_model(pairs@) =~= seq![(pattern@, replacement@)]);
        let _ = self.replace_text(&pairs);
    }
}

/// The text leaves of the first `count` values of a list, in order.
pub open spec fn leaves_among<T: TextTree>(values: Seq<T>, count: nat) -> Seq<Seq<char>>
    decreases count,
{
    if count == 0 || count > values.len() {
        Seq::empty()
    } else {
        leaves_among(values, (count - 1) as nat) + values[count - 1].leaves()
    }
}

/// The text leaves of the values of a list, in order.
pub open spec fn leaves_of<T: TextTree>(values: Seq<T>) -> Seq<Seq<char>> {
    leaves_among(values, values.len())
}

/// Whether the values `after` are the values `before`, one by one, with the
/// replacements made in every text leaf.
pub open spec fn all_rewritten<T: TextTree>(after: Seq<T>, before: Seq<T>, pairs: Pairs) -> bool {
    &&& after.len() == before.len()
    &&& forall|i: int| 0 <= i < after.len() ==> (#[trigger] after[i]).is_rewrite_of(before[i], pairs)
}

/// The text leaves of the first values do not depend on what follows them.
pub proof fn lemma_leaves_prefix<T: TextTree>(values: Seq<T>, more: Seq<T>, count: nat)
    requires
        count <= values.len(),
    ensures
        leaves_among(values + more, count) == leaves_among(values, count),
    decreases count,
{
    if count > 0 {
        lemma_leaves_prefix(values, more, (count - 1) as nat);
        assert((values + more)[count - 1] == values[count - 1]);
    }
}

/// One more value at the end adds its text leaves at the end.
pub proof fn lemma_leaves_push<T: TextTree>(values: Seq<T>, value: T)
    ensures
        leaves_of(values.push(value)) == leaves_of(values) + value.leaves(),
{
    assert(values.push(value) =~= values + seq![value]);
    lemma_leaves_prefix(values, seq![value], values.len());
}

/// Lists whose values have the same text leaves, one by one, have the same
/// text leaves.
pub proof fn lemma_leaves_pointwise<T: TextTree>(a: Seq<T>, b: Seq<T>, count: nat)
    requires
        a.len() == b.len(),
        count <= a.len(),
        forall|i: int| 0 <= i < a.len() ==> (#[trigger] a[i]).leaves() == b[i].leaves(),
    ensures
        leaves_among(a, count) == leaves_among(b, count),
    decreases count,
{
    if count > 0 {
        lemma_leaves_pointwise(a, b, (count - 1) as nat);
    }
}

/// The text leaves of the first of rewritten values are the rewritten
/// leaves of the first of the values.
pub proof fn lemma_rewrite_among<T: TextTree>(after: Seq<T>, before: Seq<T>, pairs: Pairs, count: nat)
    requires
        all_rewritten(after, before, pairs),
        count <= after.len(),
    ensures
        leaves_among(after, count) == rewritten_leaves(leaves_among(before, count), pairs),
    decreases count,
{
    if count > 0 {
        lemma_rewrite_among(after, before, pairs, (count - 1) as nat);
        T::lemma_rewrite(after[count - 1], before[count - 1], pairs);
        lemma_rewritten_concat(
            leaves_among(before, (count - 1) as nat),
            before[count - 1].leaves(),
            pairs,
        );
    } else {
        assert(rewritten_leaves(Seq::empty(), pairs) =~= Seq::<Seq<char>>::empty());
    }
}

/// Appends the text leaves of the values of a list, in order.
pub fn push_leaves_of<T: TextTree>(values: &Vec<T>, out: &mut Vec<String>)
    ensures
        texts_model(final(out)@) == texts_model(old(out)@) + leaves_of(values@),
{
    let ghost before = texts_model(out@);
    assert(before + Seq::<Seq<char>>::empty() =~= before);
    let mut i: usize = 0;
    while i < values.len()
        invariant
            i <= values@.len(),
            texts_model(out@) == before + leaves_among(values@, i as nat),
        decreases values@.len() - i,
    {
        values[i].push_leaves(out);
        assert(texts_model(out@) =~= before + leaves_among(values@, (i + 1) as nat));
        i = i + 1;
    }
}

/// Makes the replacements in every text leaf of the values of a list.
pub fn replace_in<T: TextTree>(values: &mut Vec<T>, pairs: &[(&str, &str)])
    ensures
        all_rewritten(final(values)@, old(values)@, pairs_model(pairs@)),
{
    let mut i: usize = 0;
    while i < values.len()
        invariant
            i <= values@.len(),
            values@.len() == old(values)@.len(),
            forall|k: int|
                0 <= k < i ==> (#[trigger] values@[k]).is_rewrite_of(
                    old(values)@[k],
                    pairs_model(pairs@),
                ),
            forall|k: int| i <= k < values@.len() ==> values@[k] == old(values)@[k],
        decreases values@.len() - i,
    {
        let _ = values[i].replace_text(pairs);
        i = i + 1;
    }
}

impl TextTree for RunContent {
    /// The text of a text piece; nothing for any other piece.
    open spec fn leaves(&self) -> Seq<Seq<char>> {
        match self {
            RunContent::Text(t) => seq![t.text@],
            _ => Seq::empty(),
        }
    }

    /// A text piece is rewritten, any other piece is the same.
    open spec fn is_rewrite_of(&self, before: RunContent, pairs: Pairs) -> bool {
        match before {
            RunContent::Text(t) => self matches RunContent::Text(n) && n.space == t.space && n.text@
                == replaced_by_all(t.text@, pairs),
            _ => *self == before,
        }
    }

    fn push_leaves(&self, out: &mut Vec<String>) {
        match self {
            RunContent::Text(t) => {
                out.push(t.text.clone());
                assert(texts_model(out@) =~= texts_model(old(out)@) + seq![t.text@]);
            },
            _ => {
                assert(texts_model(out@) + Seq::<Seq<char>>::empty() =~= texts_model(out@));
            },
        }
    }

    fn replace_text(&mut self, pairs: &[(&str, &str)]) -> (r: Result<(), DocxError>) {
        match self {
            RunContent::Text(t) => {
                t.text = replace_by_all(t.text.as_str(), pairs);
            },
            _ => {},
        }
        Ok(())
    }

    proof fn lemma_rewrite(after: RunContent, before: RunContent, pairs: Pairs) {
        assert(after.leaves() =~= rewritten_leaves(before.leaves(), pairs));
    }
}

impl TextTree for Run {
    open spec fn leaves(&self) -> Seq<Seq<char>> {
        leaves_of(self.content@)
    }

    open spec fn is_rewrite_of(&self, before: Run, pairs: Pairs) -> bool {
        all_rewritten(self.content@, before.content@, pairs)
    }

    fn push_leaves(&self, out: &mut Vec<String>) {
        push_leaves_of(&self.content, out);
    }

    fn replace_text(&mut self, pairs: &[(&str, &str)]) -> (r: Result<(), DocxError>) {
        replace_in(&mut self.content, pairs);
        Ok(())
    }

    proof fn lemma_rewrite(after: Run, before: Run, pairs: Pairs) {
        lemma_rewrite_among(after.content@, before.content@, pairs, before.content@.len());
    }
}

impl TextTree for BidirectionalEmbedding {
    open spec fn leaves(&self) -> Seq<Seq<char>> {
        leaves_of(self.content@)
    }

    open spec fn is_rewrite_of(&self, before: BidirectionalEmbedding, pairs: Pairs) -> bool {
        self.direction == before.direction && all_rewritten(self.content@, before.content@, pairs)
    }

    fn push_leaves(&self, out: &mut Vec<String>) {
        push_leaves_of(&self.content, out);
    }

    fn replace_text(&mut self, pairs: &[(&str, &str)]) -> (r: Result<(), DocxError>) {
        replace_in(&mut self.content, pairs);
        Ok(())
    }

    proof fn lemma_rewrite(
        after: BidirectionalEmbedding,
        before: BidirectionalEmbedding,
        pairs: Pairs,
    ) {
        lemma_rewrite_among(after.content@, before.content@, pairs, before.content@.len());
    }
}

/// The text leaves of runs embedded with a writing direction that may be
/// absent.
pub open spec fn embedded_leaves(embedding: Option<BidirectionalEmbedding>) -> Seq<Seq<char>> {
    match embedding {
        Some(b) => b.leaves(),
        None => Seq::empty(),
    }
}

impl TextTree for Hyperlink {
    /// The text leaves of the runs, then those of the embedded runs.
    open spec fn leaves(&self) -> Seq<Seq<char>> {
        leaves_of(self.content@) + embedded_leaves(self.bidirectional_embedding)
    }

    /// The same target, the same runs in the same order, each rewritten.
    open spec fn is_rewrite_of(&self, before: Hyperlink, pairs: Pairs) -> bool {
        &&& self.id == before.id
        &&& self.anchor == before.anchor
        &&& all_rewritten(self.content@, before.content@, pairs)
        &&& match (self.bidirectional_embedding, before.bidirectional_embedding) {
            (Some(a), Some(b)) => a.is_rewrite_of(b, pairs),
            (None, None) => true,
            _ => false,
        }
    }

    fn push_leaves(&self, out: &mut Vec<String>) {
        let ghost before = texts_model(out@);
        push_leaves_of(&self.content, out);
        let ghost so_far = texts_model(out@);
        match &self.bidirectional_embedding {
            Some(b) => {
                b.push_leaves(out);
            },
            None => {
                assert(so_far + Seq::<Seq<char>>::empty() =~= so_far);
            },
        }
        assert(texts_model(out@) =~= before + self.leaves());
    }

    fn replace_text(&mut self, pairs: &[(&str, &str)]) -> (r: Result<(), DocxError>) {
        replace_in(&mut self.content, pairs);
        match &mut self.bidirectional_embedding {
            Some(b) => {
                let _ = b.replace_text(pairs);
            },
            None => {},
        }
        Ok(())
    }

    proof fn lemma_rewrite(after: Hyperlink, before: Hyperlink, pairs: Pairs) {
        lemma_rewrite_among(after.content@, before.content@, pairs, before.content@.len());
        match (after.bidirectional_embedding, before.bidirectional_embedding) {
            (Some(a), Some(b)) => {
                BidirectionalEmbedding::lemma_rewrite(a, b, pairs);
            },
            _ => {
                assert(rewritten_leaves(Seq::empty(), pairs) =~= Seq::<Seq<char>>::empty());
            },
        }
        lemma_rewritten_concat(
            leaves_of(before.content@),
            embedded_leaves(before.bidirectional_embedding),
            pairs,
        );
    }
}

impl TextTree for ParagraphContent {
    open spec fn leaves(&self) -> Seq<Seq<char>> {
        match self {
            ParagraphContent::Run(r) => r.leaves(),
            ParagraphContent::Link(h) => h.leaves(),
            ParagraphContent::Bidi(b) => b.leaves(),
            ParagraphContent::Other(_) => Seq::empty(),
        }
    }

    /// Runs, hyperlinks and embedded runs are rewritten; content kept
    /// unread is the same.
    open spec fn is_rewrite_of(&self, before: ParagraphContent, pairs: Pairs) -> bool {
        match before {
            ParagraphContent::Run(b) => self matches ParagraphContent::Run(a) && a.is_rewrite_of(
                b,
                pairs,
            ),
            ParagraphContent::Link(b) => self matches ParagraphContent::Link(a) && a.is_rewrite_of(
                b,
                pairs,
            ),
            ParagraphContent::Bidi(b) => self matches ParagraphContent::Bidi(a) && a.is_rewrite_of(
                b,
                pairs,
            ),
            ParagraphContent::Other(_) => *self == before,
        }
    }

    fn push_leaves(&self, out: &mut Vec<String>) {
        match self {
            ParagraphContent::Run(r) => {
                r.push_leaves(out);
            },
            ParagraphContent::Link(h) => {
                h.push_leaves(out);
            },
            ParagraphContent::Bidi(b) => {
                b.push_leaves(out);
            },
            ParagraphContent::Other(_) => {
                assert(texts_model(out@) + Seq::<Seq<char>>::empty() =~= texts_model(out@));
            },
        }
    }

    fn replace_text(&mut self, pairs: &[(&str, &str)]) -> (r: Result<(), DocxError>) {
        match self {
            ParagraphContent::Run(r) => {
                let _ = r.replace_text(pairs);
            },
            ParagraphContent::Link(h) => {
                let _ = h.replace_text(pairs);
            },
            ParagraphContent::Bidi(b) => {
                let _ = b.replace_text(pairs);
            },
            ParagraphContent::Other(_) => {},
        }
        Ok(())
    }

    proof fn lemma_rewrite(after: ParagraphContent, before: ParagraphContent, pairs: Pairs) {
        match before {
            ParagraphContent::Run(r) => {
                Run::lemma_rewrite(after->Run_0, r, pairs);
            },
            ParagraphContent::Link(h) => {
                Hyperlink::lemma_rewrite(after->Link_0, h, pairs);
            },
            ParagraphContent::Bidi(b) => {
                BidirectionalEmbedding::lemma_rewrite(after->Bidi_0, b, pairs);
            },
            ParagraphContent::Other(_) => {
                assert(rewritten_leaves(Seq::empty(), pairs) =~= Seq::<Seq<char>>::empty());
            },
        }
    }
}

impl TextTree for Paragraph {
    open spec fn leaves(&self) -> Seq<Seq<char>> {
        leaves_of(self.content@)
    }

    open spec fn is_rewrite_of(&self, before: Paragraph, pairs: Pairs) -> bool {
        all_rewritten(self.content@, before.content@, pairs)
    }

    fn push_leaves(&self, out: &mut Vec<String>) {
        push_leaves_of(&self.content, out);
    }

    fn replace_text(&mut self, pairs: &[(&str, &str)]) -> (r: Result<(), DocxError>) {
        replace_in(&mut self.content, pairs);
        Ok(())
    }

    proof fn lemma_rewrite(after: Paragraph, before: Paragraph, pairs: Pairs) {
        lemma_rewrite_among(after.content@, before.content@, pairs, before.content@.len());
    }
}

impl TextTree for BodyContent {
    /// The text leaves of a paragraph; nothing for any other piece.
    open spec fn leaves(&self) -> Seq<Seq<char>> {
        match self {
            BodyContent::Paragraph(p) => p.leaves(),
            _ => Seq::empty(),
        }
    }

    /// A paragraph is rewritten, any other piece is the same.
    open spec fn is_rewrite_of(&self, before: BodyContent, pairs: Pairs) -> bool {
        match before {
            BodyContent::Paragraph(b) => self matches BodyContent::Paragraph(a) && a.is_rewrite_of(
                b,
                pairs,
            ),
            _ => *self == before,
        }
    }

    fn push_leaves(&self, out: &mut Vec<String>) {
        match self {
            BodyContent::Paragraph(p) => {
                p.push_leaves(out);
            },
            _ => {
                assert(texts_model(out@) + Seq::<Seq<char>>::empty() =~= texts_model(out@));
            },
        }
    }

    fn replace_text(&mut self, pairs: &[(&str, &str)]) -> (r: Result<(), DocxError>) {
        match self {
            BodyContent::Paragraph(p) => {
                let _ = p.replace_text(pairs);
            },
            _ => {},
        }
        Ok(())
    }

    proof fn lemma_rewrite(after: BodyContent, before: BodyContent, pairs: Pairs) {
        match before {
            BodyContent::Paragraph(p) => {
                Paragraph::lemma_rewrite(after->Paragraph_0, p, pairs);
            },
            _ => {
                assert(rewritten_leaves(Seq::empty(), pairs) =~= Seq::<Seq<char>>::empty());
            },
        }
    }
}

impl TextTree for Body {
    open spec fn leaves(&self) -> Seq<Seq<char>> {
        leaves_of(self.content@)
    }

    open spec fn is_rewrite_of(&self, before: Body, pairs: Pairs) -> bool {
        all_rewritten(self.content@, before.content@, pairs)
    }

    fn push_leaves(&self, out: &mut Vec<String>) {
        push_leaves_of(&self.content, out);
    }

    fn replace_text(&mut self, pairs: &[(&str, &str)]) -> (r: Result<(), DocxError>) {
        replace_in(&mut self.content, pairs);
        Ok(())
    }

    proof fn lemma_rewrite(after: Body, before: Body, pairs: Pairs) {
        lemma_rewrite_among(after.content@, before.content@, pairs, before.content@.len());
    }
}

impl TextTree for Document {
    open spec fn leaves(&self) -> Seq<Seq<char>> {
        self.body.leaves()
    }

    open spec fn is_rewrite_of(&self, before: Document, pairs: Pairs) -> bool {
        self.attributes == before.attributes && self.body.is_rewrite_of(before.body, pairs)
    }

    fn push_leaves(&self, out: &mut Vec<String>) {
        self.body.push_leaves(out);
    }

    fn replace_text(&mut self, pairs: &[(&str, &str)]) -> (r: Result<(), DocxError>) {
        self.body.replace_text(pairs)
    }

    proof fn lemma_rewrite(after: Document, before: Document, pairs: Pairs) {
        Body::lemma_rewrite(after.body, before.body, pairs);
    }
}

impl TextTree for Header {
    open spec fn leaves(&self) -> Seq<Seq<char>> {
        leaves_of(self.content@)
    }

    open spec fn is_rewrite_of(&self, before: Header, pairs: Pairs) -> bool {
        self.attributes == before.attributes && all_rewritten(self.content@, before.content@, pairs)
    }

    fn push_leaves(&self, out: &mut Vec<String>) {
        push_leaves_of(&self.content, out);
    }

    fn replace_text(&mut self, pairs: &[(&str, &str)]) -> (r: Result<(), DocxError>) {
        replace_in(&mut self.content, pairs);
        Ok(())
    }

    proof fn lemma_rewrite(after: Header, before: Header, pairs: Pairs) {
        lemma_rewrite_among(after.content@, before.content@, pairs, before.content@.len());
    }
}

impl TextTree for Footer {
    open spec fn leaves(&self) -> Seq<Seq<char>> {
        leaves_of(self.content@)
    }

    open spec fn is_rewrite_of(&self, before: Footer, pairs: Pairs) -> bool {
        self.attributes == before.attributes && all_rewritten(self.content@, before.content@, pairs)
    }

    fn push_leaves(&self, out: &mut Vec<String>) {
        push_leaves_of(&self.content, out);
    }

    fn replace_text(&mut self, pairs: &[(&str, &str)]) -> (r: Result<(), DocxError>) {
        replace_in(&mut self.content, pairs);
        Ok(())
    }

    proof fn lemma_rewrite(after: Footer, before: Footer, pairs: Pairs) {
        lemma_rewrite_among(after.content@, before.content@, pairs, before.content@.len());
    }
}

} // verus!
