//! Write access to single text leaves, by their position in document
//! order.

use vstd::prelude::*;
use vstd::string::StringExecFns;
use crate::document::{BidirectionalEmbedding, Hyperlink, Run, RunContent};
use crate::text::{embedded_leaves, leaves_among, leaves_of, TextTree};

verus! {

/// A run has at most as many text leaves as pieces.
pub proof fn lemma_run_leaves_count(content: Seq<RunContent>, count: nat)
    requires
        count <= content.len(),
    ensures
        leaves_among(content, count).len() <= count,
    decreases count,
{
    if count > 0 {
        lemma_run_leaves_count(content, (count - 1) as nat);
    }
}

/// Where one piece of a run that holds text gets another text, the text
/// leaves of the first pieces change in that one place, if it is among
/// them.
pub proof fn lemma_run_leaves_update(
    before: Seq<RunContent>,
    after: Seq<RunContent>,
    at: int,
    count: nat,
)
    requires
        0 <= at < before.len(),
        after.len() == before.len(),
        before[at] is Text,
        after[at] is Text,
        forall|k: int| 0 <= k < before.len() && k != at ==> after[k] == before[k],
        count <= before.len(),
    ensures
        count <= at ==> leaves_among(after, count) == leaves_among(before, count),
        count > at ==> leaves_among(after, count) == leaves_among(before, count).update(
            leaves_among(before, at as nat).len() as int,
            after[at]->Text_0.text@,
        ),
        count > at ==> leaves_among(before, at as nat).len() < leaves_among(
            before,
            count,
        ).len(),
    decreases count,
{
    if count > 0 {
        lemma_run_leaves_update(before, after, at, (count - 1) as nat);
        if count - 1 == at {
            let so_far = leaves_among(before, at as nat);
            assert(leaves_among(after, count) =~= (so_far + before[at].leaves()).update(
                so_far.len() as int,
                after[at]->Text_0.text@,
            ));
        } else if count - 1 > at {
            let so_far = leaves_among(before, (count - 1) as nat);
            assert(leaves_among(after, count) =~= (so_far + before[count - 1].leaves()).update(
                leaves_among(before, at as nat).len() as int,
                after[at]->Text_0.text@,
            ));
        }
    }
}

/// Where one run of a list changes one of its text leaves, the text leaves
/// of the first runs change in that one place, if it is among them.
pub proof fn lemma_runs_leaves_update(
    before: Seq<Run>,
    after: Seq<Run>,
    at: int,
    inner: int,
    text: Seq<char>,
    count: nat,
)
    requires
        0 <= at < before.len(),
        after.len() == before.len(),
        0 <= inner < before[at].leaves().len(),
        after[at].leaves() == before[at].leaves().update(inner, text),
        forall|k: int| 0 <= k < before.len() && k != at ==> after[k] == before[k],
        count <= before.len(),
    ensures
        count <= at ==> leaves_among(after, count) == leaves_among(before, count),
        count > at ==> leaves_among(after, count) == leaves_among(before, count).update(
            leaves_among(before, at as nat).len() + inner,
            text,
        ),
        count > at ==> leaves_among(before, at as nat).len() + before[at].leaves().len()
            <= leaves_among(before, count).len(),
    decreases count,
{
    if count > 0 {
        lemma_runs_leaves_update(before, after, at, inner, text, (count - 1) as nat);
        if count - 1 == at {
            let so_far = leaves_among(before, at as nat);
            assert(leaves_among(after, count) =~= (so_far + before[at].leaves()).update(
                so_far.len() + inner,
                text,
            ));
        } else if count - 1 > at {
            let so_far = leaves_among(before, (count - 1) as nat);
            assert(leaves_among(after, count) =~= (so_far + before[count - 1].leaves()).update(
                leaves_among(before, at as nat).len() + inner,
                text,
            ));
        }
    }
}

impl Run {
    /// The number of text leaves of the run.
    pub fn leaf_count(&self) -> (count: usize)
        ensures
            count == self.leaves().len(),
    {
        let mut count: usize = 0;
        let mut i: usize = 0;
        while i < self.content.len()
            invariant
                i <= self.content@.len(),
                count == leaves_among(self.content@, i as nat).len(),
                count <= i,
            decreases self.content@.len() - i,
        {
            match &self.content[i] {
                RunContent::Text(_) => {
                    count = count + 1;
                },
                _ => {},
            }
            i = i + 1;
        }
        count
    }

    /// Gives the text leaf at a position, counted from zero in document
    /// order, another text. Says whether there is such a leaf; where there
    /// is none, nothing changes. Nothing but that one leaf changes.
    pub fn set_text_leaf(&mut self, index: usize, text: &str) -> (done: bool)
        ensures
            done == (index < old(self).leaves().len()),
            done ==> final(self).leaves() == old(self).leaves().update(index as int, text@),
            !done ==> *final(self) == *old(self),
            final(self).content@.len() == old(self).content@.len(),
    {
        let mut seen: usize = 0;
        let mut i: usize = 0;
        while i < self.content.len()
            invariant
                i <= self.content@.len(),
                *self == *old(self),
                seen == leaves_among(self.content@, i as nat).len(),
                seen <= i,
                seen <= index,
            decreases self.content@.len() - i,
        {
            let is_text = match &self.content[i] {
                RunContent::Text(_) => true,
                _ => false,
            };
            if is_text {
                if seen == index {
                    match &mut self.content[i] {
                        RunContent::Text(t) => {
                            t.text = String::from_str(text);
                        },
                        _ => {},
                    }
                    proof {
                        lemma_run_leaves_update(
                            old(self).content@,
                            self.content@,
                            i as int,
                            self.content@.len(),
                        );
                    }
                    return true;
                }
                seen = seen + 1;
            }
            i = i + 1;
        }
        false
    }
}

/// Gives the text leaf at a position among runs, counted from zero in
/// document order, another text. Says whether there is such a leaf, and
/// where there is none, by how far the position lies behind the last leaf;
/// nothing changes then. Nothing but that one leaf changes.
pub fn set_leaf_in_runs(runs: &mut Vec<Run>, index: usize, text: &str) -> (r: (bool, usize))
    ensures
        r.0 == (index < leaves_of(old(runs)@).len()),
        r.0 ==> leaves_of(final(runs)@) == leaves_of(old(runs)@).update(index as int, text@),
        !r.0 ==> *final(runs) == *old(runs) && r.1 + leaves_of(old(runs)@).len() == index,
        final(runs)@.len() == old(runs)@.len(),
{
    let mut rest: usize = index;
    let mut i: usize = 0;
    while i < runs.len()
        invariant
            i <= runs@.len(),
            *runs == *old(runs),
            rest + leaves_among(runs@, i as nat).len() == index,
        decreases runs@.len() - i,
    {
        let count = runs[i].leaf_count();
        if rest < count {
            let ghost before = runs@;
            let done = runs[i].set_text_leaf(rest, text);
            proof {
                lemma_runs_leaves_update(
                    before,
                    runs@,
                    i as int,
                    rest as int,
                    text@,
                    before.len(),
                );
            }
            return (true, 0);
        }
        rest = rest - count;
        i = i + 1;
    }
    (false, rest)
}

impl BidirectionalEmbedding {
    /// Gives the text leaf at a position, counted from zero in document
    /// order, another text. Says whether there is such a leaf; where there
    /// is none, nothing changes. Nothing but that one leaf changes.
    pub fn set_text_leaf(&mut self, index: usize, text: &str) -> (done: bool)
        ensures
            done == (index < old(self).leaves().len()),
            done ==> final(self).leaves() == old(self).leaves().update(index as int, text@),
            !done ==> *final(self) == *old(self),
            final(self).direction == old(self).direction,
            final(self).content@.len() == old(self).content@.len(),
    {
        let r = set_leaf_in_runs(&mut self.content, index, text);
        r.0
    }
}

impl Hyperlink {
    /// Gives the text leaf at a position, counted from zero in document
    /// order, another text: the leaves of the runs come first, then those
    /// of the embedded runs, as [`TextTree::leaves`] lists them. Says
    /// whether there is such a leaf; where there is none, nothing changes.
    /// Nothing but that one leaf changes.
    pub fn set_text_leaf(&mut self, index: usize, text: &str) -> (done: bool)
        ensures
            done == (index < old(self).leaves().len()),
            done ==> final(self).leaves() == old(self).leaves().update(index as int, text@),
            !done ==> *final(self) == *old(self),
            final(self).id == old(self).id,
            final(self).anchor == old(self).anchor,
            final(self).content@.len() == old(self).content@.len(),
            final(self).bidirectional_embedding is Some == old(self).bidirectional_embedding is Some,
    {
        let ghost runs = leaves_of(self.content@);
        let ghost embedded = embedded_leaves(self.bidirectional_embedding);
        let r = set_leaf_in_runs(&mut self.content, index, text);
        if r.0 {
            assert(self.leaves() =~= old(self).leaves().update(index as int, text@));
            return true;
        }
        match &mut self.bidirectional_embedding {
            Some(b) => {
                let done = b.set_text_leaf(r.1, text);
                proof {
                    if done {
                        assert(runs + embedded.update(r.1 as int, text@) =~= (runs
                            + embedded).update(index as int, text@));
                    }
                }
                done
            },
            None => false,
        }
    }
}

} // verus!
