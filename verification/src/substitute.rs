//! Replacing one text by another inside a text.
//!
//! Occurrences are found from the left and do not overlap. An empty
//! pattern occurs before every character and at the end.

use vstd::prelude::*;
use vstd::string::StringExecFns;
use crate::lexical::chars_of;

verus! {

/// Whether `pattern` stands in `text` at position `at`.
pub open spec fn occurs_at(text: Seq<char>, pattern: Seq<char>, at: int) -> bool {
    0 <= at && at + pattern.len() <= text.len() && text.subrange(at, at + pattern.len())
        == pattern
}

/// The part of `text` from position `at` on, with every occurrence of `old`
/// replaced by `new`.
pub open spec fn replaced_from(text: Seq<char>, old: Seq<char>, new: Seq<char>, at: int) -> Seq<
    char,
>
    decreases text.len() - at,
{
    if at < 0 || at >= text.len() {
        if old.len() == 0 {
            new
        } else {
            Seq::empty()
        }
    } else if old.len() == 0 {
        new + seq![text[at]] + replaced_from(text, old, new, at + 1)
    } else if occurs_at(text, old, at) {
        new + replaced_from(text, old, new, at + old.len())
    } else {
        seq![text[at]] + replaced_from(text, old, new, at + 1)
    }
}

/// `text` with every occurrence of `old` replaced by `new`.
pub open spec fn replaced(text: Seq<char>, old: Seq<char>, new: Seq<char>) -> Seq<char> {
    replaced_from(text, old, new, 0)
}

/// Pairs of texts as pairs of character sequences.
pub open spec fn pairs_model(pairs: Seq<(&str, &str)>) -> Seq<(Seq<char>, Seq<char>)> {
    Seq::new(pairs.len(), |i: int| (pairs[i].0@, pairs[i].1@))
}

/// `text` after the first `count` replacements of a list were made, one
/// after the other, each of them throughout.
pub open spec fn replaced_with(
    text: Seq<char>,
    pairs: Seq<(Seq<char>, Seq<char>)>,
    count: nat,
) -> Seq<char>
    decreases count,
{
    if count == 0 || count > pairs.len() {
        text
    } else {
        replaced(
            replaced_with(text, pairs, (count - 1) as nat),
            pairs[count - 1].0,
            pairs[count - 1].1,
        )
    }
}

/// `text` after all replacements of a list were made.
pub open spec fn replaced_by_all(text: Seq<char>, pairs: Seq<(Seq<char>, Seq<char>)>) -> Seq<
    char,
> {
    replaced_with(text, pairs, pairs.len())
}

/// Whether `pattern` stands in `text` at position `at`.
fn matches_at(text: &Vec<char>, pattern: &Vec<char>, at: usize) -> (found: bool)
    requires
        at <= text@.len(),
    ensures
        found == occurs_at(text@, pattern@, at as int),
{
    if pattern.len() > text.len() - at {
        return false;
    }
    let mut k: usize = 0;
    while k < pattern.len()
        invariant
            k <= pattern@.len(),
            at + pattern@.len() <= text@.len(),
            text@.len() <= usize::MAX,
            text@.subrange(at as int, at + k) == pattern@.subrange(0, k as int),
        decreases pattern@.len() - k,
    {
        if text[at + k] != pattern[k] {
            proof {
                assert(text@.subrange(at as int, at + pattern@.len())[k as int] == text@[at + k]);
            }
            return false;
        }
        proof {
            assert(text@.subrange(at as int, at + k + 1) =~= text@.subrange(at as int, at + k).push(
                text@[at + k],
            ));
            assert(pattern@.subrange(0, k + 1) =~= pattern@.subrange(0, k as int).push(
                pattern@[k as int],
            ));
        }
        k = k + 1;
    }
    proof {
        assert(pattern@.subrange(0, pattern@.len() as int) =~= pattern@);
    }
    true
}

/// Whether `text` begins with `prefix`.
pub open spec fn begins_with(text: Seq<char>, prefix: Seq<char>) -> bool {
    occurs_at(text, prefix, 0)
}

/// Whether `pattern` stands somewhere in `text`.
pub open spec fn includes(text: Seq<char>, pattern: Seq<char>) -> bool {
    exists|at: int| occurs_at(text, pattern, at)
}

/// Whether `text` begins with `prefix`.
pub fn starts_with(text: &str, prefix: &str) -> (found: bool)
    ensures
        found == begins_with(text@, prefix@),
{
    let chars = chars_of(text);
    let pattern = chars_of(prefix);
    matches_at(&chars, &pattern, 0)
}

/// Whether `pattern` stands somewhere in `text`.
pub fn contains(text: &str, pattern: &str) -> (found: bool)
    ensures
        found == includes(text@, pattern@),
{
    let chars = chars_of(text);
    let wanted = chars_of(pattern);
    let mut at: usize = 0;
    while at < chars.len()
        invariant
            at <= chars@.len(),
            chars@ == text@,
            wanted@ == pattern@,
            forall|k: int| 0 <= k < at ==> !occurs_at(text@, pattern@, k),
        decreases chars@.len() - at,
    {
        if matches_at(&chars, &wanted, at) {
            return true;
        }
        at = at + 1;
    }
    matches_at(&chars, &wanted, at)
}

/// Replaces every occurrence of `old` in `text` by `new`.
pub fn replace_all(text: &str, old: &str, new: &str) -> (result: String)
    ensures
        result@ == replaced(text@, old@, new@),
{
    let chars = chars_of(text);
    let pattern = chars_of(old);
    let mut result = String::new();
    let mut at: usize = 0;
    proof {
        assert(Seq::<char>::empty() + replaced_from(text@, old@, new@, 0) =~= replaced(
            text@,
            old@,
            new@,
        ));
    }
    while at < chars.len()
        invariant
            at <= chars@.len(),
            chars@ == text@,
            pattern@ == old@,
            result@ + replaced_from(text@, old@, new@, at as int) == replaced(text@, old@, new@),
        decreases chars@.len() - at,
    {
        let ghost before = result@;
        if pattern.len() == 0 {
            result.append(new);
            result.push(chars[at]);
            proof {
                assert(result@ + replaced_from(text@, old@, new@, at + 1) =~= before
                    + replaced_from(text@, old@, new@, at as int));
            }
            at = at + 1;
        } else if matches_at(&chars, &pattern, at) {
            result.append(new);
            proof {
                assert(result@ + replaced_from(text@, old@, new@, at + pattern@.len()) =~= before
                    + replaced_from(text@, old@, new@, at as int));
            }
            at = at + pattern.len();
        } else {
            result.push(chars[at]);
            proof {
                assert(result@ + replaced_from(text@, old@, new@, at + 1) =~= before
                    + replaced_from(text@, old@, new@, at as int));
            }
            at = at + 1;
        }
    }
    if pattern.len() == 0 {
        result.append(new);
    } else {
        proof {
            assert(result@ + Seq::<char>::empty() =~= result@);
        }
    }
    result
}

/// Makes the replacements of a list in a text, one after the other, each of
/// them throughout.
pub fn replace_by_all(text: &str, pairs: &[(&str, &str)]) -> (result: String)
    ensures
        result@ == replaced_by_all(text@, pairs_model(pairs@)),
{
    let ghost model = pairs_model(pairs@);
    let mut result = String::from_str(text);
    let mut i: usize = 0;
    while i < pairs.len()
        invariant
            i <= pairs@.len(),
            model == pairs_model(pairs@),
            result@ == replaced_with(text@, model, i as nat),
        decreases pairs@.len() - i,
    {
        let pair = &pairs[i];
        assert(model[i as int] == (pair.0@, pair.1@));
        result = replace_all(result.as_str(), pair.0, pair.1);
        i = i + 1;
    }
    result
}

} // verus!
