//! Keeping the books of a package: the relationships of a part, where a
//! link is found or added under the next id that is not in use, and the
//! content types, where every part is given a type.

use vstd::prelude::*;
use vstd::string::StringExecFns;
use crate::content_type::{ContentTypes, DefaultContentType, OverrideContentType};
use crate::lexical::{chars_of, decimal_nat, push_decimal_u64, str_eq};
use crate::codec::{optional_text, trees, XmlCodec};
use crate::xml::{element, XmlTree};
use crate::rels::{Relationship, Relationships};
use crate::schema::{
    SCHEMA_COMMENTS, SCHEMA_CORE, SCHEMA_ENDNOTES, SCHEMA_FONT_TABLE, SCHEMA_FOOTER,
    SCHEMA_FOOTNOTES, SCHEMA_HEADER, SCHEMA_HYPERLINK, SCHEMA_IMAGE, SCHEMA_NUMBERING,
    SCHEMA_OFFICE_DOCUMENT, SCHEMA_REL_EXTENDED, SCHEMA_SETTINGS, SCHEMA_STYLES, SCHEMA_THEME,
    SCHEMA_WEB_SETTINGS,
};

verus! {

/// The id with the given number: `rId` and the number in decimal.
pub open spec fn numbered_id(number: nat) -> Seq<char> {
    "rId"@ + decimal_nat(number)
}

/// The length of the longest of the first `count` texts.
pub open spec fn longest_among(texts: Seq<Seq<char>>, count: nat) -> nat
    decreases count,
{
    if count == 0 || count > texts.len() {
        0
    } else {
        let before = longest_among(texts, (count - 1) as nat);
        if texts[count - 1].len() > before {
            texts[count - 1].len()
        } else {
            before
        }
    }
}

/// The given number of zeros.
pub open spec fn zeros(count: nat) -> Seq<char> {
    Seq::new(count, |i: int| '0')
}

/// An id longer than all of the given ones: `rId1` and zeros.
pub open spec fn long_id(ids: Seq<Seq<char>>) -> Seq<char> {
    "rId1"@ + zeros(longest_among(ids, ids.len()))
}

/// The number up to which numbered ids are tried: one more than there are
/// ids, so that one of the numbers is free.
pub open spec fn last_candidate(count: nat) -> nat {
    if count < u64::MAX {
        count + 1
    } else {
        count
    }
}

/// The first id numbered `number` or higher, up to `limit`, that is not
/// among `ids`; an id longer than all of them where there is none.
pub open spec fn next_id_from(ids: Seq<Seq<char>>, number: nat, limit: nat) -> Seq<char>
    decreases limit + 1 - number,
{
    if number > limit {
        long_id(ids)
    } else if !ids.contains(numbered_id(number)) {
        numbered_id(number)
    } else {
        next_id_from(ids, number + 1, limit)
    }
}

/// No text is longer than the longest.
pub proof fn lemma_longest_among(texts: Seq<Seq<char>>, count: nat, at: int)
    requires
        0 <= at < count <= texts.len(),
    ensures
        texts[at].len() <= longest_among(texts, count),
    decreases count,
{
    if at < count - 1 {
        lemma_longest_among(texts, (count - 1) as nat, at);
    }
}

/// The next id is not in use.
pub proof fn lemma_next_id_unused(ids: Seq<Seq<char>>, number: nat, limit: nat)
    ensures
        !ids.contains(next_id_from(ids, number, limit)),
    decreases limit + 1 - number,
{
    if number > limit {
        reveal_strlit("rId1");
        assert forall|i: int| 0 <= i < ids.len() implies ids[i] != long_id(ids) by {
            lemma_longest_among(ids, ids.len(), i);
            assert(long_id(ids).len() == 4 + longest_among(ids, ids.len()));
        }
    } else if ids.contains(numbered_id(number)) {
        lemma_next_id_unused(ids, number + 1, limit);
    }
}

/// The mathematical value of a relationship.
pub struct LinkModel {
    pub id: Seq<char>,
    pub ty: Seq<char>,
    pub target: Seq<char>,
    pub target_mode: Option<Seq<char>>,
}

/// The ids of links, in order.
pub open spec fn link_ids(links: Seq<LinkModel>) -> Seq<Seq<char>> {
    Seq::new(links.len(), |i: int| links[i].id)
}

/// Whether one of the links has the given type and target.
pub open spec fn is_linked(links: Seq<LinkModel>, ty: Seq<char>, target: Seq<char>) -> bool {
    exists|at: int| 0 <= at < links.len() && links[at].ty == ty && links[at].target == target
}

/// The links after a link of the given type to the given target was asked
/// for: as before where there is such a link, else with one more, under
/// the first of `rId1`, `rId2`, ... that is not in use.
pub open spec fn linked(links: Seq<LinkModel>, ty: Seq<char>, target: Seq<char>) -> Seq<
    LinkModel,
> {
    if is_linked(links, ty, target) {
        links
    } else {
        links.push(
            LinkModel {
                id: next_id_from(link_ids(links), 1, last_candidate(links.len())),
                ty,
                target,
                target_mode: None,
            },
        )
    }
}

/// The links after the first `count` of the wanted links were asked for,
/// one after the other.
pub open spec fn linked_all(
    links: Seq<LinkModel>,
    wanted: Seq<(Seq<char>, Seq<char>)>,
    count: nat,
) -> Seq<LinkModel>
    decreases count,
{
    if count == 0 || count > wanted.len() {
        links
    } else {
        linked(
            linked_all(links, wanted, (count - 1) as nat),
            wanted[count - 1].0,
            wanted[count - 1].1,
        )
    }
}

/// Pairs of texts as pairs of character sequences.
pub open spec fn wanted_model(wanted: Seq<(String, String)>) -> Seq<(Seq<char>, Seq<char>)> {
    Seq::new(wanted.len(), |i: int| (wanted[i].0@, wanted[i].1@))
}

/// Asking for a link keeps the links that are there and leaves the asked
/// one in place.
pub proof fn lemma_linked(links: Seq<LinkModel>, ty: Seq<char>, target: Seq<char>)
    ensures
        is_linked(linked(links, ty, target), ty, target),
        links.len() <= linked(links, ty, target).len(),
        forall|i: int| 0 <= i < links.len() ==> linked(links, ty, target)[i] == links[i],
        forall|t: Seq<char>, g: Seq<char>|
            is_linked(links, t, g) ==> #[trigger] is_linked(linked(links, ty, target), t, g),
{
    let after = linked(links, ty, target);
    if !is_linked(links, ty, target) {
        let last = after.len() - 1;
        assert(after[last].ty == ty && after[last].target == target);
        assert forall|t: Seq<char>, g: Seq<char>| is_linked(links, t, g) implies (
        #[trigger] is_linked(after, t, g)) by {
            let at = choose|at: int|
                0 <= at < links.len() && links[at].ty == t && links[at].target == g;
            assert(after[at] == links[at]);
        }
    }
}

/// After all wanted links were asked for, each of them is there, and so
/// is every link that was there before.
pub proof fn lemma_linked_all(
    links: Seq<LinkModel>,
    wanted: Seq<(Seq<char>, Seq<char>)>,
    count: nat,
)
    requires
        count <= wanted.len(),
    ensures
        forall|i: int|
            0 <= i < count ==> is_linked(
                linked_all(links, wanted, count),
                (#[trigger] wanted[i]).0,
                wanted[i].1,
            ),
        forall|t: Seq<char>, g: Seq<char>|
            is_linked(links, t, g) ==> #[trigger] is_linked(linked_all(links, wanted, count), t, g),
    decreases count,
{
    if count > 0 {
        lemma_linked_all(links, wanted, (count - 1) as nat);
        lemma_linked(
            linked_all(links, wanted, (count - 1) as nat),
            wanted[count - 1].0,
            wanted[count - 1].1,
        );
    }
}

impl Relationships {
    /// The relationships as mathematical values, in order.
    pub open spec fn links(&self) -> Seq<LinkModel> {
        Seq::new(
            self.relationships@.len(),
            |i: int|
                LinkModel {
                    id: self.relationships@[i].id@,
                    ty: self.relationships@[i].ty@,
                    target: self.relationships@[i].target@,
                    target_mode: optional_text(self.relationships@[i].target_mode),
                },
        )
    }

    /// The ids of the relationships, in order.
    pub open spec fn ids(&self) -> Seq<Seq<char>> {
        Seq::new(self.relationships@.len(), |i: int| self.relationships@[i].id@)
    }

    /// Whether no two relationships have the same id.
    pub open spec fn well_formed(&self) -> bool {
        forall|i: int, j: int|
            0 <= i < j < self.relationships@.len() ==> self.relationships@[i].id@
                != self.relationships@[j].id@
    }

    /// Whether the relationship at `at` has the given type and target.
    pub open spec fn links_at(&self, at: int, ty: Seq<char>, target: Seq<char>) -> bool {
        0 <= at < self.relationships@.len() && self.relationships@[at].ty@ == ty
            && self.relationships@[at].target@ == target
    }

    /// Whether there is a relationship of the given type to the given
    /// target.
    pub open spec fn has_link(&self, ty: Seq<char>, target: Seq<char>) -> bool {
        exists|at: int| self.links_at(at, ty, target)
    }

    /// The id that the next relationship gets: the first of `rId1`,
    /// `rId2`, ... that is not in use.
    pub open spec fn next_id(&self) -> Seq<char> {
        next_id_from(self.ids(), 1, last_candidate(self.ids().len()))
    }

    /// Whether a relationship has the given id.
    pub fn is_used(&self, id: &str) -> (used: bool)
        ensures
            used == self.ids().contains(id@),
    {
        let mut i: usize = 0;
        while i < self.relationships.len()
            invariant
                i <= self.relationships@.len(),
                forall|k: int| 0 <= k < i ==> self.ids()[k] != id@,
            decreases self.relationships@.len() - i,
        {
            if str_eq(self.relationships[i].id.as_str(), id) {
                assert(self.ids()[i as int] == id@);
                return true;
            }
            i = i + 1;
        }
        false
    }

    /// The position of the first relationship of the given type to the
    /// given target.
    pub fn find(&self, ty: &str, target: &str) -> (found: Option<usize>)
        ensures
            found is Some <==> self.has_link(ty@, target@),
            found matches Some(at) ==> self.links_at(at as int, ty@, target@) && forall|k: int|
                0 <= k < at ==> !self.links_at(k, ty@, target@),
    {
        let mut i: usize = 0;
        while i < self.relationships.len()
            invariant
                i <= self.relationships@.len(),
                forall|k: int| 0 <= k < i ==> !self.links_at(k, ty@, target@),
            decreases self.relationships@.len() - i,
        {
            let r = &self.relationships[i];
            if str_eq(r.ty.as_str(), ty) && str_eq(r.target.as_str(), target) {
                assert(self.links_at(i as int, ty@, target@));
                return Some(i);
            }
            i = i + 1;
        }
        None
    }

    /// Makes the id that the next relationship gets.
    pub fn next_unused_id(&self) -> (id: String)
        ensures
            id@ == self.next_id(),
            !self.ids().contains(id@),
    {
        let ghost ids = self.ids();
        let ghost limit = last_candidate(ids.len());
        proof {
            lemma_next_id_unused(ids, 1, limit);
        }
        let count: u64 = self.relationships.len() as u64;
        let last: u64 = if count < u64::MAX {
            count + 1
        } else {
            count
        };
        let mut number: u128 = 1;
        while number <= last as u128
            invariant
                1 <= number <= last + 1,
                ids == self.ids(),
                limit == last,
                limit == last_candidate(ids.len()),
                next_id_from(ids, 1, limit) == next_id_from(ids, number as nat, limit),
            decreases last + 1 - number,
        {
            let mut id = String::from_str("rId");
            push_decimal_u64(&mut id, number as u64);
            if !self.is_used(id.as_str()) {
                proof {
                    lemma_next_id_unused(ids, 1, limit);
                }
                return id;
            }
            number = number + 1;
        }
        let mut longest: usize = 0;
        let mut i: usize = 0;
        while i < self.relationships.len()
            invariant
                i <= self.relationships@.len(),
                ids == self.ids(),
                longest == longest_among(ids, i as nat),
            decreases self.relationships@.len() - i,
        {
            let length = self.relationships[i].id.as_str().unicode_len();
            assert(ids[i as int] == self.relationships@[i as int].id@);
            if length > longest {
                longest = length;
            }
            i = i + 1;
        }
        let mut id = String::from_str("rId1");
        proof {
            assert("rId1"@ + zeros(0) =~= "rId1"@);
        }
        let mut k: usize = 0;
        while k < longest
            invariant
                k <= longest,
                id@ == "rId1"@ + zeros(k as nat),
            decreases longest - k,
        {
            id.push('0');
            assert(id@ =~= "rId1"@ + zeros((k + 1) as nat));
            k = k + 1;
        }
        proof {
            lemma_next_id_unused(ids, 1, limit);
        }
        id
    }

    /// Adds a relationship of the given type to the given target under the
    /// next id that is not in use, whether or not there is such a link
    /// already, and returns the id.
    pub fn append_rel(&mut self, ty: &str, target: &str) -> (id: String)
        ensures
            id@ == old(self).next_id(),
            final(self).relationships@.len() == old(self).relationships@.len() + 1,
            final(self).relationships@.drop_last() == old(self).relationships@,
            final(self).relationships@.last().id@ == id@,
            final(self).relationships@.last().ty@ == ty@,
            final(self).relationships@.last().target@ == target@,
            final(self).relationships@.last().target_mode is None,
            old(self).well_formed() ==> final(self).well_formed(),
            final(self).has_link(ty@, target@),
    {
        let id = self.next_unused_id();
        let ghost old_ids = self.ids();
        self.relationships.push(
            Relationship {
                id: id.clone(),
                ty: String::from_str(ty),
                target: String::from_str(target),
                target_mode: None,
            },
        );
        proof {
            assert(self.relationships@.drop_last() =~= old(self).relationships@);
            let last = self.relationships@.len() - 1;
            assert(self.links_at(last, ty@, target@));
            if old(self).well_formed() {
                assert forall|i: int, j: int|
                    0 <= i < j < self.relationships@.len() implies self.relationships@[i].id@
                    != self.relationships@[j].id@ by {
                    if j == last {
                        assert(old_ids[i] == self.relationships@[i].id@);
                    }
                }
            }
        }
        id
    }

    /// Makes sure that there is a relationship of the given type to the
    /// given target: where there is one, nothing changes; where there is
    /// none, one is added under the next id that is not in use.
    pub fn add_rel(&mut self, ty: &str, target: &str)
        ensures
            old(self).has_link(ty@, target@) ==> *final(self) == *old(self),
            !old(self).has_link(ty@, target@) ==> {
                &&& final(self).relationships@.len() == old(self).relationships@.len() + 1
                &&& final(self).relationships@.drop_last() == old(self).relationships@
                &&& final(self).relationships@.last().id@ == old(self).next_id()
                &&& final(self).relationships@.last().ty@ == ty@
                &&& final(self).relationships@.last().target@ == target@
                &&& final(self).relationships@.last().target_mode is None
            },
            old(self).well_formed() ==> final(self).well_formed(),
            final(self).has_link(ty@, target@),
            forall|t: Seq<char>, g: Seq<char>|
                old(self).has_link(t, g) ==> #[trigger] final(self).has_link(t, g),
            final(self).links() == linked(old(self).links(), ty@, target@),
    {
        proof {
            assert(link_ids(self.links()) =~= self.ids());
            if self.has_link(ty@, target@) {
                let at = choose|at: int| self.links_at(at, ty@, target@);
                assert(self.links()[at].ty == ty@ && self.links()[at].target == target@);
            }
            if is_linked(self.links(), ty@, target@) {
                let at = choose|at: int|
                    0 <= at < self.links().len() && self.links()[at].ty == ty@
                        && self.links()[at].target == target@;
                assert(self.links_at(at, ty@, target@));
            }
        }
        if self.find(ty, target).is_none() {
            let _ = self.append_rel(ty, target);
            proof {
                assert(self.links() =~= linked(old(self).links(), ty@, target@)) by {
                    assert forall|i: int| 0 <= i < old(self).links().len() implies self.links()[i]
                        == old(self).links()[i] by {
                        assert(self.relationships@[i] == self.relationships@.drop_last()[i]);
                    }
                }
                assert forall|t: Seq<char>, g: Seq<char>| old(self).has_link(t, g) implies (
                #[trigger] self.has_link(t, g)) by {
                    let at = choose|at: int| old(self).links_at(at, t, g);
                    assert(self.relationships@[at] == self.relationships@.drop_last()[at]);
                    assert(self.links_at(at, t, g));
                }
            }
        }
    }
}

/// The file extension of the part of a path before position `at`: what
/// follows the last dot, nothing where there is no dot.
pub open spec fn extension_before(path: Seq<char>, at: int) -> Seq<char>
    decreases at,
{
    if at <= 0 || at > path.len() {
        Seq::empty()
    } else if path[at - 1] == '.' {
        path.subrange(at, path.len() as int)
    } else {
        extension_before(path, at - 1)
    }
}

/// The file extension of a path: what follows its last dot, nothing where
/// it has no dot.
pub open spec fn extension(path: Seq<char>) -> Seq<char> {
    extension_before(path, path.len() as int)
}

/// The name that an override gives to the part at a path: the path with a
/// slash in front.
pub open spec fn part_name(path: Seq<char>) -> Seq<char> {
    seq!['/'] + path
}

/// The content type that the first of the first `count` overrides gives to
/// the part named `name`.
pub open spec fn override_among(
    overrides: Seq<OverrideContentType>,
    name: Seq<char>,
    count: nat,
) -> Option<Seq<char>>
    decreases count,
{
    if count == 0 || count > overrides.len() {
        None
    } else {
        match override_among(overrides, name, (count - 1) as nat) {
            Some(ty) => Some(ty),
            None => if overrides[count - 1].part@ == name {
                Some(overrides[count - 1].ty@)
            } else {
                None
            },
        }
    }
}

/// The content type that the first of the first `count` defaults gives to
/// parts with the extension `ext`.
pub open spec fn default_among(defaults: Seq<DefaultContentType>, ext: Seq<char>, count: nat)
    -> Option<Seq<char>>
    decreases count,
{
    if count == 0 || count > defaults.len() {
        None
    } else {
        match default_among(defaults, ext, (count - 1) as nat) {
            Some(ty) => Some(ty),
            None => if defaults[count - 1].ext@ == ext {
                Some(defaults[count - 1].ty@)
            } else {
                None
            },
        }
    }
}

/// An override that is found among the first ones is found among more of
/// them.
pub proof fn lemma_override_found(
    overrides: Seq<OverrideContentType>,
    name: Seq<char>,
    count: nat,
    more: nat,
)
    requires
        count <= more <= overrides.len(),
        override_among(overrides, name, count) is Some,
    ensures
        override_among(overrides, name, more) == override_among(overrides, name, count),
    decreases more,
{
    if more > count {
        lemma_override_found(overrides, name, count, (more - 1) as nat);
    }
}

/// A default that is found among the first ones is found among more of
/// them.
pub proof fn lemma_default_found(
    defaults: Seq<DefaultContentType>,
    ext: Seq<char>,
    count: nat,
    more: nat,
)
    requires
        count <= more <= defaults.len(),
        default_among(defaults, ext, count) is Some,
    ensures
        default_among(defaults, ext, more) == default_among(defaults, ext, count),
    decreases more,
{
    if more > count {
        lemma_default_found(defaults, ext, count, (more - 1) as nat);
    }
}

/// What the first overrides give does not depend on what follows them.
pub proof fn lemma_override_prefix(
    overrides: Seq<OverrideContentType>,
    more: Seq<OverrideContentType>,
    name: Seq<char>,
    count: nat,
)
    requires
        count <= overrides.len(),
    ensures
        override_among(overrides + more, name, count) == override_among(overrides, name, count),
    decreases count,
{
    if count > 0 {
        lemma_override_prefix(overrides, more, name, (count - 1) as nat);
        assert((overrides + more)[count - 1] == overrides[count - 1]);
    }
}

/// What the first defaults give does not depend on what follows them.
pub proof fn lemma_default_prefix(
    defaults: Seq<DefaultContentType>,
    more: Seq<DefaultContentType>,
    ext: Seq<char>,
    count: nat,
)
    requires
        count <= defaults.len(),
    ensures
        default_among(defaults + more, ext, count) == default_among(defaults, ext, count),
    decreases count,
{
    if count > 0 {
        lemma_default_prefix(defaults, more, ext, (count - 1) as nat);
        assert((defaults + more)[count - 1] == defaults[count - 1]);
    }
}

/// An override names a part exactly where a content type is found for it
/// among the overrides.
pub proof fn lemma_override_among(overrides: Seq<OverrideContentType>, name: Seq<char>, count: nat)
    requires
        count <= overrides.len(),
    ensures
        override_among(overrides, name, count) is Some <==> exists|at: int|
            0 <= at < count && overrides[at].part@ == name,
    decreases count,
{
    if count > 0 {
        lemma_override_among(overrides, name, (count - 1) as nat);
        if override_among(overrides, name, count) is Some {
            if override_among(overrides, name, (count - 1) as nat) is Some {
                let at = choose|at: int| 0 <= at < count - 1 && overrides[at].part@ == name;
                assert(0 <= at < count && overrides[at].part@ == name);
            } else {
                assert(overrides[count - 1].part@ == name);
            }
        }
    }
}

/// A default names a file extension exactly where a content type is found
/// for it among the defaults.
pub proof fn lemma_default_among(defaults: Seq<DefaultContentType>, ext: Seq<char>, count: nat)
    requires
        count <= defaults.len(),
    ensures
        default_among(defaults, ext, count) is Some <==> exists|at: int|
            0 <= at < count && defaults[at].ext@ == ext,
    decreases count,
{
    if count > 0 {
        lemma_default_among(defaults, ext, (count - 1) as nat);
        if default_among(defaults, ext, count) is Some {
            if default_among(defaults, ext, (count - 1) as nat) is Some {
                let at = choose|at: int| 0 <= at < count - 1 && defaults[at].ext@ == ext;
                assert(0 <= at < count && defaults[at].ext@ == ext);
            } else {
                assert(defaults[count - 1].ext@ == ext);
            }
        }
    }
}

/// The file extension of a path.
pub fn extension_of(path: &str) -> (ext: String)
    ensures
        ext@ == extension(path@),
{
    let chars = chars_of(path);
    let mut at: usize = chars.len();
    while at > 0
        invariant
            at <= chars@.len(),
            chars@ == path@,
            extension(path@) == extension_before(path@, at as int),
        decreases at,
    {
        if chars[at - 1] == '.' {
            let mut ext = String::new();
            let mut k: usize = at;
            while k < chars.len()
                invariant
                    at <= k <= chars@.len(),
                    ext@ == chars@.subrange(at as int, k as int),
                decreases chars@.len() - k,
            {
                ext.push(chars[k]);
                assert(chars@.subrange(at as int, k + 1) =~= chars@.subrange(at as int, k as int).push(
                    chars@[k as int],
                ));
                k = k + 1;
            }
            return ext;
        }
        at = at - 1;
    }
    String::new()
}

impl ContentTypes {
    /// The content type that an override gives to the part at a path.
    pub open spec fn overridden(&self, path: Seq<char>) -> Option<Seq<char>> {
        override_among(self.overrides@, part_name(path), self.overrides@.len())
    }

    /// The content type that a default gives to the part at a path, by its
    /// file extension.
    pub open spec fn defaulted(&self, path: Seq<char>) -> Option<Seq<char>> {
        default_among(self.defaults@, extension(path), self.defaults@.len())
    }

    /// The content type of the part at a path: that of the first override
    /// for the path, else that of the first default for its extension.
    pub open spec fn resolve(&self, path: Seq<char>) -> Option<Seq<char>> {
        match self.overridden(path) {
            Some(ty) => Some(ty),
            None => self.defaulted(path),
        }
    }

    /// Whether no two overrides name one part and no two defaults one file
    /// extension: a part then has at most one entry of either kind.
    pub open spec fn well_formed(&self) -> bool {
        &&& forall|i: int, j: int|
            0 <= i < j < self.overrides@.len() ==> (#[trigger] self.overrides@[i]).part@ != (
            #[trigger] self.overrides@[j]).part@
        &&& forall|i: int, j: int|
            0 <= i < j < self.defaults@.len() ==> (#[trigger] self.defaults@[i]).ext@ != (
            #[trigger] self.defaults@[j]).ext@
    }

    /// Finds the content type of the part at a path.
    pub fn content_type_of(&self, path: &str) -> (found: Option<String>)
        ensures
            match found {
                Some(ty) => self.resolve(path@) == Some(ty@),
                None => self.resolve(path@) is None,
            },
    {
        proof {
            reveal_strlit("/");
            assert("/"@ + path@ =~= part_name(path@));
        }
        let name = String::from_str("/").concat(path);
        let mut i: usize = 0;
        while i < self.overrides.len()
            invariant
                i <= self.overrides@.len(),
                name@ == part_name(path@),
                override_among(self.overrides@, name@, i as nat) is None,
            decreases self.overrides@.len() - i,
        {
            let entry = &self.overrides[i];
            if str_eq(entry.part.as_str(), name.as_str()) {
                proof {
                    lemma_override_found(
                        self.overrides@,
                        name@,
                        (i + 1) as nat,
                        self.overrides@.len(),
                    );
                }
                return Some(entry.ty.clone());
            }
            i = i + 1;
        }
        let ext = extension_of(path);
        let mut j: usize = 0;
        while j < self.defaults.len()
            invariant
                j <= self.defaults@.len(),
                ext@ == extension(path@),
                self.overridden(path@) is None,
                default_among(self.defaults@, ext@, j as nat) is None,
            decreases self.defaults@.len() - j,
        {
            let entry = &self.defaults[j];
            if str_eq(entry.ext.as_str(), ext.as_str()) {
                proof {
                    lemma_default_found(self.defaults@, ext@, (j + 1) as nat, self.defaults@.len());
                }
                return Some(entry.ty.clone());
            }
            j = j + 1;
        }
        None
    }

    /// Makes sure that the part at a path has a content type of its own:
    /// where an override names the path, nothing changes; where none does,
    /// one is added with the given type. What other parts resolve to stays
    /// as it is.
    pub fn ensure_override(&mut self, path: &str, ty: &str)
        ensures
            old(self).overridden(path@) is Some ==> *final(self) == *old(self),
            old(self).overridden(path@) is None ==> {
                &&& final(self).defaults == old(self).defaults
                &&& final(self).overrides@.len() == old(self).overrides@.len() + 1
                &&& final(self).overrides@.drop_last() == old(self).overrides@
                &&& final(self).overrides@.last().part@ == part_name(path@)
                &&& final(self).overrides@.last().ty@ == ty@
                &&& final(self).resolve(path@) == Some(ty@)
            },
            final(self).resolve(path@) is Some,
            forall|p: Seq<char>| p != path@ ==> #[trigger] final(self).resolve(p) == old(self).resolve(p),
            forall|p: Seq<char>|
                old(self).resolve(p) is Some ==> #[trigger] final(self).resolve(p) is Some,
            old(self).well_formed() ==> final(self).well_formed(),
    {
        proof {
            reveal_strlit("/");
            assert("/"@ + path@ =~= part_name(path@));
        }
        let name = String::from_str("/").concat(path);
        let mut i: usize = 0;
        while i < self.overrides.len()
            invariant
                i <= self.overrides@.len(),
                *self == *old(self),
                name@ == part_name(path@),
                override_among(self.overrides@, name@, i as nat) is None,
            decreases self.overrides@.len() - i,
        {
            if str_eq(self.overrides[i].part.as_str(), name.as_str()) {
                proof {
                    lemma_override_found(
                        self.overrides@,
                        name@,
                        (i + 1) as nat,
                        self.overrides@.len(),
                    );
                }
                return ;
            }
            i = i + 1;
        }
        let entry = OverrideContentType { part: name, ty: String::from_str(ty) };
        self.overrides.push(entry);
        proof {
            let before = old(self).overrides@;
            assert(self.overrides@ =~= before + seq![entry]);
            assert(self.overrides@.drop_last() =~= before);
            lemma_override_prefix(before, seq![entry], part_name(path@), before.len());
            lemma_override_among(before, part_name(path@), before.len());
            assert forall|p: Seq<char>| p != path@ implies (#[trigger] self.resolve(p)) == old(
                self,
            ).resolve(p) by {
                lemma_override_prefix(before, seq![entry], part_name(p), before.len());
                assert(part_name(p).subrange(1, part_name(p).len() as int) =~= p);
                assert(part_name(path@).subrange(1, part_name(path@).len() as int) =~= path@);
            }
            assert forall|p: Seq<char>| old(self).resolve(p) is Some implies (
            #[trigger] self.resolve(p)) is Some by {
                lemma_override_prefix(before, seq![entry], part_name(p), before.len());
            }
        }
    }

    /// Makes sure that parts with a file extension have a content type:
    /// where a default names the extension, nothing changes; where none
    /// does, one is added with the given type. What resolved before
    /// resolves to the same.
    pub fn ensure_default(&mut self, ext: &str, ty: &str)
        ensures
            default_among(old(self).defaults@, ext@, old(self).defaults@.len()) is Some ==> *final(self)
                == *old(self),
            default_among(old(self).defaults@, ext@, old(self).defaults@.len()) is None ==> {
                &&& final(self).overrides == old(self).overrides
                &&& final(self).defaults@.len() == old(self).defaults@.len() + 1
                &&& final(self).defaults@.drop_last() == old(self).defaults@
                &&& final(self).defaults@.last().ext@ == ext@
                &&& final(self).defaults@.last().ty@ == ty@
            },
            old(self).well_formed() ==> final(self).well_formed(),
            final(self).overrides == old(self).overrides,
            defaults_model(final(self).defaults@) == with_default(
                defaults_model(old(self).defaults@),
                ext@,
                ty@,
            ),
            forall|p: Seq<char>| extension(p) == ext@ ==> #[trigger] final(self).resolve(p) is Some,
            forall|p: Seq<char>|
                old(self).resolve(p) is Some ==> #[trigger] final(self).resolve(p) == old(self).resolve(p),
    {
        let mut i: usize = 0;
        while i < self.defaults.len()
            invariant
                i <= self.defaults@.len(),
                *self == *old(self),
                default_among(self.defaults@, ext@, i as nat) is None,
            decreases self.defaults@.len() - i,
        {
            if str_eq(self.defaults[i].ext.as_str(), ext) {
                proof {
                    lemma_default_found(self.defaults@, ext@, (i + 1) as nat, self.defaults@.len());
                    assert(defaults_model(self.defaults@)[i as int].0 == ext@);
                }
                return ;
            }
            i = i + 1;
        }
        proof {
            lemma_default_among(self.defaults@, ext@, self.defaults@.len());
            if is_defaulted(defaults_model(self.defaults@), ext@) {
                let at = choose|at: int|
                    0 <= at < self.defaults@.len() && defaults_model(self.defaults@)[at].0 == ext@;
                assert(self.defaults@[at].ext@ == ext@);
            }
        }
        let entry = DefaultContentType { ext: String::from_str(ext), ty: String::from_str(ty) };
        self.defaults.push(entry);
        proof {
            let before = old(self).defaults@;
            assert(self.defaults@ =~= before + seq![entry]);
            assert(self.defaults@.drop_last() =~= before);
            assert(defaults_model(self.defaults@) =~= defaults_model(before).push((ext@, ty@)));
            lemma_default_prefix(before, seq![entry], ext@, before.len());
            lemma_default_among(before, ext@, before.len());
            assert forall|p: Seq<char>| old(self).resolve(p) is Some implies (
            #[trigger] self.resolve(p)) == old(self).resolve(p) by {
                lemma_default_prefix(before, seq![entry], extension(p), before.len());
            }
        }
    }
}

/// The defaults as pairs of file extension and content type, in order.
pub open spec fn defaults_model(defaults: Seq<DefaultContentType>) -> Seq<(Seq<char>, Seq<char>)> {
    Seq::new(defaults.len(), |i: int| (defaults[i].ext@, defaults[i].ty@))
}

/// Whether one of the defaults names the file extension.
pub open spec fn is_defaulted(defaults: Seq<(Seq<char>, Seq<char>)>, ext: Seq<char>) -> bool {
    exists|at: int| 0 <= at < defaults.len() && defaults[at].0 == ext
}

/// The defaults after a content type was asked for a file extension: as
/// before where a default names the extension, else with one more.
pub open spec fn with_default(
    defaults: Seq<(Seq<char>, Seq<char>)>,
    ext: Seq<char>,
    ty: Seq<char>,
) -> Seq<(Seq<char>, Seq<char>)> {
    if is_defaulted(defaults, ext) {
        defaults
    } else {
        defaults.push((ext, ty))
    }
}

/// The overrides as pairs of part name and content type, in order.
pub open spec fn overrides_model(overrides: Seq<OverrideContentType>) -> Seq<
    (Seq<char>, Seq<char>),
> {
    Seq::new(overrides.len(), |i: int| (overrides[i].part@, overrides[i].ty@))
}

/// Whether one of the overrides names the part.
pub open spec fn is_overridden(overrides: Seq<(Seq<char>, Seq<char>)>, name: Seq<char>) -> bool {
    exists|at: int| 0 <= at < overrides.len() && overrides[at].0 == name
}

/// The overrides after a content type was asked for the part at a path: as
/// before where an override names the part, else with one more.
pub open spec fn with_override(
    overrides: Seq<(Seq<char>, Seq<char>)>,
    path: Seq<char>,
    ty: Seq<char>,
) -> Seq<(Seq<char>, Seq<char>)> {
    if is_overridden(overrides, part_name(path)) {
        overrides
    } else {
        overrides.push((part_name(path), ty))
    }
}

/// The overrides after content types were asked for the first `count` of
/// the given parts, one after the other.
pub open spec fn with_overrides(
    overrides: Seq<(Seq<char>, Seq<char>)>,
    typed: Seq<(Seq<char>, Seq<char>)>,
    count: nat,
) -> Seq<(Seq<char>, Seq<char>)>
    decreases count,
{
    if count == 0 || count > typed.len() {
        overrides
    } else {
        with_override(
            with_overrides(overrides, typed, (count - 1) as nat),
            typed[count - 1].0,
            typed[count - 1].1,
        )
    }
}

impl ContentTypes {
    /// Makes sure that each of the given parts, a path with a content type,
    /// has a content type of its own, one after the other. Afterwards every
    /// one of them resolves, and so does whatever resolved before.
    pub fn ensure_overrides(&mut self, typed: &Vec<(String, String)>)
        ensures
            final(self).defaults == old(self).defaults,
            overrides_model(final(self).overrides@) == with_overrides(
                overrides_model(old(self).overrides@),
                wanted_model(typed@),
                typed@.len(),
            ),
            forall|i: int|
                0 <= i < typed@.len() ==> final(self).resolve((#[trigger] typed@[i]).0@) is Some,
            forall|p: Seq<char>|
                old(self).resolve(p) is Some ==> #[trigger] final(self).resolve(p) is Some,
            old(self).well_formed() ==> final(self).well_formed(),
    {
        let ghost model = wanted_model(typed@);
        let mut i: usize = 0;
        while i < typed.len()
            invariant
                i <= typed@.len(),
                model == wanted_model(typed@),
                self.defaults == old(self).defaults,
                overrides_model(self.overrides@) == with_overrides(
                    overrides_model(old(self).overrides@),
                    model,
                    i as nat,
                ),
                forall|k: int| 0 <= k < i ==> self.resolve((#[trigger] typed@[k]).0@) is Some,
                forall|p: Seq<char>|
                    old(self).resolve(p) is Some ==> #[trigger] self.resolve(p) is Some,
                old(self).well_formed() ==> self.well_formed(),
            decreases typed@.len() - i,
        {
            let pair = &typed[i];
            let ghost before = *self;
            assert(model[i as int] == (pair.0@, pair.1@));
            proof {
                lemma_override_among(
                    self.overrides@,
                    part_name(pair.0@),
                    self.overrides@.len(),
                );
                if is_overridden(overrides_model(self.overrides@), part_name(pair.0@)) {
                    let at = choose|at: int|
                        0 <= at < self.overrides@.len() && overrides_model(self.overrides@)[at].0
                            == part_name(pair.0@);
                    assert(self.overrides@[at].part@ == part_name(pair.0@));
                }
                if self.overridden(pair.0@) is Some {
                    let at = choose|at: int|
                        0 <= at < self.overrides@.len() && self.overrides@[at].part@ == part_name(
                            pair.0@,
                        );
                    assert(overrides_model(self.overrides@)[at].0 == part_name(pair.0@));
                }
            }
            self.ensure_override(pair.0.as_str(), pair.1.as_str());
            proof {
                if before.overridden(pair.0@) is None {
                    assert(overrides_model(self.overrides@) =~= overrides_model(
                        before.overrides@,
                    ).push((part_name(pair.0@), pair.1@))) by {
                        assert forall|k: int| 0 <= k < before.overrides@.len() implies self.overrides@[k]
                            == before.overrides@[k] by {
                            assert(self.overrides@[k] == self.overrides@.drop_last()[k]);
                        }
                    }
                }
                assert forall|k: int| 0 <= k < i + 1 implies self.resolve(
                    (#[trigger] typed@[k]).0@,
                ) is Some by {
                    if k < i {
                        assert(before.resolve(typed@[k].0@) is Some);
                    }
                }
            }
            i = i + 1;
        }
    }
}

/// The parts whose relationships are kept: the package and the main
/// document.
#[derive(Debug, Clone, Copy, PartialEq, Eq)]
pub enum Scope {
    /// The relationships of the package.
    Package,
    /// The relationships of the main document.
    Document,
}

/// Whether a type of relationship is one that this library knows in the
/// given scope: for the package, the main document and the properties; for
/// the main document, headers, footers, themes, font table, styles, notes,
/// settings, comments, images, hyperlinks and numbering.
pub open spec fn is_known_type(scope: Scope, ty: Seq<char>) -> bool {
    match scope {
        Scope::Package => {
            ||| ty == SCHEMA_CORE@
            ||| ty == SCHEMA_REL_EXTENDED@
            ||| ty == SCHEMA_OFFICE_DOCUMENT@
        },
        Scope::Document => {
            ||| ty == SCHEMA_HEADER@
            ||| ty == SCHEMA_FOOTER@
            ||| ty == SCHEMA_THEME@
            ||| ty == SCHEMA_FONT_TABLE@
            ||| ty == SCHEMA_STYLES@
            ||| ty == SCHEMA_FOOTNOTES@
            ||| ty == SCHEMA_ENDNOTES@
            ||| ty == SCHEMA_SETTINGS@
            ||| ty == SCHEMA_WEB_SETTINGS@
            ||| ty == SCHEMA_COMMENTS@
            ||| ty == SCHEMA_IMAGE@
            ||| ty == SCHEMA_HYPERLINK@
            ||| ty == SCHEMA_NUMBERING@
        },
    }
}

/// Tells whether a type of relationship is known in a scope.
pub fn knows_type(scope: Scope, ty: &str) -> (known: bool)
    ensures
        known == is_known_type(scope, ty@),
{
    match scope {
        Scope::Package => {
            str_eq(ty, SCHEMA_CORE) || str_eq(ty, SCHEMA_REL_EXTENDED) || str_eq(
                ty,
                SCHEMA_OFFICE_DOCUMENT,
            )
        },
        Scope::Document => {
            str_eq(ty, SCHEMA_HEADER) || str_eq(ty, SCHEMA_FOOTER) || str_eq(ty, SCHEMA_THEME)
                || str_eq(ty, SCHEMA_FONT_TABLE) || str_eq(ty, SCHEMA_STYLES) || str_eq(
                ty,
                SCHEMA_FOOTNOTES,
            ) || str_eq(ty, SCHEMA_ENDNOTES) || str_eq(ty, SCHEMA_SETTINGS) || str_eq(
                ty,
                SCHEMA_WEB_SETTINGS,
            ) || str_eq(ty, SCHEMA_COMMENTS) || str_eq(ty, SCHEMA_IMAGE) || str_eq(
                ty,
                SCHEMA_HYPERLINK,
            ) || str_eq(ty, SCHEMA_NUMBERING)
        },
    }
}

/// The links among the first `count` whose type is known in the scope, in
/// order.
pub open spec fn known_among(links: Seq<LinkModel>, scope: Scope, count: nat) -> Seq<LinkModel>
    decreases count,
{
    if count == 0 || count > links.len() {
        Seq::empty()
    } else {
        let before = known_among(links, scope, (count - 1) as nat);
        if is_known_type(scope, links[count - 1].ty) {
            before.push(links[count - 1])
        } else {
            before
        }
    }
}

impl Relationships {
    /// The relationships whose type is known in the scope, in order. The
    /// relationships themselves stay as they are, those of other types
    /// among them.
    pub fn known(&self, scope: Scope) -> (known: Relationships)
        ensures
            known.links() == known_among(self.links(), scope, self.links().len()),
    {
        let ghost links = self.links();
        let mut known = Relationships { relationships: Vec::new() };
        assert(known.links() =~= Seq::empty());
        let mut i: usize = 0;
        while i < self.relationships.len()
            invariant
                i <= self.relationships@.len(),
                links == self.links(),
                known.links() == known_among(links, scope, i as nat),
            decreases self.relationships@.len() - i,
        {
            let r = &self.relationships[i];
            assert(links[i as int].ty == r.ty@);
            if knows_type(scope, r.ty.as_str()) {
                let ghost before = known.links();
                known.relationships.push(
                    Relationship {
                        id: r.id.clone(),
                        ty: r.ty.clone(),
                        target: r.target.clone(),
                        target_mode: crate::codec::text_attribute(&r.target_mode),
                    },
                );
                assert(known.links() =~= before.push(links[i as int]));
            }
            i = i + 1;
        }
        known
    }
}

impl Relationships {
    /// Asks for each of the wanted links, one after the other: a link that
    /// is there stays, one that is missing is added under the next id that
    /// is not in use.
    pub fn add_all(&mut self, wanted: &Vec<(String, String)>)
        ensures
            final(self).links() == linked_all(
                old(self).links(),
                wanted_model(wanted@),
                wanted@.len(),
            ),
            old(self).well_formed() ==> final(self).well_formed(),
    {
        let ghost model = wanted_model(wanted@);
        let mut i: usize = 0;
        while i < wanted.len()
            invariant
                i <= wanted@.len(),
                model == wanted_model(wanted@),
                self.links() == linked_all(old(self).links(), model, i as nat),
                old(self).well_formed() ==> self.well_formed(),
            decreases wanted@.len() - i,
        {
            let pair = &wanted[i];
            assert(model[i as int] == (pair.0@, pair.1@));
            self.add_rel(pair.0.as_str(), pair.1.as_str());
            i = i + 1;
        }
    }
}


/// The element that a relationship is written as.
pub open spec fn link_tree(link: LinkModel) -> XmlTree {
    element("Relationship"@).with_attribute("Id"@, link.id).with_attribute(
        "Type"@,
        link.ty,
    ).with_attribute("Target"@, link.target).with_optional_attribute(
        "TargetMode"@,
        link.target_mode,
    )
}

/// The element that relationships are written as, in order.
pub open spec fn links_tree(links: Seq<LinkModel>) -> XmlTree {
    element("Relationships"@).with_attribute(
        "xmlns"@,
        "http://schemas.openxmlformats.org/package/2006/relationships"@,
    ).with_children(Seq::new(links.len(), |i: int| link_tree(links[i])))
}

/// The element that content types are written as: the defaults, then the
/// overrides, each in order.
pub open spec fn types_tree(
    defaults: Seq<(Seq<char>, Seq<char>)>,
    overrides: Seq<(Seq<char>, Seq<char>)>,
) -> XmlTree {
    element("Types"@).with_attribute(
        "xmlns"@,
        "http://schemas.openxmlformats.org/package/2006/content-types"@,
    ).with_children(
        Seq::new(
            defaults.len(),
            |i: int|
                element("Default"@).with_attribute("Extension"@, defaults[i].0).with_attribute(
                    "ContentType"@,
                    defaults[i].1,
                ),
        ),
    ).with_children(
        Seq::new(
            overrides.len(),
            |i: int|
                element("Override"@).with_attribute("PartName"@, overrides[i].0).with_attribute(
                    "ContentType"@,
                    overrides[i].1,
                ),
        ),
    )
}

impl Relationships {
    /// What relationships are written as depends on their links alone.
    pub proof fn lemma_links_tree(self)
        ensures
            self.tree() == links_tree(self.links()),
    {
        assert(trees(self.relationships@) =~= Seq::new(
            self.links().len(),
            |i: int| link_tree(self.links()[i]),
        ));
    }

    /// A copy of the relationships.
    pub fn duplicate(&self) -> (copy: Relationships)
        ensures
            copy.relationships@ == self.relationships@,
            copy.links() == self.links(),
    {
        let mut relationships: Vec<Relationship> = Vec::new();
        let mut i: usize = 0;
        while i < self.relationships.len()
            invariant
                i <= self.relationships@.len(),
                relationships@ == self.relationships@.take(i as int),
            decreases self.relationships@.len() - i,
        {
            let r = &self.relationships[i];
            let target_mode = match &r.target_mode {
                Some(m) => Some(m.clone()),
                None => None,
            };
            relationships.push(
                Relationship {
                    id: r.id.clone(),
                    ty: r.ty.clone(),
                    target: r.target.clone(),
                    target_mode,
                },
            );
            assert(relationships@ =~= self.relationships@.take(i + 1));
            i = i + 1;
        }
        assert(self.relationships@.take(self.relationships@.len() as int) =~= self.relationships@);
        Relationships { relationships }
    }
}

impl ContentTypes {
    /// What content types are written as depends on their defaults and
    /// overrides alone.
    pub proof fn lemma_types_tree(self)
        ensures
            self.tree() == types_tree(
                defaults_model(self.defaults@),
                overrides_model(self.overrides@),
            ),
    {
        let defaults = defaults_model(self.defaults@);
        let overrides = overrides_model(self.overrides@);
        assert(trees(self.defaults@) =~= Seq::new(
            defaults.len(),
            |i: int|
                element("Default"@).with_attribute("Extension"@, defaults[i].0).with_attribute(
                    "ContentType"@,
                    defaults[i].1,
                ),
        ));
        assert(trees(self.overrides@) =~= Seq::new(
            overrides.len(),
            |i: int|
                element("Override"@).with_attribute("PartName"@, overrides[i].0).with_attribute(
                    "ContentType"@,
                    overrides[i].1,
                ),
        ));
    }

    /// A copy of the content types.
    pub fn duplicate(&self) -> (copy: ContentTypes)
        ensures
            copy.defaults@ == self.defaults@,
            copy.overrides@ == self.overrides@,
    {
        let mut defaults: Vec<DefaultContentType> = Vec::new();
        let mut i: usize = 0;
        while i < self.defaults.len()
            invariant
                i <= self.defaults@.len(),
                defaults@ == self.defaults@.take(i as int),
            decreases self.defaults@.len() - i,
        {
            let d = &self.defaults[i];
            defaults.push(DefaultContentType { ext: d.ext.clone(), ty: d.ty.clone() });
            assert(defaults@ =~= self.defaults@.take(i + 1));
            i = i + 1;
        }
        assert(self.defaults@.take(self.defaults@.len() as int) =~= self.defaults@);
        let mut overrides: Vec<OverrideContentType> = Vec::new();
        let mut j: usize = 0;
        while j < self.overrides.len()
            invariant
                j <= self.overrides@.len(),
                defaults@ == self.defaults@,
                overrides@ == self.overrides@.take(j as int),
            decreases self.overrides@.len() - j,
        {
            let o = &self.overrides[j];
            overrides.push(OverrideContentType { part: o.part.clone(), ty: o.ty.clone() });
            assert(overrides@ =~= self.overrides@.take(j + 1));
            j = j + 1;
        }
        assert(self.overrides@.take(self.overrides@.len() as int) =~= self.overrides@);
        ContentTypes { defaults, overrides }
    }
}

} // verus!
