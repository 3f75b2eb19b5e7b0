//! A small XML tree and the textual form it is written in.
//!
//! Every part of a document is first turned into an [`XmlElement`]; one
//! routine then writes any element as text. The text of an element is fixed
//! by [`tree_text`], and what is written is exactly that.

use vstd::prelude::*;
use vstd::string::StringExecFns;
use crate::lexical::str_eq;

verus! {

/// The mathematical value of a piece of XML.
pub enum XmlTree {
    /// An element with its qualified name, its attributes in order and its
    /// content in order.
    Element { tag: Seq<char>, attributes: Seq<(Seq<char>, Seq<char>)>, children: Seq<XmlTree> },
    /// Character data, unescaped.
    Text(Seq<char>),
}

/// One attribute of an element: qualified name and unescaped value.
#[derive(Debug, Clone, Default)]
pub struct XmlAttribute {
    pub key: String,
    pub value: String,
}

/// A piece of content inside an element.
#[derive(Debug)]
pub enum XmlNode {
    Element(XmlElement),
    Text(String),
}

/// An element: qualified name, attributes and content, each in document order.
#[derive(Debug, Default)]
pub struct XmlElement {
    pub tag: String,
    pub attributes: Vec<XmlAttribute>,
    pub children: Vec<XmlNode>,
}

/// The value of a list of attributes.
pub open spec fn attributes_model(attributes: Seq<XmlAttribute>) -> Seq<(Seq<char>, Seq<char>)> {
    Seq::new(attributes.len(), |i: int| (attributes[i].key@, attributes[i].value@))
}

/// The value of a node.
pub open spec fn node_model(node: XmlNode) -> XmlTree
    decreases node,
{
    match node {
        XmlNode::Element(e) => element_model(e),
        XmlNode::Text(s) => XmlTree::Text(s@),
    }
}

/// The value of an element.
pub open spec fn element_model(element: XmlElement) -> XmlTree
    decreases element,
{
    XmlTree::Element {
        tag: element.tag@,
        attributes: attributes_model(element.attributes@),
        children: Seq::new(
            element.children@.len(),
            |i: int|
                if 0 <= i < element.children@.len() {
                    node_model(element.children@[i])
                } else {
                    XmlTree::Text(Seq::empty())
                },
        ),
    }
}

impl View for XmlNode {
    type V = XmlTree;

    open spec fn view(&self) -> XmlTree {
        node_model(*self)
    }
}

impl View for XmlElement {
    type V = XmlTree;

    open spec fn view(&self) -> XmlTree {
        element_model(*self)
    }
}

/// An element without attributes and content.
pub open spec fn element(tag: Seq<char>) -> XmlTree {
    XmlTree::Element { tag, attributes: Seq::empty(), children: Seq::empty() }
}

/// An element that holds character data and nothing else.
pub open spec fn text_element(tag: Seq<char>, text: Seq<char>) -> XmlTree {
    element(tag).with_child(XmlTree::Text(text))
}

/// An element that holds the given character data, if any is given.
pub open spec fn optional_text_element(tag: Seq<char>, text: Option<Seq<char>>) -> Option<
    XmlTree,
> {
    match text {
        Some(t) => Some(text_element(tag, t)),
        None => None,
    }
}

/// The value of the first attribute named `key` among the first `count`
/// attributes, if there is one.
pub open spec fn attribute_among(
    attributes: Seq<(Seq<char>, Seq<char>)>,
    key: Seq<char>,
    count: nat,
) -> Option<Seq<char>>
    decreases count,
{
    if count == 0 || count > attributes.len() {
        None
    } else {
        match attribute_among(attributes, key, (count - 1) as nat) {
            Some(value) => Some(value),
            None => if attributes[count - 1].0 == key {
                Some(attributes[count - 1].1)
            } else {
                None
            },
        }
    }
}

/// The first element named `tag` among the first `count` trees, if there is
/// one.
pub open spec fn child_among(children: Seq<XmlTree>, tag: Seq<char>, count: nat) -> Option<
    XmlTree,
>
    decreases count,
{
    if count == 0 || count > children.len() {
        None
    } else {
        match child_among(children, tag, (count - 1) as nat) {
            Some(child) => Some(child),
            None => if children[count - 1] is Element && children[count - 1].tag() == tag {
                Some(children[count - 1])
            } else {
                None
            },
        }
    }
}

/// The character data directly among the first `count` trees, joined.
pub open spec fn text_among(children: Seq<XmlTree>, count: nat) -> Seq<char>
    decreases count,
{
    if count == 0 || count > children.len() {
        Seq::empty()
    } else {
        text_among(children, (count - 1) as nat) + (match children[count - 1] {
            XmlTree::Text(s) => s,
            XmlTree::Element { .. } => Seq::empty(),
        })
    }
}

/// The elements named `tag` among the first `count` trees, in order.
pub open spec fn elements_among(children: Seq<XmlTree>, tag: Seq<char>, count: nat) -> Seq<
    XmlTree,
>
    decreases count,
{
    if count == 0 || count > children.len() {
        Seq::empty()
    } else {
        let before = elements_among(children, tag, (count - 1) as nat);
        if children[count - 1] is Element && children[count - 1].tag() == tag {
            before.push(children[count - 1])
        } else {
            before
        }
    }
}

/// The elements among the first `count` trees, in order.
pub open spec fn all_elements_among(children: Seq<XmlTree>, count: nat) -> Seq<XmlTree>
    decreases count,
{
    if count == 0 || count > children.len() {
        Seq::empty()
    } else {
        let before = all_elements_among(children, (count - 1) as nat);
        if children[count - 1] is Element {
            before.push(children[count - 1])
        } else {
            before
        }
    }
}

impl XmlTree {
    /// The qualified name of an element; empty for text.
    pub open spec fn tag(self) -> Seq<char> {
        match self {
            XmlTree::Element { tag, .. } => tag,
            XmlTree::Text(_) => Seq::empty(),
        }
    }

    /// The attributes of an element; none for text.
    pub open spec fn attributes(self) -> Seq<(Seq<char>, Seq<char>)> {
        match self {
            XmlTree::Element { attributes, .. } => attributes,
            XmlTree::Text(_) => Seq::empty(),
        }
    }

    /// The content of an element; none for text.
    pub open spec fn children(self) -> Seq<XmlTree> {
        match self {
            XmlTree::Element { children, .. } => children,
            XmlTree::Text(_) => Seq::empty(),
        }
    }

    /// The element with one more attribute at the end.
    pub open spec fn with_attribute(self, key: Seq<char>, value: Seq<char>) -> XmlTree {
        XmlTree::Element {
            tag: self.tag(),
            attributes: self.attributes().push((key, value)),
            children: self.children(),
        }
    }

    /// The element with one more attribute if a value is given, unchanged
    /// otherwise.
    pub open spec fn with_optional_attribute(self, key: Seq<char>, value: Option<Seq<char>>)
        -> XmlTree {
        match value {
            Some(v) => self.with_attribute(key, v),
            None => self,
        }
    }

    /// The element with more attributes at the end.
    pub open spec fn with_attributes(self, more: Seq<(Seq<char>, Seq<char>)>) -> XmlTree {
        XmlTree::Element {
            tag: self.tag(),
            attributes: self.attributes() + more,
            children: self.children(),
        }
    }

    /// The element with one more tree at the end of its content.
    pub open spec fn with_child(self, child: XmlTree) -> XmlTree {
        XmlTree::Element {
            tag: self.tag(),
            attributes: self.attributes(),
            children: self.children().push(child),
        }
    }

    /// The element with one more tree if one is given, unchanged otherwise.
    pub open spec fn with_optional_child(self, child: Option<XmlTree>) -> XmlTree {
        match child {
            Some(c) => self.with_child(c),
            None => self,
        }
    }

    /// The element with more trees at the end of its content.
    pub open spec fn with_children(self, more: Seq<XmlTree>) -> XmlTree {
        XmlTree::Element {
            tag: self.tag(),
            attributes: self.attributes(),
            children: self.children() + more,
        }
    }

    /// The value of the first attribute named `key`.
    pub open spec fn attribute(self, key: Seq<char>) -> Option<Seq<char>> {
        attribute_among(self.attributes(), key, self.attributes().len())
    }

    /// The first element named `tag` in the content.
    pub open spec fn child(self, tag: Seq<char>) -> Option<XmlTree> {
        child_among(self.children(), tag, self.children().len())
    }

    /// The first element named `tag` in the content, or an empty element of
    /// that name where there is none.
    pub open spec fn child_or_empty(self, tag: Seq<char>) -> XmlTree {
        match self.child(tag) {
            Some(c) => c,
            None => element(tag),
        }
    }

    /// The character data of the first element named `tag` in the content.
    pub open spec fn child_text(self, tag: Seq<char>) -> Option<Seq<char>> {
        match self.child(tag) {
            Some(c) => Some(c.text()),
            None => None,
        }
    }

    /// The elements named `tag` in the content, in order.
    pub open spec fn elements(self, tag: Seq<char>) -> Seq<XmlTree> {
        elements_among(self.children(), tag, self.children().len())
    }

    /// The elements in the content, in order.
    pub open spec fn all_elements(self) -> Seq<XmlTree> {
        all_elements_among(self.children(), self.children().len())
    }

    /// The character data directly in the content, joined.
    pub open spec fn text(self) -> Seq<char> {
        text_among(self.children(), self.children().len())
    }
}

/// What one character becomes when text is escaped.
pub open spec fn escaped_char(c: char) -> Seq<char> {
    if c == '<' {
        seq!['&', 'l', 't', ';']
    } else if c == '>' {
        seq!['&', 'g', 't', ';']
    } else if c == '&' {
        seq!['&', 'a', 'm', 'p', ';']
    } else if c == '\'' {
        seq!['&', 'a', 'p', 'o', 's', ';']
    } else if c == '"' {
        seq!['&', 'q', 'u', 'o', 't', ';']
    } else {
        seq![c]
    }
}

/// Text with each of `<`, `>`, `&`, `'` and `"` replaced by its entity.
pub open spec fn escaped(text: Seq<char>) -> Seq<char>
    decreases text.len(),
{
    if text.len() == 0 {
        Seq::empty()
    } else {
        escaped_char(text[0]) + escaped(text.drop_first())
    }
}

/// The text of one attribute: a space, the name, and the escaped value in
/// double quotes.
pub open spec fn attribute_text(attribute: (Seq<char>, Seq<char>)) -> Seq<char> {
    seq![' '] + attribute.0 + seq!['=', '"'] + escaped(attribute.1) + seq!['"']
}

/// The text of the first `count` attributes of a list.
pub open spec fn attributes_text(attributes: Seq<(Seq<char>, Seq<char>)>, count: nat) -> Seq<char>
    decreases count,
{
    if count == 0 || count > attributes.len() {
        Seq::empty()
    } else {
        attributes_text(attributes, (count - 1) as nat) + attribute_text(attributes[count - 1])
    }
}

/// The text of a tree. An element without content is written as an empty
/// tag; text is escaped.
pub open spec fn tree_text(tree: XmlTree) -> Seq<char>
    decreases tree, 0nat,
{
    match tree {
        XmlTree::Text(s) => escaped(s),
        XmlTree::Element { tag, attributes, children } => {
            seq!['<'] + tag + attributes_text(attributes, attributes.len()) + (if children.len()
                == 0 {
                seq!['/', '>']
            } else {
                seq!['>'] + trees_text(children, children.len()) + seq!['<', '/'] + tag
                    + seq!['>']
            })
        },
    }
}

/// The text of the first `count` trees of a list, one after the other.
pub open spec fn trees_text(trees: Seq<XmlTree>, count: nat) -> Seq<char>
    decreases trees, count,
{
    if count == 0 || count > trees.len() {
        Seq::empty()
    } else {
        trees_text(trees, (count - 1) as nat) + tree_text(trees[count - 1])
    }
}

/// Once an attribute is found among the first attributes, it is the one
/// found among more of them.
pub proof fn lemma_attribute_found(
    attributes: Seq<(Seq<char>, Seq<char>)>,
    key: Seq<char>,
    count: nat,
    more: nat,
)
    requires
        count <= more <= attributes.len(),
        attribute_among(attributes, key, count) is Some,
    ensures
        attribute_among(attributes, key, more) == attribute_among(attributes, key, count),
    decreases more,
{
    if more > count {
        lemma_attribute_found(attributes, key, count, (more - 1) as nat);
    }
}

/// Once a child is found among the first trees, it is the one found among
/// more of them.
pub proof fn lemma_child_found(children: Seq<XmlTree>, tag: Seq<char>, count: nat, more: nat)
    requires
        count <= more <= children.len(),
        child_among(children, tag, count) is Some,
    ensures
        child_among(children, tag, more) == child_among(children, tag, count),
    decreases more,
{
    if more > count {
        lemma_child_found(children, tag, count, (more - 1) as nat);
    }
}

/// The elements named `tag` among the first trees stay where they are among
/// those found in more of the trees.
pub proof fn lemma_elements_among_grow(
    children: Seq<XmlTree>,
    tag: Seq<char>,
    count: nat,
    more: nat,
)
    requires
        count <= more <= children.len(),
    ensures
        elements_among(children, tag, count).len() <= elements_among(children, tag, more).len(),
        forall|k: int|
            0 <= k < elements_among(children, tag, count).len() ==> elements_among(
                children,
                tag,
                more,
            )[k] == #[trigger] elements_among(children, tag, count)[k],
    decreases more,
{
    if more > count {
        lemma_elements_among_grow(children, tag, count, (more - 1) as nat);
    }
}

/// The elements among the first trees stay where they are among those found
/// in more of the trees.
pub proof fn lemma_all_elements_among_grow(children: Seq<XmlTree>, count: nat, more: nat)
    requires
        count <= more <= children.len(),
    ensures
        all_elements_among(children, count).len() <= all_elements_among(children, more).len(),
        forall|k: int|
            0 <= k < all_elements_among(children, count).len() ==> all_elements_among(
                children,
                more,
            )[k] == #[trigger] all_elements_among(children, count)[k],
    decreases more,
{
    if more > count {
        lemma_all_elements_among_grow(children, count, (more - 1) as nat);
    }
}

impl XmlElement {
    /// An element without attributes and content.
    pub fn new(tag: &str) -> (e: XmlElement)
        ensures
            e@ == element(tag@),
    {
        let e = XmlElement {
            tag: String::from_str(tag),
            attributes: Vec::new(),
            children: Vec::new(),
        };
        assert(e@->attributes =~= Seq::empty());
        assert(e@->children =~= Seq::empty());
        e
    }

    /// An element that holds character data and nothing else.
    pub fn with_text(tag: &str, text: String) -> (e: XmlElement)
        ensures
            e@ == text_element(tag@, text@),
    {
        let mut e = XmlElement::new(tag);
        e.push_text(text);
        e
    }

    /// Adds an attribute after those already there.
    pub fn push_attribute(&mut self, key: &str, value: String)
        ensures
            final(self)@ == old(self)@.with_attribute(key@, value@),
    {
        self.attributes.push(XmlAttribute { key: String::from_str(key), value });
        assert(self@->attributes =~= old(self)@.attributes().push((key@, value@)));
        assert(self@->children =~= old(self)@.children());
    }

    /// Adds an attribute if a value is given.
    pub fn push_optional_attribute(&mut self, key: &str, value: Option<String>)
        ensures
            final(self)@ == old(self)@.with_optional_attribute(
                key@,
                match value {
                    Some(v) => Some(v@),
                    None => None,
                },
            ),
    {
        if let Some(v) = value {
            self.push_attribute(key, v);
        }
    }

    /// Adds copies of the given attributes after those already there.
    pub fn push_attributes(&mut self, more: &Vec<XmlAttribute>)
        ensures
            final(self)@ == old(self)@.with_attributes(attributes_model(more@)),
    {
        let ghost before = self@;
        assert(before.with_attributes(attributes_model(more@).take(0)) =~= before);
        let mut i: usize = 0;
        while i < more.len()
            invariant
                i <= more@.len(),
                self@ == before.with_attributes(attributes_model(more@).take(i as int)),
            decreases more@.len() - i,
        {
            let attribute = &more[i];
            self.push_attribute(attribute.key.as_str(), attribute.value.clone());
            assert(attributes_model(more@)[i as int] == (attribute.key@, attribute.value@));
            assert(self@.attributes() =~= before.attributes() + attributes_model(more@).take(
                i + 1,
            ));
            i = i + 1;
        }
        assert(attributes_model(more@).take(more@.len() as int) =~= attributes_model(more@));
    }

    /// Adds a node after the content already there.
    pub fn push_node(&mut self, child: XmlNode)
        ensures
            final(self)@ == old(self)@.with_child(child@),
    {
        self.children.push(child);
        assert(self@->attributes =~= old(self)@.attributes());
        assert(self@->children =~= old(self)@.children().push(child@));
    }

    /// Adds an element after the content already there.
    pub fn push_element(&mut self, child: XmlElement)
        ensures
            final(self)@ == old(self)@.with_child(child@),
    {
        self.push_node(XmlNode::Element(child));
    }

    /// Adds an element if one is given.
    pub fn push_optional_element(&mut self, child: Option<XmlElement>)
        ensures
            final(self)@ == old(self)@.with_optional_child(
                match child {
                    Some(c) => Some(c@),
                    None => None,
                },
            ),
    {
        if let Some(c) = child {
            self.push_element(c);
        }
    }

    /// Adds character data after the content already there.
    pub fn push_text(&mut self, text: String)
        ensures
            final(self)@ == old(self)@.with_child(XmlTree::Text(text@)),
    {
        self.push_node(XmlNode::Text(text));
    }

    /// Adds an element that holds the given character data, if any is given.
    pub fn push_optional_text_element(&mut self, tag: &str, text: Option<String>)
        ensures
            final(self)@ == old(self)@.with_optional_child(
                optional_text_element(
                    tag@,
                    match text {
                        Some(t) => Some(t@),
                        None => None,
                    },
                ),
            ),
    {
        if let Some(t) = text {
            self.push_element(XmlElement::with_text(tag, t));
        }
    }

    /// The value of the first attribute with the given name.
    pub fn attribute(&self, key: &str) -> (found: Option<&String>)
        ensures
            match found {
                Some(value) => self@.attribute(key@) == Some(value@),
                None => self@.attribute(key@) is None,
            },
    {
        let ghost model = self@.attributes();
        let mut i: usize = 0;
        while i < self.attributes.len()
            invariant
                i <= self.attributes@.len(),
                model == self@.attributes(),
                model.len() == self.attributes@.len(),
                attribute_among(model, key@, i as nat) is None,
            decreases self.attributes@.len() - i,
        {
            let attribute = &self.attributes[i];
            assert(model[i as int] == (attribute.key@, attribute.value@));
            if str_eq(attribute.key.as_str(), key) {
                proof {
                    lemma_attribute_found(model, key@, (i + 1) as nat, model.len());
                }
                return Some(&attribute.value);
            }
            i = i + 1;
        }
        None
    }

    /// Copies of the attributes, in order.
    pub fn copy_attributes(&self) -> (copy: Vec<XmlAttribute>)
        ensures
            attributes_model(copy@) == self@.attributes(),
    {
        let mut copy: Vec<XmlAttribute> = Vec::new();
        let mut i: usize = 0;
        while i < self.attributes.len()
            invariant
                i <= self.attributes@.len(),
                copy@.len() == i,
                attributes_model(copy@) == self@.attributes().take(i as int),
            decreases self.attributes@.len() - i,
        {
            let attribute = &self.attributes[i];
            let ghost before = copy@;
            copy.push(XmlAttribute { key: attribute.key.clone(), value: attribute.value.clone() });
            assert(self@.attributes()[i as int] == (attribute.key@, attribute.value@));
            assert forall|k: int| 0 <= k < i + 1 implies attributes_model(copy@)[k]
                == self@.attributes().take(i + 1)[k] by {
                if k < i {
                    assert(attributes_model(copy@)[k] == attributes_model(before)[k]);
                }
            }
            assert(attributes_model(copy@) =~= self@.attributes().take(i + 1));
            i = i + 1;
        }
        assert(self@.attributes().take(self.attributes@.len() as int) =~= self@.attributes());
        copy
    }

    /// The first element of the content with the given name.
    pub fn child(&self, tag: &str) -> (found: Option<&XmlElement>)
        ensures
            match found {
                Some(child) => self@.child(tag@) == Some(child@),
                None => self@.child(tag@) is None,
            },
    {
        let ghost model = self@.children();
        let mut i: usize = 0;
        while i < self.children.len()
            invariant
                i <= self.children@.len(),
                model == self@.children(),
                model.len() == self.children@.len(),
                child_among(model, tag@, i as nat) is None,
            decreases self.children@.len() - i,
        {
            assert(model[i as int] == self.children@[i as int]@);
            match &self.children[i] {
                XmlNode::Element(child) => {
                    if str_eq(child.tag.as_str(), tag) {
                        proof {
                            lemma_child_found(model, tag@, (i + 1) as nat, model.len());
                        }
                        return Some(child);
                    }
                },
                XmlNode::Text(_) => {},
            }
            i = i + 1;
        }
        None
    }

    /// The character data of the first element named `tag` in the content.
    pub fn child_text(&self, tag: &str) -> (text: Option<String>)
        ensures
            match text {
                Some(t) => self@.child_text(tag@) == Some(t@),
                None => self@.child_text(tag@) is None,
            },
    {
        match self.child(tag) {
            Some(c) => Some(c.text()),
            None => None,
        }
    }

    /// The character data directly in the content, joined.
    pub fn text(&self) -> (text: String)
        ensures
            text@ == self@.text(),
    {
        let ghost model = self@.children();
        let mut text = String::new();
        let mut i: usize = 0;
        while i < self.children.len()
            invariant
                i <= self.children@.len(),
                model == self@.children(),
                model.len() == self.children@.len(),
                text@ == text_among(model, i as nat),
            decreases self.children@.len() - i,
        {
            assert(model[i as int] == self.children@[i as int]@);
            match &self.children[i] {
                XmlNode::Element(_) => {
                    assert(text@ + Seq::<char>::empty() == text@);
                },
                XmlNode::Text(s) => {
                    text.append(s.as_str());
                },
            }
            i = i + 1;
        }
        text
    }

    /// A copy of the element with everything in it.
    pub fn duplicate(&self) -> (copy: XmlElement)
        ensures
            copy@ == self@,
        decreases self,
    {
        let mut copy = XmlElement::new(self.tag.as_str());
        let mut i: usize = 0;
        while i < self.attributes.len()
            invariant
                i <= self.attributes@.len(),
                copy@.tag() == self.tag@,
                copy@.children() == Seq::<XmlTree>::empty(),
                copy@.attributes() == self@.attributes().subrange(0, i as int),
            decreases self.attributes@.len() - i,
        {
            let attribute = &self.attributes[i];
            copy.push_attribute(attribute.key.as_str(), attribute.value.clone());
            assert(copy@.attributes() =~= self@.attributes().subrange(0, i + 1));
            i = i + 1;
        }
        assert(copy@.attributes() =~= self@.attributes());
        let mut j: usize = 0;
        while j < self.children.len()
            invariant
                j <= self.children@.len(),
                copy@.tag() == self.tag@,
                copy@.attributes() == self@.attributes(),
                copy@.children() == self@.children().subrange(0, j as int),
            decreases self.children@.len() - j,
        {
            match &self.children[j] {
                XmlNode::Element(child) => {
                    let child_copy = child.duplicate();
                    copy.push_element(child_copy);
                },
                XmlNode::Text(s) => {
                    copy.push_text(s.clone());
                },
            }
            assert(copy@.children() =~= self@.children().subrange(0, j + 1));
            j = j + 1;
        }
        assert(copy@.children() =~= self@.children());
        copy
    }
}

impl Clone for XmlElement {
    fn clone(&self) -> (copy: XmlElement)
        ensures
            copy@ == self@,
    {
        self.duplicate()
    }
}

impl Clone for XmlNode {
    fn clone(&self) -> (copy: XmlNode)
        ensures
            copy@ == self@,
    {
        match self {
            XmlNode::Element(e) => XmlNode::Element(e.duplicate()),
            XmlNode::Text(s) => XmlNode::Text(s.clone()),
        }
    }
}

/// The attribute found among the first attributes does not depend on what
/// follows them.
pub proof fn lemma_attribute_among_prefix(
    attributes: Seq<(Seq<char>, Seq<char>)>,
    more: Seq<(Seq<char>, Seq<char>)>,
    key: Seq<char>,
    count: nat,
)
    requires
        count <= attributes.len(),
    ensures
        attribute_among(attributes + more, key, count) == attribute_among(attributes, key, count),
    decreases count,
{
    if count > 0 {
        lemma_attribute_among_prefix(attributes, more, key, (count - 1) as nat);
        assert((attributes + more)[count - 1] == attributes[count - 1]);
    }
}

/// An element without attributes has no attribute of any name.
pub proof fn lemma_attribute_of_element(tag: Seq<char>, key: Seq<char>)
    ensures
        element(tag).attribute(key) is None,
{
}

/// After one more attribute, a name finds what it found before, or the new
/// attribute if it found nothing and the new attribute has that name.
pub proof fn lemma_attribute_after_attribute(
    tree: XmlTree,
    name: Seq<char>,
    value: Seq<char>,
    key: Seq<char>,
)
    ensures
        tree.with_attribute(name, value).attribute(key) == (match tree.attribute(key) {
            Some(found) => Some(found),
            None => if name == key {
                Some(value)
            } else {
                None
            },
        }),
{
    let before = tree.attributes();
    assert(before.push((name, value)) =~= before + seq![(name, value)]);
    lemma_attribute_among_prefix(before, seq![(name, value)], key, before.len());
}

/// After an attribute that may be absent, a name finds what it found
/// before, or the new attribute if it found nothing and the new attribute
/// is there and has that name.
pub proof fn lemma_attribute_after_optional_attribute(
    tree: XmlTree,
    name: Seq<char>,
    value: Option<Seq<char>>,
    key: Seq<char>,
)
    requires
        tree is Element,
    ensures
        tree.with_optional_attribute(name, value).attribute(key) == (match tree.attribute(key) {
            Some(found) => Some(found),
            None => if name == key {
                value
            } else {
                None
            },
        }),
{
    match value {
        Some(v) => {
            lemma_attribute_after_attribute(tree, name, v, key);
        },
        None => {},
    }
}

/// The child found among the first trees does not depend on what follows
/// them.
pub proof fn lemma_child_among_prefix(
    children: Seq<XmlTree>,
    more: Seq<XmlTree>,
    tag: Seq<char>,
    count: nat,
)
    requires
        count <= children.len(),
    ensures
        child_among(children + more, tag, count) == child_among(children, tag, count),
    decreases count,
{
    if count > 0 {
        lemma_child_among_prefix(children, more, tag, (count - 1) as nat);
        assert((children + more)[count - 1] == children[count - 1]);
    }
}

/// After one more tree in the content, a name finds what it found before,
/// or the new tree if it found nothing and the new tree is an element of
/// that name.
pub proof fn lemma_child_after_child(tree: XmlTree, child: XmlTree, key: Seq<char>)
    ensures
        tree.with_child(child).child(key) == (match tree.child(key) {
            Some(found) => Some(found),
            None => if child is Element && child.tag() == key {
                Some(child)
            } else {
                None
            },
        }),
{
    let before = tree.children();
    assert(before.push(child) =~= before + seq![child]);
    lemma_child_among_prefix(before, seq![child], key, before.len());
}

/// After a tree that may be absent, a name finds what it found before, or
/// the new tree if it found nothing and the new tree is there and is an
/// element of that name.
pub proof fn lemma_child_after_optional_child(tree: XmlTree, child: Option<XmlTree>, key: Seq<char>)
    requires
        tree is Element,
    ensures
        tree.with_optional_child(child).child(key) == (match tree.child(key) {
            Some(found) => Some(found),
            None => match child {
                Some(c) => if c is Element && c.tag() == key {
                    Some(c)
                } else {
                    None
                },
                None => None,
            },
        }),
{
    match child {
        Some(c) => {
            lemma_child_after_child(tree, c, key);
        },
        None => {},
    }
}

} // verus!
