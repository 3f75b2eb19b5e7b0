//! How values are written as XML and read back.
//!
//! Every type that is written as an element implements [`XmlCodec`]: `tree`
//! is the element it is written as, and `to_element` builds exactly that;
//! `from_element` reads a value back, `readable` says when it succeeds and
//! `read_from` what the value then is. Children are written in the order
//! the schema declares and absent parts are left out. In attributes,
//! numbers are decimal, booleans are `1` or `0` when written and may also
//! be the words `true` and `false` when read, text is taken as it is.

use vstd::prelude::*;
use vstd::string::StringExecFns;
use crate::error::DocxError;
use crate::lexical::str_eq;
use crate::substitute::includes;
use crate::xml::{
    all_elements_among, attribute_text, element, elements_among, escaped,
    lemma_all_elements_among_grow, lemma_elements_among_grow, XmlElement, XmlNode, XmlTree,
};
use crate::lexical::{
    bool_literal, bool_value, decimal, decimal_i64, digits_value, integer_value, parse_bool,
    parse_i64, parse_isize, parse_u64, serialize_bool_ooxml,
};

verus! {

/// A value that is written as an XML element and read from one.
pub trait XmlCodec: Sized {
    /// The element that the value is written as.
    spec fn tree(&self) -> XmlTree;

    /// Whether an element can be read as a value of this type.
    spec fn readable(tree: XmlTree) -> bool;

    /// Whether the value is what a readable element stands for.
    spec fn read_from(&self, tree: XmlTree) -> bool;

    /// Writes the value as an element.
    fn to_element(&self) -> (e: XmlElement)
        ensures
            e@ == self.tree(),
    ;

    /// Reads a value from an element. Attributes and content that the type
    /// does not hold are passed over.
    fn from_element(element: &XmlElement) -> (r: Result<Self, DocxError>)
        ensures
            r is Ok <==> Self::readable(element@),
            r matches Ok(v) ==> v.read_from(element@),
            r matches Err(e) ==> e is Xml,
    ;
}

/// The element of a value that may be absent.
pub open spec fn optional_tree<T: XmlCodec>(value: Option<T>) -> Option<XmlTree> {
    match value {
        Some(v) => Some(v.tree()),
        None => None,
    }
}

/// The elements of a list of values, in order.
pub open spec fn trees<T: XmlCodec>(values: Seq<T>) -> Seq<XmlTree> {
    Seq::new(values.len(), |i: int| values[i].tree())
}

/// Whether an element that may be absent can be read.
pub open spec fn optional_readable<T: XmlCodec>(tree: Option<XmlTree>) -> bool {
    match tree {
        Some(t) => T::readable(t),
        None => true,
    }
}

/// Whether an element that must be there is there and can be read.
pub open spec fn required_readable<T: XmlCodec>(tree: Option<XmlTree>) -> bool {
    match tree {
        Some(t) => T::readable(t),
        None => false,
    }
}

/// Whether every element of a list can be read.
pub open spec fn all_readable<T: XmlCodec>(trees: Seq<XmlTree>) -> bool {
    forall|i: int| 0 <= i < trees.len() ==> T::readable(#[trigger] trees[i])
}

/// Whether a value that may be absent is what an element that may be absent
/// stands for.
pub open spec fn optional_read_from<T: XmlCodec>(value: Option<T>, tree: Option<XmlTree>) -> bool {
    match (value, tree) {
        (Some(v), Some(t)) => v.read_from(t),
        (None, None) => true,
        _ => false,
    }
}

/// Whether a value is what an element that must be there stands for.
pub open spec fn required_read_from<T: XmlCodec>(value: T, tree: Option<XmlTree>) -> bool {
    match tree {
        Some(t) => value.read_from(t),
        None => false,
    }
}

/// Whether the values of a list are, one by one, what the elements of a list
/// stand for.
pub open spec fn all_read_from<T: XmlCodec>(values: Seq<T>, trees: Seq<XmlTree>) -> bool {
    &&& values.len() == trees.len()
    &&& forall|i: int| 0 <= i < values.len() ==> (#[trigger] values[i]).read_from(trees[i])
}

/// Makes sure that an element has the name that is looked for.
pub fn expect_tag(element: &XmlElement, tag: &str) -> (r: Result<(), DocxError>)
    ensures
        r is Ok <==> element@.tag() == tag@,
        r matches Err(e) ==> e is Xml,
{
    if str_eq(element.tag.as_str(), tag) {
        Ok(())
    } else {
        Err(DocxError::malformed(tag, "another element stands in its place"))
    }
}

/// Writes a value that may be absent after the content of an element.
pub fn push_optional<T: XmlCodec>(e: &mut XmlElement, value: &Option<T>)
    ensures
        final(e)@ == old(e)@.with_optional_child(optional_tree(*value)),
{
    match value {
        Some(v) => {
            e.push_element(v.to_element());
        },
        None => {},
    }
}

/// Writes the values of a list, in order, after the content of an element.
pub fn push_all<T: XmlCodec>(e: &mut XmlElement, values: &Vec<T>)
    ensures
        final(e)@ == old(e)@.with_children(trees(values@)),
{
    let ghost before = e@;
    assert(trees(values@.take(0)) =~= Seq::<XmlTree>::empty());
    assert(before.with_children(Seq::empty()) =~= before);
    let mut i: usize = 0;
    while i < values.len()
        invariant
            i <= values@.len(),
            e@ == before.with_children(trees(values@.take(i as int))),
        decreases values@.len() - i,
    {
        e.push_element(values[i].to_element());
        assert(trees(values@.take(i + 1)) =~= trees(values@.take(i as int)).push(
            values@[i as int].tree(),
        ));
        assert(e@ =~= before.with_children(trees(values@.take(i + 1))));
        i = i + 1;
    }
    assert(values@.take(values@.len() as int) =~= values@);
}

/// Reads the first child of the given name, if there is one.
pub fn read_optional<T: XmlCodec>(element: &XmlElement, tag: &str) -> (r: Result<
    Option<T>,
    DocxError,
>)
    ensures
        r is Ok <==> optional_readable::<T>(element@.child(tag@)),
        r matches Ok(v) ==> optional_read_from(v, element@.child(tag@)),
        r matches Err(e) ==> e is Xml,
{
    match element.child(tag) {
        Some(c) => match T::from_element(c) {
            Ok(v) => Ok(Some(v)),
            Err(e) => Err(e),
        },
        None => Ok(None),
    }
}

/// Reads the first child of the given name, which must be there.
pub fn read_required<T: XmlCodec>(element: &XmlElement, tag: &str) -> (r: Result<T, DocxError>)
    ensures
        r is Ok <==> required_readable::<T>(element@.child(tag@)),
        r matches Ok(v) ==> required_read_from(v, element@.child(tag@)),
        r matches Err(e) ==> e is Xml,
{
    match element.child(tag) {
        Some(c) => T::from_element(c),
        None => Err(DocxError::malformed(element.tag.as_str(), "a required element is missing")),
    }
}

/// Reads the first child of the given name, or an empty element of that
/// name where there is none.
pub fn read_or_empty<T: XmlCodec>(element: &XmlElement, tag: &str) -> (r: Result<T, DocxError>)
    ensures
        r is Ok <==> T::readable(element@.child_or_empty(tag@)),
        r matches Ok(v) ==> v.read_from(element@.child_or_empty(tag@)),
        r matches Err(e) ==> e is Xml,
{
    match element.child(tag) {
        Some(c) => T::from_element(c),
        None => T::from_element(&XmlElement::new(tag)),
    }
}

/// Reads every child of the given name, in order.
pub fn read_all<T: XmlCodec>(element: &XmlElement, tag: &str) -> (r: Result<Vec<T>, DocxError>)
    ensures
        r is Ok <==> all_readable::<T>(element@.elements(tag@)),
        r matches Ok(v) ==> all_read_from(v@, element@.elements(tag@)),
        r matches Err(e) ==> e is Xml,
{
    let ghost kids = element@.children();
    let mut values: Vec<T> = Vec::new();
    let mut i: usize = 0;
    while i < element.children.len()
        invariant
            i <= element.children@.len(),
            kids == element@.children(),
            kids.len() == element.children@.len(),
            values@.len() == elements_among(kids, tag@, i as nat).len(),
            all_readable::<T>(elements_among(kids, tag@, i as nat)),
            all_read_from(values@, elements_among(kids, tag@, i as nat)),
        decreases element.children@.len() - i,
    {
        assert(kids[i as int] == element.children@[i as int]@);
        match &element.children[i] {
            XmlNode::Element(child) => {
                if str_eq(child.tag.as_str(), tag) {
                    match T::from_element(child) {
                        Ok(v) => {
                            values.push(v);
                        },
                        Err(error) => {
                            proof {
                                lemma_elements_among_grow(kids, tag@, (i + 1) as nat, kids.len());
                                let at = values@.len() as int;
                                assert(elements_among(kids, tag@, (i + 1) as nat)[at] == child@);
                                assert(element@.elements(tag@)[at] == child@);
                            }
                            return Err(error);
                        },
                    }
                }
            },
            XmlNode::Text(_) => {},
        }
        i = i + 1;
    }
    Ok(values)
}

/// Reads every child that is an element, in order.
pub fn read_every<T: XmlCodec>(element: &XmlElement) -> (r: Result<Vec<T>, DocxError>)
    ensures
        r is Ok <==> all_readable::<T>(element@.all_elements()),
        r matches Ok(v) ==> all_read_from(v@, element@.all_elements()),
        r matches Err(e) ==> e is Xml,
{
    let ghost kids = element@.children();
    let mut values: Vec<T> = Vec::new();
    let mut i: usize = 0;
    while i < element.children.len()
        invariant
            i <= element.children@.len(),
            kids == element@.children(),
            kids.len() == element.children@.len(),
            values@.len() == all_elements_among(kids, i as nat).len(),
            all_readable::<T>(all_elements_among(kids, i as nat)),
            all_read_from(values@, all_elements_among(kids, i as nat)),
        decreases element.children@.len() - i,
    {
        assert(kids[i as int] == element.children@[i as int]@);
        match &element.children[i] {
            XmlNode::Element(child) => {
                match T::from_element(child) {
                    Ok(v) => {
                        values.push(v);
                    },
                    Err(error) => {
                        proof {
                            lemma_all_elements_among_grow(kids, (i + 1) as nat, kids.len());
                            let at = values@.len() as int;
                            assert(all_elements_among(kids, (i + 1) as nat)[at] == child@);
                            assert(element@.all_elements()[at] == child@);
                        }
                        return Err(error);
                    },
                }
            },
            XmlNode::Text(_) => {},
        }
        i = i + 1;
    }
    Ok(values)
}

/// A value that is written as a word in an attribute and read from one.
pub trait Keyword: Sized + Copy {
    /// The word that stands for the value.
    spec fn word(&self) -> Seq<char>;

    /// The value that a word stands for; nothing for an unknown word.
    spec fn of_word(word: Seq<char>) -> Option<Self>;

    /// The word that stands for the value.
    fn as_str(&self) -> (word: &'static str)
        ensures
            word@ == self.word(),
    ;

    /// Reads a word; nothing for an unknown one.
    fn parse(word: &str) -> (value: Option<Self>)
        ensures
            value == Self::of_word(word@),
    ;
}

/// The word of a value that may be absent.
pub open spec fn optional_word<T: Keyword>(value: Option<T>) -> Option<Seq<char>> {
    match value {
        Some(v) => Some(v.word()),
        None => None,
    }
}

/// Whether an attribute that may be absent holds a known word.
pub open spec fn word_readable<T: Keyword>(text: Option<Seq<char>>) -> bool {
    match text {
        Some(s) => T::of_word(s) is Some,
        None => true,
    }
}

/// The value that an attribute stands for, if it is there.
pub open spec fn word_read<T: Keyword>(text: Option<Seq<char>>) -> Option<T> {
    match text {
        Some(s) => T::of_word(s),
        None => None,
    }
}

/// The value that an attribute stands for; the usual one where it is absent
/// or unknown.
pub open spec fn word_or<T: Keyword>(text: Option<Seq<char>>, usual: T) -> T {
    match word_read::<T>(text) {
        Some(v) => v,
        None => usual,
    }
}

/// Writes the word of a value that may be absent.
pub fn word_attribute<T: Keyword>(value: Option<T>) -> (text: Option<String>)
    ensures
        optional_text(text) == optional_word(value),
{
    match value {
        Some(v) => Some(String::from_str(v.as_str())),
        None => None,
    }
}

/// Reads an attribute that holds a word and may be absent.
pub fn read_word<T: Keyword>(element: &str, text: Option<&String>) -> (r: Result<
    Option<T>,
    DocxError,
>)
    ensures
        r is Ok <==> word_readable::<T>(found_text(text)),
        r matches Ok(v) ==> v == word_read::<T>(found_text(text)),
        r matches Err(e) ==> e is Xml,
{
    match text {
        Some(s) => match T::parse(s.as_str()) {
            Some(v) => Ok(Some(v)),
            None => Err(DocxError::malformed(element, "an attribute holds an unknown word")),
        },
        None => Ok(None),
    }
}

/// Reads an attribute that holds a word; an absent one stands for the usual
/// value.
pub fn read_word_or<T: Keyword>(element: &str, text: Option<&String>, usual: T) -> (r: Result<
    T,
    DocxError,
>)
    ensures
        r is Ok <==> word_readable::<T>(found_text(text)),
        r matches Ok(v) ==> v == word_or(found_text(text), usual),
        r matches Err(e) ==> e is Xml,
{
    match read_word::<T>(element, text) {
        Ok(Some(v)) => Ok(v),
        Ok(None) => Ok(usual),
        Err(e) => Err(e),
    }
}

/// The characters of a text that may be absent.
pub open spec fn optional_text(value: Option<String>) -> Option<Seq<char>> {
    match value {
        Some(s) => Some(s@),
        None => None,
    }
}

/// The characters of a borrowed text that may be absent.
pub open spec fn found_text(value: Option<&String>) -> Option<Seq<char>> {
    match value {
        Some(s) => Some(s@),
        None => None,
    }
}

/// The text of an integer attribute that may be absent.
pub open spec fn optional_int_text(value: Option<isize>) -> Option<Seq<char>> {
    match value {
        Some(n) => Some(decimal(n as int)),
        None => None,
    }
}

/// The text of a boolean attribute that may be absent.
pub open spec fn optional_bool_text(value: Option<bool>) -> Option<Seq<char>> {
    match value {
        Some(b) => Some(bool_literal(b)),
        None => None,
    }
}

/// What a boolean attribute is written with is `1` or `0`; neither the
/// word `true` nor the word `false` stands in it; escaping leaves it as it
/// is; and read back it is the boolean that was written.
pub proof fn lemma_bool_literal(value: bool)
    ensures
        bool_literal(value) == seq!['1'] || bool_literal(value) == seq!['0'],
        !includes(bool_literal(value), seq!['t', 'r', 'u', 'e']),
        !includes(bool_literal(value), seq!['f', 'a', 'l', 's', 'e']),
        escaped(bool_literal(value)) == bool_literal(value),
        bool_value(bool_literal(value)) == Some(value),
{
    let literal = bool_literal(value);
    assert(escaped(literal) =~= literal) by {
        reveal_with_fuel(escaped, 2);
        assert(literal.drop_first() =~= Seq::<char>::empty());
    }
    assert(literal[0] != 't' && literal[0] != 'f');
    assert(seq!['1'][0] != seq!['0'][0]);
    assert(seq!['1'].len() != seq!['t', 'r', 'u', 'e'].len());
    assert(seq!['1'].len() != seq!['f', 'a', 'l', 's', 'e'].len());
}

/// The text of a boolean attribute: a space, the name, and `1` or `0` in
/// double quotes.
pub proof fn lemma_bool_attribute_text(key: Seq<char>, value: bool)
    ensures
        attribute_text((key, bool_literal(value))) == seq![' '] + key + seq!['=', '"']
            + bool_literal(value) + seq!['"'],
{
    lemma_bool_literal(value);
}

/// Writes an integer attribute value.
pub fn int_attribute(value: Option<isize>) -> (text: Option<String>)
    ensures
        optional_text(text) == optional_int_text(value),
{
    match value {
        Some(n) => Some(decimal_i64(n as i64)),
        None => None,
    }
}

/// Writes a boolean attribute value: `1` or `0`.
pub fn bool_attribute(value: Option<bool>) -> (text: Option<String>)
    ensures
        optional_text(text) == optional_bool_text(value),
{
    match value {
        Some(b) => Some(String::from_str(serialize_bool_ooxml(b))),
        None => None,
    }
}

/// Writes a text attribute value.
pub fn text_attribute(value: &Option<String>) -> (text: Option<String>)
    ensures
        optional_text(text) == optional_text(*value),
{
    match value {
        Some(s) => Some(s.clone()),
        None => None,
    }
}

/// Whether an attribute that may be absent can be read as an integer: it is
/// absent, or a decimal integer of the machine's word size.
pub open spec fn int_readable(text: Option<Seq<char>>) -> bool {
    match text {
        Some(s) => match integer_value(s) {
            Some(v) => isize::MIN <= v <= isize::MAX,
            None => false,
        },
        None => true,
    }
}

/// The integer that a readable attribute stands for.
pub open spec fn int_read(text: Option<Seq<char>>) -> Option<isize> {
    match text {
        Some(s) => match integer_value(s) {
            Some(v) => Some(v as isize),
            None => None,
        },
        None => None,
    }
}

/// Reads an integer attribute that may be absent.
pub fn read_int(element: &str, text: Option<&String>) -> (r: Result<Option<isize>, DocxError>)
    ensures
        r is Ok <==> int_readable(found_text(text)),
        r matches Ok(v) ==> v == int_read(found_text(text)),
        r matches Err(e) ==> e is Xml,
{
    match text {
        Some(s) => match parse_isize(s.as_str()) {
            Some(v) => Ok(Some(v)),
            None => Err(DocxError::malformed(element, "an attribute is no integer")),
        },
        None => Ok(None),
    }
}

/// Whether an attribute that may be absent can be read as a boolean: it is
/// absent, or one of `1`, `0`, `true`, `false`.
pub open spec fn bool_readable(text: Option<Seq<char>>) -> bool {
    match text {
        Some(s) => bool_value(s) is Some,
        None => true,
    }
}

/// The boolean that a readable attribute stands for.
pub open spec fn bool_read(text: Option<Seq<char>>) -> Option<bool> {
    match text {
        Some(s) => bool_value(s),
        None => None,
    }
}

/// Reads a boolean attribute that may be absent.
pub fn read_bool(element: &str, text: Option<&String>) -> (r: Result<Option<bool>, DocxError>)
    ensures
        r is Ok <==> bool_readable(found_text(text)),
        r matches Ok(v) ==> v == bool_read(found_text(text)),
        r matches Err(e) ==> e is Xml,
{
    match text {
        Some(s) => match parse_bool(s.as_str()) {
            Some(v) => Ok(Some(v)),
            None => Err(DocxError::malformed(element, "an attribute is no boolean")),
        },
        None => Ok(None),
    }
}

/// Whether an attribute that may be absent can be read as a count: it is
/// absent, or decimal digits that fit 64 bits.
pub open spec fn count_readable(text: Option<Seq<char>>) -> bool {
    match text {
        Some(s) => match digits_value(s) {
            Some(v) => v <= u64::MAX,
            None => false,
        },
        None => true,
    }
}

/// The count that a readable attribute stands for; zero where it is absent.
pub open spec fn count_read(text: Option<Seq<char>>) -> u64 {
    match text {
        Some(s) => match digits_value(s) {
            Some(v) => v as u64,
            None => 0,
        },
        None => 0,
    }
}

/// Reads a count attribute; an absent one counts as zero.
pub fn read_count(element: &str, text: Option<&String>) -> (r: Result<u64, DocxError>)
    ensures
        r is Ok <==> count_readable(found_text(text)),
        r matches Ok(v) ==> v == count_read(found_text(text)),
        r matches Err(e) ==> e is Xml,
{
    match text {
        Some(s) => match parse_u64(s.as_str()) {
            Some(v) => Ok(v),
            None => Err(DocxError::malformed(element, "an attribute is no count")),
        },
        None => Ok(0),
    }
}

/// Whether an attribute that may be absent can be read as an integer
/// between two bounds: it is absent, or a decimal integer within them.
pub open spec fn bounded_readable(text: Option<Seq<char>>, low: int, high: int) -> bool {
    match text {
        Some(s) => match integer_value(s) {
            Some(v) => low <= v <= high,
            None => false,
        },
        None => true,
    }
}

/// The integer that a readable attribute stands for; zero where it is
/// absent.
pub open spec fn bounded_read(text: Option<Seq<char>>) -> int {
    match text {
        Some(s) => match integer_value(s) {
            Some(v) => v,
            None => 0,
        },
        None => 0,
    }
}

/// Reads a 32-bit integer attribute; an absent one counts as zero.
pub fn read_i32(element: &str, text: Option<&String>) -> (r: Result<i32, DocxError>)
    ensures
        r is Ok <==> bounded_readable(found_text(text), i32::MIN as int, i32::MAX as int),
        r matches Ok(v) ==> v == bounded_read(found_text(text)),
        r matches Err(e) ==> e is Xml,
{
    match text {
        Some(s) => match parse_i64(s.as_str()) {
            Some(v) => {
                if v >= -2147483648 && v <= 2147483647 {
                    Ok(v as i32)
                } else {
                    Err(DocxError::malformed(element, "an attribute is out of range"))
                }
            },
            None => Err(DocxError::malformed(element, "an attribute is no integer")),
        },
        None => Ok(0),
    }
}

/// Reads an unsigned 32-bit integer attribute; an absent one counts as zero.
pub fn read_u32(element: &str, text: Option<&String>) -> (r: Result<u32, DocxError>)
    ensures
        r is Ok <==> bounded_readable(found_text(text), 0, u32::MAX as int),
        r matches Ok(v) ==> v == bounded_read(found_text(text)),
        r matches Err(e) ==> e is Xml,
{
    match text {
        Some(s) => match parse_i64(s.as_str()) {
            Some(v) => {
                if v >= 0 && v <= 4294967295 {
                    Ok(v as u32)
                } else {
                    Err(DocxError::malformed(element, "an attribute is out of range"))
                }
            },
            None => Err(DocxError::malformed(element, "an attribute is no integer")),
        },
        None => Ok(0),
    }
}

/// The boolean that a readable attribute stands for; false where it is
/// absent.
pub open spec fn flag_read(text: Option<Seq<char>>) -> bool {
    match text {
        Some(s) => bool_value(s) == Some(true),
        None => false,
    }
}

/// Reads a boolean attribute; an absent one counts as false.
pub fn read_flag(element: &str, text: Option<&String>) -> (r: Result<bool, DocxError>)
    ensures
        r is Ok <==> bool_readable(found_text(text)),
        r matches Ok(v) ==> v == flag_read(found_text(text)),
        r matches Err(e) ==> e is Xml,
{
    match text {
        Some(s) => match parse_bool(s.as_str()) {
            Some(v) => Ok(v),
            None => Err(DocxError::malformed(element, "an attribute is no boolean")),
        },
        None => Ok(false),
    }
}

/// Reads a text attribute that may be absent.
pub fn read_text(text: Option<&String>) -> (value: Option<String>)
    ensures
        optional_text(value) == found_text(text),
{
    match text {
        Some(s) => Some(s.clone()),
        None => None,
    }
}

/// The characters of a text attribute; none where it is absent.
pub open spec fn text_or_empty(text: Option<Seq<char>>) -> Seq<char> {
    match text {
        Some(s) => s,
        None => Seq::empty(),
    }
}

/// Reads a text attribute; an absent one counts as empty.
pub fn read_text_or_empty(text: Option<&String>) -> (value: String)
    ensures
        value@ == text_or_empty(found_text(text)),
{
    match text {
        Some(s) => s.clone(),
        None => String::new(),
    }
}

} // verus!
