//! Reading XML text into a tree.
//!
//! `hard_xml`'s reader cuts the text into tokens. The tokens are turned
//! into plain values, attribute values and character data are unescaped,
//! and [`parse_tokens`] builds the tree: one root element, every element
//! closed by a tag of its own name. Comments, processing instructions and
//! declarations are passed over.

use vstd::prelude::*;
use vstd::string::StringExecFns;
use crate::error::DocxError;
use crate::lexical::str_eq;
use crate::xml::{XmlElement, XmlTree};
use hard_xml::xmlparser::{ElementEnd, Token};

verus! {

/// `hard_xml::XmlReader`: hands out the tokens of a text one by one.
#[verifier::external_type_specification]
#[verifier::external_body]
pub struct ExXmlReader<'a>(hard_xml::XmlReader<'a>);

/// `xmlparser::Token`, as `hard_xml` hands it out.
#[verifier::external_type_specification]
#[verifier::external_body]
pub struct ExToken<'a>(hard_xml::xmlparser::Token<'a>);

/// `xmlparser::Error`: why the text could not be cut into tokens.
#[verifier::external_type_specification]
#[verifier::external_body]
pub struct ExParserError(hard_xml::xmlparser::Error);

/// `hard_xml::XmlError`: why escaped text could not be unescaped.
#[verifier::external_type_specification]
#[verifier::external_body]
pub struct ExXmlError(hard_xml::XmlError);

/// The kinds of token that the reader tells apart.
#[derive(Debug, Clone, Copy, PartialEq, Eq)]
pub enum TokenKind {
    /// The start of an element: `<` and its name.
    ElementStart,
    /// An attribute: name and quoted value.
    Attribute,
    /// The end of a start tag: `>`.
    ElementOpen,
    /// A closing tag: `</`, a name and `>`.
    ElementClose,
    /// The end of an empty element: `/>`.
    ElementEmpty,
    /// Character data.
    Text,
    /// A section of unescaped character data.
    Cdata,
    /// A declaration, a comment or a processing instruction.
    Other,
}

/// What a token of the reader holds: its kind, the prefix and the local
/// part of the name where it has one, and its value or character data
/// as they stand in the text.
pub struct RawToken {
    pub kind: TokenKind,
    pub prefix: Seq<char>,
    pub local: Seq<char>,
    pub text: Seq<char>,
}

/// The tokens that `hard_xml`'s reader cuts a text into, in order; `None`
/// where the reader reports an error, after which nothing follows.
pub uninterp spec fn scanned(text: Seq<char>) -> Seq<Option<RawToken>>;

/// The tokens that a reader has yet to hand out.
pub uninterp spec fn pending(reader: hard_xml::XmlReader) -> Seq<Option<RawToken>>;

/// What a token holds.
pub uninterp spec fn token_value(token: hard_xml::xmlparser::Token) -> RawToken;

/// What `hard_xml` makes of escaped text: the text with each entity
/// replaced by the character it stands for; `None` where an entity is
/// unknown or not closed.
pub uninterp spec fn unescaped(raw: Seq<char>) -> Option<Seq<char>>;

/// `hard_xml::XmlReader::new`: a reader that has the tokens of the text yet
/// to hand out.
#[verifier::external_body]
fn new_reader<'a>(text: &'a str) -> (reader: hard_xml::XmlReader<'a>)
    ensures
        pending(reader) == scanned(text@),
{
    hard_xml::XmlReader::new(text)
}

/// `hard_xml::XmlReader::next`: hands out the first token that is pending,
/// or the error that stands in its place; nothing once none is pending.
#[verifier::external_body]
fn next_token<'a>(reader: &mut hard_xml::XmlReader<'a>) -> (r: Option<
    Result<hard_xml::xmlparser::Token<'a>, hard_xml::xmlparser::Error>,
>)
    ensures
        pending(*old(reader)).len() == 0 ==> r is None && pending(*final(reader)) == pending(
            *old(reader),
        ),
        pending(*old(reader)).len() > 0 ==> r is Some && pending(*final(reader)) == pending(
            *old(reader),
        ).skip(1),
        pending(*old(reader)).len() > 0 ==> match pending(*old(reader))[0] {
            Some(value) => r matches Some(Ok(token)) && token_value(token) == value,
            None => r matches Some(Err(_)),
        },
{
    reader.next()
}

/// Tells the variants of `xmlparser::Token` apart.
#[verifier::external_body]
fn token_kind(token: &hard_xml::xmlparser::Token) -> (kind: TokenKind)
    ensures
        kind == token_value(*token).kind,
{
    match token {
        Token::ElementStart { .. } => TokenKind::ElementStart,
        Token::Attribute { .. } => TokenKind::Attribute,
        Token::ElementEnd { end: ElementEnd::Open, .. } => TokenKind::ElementOpen,
        Token::ElementEnd { end: ElementEnd::Close(..), .. } => TokenKind::ElementClose,
        Token::ElementEnd { end: ElementEnd::Empty, .. } => TokenKind::ElementEmpty,
        Token::Text { .. } => TokenKind::Text,
        Token::Cdata { .. } => TokenKind::Cdata,
        _ => TokenKind::Other,
    }
}

/// Picks the prefix and the local part of the name out of the variants of
/// `xmlparser::Token` that have one; both are empty for the others.
#[verifier::external_body]
fn token_name(token: &hard_xml::xmlparser::Token) -> (name: (String, String))
    ensures
        name.0@ == token_value(*token).prefix,
        name.1@ == token_value(*token).local,
{
    match token {
        Token::ElementStart { prefix, local, .. } => (prefix.as_str().to_owned(), local.as_str().to_owned()),
        Token::Attribute { prefix, local, .. } => (prefix.as_str().to_owned(), local.as_str().to_owned()),
        Token::ElementEnd { end: ElementEnd::Close(prefix, local), .. } => {
            (prefix.as_str().to_owned(), local.as_str().to_owned())
        },
        _ => (String::new(), String::new()),
    }
}

/// Picks the value of an attribute or the character data out of the
/// variants of `xmlparser::Token` that have one; empty for the others.
#[verifier::external_body]
fn token_text(token: &hard_xml::xmlparser::Token) -> (text: String)
    ensures
        text@ == token_value(*token).text,
{
    match token {
        Token::Attribute { value, .. } => value.as_str().to_owned(),
        Token::Text { text } => text.as_str().to_owned(),
        Token::Cdata { text, .. } => text.as_str().to_owned(),
        _ => String::new(),
    }
}

/// `hard_xml::utils::xml_unescape`: the text with entities replaced, or an
/// error where an entity is unknown or not closed.
#[verifier::external_body]
fn unescape(raw: &str) -> (r: Result<String, hard_xml::XmlError>)
    ensures
        match unescaped(raw@) {
            Some(text) => r matches Ok(s) && s@ == text,
            None => r is Err,
        },
{
    hard_xml::utils::xml_unescape(raw).map(|text| text.into_owned())
}

/// A token as the tree builder takes it: names are qualified, values and
/// character data are unescaped.
#[derive(Debug)]
pub enum XmlToken {
    /// The start of an element with the given name.
    Start(String),
    /// An attribute: name and value.
    Attribute(String, String),
    /// The end of a start tag; content follows.
    Open,
    /// The closing tag of the element with the given name.
    Close(String),
    /// The end of an element without content.
    Empty,
    /// Character data.
    Text(String),
    /// A declaration, a comment or a processing instruction.
    Other,
}

/// The mathematical value of a token.
pub enum TokenModel {
    Start(Seq<char>),
    Attribute(Seq<char>, Seq<char>),
    Open,
    Close(Seq<char>),
    Empty,
    Text(Seq<char>),
    Other,
}

impl View for XmlToken {
    type V = TokenModel;

    open spec fn view(&self) -> TokenModel {
        match self {
            XmlToken::Start(name) => TokenModel::Start(name@),
            XmlToken::Attribute(name, value) => TokenModel::Attribute(name@, value@),
            XmlToken::Open => TokenModel::Open,
            XmlToken::Close(name) => TokenModel::Close(name@),
            XmlToken::Empty => TokenModel::Empty,
            XmlToken::Text(text) => TokenModel::Text(text@),
            XmlToken::Other => TokenModel::Other,
        }
    }
}

/// The values of a list of tokens.
pub open spec fn tokens_model(tokens: Seq<XmlToken>) -> Seq<TokenModel> {
    Seq::new(tokens.len(), |i: int| tokens[i]@)
}

/// A name with its prefix: the local part alone where there is no prefix,
/// else prefix, colon and local part.
pub open spec fn qualified(prefix: Seq<char>, local: Seq<char>) -> Seq<char> {
    if prefix.len() == 0 {
        local
    } else {
        prefix + seq![':'] + local
    }
}

/// The token that is made of a kind, a name and a text. `text` is the value
/// of an attribute or character data, `None` where unescaping it failed;
/// it counts only for the kinds that have one.
pub open spec fn assembled(
    kind: TokenKind,
    prefix: Seq<char>,
    local: Seq<char>,
    text: Option<Seq<char>>,
) -> Option<TokenModel> {
    match kind {
        TokenKind::ElementStart => Some(TokenModel::Start(qualified(prefix, local))),
        TokenKind::Attribute => match text {
            Some(value) => Some(TokenModel::Attribute(qualified(prefix, local), value)),
            None => None,
        },
        TokenKind::ElementOpen => Some(TokenModel::Open),
        TokenKind::ElementClose => Some(TokenModel::Close(qualified(prefix, local))),
        TokenKind::ElementEmpty => Some(TokenModel::Empty),
        TokenKind::Text => match text {
            Some(data) => Some(TokenModel::Text(data)),
            None => None,
        },
        TokenKind::Cdata => match text {
            Some(data) => Some(TokenModel::Text(data)),
            None => None,
        },
        TokenKind::Other => Some(TokenModel::Other),
    }
}

/// The text of a raw token as the tree builder takes it: unescaped, but for
/// a section of unescaped character data, which is taken as it stands.
pub open spec fn cooked_text(raw: RawToken) -> Option<Seq<char>> {
    if raw.kind == TokenKind::Cdata {
        Some(raw.text)
    } else {
        unescaped(raw.text)
    }
}

/// The token that the tree builder takes for a raw token; `None` where the
/// reader reported an error or unescaping fails.
pub open spec fn cooked(raw: Option<RawToken>) -> Option<TokenModel> {
    match raw {
        Some(token) => assembled(token.kind, token.prefix, token.local, cooked_text(token)),
        None => None,
    }
}

/// The tokens that the tree builder takes for the first `count` raw tokens;
/// `None` where one of them has none.
pub open spec fn cooked_among(raws: Seq<Option<RawToken>>, count: nat) -> Option<Seq<TokenModel>>
    decreases count,
{
    if count == 0 || count > raws.len() {
        Some(Seq::empty())
    } else {
        match (cooked_among(raws, (count - 1) as nat), cooked(raws[count - 1])) {
            (Some(before), Some(token)) => Some(before.push(token)),
            _ => None,
        }
    }
}

/// Once a raw token has no token for the tree builder, the whole list has
/// none.
pub proof fn lemma_cooked_among_fails(raws: Seq<Option<RawToken>>, count: nat, more: nat)
    requires
        count <= more <= raws.len(),
        cooked_among(raws, count) is None,
    ensures
        cooked_among(raws, more) is None,
    decreases more,
{
    if more > count {
        lemma_cooked_among_fails(raws, count, (more - 1) as nat);
    }
}

/// Joins prefix and local part of a name.
pub fn qualify(prefix: &str, local: &str) -> (name: String)
    ensures
        name@ == qualified(prefix@, local@),
{
    if prefix.unicode_len() == 0 {
        String::from_str(local)
    } else {
        proof {
            reveal_strlit(":");
            assert(":"@ =~= seq![':']);
        }
        String::from_str(prefix).concat(":").concat(local)
    }
}

/// Makes the token that the tree builder takes out of a kind, a name and a
/// text. `text` is the value of an attribute or character data, `None`
/// where unescaping it failed.
pub fn assemble_token(kind: TokenKind, prefix: &str, local: &str, text: Option<String>) -> (token:
    Option<XmlToken>)
    ensures
        match assembled(
            kind,
            prefix@,
            local@,
            match text {
                Some(t) => Some(t@),
                None => None,
            },
        ) {
            Some(model) => token matches Some(t) && t@ == model,
            None => token is None,
        },
{
    match kind {
        TokenKind::ElementStart => Some(XmlToken::Start(qualify(prefix, local))),
        TokenKind::Attribute => match text {
            Some(value) => Some(XmlToken::Attribute(qualify(prefix, local), value)),
            None => None,
        },
        TokenKind::ElementOpen => Some(XmlToken::Open),
        TokenKind::ElementClose => Some(XmlToken::Close(qualify(prefix, local))),
        TokenKind::ElementEmpty => Some(XmlToken::Empty),
        TokenKind::Text => match text {
            Some(data) => Some(XmlToken::Text(data)),
            None => None,
        },
        TokenKind::Cdata => match text {
            Some(data) => Some(XmlToken::Text(data)),
            None => None,
        },
        TokenKind::Other => Some(XmlToken::Other),
    }
}

/// Cuts a text into the tokens that the tree builder takes. Fails where
/// the reader reports an error or an entity cannot be unescaped.
pub fn tokenize(text: &str) -> (r: Result<Vec<XmlToken>, DocxError>)
    ensures
        match cooked_among(scanned(text@), scanned(text@).len()) {
            Some(models) => r matches Ok(tokens) && tokens_model(tokens@) == models,
            None => r matches Err(e) && e is Xml,
        },
{
    let ghost all = scanned(text@);
    let mut reader = new_reader(text);
    let mut tokens: Vec<XmlToken> = Vec::new();
    let ghost mut done: nat = 0;
    proof {
        assert(all.skip(0) =~= all);
        assert(tokens_model(tokens@) =~= Seq::<TokenModel>::empty());
    }
    loop
        invariant
            all == scanned(text@),
            done <= all.len(),
            pending(reader) == all.skip(done as int),
            cooked_among(all, done) == Some(tokens_model(tokens@)),
        ensures
            done == all.len(),
            cooked_among(all, done) == Some(tokens_model(tokens@)),
        decreases all.len() - done,
    {
        let ghost first = pending(reader)[0];
        let next = next_token(&mut reader);
        match next {
            None => {
                break ;
            },
            Some(Err(_)) => {
                proof {
                    assert(first == all[done as int]);
                    assert(cooked_among(all, done + 1) is None);
                    lemma_cooked_among_fails(all, done + 1, all.len());
                }
                return Err(DocxError::malformed("XML", "the text is not well formed"));
            },
            Some(Ok(token)) => {
                let kind = token_kind(&token);
                let name = token_name(&token);
                let raw_text = token_text(&token);
                let cooked_text = match kind {
                    TokenKind::Cdata => Some(raw_text),
                    _ => match unescape(raw_text.as_str()) {
                        Ok(t) => Some(t),
                        Err(_) => None,
                    },
                };
                proof {
                    assert(first == all[done as int]);
                    assert(all.skip(done as int).skip(1) =~= all.skip(done as int + 1));
                }
                match assemble_token(kind, name.0.as_str(), name.1.as_str(), cooked_text) {
                    Some(t) => {
                        let ghost before = tokens_model(tokens@);
                        tokens.push(t);
                        proof {
                            assert(tokens_model(tokens@) =~= before.push(t@));
                            done = done + 1;
                        }
                    },
                    None => {
                        proof {
                            assert(cooked_among(all, done + 1) is None);
                            lemma_cooked_among_fails(all, done + 1, all.len());
                        }
                        return Err(DocxError::malformed("XML", "an entity cannot be read"));
                    },
                }
            },
        }
    }
    Ok(tokens)
}

/// The position of the first token from `at` on that is no attribute.
pub open spec fn attributes_end(tokens: Seq<TokenModel>, at: int) -> int
    decreases tokens.len() - at,
{
    if 0 <= at < tokens.len() && tokens[at] is Attribute {
        attributes_end(tokens, at + 1)
    } else {
        at
    }
}

/// The attributes that the tokens from `from` up to `to` stand for.
pub open spec fn attributes_between(tokens: Seq<TokenModel>, from: int, to: int) -> Seq<
    (Seq<char>, Seq<char>),
> {
    Seq::new(
        (to - from) as nat,
        |i: int|
            match tokens[from + i] {
                TokenModel::Attribute(key, value) => (key, value),
                _ => (Seq::empty(), Seq::empty()),
            },
    )
}

/// The element that starts at position `at`, with the position after it:
/// a start with a name, attributes, and then either the end of an empty
/// element or content up to the closing tag of the same name.
pub open spec fn element_at(tokens: Seq<TokenModel>, at: int) -> Option<(XmlTree, int)>
    decreases tokens.len() - at, 0nat,
{
    if 0 <= at < tokens.len() && tokens[at] is Start {
        let tag = tokens[at]->Start_0;
        let end = attributes_end(tokens, at + 1);
        let attributes = attributes_between(tokens, at + 1, end);
        if at < end < tokens.len() && tokens[end] is Empty {
            Some((XmlTree::Element { tag, attributes, children: Seq::empty() }, end + 1))
        } else if at < end < tokens.len() && tokens[end] is Open {
            match content_at(tokens, end + 1, tag, Seq::empty()) {
                Some((children, after)) => Some(
                    (XmlTree::Element { tag, attributes, children }, after),
                ),
                None => None,
            }
        } else {
            None
        }
    } else {
        None
    }
}

/// The content of the element named `tag` from position `at` on, after
/// `before`, with the position after the closing tag: character data and
/// elements in order; anything else between them is passed over.
pub open spec fn content_at(
    tokens: Seq<TokenModel>,
    at: int,
    tag: Seq<char>,
    before: Seq<XmlTree>,
) -> Option<(Seq<XmlTree>, int)>
    decreases tokens.len() - at, 1nat,
{
    if at < 0 || at >= tokens.len() {
        None
    } else {
        match tokens[at] {
            TokenModel::Close(name) => if name == tag {
                Some((before, at + 1))
            } else {
                None
            },
            TokenModel::Text(data) => content_at(
                tokens,
                at + 1,
                tag,
                before.push(XmlTree::Text(data)),
            ),
            TokenModel::Other => content_at(tokens, at + 1, tag, before),
            TokenModel::Start(_) => match element_at(tokens, at) {
                Some((child, after)) => if at < after <= tokens.len() {
                    content_at(tokens, after, tag, before.push(child))
                } else {
                    None
                },
                None => None,
            },
            _ => None,
        }
    }
}

/// The position of the first token from `at` on that is an element start,
/// character data or the end of the list.
pub open spec fn prologue_end(tokens: Seq<TokenModel>, at: int) -> int
    decreases tokens.len() - at,
{
    if 0 <= at < tokens.len() && tokens[at] is Other {
        prologue_end(tokens, at + 1)
    } else {
        at
    }
}

/// The tree that a list of tokens stands for: the root element, which
/// follows any declarations and comments. What follows the root element is
/// passed over.
pub open spec fn parsed(tokens: Seq<TokenModel>) -> Option<XmlTree> {
    match element_at(tokens, prologue_end(tokens, 0)) {
        Some((root, _)) => Some(root),
        None => None,
    }
}

/// The position after an element that was read; zero where none was.
pub open spec fn element_end(read: Option<(XmlTree, int)>) -> int {
    match read {
        Some((_, after)) => after,
        None => 0,
    }
}

/// The position after content that was read; zero where none was.
pub open spec fn content_end(read: Option<(Seq<XmlTree>, int)>) -> int {
    match read {
        Some((_, after)) => after,
        None => 0,
    }
}

/// An element ends after the position where it starts.
pub proof fn lemma_element_at_advances(tokens: Seq<TokenModel>, at: int)
    requires
        element_at(tokens, at) is Some,
    ensures
        at < element_end(element_at(tokens, at)) <= tokens.len(),
    decreases tokens.len() - at, 0nat,
{
    let end = attributes_end(tokens, at + 1);
    if tokens[end] is Open {
        lemma_content_at_advances(tokens, end + 1, tokens[at]->Start_0, Seq::empty());
    }
}

/// Content ends after the position where it starts.
pub proof fn lemma_content_at_advances(
    tokens: Seq<TokenModel>,
    at: int,
    tag: Seq<char>,
    before: Seq<XmlTree>,
)
    requires
        content_at(tokens, at, tag, before) is Some,
    ensures
        at < content_end(content_at(tokens, at, tag, before)) <= tokens.len(),
    decreases tokens.len() - at, 1nat,
{
    match tokens[at] {
        TokenModel::Close(name) => {},
        TokenModel::Text(data) => {
            lemma_content_at_advances(tokens, at + 1, tag, before.push(XmlTree::Text(data)));
        },
        TokenModel::Other => {
            lemma_content_at_advances(tokens, at + 1, tag, before);
        },
        TokenModel::Start(_) => {
            match element_at(tokens, at) {
                Some((child, after)) => {
                    assert(at < after <= tokens.len());
                    lemma_content_at_advances(tokens, after, tag, before.push(child));
                },
                None => {},
            }
        },
        _ => {},
    }
}

/// Reads the element that starts at position `at`.
fn parse_element_at(tokens: &Vec<XmlToken>, at: usize) -> (r: Option<(XmlElement, usize)>)
    ensures
        match element_at(tokens_model(tokens@), at as int) {
            Some((tree, after)) => r matches Some((element, next)) && element@ == tree && next
                == after,
            None => r is None,
        },
    decreases tokens@.len() - at,
{
    let ghost models = tokens_model(tokens@);
    if at >= tokens.len() {
        return None;
    }
    assert(models[at as int] == tokens@[at as int]@);
    let mut element = match &tokens[at] {
        XmlToken::Start(name) => XmlElement::new(name.as_str()),
        _ => {
            return None;
        },
    };
    let ghost tag = element.tag@;
    let mut end: usize = at + 1;
    proof {
        assert(attributes_between(models, at + 1, at + 1) =~= Seq::empty());
    }
    loop
        invariant
            models == tokens_model(tokens@),
            at < end <= tokens@.len(),
            attributes_end(models, at + 1) == attributes_end(models, end as int),
            element@ == (XmlTree::Element {
                tag,
                attributes: attributes_between(models, at + 1, end as int),
                children: Seq::empty(),
            }),
        ensures
            at < end <= tokens@.len(),
            end == attributes_end(models, at + 1),
            element@ == (XmlTree::Element {
                tag,
                attributes: attributes_between(models, at + 1, end as int),
                children: Seq::empty(),
            }),
        decreases tokens@.len() - end,
    {
        if end >= tokens.len() {
            break ;
        }
        assert(models[end as int] == tokens@[end as int]@);
        match &tokens[end] {
            XmlToken::Attribute(key, value) => {
                element.push_attribute(key.as_str(), value.clone());
                proof {
                    assert(attributes_between(models, at + 1, end + 1) =~= attributes_between(
                        models,
                        at + 1,
                        end as int,
                    ).push((key@, value@)));
                }
                end = end + 1;
            },
            _ => {
                break ;
            },
        }
    }
    if end >= tokens.len() {
        return None;
    }
    assert(models[end as int] == tokens@[end as int]@);
    match &tokens[end] {
        XmlToken::Empty => {
            return Some((element, end + 1));
        },
        XmlToken::Open => {},
        _ => {
            return None;
        },
    }
    let ghost attributes = attributes_between(models, at + 1, end as int);
    let ghost start = end + 1;
    let mut pos: usize = end + 1;
    loop
        invariant
            models == tokens_model(tokens@),
            at < pos <= tokens@.len(),
            models[at as int] == TokenModel::Start(tag),
            end == attributes_end(models, at + 1),
            at < end < tokens@.len(),
            models[end as int] is Open,
            start == end + 1,
            attributes == attributes_between(models, at + 1, end as int),
            element@ == (XmlTree::Element { tag, attributes, children: element@.children() }),
            content_at(models, start, tag, Seq::empty()) == content_at(
                models,
                pos as int,
                tag,
                element@.children(),
            ),
        decreases tokens@.len() - pos,
    {
        if pos >= tokens.len() {
            return None;
        }
        assert(models[pos as int] == tokens@[pos as int]@);
        match &tokens[pos] {
            XmlToken::Close(name) => {
                if str_eq(name.as_str(), element.tag.as_str()) {
                    return Some((element, pos + 1));
                } else {
                    return None;
                }
            },
            XmlToken::Text(data) => {
                element.push_text(data.clone());
                pos = pos + 1;
            },
            XmlToken::Other => {
                pos = pos + 1;
            },
            XmlToken::Start(_) => {
                match parse_element_at(tokens, pos) {
                    Some((child, next)) => {
                        proof {
                            lemma_element_at_advances(models, pos as int);
                        }
                        element.push_element(child);
                        pos = next;
                    },
                    None => {
                        return None;
                    },
                }
            },
            _ => {
                return None;
            },
        }
    }
}

/// Builds the tree that a list of tokens stands for. Fails where the
/// tokens do not begin, after declarations and comments, with a complete
/// element.
pub fn parse_tokens(tokens: &Vec<XmlToken>) -> (r: Result<XmlElement, DocxError>)
    ensures
        match parsed(tokens_model(tokens@)) {
            Some(tree) => r matches Ok(root) && root@ == tree,
            None => r matches Err(e) && e is Xml,
        },
{
    let ghost models = tokens_model(tokens@);
    let mut at: usize = 0;
    while at < tokens.len() && matches!(tokens[at], XmlToken::Other)
        invariant
            at <= tokens@.len(),
            models == tokens_model(tokens@),
            prologue_end(models, 0) == prologue_end(models, at as int),
        decreases tokens@.len() - at,
    {
        assert(models[at as int] == tokens@[at as int]@);
        at = at + 1;
    }
    proof {
        if at < tokens@.len() {
            assert(models[at as int] == tokens@[at as int]@);
        }
    }
    match parse_element_at(tokens, at) {
        Some((root, _)) => Ok(root),
        None => Err(DocxError::malformed("XML", "there is no complete root element")),
    }
}

impl XmlElement {
    /// Reads XML text into a tree. Fails where the reader reports an
    /// error, an entity cannot be unescaped, or the tokens do not make a
    /// complete root element.
    pub fn from_text(text: &str) -> (r: Result<XmlElement, DocxError>)
        ensures
            match XmlElement::read(text@) {
                Some(tree) => r matches Ok(root) && root@ == tree,
                None => r matches Err(e) && e is Xml,
            },
    {
        match tokenize(text) {
            Ok(tokens) => parse_tokens(&tokens),
            Err(e) => Err(e),
        }
    }

    /// The tree that a text stands for: its tokens, as the reader cuts
    /// them, made into a tree.
    pub open spec fn read(text: Seq<char>) -> Option<XmlTree> {
        match cooked_among(scanned(text), scanned(text).len()) {
            Some(models) => parsed(models),
            None => None,
        }
    }
}

} // verus!
