//! Attributes, and what the macros read from them.

use crate::failure::Span;
use crate::text::{concat_all, concat_strings, map_texts, same_text};
use vstd::prelude::*;

verus! {

/// An attribute. `path` is the path that it is named by, as text, and `tokens` the
/// whole attribute, as text.
pub struct Attribute {
    pub inner: bool,
    pub path: String,
    pub path_span: Span,
    pub meta: Meta,
    pub tokens: String,
    pub span: Span,
}

/// What an attribute holds besides its path.
pub enum Meta {
    /// Nothing.
    Path,
    /// Tokens in brackets. `close` is where the closing bracket stands.
    List { tokens: Vec<Token>, close: Span },
    /// A value behind an equals sign, which stands at `eq`.
    NameValue { value: Value, eq: Span },
}

/// The value of an attribute, with its text.
pub struct Value {
    pub kind: ValueKind,
    pub tokens: String,
    pub span: Span,
}

/// What the value of an attribute is.
pub enum ValueKind {
    /// A string literal with this value.
    Text(String),
    /// An integer literal with these decimal digits.
    Integer(String),
    /// An array of elements.
    Array(Vec<Element>),
    /// Any other expression.
    Other,
}

/// An element of an array: the decimal digits of an integer literal, or nothing for
/// any other expression.
pub struct Element {
    pub digits: Option<String>,
    pub span: Span,
}

/// A token tree. A group stands where its opening bracket stands.
pub struct Token {
    pub kind: TokenKind,
    pub span: Span,
}

/// What a token tree is.
pub enum TokenKind {
    Word(String),
    Punct { ch: char, joint: bool },
    Literal(String),
    Group { delimiter: Delimiter, tokens: Vec<Token>, close: Span },
}

/// The brackets round a group.
#[derive(Clone, Copy, Debug, PartialEq, Eq, Structural)]
pub enum Delimiter {
    Paren,
    Brace,
    Bracket,
}

// ---------------------------------------------------------------------------
// Conditional compilation
// ---------------------------------------------------------------------------

/// Whether an attribute makes what it stands on conditional.
pub open spec fn is_cfg(attr: Attribute) -> bool {
    attr.path@ == "cfg"@
}

/// The `cfg` attributes among the given ones, as text.
pub open spec fn cfg_text(attrs: Seq<Attribute>) -> Seq<char>
    decreases attrs.len(),
{
    if attrs.len() == 0 {
        Seq::empty()
    } else if is_cfg(attrs.last()) {
        cfg_text(attrs.drop_last()) + attrs.last().tokens@ + "\n"@
    } else {
        cfg_text(attrs.drop_last())
    }
}

/// Whether an attribute makes what it stands on conditional.
pub fn is_cfg_control_attr(attr: &Attribute) -> (found: bool)
    ensures
        found == is_cfg(*attr),
{
    same_text(attr.path.as_str(), "cfg")
}

/// Writes the `cfg` attributes among the given ones.
pub fn cfg_attrs(attrs: &Vec<Attribute>) -> (out: String)
    ensures
        out@ == cfg_text(attrs@),
{
    let mut out = String::new();
    for i in 0..attrs.len()
        invariant
            out@ == cfg_text(attrs@.take(i as int)),
    {
        assert(attrs@.take(i + 1).drop_last() == attrs@.take(i as int));
        if is_cfg_control_attr(&attrs[i]) {
            out.append(attrs[i].tokens.as_str());
            out.append("\n");
        }
    }
    assert(attrs@.take(attrs@.len() as int) == attrs@);
    out
}

/// Whether one of the attributes is a `cfg` attribute.
pub open spec fn any_cfg(attrs: Seq<Attribute>) -> bool {
    exists|i: int| 0 <= i < attrs.len() && is_cfg(#[trigger] attrs[i])
}

/// Whether one of the attributes is a `cfg` attribute.
pub fn has_cfg_attrs(attrs: &Vec<Attribute>) -> (found: bool)
    ensures
        found == any_cfg(attrs@),
{
    for i in 0..attrs.len()
        invariant
            forall|k: int| 0 <= k < i ==> !is_cfg(#[trigger] attrs@[k]),
    {
        if is_cfg_control_attr(&attrs[i]) {
            return true;
        }
    }
    false
}

/// The attributes, as text.
pub open spec fn attrs_text(attrs: Seq<Attribute>) -> Seq<char> {
    concat_all(attrs.map_values(|attr: Attribute| attr.tokens@ + "\n"@))
}

/// Writes the attributes.
pub fn print_attrs(attrs: &Vec<Attribute>) -> (out: String)
    ensures
        out@ == attrs_text(attrs@),
{
    let parts = map_texts(
        attrs,
        |attr: &Attribute| -> (s: String)
            ensures
                s@ == attr.tokens@ + "\n"@
            { attr.tokens.clone().concat("\n") },
        Ghost(|attr: Attribute| attr.tokens@ + "\n"@),
    );
    concat_strings(&parts)
}

// ---------------------------------------------------------------------------
// Tokens
// ---------------------------------------------------------------------------

/// The bracket that opens a group.
pub open spec fn open_text(delimiter: Delimiter) -> Seq<char> {
    match delimiter {
        Delimiter::Paren => "("@,
        Delimiter::Brace => "{"@,
        Delimiter::Bracket => "["@,
    }
}

/// The bracket that closes a group.
pub open spec fn close_text(delimiter: Delimiter) -> Seq<char> {
    match delimiter {
        Delimiter::Paren => ")"@,
        Delimiter::Brace => "}"@,
        Delimiter::Bracket => "]"@,
    }
}

impl Delimiter {
    /// The brackets.
    pub fn marks(&self) -> (marks: (&'static str, &'static str))
        ensures
            marks.0@ == open_text(*self),
            marks.1@ == close_text(*self),
    {
        match self {
            Delimiter::Paren => ("(", ")"),
            Delimiter::Brace => ("{", "}"),
            Delimiter::Bracket => ("[", "]"),
        }
    }
}

/// Where a token ends: that of a group is where its closing bracket stands.
pub open spec fn token_end(token: Token) -> usize {
    match token.kind {
        TokenKind::Group { close, .. } => close.end,
        _ => token.span.end,
    }
}

impl Token {
    /// Where the token ends.
    pub fn end(&self) -> (end: usize)
        ensures
            end == token_end(*self),
    {
        match &self.kind {
            TokenKind::Group { close, .. } => close.end,
            _ => self.span.end,
        }
    }
}

/// Tokens as text, with a blank behind each but a joint punctuation mark.
pub open spec fn tokens_text(tokens: Seq<Token>) -> Seq<char>
    decreases tokens,
{
    if tokens.len() == 0 {
        Seq::empty()
    } else {
        tokens_text(tokens.drop_last()) + token_text(tokens.last())
    }
}

/// A token as text.
pub open spec fn token_text(token: Token) -> Seq<char>
    decreases token,
{
    match token.kind {
        TokenKind::Word(word) => word@ + " "@,
        TokenKind::Punct { ch, joint } => if joint {
            seq![ch]
        } else {
            seq![ch, ' ']
        },
        TokenKind::Literal(literal) => literal@ + " "@,
        TokenKind::Group { delimiter, tokens, .. } => open_text(delimiter) + tokens_text(tokens@)
            + close_text(delimiter) + " "@,
    }
}

/// Writes tokens from the given one on.
pub fn print_tokens(tokens: &Vec<Token>, from: usize) -> (out: String)
    requires
        from <= tokens@.len(),
    ensures
        out@ == tokens_text(tokens@.skip(from as int)),
{
    assert(tokens@.subrange(from as int, tokens@.len() as int) == tokens@.skip(from as int));
    print_between(tokens, from, tokens.len())
}

/// Writes tokens from one to another.
pub fn print_between(tokens: &Vec<Token>, from: usize, to: usize) -> (out: String)
    requires
        from <= to <= tokens@.len(),
    ensures
        out@ == tokens_text(tokens@.subrange(from as int, to as int)),
    decreases tokens@,
{
    let mut out = String::new();
    for i in from..to
        invariant
            from <= to <= tokens@.len(),
            out@ == tokens_text(tokens@.subrange(from as int, i as int)),
    {
        assert(tokens@.subrange(from as int, i + 1).drop_last() == tokens@.subrange(
            from as int,
            i as int,
        ));
        let ghost before = out@;
        match &tokens[i].kind {
            TokenKind::Word(word) => {
                out.append(word.as_str());
                out.append(" ");
                assert(out@ == before + (word@ + " "@));
            },
            TokenKind::Punct { ch, joint } => {
                out.push(*ch);
                if !*joint {
                    out.push(' ');
                }
                assert(out@ == before + token_text(tokens@[i as int]));
            },
            TokenKind::Literal(literal) => {
                out.append(literal.as_str());
                out.append(" ");
                assert(out@ == before + (literal@ + " "@));
            },
            TokenKind::Group { delimiter, tokens: inner, .. } => {
                assert(decreases_to!(tokens@[i as int] => tokens@[i as int].kind->Group_tokens@));
                let text = print_between(inner, 0, inner.len());
                assert(inner@.subrange(0, inner@.len() as int) == inner@);
                let (open, close) = delimiter.marks();
                out.append(open);
                out.append(text.as_str());
                out.append(close);
                out.append(" ");
                assert(out@ == before + (open@ + text@ + close@ + " "@));
                assert(token_text(tokens@[i as int]) == open@ + text@ + close@ + " "@);
            },
        }
        assert(out@ == before + token_text(tokens@[i as int]));
    }
    out
}

} // verus!
