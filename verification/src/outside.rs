//! What the library has from other crates and from the parts of the standard
//! library that come without a specification. Every item here is trusted.
//!
//! Inside a procedural macro that the compiler runs, `proc_macro2` would leave lexing
//! and printing to the compiler. `proc_macro2::fallback::force` has it do both by
//! itself until `unforce` is called. Each function below that reads or prints Rust code
//! does so between the two calls, on values that do not outlive it. The compiler expands
//! macros one at a time, so no other call comes in between; outside the compiler
//! `proc_macro2` works by itself in any case.

use crate::failure::Span;
use crate::names::capital;
use crate::syntax::{
    AngleBracketed, GenericArgument, Ident, Inner, Lifetime, Path, PathArguments, PathSegment,
    QSelf, Type, TypePath, TypeReference, TypeTuple,
};
use crate::text::{option_text, texts};
use syn::GenericArgument as SynGenericArgument;
use syn::PathSegment as SynPathSegment;
use syn::Type as SynType;
use syn::TypePath as SynTypePath;
use syn::TypeReference as SynTypeReference;
use vstd::prelude::*;

verus! {

/// The SHA-256 digest of the UTF-8 bytes of a text.
pub uninterp spec fn sha256_of(text: Seq<char>) -> Seq<u8>;

/// `sha2::Sha256::digest` on the bytes of `text`: the digest depends on the text
/// alone and has 32 bytes.
#[verifier::external_body]
pub(crate) fn sha256(text: &str) -> (digest: Vec<u8>)
    ensures
        digest@ == sha256_of(text@),
        digest@.len() == 32,
{
    <sha2::Sha256 as sha2::Digest>::digest(text.as_bytes()).to_vec()
}

/// Why a text could not be read: what the parser said, and the bytes of the text that
/// it said it of. What it says of the text as a whole or of its end stands at byte 0.
pub struct Unread {
    pub message: String,
    pub from: usize,
    pub to: usize,
}

/// Why a text could not be read, with the message as characters.
pub struct UnreadView {
    pub message: Seq<char>,
    pub from: usize,
    pub to: usize,
}

impl View for Unread {
    type V = UnreadView;

    open spec fn view(&self) -> UnreadView {
        UnreadView { message: self.message@, from: self.from, to: self.to }
    }
}

/// The tokens that reading a text gave or why it failed, as characters.
pub open spec fn reading_view(reading: Result<String, Unread>) -> Result<Seq<char>, UnreadView> {
    match reading {
        Ok(tokens) => Ok(tokens@),
        Err(unread) => Err(unread@),
    }
}

/// What is left of a text behind what was read, one text per token tree, or why reading
/// failed, as characters.
pub open spec fn rest_view(reading: Result<Vec<String>, Unread>) -> Result<
    Seq<Seq<char>>,
    UnreadView,
> {
    match reading {
        Ok(rest) => Ok(texts(rest@)),
        Err(unread) => Err(unread@),
    }
}

/// A text read as one Rust expression: its tokens, or why it is none.
pub uninterp spec fn expr_reading(text: Seq<char>) -> Result<Seq<char>, UnreadView>;

/// `syn::parse_str` for `syn::Expr`: the tokens of the expression as text, or the parse
/// error. `proc_macro2::fallback::force` makes `proc_macro2` use its own lexer and
/// printer, so both depend on the text alone.
#[verifier::external_body]
pub(crate) fn read_expr(text: &str) -> (reading: Result<String, Unread>)
    ensures
        reading_view(reading) == expr_reading(text@),
{
    proc_macro2::fallback::force();
    let reading = match syn::parse_str::<syn::Expr>(text) {
        Ok(expr) => Ok(quote::ToTokens::to_token_stream(&expr).to_string()),
        Err(err) => {
            let bytes = err.span().byte_range();
            Err(Unread { message: err.to_string(), from: bytes.start, to: bytes.end })
        }
    };
    proc_macro2::fallback::unforce();
    reading
}

/// What is left of a text behind the Rust expression that it begins with, or why it
/// begins with none.
pub uninterp spec fn expr_prefix_reading(text: Seq<char>) -> Result<Seq<Seq<char>>, UnreadView>;

/// `syn::parse::Parser::parse_str` with a parser that reads one `syn::Expr` and takes
/// what is left as it is: the token trees that are left, or the parse error. Both are
/// found with the lexer of `proc_macro2` itself, so they depend on the text alone.
#[verifier::external_body]
pub(crate) fn read_expr_prefix(text: &str) -> (reading: Result<Vec<String>, Unread>)
    ensures
        rest_view(reading) == expr_prefix_reading(text@),
{
    proc_macro2::fallback::force();
    let parser = |input: syn::parse::ParseStream<'_>| {
        input.parse::<syn::Expr>()?;
        input.parse::<proc_macro2::TokenStream>()
    };
    let reading = match syn::parse::Parser::parse_str(parser, text) {
        Ok(rest) => Ok(rest.into_iter().map(|tree| tree.to_string()).collect()),
        Err(err) => {
            let bytes = err.span().byte_range();
            Err(Unread { message: err.to_string(), from: bytes.start, to: bytes.end })
        }
    };
    proc_macro2::fallback::unforce();
    reading
}

/// What is left of the list in round brackets that a text holds behind one word, behind
/// the path of the option that the list begins with, or why it begins with none.
pub uninterp spec fn option_reading(text: Seq<char>) -> Result<Seq<Seq<char>>, UnreadView>;

/// `syn::meta::ParseNestedMeta::parse_nested_meta`, on a list that `syn::meta::parser`
/// finds behind one word, with a closure that takes what is left behind the path of the
/// first option as it is: the token trees that are left, or the parse error. Both are
/// found with the lexer of `proc_macro2` itself, so they depend on the text alone.
#[verifier::external_body]
pub(crate) fn read_option(text: &str) -> (reading: Result<Vec<String>, Unread>)
    ensures
        rest_view(reading) == option_reading(text@),
{
    proc_macro2::fallback::force();
    let mut rest = proc_macro2::TokenStream::new();
    let mut take = |option: syn::meta::ParseNestedMeta<'_>| option.input.parse().map(|all| rest = all);
    let parser = syn::meta::parser(|list| list.parse_nested_meta(&mut take));
    let reading = match syn::parse::Parser::parse_str(parser, text) {
        Ok(()) => Ok(rest.into_iter().map(|tree| tree.to_string()).collect()),
        Err(err) => {
            let bytes = err.span().byte_range();
            Err(Unread { message: err.to_string(), from: bytes.start, to: bytes.end })
        }
    };
    proc_macro2::fallback::unforce();
    reading
}

/// The token trees of a path and those that are left behind, or why reading failed, as
/// characters.
pub open spec fn meta_view(reading: Result<(Vec<String>, Vec<String>), Unread>) -> Result<
    (Seq<Seq<char>>, Seq<Seq<char>>),
    UnreadView,
> {
    match reading {
        Ok((path, rest)) => Ok((texts(path@), texts(rest@))),
        Err(unread) => Err(unread@),
    }
}

/// The path of the argument of an attribute that a text begins with, with what is left
/// behind the argument, or why the text begins with none.
pub uninterp spec fn meta_reading(text: Seq<char>) -> Result<
    (Seq<Seq<char>>, Seq<Seq<char>>),
    UnreadView,
>;

/// `syn::parse::Parser::parse_str` with a parser that reads one `syn::Meta` and takes
/// what is left as it is: the token trees of the path and those that are left, or the
/// parse error. Both are found with the lexer of `proc_macro2` itself, so they depend on
/// the text alone.
#[verifier::external_body]
pub(crate) fn read_meta(text: &str) -> (reading: Result<(Vec<String>, Vec<String>), Unread>)
    ensures
        meta_view(reading) == meta_reading(text@),
{
    proc_macro2::fallback::force();
    let trees = |list: proc_macro2::TokenStream| list.into_iter().map(|one| one.to_string()).collect();
    let parser = |input: syn::parse::ParseStream<'_>| {
        let meta = input.parse::<syn::Meta>()?;
        Ok((trees(quote::ToTokens::to_token_stream(meta.path())), trees(input.parse()?)))
    };
    let reading = syn::parse::Parser::parse_str(parser, text).map_err(|err| Unread {
        message: err.to_string(),
        from: err.span().byte_range().start,
        to: err.span().byte_range().end,
    });
    proc_macro2::fallback::unforce();
    reading
}

/// A `syn::Type`.
#[verifier::external_type_specification]
#[verifier::external_body]
pub struct ExSynType(SynType);

/// A `syn::TypePath`.
#[verifier::external_type_specification]
#[verifier::external_body]
pub struct ExSynTypePath(SynTypePath);

/// A `syn::TypeReference`.
#[verifier::external_type_specification]
#[verifier::external_body]
pub struct ExSynTypeReference(SynTypeReference);

/// A `syn::PathSegment`.
#[verifier::external_type_specification]
#[verifier::external_body]
pub struct ExSynPathSegment(SynPathSegment);

/// A `syn::GenericArgument`.
#[verifier::external_type_specification]
#[verifier::external_body]
pub struct ExSynGenericArgument(SynGenericArgument);

/// A `syn::Type` as a type of the library, every part of it at `span`.
#[verifier::external_body]
fn type_tree(ty: &SynType, span: Span) -> Type {
    match ty {
        SynType::Path(path) => Type::Path(path_tree(path, span)),
        SynType::Reference(reference) => Type::Reference(reference_tree(reference, span)),
        SynType::Tuple(tuple) => {
            let elems = tuple.elems.iter().map(|elem| type_tree(elem, span)).collect();
            Type::Tuple(TypeTuple { elems, span })
        }
        SynType::Array(array) => {
            let len = quote::ToTokens::to_token_stream(&array.len).to_string();
            Type::Array { elem: Box::new(type_tree(&array.elem, span)), len, span }
        }
        other => inner_tree(other, span),
    }
}

/// A `syn::Type` that holds one other type, or any that the library has no form for, as
/// a type of the library, every part of it at `span`.
#[verifier::external_body]
fn inner_tree(ty: &SynType, span: Span) -> Type {
    let inner = |elem: &SynType| Inner { elem: Box::new(type_tree(elem, span)), span };
    match ty {
        SynType::Slice(slice) => Type::Slice(inner(&slice.elem)),
        SynType::Paren(paren) => Type::Paren(inner(&paren.elem)),
        SynType::Group(group) => Type::Group(inner(&group.elem)),
        SynType::Ptr(pointer) => {
            let mutable = pointer.mutability.is_some();
            Type::Pointer { mutable, elem: inner(&pointer.elem).elem, span }
        }
        other => {
            let tokens = quote::ToTokens::to_token_stream(other).to_string();
            Type::Other { tokens, span }
        }
    }
}

/// A `syn::TypeReference` as a type of the library, every part of it at `span`.
#[verifier::external_body]
fn reference_tree(reference: &SynTypeReference, span: Span) -> TypeReference {
    TypeReference {
        lifetime: reference
            .lifetime
            .as_ref()
            .map(|name| Lifetime { name: name.ident.to_string(), span }),
        mutable: reference.mutability.is_some(),
        elem: Box::new(type_tree(&reference.elem, span)),
        span,
    }
}

/// A `syn::TypePath` as a type of the library, every part of it at `span`.
#[verifier::external_body]
fn path_tree(path: &SynTypePath, span: Span) -> TypePath {
    let qself = path.qself.as_ref().map(|qself| QSelf {
        ty: Box::new(type_tree(&qself.ty, span)),
        position: qself.position,
    });
    let leading_colon = path.path.leading_colon.is_some();
    let segments = path.path.segments.iter().map(|one| segment_tree(one, span)).collect();
    TypePath { qself, path: Path { leading_colon, segments, span }, span }
}

/// A `syn::PathSegment` as a segment of the library, every part of it at `span`.
#[verifier::external_body]
fn segment_tree(segment: &SynPathSegment, span: Span) -> PathSegment {
    let arguments = match &segment.arguments {
        syn::PathArguments::None => PathArguments::Absent,
        syn::PathArguments::AngleBracketed(angle) => {
            let args = angle.args.iter().map(|arg| argument_tree(arg, span)).collect();
            let turbofish = angle.colon2_token.is_some();
            PathArguments::AngleBracketed(AngleBracketed { turbofish, args, span })
        }
        syn::PathArguments::Parenthesized(paren) => {
            let tokens = quote::ToTokens::to_token_stream(paren).to_string();
            PathArguments::Parenthesized { tokens, span }
        }
    };
    PathSegment { ident: Ident { text: segment.ident.to_string(), span }, arguments, span }
}

/// A `syn::GenericArgument` as an argument of the library, every part of it at `span`.
#[verifier::external_body]
fn argument_tree(arg: &SynGenericArgument, span: Span) -> GenericArgument {
    match arg {
        SynGenericArgument::Lifetime(name) => {
            GenericArgument::Lifetime(Lifetime { name: name.ident.to_string(), span })
        }
        SynGenericArgument::Type(ty) => GenericArgument::Type(type_tree(ty, span)),
        other => {
            let tokens = quote::ToTokens::to_token_stream(other).to_string();
            GenericArgument::Other { tokens, span }
        }
    }
}

/// The type and the token trees that are left behind it, or why reading failed, as
/// characters.
pub open spec fn type_prefix_view(reading: Result<(Type, Vec<String>), Unread>) -> Result<
    (Type, Seq<Seq<char>>),
    UnreadView,
> {
    match reading {
        Ok((ty, rest)) => Ok((ty, texts(rest@))),
        Err(unread) => Err(unread@),
    }
}

/// The type that a text begins with, every part of it at `span`, with what is left behind
/// it, or why the text begins with none.
pub uninterp spec fn type_prefix_reading(text: Seq<char>, span: Span) -> Result<
    (Type, Seq<Seq<char>>),
    UnreadView,
>;

/// `syn::parse::Parser::parse_str` with a parser that reads one `syn::Type` and takes
/// what is left as it is: the type as one of the library and the token trees that are
/// left, or the parse error. Both are found with the lexer and the printer of
/// `proc_macro2` itself, so they depend on the text and the place alone.
#[verifier::external_body]
pub(crate) fn read_type_prefix(text: &str, span: Span) -> (reading: Result<
    (Type, Vec<String>),
    Unread,
>)
    ensures
        type_prefix_view(reading) == type_prefix_reading(text@, span),
{
    proc_macro2::fallback::force();
    let parser = |input: syn::parse::ParseStream<'_>| {
        let ty = type_tree(&input.parse::<SynType>()?, span);
        let rest = input.parse::<proc_macro2::TokenStream>()?;
        Ok((ty, rest.into_iter().map(|tree| tree.to_string()).collect()))
    };
    let reading = syn::parse::Parser::parse_str(parser, text).map_err(|err| Unread {
        message: err.to_string(),
        from: err.span().byte_range().start,
        to: err.span().byte_range().end,
    });
    proc_macro2::fallback::unforce();
    reading
}

/// A text read as one Rust type: its tokens, or why it is none.
pub uninterp spec fn type_reading(text: Seq<char>) -> Result<Seq<char>, UnreadView>;

/// `syn::parse_str` for `syn::Type`: the tokens of the type as text, or the parse error.
/// Both are found with the lexer and the printer of `proc_macro2` itself, so they depend
/// on the text alone.
#[verifier::external_body]
pub(crate) fn read_type(text: &str) -> (reading: Result<String, Unread>)
    ensures
        reading_view(reading) == type_reading(text@),
{
    proc_macro2::fallback::force();
    let reading = match syn::parse_str::<syn::Type>(text) {
        Ok(ty) => Ok(quote::ToTokens::to_token_stream(&ty).to_string()),
        Err(err) => {
            let bytes = err.span().byte_range();
            Err(Unread { message: err.to_string(), from: bytes.start, to: bytes.end })
        }
    };
    proc_macro2::fallback::unforce();
    reading
}

/// A text read as one identifier that is no keyword: the identifier, or why it is
/// none.
pub uninterp spec fn ident_reading(text: Seq<char>) -> Result<Seq<char>, UnreadView>;

/// `syn::parse_str` for `syn::Ident`: the identifier, or the parse error. Both are found
/// with the lexer of `proc_macro2` itself, so they depend on the text alone.
#[verifier::external_body]
pub(crate) fn read_ident(text: &str) -> (reading: Result<String, Unread>)
    ensures
        reading_view(reading) == ident_reading(text@),
{
    proc_macro2::fallback::force();
    let reading = match syn::parse_str::<syn::Ident>(text) {
        Ok(ident) => Ok(ident.to_string()),
        Err(err) => {
            let bytes = err.span().byte_range();
            Err(Unread { message: err.to_string(), from: bytes.start, to: bytes.end })
        }
    };
    proc_macro2::fallback::unforce();
    reading
}

/// The only word in a text, keywords included; nothing where the text is not one
/// word.
pub uninterp spec fn word_reading(text: Seq<char>) -> Option<Seq<char>>;

/// `syn::parse::Parser::parse_str` with `syn::ext::IdentExt::parse_any`: the text of
/// the identifier or keyword that the text consists of. It is found with the lexer of
/// `proc_macro2` itself, so it depends on the text alone.
#[verifier::external_body]
pub(crate) fn read_word(text: &str) -> (word: Option<String>)
    ensures
        option_text(word) == word_reading(text@),
{
    proc_macro2::fallback::force();
    let parser = <syn::Ident as syn::ext::IdentExt>::parse_any;
    let word = match syn::parse::Parser::parse_str(parser, text) {
        Ok(ident) => Some(ident.to_string()),
        Err(_) => None,
    };
    proc_macro2::fallback::unforce();
    word
}

/// The value of the string literal that a text is; nothing where it is none.
pub uninterp spec fn literal_reading(text: Seq<char>) -> Option<Seq<char>>;

/// `syn::parse_str` for `syn::LitStr`: the value of the literal, unescaped. It is found
/// with the lexer of `proc_macro2` itself, so it depends on the text alone.
#[verifier::external_body]
pub(crate) fn read_literal(text: &str) -> (value: Option<String>)
    ensures
        option_text(value) == literal_reading(text@),
{
    proc_macro2::fallback::force();
    let value = match syn::parse_str::<syn::LitStr>(text) {
        Ok(literal) => Some(literal.value()),
        Err(_) => None,
    };
    proc_macro2::fallback::unforce();
    value
}

/// The Rust string literal for a text.
pub uninterp spec fn literal_of(text: Seq<char>) -> Seq<char>;

/// `proc_macro2::Literal::string`: the literal, quotes and escapes included. It is
/// written by `proc_macro2` itself, so it depends on the text alone.
#[verifier::external_body]
pub(crate) fn string_literal(text: &str) -> (literal: String)
    ensures
        literal@ == literal_of(text@),
{
    proc_macro2::fallback::force();
    let literal = proc_macro2::Literal::string(text).to_string();
    proc_macro2::fallback::unforce();
    literal
}

/// The JSON string for a text.
pub uninterp spec fn json_quoted(text: Seq<char>) -> Seq<char>;

/// How `serde_json::Value` prints a string: quoted and escaped. It depends on the
/// text alone.
#[verifier::external_body]
pub(crate) fn json_string(text: &str) -> (quoted: String)
    ensures
        quoted@ == json_quoted(text@),
{
    serde_json::Value::String(text.to_owned()).to_string()
}

/// The number that a text of decimal digits writes, with a plus sign before it at
/// most, where a `u8` holds it.
pub open spec fn byte_value(text: Seq<char>) -> Option<u8> {
    let digits = if text.len() > 0 && text[0] == '+' {
        text.skip(1)
    } else {
        text
    };
    if digits.len() > 0 && is_digits(digits) && digits_value(digits) <= 255 {
        Some(digits_value(digits) as u8)
    } else {
        None
    }
}

/// Whether a text holds decimal digits alone.
pub open spec fn is_digits(text: Seq<char>) -> bool {
    forall|i: int| 0 <= i < text.len() ==> '0' <= #[trigger] text[i] && text[i] <= '9'
}

/// The number that decimal digits write.
pub open spec fn digits_value(digits: Seq<char>) -> nat
    decreases digits.len(),
{
    if digits.len() == 0 {
        0
    } else {
        10 * digits_value(digits.drop_last()) + (digits.last() as nat - '0' as nat) as nat
    }
}

/// Why a text cannot be read as a `u8`.
pub uninterp spec fn byte_error(text: Seq<char>) -> Seq<char>;

/// `str::parse` for `u8`: the number that the digits write, where it fits; if not, a
/// message that depends on the text alone.
#[verifier::external_body]
pub(crate) fn read_byte(text: &str) -> (reading: Result<u8, String>)
    ensures
        match reading {
            Ok(byte) => byte_value(text@) == Some(byte),
            Err(message) => byte_value(text@) is None && message@ == byte_error(text@),
        },
{
    text.parse::<u8>().map_err(|err| err.to_string())
}

/// A character beyond ASCII in upper case, which may take more than one character.
pub uninterp spec fn uppercase_beyond_ascii(ch: char) -> Seq<char>;

/// A character in upper case: of the ASCII characters, the small letters become
/// capitals, and the others stay.
pub open spec fn uppercase_of(ch: char) -> Seq<char> {
    if ch <= '\u{7f}' {
        seq![capital(ch)]
    } else {
        uppercase_beyond_ascii(ch)
    }
}

/// `char::to_uppercase`: a conversion by the Unicode tables, so it depends on the
/// character alone. What has no upper case stays as it is, and what has one becomes
/// letters, so only an underscore gives an underscore.
#[verifier::external_body]
pub(crate) fn uppercase(ch: char) -> (upper: String)
    ensures
        upper@ == (if ch <= '\u{7f}' {
            seq![capital(ch)]
        } else {
            uppercase_beyond_ascii(ch)
        }),
        ch != '_' ==> !upper@.contains('_'),
{
    ch.to_uppercase().to_string()
}

/// Whether a character is white space: whether it has the Unicode property `White_Space`.
pub open spec fn is_white_space(ch: char) -> bool {
    ||| '\u{9}' <= ch && ch <= '\u{d}'
    ||| ch == ' '
    ||| ch == '\u{85}'
    ||| ch == '\u{a0}'
    ||| ch == '\u{1680}'
    ||| '\u{2000}' <= ch && ch <= '\u{200a}'
    ||| ch == '\u{2028}'
    ||| ch == '\u{2029}'
    ||| ch == '\u{202f}'
    ||| ch == '\u{205f}'
    ||| ch == '\u{3000}'
}

/// `char::is_whitespace`: whether the character has the Unicode property `White_Space`.
#[verifier::external_body]
pub(crate) fn white_space(ch: char) -> (white: bool)
    ensures
        white == is_white_space(ch),
{
    ch.is_whitespace()
}

/// A text in lower case.
pub uninterp spec fn lowercase_of(text: Seq<char>) -> Seq<char>;

/// `str::to_lowercase`: a conversion by the Unicode tables, so it depends on the text
/// alone.
#[verifier::external_body]
pub(crate) fn lowercase(text: &str) -> (lower: String)
    ensures
        lower@ == lowercase_of(text@),
{
    text.to_lowercase()
}

} // verus!
