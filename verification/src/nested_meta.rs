//! The options inside an attribute: a list of paths, parted by commas, some with a
//! value behind them.

use crate::attrs::{print_tokens, tokens_text, Attribute, Meta, Token, TokenKind};
use crate::failure::{diagnostic, new_diagnostic, Failure, FailureView, Span};
use crate::outside::{expr_prefix_reading, option_reading, read_expr_prefix, read_option};
use crate::reading::{print_source, report_unread, source_text, unread_failure};
use crate::text::{option_text, same_text};
use vstd::prelude::*;

verus! {

// ---------------------------------------------------------------------------
// Tokens at a position
// ---------------------------------------------------------------------------

/// The failure of a token at a position that is not the one expected.
pub open spec fn unexpected(
    tokens: Seq<Token>,
    pos: int,
    close: Span,
    message: Seq<char>,
) -> FailureView {
    if pos < tokens.len() {
        diagnostic(tokens[pos].span, message)
    } else {
        diagnostic(close, "unexpected end of input, "@ + message)
    }
}

/// Whether the given punctuation mark stands at a position.
pub open spec fn punct_at(tokens: Seq<Token>, pos: int, mark: char) -> bool {
    pos < tokens.len() && (tokens[pos].kind matches TokenKind::Punct { ch, .. } && ch == mark)
}

/// Whether two colons that belong together stand at a position.
pub open spec fn colons_at(tokens: Seq<Token>, pos: int) -> bool {
    &&& pos + 1 < tokens.len()
    &&& tokens[pos].kind == (TokenKind::Punct { ch: ':', joint: true })
    &&& punct_at(tokens, pos + 1, ':')
}

/// The word at a position.
pub open spec fn word_at(tokens: Seq<Token>, pos: int) -> Option<Seq<char>> {
    if pos < tokens.len() {
        match tokens[pos].kind {
            TokenKind::Word(word) => Some(word@),
            _ => None,
        }
    } else {
        None
    }
}

/// Refuses the token at a position.
pub fn fail_at(tokens: &Vec<Token>, pos: usize, close: Span, message: &str) -> (failure: Failure)
    ensures
        failure@ == unexpected(tokens@, pos as int, close, message@),
{
    if pos < tokens.len() {
        new_diagnostic(tokens[pos].span, message.to_owned())
    } else {
        new_diagnostic(close, "unexpected end of input, ".to_owned().concat(message))
    }
}

/// Whether the given punctuation mark stands at a position.
pub fn is_punct(tokens: &Vec<Token>, pos: usize, mark: char) -> (found: bool)
    ensures
        found == punct_at(tokens@, pos as int, mark),
{
    if pos < tokens.len() {
        match &tokens[pos].kind {
            TokenKind::Punct { ch, .. } => *ch == mark,
            _ => false,
        }
    } else {
        false
    }
}

fn is_colons(tokens: &Vec<Token>, pos: usize) -> (found: bool)
    ensures
        found == colons_at(tokens@, pos as int),
{
    if pos < tokens.len() && tokens.len() - pos >= 2 {
        match &tokens[pos].kind {
            TokenKind::Punct { ch, joint } => *ch == ':' && *joint && is_punct(
                tokens,
                pos + 1,
                ':',
            ),
            _ => false,
        }
    } else {
        false
    }
}

/// The word at a position.
pub fn read_word_at(tokens: &Vec<Token>, pos: usize) -> (word: Option<String>)
    ensures
        option_text(word) == word_at(tokens@, pos as int),
{
    if pos < tokens.len() {
        match &tokens[pos].kind {
            TokenKind::Word(word) => Some(word.clone()),
            _ => None,
        }
    } else {
        None
    }
}

fn is_this_word(tokens: &Vec<Token>, pos: usize, text: &str) -> (found: bool)
    ensures
        found == (word_at(tokens@, pos as int) == Some(text@)),
{
    if pos < tokens.len() {
        match &tokens[pos].kind {
            TokenKind::Word(word) => same_text(word.as_str(), text),
            _ => false,
        }
    } else {
        false
    }
}

// ---------------------------------------------------------------------------
// Paths and values
// ---------------------------------------------------------------------------

/// The path of an option: where its first word stands, where the tokens behind it
/// begin, and whether it is that one word alone.
pub struct OptionPath {
    pub word: usize,
    pub next: usize,
    pub single: bool,
}

/// The path, or the failure.
pub open spec fn path_view(path: Result<OptionPath, Failure>) -> Result<OptionPath, FailureView> {
    match path {
        Ok(path) => Ok(path),
        Err(failure) => Err(failure@),
    }
}

/// Why an attribute that is no list is refused.
pub open spec fn not_a_list(attr: Attribute) -> FailureView {
    let style = if attr.inner {
        "#!["@
    } else {
        "#["@
    };
    match attr.meta {
        Meta::NameValue { eq, .. } => diagnostic(
            eq,
            "expected parentheses: "@ + style + attr.path@ + "(...)]"@,
        ),
        _ => diagnostic(
            attr.path_span,
            "expected attribute arguments in parentheses: "@ + style + attr.path@ + "(...)]"@,
        ),
    }
}

/// Why an attribute that is no list is refused.
pub fn refuse_non_list(attr: &Attribute) -> (failure: Failure)
    ensures
        failure@ == not_a_list(*attr),
{
    let style = if attr.inner {
        "#!["
    } else {
        "#["
    };
    match &attr.meta {
        Meta::NameValue { eq, .. } => new_diagnostic(
            *eq,
            "expected parentheses: ".to_owned().concat(style).concat(attr.path.as_str()).concat(
                "(...)]",
            ),
        ),
        _ => new_diagnostic(
            attr.path_span,
            "expected attribute arguments in parentheses: ".to_owned().concat(style).concat(
                attr.path.as_str(),
            ).concat("(...)]"),
        ),
    }
}

/// The text in which the options of an attribute are handed to a parser.
pub open spec fn options_text(tokens: Seq<Token>) -> Seq<char> {
    "x("@ + tokens_text(tokens) + ")"@
}

/// The path of the option that begins at `pos`, given how many token trees a parser left
/// behind the path.
pub open spec fn path_before(tokens: Seq<Token>, pos: int, rest: nat) -> OptionPath {
    let next = if pos + 1 + rest <= tokens.len() {
        tokens.len() - rest
    } else {
        pos + 1
    };
    OptionPath {
        word: (if colons_at(tokens, pos) && pos + 2 < next {
            pos + 2
        } else {
            pos
        }) as usize,
        next: next as usize,
        single: next == pos + 1,
    }
}

/// The path of the option that begins at `pos`.
pub open spec fn option_path(tokens: Seq<Token>, pos: int, close: Span) -> Result<
    OptionPath,
    FailureView,
> {
    let here = tokens.skip(pos);
    match option_reading(options_text(here)) {
        Err(unread) => Err(unread_failure(here, unread, 2, close)),
        Ok(rest) => if pos < tokens.len() {
            Ok(path_before(tokens, pos, rest.len()))
        } else {
            Err(unexpected(tokens, pos, close, "expected nested attribute"@))
        },
    }
}

/// Finds the path of the option that begins at `pos`, given how many token trees a
/// parser left behind the path.
pub fn find_path(tokens: &Vec<Token>, pos: usize, rest: usize) -> (path: OptionPath)
    requires
        pos < tokens@.len(),
    ensures
        path == path_before(tokens@, pos as int, rest as nat),
        pos <= path.word < path.next <= tokens@.len(),
{
    let next: usize = if rest < tokens.len() - pos {
        tokens.len() - rest
    } else {
        pos + 1
    };
    let word: usize = if is_colons(tokens, pos) && next - pos > 2 {
        pos + 2
    } else {
        pos
    };
    OptionPath { word, next, single: next == pos + 1 }
}

/// Reads the path of an option.
pub fn read_option_path(tokens: &Vec<Token>, pos: usize, close: Span) -> (path: Result<
    OptionPath,
    Failure,
>)
    requires
        pos <= tokens@.len(),
    ensures
        path_view(path) == option_path(tokens@, pos as int, close),
        path matches Ok(found) ==> pos <= found.word < found.next <= tokens@.len(),
{
    let text = "x(".to_owned().concat(print_tokens(tokens, pos).as_str()).concat(")");
    match read_option(text.as_str()) {
        Err(unread) => {
            assert(tokens@.subrange(pos as int, tokens@.len() as int) == tokens@.skip(pos as int));
            Err(report_unread(tokens, pos, tokens.len(), unread, 2, close))
        },
        Ok(rest) => if pos < tokens.len() {
            Ok(find_path(tokens, pos, rest.len()))
        } else {
            Err(fail_at(tokens, pos, close, "expected nested attribute"))
        },
    }
}

/// The name of an option: its path, where that is one word.
pub open spec fn option_name(tokens: Seq<Token>, path: OptionPath) -> Option<Seq<char>> {
    if path.single {
        word_at(tokens, path.word as int)
    } else {
        None
    }
}

/// Whether an option has the given name.
pub fn is_option(tokens: &Vec<Token>, path: &OptionPath, name: &str) -> (found: bool)
    ensures
        found == (option_name(tokens@, *path) == Some(name@)),
{
    path.single && is_this_word(tokens, path.word, name)
}

/// The position, or the failure.
pub open spec fn position_view(position: Result<usize, Failure>) -> Result<int, FailureView> {
    match position {
        Ok(position) => Ok(position as int),
        Err(failure) => Err(failure@),
    }
}

/// The position behind what begins at `pos`, given how many token trees a parser left
/// behind it.
pub open spec fn end_before(tokens: Seq<Token>, pos: int, rest: nat) -> int {
    if pos + rest <= tokens.len() {
        tokens.len() - rest
    } else {
        pos
    }
}

/// Finds the position behind what begins at `pos`, given how many token trees a parser
/// left behind it.
pub fn find_end(tokens: &Vec<Token>, pos: usize, rest: usize) -> (end: usize)
    requires
        pos <= tokens@.len(),
    ensures
        end == end_before(tokens@, pos as int, rest as nat),
        pos <= end <= tokens@.len(),
{
    if rest <= tokens.len() - pos {
        tokens.len() - rest
    } else {
        pos
    }
}

/// The position behind the expression that begins at `pos`.
pub open spec fn expr_end(tokens: Seq<Token>, pos: int, close: Span) -> Result<int, FailureView> {
    let here = tokens.skip(pos);
    match expr_prefix_reading(source_text(here)) {
        Err(unread) => Err(unread_failure(here, unread, 1, close)),
        Ok(rest) => Ok(end_before(tokens, pos, rest.len())),
    }
}

/// Finds the position behind the expression that begins at `pos`.
pub fn skip_expr(tokens: &Vec<Token>, pos: usize, close: Span) -> (position: Result<usize, Failure>)
    requires
        pos <= tokens@.len(),
    ensures
        position_view(position) == expr_end(tokens@, pos as int, close),
        position matches Ok(found) ==> pos <= found <= tokens@.len(),
{
    let text = print_source(tokens, pos);
    match read_expr_prefix(text.as_str()) {
        Err(unread) => {
            assert(tokens@.subrange(pos as int, tokens@.len() as int) == tokens@.skip(pos as int));
            Err(report_unread(tokens, pos, tokens.len(), unread, 1, close))
        },
        Ok(rest) => Ok(find_end(tokens, pos, rest.len())),
    }
}

/// What follows an option that ends at `pos`: the position of the next option, or
/// nothing where the list ends.
pub open spec fn option_end(tokens: Seq<Token>, pos: int, close: Span) -> Result<
    Option<int>,
    FailureView,
> {
    if pos >= tokens.len() {
        Ok(None)
    } else if !punct_at(tokens, pos, ',') {
        Err(unexpected(tokens, pos, close, "expected `,`"@))
    } else if pos + 1 >= tokens.len() {
        Ok(None)
    } else {
        Ok(Some(pos + 1))
    }
}

/// The position or its absence, or the failure.
pub open spec fn end_view(end: Result<Option<usize>, Failure>) -> Result<Option<int>, FailureView> {
    match end {
        Ok(Some(position)) => Ok(Some(position as int)),
        Ok(None) => Ok(None),
        Err(failure) => Err(failure@),
    }
}

/// Steps over the comma behind an option.
pub fn next_option(tokens: &Vec<Token>, pos: usize, close: Span) -> (end: Result<
    Option<usize>,
    Failure,
>)
    requires
        pos <= tokens@.len(),
    ensures
        end_view(end) == option_end(tokens@, pos as int, close),
        end matches Ok(Some(found)) ==> found == pos + 1 && found < tokens@.len(),
{
    if pos >= tokens.len() {
        Ok(None)
    } else if !is_punct(tokens, pos, ',') {
        Err(fail_at(tokens, pos, close, "expected `,`"))
    } else if pos + 1 >= tokens.len() {
        Ok(None)
    } else {
        Ok(Some(pos + 1))
    }
}

} // verus!
