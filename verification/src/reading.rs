//! Tokens that a parser reads as text, and where it stopped.

use crate::attrs::{close_text, open_text, print_tokens, tokens_text, Token, TokenKind};
use crate::failure::{diagnostic, new_diagnostic, Failure, FailureView, Span};
use crate::outside::{Unread, UnreadView};
use crate::text::chars_of;
use vstd::prelude::*;

verus! {

/// How many bytes a character takes in UTF-8.
pub open spec fn char_bytes(ch: char) -> nat {
    if ch <= '\u{7f}' {
        1
    } else if ch <= '\u{7ff}' {
        2
    } else if ch <= '\u{ffff}' {
        3
    } else {
        4
    }
}

/// How many bytes a text takes in UTF-8.
pub open spec fn text_bytes(text: Seq<char>) -> nat
    decreases text.len(),
{
    if text.len() == 0 {
        0
    } else {
        text_bytes(text.drop_last()) + char_bytes(text.last())
    }
}

/// The text in which tokens are handed to a parser. The blank that it begins with parts
/// what is said of the first token from what is said of no token.
pub open spec fn source_text(tokens: Seq<Token>) -> Seq<char> {
    " "@ + tokens_text(tokens)
}

/// Writes the text in which tokens are handed to a parser, from the given one on.
pub fn print_source(tokens: &Vec<Token>, from: usize) -> (out: String)
    requires
        from <= tokens@.len(),
    ensures
        out@ == source_text(tokens@.skip(from as int)),
{
    " ".to_owned().concat(print_tokens(tokens, from).as_str())
}

/// What stands at a byte of a text: a place, or nothing, with the number of the byte
/// counted from the end of the text.
pub enum Place {
    At(Span),
    Behind(nat),
}

/// Skips a text that belongs to a place.
pub open spec fn over_text(text: Seq<char>, at: nat, span: Span) -> Place {
    if at < text_bytes(text) {
        Place::At(span)
    } else {
        Place::Behind((at - text_bytes(text)) as nat)
    }
}

/// What stands at a byte of the text of tokens. A blank belongs to the token before it.
pub open spec fn place_in(tokens: Seq<Token>, at: nat) -> Place
    decreases tokens,
{
    if tokens.len() == 0 {
        Place::Behind(at)
    } else {
        match place_in(tokens.drop_last(), at) {
            Place::At(span) => Place::At(span),
            Place::Behind(left) => token_place(tokens.last(), left),
        }
    }
}

/// What stands at a byte of the text of a token.
pub open spec fn token_place(token: Token, at: nat) -> Place
    decreases token,
{
    match token.kind {
        TokenKind::Word(word) => over_text(word@ + " "@, at, token.span),
        TokenKind::Punct { ch, joint } => over_text(
            if joint {
                seq![ch]
            } else {
                seq![ch, ' ']
            },
            at,
            token.span,
        ),
        TokenKind::Literal(literal) => over_text(literal@ + " "@, at, token.span),
        TokenKind::Group { delimiter, tokens, close } => match over_text(
            open_text(delimiter),
            at,
            token.span,
        ) {
            Place::At(span) => Place::At(span),
            Place::Behind(inner) => match place_in(tokens@, inner) {
                Place::At(span) => Place::At(span),
                Place::Behind(left) => over_text(close_text(delimiter) + " "@, left, close),
            },
        },
    }
}

/// The place at a byte of a text that holds the text of tokens from byte `base` on;
/// where there is none, where the tokens end.
pub open spec fn source_place(tokens: Seq<Token>, at: int, base: int, close: Span) -> Span {
    if at < base {
        close
    } else {
        match place_in(tokens, (at - base) as nat) {
            Place::At(span) => span,
            Place::Behind(_) => close,
        }
    }
}

/// What a parser says of tokens, at the tokens that it says it of, where it was handed
/// their text behind `base` bytes. `close` is where the tokens end.
pub open spec fn unread_failure(
    tokens: Seq<Token>,
    unread: UnreadView,
    base: int,
    close: Span,
) -> FailureView {
    diagnostic(
        Span {
            start: source_place(tokens, unread.from as int, base, close).start,
            end: source_place(tokens, unread.to - 1, base, close).end,
        },
        unread.message,
    )
}

/// A place, or how many bytes further on.
enum Step {
    At(Span),
    Behind(usize),
}

spec fn step_view(step: Step) -> Place {
    match step {
        Step::At(span) => Place::At(span),
        Step::Behind(left) => Place::Behind(left as nat),
    }
}

proof fn lemma_bytes_more(text: Seq<char>, n: int)
    requires
        0 <= n <= text.len(),
    ensures
        text_bytes(text.take(n)) <= text_bytes(text),
    decreases text.len(),
{
    if n == text.len() {
        assert(text.take(n) == text);
    } else {
        assert(text.drop_last().take(n) == text.take(n));
        lemma_bytes_more(text.drop_last(), n);
    }
}

fn skip_text(text: &str, at: usize, span: Span) -> (step: Step)
    ensures
        step_view(step) == over_text(text@, at as nat, span),
{
    let chars = chars_of(text);
    let mut left: usize = at;
    for i in 0..chars.len()
        invariant
            chars@ == text@,
            left + text_bytes(text@.take(i as int)) == at,
    {
        assert(text@.take(i + 1).drop_last() == text@.take(i as int));
        let ch: char = chars[i];
        assert(text@.take(i + 1).last() == ch);
        let bytes: usize = if ch <= '\u{7f}' {
            1
        } else if ch <= '\u{7ff}' {
            2
        } else if ch <= '\u{ffff}' {
            3
        } else {
            4
        };
        assert(bytes == char_bytes(ch));
        if left < bytes {
            proof {
                lemma_bytes_more(text@, i + 1);
            }
            return Step::At(span);
        }
        left = left - bytes;
    }
    assert(text@.take(chars@.len() as int) == text@);
    Step::Behind(left)
}

fn find_place(tokens: &Vec<Token>, from: usize, to: usize, at: usize) -> (step: Step)
    requires
        from <= to <= tokens@.len(),
    ensures
        step_view(step) == place_in(tokens@.subrange(from as int, to as int), at as nat),
    decreases tokens@,
{
    let mut left: usize = at;
    let ghost here = tokens@.subrange(from as int, to as int);
    for i in from..to
        invariant
            from <= to <= tokens@.len(),
            here == tokens@.subrange(from as int, to as int),
            place_in(here.take(i - from), at as nat) == Place::Behind(left as nat),
    {
        assert(here.take(i + 1 - from).drop_last() == here.take(i - from));
        let token = &tokens[i];
        let step = match &token.kind {
            TokenKind::Word(word) => skip_text(
                word.clone().concat(" ").as_str(),
                left,
                token.span,
            ),
            TokenKind::Punct { ch, joint } => {
                let mut text = String::new();
                text.push(*ch);
                if !*joint {
                    text.push(' ');
                }
                assert(text@ == if *joint {
                    seq![*ch]
                } else {
                    seq![*ch, ' ']
                });
                skip_text(text.as_str(), left, token.span)
            },
            TokenKind::Literal(literal) => skip_text(
                literal.clone().concat(" ").as_str(),
                left,
                token.span,
            ),
            TokenKind::Group { delimiter, tokens: inner, close } => {
                assert(decreases_to!(tokens@[i as int] => tokens@[i as int].kind->Group_tokens@));
                assert(inner@.subrange(0, inner@.len() as int) == inner@);
                let (open_mark, close_mark) = delimiter.marks();
                match skip_text(open_mark, left, token.span) {
                    Step::At(span) => Step::At(span),
                    Step::Behind(rest) => match find_place(inner, 0, inner.len(), rest) {
                        Step::At(span) => Step::At(span),
                        Step::Behind(last) => skip_text(
                            close_mark.to_owned().concat(" ").as_str(),
                            last,
                            *close,
                        ),
                    },
                }
            },
        };
        assert(step_view(step) == token_place(tokens@[i as int], left as nat));
        match step {
            Step::At(span) => {
                proof {
                    lemma_place_prefix(here, i + 1 - from, at as nat);
                }
                return Step::At(span);
            },
            Step::Behind(rest) => {
                left = rest;
            },
        }
    }
    assert(here.take(here.len() as int) == here);
    Step::Behind(left)
}

proof fn lemma_place_prefix(tokens: Seq<Token>, n: int, at: nat)
    requires
        0 <= n <= tokens.len(),
        place_in(tokens.take(n), at) is At,
    ensures
        place_in(tokens, at) == place_in(tokens.take(n), at),
    decreases tokens.len(),
{
    if n == tokens.len() {
        assert(tokens.take(n) == tokens);
    } else {
        assert(tokens.drop_last().take(n) == tokens.take(n));
        lemma_place_prefix(tokens.drop_last(), n, at);
    }
}

fn find_source_place(
    tokens: &Vec<Token>,
    from: usize,
    to: usize,
    at: usize,
    base: usize,
    close: Span,
) -> (span: Span)
    requires
        from <= to <= tokens@.len(),
    ensures
        span == source_place(
            tokens@.subrange(from as int, to as int),
            at as int,
            base as int,
            close,
        ),
{
    if at < base {
        close
    } else {
        match find_place(tokens, from, to, at - base) {
            Step::At(span) => span,
            Step::Behind(_) => close,
        }
    }
}

/// What a parser says of tokens from one to another, at the tokens that it says it of.
pub fn report_unread(
    tokens: &Vec<Token>,
    from: usize,
    to: usize,
    unread: Unread,
    base: usize,
    close: Span,
) -> (failure: Failure)
    requires
        from <= to <= tokens@.len(),
        base > 0,
    ensures
        failure@ == unread_failure(
            tokens@.subrange(from as int, to as int),
            unread@,
            base as int,
            close,
        ),
{
    let first = find_source_place(tokens, from, to, unread.from, base, close);
    let last = if unread.to == 0 {
        close
    } else {
        find_source_place(tokens, from, to, unread.to - 1, base, close)
    };
    new_diagnostic(Span { start: first.start, end: last.end }, unread.message)
}

} // verus!
