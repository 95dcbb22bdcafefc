//! The mode that an attribute macro is given: nothing, or one word.

use crate::attrs::{print_tokens, token_end, tokens_text, Token};
use crate::failure::{diagnostic, new_diagnostic, Failure, FailureView, Span};
use crate::field_attrs::flag_view;
use crate::outside::{ident_reading, read_ident, reading_view, Unread, UnreadView};
use crate::text::same_text;
use vstd::prelude::*;

verus! {

/// What a macro with one mode says of its arguments: the word that switches the mode
/// on, what it says of anything but a word, and what it says of another word.
pub struct ModeWords {
    pub word: &'static str,
    pub malformed: &'static str,
    pub unknown: &'static str,
}

/// Whether the mode is switched on, given the word that the arguments read as.
pub open spec fn mode_from(
    reading: Result<Seq<char>, UnreadView>,
    words: ModeWords,
    span: Span,
) -> Result<bool, FailureView> {
    match reading {
        Err(_) => Err(diagnostic(span, words.malformed@)),
        Ok(word) => if word == words.word@ {
            Ok(true)
        } else {
            Err(diagnostic(span, words.unknown@))
        },
    }
}

/// Where tokens stand.
pub open spec fn tokens_span(tokens: Seq<Token>) -> Span {
    Span { start: tokens[0].span.start, end: token_end(tokens.last()) }
}

/// Whether the mode is switched on: without arguments it is not.
pub open spec fn mode_of(tokens: Seq<Token>, words: ModeWords) -> Result<bool, FailureView> {
    if tokens.len() == 0 {
        Ok(false)
    } else {
        mode_from(ident_reading(tokens_text(tokens)), words, tokens_span(tokens))
    }
}

/// Whether the mode is switched on, given the word that the arguments read as.
pub fn choose_mode(reading: &Result<String, Unread>, words: &ModeWords, span: Span) -> (out: Result<
    bool,
    Failure,
>)
    ensures
        flag_view(out) == mode_from(reading_view(*reading), *words, span),
{
    match reading {
        Err(_) => Err(new_diagnostic(span, words.malformed.to_owned())),
        Ok(word) => if same_text(word.as_str(), words.word) {
            Ok(true)
        } else {
            Err(new_diagnostic(span, words.unknown.to_owned()))
        },
    }
}

fn read_mode(tokens: &Vec<Token>, words: &ModeWords) -> (out: Result<bool, Failure>)
    ensures
        flag_view(out) == mode_of(tokens@, *words),
{
    if tokens.len() == 0 {
        return Ok(false);
    }
    let span = Span {
        start: tokens[0].span.start,
        end: tokens[tokens.len() - 1].end(),
    };
    let text = print_tokens(tokens, 0);
    assert(tokens@.skip(0) == tokens@);
    choose_mode(&read_ident(text.as_str()), words, span)
}

/// The mode of accounts.
pub open spec fn account_words() -> ModeWords {
    ModeWords { word: "borsh", malformed: ACCOUNT_MALFORMED, unknown: ACCOUNT_UNKNOWN }
}

/// The mode of events.
pub open spec fn event_words() -> ModeWords {
    ModeWords { word: "bytemuck", malformed: EVENT_MALFORMED, unknown: EVENT_UNKNOWN }
}

/// What is said of arguments that are no mode of an account.
pub const ACCOUNT_MALFORMED: &'static str =
    "expected `#[account]` or `#[account(borsh)]` — no other arguments are supported";

/// What is said of an unknown mode of an account.
pub const ACCOUNT_UNKNOWN: &'static str = "unknown `#[account]` mode — only `borsh` is accepted";

/// What is said of arguments that are no mode of an event.
pub const EVENT_MALFORMED: &'static str =
    "expected `#[event]` or `#[event(bytemuck)]` — no other arguments are supported";

/// What is said of an unknown mode of an event.
pub const EVENT_UNKNOWN: &'static str = "unknown `#[event]` mode — only `bytemuck` is accepted";

/// Whether an account is serialized: as given by the arguments of its attribute.
pub fn parse_account_mode(attr: &Vec<Token>) -> (out: Result<bool, Failure>)
    ensures
        flag_view(out) == mode_of(attr@, account_words()),
{
    read_mode(
        attr,
        &ModeWords { word: "borsh", malformed: ACCOUNT_MALFORMED, unknown: ACCOUNT_UNKNOWN },
    )
}

/// How an event is written.
#[derive(Clone, Copy, Debug, PartialEq, Eq, Structural)]
pub enum EventMode {
    Wincode,
    Bytemuck,
}

/// The mode, or the failure.
pub open spec fn event_mode_view(mode: Result<EventMode, Failure>) -> Result<
    EventMode,
    FailureView,
> {
    match mode {
        Ok(mode) => Ok(mode),
        Err(failure) => Err(failure@),
    }
}

/// How an event is written: as given by the arguments of its attribute.
pub open spec fn event_mode(tokens: Seq<Token>) -> Result<EventMode, FailureView> {
    match mode_of(tokens, event_words()) {
        Err(failure) => Err(failure),
        Ok(true) => Ok(EventMode::Bytemuck),
        Ok(false) => Ok(EventMode::Wincode),
    }
}

/// How an event is written: as given by the arguments of its attribute.
pub fn parse_event_mode(attr: &Vec<Token>) -> (out: Result<EventMode, Failure>)
    ensures
        event_mode_view(out) == event_mode(attr@),
{
    match read_mode(
        attr,
        &ModeWords { word: "bytemuck", malformed: EVENT_MALFORMED, unknown: EVENT_UNKNOWN },
    ) {
        Ok(true) => Ok(EventMode::Bytemuck),
        Ok(false) => Ok(EventMode::Wincode),
        Err(failure) => Err(failure),
    }
}

} // verus!
