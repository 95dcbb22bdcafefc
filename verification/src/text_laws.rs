//! How texts are taken apart, where failures point, and which types borrow.

use crate::account_groups::{
    first_free, group_names, is_free, lemma_next_name_free, lemma_smallest_suffix, next_name,
    GroupView,
};
use crate::attrs::{close_text, open_text, token_text, tokens_text, Token, TokenKind};
use crate::declared_constants::{comma_parts, trimmed, trimmed_end, trimmed_start};
use crate::failure::{diagnostic, FailureView, Span};
use crate::lifetimes::{any_argument_carries, any_carries, any_segment_carries, carries};
use crate::nested_meta::{option_end, option_path, unexpected};
use crate::outside::{is_white_space, UnreadView};
use crate::passages::lemma_joined_parted;
use crate::reading::{place_in, text_bytes, token_place, unread_failure, Place};
use crate::syntax::{GenericArgument, PathArguments, PathSegment, Type};
use crate::text::{decimal, joined};
use crate::wincode::{option_kind, wincode_option_end, wincode_options, Found};
use vstd::prelude::*;

verus! {

// ---------------------------------------------------------------------------
// Parts of texts
// ---------------------------------------------------------------------------

proof fn lemma_trimmed_start(text: Seq<char>) -> (from: int)
    ensures
        0 <= from <= text.len(),
        trimmed_start(text) == text.skip(from),
        forall|k: int| 0 <= k < from ==> is_white_space(#[trigger] text[k]),
        from < text.len() ==> !is_white_space(text[from]),
    decreases text.len(),
{
    if text.len() > 0 && is_white_space(text[0]) {
        let rest = lemma_trimmed_start(text.skip(1));
        assert(text.skip(1).skip(rest) =~= text.skip(rest + 1));
        assert forall|k: int| 0 <= k < rest + 1 implies is_white_space(#[trigger] text[k]) by {
            if k > 0 {
                assert(text.skip(1)[k - 1] == text[k]);
            }
        }
        rest + 1
    } else {
        assert(text.skip(0) =~= text);
        0
    }
}

proof fn lemma_trimmed_end(text: Seq<char>) -> (to: int)
    ensures
        0 <= to <= text.len(),
        trimmed_end(text) == text.take(to),
        forall|k: int| to <= k < text.len() ==> is_white_space(#[trigger] text[k]),
        to > 0 ==> !is_white_space(text[to - 1]),
    decreases text.len(),
{
    if text.len() > 0 && is_white_space(text.last()) {
        let to = lemma_trimmed_end(text.drop_last());
        assert(text.drop_last().take(to) =~= text.take(to));
        assert forall|k: int| to <= k < text.len() implies is_white_space(#[trigger] text[k]) by {
            if k < text.len() - 1 {
                assert(text.drop_last()[k] == text[k]);
            }
        }
        to
    } else {
        assert(text.take(text.len() as int) =~= text);
        text.len() as int
    }
}

/// A trimmed text is the text without the white space around it: what is taken off is
/// white space, and what is left neither begins nor ends with any.
pub proof fn lemma_trimmed(text: Seq<char>) -> (ends: (int, int))
    ensures
        0 <= ends.0 <= ends.1 <= text.len(),
        trimmed(text) == text.subrange(ends.0, ends.1),
        forall|k: int| 0 <= k < ends.0 ==> is_white_space(#[trigger] text[k]),
        forall|k: int| ends.1 <= k < text.len() ==> is_white_space(#[trigger] text[k]),
        trimmed(text).len() > 0 ==> !is_white_space(trimmed(text)[0]) && !is_white_space(
            trimmed(text).last(),
        ),
{
    let from = lemma_trimmed_start(text);
    let rest = text.skip(from);
    let to = lemma_trimmed_end(rest);
    assert(rest.take(to) =~= text.subrange(from, from + to));
    assert forall|k: int| from + to <= k < text.len() implies is_white_space(#[trigger] text[k]) by {
        assert(rest[k - from] == text[k]);
    }
    (from, from + to)
}

/// The parts of a list are what stands between its commas: put together again they are
/// the list, and none holds a comma.
pub proof fn lemma_comma_parts(text: Seq<char>)
    ensures
        comma_parts(text).len() > 0,
        joined(comma_parts(text), ","@) == text,
        forall|i: int|
            0 <= i < comma_parts(text).len() ==> !(#[trigger] comma_parts(text)[i]).contains(','),
    decreases text.len(),
{
    reveal_strlit(",");
    let parts = comma_parts(text);
    if text.len() == 0 {
        assert(parts =~= seq![Seq::<char>::empty()]);
        lemma_joined_parted(parts, ","@);
        assert(joined(parts, ","@) =~= text);
    } else {
        let before = comma_parts(text.drop_last());
        let last = text.last();
        lemma_comma_parts(text.drop_last());
        if last == ',' {
            assert(parts.drop_last() =~= before);
            assert(joined(parts, ","@) =~= text);
            assert forall|i: int| 0 <= i < parts.len() implies !(#[trigger] parts[i]).contains(
                ',',
            ) by {
                if i < before.len() {
                    assert(parts[i] == before[i]);
                }
            }
        } else {
            let end = before.len() - 1;
            assert(parts.drop_last() =~= before.drop_last());
            assert(parts.last() == before.last().push(last));
            assert(joined(parts, ","@) =~= joined(before, ","@).push(last));
            assert(text.drop_last().push(last) =~= text);
            assert forall|i: int| 0 <= i < parts.len() implies !(#[trigger] parts[i]).contains(
                ',',
            ) by {
                if i < end {
                    assert(parts[i] == before[i]);
                } else if parts[i].contains(',') {
                    let k = choose|k: int| 0 <= k < parts[i].len() && parts[i][k] == ',';
                    assert(before[end][k] == ',');
                    assert(before[end].contains(','));
                }
            }
        }
    }
}

// ---------------------------------------------------------------------------
// Names of structs
// ---------------------------------------------------------------------------

/// A new accounts struct keeps the name of its group where that is free, and else gets the
/// smallest number behind it, from two on, that makes it free.
pub proof fn lemma_next_name(
    base: Seq<char>,
    reserved: Seq<Seq<char>>,
    groups: Seq<GroupView>,
) -> (number: nat)
    ensures
        ({
            let taken = |name: Seq<char>|
                group_names(groups).contains(name) || reserved.contains(name);
            let name = next_name(base, reserved, groups);
            &&& !taken(base) ==> name == base
            &&& taken(base) ==> {
                &&& number >= 2
                &&& name == base + decimal(number)
                &&& !taken(name)
                &&& forall|k: nat| 2 <= k < number ==> taken(base + #[trigger] decimal(k))
            }
        }),
{
    lemma_next_name_free(base, reserved, groups);
    if !is_free(base, reserved, groups) {
        let found = lemma_smallest_suffix(base, reserved, groups, 2);
        assert(first_free(base, reserved, groups, found));
        let chosen = choose|suffix: nat| first_free(base, reserved, groups, suffix);
        assert(first_free(base, reserved, groups, chosen));
        assert forall|k: nat| 2 <= k < chosen implies group_names(groups).contains(
            base + #[trigger] decimal(k),
        ) || reserved.contains(base + decimal(k)) by {
            assert(!is_free(base + decimal(k), reserved, groups));
        }
        chosen
    } else {
        0
    }
}

// ---------------------------------------------------------------------------
// Where failures point
// ---------------------------------------------------------------------------

/// What is not as expected is pointed at; at the end of a list the bracket that closes it
/// is, and the message says so.
pub proof fn lemma_unexpected(tokens: Seq<Token>, pos: int, close: Span, message: Seq<char>)
    ensures
        0 <= pos < tokens.len() ==> unexpected(tokens, pos, close, message) == diagnostic(
            tokens[pos].span,
            message,
        ),
        pos >= tokens.len() ==> unexpected(tokens, pos, close, message) == diagnostic(
            close,
            "unexpected end of input, "@ + message,
        ),
{
}

/// An option that changes how a value is encoded is pointed at from its first to its last
/// token, where no other comes behind it.
pub proof fn lemma_override_place(tokens: Seq<Token>, pos: int, close: Span, found: Found)
    requires
        wincode_options(tokens, pos, close, found) is Ok,
        option_kind(tokens, option_path(tokens, pos, close)->Ok_0) is Some,
        option_end(
            tokens,
            wincode_option_end(tokens, option_path(tokens, pos, close)->Ok_0, close)->Ok_0,
            close,
        ) == Ok::<Option<int>, FailureView>(None),
    ensures
        ({
            let path = option_path(tokens, pos, close)->Ok_0;
            wincode_options(tokens, pos, close, found)->Ok_0 == Some(
                (
                    option_kind(tokens, path)->Some_0,
                    Span {
                        start: tokens[pos].span.start,
                        end: tokens[path.next - 1].span.end,
                    },
                ),
            )
        }),
{
}

proof fn lemma_bytes_joined(a: Seq<char>, b: Seq<char>)
    ensures
        text_bytes(a + b) == text_bytes(a) + text_bytes(b),
    decreases b.len(),
{
    if b.len() == 0 {
        assert(a + b =~= a);
    } else {
        lemma_bytes_joined(a, b.drop_last());
        assert((a + b).drop_last() =~= a + b.drop_last());
    }
}

proof fn lemma_behind(tokens: Seq<Token>, at: nat)
    requires
        at >= text_bytes(tokens_text(tokens)),
    ensures
        place_in(tokens, at) == Place::Behind((at - text_bytes(tokens_text(tokens))) as nat),
    decreases tokens,
{
    if tokens.len() > 0 {
        let before = tokens.drop_last();
        let last = tokens.last();
        lemma_bytes_joined(tokens_text(before), token_text(last));
        lemma_behind(before, at);
        let left = (at - text_bytes(tokens_text(before))) as nat;
        assert(decreases_to!(tokens => tokens[tokens.len() - 1]));
        lemma_token_behind(last, left);
    } else {
        assert(text_bytes(tokens_text(tokens)) == 0);
    }
}

proof fn lemma_token_behind(token: Token, at: nat)
    requires
        at >= text_bytes(token_text(token)),
    ensures
        token_place(token, at) == Place::Behind((at - text_bytes(token_text(token))) as nat),
    decreases token,
{
    if let TokenKind::Group { delimiter, tokens, .. } = token.kind {
        let inner = tokens_text(tokens@);
        let end = close_text(delimiter) + " "@;
        assert(token_text(token) =~= open_text(delimiter) + inner + end);
        lemma_bytes_joined(open_text(delimiter) + inner, end);
        lemma_bytes_joined(open_text(delimiter), inner);
        lemma_behind(tokens@, (at - text_bytes(open_text(delimiter))) as nat);
    }
}

/// A place in the text of tokens is that of the token that stands there.
pub proof fn lemma_place_of_token(tokens: Seq<Token>, k: int, at: nat)
    requires
        0 <= k < tokens.len(),
        !(tokens[k].kind is Group),
        text_bytes(tokens_text(tokens.take(k))) <= at,
        at < text_bytes(tokens_text(tokens.take(k + 1))),
    ensures
        place_in(tokens, at) == Place::At(tokens[k].span),
    decreases tokens.len(),
{
    if k == tokens.len() - 1 {
        let before = tokens.drop_last();
        assert(tokens.take(k) =~= before);
        assert(tokens.take(k + 1) =~= tokens);
        lemma_behind(before, at);
        let last = tokens.last();
        lemma_bytes_joined(tokens_text(before), token_text(last));
        let left = (at - text_bytes(tokens_text(before))) as nat;
        assert(token_place(last, left) == Place::At(last.span));
        assert(place_in(tokens, at) == token_place(last, left));
    } else {
        let before = tokens.drop_last();
        assert(before.take(k) =~= tokens.take(k));
        assert(before.take(k + 1) =~= tokens.take(k + 1));
        assert(before[k] == tokens[k]);
        lemma_place_of_token(before, k, at);
        assert(place_in(tokens, at) == place_in(before, at));
    }
}

/// A failure to read tokens says why, and points from the token in which it begins to the
/// one in which it ends, or else at the bracket behind them.
pub proof fn lemma_failure_place(
    tokens: Seq<Token>,
    unread: UnreadView,
    base: int,
    close: Span,
    from: int,
    to: int,
)
    requires
        0 <= from < tokens.len(),
        0 <= to < tokens.len(),
        !(tokens[from].kind is Group),
        !(tokens[to].kind is Group),
        text_bytes(tokens_text(tokens.take(from))) <= unread.from - base,
        unread.from - base < text_bytes(tokens_text(tokens.take(from + 1))),
        text_bytes(tokens_text(tokens.take(to))) <= unread.to - 1 - base,
        unread.to - 1 - base < text_bytes(tokens_text(tokens.take(to + 1))),
    ensures
        unread_failure(tokens, unread, base, close) == diagnostic(
            Span { start: tokens[from].span.start, end: tokens[to].span.end },
            unread.message,
        ),
{
    lemma_place_of_token(tokens, from, (unread.from - base) as nat);
    lemma_place_of_token(tokens, to, (unread.to - 1 - base) as nat);
}

// ---------------------------------------------------------------------------
// Borrowing
// ---------------------------------------------------------------------------

/// Whether a generic argument holds a lifetime.
pub open spec fn argument_carries(arg: GenericArgument) -> bool {
    match arg {
        GenericArgument::Lifetime(_) => true,
        GenericArgument::Type(ty) => carries(ty),
        GenericArgument::Other { .. } => false,
    }
}

/// Whether an argument of a segment holds a lifetime.
pub open spec fn segment_carries(segment: PathSegment) -> bool {
    segment.arguments matches PathArguments::AngleBracketed(angle) && exists|i: int|
        0 <= i < angle.args@.len() && argument_carries(#[trigger] angle.args@[i])
}

proof fn lemma_any_argument(args: Seq<GenericArgument>)
    ensures
        any_argument_carries(args) <==> exists|i: int|
            0 <= i < args.len() && argument_carries(#[trigger] args[i]),
    decreases args.len(),
{
    if args.len() > 0 {
        let before = args.drop_last();
        lemma_any_argument(before);
        assert(args[args.len() - 1] == args.last());
        if any_argument_carries(before) {
            let i = choose|i: int| 0 <= i < before.len() && argument_carries(#[trigger] before[i]);
            assert(args[i] == before[i]);
        }
        if exists|i: int| 0 <= i < args.len() && argument_carries(#[trigger] args[i]) {
            let i = choose|i: int| 0 <= i < args.len() && argument_carries(#[trigger] args[i]);
            if i < before.len() {
                assert(before[i] == args[i]);
            }
        }
    }
}

proof fn lemma_any_segment(segments: Seq<PathSegment>)
    ensures
        any_segment_carries(segments) <==> exists|i: int|
            0 <= i < segments.len() && segment_carries(#[trigger] segments[i]),
    decreases segments.len(),
{
    if segments.len() > 0 {
        let before = segments.drop_last();
        lemma_any_segment(before);
        assert(segments[segments.len() - 1] == segments.last());
        if let PathArguments::AngleBracketed(angle) = segments.last().arguments {
            lemma_any_argument(angle.args@);
        }
        if any_segment_carries(before) {
            let i = choose|i: int| 0 <= i < before.len() && segment_carries(#[trigger] before[i]);
            assert(segments[i] == before[i]);
        }
        if exists|i: int| 0 <= i < segments.len() && segment_carries(#[trigger] segments[i]) {
            let i = choose|i: int|
                0 <= i < segments.len() && segment_carries(#[trigger] segments[i]);
            if i < before.len() {
                assert(before[i] == segments[i]);
            }
        }
    }
}

proof fn lemma_any_type(types: Seq<Type>)
    ensures
        any_carries(types) <==> exists|i: int| 0 <= i < types.len() && carries(#[trigger] types[i]),
    decreases types.len(),
{
    if types.len() > 0 {
        let before = types.drop_last();
        lemma_any_type(before);
        assert(types[types.len() - 1] == types.last());
        if any_carries(before) {
            let i = choose|i: int| 0 <= i < before.len() && carries(#[trigger] before[i]);
            assert(types[i] == before[i]);
        }
        if exists|i: int| 0 <= i < types.len() && carries(#[trigger] types[i]) {
            let i = choose|i: int| 0 <= i < types.len() && carries(#[trigger] types[i]);
            if i < before.len() {
                assert(before[i] == types[i]);
            }
        }
    }
}

/// A type holds a lifetime where it is a reference, or where a type or an argument that it
/// is made of does.
pub proof fn lemma_carries(ty: Type)
    ensures
        carries(ty) <==> match ty {
            Type::Reference(_) => true,
            Type::Path(path) => (exists|i: int|
                0 <= i < path.path.segments@.len() && segment_carries(
                    #[trigger] path.path.segments@[i],
                )) || path.qself is Some && carries(*path.qself->Some_0.ty),
            Type::Tuple(tuple) => exists|i: int|
                0 <= i < tuple.elems@.len() && carries(#[trigger] tuple.elems@[i]),
            Type::Array { elem, .. } => carries(*elem),
            Type::Slice(inner) => carries(*inner.elem),
            Type::Paren(inner) => carries(*inner.elem),
            Type::Group(inner) => carries(*inner.elem),
            Type::Pointer { elem, .. } => carries(*elem),
            Type::Other { .. } => false,
        },
{
    match ty {
        Type::Path(path) => lemma_any_segment(path.path.segments@),
        Type::Tuple(tuple) => lemma_any_type(tuple.elems@),
        _ => {},
    }
}

} // verus!
