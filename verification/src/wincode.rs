//! Wincode attributes that change how a value is serialized, which generated
//! interface descriptions cannot express.

use crate::attrs::{cfg_attrs, cfg_text, Attribute, Delimiter, Meta, Token, TokenKind};
use crate::failure::{diagnostic, new_diagnostic, unit_view, Failure, FailureView, Span};
use crate::items::{Field, Variant};
use crate::nested_meta::{
    expr_end, fail_at, is_option, is_punct, next_option, not_a_list, option_end, option_name,
    option_path, punct_at, read_option_path, refuse_non_list, skip_expr, unexpected, OptionPath,
};
use crate::text::same_text;
use vstd::prelude::*;

verus! {

/// A wincode attribute that changes how a value is serialized.
#[derive(Clone, Copy, Debug, PartialEq, Eq, Structural)]
pub enum UnsupportedWincodeAttrKind {
    Skip,
    With,
    /// The discriminant of an enum gets another width than one byte.
    TagEncoding,
}

/// An attribute that was found, and where its option stands.
pub type Found = Option<(UnsupportedWincodeAttrKind, Span)>;

/// Reads the options of `skip` from `pos` on: `default`, and `default_val` with a
/// value. What any other option is called does not matter.
pub open spec fn skip_options(tokens: Seq<Token>, pos: int, close: Span) -> Result<(), FailureView>
    decreases tokens.len() - pos,
{
    match option_path(tokens, pos, close) {
        Err(failure) => Err(failure),
        Ok(path) => match skip_option_end(tokens, path, close) {
            Err(failure) => Err(failure),
            Ok(end) => match option_end(tokens, end, close) {
                Err(failure) => Err(failure),
                Ok(None) => Ok(()),
                Ok(Some(next)) => if next > pos {
                    skip_options(tokens, next, close)
                } else {
                    Ok(())
                },
            },
        },
    }
}

/// Where an option of `skip` ends.
pub open spec fn skip_option_end(tokens: Seq<Token>, path: OptionPath, close: Span) -> Result<
    int,
    FailureView,
> {
    let next = path.next as int;
    if option_name(tokens, path) == Some("default_val"@) {
        if punct_at(tokens, next, '=') {
            expr_end(tokens, next + 1, close)
        } else {
            Err(unexpected(tokens, next, close, "expected `=`"@))
        }
    } else {
        Ok(next)
    }
}

/// The kind that an option is of.
pub open spec fn option_kind(tokens: Seq<Token>, path: OptionPath) -> Option<
    UnsupportedWincodeAttrKind,
> {
    let name = option_name(tokens, path);
    if name == Some("skip"@) {
        Some(UnsupportedWincodeAttrKind::Skip)
    } else if name == Some("with"@) {
        Some(UnsupportedWincodeAttrKind::With)
    } else if name == Some("tag_encoding"@) {
        Some(UnsupportedWincodeAttrKind::TagEncoding)
    } else {
        None
    }
}

/// Where an option of a wincode attribute ends. An unknown option ends behind its
/// path; a known one may have a value, and `skip` may have options of its own.
pub open spec fn wincode_option_end(tokens: Seq<Token>, path: OptionPath, close: Span) -> Result<
    int,
    FailureView,
> {
    let next = path.next as int;
    match option_kind(tokens, path) {
        None => Ok(next),
        Some(kind) => if punct_at(tokens, next, '=') {
            expr_end(tokens, next + 1, close)
        } else if kind == UnsupportedWincodeAttrKind::Skip && next < tokens.len() {
            match tokens[next].kind {
                TokenKind::Group { delimiter: Delimiter::Paren, tokens: inner, close: inner_close } => match skip_options(
                    inner@,
                    0,
                    inner_close,
                ) {
                    Err(failure) => Err(failure),
                    Ok(_) => Ok(next + 1),
                },
                _ => Ok(next),
            }
        } else {
            Ok(next)
        },
    }
}

/// Where the path of an option stands.
pub open spec fn option_span(tokens: Seq<Token>, pos: int, path: OptionPath) -> Span {
    Span { start: tokens[pos].span.start, end: tokens[path.next - 1].span.end }
}

/// Reads the options of a wincode attribute from `pos` on, with `found` found so
/// far. The last unsupported option counts.
pub open spec fn wincode_options(tokens: Seq<Token>, pos: int, close: Span, found: Found) -> Result<
    Found,
    FailureView,
>
    decreases tokens.len() - pos,
{
    match option_path(tokens, pos, close) {
        Err(failure) => Err(failure),
        Ok(path) => match wincode_option_end(tokens, path, close) {
            Err(failure) => Err(failure),
            Ok(end) => {
                let now = match option_kind(tokens, path) {
                    Some(kind) => Some((kind, option_span(tokens, pos, path))),
                    None => found,
                };
                match option_end(tokens, end, close) {
                    Err(failure) => Err(failure),
                    Ok(None) => Ok(now),
                    Ok(Some(next)) => if next > pos {
                        wincode_options(tokens, next, close, now)
                    } else {
                        Ok(now)
                    },
                }
            },
        },
    }
}

/// The options of an attribute, which must be a list.
pub open spec fn wincode_attr(attr: Attribute) -> Result<Found, FailureView> {
    match attr.meta {
        Meta::List { tokens, close } => if tokens@.len() == 0 {
            Ok(None)
        } else {
            wincode_options(tokens@, 0, close, None)
        },
        _ => Err(not_a_list(attr)),
    }
}

/// The unsupported option in the first wincode attribute that has one, or the
/// failure of the first wincode attribute that cannot be read, whichever is first.
pub open spec fn unsupported_attr(attrs: Seq<Attribute>) -> Result<Found, FailureView>
    decreases attrs.len(),
{
    if attrs.len() == 0 {
        Ok(None)
    } else if attrs[0].path@ != "wincode"@ {
        unsupported_attr(attrs.skip(1))
    } else {
        match wincode_attr(attrs[0]) {
            Ok(None) => unsupported_attr(attrs.skip(1)),
            other => other,
        }
    }
}

fn read_skip_options(tokens: &Vec<Token>, close: Span) -> (out: Result<(), Failure>)
    ensures
        unit_view(out) == skip_options(tokens@, 0, close),
{
    let mut pos: usize = 0;
    loop
        invariant
            pos <= tokens@.len(),
            skip_options(tokens@, 0, close) == skip_options(tokens@, pos as int, close),
        decreases tokens@.len() - pos,
    {
        let path = match read_option_path(tokens, pos, close) {
            Ok(path) => path,
            Err(failure) => return Err(failure),
        };
        let end: usize = if is_option(tokens, &path, "default_val") {
            if is_punct(tokens, path.next, '=') {
                assert(path.next < tokens.len());
                match skip_expr(tokens, path.next + 1, close) {
                    Ok(end) => end,
                    Err(failure) => return Err(failure),
                }
            } else {
                return Err(fail_at(tokens, path.next, close, "expected `=`"));
            }
        } else {
            path.next
        };
        match next_option(tokens, end, close) {
            Err(failure) => return Err(failure),
            Ok(None) => return Ok(()),
            Ok(Some(next)) => {
                pos = next;
            },
        }
    }
}

fn kind_of(tokens: &Vec<Token>, path: &OptionPath) -> (kind: Option<UnsupportedWincodeAttrKind>)
    ensures
        kind == option_kind(tokens@, *path),
{
    if is_option(tokens, path, "skip") {
        Some(UnsupportedWincodeAttrKind::Skip)
    } else if is_option(tokens, path, "with") {
        Some(UnsupportedWincodeAttrKind::With)
    } else if is_option(tokens, path, "tag_encoding") {
        Some(UnsupportedWincodeAttrKind::TagEncoding)
    } else {
        None
    }
}

fn skip_wincode_option(tokens: &Vec<Token>, path: &OptionPath, close: Span) -> (position: Result<
    usize,
    Failure,
>)
    requires
        path.next <= tokens@.len(),
    ensures
        crate::nested_meta::position_view(position) == wincode_option_end(tokens@, *path, close),
        position matches Ok(end) ==> path.next <= end <= tokens@.len(),
{
    match kind_of(tokens, path) {
        None => Ok(path.next),
        Some(kind) => {
            if is_punct(tokens, path.next, '=') {
                assert(path.next < tokens.len());
                return skip_expr(tokens, path.next + 1, close);
            }
            if kind == UnsupportedWincodeAttrKind::Skip && path.next < tokens.len() {
                if let TokenKind::Group {
                    delimiter: Delimiter::Paren,
                    tokens: inner,
                    close: inner_close,
                } = &tokens[path.next].kind {
                    return match read_skip_options(inner, *inner_close) {
                        Ok(_) => Ok(path.next + 1),
                        Err(failure) => Err(failure),
                    };
                }
            }
            Ok(path.next)
        },
    }
}

/// What was found, or the failure.
pub open spec fn found_view(found: Result<Found, Failure>) -> Result<Found, FailureView> {
    match found {
        Ok(found) => Ok(found),
        Err(failure) => Err(failure@),
    }
}

fn read_wincode_options(tokens: &Vec<Token>, close: Span) -> (out: Result<Found, Failure>)
    ensures
        found_view(out) == wincode_options(tokens@, 0, close, None),
{
    let mut pos: usize = 0;
    let mut found: Found = None;
    loop
        invariant
            pos <= tokens@.len(),
            wincode_options(tokens@, 0, close, None) == wincode_options(
                tokens@,
                pos as int,
                close,
                found,
            ),
        decreases tokens@.len() - pos,
    {
        let path = match read_option_path(tokens, pos, close) {
            Ok(path) => path,
            Err(failure) => return Err(failure),
        };
        let end: usize = match skip_wincode_option(tokens, &path, close) {
            Ok(end) => end,
            Err(failure) => return Err(failure),
        };
        if let Some(kind) = kind_of(tokens, &path) {
            let span = Span {
                start: tokens[pos].span.start,
                end: tokens[path.next - 1].span.end,
            };
            found = Some((kind, span));
        }
        match next_option(tokens, end, close) {
            Err(failure) => return Err(failure),
            Ok(None) => return Ok(found),
            Ok(Some(next)) => {
                pos = next;
            },
        }
    }
}

fn read_wincode_attr(attr: &Attribute) -> (out: Result<Found, Failure>)
    ensures
        found_view(out) == wincode_attr(*attr),
{
    match &attr.meta {
        Meta::List { tokens, close } => if tokens.len() == 0 {
            Ok(None)
        } else {
            read_wincode_options(tokens, *close)
        },
        _ => Err(refuse_non_list(attr)),
    }
}

/// Finds the first wincode attribute that changes how a value is serialized.
pub fn find_unsupported_wincode_attr(attrs: &Vec<Attribute>) -> (out: Result<Found, Failure>)
    ensures
        found_view(out) == unsupported_attr(attrs@),
{
    assert(attrs@.skip(0) == attrs@);
    for i in 0..attrs.len()
        invariant
            unsupported_attr(attrs@) == unsupported_attr(attrs@.skip(i as int)),
    {
        assert(attrs@.skip(i as int).skip(1) == attrs@.skip(i + 1));
        if same_text(attrs[i].path.as_str(), "wincode") {
            match read_wincode_attr(&attrs[i]) {
                Ok(None) => {},
                other => return other,
            }
        }
    }
    Ok(None)
}

// ---------------------------------------------------------------------------
// Diagnostics
// ---------------------------------------------------------------------------

/// Why a field with an unsupported option is refused.
pub open spec fn unsupported_message(kind: UnsupportedWincodeAttrKind) -> Seq<char> {
    match kind {
        UnsupportedWincodeAttrKind::Skip => SKIP_MESSAGE@,
        UnsupportedWincodeAttrKind::With => WITH_MESSAGE@,
        UnsupportedWincodeAttrKind::TagEncoding => TAG_ENCODING_MESSAGE@,
    }
}

/// Why a skipped field is refused.
pub const SKIP_MESSAGE: &'static str = " does not support `#[wincode(skip)]` fields because generated IDL would not match the serialized wire layout; remove the override or exclude this type from generated IDL";

/// Why a field with a codec of its own is refused.
pub const WITH_MESSAGE: &'static str = " does not support `#[wincode(with = ...)]` fields because custom wincode codecs can change the serialized wire layout; remove the override or exclude this type from generated IDL";

/// Why an enum with a discriminant of another width is refused.
pub const TAG_ENCODING_MESSAGE: &'static str = " does not support `#[wincode(tag_encoding = ...)]` because generated IDL assumes borsh's 1-byte enum discriminant; remove the override or exclude this type from generated IDL";

/// The failure of a type or field with these attributes, if there is one.
pub open spec fn wincode_failure(surface: Seq<char>, attrs: Seq<Attribute>) -> Option<FailureView> {
    match unsupported_attr(attrs) {
        Ok(Some((kind, span))) => Some(diagnostic(span, surface + unsupported_message(kind))),
        Ok(None) => None,
        Err(failure) => Some(failure),
    }
}

/// The failure, if there is one.
pub open spec fn failure_view(failure: Option<Failure>) -> Option<FailureView> {
    match failure {
        Some(failure) => Some(failure@),
        None => None,
    }
}

/// Reports a wincode attribute that changes how a value is serialized.
pub fn unsupported_wincode_idl_attr_error(surface: &str, attrs: &Vec<Attribute>) -> (out: Option<
    Failure,
>)
    ensures
        failure_view(out) == wincode_failure(surface@, attrs@),
{
    match find_unsupported_wincode_attr(attrs) {
        Ok(Some((kind, span))) => {
            let message = match kind {
                UnsupportedWincodeAttrKind::Skip => SKIP_MESSAGE,
                UnsupportedWincodeAttrKind::With => WITH_MESSAGE,
                UnsupportedWincodeAttrKind::TagEncoding => TAG_ENCODING_MESSAGE,
            };
            Some(new_diagnostic(span, surface.to_owned().concat(message)))
        },
        Ok(None) => None,
        Err(failure) => Some(failure),
    }
}

/// A failure that is reported only where the `cfg` attributes hold.
pub struct GatedFailure {
    pub cfg: String,
    pub failure: Failure,
}

/// A gated failure with its texts as sequences of characters.
pub struct GatedFailureView {
    pub cfg: Seq<char>,
    pub failure: FailureView,
}

/// The gated failures, with their texts as sequences of characters.
pub open spec fn gated_view(list: Seq<GatedFailure>) -> Seq<GatedFailureView> {
    list.map_values(
        |gated: GatedFailure| GatedFailureView { cfg: gated.cfg@, failure: gated.failure@ },
    )
}

/// The failures of the fields, in order, each under `outer` and the `cfg` attributes
/// of its field.
pub open spec fn field_failures(surface: Seq<char>, outer: Seq<char>, fields: Seq<Field>) -> Seq<
    GatedFailureView,
>
    decreases fields.len(),
{
    if fields.len() == 0 {
        Seq::empty()
    } else {
        let before = field_failures(surface, outer, fields.drop_last());
        match wincode_failure(surface, fields.last().attrs@) {
            Some(failure) => before.push(
                GatedFailureView { cfg: outer + cfg_text(fields.last().attrs@), failure },
            ),
            None => before,
        }
    }
}

/// The failures of the fields of all variants, in order, each under the `cfg`
/// attributes of its variant and its field.
pub open spec fn variant_failures(surface: Seq<char>, variants: Seq<Variant>) -> Seq<
    GatedFailureView,
>
    decreases variants.len(),
{
    if variants.len() == 0 {
        Seq::empty()
    } else {
        variant_failures(surface, variants.drop_last()) + field_failures(
            surface,
            cfg_text(variants.last().attrs@),
            variants.last().fields@,
        )
    }
}

fn push_field_failures(
    surface: &str,
    outer: &str,
    fields: &Vec<Field>,
    out: &mut Vec<GatedFailure>,
)
    ensures
        gated_view(final(out)@) == gated_view(old(out)@) + field_failures(
            surface@,
            outer@,
            fields@,
        ),
{
    assert(gated_view(out@) == gated_view(out@) + field_failures(surface@, outer@, fields@.take(0)));
    for i in 0..fields.len()
        invariant
            gated_view(out@) == gated_view(old(out)@) + field_failures(
                surface@,
                outer@,
                fields@.take(i as int),
            ),
    {
        assert(fields@.take(i + 1).drop_last() == fields@.take(i as int));
        if let Some(failure) = unsupported_wincode_idl_attr_error(surface, &fields[i].attrs) {
            let ghost before = gated_view(out@);
            let cfg = outer.to_owned().concat(cfg_attrs(&fields[i].attrs).as_str());
            let gated = GatedFailure { cfg, failure };
            out.push(gated);
            assert(gated_view(out@) == before.push(
                GatedFailureView { cfg: gated.cfg@, failure: gated.failure@ },
            ));
            assert(gated_view(out@) == gated_view(old(out)@) + field_failures(
                surface@,
                outer@,
                fields@.take(i + 1),
            ));
        }
    }
    assert(fields@.take(fields@.len() as int) == fields@);
}

/// Reports the fields with a wincode attribute that changes how they are serialized.
pub fn wincode_idl_override_tokens_for_fields(surface: &str, fields: &Vec<Field>) -> (out: Vec<
    GatedFailure,
>)
    ensures
        gated_view(out@) == field_failures(surface@, ""@, fields@),
{
    let mut out: Vec<GatedFailure> = Vec::new();
    push_field_failures(surface, "", fields, &mut out);
    assert(gated_view(out@) == field_failures(surface@, ""@, fields@));
    out
}

/// Reports the fields of variants with a wincode attribute that changes how they are
/// serialized.
pub fn wincode_idl_override_tokens_for_variants(surface: &str, variants: &Vec<Variant>) -> (out:
    Vec<GatedFailure>)
    ensures
        gated_view(out@) == variant_failures(surface@, variants@),
{
    let mut out: Vec<GatedFailure> = Vec::new();
    assert(gated_view(out@) == variant_failures(surface@, variants@.take(0)));
    for i in 0..variants.len()
        invariant
            gated_view(out@) == variant_failures(surface@, variants@.take(i as int)),
    {
        assert(variants@.take(i + 1).drop_last() == variants@.take(i as int));
        let outer = cfg_attrs(&variants[i].attrs);
        push_field_failures(surface, outer.as_str(), &variants[i].fields, &mut out);
    }
    assert(variants@.take(variants@.len() as int) == variants@);
    out
}

} // verus!
