//! Attributes on accounts structs and on their fields.

use crate::attrs::{Attribute, Meta, Token, Value, ValueKind};
use crate::failure::{
    at_call_site, call_site, code_view, diagnostic, new_diagnostic, Failure, FailureView, Span,
};
use crate::items::Field;
use crate::nested_meta::{
    is_option, next_option, option_end, option_name, option_path, read_option_path, OptionPath,
};
use crate::outside::{expr_reading, read_expr};
use crate::reading::{print_source, report_unread, source_text, unread_failure};
use crate::text::same_text;
use vstd::prelude::*;

verus! {

// ---------------------------------------------------------------------------
// The program that accounts belong to
// ---------------------------------------------------------------------------

/// How the attribute is to be written.
pub const PROGRAM_ID_FORM: &'static str =
    "expected #[accounts_program_id(expr)] or #[accounts_program_id = \"expr\"]";

/// A text read as an expression, with a failure reported at `span`.
pub open spec fn expr_at(text: Seq<char>, span: Span) -> Result<Seq<char>, FailureView> {
    match expr_reading(text) {
        Ok(expr) => Ok(expr),
        Err(unread) => Err(diagnostic(span, unread.message)),
    }
}

/// Reads a text as an expression.
pub fn parse_expr(text: &str, span: Span) -> (out: Result<String, Failure>)
    ensures
        code_view(out) == expr_at(text@, span),
{
    match read_expr(text) {
        Ok(expr) => Ok(expr),
        Err(unread) => Err(new_diagnostic(span, unread.message)),
    }
}

/// Tokens read as an expression, with a failure reported at the tokens that it is of.
/// `close` is where the tokens end.
pub open spec fn tokens_expr(tokens: Seq<Token>, close: Span) -> Result<Seq<char>, FailureView> {
    match expr_reading(source_text(tokens)) {
        Ok(expr) => Ok(expr),
        Err(unread) => Err(unread_failure(tokens, unread, 1, close)),
    }
}

/// Reads tokens as an expression.
pub fn parse_tokens_expr(tokens: &Vec<Token>, close: Span) -> (out: Result<String, Failure>)
    ensures
        code_view(out) == tokens_expr(tokens@, close),
{
    let text = print_source(tokens, 0);
    assert(tokens@.skip(0) == tokens@);
    match read_expr(text.as_str()) {
        Ok(expr) => Ok(expr),
        Err(unread) => {
            assert(tokens@.subrange(0, tokens@.len() as int) == tokens@);
            Err(report_unread(tokens, 0, tokens.len(), unread, 1, close))
        },
    }
}

/// The expression in an `accounts_program_id` attribute.
pub open spec fn program_id_in(attr: Attribute) -> Result<Seq<char>, FailureView> {
    match attr.meta {
        Meta::List { tokens, close } => tokens_expr(tokens@, close),
        Meta::NameValue { value: Value { kind: ValueKind::Text(text), span, .. }, .. } => expr_at(
            text@,
            span,
        ),
        _ => Err(diagnostic(attr.span, PROGRAM_ID_FORM@)),
    }
}

fn read_program_id(attr: &Attribute) -> (out: Result<String, Failure>)
    ensures
        code_view(out) == program_id_in(*attr),
{
    match &attr.meta {
        Meta::List { tokens, close } => parse_tokens_expr(tokens, *close),
        Meta::NameValue { value, .. } => match &value.kind {
            ValueKind::Text(text) => parse_expr(text.as_str(), value.span),
            _ => Err(new_diagnostic(attr.span, PROGRAM_ID_FORM.to_owned())),
        },
        Meta::Path => Err(new_diagnostic(attr.span, PROGRAM_ID_FORM.to_owned())),
    }
}

/// Whether an attribute names the program that accounts belong to.
pub open spec fn is_program_id(attr: Attribute) -> bool {
    attr.path@ == "accounts_program_id"@
}

/// The expression in the first `accounts_program_id` attribute; the program of this
/// crate where there is none.
pub open spec fn first_program_id(attrs: Seq<Attribute>) -> Result<Seq<char>, FailureView>
    decreases attrs.len(),
{
    if attrs.len() == 0 {
        Ok("crate::ID"@)
    } else if is_program_id(attrs[0]) {
        program_id_in(attrs[0])
    } else {
        first_program_id(attrs.skip(1))
    }
}

/// The expression for the program that the accounts belong to. Attributes after the
/// first are not looked at.
pub fn accounts_program_id_expr(attrs: &Vec<Attribute>) -> (out: Result<String, Failure>)
    ensures
        code_view(out) == first_program_id(attrs@),
{
    assert(attrs@.skip(0) == attrs@);
    for i in 0..attrs.len()
        invariant
            first_program_id(attrs@) == first_program_id(attrs@.skip(i as int)),
    {
        assert(attrs@.skip(i as int).skip(1) == attrs@.skip(i + 1));
        if same_text(attrs[i].path.as_str(), "accounts_program_id") {
            return read_program_id(&attrs[i]);
        }
    }
    Ok("crate::ID".to_owned())
}

/// The expression in the only `accounts_program_id` attribute, with `seen` read so
/// far; the program of this crate where there is none.
pub open spec fn only_program_id(attrs: Seq<Attribute>, seen: Option<Seq<char>>) -> Result<
    Seq<char>,
    FailureView,
>
    decreases attrs.len(),
{
    if attrs.len() == 0 {
        match seen {
            Some(expr) => Ok(expr),
            None => Ok("crate::ID"@),
        }
    } else if !is_program_id(attrs[0]) {
        only_program_id(attrs.skip(1), seen)
    } else if seen is Some {
        Err(diagnostic(attrs[0].span, "duplicate `accounts_program_id` attribute"@))
    } else {
        match program_id_in(attrs[0]) {
            Err(failure) => Err(failure),
            Ok(expr) => only_program_id(attrs.skip(1), Some(expr)),
        }
    }
}

/// The expression for the program that the accounts belong to. A second attribute is
/// refused.
pub fn parse_accounts_program_id_attr(attrs: &Vec<Attribute>) -> (out: Result<String, Failure>)
    ensures
        code_view(out) == only_program_id(attrs@, None),
{
    let mut seen: Option<String> = None;
    assert(attrs@.skip(0) == attrs@);
    for i in 0..attrs.len()
        invariant
            only_program_id(attrs@, None) == only_program_id(
                attrs@.skip(i as int),
                crate::text::option_text(seen),
            ),
    {
        assert(attrs@.skip(i as int).skip(1) == attrs@.skip(i + 1));
        if same_text(attrs[i].path.as_str(), "accounts_program_id") {
            if seen.is_some() {
                return Err(
                    new_diagnostic(
                        attrs[i].span,
                        "duplicate `accounts_program_id` attribute".to_owned(),
                    ),
                );
            }
            match read_program_id(&attrs[i]) {
                Ok(expr) => {
                    seen = Some(expr);
                },
                Err(failure) => return Err(failure),
            }
        }
    }
    match seen {
        Some(expr) => Ok(expr),
        None => Ok("crate::ID".to_owned()),
    }
}

// ---------------------------------------------------------------------------
// Signers
// ---------------------------------------------------------------------------

/// Whether an account signs: whether that was said, and the condition.
pub struct SignerExpr {
    pub present: bool,
    pub expr: String,
}

/// The condition, or the failure.
pub open spec fn signer_view(signer: Result<SignerExpr, Failure>) -> Result<
    Option<Seq<char>>,
    FailureView,
> {
    match signer {
        Ok(signer) => if signer.present {
            Ok(Some(signer.expr@))
        } else {
            Ok(None)
        },
        Err(failure) => Err(failure@),
    }
}

/// The condition in a `signer` attribute.
pub open spec fn signer_in(attr: Attribute) -> Result<Seq<char>, FailureView> {
    match attr.meta {
        Meta::Path => Ok("true"@),
        Meta::NameValue { value, .. } => Ok(value.tokens@),
        Meta::List { tokens, .. } => tokens_expr(tokens@, call_site()),
    }
}

/// The condition in the only `signer` attribute, with `seen` read so far.
pub open spec fn only_signer(attrs: Seq<Attribute>, seen: Option<Seq<char>>) -> Result<
    Option<Seq<char>>,
    FailureView,
>
    decreases attrs.len(),
{
    if attrs.len() == 0 {
        Ok(seen)
    } else if attrs[0].path@ != "signer"@ {
        only_signer(attrs.skip(1), seen)
    } else if seen is Some {
        Err(diagnostic(attrs[0].span, "duplicate #[signer] attribute"@))
    } else {
        match signer_in(attrs[0]) {
            Err(failure) => Err(failure),
            Ok(expr) => only_signer(attrs.skip(1), Some(expr)),
        }
    }
}

/// Reads the `signer` attribute of a field. Where there is none, the account does not
/// sign.
pub fn signer_expr_attr(field: &Field) -> (out: Result<SignerExpr, Failure>)
    ensures
        signer_view(out) == only_signer(field.attrs@, None),
        out matches Ok(signer) ==> (!signer.present ==> signer.expr@ == "false"@),
{
    let attrs = &field.attrs;
    let mut seen: Option<String> = None;
    assert(attrs@.skip(0) == attrs@);
    for i in 0..attrs.len()
        invariant
            attrs@ == field.attrs@,
            only_signer(attrs@, None) == only_signer(
                attrs@.skip(i as int),
                crate::text::option_text(seen),
            ),
    {
        assert(attrs@.skip(i as int).skip(1) == attrs@.skip(i + 1));
        if same_text(attrs[i].path.as_str(), "signer") {
            if seen.is_some() {
                return Err(
                    new_diagnostic(attrs[i].span, "duplicate #[signer] attribute".to_owned()),
                );
            }
            match &attrs[i].meta {
                Meta::Path => {
                    seen = Some("true".to_owned());
                },
                Meta::NameValue { value, .. } => {
                    seen = Some(value.tokens.clone());
                },
                Meta::List { tokens, .. } => {
                    match parse_tokens_expr(tokens, at_call_site()) {
                        Ok(expr) => {
                            seen = Some(expr);
                        },
                        Err(failure) => return Err(failure),
                    }
                },
            }
        }
    }
    match seen {
        Some(expr) => Ok(SignerExpr { present: true, expr }),
        None => Ok(SignerExpr { present: false, expr: "false".to_owned() }),
    }
}

// ---------------------------------------------------------------------------
// Nested accounts
// ---------------------------------------------------------------------------

/// The truth value, or the failure.
pub open spec fn flag_view(set: Result<bool, Failure>) -> Result<bool, FailureView> {
    match set {
        Ok(set) => Ok(set),
        Err(failure) => Err(failure@),
    }
}

/// Whether there is a `nested` attribute, with `seen` found so far.
pub open spec fn nested_attr(attrs: Seq<Attribute>, seen: bool) -> Result<bool, FailureView>
    decreases attrs.len(),
{
    if attrs.len() == 0 {
        Ok(seen)
    } else if attrs[0].path@ != "nested"@ {
        nested_attr(attrs.skip(1), seen)
    } else if seen {
        Err(diagnostic(attrs[0].span, "duplicate #[nested] attribute"@))
    } else if attrs[0].meta !is Path {
        Err(diagnostic(attrs[0].span, "expected #[nested]"@))
    } else {
        nested_attr(attrs.skip(1), true)
    }
}

/// Whether a field has a `nested` attribute.
pub fn has_nested_attr(field: &Field) -> (out: Result<bool, Failure>)
    ensures
        flag_view(out) == nested_attr(field.attrs@, false),
{
    let attrs = &field.attrs;
    let mut nested = false;
    assert(attrs@.skip(0) == attrs@);
    for i in 0..attrs.len()
        invariant
            attrs@ == field.attrs@,
            nested_attr(attrs@, false) == nested_attr(attrs@.skip(i as int), nested),
    {
        assert(attrs@.skip(i as int).skip(1) == attrs@.skip(i + 1));
        if same_text(attrs[i].path.as_str(), "nested") {
            if nested {
                return Err(
                    new_diagnostic(attrs[i].span, "duplicate #[nested] attribute".to_owned()),
                );
            }
            match &attrs[i].meta {
                Meta::Path => {},
                _ => {
                    return Err(new_diagnostic(attrs[i].span, "expected #[nested]".to_owned()));
                },
            }
            nested = true;
        }
    }
    Ok(nested)
}

// ---------------------------------------------------------------------------
// Account metas
// ---------------------------------------------------------------------------

/// What `account_meta` attributes say of a field.
#[derive(Clone, Copy, Debug, PartialEq, Eq, Structural)]
pub struct AccountMetaAttrs {
    pub skip: bool,
    pub duplicate_readonly: bool,
}

/// What the attributes say, or the failure.
pub open spec fn metas_view(metas: Result<AccountMetaAttrs, Failure>) -> Result<
    AccountMetaAttrs,
    FailureView,
> {
    match metas {
        Ok(metas) => Ok(metas),
        Err(failure) => Err(failure@),
    }
}

/// Adds an option of an `account_meta` attribute to what was said so far.
pub open spec fn with_meta_option(
    tokens: Seq<Token>,
    path: OptionPath,
    so_far: AccountMetaAttrs,
) -> Result<AccountMetaAttrs, FailureView> {
    let name = option_name(tokens, path);
    let span = Span {
        start: tokens[path.word as int].span.start,
        end: tokens[path.next - 1].span.end,
    };
    if name == Some("skip"@) {
        if so_far.skip {
            Err(diagnostic(span, "duplicate account_meta skip"@))
        } else {
            Ok(AccountMetaAttrs { skip: true, duplicate_readonly: so_far.duplicate_readonly })
        }
    } else if name == Some("duplicate_readonly"@) {
        if so_far.duplicate_readonly {
            Err(diagnostic(span, "duplicate account_meta duplicate_readonly"@))
        } else {
            Ok(AccountMetaAttrs { skip: so_far.skip, duplicate_readonly: true })
        }
    } else {
        Err(diagnostic(span, "unsupported account_meta option"@))
    }
}

/// Reads the options of an `account_meta` attribute from `pos` on.
pub open spec fn meta_options(
    tokens: Seq<Token>,
    pos: int,
    close: Span,
    so_far: AccountMetaAttrs,
) -> Result<AccountMetaAttrs, FailureView>
    decreases tokens.len() - pos,
{
    match option_path(tokens, pos, close) {
        Err(failure) => Err(failure),
        Ok(path) => match with_meta_option(tokens, path, so_far) {
            Err(failure) => Err(failure),
            Ok(now) => match option_end(tokens, path.next as int, close) {
                Err(failure) => Err(failure),
                Ok(None) => Ok(now),
                Ok(Some(next)) => if next > pos {
                    meta_options(tokens, next, close, now)
                } else {
                    Ok(now)
                },
            },
        },
    }
}

/// Reads the `account_meta` attributes.
pub open spec fn meta_attrs(attrs: Seq<Attribute>, so_far: AccountMetaAttrs) -> Result<
    AccountMetaAttrs,
    FailureView,
>
    decreases attrs.len(),
{
    if attrs.len() == 0 {
        Ok(so_far)
    } else if attrs[0].path@ != "account_meta"@ {
        meta_attrs(attrs.skip(1), so_far)
    } else {
        match attrs[0].meta {
            Meta::List { tokens, close } => if tokens@.len() == 0 {
                meta_attrs(attrs.skip(1), so_far)
            } else {
                match meta_options(tokens@, 0, close, so_far) {
                    Err(failure) => Err(failure),
                    Ok(now) => meta_attrs(attrs.skip(1), now),
                }
            },
            _ => Err(diagnostic(attrs[0].span, "expected #[account_meta(skip)]"@)),
        }
    }
}

/// What the `account_meta` attributes of a field say. An account that is left out
/// cannot be there twice.
pub open spec fn field_metas(field: Field) -> Result<AccountMetaAttrs, FailureView> {
    match meta_attrs(
        field.attrs@,
        AccountMetaAttrs { skip: false, duplicate_readonly: false },
    ) {
        Ok(metas) if metas.skip && metas.duplicate_readonly => Err(
            diagnostic(field.span, SKIP_AND_DUPLICATE@),
        ),
        other => other,
    }
}

/// Why the two options exclude each other.
pub const SKIP_AND_DUPLICATE: &'static str =
    "#[account_meta(skip)] cannot be combined with #[account_meta(duplicate_readonly)]";

fn add_meta_option(tokens: &Vec<Token>, path: &OptionPath, so_far: AccountMetaAttrs) -> (out:
    Result<AccountMetaAttrs, Failure>)
    requires
        path.word < path.next <= tokens@.len(),
    ensures
        metas_view(out) == with_meta_option(tokens@, *path, so_far),
{
    let span = Span { start: tokens[path.word].span.start, end: tokens[path.next - 1].span.end };
    if is_option(tokens, path, "skip") {
        if so_far.skip {
            return Err(new_diagnostic(span, "duplicate account_meta skip".to_owned()));
        }
        Ok(AccountMetaAttrs { skip: true, duplicate_readonly: so_far.duplicate_readonly })
    } else if is_option(tokens, path, "duplicate_readonly") {
        if so_far.duplicate_readonly {
            return Err(
                new_diagnostic(span, "duplicate account_meta duplicate_readonly".to_owned()),
            );
        }
        Ok(AccountMetaAttrs { skip: so_far.skip, duplicate_readonly: true })
    } else {
        Err(new_diagnostic(span, "unsupported account_meta option".to_owned()))
    }
}

fn read_meta_options(tokens: &Vec<Token>, close: Span, before: AccountMetaAttrs) -> (out: Result<
    AccountMetaAttrs,
    Failure,
>)
    ensures
        metas_view(out) == meta_options(tokens@, 0, close, before),
{
    let mut pos: usize = 0;
    let mut so_far = before;
    loop
        invariant
            pos <= tokens@.len(),
            meta_options(tokens@, 0, close, before) == meta_options(
                tokens@,
                pos as int,
                close,
                so_far,
            ),
        decreases tokens@.len() - pos,
    {
        let path = match read_option_path(tokens, pos, close) {
            Ok(path) => path,
            Err(failure) => return Err(failure),
        };
        match add_meta_option(tokens, &path, so_far) {
            Ok(now) => {
                so_far = now;
            },
            Err(failure) => return Err(failure),
        }
        match next_option(tokens, path.next, close) {
            Err(failure) => return Err(failure),
            Ok(None) => return Ok(so_far),
            Ok(Some(next)) => {
                pos = next;
            },
        }
    }
}

/// Reads the `account_meta` attributes of a field.
pub fn account_meta_attrs(field: &Field) -> (out: Result<AccountMetaAttrs, Failure>)
    ensures
        metas_view(out) == field_metas(*field),
{
    let attrs = &field.attrs;
    let mut so_far = AccountMetaAttrs { skip: false, duplicate_readonly: false };
    let ghost start = so_far;
    assert(attrs@.skip(0) == attrs@);
    for i in 0..attrs.len()
        invariant
            attrs@ == field.attrs@,
            start == (AccountMetaAttrs { skip: false, duplicate_readonly: false }),
            meta_attrs(attrs@, start) == meta_attrs(attrs@.skip(i as int), so_far),
    {
        assert(attrs@.skip(i as int).skip(1) == attrs@.skip(i + 1));
        if same_text(attrs[i].path.as_str(), "account_meta") {
            match &attrs[i].meta {
                Meta::List { tokens, close } => {
                    if tokens.len() > 0 {
                        match read_meta_options(tokens, *close, so_far) {
                            Ok(now) => {
                                so_far = now;
                            },
                            Err(failure) => return Err(failure),
                        }
                    }
                },
                _ => {
                    return Err(
                        new_diagnostic(
                            attrs[i].span,
                            "expected #[account_meta(skip)]".to_owned(),
                        ),
                    );
                },
            }
        }
    }
    if so_far.skip && so_far.duplicate_readonly {
        return Err(new_diagnostic(field.span, SKIP_AND_DUPLICATE.to_owned()));
    }
    Ok(so_far)
}

} // verus!
