//! Instruction handlers as functions: their parameters, the statement that runs the
//! update phase, and how they are written out.

use crate::attrs::Attribute;
use crate::discriminator::{is_discrim, is_discrim_attr};
use crate::failure::{diagnostic, new_diagnostic, Failure, FailureView, Span};
use crate::syntax::{print_type, type_text, Ident, Type};
use crate::text::{join_strings, joined, map_texts, same_text, texts};
use vstd::prelude::*;

verus! {

/// A function. `head` is what stands between its attributes and its parameters,
/// `tail` what stands between the parameters and the body, `body` the statements of
/// the body and `tokens` the whole function, each as text.
pub struct HandlerFn {
    pub attrs: Vec<Attribute>,
    pub public: bool,
    pub ident: Ident,
    pub head: String,
    pub inputs: Vec<FnArg>,
    pub output: Option<Type>,
    pub tail: String,
    pub body: String,
    pub tokens: String,
}

/// A parameter of a function.
pub enum FnArg {
    /// A `self` parameter, as it is written.
    Receiver { tokens: String, span: Span },
    Typed(TypedArg),
}

/// A parameter with a pattern and a type. `attrs` are its attributes, as text.
pub struct TypedArg {
    pub attrs: String,
    pub pat: Pat,
    pub ty: Type,
}

/// A pattern, with its text.
pub enum Pat {
    Ident { ident: Ident, tokens: String },
    Wild { tokens: String },
    Struct(PatStruct),
    Other { tokens: String, span: Span },
}

/// A struct pattern. `head` is what stands before the brackets and `rest` the dots
/// at the end, both as text. `trailing` says whether a comma stands behind the last
/// field.
pub struct PatStruct {
    pub head: String,
    pub fields: Vec<FieldPat>,
    pub trailing: bool,
    pub rest: Option<String>,
}

/// A field of a struct pattern. `named` says whether the member is a name and not a
/// number, and `colon` whether it is written.
pub struct FieldPat {
    pub attrs: String,
    pub member: String,
    pub named: bool,
    pub colon: bool,
    pub pat: SimplePat,
}

/// The pattern of a field, with its text.
pub enum SimplePat {
    Ident { ident: Ident, tokens: String },
    Wild { tokens: String },
    Other { tokens: String, span: Span },
}

// ---------------------------------------------------------------------------
// Patterns as text
// ---------------------------------------------------------------------------

/// The pattern of a field as text.
pub open spec fn simple_pat_text(pat: SimplePat) -> Seq<char> {
    match pat {
        SimplePat::Ident { tokens, .. } => tokens@,
        SimplePat::Wild { tokens } => tokens@,
        SimplePat::Other { tokens, .. } => tokens@,
    }
}

/// A field of a struct pattern as text, with the given pattern.
pub open spec fn field_pat_text(field: FieldPat, pat: Seq<char>) -> Seq<char> {
    field.attrs@ + (if field.colon {
        field.member@ + ": "@
    } else {
        ""@
    }) + pat
}

/// Each field of a struct pattern as text.
pub open spec fn field_pat_texts(fields: Seq<FieldPat>) -> Seq<Seq<char>> {
    fields.map_values(|field: FieldPat| field_pat_text(field, simple_pat_text(field.pat)))
}

/// A struct pattern as text, with its fields as texts.
pub open spec fn struct_pat_text(
    head: Seq<char>,
    fields: Seq<Seq<char>>,
    trailing: bool,
    rest: Option<String>,
) -> Seq<char> {
    head + " { "@ + joined(fields, ", "@) + (if fields.len() > 0 && (trailing || rest is Some) {
        ", "@
    } else {
        " "@
    }) + (match rest {
        Some(dots) => dots@,
        None => ""@,
    }) + " }"@
}

/// A pattern as text.
pub open spec fn pat_text(pat: Pat) -> Seq<char> {
    match pat {
        Pat::Ident { tokens, .. } => tokens@,
        Pat::Wild { tokens } => tokens@,
        Pat::Struct(pat) => struct_pat_text(
            pat.head@,
            field_pat_texts(pat.fields@),
            pat.trailing,
            pat.rest,
        ),
        Pat::Other { tokens, .. } => tokens@,
    }
}

fn print_simple_pat(pat: &SimplePat) -> (out: String)
    ensures
        out@ == simple_pat_text(*pat),
{
    match pat {
        SimplePat::Ident { tokens, .. } => tokens.clone(),
        SimplePat::Wild { tokens } => tokens.clone(),
        SimplePat::Other { tokens, .. } => tokens.clone(),
    }
}

fn print_field_pat(field: &FieldPat, pat: &str) -> (out: String)
    ensures
        out@ == field_pat_text(*field, pat@),
{
    let member = if field.colon {
        field.member.clone().concat(": ")
    } else {
        "".to_owned()
    };
    field.attrs.clone().concat(member.as_str()).concat(pat)
}

fn print_field_pats(fields: &Vec<FieldPat>) -> (out: Vec<String>)
    ensures
        texts(out@) == field_pat_texts(fields@),
        out@.len() == fields@.len(),
{
    map_texts(
        fields,
        |field: &FieldPat| -> (s: String)
            ensures
                s@ == field_pat_text(*field, simple_pat_text(field.pat))
            { print_field_pat(field, print_simple_pat(&field.pat).as_str()) },
        Ghost(|field: FieldPat| field_pat_text(field, simple_pat_text(field.pat))),
    )
}

fn print_struct_pat(head: &str, fields: &Vec<String>, trailing: bool, rest: &Option<String>) -> (
out: String)
    ensures
        out@ == struct_pat_text(head@, texts(fields@), trailing, *rest),
{
    let comma = if fields.len() > 0 && (trailing || rest.is_some()) {
        ", "
    } else {
        " "
    };
    let dots = match rest {
        Some(dots) => dots.clone(),
        None => "".to_owned(),
    };
    head.to_owned().concat(" { ").concat(join_strings(fields, ", ").as_str()).concat(comma).concat(
        dots.as_str(),
    ).concat(" }")
}

// ---------------------------------------------------------------------------
// The update phase
// ---------------------------------------------------------------------------

/// A parameter that binds the accounts, and the statement that runs their update
/// phase.
pub struct UpdatePhase {
    pub pat: String,
    pub stmt: String,
}

/// The pattern and the statement as sequences of characters.
pub struct UpdatePhaseView {
    pub pat: Seq<char>,
    pub stmt: Seq<char>,
}

/// The pattern and the statement or the failure, as sequences of characters.
pub open spec fn update_view(update: Result<UpdatePhase, Failure>) -> Result<
    UpdatePhaseView,
    FailureView,
> {
    match update {
        Ok(update) => Ok(UpdatePhaseView { pat: update.pat@, stmt: update.stmt@ }),
        Err(failure) => Err(failure@),
    }
}

/// The statement that runs the update phase of the accounts that `expr` refers to.
pub open spec fn update_stmt(expr: Seq<char>) -> Seq<char> {
    "anchor_lang::TryAccounts::update_accounts("@ + expr + ")?;"@
}

fn print_update_stmt(expr: &str) -> (out: String)
    ensures
        out@ == update_stmt(expr@),
{
    "anchor_lang::TryAccounts::update_accounts(".to_owned().concat(expr).concat(")?;")
}

/// Whether a field of a struct pattern binds the accounts.
pub open spec fn is_accounts(field: FieldPat) -> bool {
    field.named && field.member@ == "accounts"@
}

/// The place of the first field that binds the accounts; the number of fields where
/// none does.
pub open spec fn accounts_place(fields: Seq<FieldPat>) -> int
    decreases fields.len(),
{
    if fields.len() == 0 || is_accounts(fields[0]) {
        0
    } else {
        1 + accounts_place(fields.skip(1))
    }
}

/// Why a pattern for the accounts is refused.
pub const ACCOUNTS_PATTERN: &'static str = "`update(...)` handlers that destructure `Context { .. }` must bind `accounts` as a name or `_`, for example `Context { accounts, .. }` or `Context { accounts: _, .. }`";

/// Why a pattern for the context is refused.
pub const CONTEXT_PATTERN: &'static str = "`update(...)` handlers must take `&mut Context<T>` as an identifier like `ctx`, `_`, or `Context { .. }`, for example `ctx: &mut Context<T>` or `Context { accounts, .. }: &mut Context<T>`";

/// The update phase of a handler that destructures its context.
pub open spec fn struct_update(pat: PatStruct) -> Result<UpdatePhaseView, FailureView> {
    let fields = field_pat_texts(pat.fields@);
    let place = accounts_place(pat.fields@);
    if place < pat.fields@.len() {
        let field = pat.fields@[place];
        match field.pat {
            SimplePat::Ident { ident, .. } => Ok(
                UpdatePhaseView {
                    pat: struct_pat_text(pat.head@, fields, pat.trailing, pat.rest),
                    stmt: update_stmt(ident.text@),
                },
            ),
            SimplePat::Wild { .. } => Ok(
                UpdatePhaseView {
                    pat: struct_pat_text(
                        pat.head@,
                        fields.update(place, field_pat_text(field, "__anchor_accounts"@)),
                        pat.trailing,
                        pat.rest,
                    ),
                    stmt: update_stmt("__anchor_accounts"@),
                },
            ),
            SimplePat::Other { span, .. } => Err(diagnostic(span, ACCOUNTS_PATTERN@)),
        }
    } else {
        Ok(
            UpdatePhaseView {
                pat: struct_pat_text(
                    pat.head@,
                    fields.push("accounts: __anchor_accounts"@),
                    false,
                    pat.rest,
                ),
                stmt: update_stmt("__anchor_accounts"@),
            },
        )
    }
}

/// The update phase of a handler whose context is bound by a pattern. A pattern that
/// does not name the accounts is changed so that it does.
pub open spec fn update_phase(pat: Pat) -> Result<UpdatePhaseView, FailureView> {
    match pat {
        Pat::Ident { ident, .. } => Ok(
            UpdatePhaseView {
                pat: pat_text(pat),
                stmt: update_stmt("&mut "@ + ident.text@ + ".accounts"@),
            },
        ),
        Pat::Struct(pat) => struct_update(pat),
        Pat::Wild { .. } => Ok(
            UpdatePhaseView {
                pat: "__anchor_ctx"@,
                stmt: update_stmt("&mut __anchor_ctx.accounts"@),
            },
        ),
        Pat::Other { span, .. } => Err(diagnostic(span, CONTEXT_PATTERN@)),
    }
}

fn find_accounts(fields: &Vec<FieldPat>) -> (place: usize)
    ensures
        place == accounts_place(fields@),
        place <= fields@.len(),
{
    let mut i: usize = 0;
    assert(fields@.skip(0) == fields@);
    while i < fields.len()
        invariant
            i <= fields@.len(),
            accounts_place(fields@) == i + accounts_place(fields@.skip(i as int)),
        decreases fields@.len() - i,
    {
        assert(fields@.skip(i as int).skip(1) == fields@.skip(i + 1));
        if fields[i].named && same_text(fields[i].member.as_str(), "accounts") {
            return i;
        }
        i = i + 1;
    }
    i
}

fn update_for_struct(pat: &PatStruct) -> (out: Result<UpdatePhase, Failure>)
    ensures
        update_view(out) == struct_update(*pat),
{
    let mut fields = print_field_pats(&pat.fields);
    let ghost all = texts(fields@);
    let place = find_accounts(&pat.fields);
    if place < pat.fields.len() {
        let field = &pat.fields[place];
        match &field.pat {
            SimplePat::Ident { ident, .. } => Ok(
                UpdatePhase {
                    pat: print_struct_pat(pat.head.as_str(), &fields, pat.trailing, &pat.rest),
                    stmt: print_update_stmt(ident.text.as_str()),
                },
            ),
            SimplePat::Wild { .. } => {
                let bound = print_field_pat(field, "__anchor_accounts");
                fields.set(place, bound);
                assert(texts(fields@) == all.update(place as int, bound@));
                Ok(
                    UpdatePhase {
                        pat: print_struct_pat(pat.head.as_str(), &fields, pat.trailing, &pat.rest),
                        stmt: print_update_stmt("__anchor_accounts"),
                    },
                )
            },
            SimplePat::Other { span, .. } => Err(
                new_diagnostic(*span, ACCOUNTS_PATTERN.to_owned()),
            ),
        }
    } else {
        fields.push("accounts: __anchor_accounts".to_owned());
        assert(texts(fields@) == all.push("accounts: __anchor_accounts"@));
        Ok(
            UpdatePhase {
                pat: print_struct_pat(pat.head.as_str(), &fields, false, &pat.rest),
                stmt: print_update_stmt("__anchor_accounts"),
            },
        )
    }
}

/// The pattern that binds the accounts, and the statement that runs their update
/// phase.
pub fn update_accounts_stmt_for_handler_pat(pat: &Pat) -> (out: Result<UpdatePhase, Failure>)
    ensures
        update_view(out) == update_phase(*pat),
{
    match pat {
        Pat::Ident { ident, tokens } => Ok(
            UpdatePhase {
                pat: tokens.clone(),
                stmt: print_update_stmt(
                    "&mut ".to_owned().concat(ident.text.as_str()).concat(".accounts").as_str(),
                ),
            },
        ),
        Pat::Struct(pat) => update_for_struct(pat),
        Pat::Wild { .. } => Ok(
            UpdatePhase {
                pat: "__anchor_ctx".to_owned(),
                stmt: print_update_stmt("&mut __anchor_ctx.accounts"),
            },
        ),
        Pat::Other { span, .. } => Err(new_diagnostic(*span, CONTEXT_PATTERN.to_owned())),
    }
}

// ---------------------------------------------------------------------------
// Handlers as text
// ---------------------------------------------------------------------------

/// The attributes that stand outside or inside a function, without those that give
/// discriminators, as text.
pub open spec fn kept_attrs(attrs: Seq<Attribute>, inner: bool) -> Seq<char>
    decreases attrs.len(),
{
    if attrs.len() == 0 {
        Seq::empty()
    } else if attrs.last().inner == inner && !is_discrim(attrs.last()) {
        kept_attrs(attrs.drop_last(), inner) + attrs.last().tokens@ + "\n"@
    } else {
        kept_attrs(attrs.drop_last(), inner)
    }
}

/// A parameter as text, with the given pattern.
pub open spec fn typed_arg_text(arg: TypedArg, pat: Seq<char>) -> Seq<char> {
    arg.attrs@ + pat + ": "@ + type_text(arg.ty, None)
}

/// A parameter as text.
pub open spec fn fn_arg_text(arg: FnArg) -> Seq<char> {
    match arg {
        FnArg::Receiver { tokens, .. } => tokens@,
        FnArg::Typed(typed) => typed_arg_text(typed, pat_text(typed.pat)),
    }
}

/// Each parameter as text.
pub open spec fn fn_arg_texts(inputs: Seq<FnArg>) -> Seq<Seq<char>> {
    inputs.map_values(|arg: FnArg| fn_arg_text(arg))
}

/// A function as text, with the given parameters and first statement.
pub open spec fn fn_text(func: HandlerFn, inputs: Seq<Seq<char>>, stmt: Seq<char>) -> Seq<char> {
    kept_attrs(func.attrs@, false) + func.head@ + "("@ + joined(inputs, ", "@) + ")"@ + func.tail@
        + " {\n"@ + kept_attrs(func.attrs@, true) + stmt + "\n"@ + func.body@ + "\n}\n"@
}

/// A handler as it is written out: without the attributes that give discriminators,
/// and with the statement that runs the update phase first in its body.
pub open spec fn handler_text(func: HandlerFn) -> Result<Seq<char>, FailureView> {
    let inputs = fn_arg_texts(func.inputs@);
    if func.inputs@.len() == 0 {
        Ok(fn_text(func, inputs, ""@))
    } else {
        match func.inputs@[0] {
            FnArg::Receiver { .. } => Ok(fn_text(func, inputs, ""@)),
            FnArg::Typed(typed) => match update_phase(typed.pat) {
                Err(failure) => Err(failure),
                Ok(update) => Ok(
                    fn_text(
                        func,
                        inputs.update(0, typed_arg_text(typed, update.pat)),
                        update.stmt,
                    ),
                ),
            },
        }
    }
}

fn print_kept_attrs(attrs: &Vec<Attribute>, inner: bool) -> (out: String)
    ensures
        out@ == kept_attrs(attrs@, inner),
{
    let mut out = String::new();
    for i in 0..attrs.len()
        invariant
            out@ == kept_attrs(attrs@.take(i as int), inner),
    {
        assert(attrs@.take(i + 1).drop_last() == attrs@.take(i as int));
        if attrs[i].inner == inner && !is_discrim_attr(&attrs[i]) {
            out.append(attrs[i].tokens.as_str());
            out.append("\n");
        }
    }
    assert(attrs@.take(attrs@.len() as int) == attrs@);
    out
}

fn print_pat(pat: &Pat) -> (out: String)
    ensures
        out@ == pat_text(*pat),
{
    match pat {
        Pat::Ident { tokens, .. } => tokens.clone(),
        Pat::Wild { tokens } => tokens.clone(),
        Pat::Struct(pat) => {
            let fields = print_field_pats(&pat.fields);
            print_struct_pat(pat.head.as_str(), &fields, pat.trailing, &pat.rest)
        },
        Pat::Other { tokens, .. } => tokens.clone(),
    }
}

fn print_typed_arg(arg: &TypedArg, pat: &str) -> (out: String)
    ensures
        out@ == typed_arg_text(*arg, pat@),
{
    arg.attrs.clone().concat(pat).concat(": ").concat(print_type(&arg.ty).as_str())
}

fn print_fn_arg(arg: &FnArg) -> (out: String)
    ensures
        out@ == fn_arg_text(*arg),
{
    match arg {
        FnArg::Receiver { tokens, .. } => tokens.clone(),
        FnArg::Typed(typed) => print_typed_arg(typed, print_pat(&typed.pat).as_str()),
    }
}

fn print_fn(func: &HandlerFn, inputs: &Vec<String>, stmt: &str) -> (out: String)
    ensures
        out@ == fn_text(*func, texts(inputs@), stmt@),
{
    print_kept_attrs(&func.attrs, false).concat(func.head.as_str()).concat("(").concat(
        join_strings(inputs, ", ").as_str(),
    ).concat(")").concat(func.tail.as_str()).concat(" {\n").concat(
        print_kept_attrs(&func.attrs, true).as_str(),
    ).concat(stmt).concat("\n").concat(func.body.as_str()).concat("\n}\n")
}

/// Writes out a handler.
pub fn print_handler(func: &HandlerFn) -> (out: Result<String, Failure>)
    ensures
        crate::failure::code_view(out) == handler_text(*func),
{
    let mut inputs = map_texts(
        &func.inputs,
        |arg: &FnArg| -> (s: String)
            ensures
                s@ == fn_arg_text(*arg)
            { print_fn_arg(arg) },
        Ghost(|arg: FnArg| fn_arg_text(arg)),
    );
    let ghost all = texts(inputs@);
    if func.inputs.len() > 0 {
        if let FnArg::Typed(typed) = &func.inputs[0] {
            return match update_accounts_stmt_for_handler_pat(&typed.pat) {
                Err(failure) => Err(failure),
                Ok(update) => {
                    let first = print_typed_arg(typed, update.pat.as_str());
                    inputs.set(0, first);
                    assert(texts(inputs@) == all.update(0, first@));
                    Ok(print_fn(func, &inputs, update.stmt.as_str()))
                },
            };
        }
    }
    Ok(print_fn(func, &inputs, ""))
}

} // verus!
