//! Errors of an interface description.

use crate::failure::{
    code_view, collected, diagnostic, new_diagnostic, try_map_texts, Failure, FailureView, Span,
};
use crate::json::{
    array_at, json_str, json_text, member_of, number_of, required_text, text_at, Json,
};
use crate::names::{item_name, new_ident, to_type_name, type_case};
use crate::outside::{literal_of, string_literal};
use crate::template::{fill2, filled};
use crate::text::{decimal, decimal_text, terminate_strings, terminated};
use vstd::prelude::*;

verus! {

/// What stands for the errors of a program without any.
pub const NO_ERRORS: &'static str = r#"pub mod error {
    use super::*;
}"#;

/// The errors of a program.
pub const ERRORS: &'static str = r#"pub mod error {
    use super::*;

    #[anchor_lang::error_code(offset = 0)]
    pub enum @a {
        @b
    }
}"#;

/// The name of the program that an interface description gives.
pub open spec fn program_name(idl: Json) -> Seq<char> {
    match member_of(idl, "metadata"@) {
        Some(metadata) => match text_at(metadata, "name"@) {
            Some(name) => name,
            None => "DeclaredProgram"@,
        },
        None => "DeclaredProgram"@,
    }
}

/// The code of an error, where a `u32` holds it.
pub open spec fn error_code_of(error: Json) -> Option<u64> {
    match member_of(error, "code"@) {
        Some(value) => match number_of(value) {
            Some(code) if code <= 0xffff_ffff => Some(code),
            _ => None,
        },
        None => None,
    }
}

/// The message of an error as an attribute.
pub open spec fn message_attr(error: Json) -> Seq<char> {
    match text_at(error, "msg"@) {
        Some(message) => "#[msg("@ + literal_of(message) + ")]\n"@,
        None => ""@,
    }
}

/// An error as a variant.
pub open spec fn error_variant(error: Json, span: Span) -> Result<Seq<char>, FailureView> {
    match required_text(error, "name"@, span) {
        Err(failure) => Err(failure),
        Ok(name) => match item_name(type_case(name)) {
            Err(failure) => Err(failure),
            Ok(ident) => match error_code_of(error) {
                None => Err(
                    diagnostic(
                        span,
                        "IDL error `"@ + name + "` is missing a u32 code in `"@ + json_text(error)
                            + "`"@,
                    ),
                ),
                Some(code) => Ok(
                    message_attr(error) + ident + " = "@ + decimal(code as nat) + "u32,"@,
                ),
            },
        },
    }
}

/// The errors of an interface description as items.
pub open spec fn declared_errors(idl: Json, span: Span) -> Result<Seq<char>, FailureView> {
    match array_at(idl, "errors"@) {
        None => Ok(NO_ERRORS@),
        Some(errors) => if errors.len() == 0 {
            Ok(NO_ERRORS@)
        } else {
            match item_name(type_case(program_name(idl)) + "Error"@) {
                Err(failure) => Err(failure),
                Ok(ident) => match collected(
                    errors.map_values(|error: Json| error_variant(error, span)),
                ) {
                    Err(failure) => Err(failure),
                    Ok(variants) => Ok(
                        filled(ERRORS@, seq![ident, terminated(variants, "\n"@)]),
                    ),
                },
            }
        },
    }
}

fn print_error_variant(error: &Json, span: Span) -> (out: Result<String, Failure>)
    ensures
        code_view(out) == error_variant(*error, span),
{
    let name = match json_str(error, "name", span) {
        Err(failure) => return Err(failure),
        Ok(name) => name,
    };
    let ident = match new_ident(to_type_name(name)) {
        Err(failure) => return Err(failure),
        Ok(ident) => ident,
    };
    let found: Option<u64> = match error.get("code") {
        Some(value) => match value.as_u64() {
            Some(code) if code <= 0xffff_ffff => Some(code),
            _ => None,
        },
        None => None,
    };
    let code: u64 = match found {
        None => {
            let shown = error.to_text();
            return Err(
                new_diagnostic(
                    span,
                    "IDL error `".to_owned().concat(name).concat(
                        "` is missing a u32 code in `",
                    ).concat(shown.as_str()).concat("`"),
                ),
            );
        },
        Some(code) => code,
    };
    let message = match error.text_at("msg") {
        Some(message) => "#[msg(".to_owned().concat(string_literal(message).as_str()).concat(
            ")]\n",
        ),
        None => "".to_owned(),
    };
    Ok(
        message.concat(ident.as_str()).concat(" = ").concat(decimal_text(code).as_str()).concat(
            "u32,",
        ),
    )
}

/// Writes the errors of an interface description.
pub fn gen_declare_program_errors(idl: &Json, span: Span) -> (out: Result<String, Failure>)
    ensures
        code_view(out) == declared_errors(*idl, span),
{
    let errors = match idl.array_at("errors") {
        None => return Ok(NO_ERRORS.to_owned()),
        Some(errors) => errors,
    };
    if errors.len() == 0 {
        return Ok(NO_ERRORS.to_owned());
    }
    let name = match idl.get("metadata") {
        Some(metadata) => match metadata.text_at("name") {
            Some(name) => name,
            None => "DeclaredProgram",
        },
        None => "DeclaredProgram",
    };
    let ident = match new_ident(to_type_name(name).concat("Error")) {
        Err(failure) => return Err(failure),
        Ok(ident) => ident,
    };
    match try_map_texts(
        errors,
        |error: &Json| -> (r: Result<String, Failure>)
            ensures
                code_view(r) == error_variant(*error, span)
            { print_error_variant(error, span) },
        Ghost(|error: Json| error_variant(error, span)),
    ) {
        Err(failure) => Err(failure),
        Ok(variants) => Ok(
            fill2(ERRORS, ident.as_str(), terminate_strings(&variants, "\n").as_str()),
        ),
    }
}

} // verus!
