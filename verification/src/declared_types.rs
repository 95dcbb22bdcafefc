//! Types of an interface description, written as Rust types.

use crate::failure::{
    code_view, collected, diagnostic, lemma_collected_prefix, new_diagnostic, Failure, FailureView,
    Span,
};
use crate::json::{
    array_at, json_str, json_text, lemma_array_smaller, lemma_member_smaller, member_of, number_of,
    required_text, text_at, text_of, Json,
};
use crate::names::{item_name, new_ident, to_type_name, type_case};
use crate::outside::{expr_reading, ident_reading, read_expr, read_ident};
use crate::text::{decimal, decimal_text, join_strings, joined, option_text, same_text, texts};
use vstd::prelude::*;

verus! {

/// The Rust type for the name of a type of the interface description.
pub open spec fn primitive(name: Seq<char>) -> Option<Seq<char>> {
    if name == "bool"@ || name == "u8"@ || name == "i8"@ || name == "u16"@ || name == "i16"@ || name
        == "u32"@ || name == "i32"@ || name == "f32"@ || name == "u64"@ || name == "i64"@ || name
        == "f64"@ || name == "u128"@ || name == "i128"@ {
        Some(name)
    } else if name == "bytes"@ {
        Some("anchor_lang::__alloc::vec::Vec<u8>"@)
    } else if name == "string"@ {
        Some("anchor_lang::__alloc::string::String"@)
    } else if name == "pubkey"@ {
        Some("anchor_lang::Address"@)
    } else {
        None
    }
}

/// The Rust type for the name of a wrapper that the runtime provides.
pub open spec fn builtin(name: Seq<char>) -> Option<Seq<char>> {
    if name == "PodBool"@ || name == "PodU16"@ || name == "PodU32"@ || name == "PodU64"@ || name
        == "PodU128"@ || name == "PodI16"@ || name == "PodI32"@ || name == "PodI64"@ || name
        == "PodI128"@ {
        Some("anchor_lang::pod::"@ + name)
    } else {
        None
    }
}

fn find_primitive(name: &str) -> (out: Option<String>)
    ensures
        option_text(out) == primitive(name@),
{
    if same_text(name, "bool") || same_text(name, "u8") || same_text(name, "i8") || same_text(
        name,
        "u16",
    ) || same_text(name, "i16") || same_text(name, "u32") || same_text(name, "i32") || same_text(
        name,
        "f32",
    ) || same_text(name, "u64") || same_text(name, "i64") || same_text(name, "f64") || same_text(
        name,
        "u128",
    ) || same_text(name, "i128") {
        Some(name.to_owned())
    } else if same_text(name, "bytes") {
        Some("anchor_lang::__alloc::vec::Vec<u8>".to_owned())
    } else if same_text(name, "string") {
        Some("anchor_lang::__alloc::string::String".to_owned())
    } else if same_text(name, "pubkey") {
        Some("anchor_lang::Address".to_owned())
    } else {
        None
    }
}

/// The Rust type for the name of a wrapper that the runtime provides.
pub fn declare_idl_defined_builtin(name: &str) -> (out: Option<String>)
    ensures
        option_text(out) == builtin(name@),
{
    if same_text(name, "PodBool") || same_text(name, "PodU16") || same_text(name, "PodU32")
        || same_text(name, "PodU64") || same_text(name, "PodU128") || same_text(name, "PodI16")
        || same_text(name, "PodI32") || same_text(name, "PodI64") || same_text(name, "PodI128") {
        Some("anchor_lang::pod::".to_owned().concat(name))
    } else {
        None
    }
}

// ---------------------------------------------------------------------------
// Array lengths
// ---------------------------------------------------------------------------

/// The name of the generic that an array length refers to.
pub open spec fn length_generic(value: Json) -> Option<Seq<char>> {
    match text_at(value, "generic"@) {
        Some(generic) => Some(generic),
        None => text_of(value),
    }
}

/// The length of an array: a number, or an identifier that names a generic.
pub open spec fn array_len(value: Json, span: Span) -> Result<Seq<char>, FailureView> {
    match number_of(value) {
        Some(n) => Ok(decimal((n as usize) as nat) + "usize"@),
        None => match length_generic(value) {
            Some(generic) => match ident_reading(generic) {
                Ok(ident) => Ok(ident),
                Err(unread) => Err(
                    diagnostic(
                        span,
                        "invalid IDL array generic `"@ + generic + "`: "@ + unread.message,
                    ),
                ),
            },
            None => Err(
                diagnostic(span, "unsupported IDL array length `"@ + json_text(value) + "`"@),
            ),
        },
    }
}

/// Writes the length of an array.
pub fn declare_idl_array_len_to_tokens(value: &Json, span: Span) -> (out: Result<String, Failure>)
    ensures
        code_view(out) == array_len(*value, span),
{
    if let Some(n) = value.as_u64() {
        return Ok(decimal_text((n as usize) as u64).concat("usize"));
    }
    let generic = match value.text_at("generic") {
        Some(generic) => Some(generic),
        None => value.as_str(),
    };
    match generic {
        Some(generic) => match read_ident(generic) {
            Ok(ident) => Ok(ident),
            Err(unread) => Err(
                new_diagnostic(
                    span,
                    "invalid IDL array generic `".to_owned().concat(generic).concat(
                        "`: ",
                    ).concat(unread.message.as_str()),
                ),
            ),
        },
        None => Err(
            new_diagnostic(
                span,
                "unsupported IDL array length `".to_owned().concat(
                    value.to_text().as_str(),
                ).concat("`"),
            ),
        ),
    }
}

// ---------------------------------------------------------------------------
// Types
// ---------------------------------------------------------------------------

/// The name of a defined type.
pub open spec fn defined_name(defined: Json, span: Span) -> Result<Seq<char>, FailureView> {
    match text_of(defined) {
        Some(name) => Ok(name),
        None => required_text(defined, "name"@, span),
    }
}

/// A type of the interface description as a Rust type.
pub open spec fn idl_type(value: Json, span: Span) -> Result<Seq<char>, FailureView>
    decreases value, 0int,
{
    if text_of(value) is Some {
        match primitive(text_of(value)->Some_0) {
            Some(ty) => Ok(ty),
            None => Err(
                diagnostic(
                    span,
                    "unsupported IDL type string `"@ + text_of(value)->Some_0 + "`"@,
                ),
            ),
        }
    } else if member_of(value, "defined"@) is Some {
        let defined = member_of(value, "defined"@)->Some_0;
        proof {
            lemma_member_smaller(value, "defined"@);
        }
        match defined_name(defined, span) {
            Err(failure) => Err(failure),
            Ok(name) => if builtin(name) is Some {
                Ok(builtin(name)->Some_0)
            } else {
                match item_name(type_case(name)) {
                    Err(failure) => Err(failure),
                    Ok(ident) => match defined_generics(defined, span) {
                        Err(failure) => Err(failure),
                        Ok(args) => if args.len() == 0 {
                            Ok(ident)
                        } else {
                            Ok(ident + "<"@ + joined(args, ", "@) + ">"@)
                        },
                    },
                }
            },
        }
    } else if text_at(value, "generic"@) is Some {
        item_name(text_at(value, "generic"@)->Some_0)
    } else if member_of(value, "vec"@) is Some {
        let inner = member_of(value, "vec"@)->Some_0;
        proof {
            lemma_member_smaller(value, "vec"@);
        }
        match idl_type(inner, span) {
            Err(failure) => Err(failure),
            Ok(ty) => Ok("anchor_lang::__alloc::vec::Vec<"@ + ty + ">"@),
        }
    } else if member_of(value, "option"@) is Some {
        let inner = member_of(value, "option"@)->Some_0;
        proof {
            lemma_member_smaller(value, "option"@);
        }
        match idl_type(inner, span) {
            Err(failure) => Err(failure),
            Ok(ty) => Ok("Option<"@ + ty + ">"@),
        }
    } else if array_at(value, "array"@) is Some {
        let array = array_at(value, "array"@)->Some_0;
        proof {
            lemma_array_smaller(value, "array"@);
        }
        if array.len() != 2 {
            Err(diagnostic(span, "IDL array type must have two elements"@))
        } else {
            match idl_type(array[0], span) {
                Err(failure) => Err(failure),
                Ok(ty) => match array_len(array[1], span) {
                    Err(failure) => Err(failure),
                    Ok(len) => Ok("["@ + ty + "; "@ + len + "]"@),
                },
            }
        }
    } else {
        Err(diagnostic(span, "unsupported IDL type `"@ + json_text(value) + "`"@))
    }
}

/// The generic arguments of a defined type.
pub open spec fn defined_generics(defined: Json, span: Span) -> Result<
    Seq<Seq<char>>,
    FailureView,
>
    decreases defined, 1int,
{
    match array_at(defined, "generics"@) {
        Some(list) => {
            proof {
                lemma_array_smaller(defined, "generics"@);
            }
            generic_args(list, span)
        },
        None => Ok(Seq::empty()),
    }
}

/// The generic arguments in a list, or the first failure.
pub open spec fn generic_args(list: Seq<Json>, span: Span) -> Result<Seq<Seq<char>>, FailureView>
    decreases list, 3int,
{
    collected(arg_results(list, span))
}

/// What each generic argument in a list gives.
pub open spec fn arg_results(list: Seq<Json>, span: Span) -> Seq<Result<Seq<char>, FailureView>>
    decreases list, 2int,
{
    Seq::new(
        list.len(),
        |i: int|
            if 0 <= i < list.len() {
                generic_arg(list[i], span)
            } else {
                Ok(Seq::empty())
            },
    )
}

/// A generic argument: a type, or an expression.
pub open spec fn generic_arg(value: Json, span: Span) -> Result<Seq<char>, FailureView>
    decreases value, 3int,
{
    match required_text(value, "kind"@, span) {
        Err(failure) => Err(failure),
        Ok(kind) => if kind == "type"@ {
            if member_of(value, "type"@) is Some {
                proof {
                    lemma_member_smaller(value, "type"@);
                }
                idl_type(member_of(value, "type"@)->Some_0, span)
            } else {
                Err(
                    diagnostic(
                        span,
                        "generic type arg is missing type in `"@ + json_text(value) + "`"@,
                    ),
                )
            }
        } else if kind == "const"@ {
            match required_text(value, "value"@, span) {
                Err(failure) => Err(failure),
                Ok(text) => match expr_reading(text) {
                    Ok(expr) => Ok(expr),
                    Err(unread) => Err(
                        diagnostic(
                            span,
                            "failed to parse const generic value `"@ + text + "`: "@ + unread.message,
                        ),
                    ),
                },
            }
        } else {
            Err(diagnostic(span, "unsupported IDL generic arg kind `"@ + kind + "`"@))
        },
    }
}

/// Writes a type of the interface description as a Rust type.
pub fn declare_idl_type_to_tokens(value: &Json, span: Span) -> (out: Result<String, Failure>)
    ensures
        code_view(out) == idl_type(*value, span),
    decreases value, 0int,
{
    if let Some(name) = value.as_str() {
        return match find_primitive(name) {
            Some(ty) => Ok(ty),
            None => Err(
                new_diagnostic(
                    span,
                    "unsupported IDL type string `".to_owned().concat(name).concat("`"),
                ),
            ),
        };
    }
    if let Some(defined) = value.get("defined") {
        proof {
            lemma_member_smaller(*value, "defined"@);
        }
        let name = match defined.as_str() {
            Some(name) => name,
            None => match json_str(defined, "name", span) {
                Ok(name) => name,
                Err(failure) => return Err(failure),
            },
        };
        if let Some(found) = declare_idl_defined_builtin(name) {
            return Ok(found);
        }
        let ident = match new_ident(to_type_name(name)) {
            Ok(ident) => ident,
            Err(failure) => return Err(failure),
        };
        let args = match print_defined_generics(defined, span) {
            Ok(args) => args,
            Err(failure) => return Err(failure),
        };
        assert(texts(args@).len() == args@.len());
        if args.len() == 0 {
            return Ok(ident);
        }
        return Ok(ident.concat("<").concat(join_strings(&args, ", ").as_str()).concat(">"));
    }
    if let Some(generic) = value.text_at("generic") {
        return new_ident(generic.to_owned());
    }
    if let Some(inner) = value.get("vec") {
        proof {
            lemma_member_smaller(*value, "vec"@);
        }
        return match declare_idl_type_to_tokens(inner, span) {
            Ok(ty) => Ok(
                "anchor_lang::__alloc::vec::Vec<".to_owned().concat(ty.as_str()).concat(">"),
            ),
            Err(failure) => Err(failure),
        };
    }
    if let Some(inner) = value.get("option") {
        proof {
            lemma_member_smaller(*value, "option"@);
        }
        return match declare_idl_type_to_tokens(inner, span) {
            Ok(ty) => Ok("Option<".to_owned().concat(ty.as_str()).concat(">")),
            Err(failure) => Err(failure),
        };
    }
    if let Some(array) = value.array_at("array") {
        proof {
            lemma_array_smaller(*value, "array"@);
        }
        if array.len() != 2 {
            return Err(
                new_diagnostic(span, "IDL array type must have two elements".to_owned()),
            );
        }
        assert(decreases_to!(array@ => array@[0]));
        let ty = match declare_idl_type_to_tokens(&array[0], span) {
            Ok(ty) => ty,
            Err(failure) => return Err(failure),
        };
        return match declare_idl_array_len_to_tokens(&array[1], span) {
            Ok(len) => Ok(
                "[".to_owned().concat(ty.as_str()).concat("; ").concat(len.as_str()).concat("]"),
            ),
            Err(failure) => Err(failure),
        };
    }
    Err(
        new_diagnostic(
            span,
            "unsupported IDL type `".to_owned().concat(value.to_text().as_str()).concat("`"),
        ),
    )
}

/// The texts, or the failure.
pub open spec fn args_view(args: Result<Vec<String>, Failure>) -> Result<
    Seq<Seq<char>>,
    FailureView,
> {
    match args {
        Ok(args) => Ok(texts(args@)),
        Err(failure) => Err(failure@),
    }
}

fn print_defined_generics(defined: &Json, span: Span) -> (out: Result<Vec<String>, Failure>)
    ensures
        args_view(out) == defined_generics(*defined, span),
    decreases defined, 1int,
{
    let mut args: Vec<String> = Vec::new();
    assert(texts(args@) == Seq::<Seq<char>>::empty());
    if let Some(list) = defined.array_at("generics") {
        proof {
            lemma_array_smaller(*defined, "generics"@);
        }
        let ghost results = arg_results(list@, span);
        for i in 0..list.len()
            invariant
                decreases_to!(defined => list@),
                results == arg_results(list@, span),
                collected(results.take(i as int)) == Ok::<Seq<Seq<char>>, FailureView>(
                    texts(args@),
                ),
                array_at(*defined, "generics"@) == Some(list@),
        {
            assert(results.take(i + 1).drop_last() == results.take(i as int));
            assert(results[i as int] == generic_arg(list@[i as int], span));
            assert(decreases_to!(list@ => list@[i as int]));
            match declare_idl_generic_arg_to_tokens(&list[i], span) {
                Ok(arg) => {
                    let ghost before = texts(args@);
                    args.push(arg);
                    assert(texts(args@) == before.push(arg@));
                },
                Err(failure) => {
                    proof {
                        lemma_collected_prefix(results, i + 1);
                    }
                    return Err(failure);
                },
            }
        }
        assert(results.take(list@.len() as int) == results);
    }
    Ok(args)
}

/// Writes a generic argument.
pub fn declare_idl_generic_arg_to_tokens(value: &Json, span: Span) -> (out: Result<String, Failure>)
    ensures
        code_view(out) == generic_arg(*value, span),
    decreases value, 3int,
{
    let kind = match json_str(value, "kind", span) {
        Ok(kind) => kind,
        Err(failure) => return Err(failure),
    };
    if same_text(kind, "type") {
        match value.get("type") {
            Some(ty) => {
                proof {
                    lemma_member_smaller(*value, "type"@);
                }
                declare_idl_type_to_tokens(ty, span)
            },
            None => Err(
                new_diagnostic(
                    span,
                    "generic type arg is missing type in `".to_owned().concat(
                        value.to_text().as_str(),
                    ).concat("`"),
                ),
            ),
        }
    } else if same_text(kind, "const") {
        match json_str(value, "value", span) {
            Err(failure) => Err(failure),
            Ok(text) => match read_expr(text) {
                Ok(expr) => Ok(expr),
                Err(unread) => Err(
                    new_diagnostic(
                        span,
                        "failed to parse const generic value `".to_owned().concat(text).concat(
                            "`: ",
                        ).concat(unread.message.as_str()),
                    ),
                ),
            },
        }
    } else {
        Err(
            new_diagnostic(
                span,
                "unsupported IDL generic arg kind `".to_owned().concat(kind).concat("`"),
            ),
        )
    }
}

} // verus!
