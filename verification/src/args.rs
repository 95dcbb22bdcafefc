//! Instruction arguments: their types and the code that reads them.

use crate::failure::Span;
use crate::lifetimes::{carries, carries_lifetime, lemma_ix_text, with_ix_lifetime};
use crate::syntax::{print_type, type_text, Ident, Lifetime, Type};
use crate::template::{fill5, filled};
use crate::text::{concat_all, concat_strings, map_texts, texts};
use vstd::prelude::*;

verus! {

/// An argument of an instruction.
pub struct Argument<'a> {
    pub name: &'a Ident,
    pub ty: &'a Type,
}

/// The code that reads the arguments, and their types with the lifetime of the
/// instruction data written in.
pub struct ArgsDeser {
    pub deser: String,
    pub arg_types: Vec<String>,
}

/// Reads the arguments; where that fails, returns the error code.
pub const RETURN_READ_ERROR: &'static str = r#"match anchor_lang::wincode::config::deserialize(
    __ix_data,
    anchor_lang::BORSH_CONFIG,
) {
    Ok(__v) => __v,
    Err(_) => return {
        let __e: anchor_lang::Error =
            anchor_lang::ErrorCode::InstructionDidNotDeserialize.into();
        __e.into()
    },
}"#;

/// Reads the arguments; where that fails, returns the error.
pub const RAISE_READ_ERROR: &'static str = r#"anchor_lang::wincode::config::deserialize(
    __ix_data,
    anchor_lang::BORSH_CONFIG,
)
    .map_err(|_| anchor_lang::ErrorCode::InstructionDidNotDeserialize)?"#;

/// The struct that holds the arguments, and the statement that reads it.
pub const ARGS_READER: &'static str = r#"#[derive(anchor_lang::AnchorDeserialize)]
struct @a @b { @c }
let __args: @a @d = @e;
"#;

/// The type of an argument, with the lifetime of the instruction data written in.
pub open spec fn ix_type(ty: Type) -> Seq<char> {
    type_text(ty, Some("ix"@))
}

/// The types of the arguments, with the lifetime of the instruction data written in.
pub open spec fn ix_types(args: Seq<Argument>) -> Seq<Seq<char>> {
    args.map_values(|arg: Argument| ix_type(*arg.ty))
}

/// Whether a lifetime stands in the type of one of the arguments.
pub open spec fn any_borrows(args: Seq<Argument>) -> bool {
    exists|i: int| 0 <= i < args.len() && carries(*(#[trigger] args[i]).ty)
}

/// The name of each argument.
pub open spec fn arg_names(args: Seq<Argument>) -> Seq<Seq<char>> {
    args.map_values(|arg: Argument| arg.name.text@)
}

/// Each argument as a field, with a comma behind it.
pub open spec fn arg_fields(args: Seq<Argument>) -> Seq<char> {
    concat_all(
        args.map_values(|arg: Argument| arg.name.text@ + ": "@ + ix_type(*arg.ty) + ", "@),
    )
}

/// One statement per argument, which takes it out of the struct that was read.
pub open spec fn arg_bindings(args: Seq<Argument>) -> Seq<char> {
    concat_all(
        args.map_values(
            |arg: Argument| "let "@ + arg.name.text@ + " = __args."@ + arg.name.text@ + "; "@,
        ),
    )
}

/// The code that reads the arguments from the instruction data and binds each to
/// its name; nothing where there are no arguments.
pub open spec fn args_reader(args: Seq<Argument>, struct_name: Seq<char>, inline_error: bool) -> Seq<
    char,
> {
    if args.len() == 0 {
        ""@
    } else {
        filled(
            ARGS_READER@,
            seq![
                struct_name,
                if any_borrows(args) { "<'ix>"@ } else { ""@ },
                arg_fields(args),
                if any_borrows(args) { "<'_>"@ } else { ""@ },
                if inline_error { RETURN_READ_ERROR@ } else { RAISE_READ_ERROR@ },
            ],
        ) + arg_bindings(args)
    }
}

fn ix_type_text(ty: &Type) -> (out: String)
    ensures
        out@ == ix_type(*ty),
{
    let ix = Lifetime { name: "ix".to_owned(), span: Span { start: 0, end: 0 } };
    let rewritten = with_ix_lifetime(ty, &ix);
    proof {
        lemma_ix_text(*ty, rewritten, ix);
    }
    print_type(&rewritten)
}

/// The types of the arguments with the lifetime of the instruction data written in,
/// and whether a lifetime stands in one of them.
pub fn args_meta(args: &Vec<Argument>) -> (out: (Vec<String>, bool))
    ensures
        texts(out.0@) == ix_types(args@),
        out.1 == any_borrows(args@),
{
    let arg_types = map_texts(
        args,
        |arg: &Argument| -> (s: String)
            ensures
                s@ == ix_type(*arg.ty)
            { ix_type_text(arg.ty) },
        Ghost(|arg: Argument| ix_type(*arg.ty)),
    );
    let mut has_refs = false;
    for i in 0..args.len()
        invariant
            has_refs == exists|k: int| 0 <= k < i && carries(*(#[trigger] args@[k]).ty),
    {
        if carries_lifetime(args[i].ty) {
            assert(carries(*args@[i as int].ty));
            has_refs = true;
        }
    }
    (arg_types, has_refs)
}

/// The names of the arguments.
pub fn names_of(args: &Vec<Argument>) -> (out: Vec<String>)
    ensures
        texts(out@) == arg_names(args@),
{
    map_texts(
        args,
        |arg: &Argument| -> (s: String)
            ensures
                s@ == arg.name.text@
            { arg.name.text.clone() },
        Ghost(|arg: Argument| arg.name.text@),
    )
}

/// Each argument as a field, with a comma behind it.
pub fn fields_of(args: &Vec<Argument>) -> (out: String)
    ensures
        out@ == arg_fields(args@),
{
    let fields = map_texts(
        args,
        |arg: &Argument| -> (s: String)
            ensures
                s@ == arg.name.text@ + ": "@ + ix_type(*arg.ty) + ", "@
            { arg.name.text.clone().concat(": ").concat(ix_type_text(arg.ty).as_str()).concat(", ")
            },
        Ghost(|arg: Argument| arg.name.text@ + ": "@ + ix_type(*arg.ty) + ", "@),
    );
    concat_strings(&fields)
}

/// Writes the code that reads the arguments. Where reading fails, that code returns
/// the error code if `inline_error` is set, and the error itself if it is not.
pub fn emit_args_deser(args: &Vec<Argument>, struct_name: &str, inline_error: bool) -> (out:
    ArgsDeser)
    ensures
        out.deser@ == args_reader(args@, struct_name@, inline_error),
        texts(out.arg_types@) == ix_types(args@),
{
    let (arg_types, has_refs) = args_meta(args);
    let deser = if args.len() == 0 {
        "".to_owned()
    } else {
        let fields = fields_of(args);
        let bindings = map_texts(
            args,
            |arg: &Argument| -> (s: String)
                ensures
                    s@ == "let "@ + arg.name.text@ + " = __args."@ + arg.name.text@ + "; "@
                {
                    "let ".to_owned().concat(arg.name.text.as_str()).concat(" = __args.").concat(
                        arg.name.text.as_str(),
                    ).concat("; ")
                },
            Ghost(
                |arg: Argument|
                    "let "@ + arg.name.text@ + " = __args."@ + arg.name.text@ + "; "@,
            ),
        );
        let lt_decl = if has_refs { "<'ix>" } else { "" };
        let lt_use = if has_refs { "<'_>" } else { "" };
        let error_handling = if inline_error { RETURN_READ_ERROR } else { RAISE_READ_ERROR };
        fill5(ARGS_READER, struct_name, lt_decl, fields.as_str(), lt_use, error_handling).concat(
            concat_strings(&bindings).as_str(),
        )
    };
    ArgsDeser { deser, arg_types }
}

} // verus!
