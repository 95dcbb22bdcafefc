//! The module for a program that an interface description describes.

use crate::account_groups::{
    account_field_text, collect_declare_account_group, collected_group, fields_view, groups_apart,
    groups_view, is_collection, leaves_names, lemma_collected_group_valid,
    lemma_collected_groups_apart, variants_view, AccountFieldView, AccountGroup, AccountGroups,
    DeclareAccountField, GroupView, GroupsView, VariantView,
};
use crate::declared_constants::{declared_consts, gen_declare_program_constants};
use crate::declared_errors::{declared_errors, gen_declare_program_errors};
use crate::declared_events::{declared_events, gen_declare_program_events};
use crate::declared_types::{declare_idl_type_to_tokens, idl_type};
use crate::discriminator::{
    array_discriminator, bytes_view, clash_check, default_instruction_discriminator, hashed,
    lemma_one_match, named_view, parse_discriminator_array, validate_discriminator_prefixes, Named,
    NamedView,
};
use crate::failure::{
    code_view, collected, diagnostic, lemma_collected_prefix, lemma_stepped_prefix, new_diagnostic,
    stepped, try_map_texts, unit_view, Failure, FailureView, Span,
};
use crate::handler::{byte_literals, print_byte_literals};
use crate::json::{array_at, elements, json_str, member_of, required_text, text_at, text_of, Json};
use crate::names::{item_name, new_ident, snake_case, to_snake_case, to_type_name, type_case};
use crate::outside::{literal_of, string_literal};
use crate::syntax::Ident;
use crate::template::{fill11, fill2, fill6, filled};
use crate::text::{
    has_prefix, join_strings, joined, map_texts, terminate_strings, terminated, texts,
};
use crate::type_defs::{
    declared_items, gen_declare_program_type_idents, gen_declare_program_types, readings_fit,
    type_idents,
};
use crate::type_parts::FieldReading;
use vstd::prelude::*;

verus! {

// ---------------------------------------------------------------------------
// Templates
// ---------------------------------------------------------------------------

/// A handler that only declares how an instruction is called.
pub const HANDLER: &'static str = r#"#[discrim = [@a]]
pub fn @b(_ctx: &mut anchor_lang::Context<@c>, @d) -> anchor_lang::Result<@e> {
    @f
    unreachable!()
}"#;

/// An accounts struct.
pub const ACCOUNTS_STRUCT: &'static str = r#"#[derive(anchor_lang::Accounts)]
#[accounts_program_id(ID)]
pub struct @a {
    @b
}"#;

/// A module for a program that an interface description describes.
pub const PROGRAM: &'static str = r#"pub mod @a {
    use super::*;

    #[allow(dead_code)]
    const __ANCHOR_DECLARE_PROGRAM_IDL_BYTES: &[u8] = include_bytes!(@b);

    pub const ID: anchor_lang::Address =
        anchor_lang::address!(@c);

    pub mod program {
        pub struct @d;

        impl anchor_lang::Id for @d {
            const IDL_ADDRESS: &'static str = @c;

            fn id() -> anchor_lang::Address {
                super::ID
            }
        }
    }

    @e
    pub mod types {
        @f
    }
    pub mod constants {
        @g
    }
    @h
    @i
    @j

    #[anchor_lang::program(interface, program_id = ID)]
    pub mod __program {
        use super::*;
        @k
    }
}"#;


// ---------------------------------------------------------------------------
// Discriminators
// ---------------------------------------------------------------------------

/// The discriminator of an instruction: the one that is given, or the one that follows
/// from its name in snake case.
pub open spec fn instruction_bytes(ix: Json, name: Seq<char>, span: Span) -> Result<
    Seq<u8>,
    FailureView,
> {
    match array_at(ix, "discriminator"@) {
        Some(values) => array_discriminator(values, span),
        None => Ok(hashed("global"@, snake_case(name))),
    }
}

/// An instruction with its discriminator.
pub open spec fn named_instruction(ix: Json, span: Span) -> Result<NamedView, FailureView> {
    match required_text(ix, "name"@, span) {
        Err(failure) => Err(failure),
        Ok(name) => match instruction_bytes(ix, name, span) {
            Err(failure) => Err(failure),
            Ok(bytes) => Ok(NamedView { name, bytes, span }),
        },
    }
}

/// The items of a section that have a discriminator, with one more looked at.
pub open spec fn with_item(list: Seq<NamedView>, item: Json, span: Span) -> Result<
    Seq<NamedView>,
    FailureView,
> {
    match required_text(item, "name"@, span) {
        Err(failure) => Err(failure),
        Ok(name) => match array_at(item, "discriminator"@) {
            None => Ok(list),
            Some(values) => match array_discriminator(values, span) {
                Err(failure) => Err(failure),
                Ok(bytes) => Ok(list.push(NamedView { name, bytes, span })),
            },
        },
    }
}

/// The first `n` items of a section, those that have a discriminator.
pub open spec fn first_named(items: Seq<Json>, span: Span, n: int) -> Result<
    Seq<NamedView>,
    FailureView,
> {
    stepped(Seq::empty(), n, |list: Seq<NamedView>, i: int| with_item(list, items[i], span))
}

/// The items of a section that have a discriminator.
pub open spec fn named_items(items: Seq<Json>, span: Span) -> Result<Seq<NamedView>, FailureView> {
    first_named(items, span, items.len() as int)
}

/// Whether the items of a section can be told apart.
pub open spec fn section_check(idl: Json, section: Seq<char>, span: Span) -> Result<
    (),
    FailureView,
> {
    match named_items(elements(idl, section), span) {
        Err(failure) => Err(failure),
        Ok(list) => clash_check(section, list, Some(span)),
    }
}

/// The instructions with their discriminators.
pub open spec fn named_instructions(idl: Json, span: Span) -> Result<
    Seq<NamedView>,
    FailureView,
> {
    collected(
        elements(idl, "instructions"@).map_values(|ix: Json| named_instruction(ix, span)),
    )
}

/// Whether instructions, accounts and events can each be told apart.
pub open spec fn discriminators_check(idl: Json, span: Span) -> Result<(), FailureView> {
    match named_instructions(idl, span) {
        Err(failure) => Err(failure),
        Ok(list) => match clash_check("instructions"@, list, Some(span)) {
            Err(failure) => Err(failure),
            Ok(_) => match section_check(idl, "accounts"@, span) {
                Err(failure) => Err(failure),
                Ok(_) => section_check(idl, "events"@, span),
            },
        },
    }
}

fn read_instruction_bytes(ix: &Json, name: &str, span: Span) -> (out: Result<Vec<u8>, Failure>)
    ensures
        bytes_view(out) == instruction_bytes(*ix, name@, span),
{
    match ix.array_at("discriminator") {
        Some(values) => parse_discriminator_array(values, span),
        None => Ok(default_instruction_discriminator(to_snake_case(name).as_str())),
    }
}

/// The list or the failure, as sequences.
pub open spec fn named_result(result: Result<Vec<Named>, Failure>) -> Result<
    Seq<NamedView>,
    FailureView,
> {
    match result {
        Ok(list) => Ok(named_view(list@)),
        Err(failure) => Err(failure@),
    }
}

fn read_instructions(items: &Vec<Json>, span: Span) -> (out: Result<Vec<Named>, Failure>)
    ensures
        named_result(out) == collected(
            items@.map_values(|ix: Json| named_instruction(ix, span)),
        ),
{
    let ghost results = items@.map_values(|ix: Json| named_instruction(ix, span));
    let mut list: Vec<Named> = Vec::new();
    assert(named_view(list@) == Seq::<NamedView>::empty());
    for i in 0..items.len()
        invariant
            results == items@.map_values(|ix: Json| named_instruction(ix, span)),
            collected(results.take(i as int)) == Ok::<Seq<NamedView>, FailureView>(
                named_view(list@),
            ),
    {
        assert(results.take(i + 1).drop_last() == results.take(i as int));
        proof {
            if collected(results.take(i + 1)) is Err {
                lemma_collected_prefix(results, i + 1);
            }
        }
        let name = match json_str(&items[i], "name", span) {
            Err(failure) => return Err(failure),
            Ok(name) => name,
        };
        let bytes = match read_instruction_bytes(&items[i], name, span) {
            Err(failure) => return Err(failure),
            Ok(bytes) => bytes,
        };
        let item = Named { name: name.to_owned(), bytes, span };
        let ghost before = named_view(list@);
        list.push(item);
        assert(named_view(list@) == before.push(item@));
    }
    assert(results.take(items@.len() as int) == results);
    Ok(list)
}

fn read_named_items(items: &Vec<Json>, span: Span) -> (out: Result<Vec<Named>, Failure>)
    ensures
        named_result(out) == named_items(items@, span),
{
    let mut list: Vec<Named> = Vec::new();
    assert(named_view(list@) == Seq::<NamedView>::empty());
    for i in 0..items.len()
        invariant
            first_named(items@, span, i as int) == Ok::<Seq<NamedView>, FailureView>(
                named_view(list@),
            ),
    {
        proof {
            if first_named(items@, span, i + 1) is Err {
                lemma_stepped_prefix(
                    Seq::empty(),
                    i + 1,
                    items@.len() as int,
                    |list: Seq<NamedView>, i: int| with_item(list, items@[i], span),
                );
            }
        }
        let name = match json_str(&items[i], "name", span) {
            Err(failure) => return Err(failure),
            Ok(name) => name,
        };
        if let Some(values) = items[i].array_at("discriminator") {
            let bytes = match parse_discriminator_array(values, span) {
                Err(failure) => return Err(failure),
                Ok(bytes) => bytes,
            };
            let item = Named { name: name.to_owned(), bytes, span };
            let ghost before = named_view(list@);
            list.push(item);
            assert(named_view(list@) == before.push(item@));
        }
    }
    Ok(list)
}

fn check_section(idl: &Json, section: &str, span: Span) -> (out: Result<(), Failure>)
    ensures
        unit_view(out) == section_check(*idl, section@, span),
{
    let none: Vec<Json> = Vec::new();
    match read_named_items(idl.array_or(section, &none), span) {
        Err(failure) => Err(failure),
        Ok(list) => validate_discriminator_prefixes(section, &list, span),
    }
}

/// Refuses an interface description whose instructions, accounts or events cannot be
/// told apart.
pub fn validate_declare_program_discriminators(idl: &Json, span: Span) -> (out: Result<
    (),
    Failure,
>)
    ensures
        unit_view(out) == discriminators_check(*idl, span),
{
    let none: Vec<Json> = Vec::new();
    let list = match read_instructions(idl.array_or("instructions", &none), span) {
        Err(failure) => return Err(failure),
        Ok(list) => list,
    };
    match validate_discriminator_prefixes("instructions", &list, span) {
        Err(failure) => return Err(failure),
        Ok(_) => {},
    }
    match check_section(idl, "accounts", span) {
        Err(failure) => return Err(failure),
        Ok(_) => {},
    }
    check_section(idl, "events", span)
}

// ---------------------------------------------------------------------------
// Handlers
// ---------------------------------------------------------------------------

/// An argument of an instruction: its name and how it is declared.
pub open spec fn declared_arg(arg: Json, span: Span) -> Result<
    (Seq<char>, Seq<char>),
    FailureView,
> {
    match required_text(arg, "name"@, span) {
        Err(failure) => Err(failure),
        Ok(name) => match item_name(snake_case(name)) {
            Err(failure) => Err(failure),
            Ok(ident) => match member_of(arg, "type"@) {
                None => Err(diagnostic(span, "argument `"@ + name + "` is missing type"@)),
                Some(value) => match idl_type(value, span) {
                    Err(failure) => Err(failure),
                    Ok(ty) => Ok((ident, ident + ": "@ + ty)),
                },
            },
        },
    }
}

/// The arguments of an instruction.
pub open spec fn declared_args(args: Seq<Json>, span: Span) -> Result<
    Seq<(Seq<char>, Seq<char>)>,
    FailureView,
> {
    collected(args.map_values(|arg: Json| declared_arg(arg, span)))
}

/// How the arguments are declared.
pub open spec fn arg_decls(args: Seq<(Seq<char>, Seq<char>)>) -> Seq<Seq<char>> {
    args.map_values(|arg: (Seq<char>, Seq<char>)| arg.1)
}

/// How the arguments are used.
pub open spec fn arg_uses(args: Seq<(Seq<char>, Seq<char>)>) -> Seq<Seq<char>> {
    args.map_values(|arg: (Seq<char>, Seq<char>)| "let _ = "@ + arg.0 + ";"@)
}

/// What an instruction returns.
pub open spec fn return_type(ix: Json, span: Span) -> Result<Seq<char>, FailureView> {
    match member_of(ix, "returns"@) {
        Some(value) => idl_type(value, span),
        None => Ok("()"@),
    }
}

/// The handler of an instruction whose accounts struct is known.
pub open spec fn handler_item(
    ix: Json,
    name: Seq<char>,
    ident: Seq<char>,
    accounts: Seq<char>,
    span: Span,
) -> Result<Seq<char>, FailureView> {
    match instruction_bytes(ix, name, span) {
        Err(failure) => Err(failure),
        Ok(bytes) => match array_at(ix, "args"@) {
            None => Err(
                diagnostic(span, "instruction `"@ + name + "` is missing args array"@),
            ),
            Some(list) => match declared_args(list, span) {
                Err(failure) => Err(failure),
                Ok(args) => match return_type(ix, span) {
                    Err(failure) => Err(failure),
                    Ok(returned) => Ok(
                        filled(
                            HANDLER@,
                            seq![
                                byte_literals(bytes),
                                ident,
                                accounts,
                                joined(arg_decls(args), ", "@),
                                returned,
                                terminated(arg_uses(args), "\n"@),
                            ],
                        ),
                    ),
                },
            },
        },
    }
}

/// The handler of an instruction, and the accounts structs after its own was collected.
pub open spec fn declared_handler(
    ix: Json,
    reserved: Seq<Seq<char>>,
    state: GroupsView,
    span: Span,
) -> Result<(Seq<char>, GroupsView), FailureView> {
    match required_text(ix, "name"@, span) {
        Err(failure) => Err(failure),
        Ok(name) => match item_name(snake_case(name)) {
            Err(failure) => Err(failure),
            Ok(ident) => match array_at(ix, "accounts"@) {
                None => Err(
                    diagnostic(span, "instruction `"@ + name + "` is missing accounts array"@),
                ),
                Some(accounts) => match collected_group(
                    type_case(name),
                    accounts,
                    reserved,
                    state,
                    span,
                ) {
                    Err(failure) => Err(failure),
                    Ok((generated, after)) => match item_name(generated) {
                        Err(failure) => Err(failure),
                        Ok(accounts_ident) => match handler_item(
                            ix,
                            name,
                            ident,
                            accounts_ident,
                            span,
                        ) {
                            Err(failure) => Err(failure),
                            Ok(item) => Ok((item, after)),
                        },
                    },
                },
            },
        },
    }
}

/// The handlers of the first `n` instructions, and the accounts structs after theirs
/// were collected.
pub open spec fn declared_handlers(
    instructions: Seq<Json>,
    n: int,
    reserved: Seq<Seq<char>>,
    span: Span,
) -> Result<(Seq<Seq<char>>, GroupsView), FailureView> {
    stepped(
        no_handlers(),
        n,
        |so_far: (Seq<Seq<char>>, GroupsView), i: int|
            with_handler(so_far, instructions[i], reserved, span),
    )
}

/// No handlers, and no accounts structs.
pub open spec fn no_handlers() -> (Seq<Seq<char>>, GroupsView) {
    (Seq::empty(), GroupsView { groups: Seq::empty(), variants: Seq::empty() })
}

/// Handlers and accounts structs, with those of one more instruction.
pub open spec fn with_handler(
    so_far: (Seq<Seq<char>>, GroupsView),
    ix: Json,
    reserved: Seq<Seq<char>>,
    span: Span,
) -> Result<(Seq<Seq<char>>, GroupsView), FailureView> {
    match declared_handler(ix, reserved, so_far.1, span) {
        Err(failure) => Err(failure),
        Ok((item, after)) => Ok((so_far.0.push(item), after)),
    }
}

spec fn args_are(
    results: Seq<Result<(Seq<char>, Seq<char>), FailureView>>,
    decls: Seq<String>,
    uses: Seq<String>,
) -> bool {
    match collected(results) {
        Ok(args) => texts(decls) == arg_decls(args) && texts(uses) == arg_uses(args),
        Err(_) => false,
    }
}

proof fn lemma_args_push(
    results: Seq<Result<(Seq<char>, Seq<char>), FailureView>>,
    i: int,
    decls: Seq<String>,
    uses: Seq<String>,
    ident: Seq<char>,
    decl: String,
    used: String,
)
    requires
        0 <= i < results.len(),
        args_are(results.take(i), decls, uses),
        results[i] == Ok::<(Seq<char>, Seq<char>), FailureView>((ident, decl@)),
        used@ == "let _ = "@ + ident + ";"@,
    ensures
        args_are(results.take(i + 1), decls.push(decl), uses.push(used)),
{
    assert(results.take(i + 1).drop_last() == results.take(i));
    let args = collected(results.take(i))->Ok_0;
    let arg = (ident, decl@);
    assert(texts(decls.push(decl)) =~= texts(decls).push(decl@));
    assert(texts(uses.push(used)) =~= texts(uses).push(used@));
    assert(arg_decls(args.push(arg)) =~= arg_decls(args).push(decl@));
    assert(arg_uses(args.push(arg)) =~= arg_uses(args).push(used@));
}

/// The declarations and uses of the arguments or the failure, as sequences.
spec fn args_view(
    result: Result<(Vec<String>, Vec<String>), Failure>,
    args: Result<Seq<(Seq<char>, Seq<char>)>, FailureView>,
) -> bool {
    match result {
        Ok((decls, uses)) => args is Ok && texts(decls@) == arg_decls(args->Ok_0) && texts(uses@)
            == arg_uses(args->Ok_0),
        Err(failure) => args == Err::<Seq<(Seq<char>, Seq<char>)>, FailureView>(failure@),
    }
}

fn print_args(list: &Vec<Json>, span: Span) -> (out: Result<(Vec<String>, Vec<String>), Failure>)
    ensures
        args_view(out, declared_args(list@, span)),
{
    let ghost results = list@.map_values(|arg: Json| declared_arg(arg, span));
    let mut decls: Vec<String> = Vec::new();
    let mut uses: Vec<String> = Vec::new();
    assert(texts(decls@) =~= arg_decls(Seq::empty()));
    assert(texts(uses@) =~= arg_uses(Seq::empty()));
    for i in 0..list.len()
        invariant
            results == list@.map_values(|arg: Json| declared_arg(arg, span)),
            args_are(results.take(i as int), decls@, uses@),
    {
        assert(results.take(i + 1).drop_last() == results.take(i as int));
        proof {
            if collected(results.take(i + 1)) is Err {
                lemma_collected_prefix(results, i + 1);
            }
        }
        let arg = &list[i];
        let name = match json_str(arg, "name", span) {
            Err(failure) => return Err(failure),
            Ok(name) => name,
        };
        let ident = match new_ident(to_snake_case(name)) {
            Err(failure) => return Err(failure),
            Ok(ident) => ident,
        };
        let value = match arg.get("type") {
            None => return Err(
                new_diagnostic(
                    span,
                    "argument `".to_owned().concat(name).concat("` is missing type"),
                ),
            ),
            Some(value) => value,
        };
        let ty = match declare_idl_type_to_tokens(value, span) {
            Err(failure) => return Err(failure),
            Ok(ty) => ty,
        };
        let used = "let _ = ".to_owned().concat(ident.as_str()).concat(";");
        let decl = ident.clone().concat(": ").concat(ty.as_str());
        proof {
            lemma_args_push(results, i as int, decls@, uses@, ident@, decl, used);
        }
        decls.push(decl);
        uses.push(used);
    }
    assert(results.take(list@.len() as int) == results);
    Ok((decls, uses))
}

fn print_handler_item(ix: &Json, name: &str, ident: &str, accounts: &str, span: Span) -> (out:
    Result<String, Failure>)
    ensures
        code_view(out) == handler_item(*ix, name@, ident@, accounts@, span),
{
    let bytes = match read_instruction_bytes(ix, name, span) {
        Err(failure) => return Err(failure),
        Ok(bytes) => bytes,
    };
    let list = match ix.array_at("args") {
        None => return Err(
            new_diagnostic(
                span,
                "instruction `".to_owned().concat(name).concat("` is missing args array"),
            ),
        ),
        Some(list) => list,
    };
    let (decls, uses) = match print_args(list, span) {
        Err(failure) => return Err(failure),
        Ok(args) => args,
    };
    let returned = match ix.get("returns") {
        Some(value) => match declare_idl_type_to_tokens(value, span) {
            Err(failure) => return Err(failure),
            Ok(ty) => ty,
        },
        None => "()".to_owned(),
    };
    Ok(
        fill6(
            HANDLER,
            print_byte_literals(&bytes).as_str(),
            ident,
            accounts,
            join_strings(&decls, ", ").as_str(),
            returned.as_str(),
            terminate_strings(&uses, "\n").as_str(),
        ),
    )
}

fn print_handler(
    ix: &Json,
    reserved: &Vec<String>,
    state: &mut AccountGroups,
    span: Span,
) -> (out: Result<String, Failure>)
    ensures
        (match out {
            Ok(item) => Ok::<(Seq<char>, GroupsView), FailureView>((item@, final(state)@)),
            Err(failure) => Err(failure@),
        }) == declared_handler(*ix, texts(reserved@), old(state)@, span),
{
    let name = match json_str(ix, "name", span) {
        Err(failure) => return Err(failure),
        Ok(name) => name,
    };
    let ident = match new_ident(to_snake_case(name)) {
        Err(failure) => return Err(failure),
        Ok(ident) => ident,
    };
    let accounts = match ix.array_at("accounts") {
        None => return Err(
            new_diagnostic(
                span,
                "instruction `".to_owned().concat(name).concat("` is missing accounts array"),
            ),
        ),
        Some(accounts) => accounts,
    };
    let generated = match collect_declare_account_group(
        to_type_name(name).as_str(),
        accounts,
        reserved,
        state,
        span,
    ) {
        Err(failure) => return Err(failure),
        Ok(generated) => generated,
    };
    let accounts_ident = match new_ident(generated) {
        Err(failure) => return Err(failure),
        Ok(accounts_ident) => accounts_ident,
    };
    print_handler_item(ix, name, ident.as_str(), accounts_ident.as_str(), span)
}

/// The handlers and the accounts structs or the failure, as sequences.
pub open spec fn handlers_view(result: Result<(Vec<String>, AccountGroups), Failure>) -> Result<
    (Seq<Seq<char>>, GroupsView),
    FailureView,
> {
    match result {
        Ok((items, state)) => Ok((texts(items@), state@)),
        Err(failure) => Err(failure@),
    }
}

fn print_handlers(instructions: &Vec<Json>, reserved: &Vec<String>, span: Span) -> (out: Result<
    (Vec<String>, AccountGroups),
    Failure,
>)
    ensures
        handlers_view(out) == declared_handlers(
            instructions@,
            instructions@.len() as int,
            texts(reserved@),
            span,
        ),
{
    let ghost count = instructions@.len() as int;
    let mut state = AccountGroups { groups: Vec::new(), variants: Vec::new() };
    let mut items: Vec<String> = Vec::new();
    assert(texts(items@) == Seq::<Seq<char>>::empty());
    assert(groups_view(state.groups@) == Seq::<GroupView>::empty());
    assert(variants_view(state.variants@) == Seq::<VariantView>::empty());
    for i in 0..instructions.len()
        invariant
            count == instructions@.len(),
            declared_handlers(instructions@, i as int, texts(reserved@), span) == Ok::<
                (Seq<Seq<char>>, GroupsView),
                FailureView,
            >((texts(items@), state@)),
    {
        proof {
            if declared_handlers(instructions@, i + 1, texts(reserved@), span) is Err {
                lemma_stepped_prefix(
                    no_handlers(),
                    i + 1,
                    count,
                    |so_far: (Seq<Seq<char>>, GroupsView), i: int|
                        with_handler(so_far, instructions@[i], texts(reserved@), span),
                );
            }
        }
        match print_handler(&instructions[i], reserved, &mut state, span) {
            Err(failure) => return Err(failure),
            Ok(item) => {
                let ghost before = texts(items@);
                items.push(item);
                assert(texts(items@) == before.push(item@));
            },
        }
    }
    Ok((items, state))
}

// ---------------------------------------------------------------------------
// Accounts structs
// ---------------------------------------------------------------------------

/// An accounts struct as an item.
pub open spec fn group_item(group: GroupView) -> Result<Seq<char>, FailureView> {
    match item_name(group.name) {
        Err(failure) => Err(failure),
        Ok(ident) => Ok(
            filled(
                ACCOUNTS_STRUCT@,
                seq![
                    ident,
                    terminated(
                        group.fields.map_values(
                            |field: AccountFieldView| account_field_text(field),
                        ),
                        "\n"@,
                    ),
                ],
            ),
        ),
    }
}

fn print_group(group: &AccountGroup) -> (out: Result<String, Failure>)
    ensures
        code_view(out) == group_item(group@),
{
    let ident = match new_ident(group.name.clone()) {
        Err(failure) => return Err(failure),
        Ok(ident) => ident,
    };
    let fields = map_texts(
        &group.fields,
        |field: &DeclareAccountField| -> (s: String)
            ensures
                s@ == account_field_text(field@)
            { field.to_tokens() },
        Ghost(|field: DeclareAccountField| account_field_text(field@)),
    );
    assert(texts(fields@) =~= fields_view(group.fields@).map_values(
        |field: AccountFieldView| account_field_text(field),
    ));
    Ok(fill2(ACCOUNTS_STRUCT, ident.as_str(), terminate_strings(&fields, "\n").as_str()))
}

// ---------------------------------------------------------------------------
// The module
// ---------------------------------------------------------------------------

/// The address of a program: at the top, or else among the metadata.
pub open spec fn program_address(idl: Json) -> Option<Seq<char>> {
    match member_of(idl, "address"@) {
        Some(value) => text_of(value),
        None => match member_of(idl, "metadata"@) {
            Some(metadata) => text_at(metadata, "address"@),
            None => None,
        },
    }
}

/// What the module for a program holds.
pub struct ProgramParts {
    pub types: Seq<Seq<char>>,
    pub idents: Seq<Seq<char>>,
    pub constants: Seq<Seq<char>>,
    pub events: Seq<char>,
    pub errors: Seq<char>,
    pub structs: Seq<Seq<char>>,
    pub handlers: Seq<Seq<char>>,
}

/// What the module for a program holds, but for its accounts structs and handlers.
pub open spec fn program_items(idl: Json, readings: Seq<Vec<FieldReading>>, span: Span) -> Result<
    ProgramParts,
    FailureView,
> {
    match declared_items(idl, readings) {
        Err(failure) => Err(failure),
        Ok(types) => match type_idents(idl) {
            Err(failure) => Err(failure),
            Ok(idents) => match declared_consts(idl) {
                Err(failure) => Err(failure),
                Ok(constants) => match declared_events(idl) {
                    Err(failure) => Err(failure),
                    Ok(events) => match declared_errors(idl, span) {
                        Err(failure) => Err(failure),
                        Ok(errors) => Ok(
                            ProgramParts {
                                types,
                                idents,
                                constants,
                                events,
                                errors,
                                structs: Seq::empty(),
                                handlers: Seq::empty(),
                            },
                        ),
                    },
                },
            },
        },
    }
}

/// What the module for a program holds, with its accounts structs and handlers.
pub open spec fn program_parts(
    idl: Json,
    instructions: Seq<Json>,
    readings: Seq<Vec<FieldReading>>,
    span: Span,
) -> Result<ProgramParts, FailureView> {
    match program_items(idl, readings, span) {
        Err(failure) => Err(failure),
        Ok(parts) => match declared_handlers(
            instructions,
            instructions.len() as int,
            parts.idents,
            span,
        ) {
            Err(failure) => Err(failure),
            Ok((handlers, state)) => match collected(
                state.groups.map_values(|group: GroupView| group_item(group)),
            ) {
                Err(failure) => Err(failure),
                Ok(structs) => Ok(ProgramParts { structs, handlers, ..parts }),
            },
        },
    }
}

/// The import of a type.
pub open spec fn type_reexport(ident: Seq<char>) -> Seq<char> {
    "pub use super::"@ + ident + ";"@
}

/// The module for a program.
pub open spec fn program_text(
    name: Seq<char>,
    path: Seq<char>,
    address: Seq<char>,
    marker: Seq<char>,
    parts: ProgramParts,
) -> Seq<char> {
    filled(
        PROGRAM@,
        seq![
            name,
            literal_of(path),
            literal_of(address),
            marker,
            terminated(parts.types, "\n"@),
            terminated(
                parts.idents.map_values(|ident: Seq<char>| type_reexport(ident)),
                "\n"@,
            ),
            terminated(parts.constants, "\n"@),
            parts.events,
            parts.errors,
            terminated(parts.structs, "\n"@),
            terminated(parts.handlers, "\n"@),
        ],
    )
}

/// The module for the program that an interface description describes, or why there is
/// none.
pub open spec fn declared_program(
    name: Ident,
    idl: Json,
    path: Seq<char>,
    readings: Seq<Vec<FieldReading>>,
) -> Result<Seq<char>, FailureView> {
    match program_address(idl) {
        None => Err(diagnostic(name.span, "IDL is missing program address"@)),
        Some(address) => match array_at(idl, "instructions"@) {
            None => Err(diagnostic(name.span, "IDL is missing instructions array"@)),
            Some(instructions) => match discriminators_check(idl, name.span) {
                Err(failure) => Err(failure),
                Ok(_) => match program_parts(idl, instructions, readings, name.span) {
                    Err(failure) => Err(failure),
                    Ok(parts) => match item_name(type_case(name.text@)) {
                        Err(failure) => Err(failure),
                        Ok(marker) => Ok(program_text(name.text@, path, address, marker, parts)),
                    },
                },
            },
        },
    }
}

fn find_address(idl: &Json) -> (found: Option<&str>)
    ensures
        match found {
            Some(address) => program_address(*idl) == Some(address@),
            None => program_address(*idl) is None,
        },
{
    match idl.get("address") {
        Some(value) => value.as_str(),
        None => match idl.get("metadata") {
            Some(metadata) => metadata.text_at("address"),
            None => None,
        },
    }
}

/// Writes the module for the program that an interface description describes. The
/// description stands in the file at `path`. A list of fields comes as it was read.
pub fn gen_declared_program(
    name: &Ident,
    idl: &Json,
    path: &str,
    readings: &Vec<Vec<FieldReading>>,
) -> (out: Result<String, Failure>)
    requires
        readings_fit(elements(*idl, "types"@), readings@),
    ensures
        code_view(out) == declared_program(*name, *idl, path@, readings@),
{
    let span = name.span;
    let address = match find_address(idl) {
        None => return Err(
            new_diagnostic(span, "IDL is missing program address".to_owned()),
        ),
        Some(address) => address,
    };
    let instructions = match idl.array_at("instructions") {
        None => return Err(
            new_diagnostic(span, "IDL is missing instructions array".to_owned()),
        ),
        Some(instructions) => instructions,
    };
    match validate_declare_program_discriminators(idl, span) {
        Err(failure) => return Err(failure),
        Ok(_) => {},
    }
    let types = match gen_declare_program_types(idl, readings) {
        Err(failure) => return Err(failure),
        Ok(types) => types,
    };
    let idents = match gen_declare_program_type_idents(idl) {
        Err(failure) => return Err(failure),
        Ok(idents) => idents,
    };
    let constants = match gen_declare_program_constants(idl) {
        Err(failure) => return Err(failure),
        Ok(constants) => constants,
    };
    let events = match gen_declare_program_events(idl) {
        Err(failure) => return Err(failure),
        Ok(events) => events,
    };
    let errors = match gen_declare_program_errors(idl, span) {
        Err(failure) => return Err(failure),
        Ok(errors) => errors,
    };
    let (handlers, state) = match print_handlers(instructions, &idents, span) {
        Err(failure) => return Err(failure),
        Ok(handlers) => handlers,
    };
    assert(state.groups@.map_values(|group: AccountGroup| group_item(group@)) =~= groups_view(
        state.groups@,
    ).map_values(|group: GroupView| group_item(group)));
    let structs = match try_map_texts(
        &state.groups,
        |group: &AccountGroup| -> (r: Result<String, Failure>)
            ensures
                code_view(r) == group_item(group@)
            { print_group(group) },
        Ghost(|group: AccountGroup| group_item(group@)),
    ) {
        Err(failure) => return Err(failure),
        Ok(structs) => structs,
    };
    let marker = match new_ident(to_type_name(name.text.as_str())) {
        Err(failure) => return Err(failure),
        Ok(marker) => marker,
    };
    let reexports = map_texts(
        &idents,
        |ident: &String| -> (s: String)
            ensures
                s@ == type_reexport(ident@)
            { "pub use super::".to_owned().concat(ident.as_str()).concat(";") },
        Ghost(|ident: String| type_reexport(ident@)),
    );
    assert(texts(reexports@) =~= texts(idents@).map_values(
        |ident: Seq<char>| type_reexport(ident),
    ));
    Ok(
        fill11(
            PROGRAM,
            name.text.as_str(),
            string_literal(path).as_str(),
            string_literal(address).as_str(),
            marker.as_str(),
            terminate_strings(&types, "\n").as_str(),
            terminate_strings(&reexports, "\n").as_str(),
            terminate_strings(&constants, "\n").as_str(),
            events.as_str(),
            errors.as_str(),
            terminate_strings(&structs, "\n").as_str(),
            terminate_strings(&handlers, "\n").as_str(),
        ),
    )
}

// ---------------------------------------------------------------------------
// Laws
// ---------------------------------------------------------------------------

/// What is generated from an interface description tells its instructions apart, its
/// accounts, and its events: data begins with the discriminators of one name at most.
pub proof fn lemma_told_apart(
    name: Ident,
    idl: Json,
    path: Seq<char>,
    readings: Seq<Vec<FieldReading>>,
    section: Seq<char>,
    data: Seq<u8>,
    i: int,
    j: int,
)
    requires
        declared_program(name, idl, path, readings) is Ok,
        section == "instructions"@ || section == "accounts"@ || section == "events"@,
        ({
            let list = section_list(idl, section, name.span);
            &&& 0 <= i < list.len()
            &&& 0 <= j < list.len()
            &&& has_prefix(data, list[i].bytes)
            &&& has_prefix(data, list[j].bytes)
        }),
    ensures
        section_list(idl, section, name.span)[i].name == section_list(
            idl,
            section,
            name.span,
        )[j].name,
{
    reveal_strlit("instructions");
    reveal_strlit("accounts");
    reveal_strlit("events");
    lemma_one_match(section_list(idl, section, name.span), data, i, j);
}

/// The items of a section with their discriminators.
pub open spec fn section_list(idl: Json, section: Seq<char>, span: Span) -> Seq<NamedView> {
    if section == "instructions"@ {
        named_instructions(idl, span)->Ok_0
    } else {
        named_items(elements(idl, section), span)->Ok_0
    }
}

/// The accounts structs of a program never have the name of one of its types, and no
/// two have the same name.
pub proof fn lemma_structs_named_apart(
    instructions: Seq<Json>,
    n: int,
    reserved: Seq<Seq<char>>,
    span: Span,
)
    requires
        declared_handlers(instructions, n, reserved, span) is Ok,
    ensures
        is_collection(declared_handlers(instructions, n, reserved, span)->Ok_0.1, reserved),
    decreases n,
{
    if n > 0 {
        lemma_structs_named_apart(instructions, n - 1, reserved, span);
        let state = declared_handlers(instructions, n - 1, reserved, span)->Ok_0.1;
        let ix = instructions[n - 1];
        let name = required_text(ix, "name"@, span)->Ok_0;
        lemma_collected_group_valid(
            type_case(name),
            array_at(ix, "accounts"@)->Some_0,
            reserved,
            state,
            span,
        );
    }
}

/// Whether no group inside the accounts of an instruction takes the name that was chosen
/// for the group around it.
pub open spec fn instruction_leaves_names(
    instructions: Seq<Json>,
    k: int,
    reserved: Seq<Seq<char>>,
    span: Span,
) -> bool {
    leaves_names(
        type_case(required_text(instructions[k], "name"@, span)->Ok_0),
        array_at(instructions[k], "accounts"@)->Some_0,
        reserved,
        declared_handlers(instructions, k, reserved, span)->Ok_0.1,
        span,
    )
}

/// No two groups of accounts of a program share an accounts struct, where no group
/// inside another takes the name that was chosen for the one around it.
pub proof fn lemma_structs_not_shared(
    instructions: Seq<Json>,
    n: int,
    reserved: Seq<Seq<char>>,
    span: Span,
)
    requires
        declared_handlers(instructions, n, reserved, span) is Ok,
        forall|k: int|
            0 <= k < n ==> #[trigger] instruction_leaves_names(instructions, k, reserved, span),
    ensures
        groups_apart(declared_handlers(instructions, n, reserved, span)->Ok_0.1),
    decreases n,
{
    if n > 0 {
        lemma_structs_not_shared(instructions, n - 1, reserved, span);
        lemma_structs_named_apart(instructions, n - 1, reserved, span);
        assert(instruction_leaves_names(instructions, n - 1, reserved, span));
        let ix = instructions[n - 1];
        lemma_collected_groups_apart(
            type_case(required_text(ix, "name"@, span)->Ok_0),
            array_at(ix, "accounts"@)->Some_0,
            reserved,
            declared_handlers(instructions, n - 1, reserved, span)->Ok_0.1,
            span,
        );
    }
}

} // verus!
