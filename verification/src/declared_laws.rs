//! What the module for a declared program says.

use crate::account_groups::{
    account_field_text, collected_group, find_variant, group_signature, AccountFieldView, GroupView,
    GroupsView, VariantView,
};
use crate::declared_errors::{declared_errors, error_variant, program_name};
use crate::declared_events::{
    declared_event, declared_events, event_branch, event_impls, event_reexport, event_variant,
    parsers_text, EventView, EVENT_DATA_BORSH, EVENT_DATA_POD, PARSE_BORSH, PARSE_POD,
};
use crate::declared_program::{
    arg_decls, arg_uses, declared_arg, declared_handlers, declared_program, group_item,
    handler_item, instruction_bytes, instruction_leaves_names, program_address, program_items,
    program_parts, program_text, return_type, type_reexport, ProgramParts, PROGRAM,
};
use crate::declared_texts::{
    lemma_accounts_struct_text, lemma_errors_text, lemma_event_data_borsh_text,
    lemma_event_data_pod_text, lemma_event_impls_text, lemma_events_text, lemma_handler_text,
    lemma_parse_borsh_text, lemma_parse_branch_text, lemma_parse_pod_text, lemma_parsers_text,
    lemma_program_told,
};
use crate::declared_types::idl_type;
use crate::discriminator::array_discriminator;
use crate::failure::{call_site, collected, lemma_collected_len, FailureView, Span};
use crate::group_laws::{
    all_built, is_built, lemma_group_built, lemma_same_fields, lemma_variant_stays, line_of, plain,
    stands_for, struct_for,
};
use crate::handler::byte_literals;
use crate::json::{array_at, elements, member_of, number_of, required_text, text_at, text_of, Json};
use crate::names::{item_name, snake_case, type_case};
use crate::outside::literal_of;
use crate::passages::{
    lemma_joined_parted, lemma_lines_tell, lemma_tells_fewer, lemma_tells_one, lemma_tells_within,
    lemma_terminated_lines, lemma_told_is_said, lines, parted, tells,
};
use crate::run_time::lemma_says_within;
use crate::syntax::Ident;
use crate::template::{filled, says, says_at};
use crate::text::{decimal, terminated};
use crate::type_defs::entry_named;
use crate::type_parts::{serialization_of, FieldReading};
use vstd::prelude::*;

verus! {

// ---------------------------------------------------------------------------
// Handlers
// ---------------------------------------------------------------------------

/// The name of an argument.
pub open spec fn arg_name(arg: Json, span: Span) -> Seq<char> {
    item_name(snake_case(required_text(arg, "name"@, span)->Ok_0))->Ok_0
}

/// The type of an argument.
pub open spec fn arg_type(arg: Json, span: Span) -> Seq<char> {
    idl_type(member_of(arg, "type"@)->Some_0, span)->Ok_0
}

/// The handler of an instruction: its discriminator, its name in snake case, its accounts,
/// its arguments in order and what it returns.
pub open spec fn handler_said(ix: Json, accounts: Seq<char>, span: Span) -> Seq<char> {
    let name = required_text(ix, "name"@, span)->Ok_0;
    let args = array_at(ix, "args"@)->Some_0;
    "#[discrim = ["@ + byte_literals(instruction_bytes(ix, name, span)->Ok_0) + "]]\npub fn "@ + item_name(snake_case(name))->Ok_0 + "(_ctx: &mut anchor_lang::Context<"@ + accounts + ">, "@ + parted(args.map_values(|arg: Json| arg_name(arg, span) + ": "@ + arg_type(arg, span)), ", "@) + ") -> anchor_lang::Result<"@ + (match member_of(ix, "returns"@) { Some(value) => idl_type(value, span)->Ok_0, None => "()"@ }) + "> {\n    "@ + lines(args.map_values(|arg: Json| "let _ = "@ + arg_name(arg, span) + ";"@)) + "\n    unreachable!()\n}"@
}

/// The accounts of an instruction.
pub open spec fn accounts_of(ix: Json) -> Seq<Json> {
    array_at(ix, "accounts"@)->Some_0
}

/// The accounts struct of an instruction.
pub open spec fn struct_of(ix: Json, variants: Seq<VariantView>, span: Span) -> Seq<char> {
    item_name(
        struct_for(
            variants,
            type_case(required_text(ix, "name"@, span)->Ok_0),
            accounts_of(ix),
            span,
        ),
    )->Ok_0
}

/// Whether an instruction has an accounts struct.
pub open spec fn has_struct(ix: Json, variants: Seq<VariantView>, span: Span) -> bool {
    &&& group_signature(accounts_of(ix), span) is Ok
    &&& find_variant(
        variants,
        type_case(required_text(ix, "name"@, span)->Ok_0),
        group_signature(accounts_of(ix), span)->Ok_0,
    ) is Some
}

proof fn lemma_handler_said(
    ix: Json,
    name: Seq<char>,
    ident: Seq<char>,
    accounts: Seq<char>,
    span: Span,
)
    requires
        required_text(ix, "name"@, span) == Ok::<Seq<char>, FailureView>(name),
        item_name(snake_case(name)) == Ok::<Seq<char>, FailureView>(ident),
        handler_item(ix, name, ident, accounts, span) is Ok,
    ensures
        handler_item(ix, name, ident, accounts, span)->Ok_0 == handler_said(ix, accounts, span),
{
    let list = array_at(ix, "args"@)->Some_0;
    let results = list.map_values(|arg: Json| declared_arg(arg, span));
    let args = collected(results)->Ok_0;
    lemma_collected_len(results);
    let decls = list.map_values(|arg: Json| arg_name(arg, span) + ": "@ + arg_type(arg, span));
    let uses = list.map_values(|arg: Json| "let _ = "@ + arg_name(arg, span) + ";"@);
    assert forall|i: int| 0 <= i < list.len() implies arg_decls(args)[i] == decls[i] && arg_uses(
        args,
    )[i] == uses[i] by {
        assert(results[i] == declared_arg(list[i], span));
    }
    assert(arg_decls(args) =~= decls);
    assert(arg_uses(args) =~= uses);
    lemma_joined_parted(decls, ", "@);
    lemma_terminated_lines(uses);
    lemma_handler_text(
        seq![
            byte_literals(instruction_bytes(ix, name, span)->Ok_0),
            ident,
            accounts,
            parted(decls, ", "@),
            return_type(ix, span)->Ok_0,
            lines(uses),
        ],
    );
}

proof fn lemma_handlers_built(
    instructions: Seq<Json>,
    n: int,
    reserved: Seq<Seq<char>>,
    span: Span,
)
    requires
        0 <= n <= instructions.len(),
        declared_handlers(instructions, n, reserved, span) is Ok,
        forall|k: int|
            0 <= k < n ==> #[trigger] instruction_leaves_names(instructions, k, reserved, span),
        forall|k: int| 0 <= k < n ==> plain(accounts_of(#[trigger] instructions[k]), span),
    ensures
        ({
            let (items, state) = declared_handlers(instructions, n, reserved, span)->Ok_0;
            &&& all_built(state, span)
            &&& items.len() == n
            &&& forall|k: int|
                0 <= k < n ==> has_struct(#[trigger] instructions[k], state.variants, span)
                    && items[k] == handler_said(
                    instructions[k],
                    struct_of(instructions[k], state.variants, span),
                    span,
                )
        }),
    decreases n,
{
    if n > 0 {
        lemma_handlers_built(instructions, n - 1, reserved, span);
        let (earlier, before) = declared_handlers(instructions, n - 1, reserved, span)->Ok_0;
        let (items, after) = declared_handlers(instructions, n, reserved, span)->Ok_0;
        let ix = instructions[n - 1];
        let name = required_text(ix, "name"@, span)->Ok_0;
        let group = type_case(name);
        assert(instruction_leaves_names(instructions, n - 1, reserved, span));
        lemma_group_built(group, accounts_of(ix), reserved, before, span);
        let generated = collected_group(group, accounts_of(ix), reserved, before, span)->Ok_0.0;
        let ident = item_name(generated)->Ok_0;
        lemma_handler_said(ix, name, item_name(snake_case(name))->Ok_0, ident, span);
        assert(struct_of(ix, after.variants, span) == ident);
        assert forall|k: int| 0 <= k < n implies has_struct(
            #[trigger] instructions[k],
            after.variants,
            span,
        ) && items[k] == handler_said(
            instructions[k],
            struct_of(instructions[k], after.variants, span),
            span,
        ) by {
            if k < n - 1 {
                assert(items[k] == earlier[k]);
                lemma_variant_stays(
                    before.variants,
                    after.variants,
                    type_case(required_text(instructions[k], "name"@, span)->Ok_0),
                    group_signature(accounts_of(instructions[k]), span)->Ok_0,
                );
            }
        }
    }
}

// ---------------------------------------------------------------------------
// Accounts structs
// ---------------------------------------------------------------------------

/// An accounts struct with a field for each account.
pub open spec fn struct_said(
    ident: Seq<char>,
    accounts: Seq<Json>,
    variants: Seq<VariantView>,
    span: Span,
) -> Seq<char> {
    "#[derive(anchor_lang::Accounts)]\n#[accounts_program_id(ID)]\npub struct "@ + ident + " {\n    "@ + lines(accounts.map_values(|account: Json| line_of(account, variants, span))) + "\n}"@
}

proof fn lemma_struct_said(
    group: GroupView,
    accounts: Seq<Json>,
    variants: Seq<VariantView>,
    span: Span,
)
    requires
        group_item(group) is Ok,
        group.fields.len() == accounts.len(),
        forall|i: int|
            0 <= i < accounts.len() ==> account_field_text(#[trigger] group.fields[i]) == line_of(
                accounts[i],
                variants,
                span,
            ),
    ensures
        group_item(group)->Ok_0 == struct_said(
            item_name(group.name)->Ok_0,
            accounts,
            variants,
            span,
        ),
{
    let fields = group.fields.map_values(|field: AccountFieldView| account_field_text(field));
    let said = accounts.map_values(|account: Json| line_of(account, variants, span));
    assert(fields =~= said);
    lemma_terminated_lines(fields);
    lemma_accounts_struct_text(seq![item_name(group.name)->Ok_0, lines(said)]);
}

proof fn lemma_struct_there(
    state: GroupsView,
    structs: Seq<Seq<char>>,
    ix: Json,
    span: Span,
) -> (g: int)
    requires
        all_built(state, span),
        has_struct(ix, state.variants, span),
        plain(accounts_of(ix), span),
        collected(state.groups.map_values(|group: GroupView| group_item(group))) == Ok::<
            Seq<Seq<char>>,
            FailureView,
        >(structs),
    ensures
        0 <= g < structs.len(),
        structs[g] == struct_said(
            struct_of(ix, state.variants, span),
            accounts_of(ix),
            state.variants,
            span,
        ),
{
    let variants = state.variants;
    let accounts = accounts_of(ix);
    let name = type_case(required_text(ix, "name"@, span)->Ok_0);
    let i = lemma_variant_at(variants, name, group_signature(accounts, span)->Ok_0);
    assert(is_built(state, variants[i], span));
    let (group, list) = choose|group: GroupView, list: Seq<Json>| #[trigger]
        stands_for(state, variants[i], group, list, span);
    lemma_same_fields(accounts, list, variants, span);
    let g = choose|g: int| 0 <= g < state.groups.len() && state.groups[g] == group;
    let results = state.groups.map_values(|group: GroupView| group_item(group));
    lemma_collected_len(results);
    assert(results[g] == group_item(group));
    assert forall|k: int| 0 <= k < accounts.len() implies account_field_text(
        #[trigger] group.fields[k],
    ) == line_of(accounts[k], variants, span) by {
        assert(line_of(accounts[k], variants, span) == line_of(list[k], variants, span));
    }
    lemma_struct_said(group, accounts, variants, span);
    g
}

proof fn lemma_variant_at(variants: Seq<VariantView>, group: Seq<char>, signature: Seq<char>) -> (i:
    int)
    requires
        find_variant(variants, group, signature) is Some,
    ensures
        0 <= i < variants.len(),
        variants[i].signature == signature,
        find_variant(variants, group, signature) == Some(variants[i].generated_name),
    decreases variants.len(),
{
    if variants[0].group == group && variants[0].signature == signature {
        0
    } else {
        let i = lemma_variant_at(variants.skip(1), group, signature);
        assert(variants.skip(1)[i] == variants[i + 1]);
        i + 1
    }
}

// ---------------------------------------------------------------------------
// The module
// ---------------------------------------------------------------------------

/// What the module for a program says: its address, a marker type for it, its types,
/// constants, events and errors, the accounts structs, and an interface with a handler for
/// each instruction.
pub open spec fn module_said(
    name: Ident,
    path: Seq<char>,
    address: Seq<char>,
    parts: ProgramParts,
) -> Seq<Seq<char>> {
    seq![
            "pub mod "@ + name.text@ + " {\n    use super::*;\n\n    #[allow(dead_code)]\n    const __ANCHOR_DECLARE_PROGRAM_IDL_BYTES: &[u8] = include_bytes!("@ + literal_of(path) + ");\n\n    pub const ID: anchor_lang::Address =\n        anchor_lang::address!("@ + literal_of(address) + ");\n\n    pub mod program {\n        pub struct "@ + item_name(type_case(name.text@))->Ok_0 + ";\n\n        impl anchor_lang::Id for "@ + item_name(type_case(name.text@))->Ok_0 + " {\n            const IDL_ADDRESS: &'static str = "@ + literal_of(address) + ";\n\n            fn id() -> anchor_lang::Address {\n                super::ID\n            }\n        }\n    }\n\n"@,
            "    "@ + lines(parts.types) + "\n    pub mod types {\n        "@ + lines(parts.idents.map_values(|ident: Seq<char>| "pub use super::"@ + ident + ";"@)) + "\n    }\n    pub mod constants {\n        "@ + lines(parts.constants) + "\n    }\n"@,
            "    "@ + parts.events + "\n    "@ + parts.errors + "\n"@,
            "    "@ + lines(parts.structs) + "\n\n"@,
            "    #[anchor_lang::program(interface, program_id = ID)]\n    pub mod __program {\n        use super::*;\n        "@ + lines(parts.handlers) + "\n    }\n}"@,
    ]
}

spec fn module_parts(
    name: Ident,
    path: Seq<char>,
    address: Seq<char>,
    parts: ProgramParts,
) -> Seq<Seq<char>> {
    seq![
        name.text@,
        literal_of(path),
        literal_of(address),
        item_name(type_case(name.text@))->Ok_0,
        lines(parts.types),
        lines(parts.idents.map_values(|ident: Seq<char>| "pub use super::"@ + ident + ";"@)),
        lines(parts.constants),
        parts.events,
        parts.errors,
        lines(parts.structs),
        lines(parts.handlers),
    ]
}

proof fn lemma_module_told(name: Ident, path: Seq<char>, address: Seq<char>, held: ProgramParts)
    ensures
        tells(
            filled(PROGRAM@, module_parts(name, path, address, held)),
            module_said(name, path, address, held),
        ),
{
    let parts = module_parts(name, path, address, held);
    lemma_program_told(parts);
    assert(module_said(name, path, address, held) =~= seq![
            "pub mod "@ + parts[0] + " {\n    use super::*;\n\n    #[allow(dead_code)]\n    const __ANCHOR_DECLARE_PROGRAM_IDL_BYTES: &[u8] = include_bytes!("@ + parts[1] + ");\n\n    pub const ID: anchor_lang::Address =\n        anchor_lang::address!("@ + parts[2] + ");\n\n    pub mod program {\n        pub struct "@ + parts[3] + ";\n\n        impl anchor_lang::Id for "@ + parts[3] + " {\n            const IDL_ADDRESS: &'static str = "@ + parts[2] + ";\n\n            fn id() -> anchor_lang::Address {\n                super::ID\n            }\n        }\n    }\n\n"@,
            "    "@ + parts[4] + "\n    pub mod types {\n        "@ + parts[5] + "\n    }\n    pub mod constants {\n        "@ + parts[6] + "\n    }\n"@,
            "    "@ + parts[7] + "\n    "@ + parts[8] + "\n"@,
            "    "@ + parts[9] + "\n\n"@,
            "    #[anchor_lang::program(interface, program_id = ID)]\n    pub mod __program {\n        use super::*;\n        "@ + parts[10] + "\n    }\n}"@,
    ]);
}

proof fn lemma_module_text(name: Ident, path: Seq<char>, address: Seq<char>, held: ProgramParts)
    ensures
        tells(
            program_text(
                name.text@,
                path,
                address,
                item_name(type_case(name.text@))->Ok_0,
                held,
            ),
            module_said(name, path, address, held),
        ),
{
    lemma_module_told(name, path, address, held);
    let idents = held.idents.map_values(|ident: Seq<char>| type_reexport(ident));
    assert(idents =~= held.idents.map_values(
        |ident: Seq<char>| "pub use super::"@ + ident + ";"@,
    ));
    lemma_terminated_lines(held.types);
    lemma_terminated_lines(idents);
    lemma_terminated_lines(held.constants);
    lemma_terminated_lines(held.structs);
    lemma_terminated_lines(held.handlers);
    assert(seq![
        name.text@,
        literal_of(path),
        literal_of(address),
        item_name(type_case(name.text@))->Ok_0,
        terminated(held.types, "\n"@),
        terminated(idents, "\n"@),
        terminated(held.constants, "\n"@),
        held.events,
        held.errors,
        terminated(held.structs, "\n"@),
        terminated(held.handlers, "\n"@),
    ] =~= module_parts(name, path, address, held));
}

/// The module for a program says its address, which stands at the top of the description
/// or else among its metadata, and holds its types, constants, events and errors, its
/// accounts structs and its handlers, each kind in order.
pub proof fn lemma_module_written(
    name: Ident,
    idl: Json,
    path: Seq<char>,
    readings: Seq<Vec<FieldReading>>,
)
    requires
        declared_program(name, idl, path, readings) is Ok,
    ensures
        ({
            let instructions = array_at(idl, "instructions"@)->Some_0;
            let parts = program_parts(idl, instructions, readings, name.span)->Ok_0;
            let address = program_address(idl)->Some_0;
            &&& match member_of(idl, "address"@) {
                Some(value) => text_of(value) == Some(address),
                None => text_at(member_of(idl, "metadata"@)->Some_0, "address"@) == Some(address),
            }
            &&& Ok::<Seq<char>, FailureView>(parts.events) == declared_events(idl)
            &&& Ok::<Seq<char>, FailureView>(parts.errors) == declared_errors(idl, name.span)
            &&& tells(
                declared_program(name, idl, path, readings)->Ok_0,
                module_said(name, path, address, parts),
            )
        }),
{
    let instructions = array_at(idl, "instructions"@)->Some_0;
    let parts = program_parts(idl, instructions, readings, name.span)->Ok_0;
    lemma_module_text(name, path, program_address(idl)->Some_0, parts);
}

/// In the module for a program each instruction has a handler, in order, which names an
/// accounts struct of the module; and that struct holds a field for each account of the
/// instruction, in order, marked `mut` exactly where the account is written and `signer`
/// exactly where it signs.
///
/// Left out are programs in which a group of accounts inside another takes the name that
/// was chosen for the one around it, or in which the name of an account holds a colon.
pub proof fn lemma_accounts_declared(
    name: Ident,
    idl: Json,
    path: Seq<char>,
    readings: Seq<Vec<FieldReading>>,
    k: int,
)
    requires
        declared_program(name, idl, path, readings) is Ok,
        0 <= k < array_at(idl, "instructions"@)->Some_0.len(),
        ({
            let instructions = array_at(idl, "instructions"@)->Some_0;
            let reserved = program_items(idl, readings, name.span)->Ok_0.idents;
            &&& forall|i: int|
                0 <= i < instructions.len() ==> #[trigger] instruction_leaves_names(
                    instructions,
                    i,
                    reserved,
                    name.span,
                )
            &&& forall|i: int|
                0 <= i < instructions.len() ==> plain(
                    accounts_of(#[trigger] instructions[i]),
                    name.span,
                )
        }),
    ensures
        ({
            let instructions = array_at(idl, "instructions"@)->Some_0;
            let ix = instructions[k];
            let code = declared_program(name, idl, path, readings)->Ok_0;
            let parts = program_parts(idl, instructions, readings, name.span)->Ok_0;
            let variants = declared_handlers(
                instructions,
                instructions.len() as int,
                parts.idents,
                name.span,
            )->Ok_0.1.variants;
            let ident = struct_of(ix, variants, name.span);
            &&& parts.handlers.len() == instructions.len()
            &&& parts.handlers[k] == handler_said(ix, ident, name.span)
            &&& tells(
                code,
                seq![
                    struct_said(ident, accounts_of(ix), variants, name.span),
                    handler_said(ix, ident, name.span),
                ],
            )
        }),
{
    let span = name.span;
    let instructions = array_at(idl, "instructions"@)->Some_0;
    let ix = instructions[k];
    let code = declared_program(name, idl, path, readings)->Ok_0;
    let parts = program_parts(idl, instructions, readings, span)->Ok_0;
    let count = instructions.len() as int;
    let (handlers, state) = declared_handlers(instructions, count, parts.idents, span)->Ok_0;
    lemma_handlers_built(instructions, count, parts.idents, span);
    let g = lemma_struct_there(state, parts.structs, ix, span);
    lemma_module_written(name, idl, path, readings);
    let said = module_said(name, path, program_address(idl)->Some_0, parts);
    lemma_module_holds(name, path, program_address(idl)->Some_0, parts);
    lemma_structs_and_handlers(code, said, parts.structs, parts.handlers, g, k);
}

proof fn lemma_module_holds(name: Ident, path: Seq<char>, address: Seq<char>, parts: ProgramParts)
    ensures
        module_said(name, path, address, parts).len() == 5,
        says(module_said(name, path, address, parts)[3], lines(parts.structs)),
        says(module_said(name, path, address, parts)[4], lines(parts.handlers)),
{
    let said = module_said(name, path, address, parts);
    let before = "    "@;
    let structs = lines(parts.structs);
    assert(said[3].subrange(before.len() as int, (before.len() + structs.len()) as int)
        =~= structs);
    assert(says_at(said[3], structs, before.len() as int));
    let before = "    #[anchor_lang::program(interface, program_id = ID)]\n    pub mod __program {\n        use super::*;\n        "@;
    let handlers = lines(parts.handlers);
    assert(said[4].subrange(before.len() as int, (before.len() + handlers.len()) as int)
        =~= handlers);
    assert(says_at(said[4], handlers, before.len() as int));
}

proof fn lemma_structs_and_handlers(
    code: Seq<char>,
    said: Seq<Seq<char>>,
    structs: Seq<Seq<char>>,
    handlers: Seq<Seq<char>>,
    g: int,
    k: int,
)
    requires
        tells(code, said),
        said.len() == 5,
        says(said[3], lines(structs)),
        says(said[4], lines(handlers)),
        0 <= g < structs.len(),
        0 <= k < handlers.len(),
    ensures
        tells(code, seq![structs[g], handlers[k]]),
{
    lemma_lines_tell(structs);
    lemma_told_is_said(lines(structs), structs, g);
    lemma_says_within(said[3], lines(structs), structs[g]);
    lemma_tells_one(said[3], structs[g]);
    lemma_lines_tell(handlers);
    lemma_told_is_said(lines(handlers), handlers, k);
    lemma_says_within(said[4], lines(handlers), handlers[k]);
    lemma_tells_one(said[4], handlers[k]);
    lemma_tells_within(code, said, 4, seq![handlers[k]]);
    let second = said.take(4) + seq![handlers[k]] + said.skip(5);
    lemma_tells_within(code, second, 3, seq![structs[g]]);
    let third = second.take(3) + seq![structs[g]] + second.skip(4);
    let fourth = seq![said[1], said[2], structs[g], handlers[k]];
    let fifth = seq![said[2], structs[g], handlers[k]];
    lemma_tells_fewer(code, third, 0);
    assert(third.take(0) + third.skip(1) =~= fourth);
    lemma_tells_fewer(code, fourth, 0);
    assert(fourth.take(0) + fourth.skip(1) =~= fifth);
    lemma_tells_fewer(code, fifth, 0);
    assert(fifth.take(0) + fifth.skip(1) =~= seq![structs[g], handlers[k]]);
}

// ---------------------------------------------------------------------------
// Events
// ---------------------------------------------------------------------------

/// The type of an event.
pub open spec fn event_name(event: Json) -> Seq<char> {
    item_name(type_case(required_text(event, "name"@, call_site())->Ok_0))->Ok_0
}

/// The discriminator that an event is given.
pub open spec fn bytes_given(event: Json) -> Seq<u8> {
    array_discriminator(array_at(event, "discriminator"@)->Some_0, call_site())->Ok_0
}

/// Whether the bytes of an event are its value, as the type of its name says.
pub open spec fn is_bytewise(event: Json, types: Seq<Json>) -> bool {
    !(serialization_of(
        entry_named(types, required_text(event, "name"@, call_site())->Ok_0)->Some_0,
        call_site(),
    )->Ok_0 is Borsh)
}

/// What an event is told apart by, and how it is logged: its discriminator and then its
/// value, byte by byte or encoded.
pub open spec fn event_said(ident: Seq<char>, bytes: Seq<u8>, bytewise: bool) -> Seq<char> {
    "impl anchor_lang::Discriminator for "@ + ident + " {\n    const DISCRIMINATOR: &'static [u8] = &["@ + byte_literals(bytes) + "];\n}\n\n"@ + (if bytewise { "impl anchor_lang::Event for "@ + ident + " {\n    fn data(&self) -> anchor_lang::__alloc::vec::Vec<u8> {\n        let disc = <Self as anchor_lang::Discriminator>::DISCRIMINATOR;\n        let payload = anchor_lang::bytemuck::bytes_of(self);\n        let mut data =\n            anchor_lang::__alloc::vec::Vec::with_capacity(disc.len() + payload.len());\n        data.extend_from_slice(disc);\n        data.extend_from_slice(payload);\n        data\n    }\n}"@ } else { "impl anchor_lang::Event for "@ + ident + " {\n    fn data(&self) -> anchor_lang::__alloc::vec::Vec<u8> {\n        let disc = <Self as anchor_lang::Discriminator>::DISCRIMINATOR;\n        let mut data =\n            anchor_lang::__alloc::vec::Vec::with_capacity(disc.len() + 256);\n        data.extend_from_slice(disc);\n        anchor_lang::wincode::config::serialize_into(\n            &mut data,\n            self,\n            anchor_lang::BORSH_CONFIG,\n        )\n        .expect(\"declared event serialization cannot fail for derived AnchorSerialize types\");\n        data\n    }\n}"@ })
}

/// How an event is read: where its discriminator comes first, from all bytes behind it.
pub open spec fn event_read(ident: Seq<char>, bytewise: bool) -> Seq<char> {
    "if value.starts_with(\n    <super::events::"@ + ident + " as anchor_lang::Discriminator>::DISCRIMINATOR,\n) {\n    "@ + (if bytewise { "let payload = &value[<super::events::"@ + ident + " as anchor_lang::Discriminator>::DISCRIMINATOR.len()..];\nlet expected = core::mem::size_of::<super::events::"@ + ident + ">();\nif payload.len() != expected {\n    return Err(anchor_lang::Error::InvalidInstructionData);\n}\nreturn Ok(Self::"@ + ident + "(\n    anchor_lang::bytemuck::pod_read_unaligned(payload)\n));"@ } else { "let mut payload = &value[<super::events::"@ + ident + " as anchor_lang::Discriminator>::DISCRIMINATOR.len()..];\nlet decoded =\n    <super::events::"@ + ident + " as anchor_lang::wincode::SchemaRead<\n        '_,\n        anchor_lang::BorshConfig,\n    >>::get(&mut payload)\n    .map_err(|_| anchor_lang::Error::InvalidInstructionData)?;\nif !payload.is_empty() {\n    return Err(anchor_lang::Error::InvalidInstructionData);\n}\nreturn Ok(Self::"@ + ident + "(decoded));"@ }) + "\n}"@
}

/// The variant that holds an event.
pub open spec fn held(ident: Seq<char>) -> Seq<char> {
    ident + "(super::events::"@ + ident + "),"@
}

/// The type that holds any event. There is none where there are no events.
pub open spec fn events_held(list: Seq<Json>, types: Seq<Json>) -> Seq<char> {
    if list.len() == 0 {
        ""@
    } else {
        "pub mod parsers {\n    use super::*;\n\n    pub enum Event {\n        "@ + lines(list.map_values(|event: Json| held(event_name(event)))) + "\n    }\n\n    impl Event {\n        pub fn parse(data: &[u8]) -> anchor_lang::Result<Self> {\n            Self::try_from(data)\n        }\n    }\n\n    impl core::convert::TryFrom<&[u8]> for Event {\n        type Error = anchor_lang::Error;\n\n        fn try_from(value: &[u8]) -> anchor_lang::Result<Self> {\n            "@ + lines(list.map_values(|event: Json| event_read(event_name(event), is_bytewise(event, types)))) + "\n            Err(anchor_lang::Error::InvalidArgument)\n        }\n    }\n}"@
    }
}

/// The events of a program, in order.
pub open spec fn events_said(list: Seq<Json>, types: Seq<Json>) -> Seq<char> {
    "pub mod events {\n    use super::*;\n\n    "@ + lines(list.map_values(|event: Json| "pub use super::"@ + event_name(event) + ";"@)) + "\n}\n\n"@ + lines(list.map_values(|event: Json| event_said(event_name(event), bytes_given(event), is_bytewise(event, types)))) + "\n\n"@ + events_held(list, types)
}

proof fn lemma_event_said(event: EventView)
    ensures
        event_impls(event) == event_said(event.ident, event.bytes, event.pod),
        event_branch(event) == event_read(event.ident, event.pod),
{
    let ident = event.ident;
    lemma_event_data_pod_text(seq![ident]);
    lemma_event_data_borsh_text(seq![ident]);
    lemma_parse_pod_text(seq![ident]);
    lemma_parse_borsh_text(seq![ident]);
    let data = filled(
        if event.pod {
            EVENT_DATA_POD@
        } else {
            EVENT_DATA_BORSH@
        },
        seq![ident],
    );
    lemma_event_impls_text(seq![ident, byte_literals(event.bytes), data]);
    let read = filled(
        if event.pod {
            PARSE_POD@
        } else {
            PARSE_BORSH@
        },
        seq![ident],
    );
    lemma_parse_branch_text(seq![ident, read]);
}

/// The events of a program are its types of those names. Each is told apart by the
/// discriminator that it is given; what is logged of it is that discriminator and then its
/// value; and reading takes the value from behind the discriminator, byte by byte exactly
/// where it is logged so, and asks that nothing is left over.
pub proof fn lemma_events_written(idl: Json)
    requires
        declared_events(idl) is Ok,
    ensures
        declared_events(idl)->Ok_0 == (match array_at(idl, "events"@) {
            None => "pub mod events {\n    use super::*;\n}"@,
            Some(list) => events_said(list, elements(idl, "types"@)),
        }),
{
    if let Some(list) = array_at(idl, "events"@) {
        let types = elements(idl, "types"@);
        let results = list.map_values(|event: Json| declared_event(event, types));
        let events = collected(results)->Ok_0;
        lemma_collected_len(results);
        let reexports = list.map_values(
            |event: Json| "pub use super::"@ + event_name(event) + ";"@,
        );
        let impls = list.map_values(
            |event: Json|
                event_said(event_name(event), bytes_given(event), is_bytewise(event, types)),
        );
        let variants = list.map_values(|event: Json| held(event_name(event)));
        let branches = list.map_values(
            |event: Json| event_read(event_name(event), is_bytewise(event, types)),
        );
        assert forall|i: int| 0 <= i < list.len() implies {
            &&& event_reexport(#[trigger] events[i]) == reexports[i]
            &&& event_impls(events[i]) == impls[i]
            &&& event_variant(events[i]) == variants[i]
            &&& event_branch(events[i]) == branches[i]
        } by {
            assert(results[i] == declared_event(list[i], types));
            lemma_event_said(events[i]);
        }
        assert(events.map_values(|event: EventView| event_reexport(event)) =~= reexports);
        assert(events.map_values(|event: EventView| event_impls(event)) =~= impls);
        assert(events.map_values(|event: EventView| event_variant(event)) =~= variants);
        assert(events.map_values(|event: EventView| event_branch(event)) =~= branches);
        lemma_terminated_lines(reexports);
        lemma_terminated_lines(impls);
        lemma_terminated_lines(variants);
        lemma_terminated_lines(branches);
        lemma_parsers_text(seq![lines(variants), lines(branches)]);
        assert(parsers_text(events) == events_held(list, types));
        lemma_events_text(seq![lines(reexports), lines(impls), parsers_text(events)]);
    }
}

// ---------------------------------------------------------------------------
// Errors
// ---------------------------------------------------------------------------

/// The variant for an error: its message, where it has one, its name and its code.
pub open spec fn error_said(error: Json, span: Span) -> Seq<char> {
    (match text_at(error, "msg"@) {
        Some(message) => "#[msg("@ + literal_of(message) + ")]\n"@,
        None => ""@,
    }) + item_name(type_case(required_text(error, "name"@, span)->Ok_0))->Ok_0 + " = "@ + decimal(
        number_of(member_of(error, "code"@)->Some_0)->Some_0 as nat,
    ) + "u32,"@
}

/// The errors of a program are the variants of one type, in order, each with its message
/// and its own code.
pub proof fn lemma_errors_written(idl: Json, span: Span)
    requires
        declared_errors(idl, span) is Ok,
    ensures
        declared_errors(idl, span)->Ok_0 == (match array_at(idl, "errors"@) {
            None => "pub mod error {\n    use super::*;\n}"@,
            Some(errors) => if errors.len() == 0 {
                "pub mod error {\n    use super::*;\n}"@
            } else {
                "pub mod error {\n    use super::*;\n\n    #[anchor_lang::error_code(offset = 0)]\n    pub enum "@ + item_name(type_case(program_name(idl)) + "Error"@)->Ok_0 + " {\n        "@ + lines(errors.map_values(|error: Json| error_said(error, span))) + "\n    }\n}"@
            },
        }),
{
    if let Some(errors) = array_at(idl, "errors"@) {
        if errors.len() > 0 {
            let results = errors.map_values(|error: Json| error_variant(error, span));
            let variants = collected(results)->Ok_0;
            let said = errors.map_values(|error: Json| error_said(error, span));
            lemma_collected_len(results);
            assert forall|i: int| 0 <= i < errors.len() implies #[trigger] variants[i] == said[i] by {
                assert(results[i] == error_variant(errors[i], span));
            }
            assert(variants =~= said);
            lemma_terminated_lines(variants);
            lemma_errors_text(
                seq![
                    item_name(type_case(program_name(idl)) + "Error"@)->Ok_0,
                    lines(said),
                ],
            );
        }
    }
}

} // verus!
