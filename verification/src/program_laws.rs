//! What the code for a program says.

use crate::attrs::Attribute;
use crate::discriminator::{attr_discrim, DiscrimView};
use crate::failure::{lemma_collected_len, FailureView};
use crate::handler::{byte_literals, handler_code, HandlerCodeView, HandlerIdl};
use crate::handler_fn::{
    accounts_place, field_pat_texts, fn_arg_texts, handler_text, is_accounts, kept_attrs, pat_text,
    update_phase, FieldPat, HandlerFn, Pat, PatStruct, TypedArg,
};
use crate::item_laws::{conditions, lemma_conditions};
use crate::outside::literal_of;
use crate::passages::{
    each_of, lemma_each_of, lemma_joined_parted, lemma_tells_itself, lines, parted, present, tells,
};
use crate::program::{
    accounts_seen, assembled, authority_check, client_interface, failed, generated, generated_at,
    given_discrims, handler_texts, handlers_in, idl_accounts, idl_entry, idl_types,
    once_per_accounts, others_in, program_code, refusals, return_register, section,
    section_cpi_wrapper, section_dispatch_arm, section_instruction_struct, section_wrapper,
    succeeded, GeneratedView, ModItem, ProgramModule, EVENT_CPI_DISPATCH, EXECUTABLE_PROGRAM,
    IDL_TYPE, INTERFACE_PROGRAM,
};
use crate::program_config::{ProgramConfig, ProgramMode};
use crate::program_texts::{
    lemma_client_interface_text, lemma_event_cpi_dispatch_text, lemma_executable_told,
    lemma_idl_accounts_text, lemma_idl_entry_text, lemma_idl_type_text, lemma_idl_types_text,
    lemma_interface_program_text, lemma_known_authority_check_text,
};
use crate::syntax::type_text;
use crate::template::filled;
use crate::text::concat_all;
use vstd::prelude::*;

verus! {

// ---------------------------------------------------------------------------
// Items of the module
// ---------------------------------------------------------------------------

/// The handlers of a module: its public functions, in order.
pub open spec fn public_in(items: Seq<ModItem>) -> Seq<HandlerFn>
    decreases items.len(),
{
    if items.len() == 0 {
        Seq::empty()
    } else {
        (match items[0] {
            ModItem::Fn(func) if func.public => seq![func],
            _ => Seq::empty(),
        }) + public_in(items.skip(1))
    }
}

/// The items of a module that are no handlers, in order.
pub open spec fn rest_of(items: Seq<ModItem>) -> Seq<char> {
    each_of(
        items,
        |item: ModItem|
            match item {
                ModItem::Fn(func) => if func.public {
                    Seq::empty()
                } else {
                    func.tokens@ + "\n"@
                },
                ModItem::Other(tokens) => tokens@ + "\n"@,
            },
    )
}

proof fn lemma_public_more(items: Seq<ModItem>, last: ModItem)
    ensures
        public_in(items.push(last)) == public_in(items) + (match last {
            ModItem::Fn(func) if func.public => seq![func],
            _ => Seq::empty(),
        }),
    decreases items.len(),
{
    let more = items.push(last);
    let end = match last {
        ModItem::Fn(func) if func.public => seq![func],
        _ => Seq::empty(),
    };
    if items.len() == 0 {
        assert(more.skip(1) =~= items);
        assert(public_in(more) =~= public_in(items) + end);
    } else {
        lemma_public_more(items.skip(1), last);
        assert(more.skip(1) =~= items.skip(1).push(last));
        assert(public_in(more) =~= public_in(items) + end);
    }
}

proof fn lemma_public_in(items: Seq<ModItem>)
    ensures
        handlers_in(items).map_values(|handler: &HandlerFn| *handler) == public_in(items),
    decreases items.len(),
{
    let own = |handler: &HandlerFn| *handler;
    if items.len() == 0 {
        assert(handlers_in(items).map_values(own) =~= public_in(items));
    } else {
        let before = items.drop_last();
        lemma_public_in(before);
        lemma_public_more(before, items.last());
        assert(before.push(items.last()) =~= items);
        assert(handlers_in(items).map_values(own) =~= public_in(items));
    }
}

proof fn lemma_rest_of(items: Seq<ModItem>)
    ensures
        others_in(items) == rest_of(items),
    decreases items.len(),
{
    let said = |item: ModItem|
        match item {
            ModItem::Fn(func) => if func.public {
                Seq::empty()
            } else {
                func.tokens@ + "\n"@
            },
            ModItem::Other(tokens) => tokens@ + "\n"@,
        };
    lemma_each_of(items, said, said);
    if items.len() > 0 {
        let before = items.drop_last();
        lemma_rest_of(before);
        lemma_each_of(before, said, said);
        assert(items.map_values(said).drop_last() =~= before.map_values(said));
        assert(others_in(items) =~= others_in(before) + said(items.last()));
    } else {
        assert(items.map_values(said) =~= Seq::<Seq<char>>::empty());
    }
}

/// The attributes of a handler that stay with it, those outside or those inside its body:
/// all but its discriminator.
pub open spec fn staying(attrs: Seq<Attribute>, inner: bool) -> Seq<char> {
    each_of(
        attrs,
        |attr: Attribute|
            if attr.inner == inner && !(attr.path@ == "discrim"@ && attr.meta is NameValue) {
                attr.tokens@ + "\n"@
            } else {
                Seq::empty()
            },
    )
}

proof fn lemma_staying(attrs: Seq<Attribute>, inner: bool)
    ensures
        kept_attrs(attrs, inner) == staying(attrs, inner),
    decreases attrs.len(),
{
    let said = |attr: Attribute|
        if attr.inner == inner && !(attr.path@ == "discrim"@ && attr.meta is NameValue) {
            attr.tokens@ + "\n"@
        } else {
            Seq::empty()
        };
    lemma_each_of(attrs, said, said);
    if attrs.len() > 0 {
        let before = attrs.drop_last();
        lemma_staying(before, inner);
        lemma_each_of(before, said, said);
        assert(attrs.map_values(said).drop_last() =~= before.map_values(said));
        assert(kept_attrs(attrs, inner) =~= kept_attrs(before, inner) + said(attrs.last()));
    } else {
        assert(attrs.map_values(said) =~= Seq::<Seq<char>>::empty());
    }
}

/// A handler with its arguments as given and a statement in front of its body.
pub open spec fn with_statement(func: HandlerFn, args: Seq<Seq<char>>, stmt: Seq<char>) -> Seq<char> {
    staying(func.attrs@, false) + func.head@ + "("@ + parted(args, ", "@) + ")"@ + func.tail@
        + " {\n"@ + staying(func.attrs@, true) + stmt + "\n"@ + func.body@ + "\n}\n"@
}

/// An argument as it is written, with the pattern given.
pub open spec fn arg_said(arg: TypedArg, pat: Seq<char>) -> Seq<char> {
    arg.attrs@ + pat + ": "@ + type_text(arg.ty, None)
}

/// A handler stays as it is written but for its discriminator and for one statement: its
/// accounts are updated before its body runs, through its context. A context without a
/// name gets one, and so do accounts that a pattern leaves without one.
pub proof fn lemma_handler_kept(func: HandlerFn)
    requires
        handler_text(func) is Ok,
    ensures
        ({
            let args = fn_arg_texts(func.inputs@);
            let text = handler_text(func)->Ok_0;
            if func.inputs@.len() == 0 || func.inputs@[0] is Receiver {
                text == with_statement(func, args, ""@)
            } else {
                let first = func.inputs@[0]->Typed_0;
                match first.pat {
                    Pat::Ident { ident, tokens } => text == with_statement(
                        func,
                        args.update(0, arg_said(first, tokens@)),
                        "anchor_lang::TryAccounts::update_accounts("@ + ("&mut "@ + ident.text@
                            + ".accounts"@) + ")?;"@,
                    ),
                    Pat::Wild { .. } => text == with_statement(
                        func,
                        args.update(0, arg_said(first, "__anchor_ctx"@)),
                        "anchor_lang::TryAccounts::update_accounts("@
                            + "&mut __anchor_ctx.accounts"@ + ")?;"@,
                    ),
                    Pat::Struct(pat) => forall|place: int|
                        {
                            &&& 0 <= place < pat.fields@.len()
                            &&& is_accounts(#[trigger] pat.fields@[place])
                            &&& forall|k: int|
                                0 <= k < place ==> !is_accounts(#[trigger] pat.fields@[k])
                            &&& pat.fields@[place].pat is Ident
                        } ==> text == with_statement(
                            func,
                            args.update(0, arg_said(first, pat_text(first.pat))),
                            "anchor_lang::TryAccounts::update_accounts("@
                                + pat.fields@[place].pat->Ident_ident.text@ + ")?;"@,
                        ),
                    Pat::Other { .. } => false,
                }
            }
        }),
{
    let args = fn_arg_texts(func.inputs@);
    lemma_staying(func.attrs@, false);
    lemma_staying(func.attrs@, true);
    lemma_joined_parted(args, ", "@);
    if func.inputs@.len() > 0 && func.inputs@[0] is Typed {
        let first = func.inputs@[0]->Typed_0;
        let update = update_phase(first.pat)->Ok_0;
        lemma_joined_parted(args.update(0, arg_said(first, update.pat)), ", "@);
        if let Pat::Struct(pat) = first.pat {
            assert forall|place: int|
                {
                    &&& 0 <= place < pat.fields@.len()
                    &&& is_accounts(#[trigger] pat.fields@[place])
                    &&& forall|k: int| 0 <= k < place ==> !is_accounts(#[trigger] pat.fields@[k])
                    &&& pat.fields@[place].pat is Ident
                } implies handler_text(func)->Ok_0 == with_statement(
                func,
                args.update(0, arg_said(first, pat_text(first.pat))),
                "anchor_lang::TryAccounts::update_accounts("@
                    + pat.fields@[place].pat->Ident_ident.text@ + ")?;"@,
            ) by {
                lemma_place_found(pat.fields@, place);
            }
        }
    }
}

/// A pattern for a context, with the given fields.
pub open spec fn pattern_said(
    head: Seq<char>,
    fields: Seq<Seq<char>>,
    trailing: bool,
    rest: Option<String>,
) -> Seq<char> {
    head + " { "@ + parted(fields, ", "@) + (if fields.len() > 0 && (trailing || rest is Some) {
        ", "@
    } else {
        " "@
    }) + (match rest {
        Some(dots) => dots@,
        None => ""@,
    }) + " }"@
}

/// A field of a pattern, with the pattern given for its value.
pub open spec fn field_said(field: FieldPat, pat: Seq<char>) -> Seq<char> {
    field.attrs@ + (if field.colon {
        field.member@ + ": "@
    } else {
        ""@
    }) + pat
}

/// Whether a field of a pattern binds the accounts.
pub open spec fn binds_accounts(field: FieldPat) -> bool {
    field.named && field.member@ == "accounts"@
}

/// A pattern for a context that does not bind its accounts gets a name for them: in the
/// place of an underscore, or behind its other fields.
pub proof fn lemma_accounts_named(func: HandlerFn, pat: PatStruct)
    requires
        handler_text(func) is Ok,
        func.inputs@.len() > 0,
        func.inputs@[0] is Typed,
        func.inputs@[0]->Typed_0.pat == Pat::Struct(pat),
    ensures
        ({
            let args = fn_arg_texts(func.inputs@);
            let first = func.inputs@[0]->Typed_0;
            let text = handler_text(func)->Ok_0;
            let fields = field_pat_texts(pat.fields@);
            let stmt = "anchor_lang::TryAccounts::update_accounts("@ + "__anchor_accounts"@
                + ")?;"@;
            &&& (forall|k: int|
                0 <= k < pat.fields@.len() ==> !binds_accounts(#[trigger] pat.fields@[k]))
                ==> text == with_statement(
                func,
                args.update(
                    0,
                    arg_said(
                        first,
                        pattern_said(
                            pat.head@,
                            fields.push("accounts: __anchor_accounts"@),
                            false,
                            pat.rest,
                        ),
                    ),
                ),
                stmt,
            )
            &&& forall|place: int|
                {
                    &&& 0 <= place < pat.fields@.len()
                    &&& binds_accounts(#[trigger] pat.fields@[place])
                    &&& forall|k: int|
                        0 <= k < place ==> !binds_accounts(#[trigger] pat.fields@[k])
                    &&& pat.fields@[place].pat is Wild
                } ==> text == with_statement(
                    func,
                    args.update(
                        0,
                        arg_said(
                            first,
                            pattern_said(
                                pat.head@,
                                fields.update(
                                    place,
                                    field_said(pat.fields@[place], "__anchor_accounts"@),
                                ),
                                pat.trailing,
                                pat.rest,
                            ),
                        ),
                    ),
                    stmt,
                )
        }),
{
    let args = fn_arg_texts(func.inputs@);
    let first = func.inputs@[0]->Typed_0;
    let fields = field_pat_texts(pat.fields@);
    let stmt = "anchor_lang::TryAccounts::update_accounts("@ + "__anchor_accounts"@ + ")?;"@;
    let update = update_phase(first.pat)->Ok_0;
    lemma_staying(func.attrs@, false);
    lemma_staying(func.attrs@, true);
    lemma_joined_parted(args.update(0, arg_said(first, update.pat)), ", "@);
    if forall|k: int| 0 <= k < pat.fields@.len() ==> !binds_accounts(#[trigger] pat.fields@[k]) {
        lemma_place_missing(pat.fields@);
        lemma_joined_parted(fields.push("accounts: __anchor_accounts"@), ", "@);
    }
    assert forall|place: int|
        {
            &&& 0 <= place < pat.fields@.len()
            &&& binds_accounts(#[trigger] pat.fields@[place])
            &&& forall|k: int| 0 <= k < place ==> !binds_accounts(#[trigger] pat.fields@[k])
            &&& pat.fields@[place].pat is Wild
        } implies handler_text(func)->Ok_0 == with_statement(
        func,
        args.update(
            0,
            arg_said(
                first,
                pattern_said(
                    pat.head@,
                    fields.update(place, field_said(pat.fields@[place], "__anchor_accounts"@)),
                    pat.trailing,
                    pat.rest,
                ),
            ),
        ),
        stmt,
    ) by {
        assert forall|k: int| 0 <= k < place implies !is_accounts(#[trigger] pat.fields@[k]) by {
            assert(!binds_accounts(pat.fields@[k]));
        }
        lemma_place_found(pat.fields@, place);
        lemma_joined_parted(
            fields.update(place, field_said(pat.fields@[place], "__anchor_accounts"@)),
            ", "@,
        );
    }
}

proof fn lemma_place_missing(fields: Seq<FieldPat>)
    requires
        forall|k: int| 0 <= k < fields.len() ==> !binds_accounts(#[trigger] fields[k]),
    ensures
        accounts_place(fields) == fields.len(),
    decreases fields.len(),
{
    if fields.len() > 0 {
        assert(!binds_accounts(fields[0]));
        assert forall|k: int| 0 <= k < fields.skip(1).len() implies !binds_accounts(
            #[trigger] fields.skip(1)[k],
        ) by {
            assert(fields.skip(1)[k] == fields[k + 1]);
        }
        lemma_place_missing(fields.skip(1));
    }
}

proof fn lemma_place_found(fields: Seq<FieldPat>, place: int)
    requires
        0 <= place < fields.len(),
        is_accounts(fields[place]),
        forall|k: int| 0 <= k < place ==> !is_accounts(#[trigger] fields[k]),
    ensures
        accounts_place(fields) == place,
    decreases fields.len(),
{
    if place > 0 {
        assert(!is_accounts(fields[0]));
        assert forall|k: int| 0 <= k < place - 1 implies !is_accounts(#[trigger] fields.skip(1)[k]) by {
            assert(fields.skip(1)[k] == fields[k + 1]);
        }
        lemma_place_found(fields.skip(1), place - 1);
    }
}

proof fn lemma_bodies(handlers: Seq<&HandlerFn>)
    requires
        failed(handler_texts(handlers)).len() == 0,
    ensures
        succeeded(handler_texts(handlers)) == each_of(
            handlers.map_values(|handler: &HandlerFn| *handler),
            |handler: HandlerFn| handler_text(handler)->Ok_0,
        ),
        forall|i: int| 0 <= i < handlers.len() ==> handler_text(*#[trigger] handlers[i]) is Ok,
    decreases handlers.len(),
{
    let own = |handler: &HandlerFn| *handler;
    let said = |handler: HandlerFn| handler_text(handler)->Ok_0;
    let list = handlers.map_values(own);
    lemma_each_of(list, said, said);
    if handlers.len() > 0 {
        let before = handlers.drop_last();
        assert(handler_texts(handlers).drop_last() =~= handler_texts(before));
        lemma_bodies(before);
        lemma_each_of(before.map_values(own), said, said);
        assert(list.map_values(said).drop_last() =~= before.map_values(own).map_values(said));
        assert(handler_texts(handlers).last() == handler_text(*handlers.last()));
        assert forall|i: int| 0 <= i < handlers.len() implies handler_text(
            *#[trigger] handlers[i],
        ) is Ok by {
            if i < before.len() {
                assert(before[i] == handlers[i]);
            }
        }
    } else {
        assert(list.map_values(said) =~= Seq::<Seq<char>>::empty());
        assert(handler_texts(handlers) =~= Seq::<Result<Seq<char>, FailureView>>::empty());
    }
}

// ---------------------------------------------------------------------------
// Sections
// ---------------------------------------------------------------------------

/// What is said of the first handler with each accounts struct.
pub open spec fn first_of_each(
    all: Seq<GeneratedView>,
    said: spec_fn(GeneratedView) -> Seq<char>,
) -> Seq<Seq<char>> {
    present(
        Seq::new(
            all.len(),
            |i: int|
                if exists|k: int|
                    0 <= k < i && (#[trigger] all[k]).code.accounts_type_name
                        == all[i].code.accounts_type_name {
                    None
                } else {
                    Some(said(all[i]))
                },
        ),
    )
}

/// What callers get: a struct for each instruction, the accounts structs, each once, and
/// a function for each instruction by which another program calls it.
pub open spec fn for_callers(all: Seq<GeneratedView>, interface: bool) -> Seq<char> {
    "/// Client-side instruction structs for off-chain use.\npub mod instruction {\n    extern crate alloc;\n    use super::*;\n    use anchor_lang::Discriminator as _;\n    "@ + each_of(all, |one: GeneratedView| one.code.instruction_struct + "\n"@) + "\n}\n\n/// Client-side accounts structs (re-exports) for off-chain use.\npub mod accounts {\n    "@ + (if interface { "pub use super::*;"@ } else { ""@ }) + "\n    "@ + lines(first_of_each(all, |one: GeneratedView| one.code.accounts_reexport)) + "\n}\n\n/// CPI module — gated on the `cpi` feature for normal programs and\n/// emitted unconditionally for interface modules.\n/// `accounts::*` re-exports the auto-generated CPI accounts structs\n/// (one per `#[derive(Accounts)]` Accounts struct, emitted as\n/// `__cpi_accounts_<lowercase>` at this same scope). The free\n/// functions wrap each instruction handler: pack args into the\n/// matching `instruction::<Camel>` struct, serialize, and dispatch\n/// through `CpiContext::invoke`.\n"@ + (if interface { ""@ } else { "#[cfg(feature = \"cpi\")]"@ }) + "\npub mod cpi {\n    extern crate alloc;\n    use super::*;\n    use anchor_lang::InstructionData as _;\n\n    pub struct Return<T> {\n        program: anchor_lang::Address,\n        phantom: core::marker::PhantomData<T>,\n    }\n\n    impl<T> Return<T>\n    where\n        T: for<'de> anchor_lang::wincode::SchemaRead<\n            'de,\n            anchor_lang::BorshConfig,\n            Dst = T,\n        >,\n    {\n        pub fn get(&self) -> T {\n            let __return_data =\n                anchor_lang::pinocchio::cpi::get_return_data().unwrap();\n            assert!(\n                anchor_lang::address_eq(__return_data.program_id(), &self.program),\n                \"return data program id mismatch\"\n            );\n            anchor_lang::wincode::config::deserialize(\n                __return_data.as_slice(),\n                anchor_lang::BORSH_CONFIG,\n            )\n                .unwrap()\n        }\n    }\n\n    pub mod accounts {\n        "@ + lines(first_of_each(all, |one: GeneratedView| one.code.cpi_accounts_reexport)) + "\n    }\n\n    "@ + each_of(all, |one: GeneratedView| one.code.cpi_wrapper + "\n"@) + "\n}"@
}

/// How an event that the program sends to itself is taken: only the event authority may
/// sign it.
pub open spec fn event_branch(event_authority: Option<Vec<u8>>) -> Seq<char> {
    "if __ix_data_len >= 8 {\n    let __event_disc: u64 = u64::from_le_bytes(\n        *(__ix_data_ptr as *const [u8; 8])\n    );\n    if __event_disc == anchor_lang::event::EVENT_IX_TAG {\n        if __num < 1 {\n            return anchor_lang::Error::from(\n                anchor_lang::ErrorCode::AccountNotEnoughKeys,\n            ).into();\n        }\n        let mut __cursor = anchor_lang::AccountCursor::new(__input, __lookup);\n        let __event_authority = __cursor.next();\n        if !__event_authority.is_signer() {\n            return anchor_lang::Error::from(\n                anchor_lang::ErrorCode::ConstraintSigner,\n            ).into();\n        }\n        "@ + (match event_authority {
        Some(bytes) => "const __EXPECTED_EVENT_AUTHORITY: anchor_lang::Address =\n    anchor_lang::Address::new_from_array(["@ + byte_literals(bytes@) + "]);\nif !anchor_lang::address_eq(\n    __event_authority.address(),\n    &__EXPECTED_EVENT_AUTHORITY,\n) {\n    return anchor_lang::Error::from(\n        anchor_lang::ErrorCode::ConstraintSeeds,\n    ).into();\n}"@,
        None => "let (__expected_event_authority, _) =\n    anchor_lang::find_program_address(\n        &[b\"__event_authority\"],\n        __program_id,\n    );\nif !anchor_lang::address_eq(\n    __event_authority.address(),\n    &__expected_event_authority,\n) {\n    return anchor_lang::Error::from(\n        anchor_lang::ErrorCode::ConstraintSeeds,\n    ).into();\n}"@,
    }) + "\n        return 0;\n    }\n}"@
}

/// A type that the interface description needs.
pub open spec fn type_in_idl(ty: Seq<char>) -> Seq<char> {
    "<"@ + ty + " as anchor_lang::IdlAccountType>::__register_idl_deps(\n    &mut accounts_entries,\n    &mut types_entries,\n);"@
}

/// The entry of an instruction in the interface description.
pub open spec fn listed_in_idl(one: GeneratedView) -> Seq<char> {
    one.cfg + "\ninstructions.push(\n    format!(\n        \"{{\\\"name\\\":\\\"{}\\\"{},\\\"discriminator\\\":{},\\\"accounts\\\":{},\\\"args\\\":{}{} }}\",\n        "@ + literal_of(one.code.idl_name) + ",\n        "@ + literal_of(one.code.idl_docs_json) + ",\n        "@ + literal_of(one.code.idl_disc) + ",\n        "@ + one.code.idl_accounts_type + "::__idl_accounts(),\n        "@ + one.code.idl_args + ",\n        "@ + one.code.idl_returns_json + ",\n    )\n);"@ + "\n"@
}

/// The accounts of an instruction in the interface description.
pub open spec fn accounts_in_idl(one: GeneratedView) -> Seq<char> {
    one.cfg + "\n"@ + one.code.idl_accounts_type + "::__idl_register_deps(\n    &mut accounts_entries,\n    &mut types_entries,\n);"@ + "\n"@
}

/// The types of the arguments of an instruction, and of what it returns, in the interface
/// description.
pub open spec fn types_in_idl(one: GeneratedView) -> Seq<char> {
    one.cfg + "\n{\n    "@ + each_of(one.code.arg_types, |ty: Seq<char>| type_in_idl(ty)) + "\n    "@ + (match one.code.return_type { Some(ty) => type_in_idl(ty), None => ""@ }) + "\n}"@ + "\n"@
}

proof fn lemma_present_more(list: Seq<Option<Seq<char>>>, last: Option<Seq<char>>)
    ensures
        lines(present(list.push(last))) == lines(present(list)) + (match last {
            Some(text) => text + seq!['\n'],
            None => Seq::empty(),
        }),
    decreases list.len(),
{
    let more = list.push(last);
    let end = match last {
        Some(text) => text + seq!['\n'],
        None => Seq::empty(),
    };
    if list.len() == 0 {
        assert(more.skip(1) =~= list);
        let none = Seq::<Seq<char>>::empty();
        assert(present(list) =~= none);
        if let Some(text) = last {
            assert(present(more) =~= seq![text]);
            assert(seq![text].skip(1) =~= none);
            assert(lines(seq![text]) == seq![text][0] + seq!['\n'] + lines(seq![text].skip(1)));
        }
        assert(lines(none) =~= Seq::<char>::empty());
        assert(lines(present(more)) =~= lines(present(list)) + end);
    } else {
        lemma_present_more(list.skip(1), last);
        assert(more.skip(1) =~= list.skip(1).push(last));
        let inner = present(list.skip(1));
        let outer = present(more.skip(1));
        if let Some(text) = list[0] {
            assert((seq![text] + inner).skip(1) =~= inner);
            assert((seq![text] + outer).skip(1) =~= outer);
        }
        assert(lines(present(more)) =~= lines(present(list)) + end);
    }
}

proof fn lemma_once(
    all: Seq<GeneratedView>,
    cpi: bool,
    n: int,
    said: spec_fn(GeneratedView) -> Seq<char>,
)
    requires
        0 <= n <= all.len(),
        forall|i: int|
            0 <= i < all.len() ==> said(#[trigger] all[i]) == (if cpi {
                all[i].code.cpi_accounts_reexport
            } else {
                all[i].code.accounts_reexport
            }),
    ensures
        once_per_accounts(all, cpi, n) == lines(first_of_each(all.take(n), said)),
    decreases n,
{
    reveal_strlit("\n");
    assert("\n"@ =~= seq!['\n']);
    let list = |all: Seq<GeneratedView>|
        Seq::new(
            all.len(),
            |i: int|
                if exists|k: int|
                    0 <= k < i && (#[trigger] all[k]).code.accounts_type_name
                        == all[i].code.accounts_type_name {
                    None
                } else {
                    Some(said(all[i]))
                },
        );
    if n > 0 {
        lemma_once(all, cpi, n - 1, said);
        let now = all.take(n);
        let before = all.take(n - 1);
        let last = list(now)[n - 1];
        lemma_present_more(list(before), last);
        assert forall|i: int| 0 <= i < n - 1 implies list(now)[i] == #[trigger] list(before)[i] by {
            assert(now[i] == before[i]);
            assert forall|k: int| 0 <= k < i implies (#[trigger] now[k]) == before[k] by {}
            assert forall|k: int| 0 <= k < i implies (#[trigger] before[k]) == now[k] by {}
        }
        assert(list(before).push(last) =~= list(now));
        assert(now[n - 1] == all[n - 1]);
        assert(accounts_seen(all, n - 1) <==> last is None) by {
            if accounts_seen(all, n - 1) {
                let k = choose|k: int|
                    0 <= k < n - 1 && (#[trigger] all[k]).code.accounts_type_name == all[n
                        - 1].code.accounts_type_name;
                assert(now[k] == all[k]);
            }
            if last is None {
                let k = choose|k: int|
                    0 <= k < n - 1 && (#[trigger] now[k]).code.accounts_type_name == now[n
                        - 1].code.accounts_type_name;
                assert(now[k] == all[k]);
            }
        }
    } else {
        assert(list(all.take(0)) =~= Seq::<Option<Seq<char>>>::empty());
    }
}

proof fn lemma_for_callers(all: Seq<GeneratedView>, mode: ProgramMode)
    ensures
        client_interface(all, mode) == for_callers(all, mode == ProgramMode::Interface),
{
    let interface = mode == ProgramMode::Interface;
    let structs = |one: GeneratedView| one.code.instruction_struct + "\n"@;
    lemma_each_of(all, |one: GeneratedView| section_instruction_struct(one), structs);
    let calls = |one: GeneratedView| one.code.cpi_wrapper + "\n"@;
    lemma_each_of(all, |one: GeneratedView| section_cpi_wrapper(one), calls);
    assert(all.take(all.len() as int) =~= all);
    let plain = |one: GeneratedView| one.code.accounts_reexport;
    let cpi = |one: GeneratedView| one.code.cpi_accounts_reexport;
    lemma_once(all, false, all.len() as int, plain);
    lemma_once(all, true, all.len() as int, cpi);
    lemma_client_interface_text(
        seq![
        each_of(all, |one: GeneratedView| one.code.instruction_struct + "\n"@),
        (if interface { "pub use super::*;"@ } else { ""@ }),
        lines(first_of_each(all, |one: GeneratedView| one.code.accounts_reexport)),
        (if interface { ""@ } else { "#[cfg(feature = \"cpi\")]"@ }),
        lines(first_of_each(all, |one: GeneratedView| one.code.cpi_accounts_reexport)),
        each_of(all, |one: GeneratedView| one.code.cpi_wrapper + "\n"@),
        ],
    );
}

proof fn lemma_event_branch(event_authority: Option<Vec<u8>>)
    ensures
        filled(EVENT_CPI_DISPATCH@, seq![authority_check(event_authority)]) == event_branch(
            event_authority,
        ),
{
    if let Some(bytes) = event_authority {
        lemma_known_authority_check_text(seq![byte_literals(bytes@)]);
    }
    lemma_event_cpi_dispatch_text(seq![authority_check(event_authority)]);
}

proof fn lemma_types_in_idl(one: GeneratedView)
    ensures
        idl_types(one) == types_in_idl(one),
{
    let types = one.code.arg_types;
    assert forall|i: int| 0 <= i < types.len() implies filled(IDL_TYPE@, seq![#[trigger] types[i]])
        == type_in_idl(types[i]) by {
        lemma_idl_type_text(seq![types[i]]);
    }
    lemma_each_of(
        types,
        |ty: Seq<char>| filled(IDL_TYPE@, seq![ty]),
        |ty: Seq<char>| type_in_idl(ty),
    );
    if let Some(ty) = one.code.return_type {
        lemma_idl_type_text(seq![ty]);
    }
    lemma_idl_types_text(
        seq![
            one.cfg,
            concat_all(types.map_values(|ty: Seq<char>| filled(IDL_TYPE@, seq![ty]))),
            return_register(one.code.return_type),
        ],
    );
}

proof fn lemma_idl_sections(all: Seq<GeneratedView>)
    ensures
        section(all, |one: GeneratedView| idl_entry(one)) == each_of(
            all,
            |one: GeneratedView| listed_in_idl(one),
        ),
        section(all, |one: GeneratedView| idl_accounts(one)) == each_of(
            all,
            |one: GeneratedView| accounts_in_idl(one),
        ),
        section(all, |one: GeneratedView| idl_types(one)) == each_of(
            all,
            |one: GeneratedView| types_in_idl(one),
        ),
{
    assert forall|i: int| 0 <= i < all.len() implies {
        let one = #[trigger] all[i];
        &&& idl_entry(one) == listed_in_idl(one)
        &&& idl_accounts(one) == accounts_in_idl(one)
        &&& idl_types(one) == types_in_idl(one)
    } by {
        let one = all[i];
        lemma_idl_entry_text(
            seq![
                one.cfg,
                literal_of(one.code.idl_name),
                literal_of(one.code.idl_docs_json),
                literal_of(one.code.idl_disc),
                one.code.idl_accounts_type,
                one.code.idl_args,
                one.code.idl_returns_json,
            ],
        );
        lemma_idl_accounts_text(seq![one.cfg, one.code.idl_accounts_type]);
        lemma_types_in_idl(one);
    }
    let entries = |one: GeneratedView| listed_in_idl(one);
    lemma_each_of(all, |one: GeneratedView| idl_entry(one), entries);
    let accounts = |one: GeneratedView| accounts_in_idl(one);
    lemma_each_of(all, |one: GeneratedView| idl_accounts(one), accounts);
    let types = |one: GeneratedView| types_in_idl(one);
    lemma_each_of(all, |one: GeneratedView| idl_types(one), types);
}

// ---------------------------------------------------------------------------
// The program
// ---------------------------------------------------------------------------

/// What the code for a program says. An interface keeps the module and gives what callers
/// get. A program that runs also checks that it is called under its own address, takes
/// events that it sends to itself, and then hands over to the first handler whose
/// discriminator the data begins with; where there is none it fails.
#[verifier::opaque]
pub open spec fn program_said(
    module: ProgramModule,
    interface: bool,
    others: Seq<char>,
    bodies: Seq<char>,
    all: Seq<GeneratedView>,
    event_authority: Option<Vec<u8>>,
) -> Seq<Seq<char>> {
    if interface {
        seq![module.vis@ + " mod "@ + module.ident.text@ + " {\n    "@ + others + "\n    "@ + bodies + "\n}\n\n"@ + for_callers(all, true)]
    } else {
        seq![
            module.vis@ + " mod "@ + module.ident.text@ + " {\n    "@ + others + "\n    "@ + bodies + "\n}\n\n#[cfg(not(feature = \"no-entrypoint\"))]\nanchor_lang::pinocchio::default_allocator!();\n#[cfg(not(feature = \"no-entrypoint\"))]\nanchor_lang::pinocchio::default_panic_handler!();\n\n/// Matches Solana's transaction-wide account cap (u8 index space).\n/// The lookup array holds `[AccountView; 256]` = ~2 KiB of frame\n/// used for duplicate-account resolution during cursor walks.\nconst __ANCHOR_MAX_ACCOUNTS: usize = 256;\n\n/// Core dispatch: program-id check, discriminator parse, account\n/// cursor setup, handler dispatch. Exported as the `entrypoint`\n/// symbol unless `no-entrypoint` is active. Custom entrypoints\n/// can call this directly via its Rust path.\n///\n/// The BPF loader passes:\n///   r1 = MM_INPUT_START (first byte of the serialized parameter region)\n///   r2 = VM address of the instruction data bytes (SIMD-0321)\n///\n/// The `[r2 - 8 .. r2]` slot holds the `u64` ix_data length and the\n/// 32 bytes at `[r2 + len .. +32]` hold the program_id, per agave's\n/// aligned serialization layout (see `solana-program-runtime\n/// ::serialization::serialize_parameters_aligned`).\n#[cfg_attr(\n    all(target_os = \"solana\", not(feature = \"no-entrypoint\")),\n    export_name = \"entrypoint\"\n)]\n#[cfg_attr(all(target_os = \"solana\", feature = \"no-entrypoint\"), no_mangle)]\npub unsafe extern \"C\" fn __anchor_dispatch(\n    __input: *mut u8,\n    __ix_data_ptr: *const u8,\n) -> u64 {\n    let mut __lookup: [::core::mem::MaybeUninit<anchor_lang::AccountView>;\n        __ANCHOR_MAX_ACCOUNTS] =\n        [const { ::core::mem::MaybeUninit::uninit() }; __ANCHOR_MAX_ACCOUNTS];\n\n    __anchor_dispatch_internal(\n        __input,\n        __ix_data_ptr,\n        __lookup.as_mut_ptr() as *mut anchor_lang::AccountView,\n    )\n}\n\n"@,
            "#[inline(never)]\nunsafe fn __anchor_dispatch_internal(\n    __input: *mut u8,\n    __ix_data_ptr: *const u8,\n    __lookup: *mut anchor_lang::AccountView,\n) -> u64 {\n    let __ix_data_len = *(__ix_data_ptr.sub(8) as *const u64) as usize;\n    let __program_id: &anchor_lang::Address =\n        &*(__ix_data_ptr.add(__ix_data_len) as *const anchor_lang::Address);\n\n    if let Err(__e) = anchor_lang::check_program_id(__program_id, &crate::ID) {\n        return __e.into();\n    }\n\n    let __num = *(__input as *const u64) as usize;\n    "@ + event_branch(event_authority) + "\n\n    let mut __cursor = anchor_lang::AccountCursor::new(__input, __lookup);\n\n    "@ + each_of(all, |one: GeneratedView| one.code.dispatch_arm + "\n"@) + "\n    anchor_lang::Error::from(\n        anchor_lang::ErrorCode::InstructionFallbackNotFound,\n    ).into()\n}\n\n"@,
            "mod __handlers {\n    use super::*;\n    use anchor_lang::TryAccounts as _;\n    "@ + each_of(all, |one: GeneratedView| one.code.wrapper + "\n"@) + "\n}\n\n"@,
            for_callers(all, false) + "\n\n"@,
            "#[cfg(all(test, feature = \"idl-build\"))]\nmod __anchor_private_idl {\n    use super::*;\n\n    #[test]\n    fn __anchor_private_print_idl_address() {\n        println!(\"--- IDL begin address ---\");\n        let addr = crate::ID;\n        println!(\"{}\", anchor_lang::Address::from(addr));\n        println!(\"--- IDL end address ---\");\n    }\n\n    #[test]\n    fn __anchor_private_print_idl_program() {\n        let mut instructions = Vec::new();\n        "@ + each_of(all, |one: GeneratedView| listed_in_idl(one)) + "\n\n"@,
            "        let mut accounts_entries: Vec<&'static str> = Vec::new();\n        let mut types_entries: Vec<&'static str> = Vec::new();\n        "@ + each_of(all, |one: GeneratedView| accounts_in_idl(one)) + "\n        "@ + each_of(all, |one: GeneratedView| types_in_idl(one)) + "\n        accounts_entries.sort();\n        accounts_entries.dedup();\n        types_entries.sort();\n        types_entries.dedup();\n\n"@,
            "        let crate_name = env!(\"CARGO_CRATE_NAME\").replace('-', \"_\");\n        let description = option_env!(\"CARGO_PKG_DESCRIPTION\")\n            .filter(|s| !s.is_empty());\n        let repository = option_env!(\"CARGO_PKG_REPOSITORY\")\n            .filter(|s| !s.is_empty());\n        let mut metadata_extras = anchor_lang::__alloc::string::String::new();\n        if let Some(d) = description {\n            let escaped = d.replace('\\\\', \"\\\\\\\\\").replace('\"', \"\\\\\\\"\");\n            metadata_extras.push_str(&anchor_lang::__alloc::format!(\n                \",\\\"description\\\":\\\"{}\\\"\",\n                escaped,\n            ));\n        }\n        if let Some(r) = repository {\n            let escaped = r.replace('\\\\', \"\\\\\\\\\").replace('\"', \"\\\\\\\"\");\n            metadata_extras.push_str(&anchor_lang::__alloc::format!(\n                \",\\\"repository\\\":\\\"{}\\\"\",\n                escaped,\n            ));\n        }\n        let idl = format!(\n            \"{{\\\"address\\\":\\\"\\\",\\\"metadata\\\":{{\\\"name\\\":\\\"{}\\\",\\\"version\\\":\\\"0.1.0\\\",\\\"spec\\\":\\\"0.1.0\\\"{}}},\\\"instructions\\\":[{}],\\\"accounts\\\":[{}],\\\"types\\\":[{}]}}\",\n            crate_name,\n            metadata_extras,\n            instructions.join(\",\"),\n            accounts_entries.join(\",\"),\n            types_entries.join(\",\"),\n        );\n        println!(\"--- IDL begin program ---\");\n        println!(\"{}\", idl);\n        println!(\"--- IDL end program ---\");\n    }\n}"@,
        ]
    }
}

spec fn executable_parts(
    module: ProgramModule,
    others: Seq<char>,
    bodies: Seq<char>,
    all: Seq<GeneratedView>,
    event_authority: Option<Vec<u8>>,
) -> Seq<Seq<char>> {
    seq![
        module.vis@,
        module.ident.text@,
        others,
        bodies,
        event_branch(event_authority),
        each_of(all, |one: GeneratedView| one.code.dispatch_arm + "\n"@),
        each_of(all, |one: GeneratedView| one.code.wrapper + "\n"@),
        for_callers(all, false),
        each_of(all, |one: GeneratedView| listed_in_idl(one)),
        each_of(all, |one: GeneratedView| accounts_in_idl(one)),
        each_of(all, |one: GeneratedView| types_in_idl(one)),
    ]
}

proof fn lemma_executable_said(
    module: ProgramModule,
    others: Seq<char>,
    bodies: Seq<char>,
    all: Seq<GeneratedView>,
    event_authority: Option<Vec<u8>>,
)
    ensures
        tells(
            filled(
                EXECUTABLE_PROGRAM@,
                executable_parts(module, others, bodies, all, event_authority),
            ),
            program_said(module, false, others, bodies, all, event_authority),
        ),
{
    reveal(program_said);
    let parts = executable_parts(module, others, bodies, all, event_authority);
    lemma_executable_told(parts);
    assert(program_said(module, false, others, bodies, all, event_authority) =~= seq![
            parts[0] + " mod "@ + parts[1] + " {\n    "@ + parts[2] + "\n    "@ + parts[3] + "\n}\n\n#[cfg(not(feature = \"no-entrypoint\"))]\nanchor_lang::pinocchio::default_allocator!();\n#[cfg(not(feature = \"no-entrypoint\"))]\nanchor_lang::pinocchio::default_panic_handler!();\n\n/// Matches Solana's transaction-wide account cap (u8 index space).\n/// The lookup array holds `[AccountView; 256]` = ~2 KiB of frame\n/// used for duplicate-account resolution during cursor walks.\nconst __ANCHOR_MAX_ACCOUNTS: usize = 256;\n\n/// Core dispatch: program-id check, discriminator parse, account\n/// cursor setup, handler dispatch. Exported as the `entrypoint`\n/// symbol unless `no-entrypoint` is active. Custom entrypoints\n/// can call this directly via its Rust path.\n///\n/// The BPF loader passes:\n///   r1 = MM_INPUT_START (first byte of the serialized parameter region)\n///   r2 = VM address of the instruction data bytes (SIMD-0321)\n///\n/// The `[r2 - 8 .. r2]` slot holds the `u64` ix_data length and the\n/// 32 bytes at `[r2 + len .. +32]` hold the program_id, per agave's\n/// aligned serialization layout (see `solana-program-runtime\n/// ::serialization::serialize_parameters_aligned`).\n#[cfg_attr(\n    all(target_os = \"solana\", not(feature = \"no-entrypoint\")),\n    export_name = \"entrypoint\"\n)]\n#[cfg_attr(all(target_os = \"solana\", feature = \"no-entrypoint\"), no_mangle)]\npub unsafe extern \"C\" fn __anchor_dispatch(\n    __input: *mut u8,\n    __ix_data_ptr: *const u8,\n) -> u64 {\n    let mut __lookup: [::core::mem::MaybeUninit<anchor_lang::AccountView>;\n        __ANCHOR_MAX_ACCOUNTS] =\n        [const { ::core::mem::MaybeUninit::uninit() }; __ANCHOR_MAX_ACCOUNTS];\n\n    __anchor_dispatch_internal(\n        __input,\n        __ix_data_ptr,\n        __lookup.as_mut_ptr() as *mut anchor_lang::AccountView,\n    )\n}\n\n"@,
            "#[inline(never)]\nunsafe fn __anchor_dispatch_internal(\n    __input: *mut u8,\n    __ix_data_ptr: *const u8,\n    __lookup: *mut anchor_lang::AccountView,\n) -> u64 {\n    let __ix_data_len = *(__ix_data_ptr.sub(8) as *const u64) as usize;\n    let __program_id: &anchor_lang::Address =\n        &*(__ix_data_ptr.add(__ix_data_len) as *const anchor_lang::Address);\n\n    if let Err(__e) = anchor_lang::check_program_id(__program_id, &crate::ID) {\n        return __e.into();\n    }\n\n    let __num = *(__input as *const u64) as usize;\n    "@ + parts[4] + "\n\n    let mut __cursor = anchor_lang::AccountCursor::new(__input, __lookup);\n\n    "@ + parts[5] + "\n    anchor_lang::Error::from(\n        anchor_lang::ErrorCode::InstructionFallbackNotFound,\n    ).into()\n}\n\n"@,
            "mod __handlers {\n    use super::*;\n    use anchor_lang::TryAccounts as _;\n    "@ + parts[6] + "\n}\n\n"@,
            parts[7] + "\n\n"@,
            "#[cfg(all(test, feature = \"idl-build\"))]\nmod __anchor_private_idl {\n    use super::*;\n\n    #[test]\n    fn __anchor_private_print_idl_address() {\n        println!(\"--- IDL begin address ---\");\n        let addr = crate::ID;\n        println!(\"{}\", anchor_lang::Address::from(addr));\n        println!(\"--- IDL end address ---\");\n    }\n\n    #[test]\n    fn __anchor_private_print_idl_program() {\n        let mut instructions = Vec::new();\n        "@ + parts[8] + "\n\n"@,
            "        let mut accounts_entries: Vec<&'static str> = Vec::new();\n        let mut types_entries: Vec<&'static str> = Vec::new();\n        "@ + parts[9] + "\n        "@ + parts[10] + "\n        accounts_entries.sort();\n        accounts_entries.dedup();\n        types_entries.sort();\n        types_entries.dedup();\n\n"@,
            "        let crate_name = env!(\"CARGO_CRATE_NAME\").replace('-', \"_\");\n        let description = option_env!(\"CARGO_PKG_DESCRIPTION\")\n            .filter(|s| !s.is_empty());\n        let repository = option_env!(\"CARGO_PKG_REPOSITORY\")\n            .filter(|s| !s.is_empty());\n        let mut metadata_extras = anchor_lang::__alloc::string::String::new();\n        if let Some(d) = description {\n            let escaped = d.replace('\\\\', \"\\\\\\\\\").replace('\"', \"\\\\\\\"\");\n            metadata_extras.push_str(&anchor_lang::__alloc::format!(\n                \",\\\"description\\\":\\\"{}\\\"\",\n                escaped,\n            ));\n        }\n        if let Some(r) = repository {\n            let escaped = r.replace('\\\\', \"\\\\\\\\\").replace('\"', \"\\\\\\\"\");\n            metadata_extras.push_str(&anchor_lang::__alloc::format!(\n                \",\\\"repository\\\":\\\"{}\\\"\",\n                escaped,\n            ));\n        }\n        let idl = format!(\n            \"{{\\\"address\\\":\\\"\\\",\\\"metadata\\\":{{\\\"name\\\":\\\"{}\\\",\\\"version\\\":\\\"0.1.0\\\",\\\"spec\\\":\\\"0.1.0\\\"{}}},\\\"instructions\\\":[{}],\\\"accounts\\\":[{}],\\\"types\\\":[{}]}}\",\n            crate_name,\n            metadata_extras,\n            instructions.join(\",\"),\n            accounts_entries.join(\",\"),\n            types_entries.join(\",\"),\n        );\n        println!(\"--- IDL begin program ---\");\n        println!(\"{}\", idl);\n        println!(\"--- IDL end program ---\");\n    }\n}"@,
    ]);
}

proof fn lemma_executable_parts(
    module: ProgramModule,
    others: Seq<char>,
    bodies: Seq<char>,
    all: Seq<GeneratedView>,
    event_authority: Option<Vec<u8>>,
)
    ensures
        seq![
            module.vis@,
            module.ident.text@,
            others,
            bodies,
            filled(EVENT_CPI_DISPATCH@, seq![authority_check(event_authority)]),
            section(all, |one: GeneratedView| section_dispatch_arm(one)),
            section(all, |one: GeneratedView| section_wrapper(one)),
            client_interface(all, ProgramMode::Executable),
            section(all, |one: GeneratedView| idl_entry(one)),
            section(all, |one: GeneratedView| idl_accounts(one)),
            section(all, |one: GeneratedView| idl_types(one)),
        ] == executable_parts(module, others, bodies, all, event_authority),
{
    lemma_event_branch(event_authority);
    lemma_for_callers(all, ProgramMode::Executable);
    lemma_idl_sections(all);
    let arms = |one: GeneratedView| one.code.dispatch_arm + "\n"@;
    lemma_each_of(all, |one: GeneratedView| section_dispatch_arm(one), arms);
    let wrappers = |one: GeneratedView| one.code.wrapper + "\n"@;
    lemma_each_of(all, |one: GeneratedView| section_wrapper(one), wrappers);
}

proof fn lemma_assembled(
    module: ProgramModule,
    config: ProgramConfig,
    all: Seq<GeneratedView>,
    event_authority: Option<Vec<u8>>,
)
    requires
        module.items is Some,
        failed(handler_texts(handlers_in(module.items->Some_0@))).len() == 0,
    ensures
        tells(
            assembled(module, config, all, event_authority),
            program_said(
                module,
                config.mode == ProgramMode::Interface,
                rest_of(module.items->Some_0@),
                each_of(
                    public_in(module.items->Some_0@),
                    |handler: HandlerFn| handler_text(handler)->Ok_0,
                ),
                all,
                event_authority,
            ),
        ),
{
    let items = module.items->Some_0@;
    let others = rest_of(items);
    let bodies = each_of(public_in(items), |handler: HandlerFn| handler_text(handler)->Ok_0);
    lemma_rest_of(items);
    lemma_public_in(items);
    lemma_bodies(handlers_in(items));
    assert(others_in(items) == others);
    assert(succeeded(handler_texts(handlers_in(items))) == bodies);
    if config.mode == ProgramMode::Interface {
        lemma_interface_said(module, others, bodies, all, event_authority);
    } else {
        lemma_executable_parts(module, others, bodies, all, event_authority);
        lemma_executable_said(module, others, bodies, all, event_authority);
    }
}

proof fn lemma_interface_said(
    module: ProgramModule,
    others: Seq<char>,
    bodies: Seq<char>,
    all: Seq<GeneratedView>,
    event_authority: Option<Vec<u8>>,
)
    ensures
        tells(
            filled(
                INTERFACE_PROGRAM@,
                seq![
                    module.vis@,
                    module.ident.text@,
                    others,
                    bodies,
                    client_interface(all, ProgramMode::Interface),
                ],
            ),
            program_said(module, true, others, bodies, all, event_authority),
        ),
{
    reveal(program_said);
    lemma_for_callers(all, ProgramMode::Interface);
    let parts = seq![module.vis@, module.ident.text@, others, bodies, for_callers(all, true)];
    lemma_interface_program_text(parts);
    lemma_tells_itself(filled(INTERFACE_PROGRAM@, parts));
    assert(seq![filled(INTERFACE_PROGRAM@, parts)] =~= program_said(
        module,
        true,
        others,
        bodies,
        all,
        event_authority,
    ));
}

/// What the code for a program says, of all its handlers in order: each is checked,
/// called, described and offered to callers by what is generated for it under its own
/// discriminator, and kept in the module by its own text.
pub proof fn lemma_program_written(
    module: ProgramModule,
    config: ProgramConfig,
    idl: Seq<HandlerIdl>,
    discs: Seq<Seq<char>>,
    event_authority: Option<Vec<u8>>,
)
    requires
        program_code(module, config, idl, discs, event_authority) is Ok,
    ensures
        ({
            let items = module.items->Some_0@;
            let handlers = public_in(items);
            let discrims = given_discrims(handlers_in(items))->Ok_0;
            let all = generated(
                handlers_in(items),
                module.ident.text@,
                discrims,
                config.program_id@,
                idl,
                discs,
            )->Ok_0;
            &&& module.items is Some
            &&& all.len() == handlers.len()
            &&& discrims.len() == handlers.len()
            &&& forall|i: int|
                0 <= i < handlers.len() ==> Ok::<Option<DiscrimView>, FailureView>(
                    #[trigger] discrims[i],
                ) == attr_discrim(handlers[i].attrs@)
            &&& forall|i: int|
                0 <= i < handlers.len() ==> {
                    let one = #[trigger] all[i];
                    let bytes = match discrims[i] {
                        Some(discrim) => Some(discrim.bytes),
                        None => None,
                    };
                    &&& one.cfg == conditions(handlers[i].attrs@)
                    &&& one.code.error is None
                    &&& Ok::<HandlerCodeView, FailureView>(one.code) == handler_code(
                        handlers[i],
                        module.ident.text@,
                        bytes,
                        config.program_id@,
                        idl[i],
                        discs[i],
                    )
                }
            &&& tells(
                program_code(module, config, idl, discs, event_authority)->Ok_0,
                program_said(
                    module,
                    config.mode == ProgramMode::Interface,
                    rest_of(items),
                    each_of(handlers, |handler: HandlerFn| handler_text(handler)->Ok_0),
                    all,
                    event_authority,
                ),
            )
        }),
{
    let items = module.items->Some_0@;
    let handlers = handlers_in(items);
    let discrims = given_discrims(handlers)->Ok_0;
    let mod_name = module.ident.text@;
    let program_id = config.program_id@;
    let all = generated(handlers, mod_name, discrims, program_id, idl, discs)->Ok_0;
    let results = Seq::new(
        handlers.len(),
        |i: int| generated_at(handlers, mod_name, discrims, program_id, idl, discs, i),
    );
    lemma_public_in(items);
    lemma_collected_len(results);
    let given = handlers.map_values(|handler: &HandlerFn| attr_discrim(handler.attrs@));
    lemma_collected_len(given);
    assert forall|i: int| 0 <= i < handlers.len() implies Ok::<Option<DiscrimView>, FailureView>(
        #[trigger] discrims[i],
    ) == attr_discrim(public_in(items)[i].attrs@) by {
        assert(given[i] == attr_discrim(handlers[i].attrs@));
        assert(handlers.map_values(|handler: &HandlerFn| *handler)[i] == *handlers[i]);
    }
    lemma_assembled(module, config, all, event_authority);
    assert(public_in(items).len() == handlers.len());
    assert forall|i: int| 0 <= i < handlers.len() implies {
        let one = #[trigger] all[i];
        let bytes = match discrims[i] {
            Some(discrim) => Some(discrim.bytes),
            None => None,
        };
        &&& one.cfg == conditions(public_in(items)[i].attrs@)
        &&& one.code.error is None
        &&& Ok::<HandlerCodeView, FailureView>(one.code) == handler_code(
            public_in(items)[i],
            mod_name,
            bytes,
            program_id,
            idl[i],
            discs[i],
        )
    } by {
        assert(results[i] == generated_at(handlers, mod_name, discrims, program_id, idl, discs, i));
        assert(handlers.map_values(|handler: &HandlerFn| *handler)[i] == *handlers[i]);
        lemma_conditions(handlers[i].attrs@);
        lemma_not_refused(all, i);
    }
}

proof fn lemma_not_refused(all: Seq<GeneratedView>, i: int)
    requires
        0 <= i < all.len(),
        refusals(all).len() == 0,
    ensures
        all[i].code.error is None,
    decreases all.len(),
{
    if i < all.len() - 1 {
        lemma_not_refused(all.drop_last(), i);
    }
}

} // verus!
