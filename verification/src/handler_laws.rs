//! What the code for a handler says.

use crate::args::{
    any_borrows, arg_fields, arg_names, args_reader, ix_type, ix_types, Argument, RAISE_READ_ERROR,
};
use crate::attrs::cfg_text;
use crate::handler::{
    accepted_code, byte_literal, byte_literals, cpi_return_type, discriminator_bytes, handler_args,
    handler_code, handler_refusal, ix_generic, le_word, pub_fields, return_data, value_text,
    HandlerIdl, HandlerParts, CPI_RETURN,
};
use crate::handler_fn::HandlerFn;
use crate::handler_texts::{
    lemma_accounts_reexport_text, lemma_args_reader_text, lemma_cpi_accounts_reexport_text,
    lemma_cpi_wrapper_told, lemma_dispatch_byte_text, lemma_dispatch_word_text,
    lemma_instruction_told, lemma_returns_json_text, lemma_wrapper_told,
    lemma_wrapper_with_args_told,
};
use crate::item_laws::{conditions, lemma_conditions};
use crate::names::{camel_case, item_name};
use crate::outside::literal_of;
use crate::passages::{each_of, lemma_each_of, lemma_joined_parted, parted, tells};
use crate::qualified_path::{handler_accounts, helper_module, leaf, returned};
use crate::syntax::{path_text, type_text, Type};
use crate::text::{decimal, joined, terminated};
use vstd::prelude::*;

verus! {

// ---------------------------------------------------------------------------
// Values and arguments
// ---------------------------------------------------------------------------

/// The type of what a handler gives back.
pub open spec fn given_back(value: Option<Type>) -> Seq<char> {
    match value {
        Some(ty) => type_text(ty, None),
        None => "()"@,
    }
}

/// What is done with the value of a handler: it is encoded and handed to the runtime.
/// Without a value nothing is.
pub open spec fn handed_over(value: Option<Type>) -> Seq<char> {
    match value {
        Some(_) => "let mut __return_data = anchor_lang::__alloc::vec::Vec::with_capacity(256);\nanchor_lang::wincode::config::serialize_into(\n    &mut __return_data,\n    &__result,\n    anchor_lang::BORSH_CONFIG,\n)\n    .expect(\"return data serialization failed\");\nanchor_lang::pinocchio::cpi::set_return_data(&__return_data);"@,
        None => ""@,
    }
}

/// The declaration of the lifetime that arguments borrow for.
pub open spec fn borrowed(args: Seq<Argument>, declared: Seq<char>) -> Seq<char> {
    if any_borrows(args) {
        declared
    } else {
        ""@
    }
}

/// The arguments as declarations of fields.
pub open spec fn declared(args: Seq<Argument>) -> Seq<char> {
    each_of(args, |arg: Argument| arg.name.text@ + ": "@ + ix_type(*arg.ty) + ", "@)
}

/// The names of the arguments, each with a comma behind it.
pub open spec fn named(args: Seq<Argument>) -> Seq<char> {
    each_of(args, |arg: Argument| arg.name.text@ + ", "@)
}

/// The names of the arguments, in the order in which they are handed over.
pub open spec fn handed(args: Seq<Argument>) -> Seq<char> {
    parted(args.map_values(|arg: Argument| arg.name.text@), ", "@)
}

/// The statements that read the arguments from the data, all at once and in order, and
/// bind each to its name. Data that cannot be read is an error.
pub open spec fn read_args(args: Seq<Argument>, holder: Seq<char>) -> Seq<char> {
    if args.len() == 0 {
        ""@
    } else {
        "#[derive(anchor_lang::AnchorDeserialize)]\nstruct "@ + holder + " "@ + borrowed(args, "<'ix>"@) + " { "@ + declared(args) + " }\nlet __args: "@ + holder + " "@ + borrowed(args, "<'_>"@) + " = "@ + "anchor_lang::wincode::config::deserialize(\n    __ix_data,\n    anchor_lang::BORSH_CONFIG,\n)\n    .map_err(|_| anchor_lang::ErrorCode::InstructionDidNotDeserialize)?"@ + ";\n"@ + each_of(
            args,
            |arg: Argument| "let "@ + arg.name.text@ + " = __args."@ + arg.name.text@ + "; "@,
        )
    }
}

/// What is said of arguments, in words.
pub proof fn lemma_args_said(args: Seq<Argument>, holder: Seq<char>)
    ensures
        arg_fields(args) == declared(args),
        terminated(arg_names(args), ", "@) == named(args),
        joined(arg_names(args), ", "@) == handed(args),
        pub_fields(args) == each_of(
            args,
            |arg: Argument| "pub "@ + arg.name.text@ + ": "@ + ix_type(*arg.ty) + ", "@,
        ),
        terminated(ix_types(args), ", "@) == each_of(
            args,
            |arg: Argument| ix_type(*arg.ty) + ", "@,
        ),
        args_reader(args, holder, false) == read_args(args, holder),
{
    let field = |arg: Argument| arg.name.text@ + ": "@ + ix_type(*arg.ty) + ", "@;
    lemma_each_of(args, field, field);
    let public = |arg: Argument| "pub "@ + arg.name.text@ + ": "@ + ix_type(*arg.ty) + ", "@;
    lemma_each_of(args, public, public);
    let bound = |arg: Argument| "let "@ + arg.name.text@ + " = __args."@ + arg.name.text@ + "; "@;
    lemma_each_of(args, bound, bound);
    let name = |arg: Argument| arg.name.text@ + ", "@;
    lemma_each_of(args, name, name);
    let ended = |part: Seq<char>| part + ", "@;
    assert(arg_names(args).map_values(ended) =~= args.map_values(name));
    let ty = |arg: Argument| ix_type(*arg.ty) + ", "@;
    lemma_each_of(args, ty, ty);
    assert(ix_types(args).map_values(ended) =~= args.map_values(ty));
    lemma_joined_parted(arg_names(args), ", "@);
    if args.len() > 0 {
        lemma_args_reader_text(
            seq![
                holder,
                if any_borrows(args) {
                    "<'ix>"@
                } else {
                    ""@
                },
                arg_fields(args),
                if any_borrows(args) {
                    "<'_>"@
                } else {
                    ""@
                },
                RAISE_READ_ERROR@,
            ],
        );
    }
}

/// The arguments that an accounts struct or a handler has are read as declared.
pub proof fn lemma_args_read(args: Seq<Argument>, holder: Seq<char>)
    ensures
        args_reader(args, holder, false) == read_args(args, holder),
{
    lemma_args_said(args, holder);
}

// ---------------------------------------------------------------------------
// Handlers
// ---------------------------------------------------------------------------

spec fn parts_of<'a>(
    handler: HandlerFn,
    mod_name: Seq<char>,
    discrim: Option<Seq<u8>>,
    program_id: Seq<char>,
) -> HandlerParts<'a> {
    HandlerParts {
        cfg: cfg_text(handler.attrs@),
        name: handler.ident.text@,
        module: mod_name,
        accounts: handler_accounts(handler.inputs@[0])->Ok_0,
        args: handler_args(handler),
        value: returned(handler.output)->Ok_0,
        discrim,
        program_id,
    }
}

/// The wrapper of a handler loads the accounts, reads the arguments where there are any,
/// hands them to the handler in order, and gives 0 or the error. Exactly where the handler
/// gives a value back, the wrapper encodes it and hands it to the runtime.
pub proof fn lemma_handler_called(
    handler: HandlerFn,
    mod_name: Seq<char>,
    discrim: Option<Seq<u8>>,
    program_id: Seq<char>,
    idl: HandlerIdl,
    disc: Seq<char>,
)
    requires
        handler_refusal(handler) is None,
        handler_code(handler, mod_name, discrim, program_id, idl, disc) is Ok,
    ensures
        ({
            let name = handler.ident.text@;
            let cfg = conditions(handler.attrs@);
            let accounts = handler_accounts(handler.inputs@[0])->Ok_0;
            let args = handler_args(handler);
            let value = returned(handler.output)->Ok_0;
            let log = literal_of("Instruction: "@ + name);
            let code = handler_code(handler, mod_name, discrim, program_id, idl, disc)->Ok_0;
            let types = "("@ + each_of(args, |arg: Argument| ix_type(*arg.ty) + ", "@) + ")"@;
            tells(
                code.wrapper,
                if args.len() == 0 {
                    seq![
                        cfg + "\n#[inline(always)]\npub fn "@ + name + "<'a>(\n    __program_id: &'a anchor_lang::Address,\n    __cursor: &'a mut anchor_lang::AccountCursor,\n    __ix_data: &'a [u8],\n    __num_accounts: usize,\n) -> u64 {\n    #[cfg(not(feature = \"no-log-ix-name\"))]\n    anchor_lang::msg!("@ + log + ");\n\n    #[inline(always)]\n    fn __anchor_assert_no_ix_args(_: ()) {}\n\n"@,
                        "    match anchor_lang::run_handler::<"@ + path_text(accounts) + ", "@ + given_back(value) + ">(\n        __program_id,\n        __cursor,\n        __ix_data,\n        __num_accounts,\n        |__ctx, __ix_args| {\n            __anchor_assert_no_ix_args(__ix_args);\n            "@ + mod_name + "::"@ + name + "(__ctx)\n        },\n    ) {\n        Ok(__result) => {\n            "@ + handed_over(value) + "\n            0\n        },\n        Err(__e) => __e.into(),\n    }\n}"@,
                    ]
                } else {
                    seq![
                        cfg + "\n#[inline(always)]\npub fn "@ + name + "<'a>(\n    __program_id: &'a anchor_lang::Address,\n    __cursor: &'a mut anchor_lang::AccountCursor,\n    __ix_data: &'a [u8],\n    __num_accounts: usize,\n) -> u64 {\n    #[cfg(not(feature = \"no-log-ix-name\"))]\n    anchor_lang::msg!("@ + log + ");\n\n"@,
                        "    trait __AnchorIxArgCoerce<'ix> {\n        fn __coerce(self, __ix_data: &'ix [u8]) -> anchor_lang::Result<"@ + types + ">;\n    }\n\n    impl<'ix, __AnchorIxArgs> __AnchorIxArgCoerce<'ix> for __AnchorIxArgs {\n        #[inline(always)]\n        fn __coerce(self, __ix_data: &'ix [u8]) -> anchor_lang::Result<"@ + types + "> {\n            let _ = self;\n            "@ + read_args(args, "__Args"@) + "\n            Ok(("@ + named(args) + "))\n        }\n    }\n\n"@,
                        "    match anchor_lang::run_handler::<"@ + path_text(accounts) + ", "@ + given_back(value) + ">(\n        __program_id,\n        __cursor,\n        __ix_data,\n        __num_accounts,\n        |__ctx, __ix_args| {\n            let ("@ + named(args) + ") =\n                <_ as __AnchorIxArgCoerce<'a>>::__coerce(__ix_args, __ix_data)?;\n            "@ + mod_name + "::"@ + name + "(__ctx, "@ + handed(args) + ")\n        },\n    ) {\n        Ok(__result) => {\n            "@ + handed_over(value) + "\n            0\n        },\n        Err(__e) => __e.into(),\n    }\n}"@,
                    ]
                },
            )
        }),
{
    let parts = parts_of(handler, mod_name, discrim, program_id);
    let args = handler_args(handler);
    let log = literal_of("Instruction: "@ + parts.name);
    lemma_conditions(handler.attrs@);
    lemma_args_said(args, "__Args"@);
    assert(handler_code(handler, mod_name, discrim, program_id, idl, disc) == accepted_code(
        parts,
        idl,
        disc,
    ));
    if args.len() == 0 {
        lemma_wrapper_told(
            seq![
                parts.cfg,
                parts.name,
                log,
                path_text(parts.accounts),
                value_text(parts.value),
                parts.module,
                return_data(parts.value),
            ],
        );
    } else {
        lemma_wrapper_with_args_told(
            seq![
                parts.cfg,
                parts.name,
                log,
                "("@ + terminated(ix_types(parts.args), ", "@) + ")"@,
                args_reader(parts.args, "__Args"@, false),
                terminated(arg_names(parts.args), ", "@),
                path_text(parts.accounts),
                value_text(parts.value),
                parts.module,
                joined(arg_names(parts.args), ", "@),
                return_data(parts.value),
            ],
        );
    }
}

/// Another program calls a handler with the data of its instruction, made of the
/// arguments in order; exactly where the handler gives a value back, the call gives what
/// the value is got by.
pub proof fn lemma_handler_called_across(
    handler: HandlerFn,
    mod_name: Seq<char>,
    discrim: Option<Seq<u8>>,
    program_id: Seq<char>,
    idl: HandlerIdl,
    disc: Seq<char>,
)
    requires
        handler_refusal(handler) is None,
        handler_code(handler, mod_name, discrim, program_id, idl, disc) is Ok,
    ensures
        ({
            let name = handler.ident.text@;
            let cfg = conditions(handler.attrs@);
            let accounts = handler_accounts(handler.inputs@[0])->Ok_0;
            let args = handler_args(handler);
            let value = returned(handler.output)->Ok_0;
            let log = literal_of("Instruction: "@ + name);
            let code = handler_code(handler, mod_name, discrim, program_id, idl, disc)->Ok_0;
            let struct_name = item_name(camel_case(name))->Ok_0;
            let given = match value {
                Some(ty) => "-> anchor_lang::Result<Return<"@ + type_text(ty, None) + ">>"@,
                None => "-> anchor_lang::Result<()>"@,
            };
            let result = match value {
                Some(_) => "Ok(Return {\n    program: *__ctx.program,\n    phantom: core::marker::PhantomData,\n})"@,
                None => "Ok(())"@,
            };
            tells(
                code.cpi_wrapper,
                seq![
                    cfg + "\npub fn "@ + name + " "@ + (if any_borrows(args) { "<'a, 'ix>"@ } else { "<'a>"@ }) + "(\n    __ctx: anchor_lang::CpiContext<'a, accounts::"@ + leaf(accounts).text@ + "<'a>>,\n    "@ + declared(args) + "\n) "@ + given + " {\n"@,
                    "    let __ix = super::instruction::"@ + struct_name + " {\n        "@ + named(args) + "\n    };\n    let __data = <\n        super::instruction::"@ + struct_name + " "@ + borrowed(args, "<'ix>"@) + "\n        as anchor_lang::InstructionData\n    >::data(&__ix);\n    __ctx.invoke(&__data)?;\n    "@ + result + "\n}"@,
                ],
            )
        }),
{
    let parts = parts_of(handler, mod_name, discrim, program_id);
    let args = handler_args(handler);
    let struct_name = item_name(camel_case(parts.name))->Ok_0;
    lemma_conditions(handler.attrs@);
    lemma_args_said(args, "__Args"@);
    assert(handler_code(handler, mod_name, discrim, program_id, idl, disc) == accepted_code(
        parts,
        idl,
        disc,
    ));
    lemma_cpi_wrapper_told(
        seq![
            parts.cfg,
            parts.name,
            if any_borrows(parts.args) {
                "<'a, 'ix>"@
            } else {
                "<'a>"@
            },
            leaf(parts.accounts).text@,
            arg_fields(parts.args),
            cpi_return_type(parts.value),
            struct_name,
            terminated(arg_names(parts.args), ", "@),
            ix_generic(parts.args),
            if parts.value is Some {
                CPI_RETURN@
            } else {
                "Ok(())"@
            },
        ],
    );
}

/// A client writes an instruction as its discriminator and then its arguments, which are
/// the fields of a struct in their order, and sends it to the program. The discriminator
/// is what the attribute gives, and the head of the digest of the name else; the
/// dispatcher compares with the same bytes.
pub proof fn lemma_instruction_written(
    handler: HandlerFn,
    mod_name: Seq<char>,
    discrim: Option<Seq<u8>>,
    program_id: Seq<char>,
    idl: HandlerIdl,
    disc: Seq<char>,
)
    requires
        handler_refusal(handler) is None,
        handler_code(handler, mod_name, discrim, program_id, idl, disc) is Ok,
    ensures
        ({
            let name = handler.ident.text@;
            let cfg = conditions(handler.attrs@);
            let accounts = handler_accounts(handler.inputs@[0])->Ok_0;
            let args = handler_args(handler);
            let value = returned(handler.output)->Ok_0;
            let log = literal_of("Instruction: "@ + name);
            let code = handler_code(handler, mod_name, discrim, program_id, idl, disc)->Ok_0;
            let struct_name = item_name(camel_case(name))->Ok_0;
            let generics = borrowed(args, "<'ix>"@);
            let fields = each_of(
                args,
                |arg: Argument| "pub "@ + arg.name.text@ + ": "@ + ix_type(*arg.ty) + ", "@,
            );
            let bytes = discriminator_bytes(name, discrim);
            &&& tells(
                code.instruction_struct,
                seq![
                    cfg + "\n#[derive(anchor_lang::AnchorSerialize)]\npub struct "@ + struct_name + " "@ + generics + " {\n    "@ + fields + "\n}\n"@ + cfg + "\nimpl "@ + generics + " anchor_lang::Discriminator for "@ + struct_name + " "@ + generics + " {\n    const DISCRIMINATOR: &'static [u8] = &["@ + byte_literals(bytes) + "];\n}\n"@,
                    cfg + "\nimpl "@ + generics + " anchor_lang::InstructionData for "@ + struct_name + " "@ + generics + " {\n    fn data(&self) -> alloc::vec::Vec<u8> {\n        let mut data = alloc::vec::Vec::with_capacity(256);\n        data.extend_from_slice(Self::DISCRIMINATOR);\n        anchor_lang::wincode::config::serialize_into(\n            &mut data,\n            self,\n            anchor_lang::BORSH_CONFIG,\n        )\n            .expect(\"instruction serialization failed\");\n        data\n    }\n}\n"@,
                    cfg + "\nimpl "@ + generics + " "@ + struct_name + " "@ + generics + " {\n    pub fn to_instruction(\n        self,\n        accounts: impl anchor_lang::ToAccountMetas,\n    ) -> anchor_lang::solana_program::instruction::Instruction {\n        anchor_lang::solana_program::instruction::Instruction::new_with_bytes(\n            "@ + program_id + ",\n            &<Self as anchor_lang::InstructionData>::data(&self),\n            accounts.to_account_metas(None),\n        )\n    }\n}"@,
                ],
            )
            &&& bytes.len() == 1 ==> code.dispatch_arm == cfg + "\nif __ix_data_len >= 1 && *__ix_data_ptr == "@ + (decimal(bytes[0] as nat) + "u8"@) + " {\n    let __ix_data: &[u8] =\n        ::core::slice::from_raw_parts(__ix_data_ptr.add(1), __ix_data_len - 1);\n    return __handlers::"@ + name + "(__program_id, &mut __cursor, __ix_data, __num);\n}"@
            &&& bytes.len() == 8 ==> code.dispatch_arm == cfg + "\nif __ix_data_len >= 8\n    && u64::from_le_bytes(*(__ix_data_ptr as *const [u8; 8])) == "@ + (decimal(le_word(bytes)) + "u64"@) + "\n{\n    let __ix_data: &[u8] =\n        ::core::slice::from_raw_parts(__ix_data_ptr.add(8), __ix_data_len - 8);\n    return __handlers::"@ + name + "(__program_id, &mut __cursor, __ix_data, __num);\n}"@
            &&& discrim matches Some(given) ==> bytes == given
        }),
{
    let parts = parts_of(handler, mod_name, discrim, program_id);
    let args = handler_args(handler);
    let struct_name = item_name(camel_case(parts.name))->Ok_0;
    let bytes = discriminator_bytes(parts.name, discrim);
    lemma_conditions(handler.attrs@);
    lemma_args_said(args, "__Args"@);
    assert(handler_code(handler, mod_name, discrim, program_id, idl, disc) == accepted_code(
        parts,
        idl,
        disc,
    ));
    lemma_instruction_told(
        seq![
            parts.cfg,
            struct_name,
            ix_generic(parts.args),
            pub_fields(parts.args),
            ix_generic(parts.args),
            byte_literals(bytes),
            parts.program_id,
        ],
    );
    lemma_dispatch_byte_text(seq![parts.cfg, byte_literal(bytes[0]), parts.name]);
    lemma_dispatch_word_text(seq![parts.cfg, decimal(le_word(bytes)) + "u64"@, parts.name]);
}

/// The accounts of a handler are exported from beside the struct that its context names,
/// and the interface description says of the handler what was made for it.
pub proof fn lemma_handler_described(
    handler: HandlerFn,
    mod_name: Seq<char>,
    discrim: Option<Seq<u8>>,
    program_id: Seq<char>,
    idl: HandlerIdl,
    disc: Seq<char>,
)
    requires
        handler_refusal(handler) is None,
        handler_code(handler, mod_name, discrim, program_id, idl, disc) is Ok,
    ensures
        ({
            let name = handler.ident.text@;
            let cfg = conditions(handler.attrs@);
            let accounts = handler_accounts(handler.inputs@[0])->Ok_0;
            let args = handler_args(handler);
            let value = returned(handler.output)->Ok_0;
            let log = literal_of("Instruction: "@ + name);
            let code = handler_code(handler, mod_name, discrim, program_id, idl, disc)->Ok_0;
            let own = leaf(accounts).text@;
            let client = helper_module(accounts, "__client_accounts_"@, 1)->Ok_0;
            let cpi = helper_module(accounts, "__cpi_accounts_"@, 2)->Ok_0;
            let resolved = item_name(own + "Resolved"@)->Ok_0;
            &&& code.error is None
            &&& code.accounts_reexport == "pub use "@ + client + "::"@ + own + ";\npub use "@ + client + "::"@ + resolved + ";"@
            &&& code.cpi_accounts_reexport == "pub use "@ + cpi + "::"@ + own + ";"@
            &&& code.accounts_type_name == path_text(accounts)
            &&& code.idl_accounts_type == path_text(accounts)
            &&& code.idl_name == name
            &&& code.idl_disc == disc
            &&& code.idl_args == idl.args@
            &&& code.idl_docs_json == (match idl.docs {
                Some(docs) => ",\"docs\":"@ + docs@,
                None => ""@,
            })
            &&& code.idl_returns_json == (match value {
                Some(_) => "{\n    let mut __s = anchor_lang::__alloc::string::String::from(\",\\\"returns\\\":\");\n    __s.push_str("@ + idl.returns@ + ");\n    __s\n}"@,
                None => "\"\""@,
            })
            &&& code.arg_types == args.map_values(|arg: Argument| type_text(*arg.ty, None))
            &&& code.return_type == (match value {
                Some(ty) => Some(type_text(ty, None)),
                None => None,
            })
        }),
{
    let parts = parts_of(handler, mod_name, discrim, program_id);
    assert(handler_code(handler, mod_name, discrim, program_id, idl, disc) == accepted_code(
        parts,
        idl,
        disc,
    ));
    let own = leaf(parts.accounts).text@;
    lemma_accounts_reexport_text(
        seq![
            helper_module(parts.accounts, "__client_accounts_"@, 1)->Ok_0,
            own,
            item_name(own + "Resolved"@)->Ok_0,
        ],
    );
    lemma_cpi_accounts_reexport_text(
        seq![helper_module(parts.accounts, "__cpi_accounts_"@, 2)->Ok_0, own],
    );
    lemma_returns_json_text(seq![idl.returns@]);
}

} // verus!
