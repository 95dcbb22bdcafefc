//! Macros that wrap what they are given: schema derives, events that are emitted,
//! and accounts structs that emit events.

use crate::event_texts::{lemma_emit_cpi_text, lemma_emit_text, lemma_wincode_schema_text};
use crate::failure::{code_view, diagnostic, new_diagnostic, Failure, FailureView};
use crate::syntax::Ident;
use crate::template::{fill1, fill2, fill5, filled};
use crate::text::{terminate_strings, terminated, texts};
use vstd::prelude::*;

verus! {

/// An item that a schema is derived for, and that is then erased.
pub const WINCODE_SCHEMA: &'static str = r#"#[derive(@a)]
#[wincode(crate = "anchor_lang::wincode")]
#[anchor_lang::__erase]
@b"#;

/// Derives a schema for an item.
pub fn derive_wincode_schema(input: &str, schema_derive: &str) -> (out: String)
    ensures
        out@ == filled(WINCODE_SCHEMA@, seq![schema_derive@, input@]),
        out@ == "#[derive("@ + schema_derive@ + ")]\n#[wincode(crate = \"anchor_lang::wincode\")]\n#[anchor_lang::__erase]\n"@ + input@,
{
    proof {
        lemma_wincode_schema_text(seq![schema_derive@, input@]);
    }
    fill2(WINCODE_SCHEMA, schema_derive, input)
}

/// Derives `AnchorSerialize` for an item.
pub fn anchor_serialize(input: &str) -> (out: String)
    ensures
        out@ == filled(WINCODE_SCHEMA@, seq!["anchor_lang::wincode::SchemaWrite"@, input@]),
        out@ == "#[derive("@ + "anchor_lang::wincode::SchemaWrite"@ + ")]\n#[wincode(crate = \"anchor_lang::wincode\")]\n#[anchor_lang::__erase]\n"@ + input@,
{
    proof {
        lemma_wincode_schema_text(seq!["anchor_lang::wincode::SchemaWrite"@, input@]);
    }
    derive_wincode_schema(input, "anchor_lang::wincode::SchemaWrite")
}

/// Derives `AnchorDeserialize` for an item.
pub fn anchor_deserialize(input: &str) -> (out: String)
    ensures
        out@ == filled(WINCODE_SCHEMA@, seq!["anchor_lang::wincode::SchemaRead"@, input@]),
        out@ == "#[derive("@ + "anchor_lang::wincode::SchemaRead"@ + ")]\n#[wincode(crate = \"anchor_lang::wincode\")]\n#[anchor_lang::__erase]\n"@ + input@,
{
    proof {
        lemma_wincode_schema_text(seq!["anchor_lang::wincode::SchemaRead"@, input@]);
    }
    derive_wincode_schema(input, "anchor_lang::wincode::SchemaRead")
}

/// Erases an item.
pub fn __erase(_attr: &str, _item: &str) -> (out: String)
    ensures
        out@ == ""@,
{
    "".to_owned()
}

/// Logs an event.
pub const EMIT: &'static str = r#"{
    anchor_lang::sol_log_data(&[&anchor_lang::Event::data(&@a)]);
}"#;

/// Sends an event to the program itself.
pub const EMIT_CPI: &'static str = r#"{
    struct __AnchorEventCpiAccounts<'a> {
        event_authority: anchor_lang::CpiHandle<'a>,
    }

    impl<'a> anchor_lang::ToCpiAccounts<'a> for __AnchorEventCpiAccounts<'a> {
        fn to_instruction_accounts(
            &self,
        ) -> anchor_lang::__alloc::vec::Vec<
            anchor_lang::pinocchio::instruction::InstructionAccount<'a>
        > {
            let mut __accounts = anchor_lang::__alloc::vec::Vec::with_capacity(1);
            __accounts.push(
                anchor_lang::pinocchio::instruction::InstructionAccount::readonly_signer(
                    self.event_authority.address(),
                ),
            );
            __accounts
        }

        fn to_cpi_handles(
            &self,
        ) -> anchor_lang::__alloc::vec::Vec<anchor_lang::CpiHandle<'a>> {
            let mut __handles = anchor_lang::__alloc::vec::Vec::with_capacity(1);
            __handles.push(self.event_authority);
            __handles
        }

        fn optional_account_sentinel_flags(
            &self,
        ) -> anchor_lang::__alloc::vec::Vec<bool> {
            let mut __flags = anchor_lang::__alloc::vec::Vec::with_capacity(1);
            __flags.push(false);
            __flags
        }
    }

    let __event_authority =
        anchor_lang::AnchorAccount::cpi_handle(&ctx.accounts.event_authority);
    let __event_data = anchor_lang::Event::data(&@a);
    let mut __ix_data = anchor_lang::__alloc::vec::Vec::with_capacity(
        anchor_lang::event::EVENT_IX_TAG_LE.len() + __event_data.len(),
    );
    __ix_data.extend_from_slice(anchor_lang::event::EVENT_IX_TAG_LE);
    __ix_data.extend_from_slice(&__event_data);

    let __event_authority_bump = [ctx.bumps.event_authority];
    let __event_authority_seeds: &[&[u8]] =
        &[b"__event_authority", __event_authority_bump.as_ref()];
    let __event_authority_signers: &[&[&[u8]]] = &[__event_authority_seeds];
    anchor_lang::CpiContext::new_with_signer(
        ctx.program_id,
        __AnchorEventCpiAccounts { event_authority: __event_authority },
        __event_authority_signers,
    ).invoke(&__ix_data)?;
}"#;

/// An accounts struct with the accounts that sending an event needs.
pub const EVENT_CPI_STRUCT: &'static str = r#"@a
@b @c @d {
    @e

    /// CHECK: Only the event authority can invoke self-CPI
    #[account(seeds = [b"__event_authority"], bump)]
    pub event_authority: anchor_lang::accounts::UncheckedAccount,
    /// CHECK: Kept for v1-compatible account ordering and IDL shape
    pub program: anchor_lang::accounts::UncheckedAccount,
}"#;

/// Writes the code that logs an event.
pub fn emit(data: &str) -> (out: String)
    ensures
        out@ == filled(EMIT@, seq![data@]),
        out@ == "{\n    anchor_lang::sol_log_data(&[&anchor_lang::Event::data(&"@ + data@ + ")]);\n}"@,
{
    proof {
        lemma_emit_text(seq![data@]);
    }
    fill1(EMIT, data)
}

/// Writes the code that sends an event to the program itself.
pub fn emit_cpi(event_struct: &str) -> (out: String)
    ensures
        out@ == filled(EMIT_CPI@, seq![event_struct@]),
        out@ == "{\n    struct __AnchorEventCpiAccounts<'a> {\n        event_authority: anchor_lang::CpiHandle<'a>,\n    }\n\n    impl<'a> anchor_lang::ToCpiAccounts<'a> for __AnchorEventCpiAccounts<'a> {\n        fn to_instruction_accounts(\n            &self,\n        ) -> anchor_lang::__alloc::vec::Vec<\n            anchor_lang::pinocchio::instruction::InstructionAccount<'a>\n        > {\n            let mut __accounts = anchor_lang::__alloc::vec::Vec::with_capacity(1);\n            __accounts.push(\n                anchor_lang::pinocchio::instruction::InstructionAccount::readonly_signer(\n                    self.event_authority.address(),\n                ),\n            );\n            __accounts\n        }\n\n        fn to_cpi_handles(\n            &self,\n        ) -> anchor_lang::__alloc::vec::Vec<anchor_lang::CpiHandle<'a>> {\n            let mut __handles = anchor_lang::__alloc::vec::Vec::with_capacity(1);\n            __handles.push(self.event_authority);\n            __handles\n        }\n\n        fn optional_account_sentinel_flags(\n            &self,\n        ) -> anchor_lang::__alloc::vec::Vec<bool> {\n            let mut __flags = anchor_lang::__alloc::vec::Vec::with_capacity(1);\n            __flags.push(false);\n            __flags\n        }\n    }\n\n    let __event_authority =\n        anchor_lang::AnchorAccount::cpi_handle(&ctx.accounts.event_authority);\n    let __event_data = anchor_lang::Event::data(&"@ + event_struct@ + ");\n    let mut __ix_data = anchor_lang::__alloc::vec::Vec::with_capacity(\n        anchor_lang::event::EVENT_IX_TAG_LE.len() + __event_data.len(),\n    );\n    __ix_data.extend_from_slice(anchor_lang::event::EVENT_IX_TAG_LE);\n    __ix_data.extend_from_slice(&__event_data);\n\n    let __event_authority_bump = [ctx.bumps.event_authority];\n    let __event_authority_seeds: &[&[u8]] =\n        &[b\"__event_authority\", __event_authority_bump.as_ref()];\n    let __event_authority_signers: &[&[&[u8]]] = &[__event_authority_seeds];\n    anchor_lang::CpiContext::new_with_signer(\n        ctx.program_id,\n        __AnchorEventCpiAccounts { event_authority: __event_authority },\n        __event_authority_signers,\n    ).invoke(&__ix_data)?;\n}"@,
{
    proof {
        lemma_emit_cpi_text(seq![event_struct@]);
    }
    fill1(EMIT_CPI, event_struct)
}

/// An accounts struct that gets the accounts that sending an event needs. All but the
/// name is given as text, each field without the comma behind it; `named` says whether
/// its fields have names, and `semicolon` whether it ends in a semicolon.
pub struct EventCpiStruct {
    pub attrs: String,
    pub vis: String,
    pub ident: Ident,
    pub generics: String,
    pub fields: Vec<String>,
    pub named: bool,
    pub semicolon: bool,
}

/// Why a struct without named fields is refused.
pub const NAMED_ONLY: &'static str =
    "`#[event_cpi]` only supports accounts structs with named fields";

/// What the `event_cpi` macro gives: the struct with a comma behind each of its fields
/// and the added ones behind them.
pub open spec fn event_cpi_code(item: EventCpiStruct) -> Result<Seq<char>, FailureView> {
    if item.semicolon || !item.named {
        Err(diagnostic(item.ident.span, NAMED_ONLY@))
    } else {
        Ok(
            filled(
                EVENT_CPI_STRUCT@,
                seq![
                    item.attrs@,
                    item.vis@ + " struct"@,
                    item.ident.text@,
                    item.generics@,
                    terminated(texts(item.fields@), ",\n"@),
                ],
            ),
        )
    }
}

/// Expands the `event_cpi` macro.
pub fn event_cpi(item: &EventCpiStruct) -> (out: Result<String, Failure>)
    ensures
        code_view(out) == event_cpi_code(*item),
{
    if item.semicolon || !item.named {
        return Err(new_diagnostic(item.ident.span, NAMED_ONLY.to_owned()));
    }
    Ok(
        fill5(
            EVENT_CPI_STRUCT,
            item.attrs.as_str(),
            item.vis.clone().concat(" struct").as_str(),
            item.ident.text.as_str(),
            item.generics.as_str(),
            terminate_strings(&item.fields, ",\n").as_str(),
        ),
    )
}

} // verus!
