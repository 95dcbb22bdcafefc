//! The `account` macro.

use crate::attrs::{attrs_text, cfg_attrs, cfg_text, print_attrs, Token};
use crate::discriminator::{hashed, hashed_discriminator};
use crate::failure::{diagnostic, new_diagnostic, Failure, FailureView};
use crate::handler::{byte_literals, print_byte_literals};
use crate::items::{all_named, field_name, well_named, Data, DeriveInput, Field, Fields};
use crate::modes::{account_words, mode_of, parse_account_mode};
use crate::outside::{literal_of, string_literal};
use crate::pod_fields::{
    account_field_message, cfg_field_dep_walkers, dep_walkers, diagnose_non_pod_field, fields_of,
    list_fields, list_named_fields, named_fields_of, pod_asserts, print_pod_asserts,
    print_size_steps, size_steps,
};
use crate::syntax::type_span;
use crate::template::{fill1, fill11, fill3, filled};
use crate::text::option_text;
use crate::wincode::{
    field_failures, gated_view, wincode_idl_override_tokens_for_fields, GatedFailure,
    GatedFailureView,
};
use vstd::prelude::*;

verus! {

/// How a serialized account is read.
pub const BORSH_DESERIALIZE: &'static str = r#"impl anchor_lang::AccountDeserialize for @a {
    fn try_deserialize(
        buf: &mut &[u8],
    ) -> ::core::result::Result<Self, anchor_lang::Error> {
        use anchor_lang::Discriminator as _;
        if buf.len() < <Self as anchor_lang::Discriminator>::DISCRIMINATOR.len() {
            return Err(anchor_lang::Error::AccountDataTooSmall);
        }
        let disc = &buf[..<Self as anchor_lang::Discriminator>::DISCRIMINATOR.len()];
        if disc != <Self as anchor_lang::Discriminator>::DISCRIMINATOR {
            return Err(anchor_lang::Error::InvalidAccountData);
        }
        Self::try_deserialize_unchecked(buf)
    }
    fn try_deserialize_unchecked(
        buf: &mut &[u8],
    ) -> ::core::result::Result<Self, anchor_lang::Error> {
        use anchor_lang::Discriminator as _;
        let disc_len = <Self as anchor_lang::Discriminator>::DISCRIMINATOR.len();
        if buf.len() < disc_len {
            return Err(anchor_lang::Error::AccountDataTooSmall);
        }
        let original = *buf;
        let mut data = &original[disc_len..];
        let value = <Self as anchor_lang::wincode::SchemaRead<
            '_,
            anchor_lang::BorshConfig,
        >>::get(&mut data)
            .map_err(|_| anchor_lang::Error::InvalidAccountData)?;
        *buf = data;
        Ok(value)
    }
}"#;

/// How an account that is copied byte by byte is read.
pub const POD_DESERIALIZE: &'static str = r#"impl anchor_lang::AccountDeserialize for @a {
    fn try_deserialize(
        buf: &mut &[u8],
    ) -> ::core::result::Result<Self, anchor_lang::Error> {
        use anchor_lang::Discriminator as _;
        if buf.len() < <Self as anchor_lang::Discriminator>::DISCRIMINATOR.len() {
            return Err(anchor_lang::Error::AccountDataTooSmall);
        }
        let disc = &buf[..<Self as anchor_lang::Discriminator>::DISCRIMINATOR.len()];
        if disc != <Self as anchor_lang::Discriminator>::DISCRIMINATOR {
            return Err(anchor_lang::Error::InvalidAccountData);
        }
        Self::try_deserialize_unchecked(buf)
    }
    fn try_deserialize_unchecked(
        buf: &mut &[u8],
    ) -> ::core::result::Result<Self, anchor_lang::Error> {
        use anchor_lang::Discriminator as _;
        let disc_len = <Self as anchor_lang::Discriminator>::DISCRIMINATOR.len();
        if buf.len() < disc_len {
            return Err(anchor_lang::Error::AccountDataTooSmall);
        }
        let original = *buf;
        let data = &original[disc_len..];
        let n = ::core::mem::size_of::<Self>();
        if data.len() < n {
            return Err(anchor_lang::Error::AccountDataTooSmall);
        }
        let value: Self = anchor_lang::bytemuck::pod_read_unaligned(&data[..n]);
        *buf = &data[n..];
        Ok(value)
    }
}"#;

/// The checks and implementations of an account that is copied byte by byte.
pub const POD_IMPLS: &'static str = r#"@a
const _: () = {
    let mut __size = 0usize;
    @b
    assert!(
        core::mem::size_of::<@c>() == __size,
        "account struct has padding bytes — reorder fields from largest to smallest alignment to eliminate padding (e.g. u64 before u32 before u8)"
    );
};
unsafe impl anchor_lang::bytemuck::Pod for @c {}
unsafe impl anchor_lang::bytemuck::Zeroable for @c {}"#;

/// An account.
pub const ACCOUNT: &'static str = r#"@a
@b
@c struct @d @e

@f

impl anchor_lang::Owner for @d {
    const OWNER: anchor_lang::Address = crate::ID;
}
impl anchor_lang::Discriminator for @d {
    const DISCRIMINATOR: &'static [u8] = &[@g];
}
@h
#[cfg(feature = "idl-build")]
#[doc(hidden)]
impl anchor_lang::IdlAccountType for @d {
    const __IDL_ACCOUNT_ENTRY: Option<&'static str> = @i;
    fn __idl_type_def() -> Option<&'static str> {
        @j
    }
    fn __register_idl_deps(
        accounts: &mut ::anchor_lang::__alloc::vec::Vec<&'static str>,
        types: &mut ::anchor_lang::__alloc::vec::Vec<&'static str>,
    ) {
        if let Some(a) = <Self as anchor_lang::IdlAccountType>::__idl_account_entry() {
            accounts.push(a);
        }
        if let Some(t) = <Self as anchor_lang::IdlAccountType>::__idl_type_def() {
            types.push(t);
        }
        @k
    }
}"#;

/// Generated code, and the failures that are reported beside it.
pub struct Expansion {
    pub code: String,
    pub gated: Vec<GatedFailure>,
}

/// Generated code and failures, as sequences.
pub struct ExpansionView {
    pub code: Seq<char>,
    pub gated: Seq<GatedFailureView>,
}

/// Generated code and failures or the failure, as sequences.
pub open spec fn expansion_view(expansion: Result<Expansion, Failure>) -> Result<
    ExpansionView,
    FailureView,
> {
    match expansion {
        Ok(expansion) => Ok(
            ExpansionView { code: expansion.code@, gated: gated_view(expansion.gated@) },
        ),
        Err(failure) => Err(failure@),
    }
}

/// What the interface description says of an account besides its entry among the
/// accounts: whether its layout can be described, and an expression for its type.
pub struct AccountIdl {
    pub repr: Result<(), Failure>,
    pub type_def: String,
}

/// Whether a function that makes entries can be called on any name and any bytes.
pub open spec fn enters_any<E: Fn(&String, &Vec<u8>) -> Option<String>>(entry: E) -> bool {
    forall|name: &String, bytes: &Vec<u8>| #[trigger] call_requires(entry, (name, bytes))
}

/// Whether a text is the entry that the function may make for an account of the given
/// name with the given discriminator.
pub open spec fn may_enter<E: Fn(&String, &Vec<u8>) -> Option<String>>(
    entry: E,
    name: Seq<char>,
    bytes: Seq<u8>,
    text: Option<Seq<char>>,
) -> bool {
    exists|own: &String, list: &Vec<u8>, out: Option<String>|
        own@ == name && list@ == bytes && option_text(out) == text && #[trigger] call_ensures(
            entry,
            (own, list),
            out,
        )
}

/// The entry of an account as an expression.
pub open spec fn entry_text(entry: Option<Seq<char>>) -> Seq<char> {
    match entry {
        Some(text) => "Some("@ + literal_of(text) + ")"@,
        None => "None"@,
    }
}

/// The failures of the fields that cannot be copied byte by byte.
pub open spec fn pod_failures(fields: Seq<Field>, name: Seq<char>) -> Seq<GatedFailureView>
    decreases fields.len(),
{
    if fields.len() == 0 {
        Seq::empty()
    } else {
        let field = fields.last();
        let before = pod_failures(fields.drop_last(), name);
        match account_field_message(field.ty, field_name(field), name) {
            Some(message) => before.push(
                GatedFailureView {
                    cfg: cfg_text(field.attrs@),
                    failure: diagnostic(type_span(field.ty), message),
                },
            ),
            None => before,
        }
    }
}

/// The code for an account, in the given mode, with its entry.
pub open spec fn account_code(
    input: DeriveInput,
    fields: Fields,
    is_borsh: bool,
    idl: AccountIdl,
    entry: Option<Seq<char>>,
) -> ExpansionView {
    let name = input.ident.text@;
    let named = named_fields_of(fields);
    ExpansionView {
        code: filled(
            ACCOUNT@,
            seq![
                attrs_text(input.attrs@),
                if is_borsh { BORSH_ATTRS@ } else { POD_ATTRS@ },
                input.vis@,
                name,
                input.fields_text@,
                if is_borsh {
                    ""@
                } else {
                    filled(POD_IMPLS@, seq![pod_asserts(named), size_steps(named, "core"@), name])
                },
                byte_literals(hashed("account"@, name)),
                if is_borsh {
                    filled(BORSH_DESERIALIZE@, seq![name])
                } else {
                    filled(POD_DESERIALIZE@, seq![name])
                },
                entry_text(entry),
                idl.type_def@,
                dep_walkers(fields_of(fields)),
            ],
        ),
        gated: if is_borsh {
            field_failures("`#[account(borsh)]`"@, ""@, fields_of(fields))
        } else {
            pod_failures(named, name)
        },
    }
}

/// The attributes of a serialized account.
pub const BORSH_ATTRS: &'static str =
    "#[derive(anchor_lang::AnchorSerialize, anchor_lang::AnchorDeserialize)]";

/// The attributes of an account that is copied byte by byte.
pub const POD_ATTRS: &'static str = "#[derive(Clone, Copy)] #[repr(C)]";

/// What the `account` macro gives, with the entry of the account.
pub open spec fn account_expansion(
    attr: Seq<Token>,
    input: DeriveInput,
    idl: AccountIdl,
    entry: Option<Seq<char>>,
) -> Result<ExpansionView, FailureView> {
    match mode_of(attr, account_words()) {
        Err(failure) => Err(failure),
        Ok(is_borsh) => match input.data {
            Data::Struct(fields) => match idl.repr {
                Err(failure) if !is_borsh => Err(failure@),
                _ => Ok(account_code(input, fields, is_borsh, idl, entry)),
            },
            _ => Err(diagnostic(input.ident.span, "`#[account]` only supports structs"@)),
        },
    }
}

fn find_pod_failures(fields: &Vec<Field>, name: &str) -> (out: Vec<GatedFailure>)
    requires
        all_named(fields@),
    ensures
        gated_view(out@) == pod_failures(fields@, name@),
{
    let mut out: Vec<GatedFailure> = Vec::new();
    assert(gated_view(out@) == Seq::<GatedFailureView>::empty());
    for i in 0..fields.len()
        invariant
            all_named(fields@),
            gated_view(out@) == pod_failures(fields@.take(i as int), name@),
    {
        assert(fields@.take(i + 1).drop_last() == fields@.take(i as int));
        let field = &fields[i];
        if let Some(own) = &field.name {
            if let Some(message) = diagnose_non_pod_field(&field.ty, own.text.as_str(), name) {
                let ghost before = gated_view(out@);
                let gated = GatedFailure {
                    cfg: cfg_attrs(&field.attrs),
                    failure: new_diagnostic(field.ty.span(), message),
                };
                out.push(gated);
                assert(gated_view(out@) == before.push(
                    GatedFailureView { cfg: gated.cfg@, failure: gated.failure@ },
                ));
            }
        }
    }
    assert(fields@.take(fields@.len() as int) == fields@);
    out
}

/// Expands the `account` macro. `entry` makes the entry of an account in the interface
/// description: it is given the name and the bytes that the code holds.
pub fn account<E: Fn(&String, &Vec<u8>) -> Option<String>>(
    attr: &Vec<Token>,
    input: &DeriveInput,
    idl: AccountIdl,
    entry: &E,
) -> (out: Result<Expansion, Failure>)
    requires
        well_named(input.data),
        enters_any(*entry),
    ensures
        exists|text: Option<Seq<char>>|
            #![trigger may_enter(
                *entry,
                input.ident.text@,
                hashed("account"@, input.ident.text@),
                text,
            )]
            may_enter(
                *entry,
                input.ident.text@,
                hashed("account"@, input.ident.text@),
                text,
            ) && expansion_view(out) == account_expansion(attr@, *input, idl, text),
{
    let bytes = hashed_discriminator("account", input.ident.text.as_str());
    let text = entry(&input.ident.text, &bytes);
    assert(may_enter(*entry, input.ident.text@, bytes@, option_text(text)));
    described_account(attr, input, idl, &text)
}

/// Expands the `account` macro, given the entry of the account.
pub fn described_account(
    attr: &Vec<Token>,
    input: &DeriveInput,
    idl: AccountIdl,
    entry: &Option<String>,
) -> (out: Result<Expansion, Failure>)
    requires
        well_named(input.data),
    ensures
        expansion_view(out) == account_expansion(attr@, *input, idl, option_text(*entry)),
{
    let is_borsh = match parse_account_mode(attr) {
        Ok(is_borsh) => is_borsh,
        Err(failure) => return Err(failure),
    };
    let fields = match &input.data {
        Data::Struct(fields) => fields,
        _ => {
            return Err(
                new_diagnostic(
                    input.ident.span,
                    "`#[account]` only supports structs".to_owned(),
                ),
            );
        },
    };
    if let Err(failure) = idl.repr {
        if !is_borsh {
            return Err(failure);
        }
    }
    let name = input.ident.text.as_str();
    let none: Vec<Field> = Vec::new();
    let all = list_fields(fields, &none);
    let named = list_named_fields(fields, &none);
    let pod_impls = if is_borsh {
        "".to_owned()
    } else {
        fill3(
            POD_IMPLS,
            print_pod_asserts(named).as_str(),
            print_size_steps(named, "core").as_str(),
            name,
        )
    };
    let deserialize = if is_borsh {
        fill1(BORSH_DESERIALIZE, name)
    } else {
        fill1(POD_DESERIALIZE, name)
    };
    let entry = match entry {
        Some(text) => "Some(".to_owned().concat(string_literal(text.as_str()).as_str()).concat(
            ")",
        ),
        None => "None".to_owned(),
    };
    let gated = if is_borsh {
        wincode_idl_override_tokens_for_fields("`#[account(borsh)]`", all)
    } else {
        find_pod_failures(named, name)
    };
    let code = fill11(
        ACCOUNT,
        print_attrs(&input.attrs).as_str(),
        if is_borsh { BORSH_ATTRS } else { POD_ATTRS },
        input.vis.as_str(),
        name,
        input.fields_text.as_str(),
        pod_impls.as_str(),
        print_byte_literals(&hashed_discriminator("account", name)).as_str(),
        deserialize.as_str(),
        entry.as_str(),
        idl.type_def.as_str(),
        cfg_field_dep_walkers(all).as_str(),
    );
    Ok(Expansion { code, gated })
}

} // verus!
