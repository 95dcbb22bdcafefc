//! What the code for accounts, events and described types says.

use crate::account::{
    account_expansion, entry_text, AccountIdl, BORSH_ATTRS, BORSH_DESERIALIZE, POD_ATTRS,
    POD_DESERIALIZE, POD_IMPLS,
};
use crate::attrs::{attrs_text, cfg_text, Attribute, Token};
use crate::discriminator::hashed;
use crate::handler::byte_literals;
use crate::item_texts::{
    lemma_account_told, lemma_borsh_deserialize_text, lemma_dep_walker_text, lemma_pod_assert_text,
    lemma_pod_deserialize_text, lemma_pod_impls_text, lemma_size_step_text,
};
use crate::items::{DeriveInput, Field};
use crate::outside::literal_of;
use crate::passages::{each_of, lemma_each_of, tells};
use crate::pod_fields::{
    dep_walkers, fields_of, named_fields_of, pod_asserts, size_steps, DEP_WALKER, POD_ASSERT,
    SIZE_STEP,
};
use crate::syntax::type_text;
use crate::template::filled;
use crate::text::concat_all;
use vstd::prelude::*;

verus! {

// ---------------------------------------------------------------------------
// What is said of a field
// ---------------------------------------------------------------------------

/// The conditions that an item stands under: its `cfg` attributes, in order.
pub open spec fn conditions(attrs: Seq<Attribute>) -> Seq<char> {
    each_of(
        attrs,
        |attr: Attribute|
            if attr.path@ == "cfg"@ {
                attr.tokens@ + "\n"@
            } else {
                Seq::empty()
            },
    )
}

/// The attributes of an item, in order.
pub open spec fn all_attributes(attrs: Seq<Attribute>) -> Seq<char> {
    each_of(attrs, |attr: Attribute| attr.tokens@ + "\n"@)
}

/// The check that a field can be copied byte by byte.
pub open spec fn checked_pod(field: Field) -> Seq<char> {
    conditions(field.attrs@) + "\nconst _: fn() = || {\n    fn assert_pod<T: anchor_lang::bytemuck::Pod>() {}\n    assert_pod::<"@ + type_text(field.ty, None) + ">();\n};"@ + "\n"@
}

/// The statement that adds the size of a field.
pub open spec fn size_added(field: Field, core: Seq<char>) -> Seq<char> {
    conditions(field.attrs@) + "\n{\n    __size += "@ + core + "::mem::size_of::<"@ + type_text(field.ty, None) + ">();\n}"@ + "\n"@
}

/// The statement that registers what a field depends on.
pub open spec fn registered(field: Field) -> Seq<char> {
    conditions(field.attrs@) + "\n<"@ + type_text(field.ty, None) + " as anchor_lang::IdlAccountType>::__register_idl_deps(accounts, types);"@ + "\n"@
}

/// The implementations of a struct that is copied byte by byte, with the check that it has
/// no padding.
pub open spec fn copied_bytewise(name: Seq<char>, fields: Seq<Field>) -> Seq<char> {
    each_of(fields, |field: Field| checked_pod(field)) + "\nconst _: () = {\n    let mut __size = 0usize;\n    "@ + each_of(fields, |field: Field| size_added(field, "core"@)) + "\n    assert!(\n        core::mem::size_of::<"@ + name + ">() == __size,\n        \"account struct has padding bytes — reorder fields from largest to smallest alignment to eliminate padding (e.g. u64 before u32 before u8)\"\n    );\n};\nunsafe impl anchor_lang::bytemuck::Pod for "@ + name + " {}\nunsafe impl anchor_lang::bytemuck::Zeroable for "@ + name + " {}"@
}

/// How an account is read that is copied byte by byte: behind the discriminator, which is
/// checked first, as many bytes as the struct has.
pub open spec fn read_bytewise(name: Seq<char>) -> Seq<char> {
    "impl anchor_lang::AccountDeserialize for "@ + name + " {\n    fn try_deserialize(\n        buf: &mut &[u8],\n    ) -> ::core::result::Result<Self, anchor_lang::Error> {\n        use anchor_lang::Discriminator as _;\n        if buf.len() < <Self as anchor_lang::Discriminator>::DISCRIMINATOR.len() {\n            return Err(anchor_lang::Error::AccountDataTooSmall);\n        }\n        let disc = &buf[..<Self as anchor_lang::Discriminator>::DISCRIMINATOR.len()];\n        if disc != <Self as anchor_lang::Discriminator>::DISCRIMINATOR {\n            return Err(anchor_lang::Error::InvalidAccountData);\n        }\n        Self::try_deserialize_unchecked(buf)\n    }\n    fn try_deserialize_unchecked(\n        buf: &mut &[u8],\n    ) -> ::core::result::Result<Self, anchor_lang::Error> {\n        use anchor_lang::Discriminator as _;\n        let disc_len = <Self as anchor_lang::Discriminator>::DISCRIMINATOR.len();\n        if buf.len() < disc_len {\n            return Err(anchor_lang::Error::AccountDataTooSmall);\n        }\n        let original = *buf;\n        let data = &original[disc_len..];\n        let n = ::core::mem::size_of::<Self>();\n        if data.len() < n {\n            return Err(anchor_lang::Error::AccountDataTooSmall);\n        }\n        let value: Self = anchor_lang::bytemuck::pod_read_unaligned(&data[..n]);\n        *buf = &data[n..];\n        Ok(value)\n    }\n}"@
}

/// How an account is read that is encoded: behind the discriminator, which is checked
/// first, by its schema.
pub open spec fn read_encoded(name: Seq<char>) -> Seq<char> {
    "impl anchor_lang::AccountDeserialize for "@ + name + " {\n    fn try_deserialize(\n        buf: &mut &[u8],\n    ) -> ::core::result::Result<Self, anchor_lang::Error> {\n        use anchor_lang::Discriminator as _;\n        if buf.len() < <Self as anchor_lang::Discriminator>::DISCRIMINATOR.len() {\n            return Err(anchor_lang::Error::AccountDataTooSmall);\n        }\n        let disc = &buf[..<Self as anchor_lang::Discriminator>::DISCRIMINATOR.len()];\n        if disc != <Self as anchor_lang::Discriminator>::DISCRIMINATOR {\n            return Err(anchor_lang::Error::InvalidAccountData);\n        }\n        Self::try_deserialize_unchecked(buf)\n    }\n    fn try_deserialize_unchecked(\n        buf: &mut &[u8],\n    ) -> ::core::result::Result<Self, anchor_lang::Error> {\n        use anchor_lang::Discriminator as _;\n        let disc_len = <Self as anchor_lang::Discriminator>::DISCRIMINATOR.len();\n        if buf.len() < disc_len {\n            return Err(anchor_lang::Error::AccountDataTooSmall);\n        }\n        let original = *buf;\n        let mut data = &original[disc_len..];\n        let value = <Self as anchor_lang::wincode::SchemaRead<\n            '_,\n            anchor_lang::BorshConfig,\n        >>::get(&mut data)\n            .map_err(|_| anchor_lang::Error::InvalidAccountData)?;\n        *buf = data;\n        Ok(value)\n    }\n}"@
}

/// The `cfg` attributes are the conditions.
pub proof fn lemma_conditions(attrs: Seq<Attribute>)
    ensures
        cfg_text(attrs) == conditions(attrs),
    decreases attrs.len(),
{
    let said = |attr: Attribute|
        if attr.path@ == "cfg"@ {
            attr.tokens@ + "\n"@
        } else {
            Seq::empty()
        };
    lemma_each_of(attrs, said, said);
    lemma_conditions_from(attrs);
}

proof fn lemma_conditions_from(attrs: Seq<Attribute>)
    ensures
        cfg_text(attrs) == concat_all(
            attrs.map_values(
                |attr: Attribute|
                    if attr.path@ == "cfg"@ {
                        attr.tokens@ + "\n"@
                    } else {
                        Seq::empty()
                    },
            ),
        ),
    decreases attrs.len(),
{
    let said = |attr: Attribute|
        if attr.path@ == "cfg"@ {
            attr.tokens@ + "\n"@
        } else {
            Seq::empty()
        };
    if attrs.len() > 0 {
        lemma_conditions_from(attrs.drop_last());
        assert(attrs.map_values(said).drop_last() =~= attrs.drop_last().map_values(said));
        assert(concat_all(attrs.map_values(said)) == concat_all(
            attrs.drop_last().map_values(said),
        ) + said(attrs.last()));
        assert(cfg_text(attrs) =~= concat_all(attrs.map_values(said)));
    } else {
        assert(attrs.map_values(said) =~= Seq::<Seq<char>>::empty());
    }
}

/// The statements for fields are what is said of them one by one.
pub proof fn lemma_fields_told(fields: Seq<Field>, core: Seq<char>)
    ensures
        pod_asserts(fields) == each_of(fields, |field: Field| checked_pod(field)),
        size_steps(fields, core) == each_of(fields, |field: Field| size_added(field, core)),
        dep_walkers(fields) == each_of(fields, |field: Field| registered(field)),
{
    assert forall|i: int| 0 <= i < fields.len() implies filled(
        POD_ASSERT@,
        seq![cfg_text(fields[i].attrs@), type_text(fields[i].ty, None)],
    ) + "\n"@ == checked_pod(#[trigger] fields[i]) by {
        lemma_conditions(fields[i].attrs@);
        lemma_pod_assert_text(seq![cfg_text(fields[i].attrs@), type_text(fields[i].ty, None)]);
    }
    assert forall|i: int| 0 <= i < fields.len() implies filled(
        SIZE_STEP@,
        seq![cfg_text(fields[i].attrs@), type_text(fields[i].ty, None), core],
    ) + "\n"@ == size_added(#[trigger] fields[i], core) by {
        lemma_conditions(fields[i].attrs@);
        lemma_size_step_text(
            seq![cfg_text(fields[i].attrs@), type_text(fields[i].ty, None), core],
        );
    }
    assert forall|i: int| 0 <= i < fields.len() implies filled(
        DEP_WALKER@,
        seq![cfg_text(fields[i].attrs@), type_text(fields[i].ty, None)],
    ) + "\n"@ == registered(#[trigger] fields[i]) by {
        lemma_conditions(fields[i].attrs@);
        lemma_dep_walker_text(seq![cfg_text(fields[i].attrs@), type_text(fields[i].ty, None)]);
    }
    lemma_each_of(
        fields,
        |field: Field|
            filled(POD_ASSERT@, seq![cfg_text(field.attrs@), type_text(field.ty, None)]) + "\n"@,
        |field: Field| checked_pod(field),
    );
    lemma_each_of(
        fields,
        |field: Field|
            filled(SIZE_STEP@, seq![cfg_text(field.attrs@), type_text(field.ty, None), core])
                + "\n"@,
        |field: Field| size_added(field, core),
    );
    lemma_each_of(
        fields,
        |field: Field|
            filled(DEP_WALKER@, seq![cfg_text(field.attrs@), type_text(field.ty, None)]) + "\n"@,
        |field: Field| registered(field),
    );
}

// ---------------------------------------------------------------------------
// Accounts
// ---------------------------------------------------------------------------

/// What the code for an account says. Without a mode the struct is copied byte by byte:
/// its fields are checked for that, it has no padding, and it is read back byte by byte.
/// With one it derives its schema and is read back by it. In both it is told apart by the
/// head of the digest of its name, and belongs to the program of the crate.
pub proof fn lemma_account_read_as_laid_out(
    attr: Seq<Token>,
    input: DeriveInput,
    idl: AccountIdl,
    entry: Option<Seq<char>>,
)
    requires
        account_expansion(attr, input, idl, entry) is Ok,
    ensures
        ({
            let name = input.ident.text@;
            let fields = input.data->Struct_0;
            let named = named_fields_of(fields);
            let encoded = attr.len() > 0;
            let derived = if encoded {
                "#[derive(anchor_lang::AnchorSerialize, anchor_lang::AnchorDeserialize)]"@
            } else {
                "#[derive(Clone, Copy)] #[repr(C)]"@
            };
            let layout = if encoded {
                ""@
            } else {
                copied_bytewise(name, named)
            };
            let bytes = byte_literals(hashed("account"@, name));
            let reader = if encoded {
                read_encoded(name)
            } else {
                read_bytewise(name)
            };
            let listed = match entry {
                Some(text) => "Some("@ + literal_of(text) + ")"@,
                None => "None"@,
            };
            let deps = each_of(fields_of(fields), |field: Field| registered(field));
            tells(
                account_expansion(attr, input, idl, entry)->Ok_0.code,
                seq![
                    all_attributes(input.attrs@) + "\n"@ + derived + "\n"@ + input.vis@ + " struct "@ + name + " "@ + input.fields_text@ + "\n\n"@ + layout + "\n\nimpl anchor_lang::Owner for "@ + name + " {\n    const OWNER: anchor_lang::Address = crate::ID;\n}\nimpl anchor_lang::Discriminator for "@ + name + " {\n    const DISCRIMINATOR: &'static [u8] = &["@ + bytes + "];\n}\n"@ + reader + "\n"@,
                    "#[cfg(feature = \"idl-build\")]\n#[doc(hidden)]\nimpl anchor_lang::IdlAccountType for "@ + name + " {\n    const __IDL_ACCOUNT_ENTRY: Option<&'static str> = "@ + listed + ";\n    fn __idl_type_def() -> Option<&'static str> {\n        "@ + idl.type_def@ + "\n    }\n"@,
                    "    fn __register_idl_deps(\n        accounts: &mut ::anchor_lang::__alloc::vec::Vec<&'static str>,\n        types: &mut ::anchor_lang::__alloc::vec::Vec<&'static str>,\n    ) {\n        if let Some(a) = <Self as anchor_lang::IdlAccountType>::__idl_account_entry() {\n            accounts.push(a);\n        }\n        if let Some(t) = <Self as anchor_lang::IdlAccountType>::__idl_type_def() {\n            types.push(t);\n        }\n        "@ + deps + "\n    }\n}"@,
                ],
            )
        }),
{
    let name = input.ident.text@;
    let fields = input.data->Struct_0;
    let named = named_fields_of(fields);
    let encoded = attr.len() > 0;
    lemma_fields_told(named, "core"@);
    lemma_fields_told(fields_of(fields), "core"@);
    lemma_each_of(
        input.attrs@,
        |attr: Attribute| attr.tokens@ + "\n"@,
        |attr: Attribute| attr.tokens@ + "\n"@,
    );
    lemma_pod_impls_text(seq![pod_asserts(named), size_steps(named, "core"@), name]);
    lemma_pod_deserialize_text(seq![name]);
    lemma_borsh_deserialize_text(seq![name]);
    lemma_account_told(
        seq![
            attrs_text(input.attrs@),
            if encoded {
                BORSH_ATTRS@
            } else {
                POD_ATTRS@
            },
            input.vis@,
            name,
            input.fields_text@,
            if encoded {
                ""@
            } else {
                filled(POD_IMPLS@, seq![pod_asserts(named), size_steps(named, "core"@), name])
            },
            byte_literals(hashed("account"@, name)),
            if encoded {
                filled(BORSH_DESERIALIZE@, seq![name])
            } else {
                filled(POD_DESERIALIZE@, seq![name])
            },
            entry_text(entry),
            idl.type_def@,
            dep_walkers(fields_of(fields)),
        ],
    );
}

} // verus!
