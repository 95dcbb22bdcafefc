//! What the types of a declared program say.

use crate::declared_constants::{
    byte_array, declared_const, declared_consts, doc_attr, docs_text, is_byte_array,
};
use crate::declared_types::idl_type;
use crate::failure::{call_site, collected, lemma_collected_len, FailureView};
use crate::handler::byte_literals;
use crate::json::{
    array_at, elements, flag_at, json_text, member_of, number_of, required_text, text_at, text_of,
    Json,
};
use crate::names::{item_name, snake_case, type_case};
use crate::outside::{expr_reading, literal_of, literal_reading, type_reading};
use crate::passages::{
    each_of, lemma_each_of, lemma_joined_parted, lemma_some_present, lemma_terminated_lines, lines,
    parted, present,
};
use crate::template::filled;
use crate::text::{concat_all, decimal, some_texts, terminated};
use crate::type_defs::{
    account_byte, declared_items, deserialize_impl, entry_named, entry_text, first_items, idl_impl,
    plain_repr, pod_assert, pod_bound, pod_impls, pod_where, registration, size_term, struct_body,
    struct_fields, struct_items, type_head, type_items, variant_items, ENUM, TRY_DESERIALIZE,
};
use crate::type_parts::{
    firsts, generic_param, generics_of, named_field, repr_attr, seconds, tuple_field, type_fields,
    where_text, FieldReading, FieldsView, NamedType, ParamView,
};
use crate::type_texts::{
    lemma_alias_text, lemma_borsh_deserialize_text, lemma_discriminator_impls_text, lemma_enum_text,
    lemma_idl_impl_text, lemma_pod_deserialize_text, lemma_pod_impls_text, lemma_pod_struct_text,
    lemma_struct_text,
};
use vstd::prelude::*;

verus! {

// ---------------------------------------------------------------------------
// What a definition says of a type
// ---------------------------------------------------------------------------

/// The name of the type.
pub open spec fn ident_of(ty_def: Json) -> Seq<char> {
    item_name(type_case(required_text(ty_def, "name"@, call_site())->Ok_0))->Ok_0
}

/// The comments of a definition, a line each.
#[verifier::opaque]
pub open spec fn docs_of(ty_def: Json) -> Seq<char> {
    lines(
        present(
            elements(ty_def, "docs"@).map_values(
                |line: Json|
                    match text_of(line) {
                        Some(text) => Some(
                            "#[doc = "@ + literal_of(
                                if text.len() == 0 {
                                    text
                                } else {
                                    " "@ + text
                                },
                            ) + "]"@,
                        ),
                        None => None,
                    },
            ),
        ),
    )
}

/// Whether the bytes of a value are the value.
pub open spec fn bytewise(ty_def: Json) -> bool {
    ||| text_at(ty_def, "serialization"@) == Some("bytemuck"@)
    ||| text_at(ty_def, "serialization"@) == Some("bytemuckunsafe"@)
    ||| text_at(ty_def, "serialization"@) == Some("bytemuckUnsafe"@)
}

/// The attribute for the layout of a type, or another where the definition gives none.
#[verifier::opaque]
pub open spec fn laid_out(ty_def: Json, otherwise: Seq<char>) -> Seq<char> {
    match member_of(ty_def, "repr"@) {
        None => otherwise,
        Some(repr) => {
            let kind = required_text(repr, "kind"@, call_site())->Ok_0;
            if kind == "transparent"@ {
                "#[repr("@ + ("transparent"@ + ""@) + ")]"@
            } else {
                let word = if kind == "rust"@ {
                    "Rust"@
                } else {
                    "C"@
                };
                let packed = if flag_at(repr, "packed"@) {
                    ", packed"@
                } else {
                    ""@
                };
                let aligned = match member_of(repr, "align"@) {
                    Some(value) => match number_of(value) {
                        Some(n) => ", align("@ + decimal((n as usize) as nat) + ")"@,
                        None => ""@,
                    },
                    None => ""@,
                };
                "#[repr("@ + (word + (packed + aligned)) + ")]"@
            }
        },
    }
}

/// The name of a generic parameter.
pub open spec fn param_name(generic: Json) -> Seq<char> {
    item_name(required_text(generic, "name"@, call_site())->Ok_0)->Ok_0
}

/// Whether a generic parameter is a type.
pub open spec fn is_type_param(generic: Json) -> bool {
    required_text(generic, "kind"@, call_site())->Ok_0 == "type"@
}

/// The parameters of a type where it is declared.
#[verifier::opaque]
pub open spec fn impl_generics_of(ty_def: Json) -> Seq<char> {
    match array_at(ty_def, "generics"@) {
        None => ""@,
        Some(list) => "<"@ + parted(
            list.map_values(
                |generic: Json|
                    if is_type_param(generic) {
                        param_name(generic)
                    } else {
                        "const "@ + param_name(generic) + ": "@ + type_reading(
                            required_text(generic, "type"@, call_site())->Ok_0,
                        )->Ok_0
                    },
            ),
            ", "@,
        ) + ">"@,
    }
}

/// The parameters of a type where it is named.
pub open spec fn ty_generics_of(ty_def: Json) -> Seq<char> {
    match array_at(ty_def, "generics"@) {
        None => ""@,
        Some(list) => "<"@ + parted(list.map_values(|generic: Json| param_name(generic)), ", "@)
            + ">"@,
    }
}

/// What is asked of each parameter that is a type.
pub open spec fn bounded(ty_def: Json, bound: Seq<char>) -> Seq<char> {
    match array_at(ty_def, "generics"@) {
        None => ""@,
        Some(list) => {
            let bounds = present(
                list.map_values(
                    |generic: Json|
                        if is_type_param(generic) {
                            Some(param_name(generic) + bound)
                        } else {
                            None
                        },
                ),
            );
            if bounds.len() == 0 {
                ""@
            } else {
                "where "@ + parted(bounds, ", "@)
            }
        },
    }
}

/// What is asked of the parameters and the fields of a type that is copied byte by byte.
pub open spec fn pod_bounded(ty_def: Json, tys: Seq<Seq<char>>) -> Seq<char> {
    let params = bounded(
        ty_def,
        ": anchor_lang::bytemuck::Pod + anchor_lang::bytemuck::Zeroable"@,
    );
    let bounds = parted(
        tys.map_values(
            |ty: Seq<char>| ty + ": anchor_lang::bytemuck::Pod + anchor_lang::bytemuck::Zeroable"@,
        ),
        ", "@,
    );
    if tys.len() == 0 {
        params
    } else if params.len() == 0 {
        "where "@ + bounds
    } else {
        params + ", "@ + bounds
    }
}

/// The discriminator of a type that is an account, as it is given.
#[verifier::opaque]
pub open spec fn told_apart(ty_def: Json, entry: Option<Json>) -> Seq<char> {
    match entry {
        None => ""@,
        Some(entry) => match array_at(entry, "discriminator"@) {
            None => ""@,
            Some(values) => {
                let bytes = values.map_values(
                    |value: Json| number_of(value)->Some_0 as u8,
                );
                "impl "@ + impl_generics_of(ty_def) + " anchor_lang::Owner for "@ + ident_of(ty_def) + " "@ + ty_generics_of(ty_def) + " {\n    const OWNER: anchor_lang::Address = ID;\n}\n\nimpl "@ + impl_generics_of(ty_def) + " anchor_lang::Discriminator for "@ + ident_of(ty_def) + " "@ + ty_generics_of(ty_def) + " {\n    const DISCRIMINATOR: &'static [u8] = &["@ + byte_literals(bytes) + "];\n}"@
            },
        },
    }
}

/// How an account is read: byte by byte exactly where its bytes are its value. The
/// discriminator is checked first.
#[verifier::opaque]
pub open spec fn read_back(ty_def: Json, entry: Option<Json>) -> Seq<char> {
    if entry is None {
        ""@
    } else if bytewise(ty_def) {
        "impl "@ + impl_generics_of(ty_def) + " anchor_lang::AccountDeserialize for "@ + ident_of(ty_def) + " "@ + ty_generics_of(ty_def) + "\nwhere\n    Self: anchor_lang::bytemuck::Pod,\n{\n    "@ + "fn try_deserialize(\n    buf: &mut &[u8],\n) -> ::core::result::Result<Self, anchor_lang::Error> {\n    use anchor_lang::Discriminator as _;\n    if buf.len() < <Self as anchor_lang::Discriminator>::DISCRIMINATOR.len() {\n        return Err(anchor_lang::Error::AccountDataTooSmall);\n    }\n    let given_disc = &buf[..<Self as anchor_lang::Discriminator>::DISCRIMINATOR.len()];\n    if given_disc != <Self as anchor_lang::Discriminator>::DISCRIMINATOR {\n        return Err(anchor_lang::Error::InvalidAccountData);\n    }\n    Self::try_deserialize_unchecked(buf)\n}"@ + "\n\n    fn try_deserialize_unchecked(\n        buf: &mut &[u8],\n    ) -> ::core::result::Result<Self, anchor_lang::Error> {\n        use anchor_lang::Discriminator as _;\n        let disc_len = <Self as anchor_lang::Discriminator>::DISCRIMINATOR.len();\n        if buf.len() < disc_len {\n            return Err(anchor_lang::Error::AccountDataTooSmall);\n        }\n        let original = *buf;\n        let data = &original[disc_len..];\n        let size = ::core::mem::size_of::<Self>();\n        if data.len() < size {\n            return Err(anchor_lang::Error::AccountDataTooSmall);\n        }\n        let value = anchor_lang::bytemuck::pod_read_unaligned(&data[..size]);\n        *buf = &data[size..];\n        Ok(value)\n    }\n}"@
    } else {
        "impl "@ + impl_generics_of(ty_def) + " anchor_lang::AccountDeserialize for "@ + ident_of(ty_def) + " "@ + ty_generics_of(ty_def) + "\nwhere\n    for<'__de> Self:\n        anchor_lang::wincode::SchemaRead<'__de, anchor_lang::BorshConfig, Dst = Self>,\n{\n    "@ + "fn try_deserialize(\n    buf: &mut &[u8],\n) -> ::core::result::Result<Self, anchor_lang::Error> {\n    use anchor_lang::Discriminator as _;\n    if buf.len() < <Self as anchor_lang::Discriminator>::DISCRIMINATOR.len() {\n        return Err(anchor_lang::Error::AccountDataTooSmall);\n    }\n    let given_disc = &buf[..<Self as anchor_lang::Discriminator>::DISCRIMINATOR.len()];\n    if given_disc != <Self as anchor_lang::Discriminator>::DISCRIMINATOR {\n        return Err(anchor_lang::Error::InvalidAccountData);\n    }\n    Self::try_deserialize_unchecked(buf)\n}"@ + "\n\n    fn try_deserialize_unchecked(\n        buf: &mut &[u8],\n    ) -> ::core::result::Result<Self, anchor_lang::Error> {\n        use anchor_lang::Discriminator as _;\n        let disc_len = <Self as anchor_lang::Discriminator>::DISCRIMINATOR.len();\n        if buf.len() < disc_len {\n            return Err(anchor_lang::Error::AccountDataTooSmall);\n        }\n        let original = *buf;\n        let mut data = &original[disc_len..];\n        let value = <Self as anchor_lang::wincode::SchemaRead<\n            '_,\n            anchor_lang::BorshConfig,\n        >>::get(&mut data)\n            .map_err(|_| anchor_lang::Error::InvalidAccountData)?;\n        *buf = data;\n        Ok(value)\n    }\n}"@
    }
}

/// What a type says in an interface description.
#[verifier::opaque]
pub open spec fn described(ty_def: Json, entry: Option<Json>, tys: Seq<Seq<char>>) -> Seq<char> {
    "#[doc(hidden)]\nimpl "@ + impl_generics_of(ty_def) + " anchor_lang::IdlAccountType for "@ + ident_of(ty_def) + " "@ + ty_generics_of(ty_def) + " "@ + bounded(ty_def, ": anchor_lang::IdlAccountType"@) + " {\n    const __IDL_ACCOUNT_ENTRY: Option<&'static str> = "@ + (match entry { Some(entry) => "Some("@ + literal_of(json_text(entry)) + ")"@, None => "None"@ }) + ";\n    const __IDL_TYPE_DEF: Option<&'static str> = Some("@ + literal_of(json_text(ty_def)) + ");\n\n    fn __register_idl_deps(\n        accounts: &mut anchor_lang::__alloc::vec::Vec<&'static str>,\n        types: &mut anchor_lang::__alloc::vec::Vec<&'static str>,\n    ) {\n        if let Some(a) = <Self as anchor_lang::IdlAccountType>::__IDL_ACCOUNT_ENTRY {\n            accounts.push(a);\n        }\n        if let Some(t) = <Self as anchor_lang::IdlAccountType>::__IDL_TYPE_DEF {\n            types.push(t);\n        }\n        "@ + lines(tys.map_values(|ty: Seq<char>| "<"@ + ty + " as anchor_lang::IdlAccountType>::__register_idl_deps(accounts, types);"@)) + "\n    }\n}"@
}

/// That a type can be copied byte by byte: its fields can, and it has no padding.
#[verifier::opaque]
pub open spec fn bytewise_impls(ty_def: Json, tys: Seq<Seq<char>>) -> Seq<char> {
    "impl "@ + impl_generics_of(ty_def) + " "@ + ident_of(ty_def) + " "@ + ty_generics_of(ty_def) + " "@ + pod_bounded(ty_def, tys) + " {\n    const __ANCHOR_DECLARE_PROGRAM_POD_ASSERT: fn() = || {\n        fn assert_pod<T: anchor_lang::bytemuck::Pod>() {}\n        "@ + each_of(tys, |ty: Seq<char>| "assert_pod::<"@ + ty + ">();"@) + "\n    };\n    const __ANCHOR_DECLARE_PROGRAM_NO_PADDING: () = assert!(\n        core::mem::size_of::<Self>() == 0 "@ + each_of(tys, |ty: Seq<char>| " + core::mem::size_of::<"@ + ty + ">()"@) + ",\n        \"declared bytemuck type has padding bytes\"\n    );\n}\nunsafe impl "@ + impl_generics_of(ty_def) + " anchor_lang::bytemuck::Pod for "@ + ident_of(ty_def) + " "@ + ty_generics_of(ty_def) + " "@ + pod_bounded(ty_def, tys) + " {}\nunsafe impl "@ + impl_generics_of(ty_def) + " anchor_lang::bytemuck::Zeroable for "@ + ident_of(ty_def) + " "@ + ty_generics_of(ty_def) + " "@ + pod_bounded(ty_def, tys) + " {}"@
}

proof fn lemma_docs(ty_def: Json)
    ensures
        docs_text(ty_def) == docs_of(ty_def),
{
    reveal(docs_of);
    let said = elements(ty_def, "docs"@).map_values(
        |line: Json|
            match text_of(line) {
                Some(text) => Some(
                    "#[doc = "@ + literal_of(
                        if text.len() == 0 {
                            text
                        } else {
                            " "@ + text
                        },
                    ) + "]"@,
                ),
                None => None,
            },
    );
    let texts = elements(ty_def, "docs"@).map_values(|line: Json| doc_attr(line));
    assert(said =~= texts);
    lemma_some_present(texts);
    lemma_terminated_lines(some_texts(texts));
}

proof fn lemma_laid_out(ty_def: Json)
    requires
        repr_attr(ty_def, call_site()) is Ok,
    ensures
        match repr_attr(ty_def, call_site())->Ok_0 {
            Some(text) => forall|otherwise: Seq<char>| text == #[trigger] laid_out(
                ty_def,
                otherwise,
            ),
            None => forall|otherwise: Seq<char>| otherwise == #[trigger] laid_out(
                ty_def,
                otherwise,
            ),
        },
{
    reveal(laid_out);
    reveal_strlit("transparent");
    reveal_strlit("rust");
    reveal_strlit("c");
    if let Some(repr) = member_of(ty_def, "repr"@) {
        let text = repr_attr(ty_def, call_site())->Ok_0->Some_0;
        assert forall|otherwise: Seq<char>| text == #[trigger] laid_out(ty_def, otherwise) by {
            assert(text =~= laid_out(ty_def, otherwise));
        }
    }
}

proof fn lemma_generics(ty_def: Json)
    requires
        generics_of(ty_def, call_site()) is Ok,
    ensures
        ({
            let generics = generics_of(ty_def, call_site())->Ok_0;
            &&& generics.impl_generics == impl_generics_of(ty_def)
            &&& generics.ty_generics == ty_generics_of(ty_def)
            &&& generics.idl_where_clause == bounded(ty_def, ": anchor_lang::IdlAccountType"@)
            &&& generics.pod_where_clause == bounded(
                ty_def,
                ": anchor_lang::bytemuck::Pod + anchor_lang::bytemuck::Zeroable"@,
            )
        }),
{
    reveal(impl_generics_of);
    if let Some(list) = array_at(ty_def, "generics"@) {
        let results = list.map_values(|generic: Json| generic_param(generic, call_site()));
        let params = collected(results)->Ok_0;
        lemma_collected_len(results);
        let declared = list.map_values(
            |generic: Json|
                if is_type_param(generic) {
                    param_name(generic)
                } else {
                    "const "@ + param_name(generic) + ": "@ + type_reading(
                        required_text(generic, "type"@, call_site())->Ok_0,
                    )->Ok_0
                },
        );
        let names = list.map_values(|generic: Json| param_name(generic));
        assert forall|i: int| 0 <= i < list.len() implies {
            let param = #[trigger] params[i];
            &&& param.declaration == declared[i]
            &&& param.name == names[i]
            &&& param.is_type == is_type_param(list[i])
        } by {
            assert(results[i] == generic_param(list[i], call_site()));
        }
        assert(params.map_values(|param: ParamView| param.declaration) =~= declared);
        assert(params.map_values(|param: ParamView| param.name) =~= names);
        lemma_joined_parted(declared, ", "@);
        lemma_joined_parted(names, ", "@);
        lemma_bounds(list, params, ": anchor_lang::IdlAccountType"@);
        lemma_bounds(
            list,
            params,
            ": anchor_lang::bytemuck::Pod + anchor_lang::bytemuck::Zeroable"@,
        );
    }
}

proof fn lemma_bounds(list: Seq<Json>, params: Seq<ParamView>, bound: Seq<char>)
    requires
        params.len() == list.len(),
        forall|i: int|
            0 <= i < list.len() ==> (#[trigger] params[i]).name == param_name(list[i])
                && params[i].is_type == is_type_param(list[i]),
    ensures
        where_text(params, bound) == ({
            let bounds = present(
                list.map_values(
                    |generic: Json|
                        if is_type_param(generic) {
                            Some(param_name(generic) + bound)
                        } else {
                            None
                        },
                ),
            );
            if bounds.len() == 0 {
                ""@
            } else {
                "where "@ + parted(bounds, ", "@)
            }
        }),
{
    let texts = params.map_values(
        |param: ParamView|
            if param.is_type {
                Some(param.name + bound)
            } else {
                None
            },
    );
    let said = list.map_values(
        |generic: Json|
            if is_type_param(generic) {
                Some(param_name(generic) + bound)
            } else {
                None
            },
    );
    assert(texts =~= said);
    lemma_some_present(texts);
    lemma_joined_parted(some_texts(texts), ", "@);
}

/// What is worked out for the definition of a type.
proof fn lemma_head(ty_def: Json, accounts: Seq<Json>)
    requires
        type_head(ty_def, accounts) is Ok,
    ensures
        ({
            let head = type_head(ty_def, accounts)->Ok_0;
            let name = required_text(ty_def, "name"@, call_site())->Ok_0;
            let entry = entry_named(accounts, name);
            &&& head.name == name
            &&& head.ident == ident_of(ty_def)
            &&& head.docs == docs_of(ty_def)
            &&& head.entry == entry
            &&& head.impls == told_apart(ty_def, entry)
            &&& head.serialization is Borsh <==> !bytewise(ty_def)
            &&& head.generics == generics_of(ty_def, call_site())->Ok_0
            &&& head.generics.impl_generics == impl_generics_of(ty_def)
            &&& head.generics.ty_generics == ty_generics_of(ty_def)
            &&& Ok::<Option<Seq<char>>, FailureView>(head.repr) == repr_attr(ty_def, call_site())
        }),
{
    reveal(told_apart);
    let head = type_head(ty_def, accounts)->Ok_0;
    let name = required_text(ty_def, "name"@, call_site())->Ok_0;
    lemma_docs(ty_def);
    lemma_generics(ty_def);
    reveal_strlit("borsh");
    reveal_strlit("bytemuck");
    reveal_strlit("bytemuckunsafe");
    reveal_strlit("bytemuckUnsafe");
    if let Some(name) = text_at(ty_def, "serialization"@) {
        if name == "borsh"@ {
            assert(name.len() != "bytemuck"@.len());
            assert(name.len() != "bytemuckunsafe"@.len());
            assert(name.len() != "bytemuckUnsafe"@.len());
        }
    }
    if let Some(entry) = entry_named(accounts, name) {
        if let Some(values) = array_at(entry, "discriminator"@) {
            let results = values.map_values(
                |value: Json| account_byte(value, name, call_site()),
            );
            let bytes = collected(results)->Ok_0;
            lemma_collected_len(results);
            let said = values.map_values(|value: Json| number_of(value)->Some_0 as u8);
            assert forall|i: int| 0 <= i < values.len() implies #[trigger] bytes[i] == said[i] by {
                assert(results[i] == account_byte(values[i], name, call_site()));
            }
            assert(bytes =~= said);
            lemma_discriminator_impls_text(
                seq![
                    head.generics.impl_generics,
                    head.ident,
                    head.generics.ty_generics,
                    byte_literals(bytes),
                ],
            );
        }
    }
}

proof fn lemma_described(ty_def: Json, accounts: Seq<Json>, tys: Seq<Seq<char>>)
    requires
        type_head(ty_def, accounts) is Ok,
    ensures
        ({
            let head = type_head(ty_def, accounts)->Ok_0;
            &&& idl_impl(head, ty_def, tys) == described(ty_def, head.entry, tys)
            &&& head.entry is Some ==> deserialize_impl(head) == read_back(ty_def, head.entry)
            &&& pod_impls(head, tys) == bytewise_impls(ty_def, tys)
        }),
{
    reveal(described);
    reveal(read_back);
    reveal(bytewise_impls);
    let head = type_head(ty_def, accounts)->Ok_0;
    let generics = head.generics;
    lemma_head(ty_def, accounts);
    lemma_generics(ty_def);
    let deps = tys.map_values(|ty: Seq<char>| registration(ty));
    assert(deps =~= tys.map_values(
        |ty: Seq<char>|
            "<"@ + ty + " as anchor_lang::IdlAccountType>::__register_idl_deps(accounts, types);"@,
    ));
    lemma_terminated_lines(deps);
    lemma_idl_impl_text(
        seq![
            generics.impl_generics,
            head.ident,
            generics.ty_generics,
            generics.idl_where_clause,
            entry_text(head.entry),
            literal_of(json_text(ty_def)),
            terminated(deps, "\n"@),
        ],
    );
    let parts = seq![generics.impl_generics, head.ident, generics.ty_generics, TRY_DESERIALIZE@];
    lemma_borsh_deserialize_text(parts);
    lemma_pod_deserialize_text(parts);
    let bounds = tys.map_values(|ty: Seq<char>| pod_bound(ty));
    assert(bounds =~= tys.map_values(
        |ty: Seq<char>| ty + ": anchor_lang::bytemuck::Pod + anchor_lang::bytemuck::Zeroable"@,
    ));
    lemma_joined_parted(bounds, ", "@);
    let asserts = |ty: Seq<char>| "assert_pod::<"@ + ty + ">();"@;
    lemma_each_of(tys, |ty: Seq<char>| pod_assert(ty), asserts);
    let sizes = |ty: Seq<char>| " + core::mem::size_of::<"@ + ty + ">()"@;
    lemma_each_of(tys, |ty: Seq<char>| size_term(ty), sizes);
    assert(pod_where(generics.pod_where_clause, tys) == pod_bounded(ty_def, tys));
    lemma_pod_impls_text(
        seq![
            generics.impl_generics,
            head.ident,
            generics.ty_generics,
            pod_where(generics.pod_where_clause, tys),
            concat_all(tys.map_values(|ty: Seq<char>| pod_assert(ty))),
            concat_all(tys.map_values(|ty: Seq<char>| size_term(ty))),
        ],
    );
}

// ---------------------------------------------------------------------------
// Fields
// ---------------------------------------------------------------------------

/// The type of a field.
pub open spec fn field_type(field: Result<Json, String>) -> Seq<char> {
    idl_type(field->Ok_0, call_site())->Ok_0
}

/// The types of the fields, in order.
pub open spec fn types_of(reading: FieldReading) -> Seq<Seq<char>> {
    match reading {
        FieldReading::Named(list) => list@.map_values(|field: NamedType| field_type(field.ty)),
        FieldReading::Tuple(list) => list@.map_values(
            |field: Result<Json, String>| field_type(field),
        ),
        FieldReading::Invalid(_) => Seq::empty(),
    }
}

/// The fields with names, each under its name in snake case.
pub open spec fn named_fields(list: Seq<NamedType>, vis: Seq<char>) -> Seq<Seq<char>> {
    list.map_values(
        |field: NamedType|
            vis + item_name(snake_case(field.name@))->Ok_0 + ": "@ + field_type(field.ty) + ","@,
    )
}

/// The fields without names.
pub open spec fn tuple_fields(list: Seq<Result<Json, String>>, vis: Seq<char>) -> Seq<Seq<char>> {
    list.map_values(|field: Result<Json, String>| vis + field_type(field))
}

proof fn lemma_fields(reading: FieldReading, public: bool)
    requires
        type_fields(reading, call_site(), public) is Ok,
    ensures
        ({
            let vis = if public {
                "pub "@
            } else {
                ""@
            };
            type_fields(reading, call_site(), public)->Ok_0 == (match reading {
                FieldReading::Named(list) => FieldsView::Named {
                    fields: named_fields(list@, vis),
                    tys: types_of(reading),
                },
                FieldReading::Tuple(list) => FieldsView::Tuple {
                    fields: tuple_fields(list@, vis),
                    tys: types_of(reading),
                },
                FieldReading::Invalid(_) => FieldsView::Unit,
            })
        }),
{
    let vis = if public {
        "pub "@
    } else {
        ""@
    };
    match reading {
        FieldReading::Named(list) => {
            let results = list@.map_values(
                |field: NamedType| named_field(field, call_site(), public),
            );
            let pairs = collected(results)->Ok_0;
            lemma_collected_len(results);
            assert forall|i: int| 0 <= i < list@.len() implies (#[trigger] pairs[i]).0
                == named_fields(list@, vis)[i] && pairs[i].1 == types_of(reading)[i] by {
                assert(results[i] == named_field(list@[i], call_site(), public));
            }
            assert(firsts(pairs) =~= named_fields(list@, vis));
            assert(seconds(pairs) =~= types_of(reading));
        },
        FieldReading::Tuple(list) => {
            let results = list@.map_values(
                |field: Result<Json, String>| tuple_field(field, call_site(), public),
            );
            let pairs = collected(results)->Ok_0;
            lemma_collected_len(results);
            assert forall|i: int| 0 <= i < list@.len() implies (#[trigger] pairs[i]).0
                == tuple_fields(list@, vis)[i] && pairs[i].1 == types_of(reading)[i] by {
                assert(results[i] == tuple_field(list@[i], call_site(), public));
            }
            assert(firsts(pairs) =~= tuple_fields(list@, vis));
            assert(seconds(pairs) =~= types_of(reading));
        },
        FieldReading::Invalid(_) => {},
    }
}

// ---------------------------------------------------------------------------
// Laws
// ---------------------------------------------------------------------------

/// A struct, with the types of its fields.
pub open spec fn struct_declared(
    ty_def: Json,
    entry: Option<Json>,
    body: Seq<char>,
    tys: Seq<Seq<char>>,
) -> Seq<char> {
    if bytewise(ty_def) {
        docs_of(ty_def) + "\n#[derive(Clone, Copy)]\n"@ + laid_out(ty_def, "#[repr(C)]"@) + "\npub struct "@ + ident_of(ty_def) + " "@ + impl_generics_of(ty_def) + body + "\n"@ + bytewise_impls(ty_def, tys) + "\n"@ + told_apart(ty_def, entry) + "\n"@ + read_back(ty_def, entry) + "\n"@ + described(ty_def, entry, tys)
    } else {
        docs_of(ty_def) + "\n"@ + laid_out(ty_def, ""@) + "\n#[derive(Clone, anchor_lang::AnchorDeserialize, anchor_lang::AnchorSerialize)]\npub struct "@ + ident_of(ty_def) + " "@ + impl_generics_of(ty_def) + body + "\n"@ + told_apart(ty_def, entry) + "\n"@ + read_back(ty_def, entry) + "\n"@ + described(ty_def, entry, tys)
    }
}

/// The body of a struct.
pub open spec fn struct_body_said(body: Json, reading: FieldReading) -> Seq<char> {
    if member_of(body, "fields"@) is None {
        ";"@
    } else {
        match reading {
            FieldReading::Named(list) => "{\n"@ + lines(named_fields(list@, "pub "@)) + "}"@,
            FieldReading::Tuple(list) => "("@ + parted(tuple_fields(list@, "pub "@), ", "@)
                + ");"@,
            FieldReading::Invalid(_) => ";"@,
        }
    }
}

/// A struct of a declared program has the fields of its definition, public and in order.
/// It is copied byte by byte, and read so where it is an account, exactly where the
/// definition says that its bytes are its value; else it derives its schema and is read by
/// that. Where it is an account with a discriminator, it is told apart by that.
pub proof fn lemma_struct_declared(
    ty_def: Json,
    accounts: Seq<Json>,
    readings: Seq<FieldReading>,
)
    requires
        type_items(ty_def, accounts, readings) is Ok,
        text_at(member_of(ty_def, "type"@)->Some_0, "kind"@) == Some("struct"@),
    ensures
        ({
            let body = member_of(ty_def, "type"@)->Some_0;
            let entry = entry_named(accounts, required_text(ty_def, "name"@, call_site())->Ok_0);
            let tys = if member_of(body, "fields"@) is None {
                Seq::empty()
            } else {
                types_of(readings[0])
            };
            type_items(ty_def, accounts, readings)->Ok_0 == struct_declared(
                ty_def,
                entry,
                struct_body_said(body, readings[0]),
                tys,
            )
        }),
{
    let body = member_of(ty_def, "type"@)->Some_0;
    let head = type_head(ty_def, accounts)->Ok_0;
    let fields = struct_fields(head.name, body, readings[0])->Ok_0;
    lemma_head(ty_def, accounts);
    lemma_laid_out(ty_def);
    if member_of(body, "fields"@) is Some {
        lemma_fields(readings[0], true);
        match readings[0] {
            FieldReading::Named(list) => lemma_terminated_lines(named_fields(list@, "pub "@)),
            FieldReading::Tuple(list) => lemma_joined_parted(
                tuple_fields(list@, "pub "@),
                ", "@,
            ),
            _ => {},
        }
    }
    assert(struct_body(fields) == struct_body_said(body, readings[0]));
    lemma_struct_items(ty_def, accounts, fields);
}

proof fn lemma_struct_items(ty_def: Json, accounts: Seq<Json>, fields: FieldsView)
    requires
        type_head(ty_def, accounts) is Ok,
    ensures
        struct_items(type_head(ty_def, accounts)->Ok_0, ty_def, fields) == struct_declared(
            ty_def,
            type_head(ty_def, accounts)->Ok_0.entry,
            struct_body(fields),
            fields.tys(),
        ),
{
    let head = type_head(ty_def, accounts)->Ok_0;
    let tys = fields.tys();
    lemma_head(ty_def, accounts);
    lemma_laid_out(ty_def);
    lemma_described(ty_def, accounts, tys);
    assert(head.entry is None ==> read_back(ty_def, head.entry) == ""@) by {
        reveal(read_back);
    }
    if bytewise(ty_def) {
        lemma_pod_struct_text(
            seq![
                docs_of(ty_def),
                laid_out(ty_def, "#[repr(C)]"@),
                ident_of(ty_def),
                impl_generics_of(ty_def),
                struct_body(fields),
                bytewise_impls(ty_def, tys),
                told_apart(ty_def, head.entry),
                read_back(ty_def, head.entry),
                described(ty_def, head.entry, tys),
            ],
        );
    } else {
        lemma_struct_text(
            seq![
                docs_of(ty_def),
                laid_out(ty_def, ""@),
                ident_of(ty_def),
                impl_generics_of(ty_def),
                struct_body(fields),
                told_apart(ty_def, head.entry),
                read_back(ty_def, head.entry),
                described(ty_def, head.entry, tys),
            ],
        );
    }
}

/// A variant of an enum.
pub open spec fn variant_said(variant: Json, reading: FieldReading) -> Seq<char> {
    let ident = item_name(required_text(variant, "name"@, call_site())->Ok_0)->Ok_0;
    if member_of(variant, "fields"@) is None {
        ident + ","@
    } else {
        match reading {
            FieldReading::Named(list) => ident + " {\n"@ + lines(named_fields(list@, ""@)) + "},"@,
            FieldReading::Tuple(list) => ident + "("@ + parted(tuple_fields(list@, ""@), ", "@)
                + "),"@,
            FieldReading::Invalid(_) => ident + ","@,
        }
    }
}

/// The types of the fields of the first variants, in order.
pub open spec fn variant_types(variants: Seq<Json>, readings: Seq<FieldReading>, n: int) -> Seq<
    Seq<char>,
>
    decreases n,
{
    if n <= 0 {
        Seq::empty()
    } else {
        variant_types(variants, readings, n - 1) + (if member_of(
            variants[n - 1],
            "fields"@,
        ) is None {
            Seq::empty()
        } else {
            types_of(readings[n - 1])
        })
    }
}

proof fn lemma_variants(variants: Seq<Json>, readings: Seq<FieldReading>, n: int)
    requires
        0 <= n <= variants.len(),
        variant_items(variants, readings, n) is Ok,
    ensures
        ({
            let (items, tys) = variant_items(variants, readings, n)->Ok_0;
            &&& items == Seq::new(n as nat, |i: int| variant_said(variants[i], readings[i]))
            &&& tys == variant_types(variants, readings, n)
        }),
    decreases n,
{
    let (items, tys) = variant_items(variants, readings, n)->Ok_0;
    let said = Seq::new(n as nat, |i: int| variant_said(variants[i], readings[i]));
    if n > 0 {
        lemma_variants(variants, readings, n - 1);
        let variant = variants[n - 1];
        let reading = readings[n - 1];
        if member_of(variant, "fields"@) is Some {
            lemma_fields(reading, false);
            match reading {
                FieldReading::Named(list) => lemma_terminated_lines(named_fields(list@, ""@)),
                FieldReading::Tuple(list) => lemma_joined_parted(
                    tuple_fields(list@, ""@),
                    ", "@,
                ),
                _ => {},
            }
        }
        assert(items.last() == variant_said(variant, reading));
        assert(items =~= said);
    } else {
        assert(items =~= said);
    }
}

/// An enum.
pub open spec fn enum_declared(
    ty_def: Json,
    entry: Option<Json>,
    variants: Seq<Seq<char>>,
    tys: Seq<Seq<char>>,
) -> Seq<char> {
    docs_of(ty_def) + "\n"@ + laid_out(ty_def, ""@) + "\n#[derive(Clone, anchor_lang::AnchorDeserialize, anchor_lang::AnchorSerialize)]\npub enum "@ + ident_of(ty_def) + " "@ + impl_generics_of(ty_def) + " {\n    "@ + lines(variants) + "\n}\n"@ + told_apart(ty_def, entry) + "\n"@ + described(ty_def, entry, tys)
}

/// An enum of a declared program has the variants of its definition, in order, each with
/// its fields. One whose bytes would be its value is refused.
pub proof fn lemma_enum_declared(ty_def: Json, accounts: Seq<Json>, readings: Seq<FieldReading>)
    requires
        type_items(ty_def, accounts, readings) is Ok,
        text_at(member_of(ty_def, "type"@)->Some_0, "kind"@) == Some("enum"@),
    ensures
        ({
            let variants = array_at(member_of(ty_def, "type"@)->Some_0, "variants"@)->Some_0;
            let count = variants.len() as int;
            let entry = entry_named(accounts, required_text(ty_def, "name"@, call_site())->Ok_0);
            &&& !bytewise(ty_def)
            &&& type_items(ty_def, accounts, readings)->Ok_0 == enum_declared(
                ty_def,
                entry,
                Seq::new(
                    variants.len(),
                    |i: int| variant_said(variants[i], readings[i]),
                ),
                variant_types(variants, readings, count),
            )
        }),
{
    let variants = array_at(member_of(ty_def, "type"@)->Some_0, "variants"@)->Some_0;
    let count = variants.len() as int;
    reveal_strlit("struct");
    reveal_strlit("enum");
    assert("struct"@.len() != "enum"@.len());
    let tys = variant_types(variants, readings, count);
    let said = Seq::new(variants.len(), |i: int| variant_said(variants[i], readings[i]));
    lemma_head(ty_def, accounts);
    lemma_variants(variants, readings, count);
    lemma_enum_items(ty_def, accounts, said, tys);
}

proof fn lemma_enum_items(
    ty_def: Json,
    accounts: Seq<Json>,
    said: Seq<Seq<char>>,
    tys: Seq<Seq<char>>,
)
    requires
        type_head(ty_def, accounts) is Ok,
    ensures
        ({
            let head = type_head(ty_def, accounts)->Ok_0;
            filled(
                ENUM@,
                seq![
                    head.docs,
                    plain_repr(head.repr),
                    head.ident,
                    head.generics.impl_generics,
                    terminated(said, "\n"@),
                    head.impls,
                    idl_impl(head, ty_def, tys),
                ],
            ) == enum_declared(ty_def, head.entry, said, tys)
        }),
{
    let head = type_head(ty_def, accounts)->Ok_0;
    lemma_head(ty_def, accounts);
    lemma_laid_out(ty_def);
    lemma_described(ty_def, accounts, tys);
    lemma_terminated_lines(said);
    lemma_enum_text(
        seq![
            docs_of(ty_def),
            laid_out(ty_def, ""@),
            ident_of(ty_def),
            impl_generics_of(ty_def),
            lines(said),
            told_apart(ty_def, head.entry),
            described(ty_def, head.entry, tys),
        ],
    );
}

/// An alias of a declared program names the type that its definition gives.
pub proof fn lemma_alias_declared(ty_def: Json, accounts: Seq<Json>, readings: Seq<FieldReading>)
    requires
        type_items(ty_def, accounts, readings) is Ok,
        text_at(member_of(ty_def, "type"@)->Some_0, "kind"@) == Some("type"@),
    ensures
        ({
            let alias = member_of(member_of(ty_def, "type"@)->Some_0, "alias"@)->Some_0;
            type_items(ty_def, accounts, readings)->Ok_0 == docs_of(ty_def) + "\npub type "@ + ident_of(ty_def) + " "@ + impl_generics_of(ty_def) + " = "@ + idl_type(alias, call_site())->Ok_0 + ";"@
        }),
{
    let alias = member_of(member_of(ty_def, "type"@)->Some_0, "alias"@)->Some_0;
    reveal_strlit("struct");
    reveal_strlit("enum");
    reveal_strlit("type");
    assert("struct"@.len() != "type"@.len());
    assert("enum"@[0] != "type"@[0]);
    lemma_head(ty_def, accounts);
    lemma_alias_text(
        seq![
            docs_of(ty_def),
            ident_of(ty_def),
            impl_generics_of(ty_def),
            idl_type(alias, call_site())->Ok_0,
        ],
    );
}

/// Every type of an interface description is declared, in order.
pub proof fn lemma_types_declared(idl: Json, readings: Seq<Vec<FieldReading>>)
    requires
        declared_items(idl, readings) is Ok,
    ensures
        ({
            let types = elements(idl, "types"@);
            let items = declared_items(idl, readings)->Ok_0;
            &&& items.len() == types.len()
            &&& forall|i: int|
                0 <= i < types.len() ==> Ok::<Seq<char>, FailureView>(#[trigger] items[i])
                    == type_items(types[i], elements(idl, "accounts"@), readings[i]@)
        }),
{
    let types = elements(idl, "types"@);
    lemma_first_declared(types, elements(idl, "accounts"@), readings, types.len() as int);
}

proof fn lemma_first_declared(
    types: Seq<Json>,
    accounts: Seq<Json>,
    readings: Seq<Vec<FieldReading>>,
    n: int,
)
    requires
        0 <= n <= types.len(),
        first_items(types, accounts, readings, n) is Ok,
    ensures
        ({
            let items = first_items(types, accounts, readings, n)->Ok_0;
            &&& items.len() == n
            &&& forall|i: int|
                0 <= i < n ==> Ok::<Seq<char>, FailureView>(#[trigger] items[i]) == type_items(
                    types[i],
                    accounts,
                    readings[i]@,
                )
        }),
    decreases n,
{
    if n > 0 {
        lemma_first_declared(types, accounts, readings, n - 1);
        let earlier = first_items(types, accounts, readings, n - 1)->Ok_0;
        let items = first_items(types, accounts, readings, n)->Ok_0;
        assert forall|i: int| 0 <= i < n implies Ok::<Seq<char>, FailureView>(#[trigger] items[i])
            == type_items(types[i], accounts, readings[i]@) by {
            if i < n - 1 {
                assert(items[i] == earlier[i]);
            }
        }
    }
}

// ---------------------------------------------------------------------------
// Constants
// ---------------------------------------------------------------------------

/// The item for a constant, by its type: bytes by what they list, a string and other
/// values by what is written, an address by its text with or without quotes.
pub open spec fn const_said(ident: Seq<char>, ty: Json, value: Seq<char>) -> Seq<char> {
    let written = expr_reading(value)->Ok_0;
    let bytes = byte_literals(byte_array(value, call_site())->Ok_0);
    if text_of(ty) == Some("bytes"@) {
        "pub const "@ + ident + ": &'static [u8] = &["@ + bytes + "];"@
    } else if text_of(ty) == Some("string"@) {
        "pub const "@ + ident + ": "@ + "&'static str"@ + " = "@ + written + ";"@
    } else if text_of(ty) == Some("pubkey"@) {
        "pub const "@ + ident + ": anchor_lang::Address = anchor_lang::address!("@ + literal_of(
            match literal_reading(value) {
                Some(text) => text,
                None => value,
            },
        ) + ");"@
    } else if is_byte_array(ty) {
        "pub const "@ + ident + ": [u8; "@ + crate::declared_types::array_len(
            array_at(ty, "array"@)->Some_0[1],
            call_site(),
        )->Ok_0 + "] = ["@ + bytes + "];"@
    } else {
        "pub const "@ + ident + ": "@ + idl_type(ty, call_site())->Ok_0 + " = "@ + written + ";"@
    }
}

/// Every constant of an interface description is declared, in order, under its own name
/// and with its comments; an array of bytes has as many as its type says.
pub proof fn lemma_constants_declared(idl: Json)
    requires
        declared_consts(idl) is Ok,
    ensures
        ({
            let list = elements(idl, "constants"@);
            let items = declared_consts(idl)->Ok_0;
            &&& items.len() == list.len()
            &&& forall|i: int|
                0 <= i < list.len() ==> {
                    let constant = #[trigger] list[i];
                    let ty = member_of(constant, "type"@)->Some_0;
                    let value = required_text(constant, "value"@, call_site())->Ok_0;
                    &&& items[i] == docs_of(constant) + const_said(
                        item_name(required_text(constant, "name"@, call_site())->Ok_0)->Ok_0,
                        ty,
                        value,
                    ) + "\n"@
                    &&& text_of(ty) is None && is_byte_array(ty) && number_of(
                        array_at(ty, "array"@)->Some_0[1],
                    ) is Some ==> byte_array(value, call_site())->Ok_0.len() == number_of(
                        array_at(ty, "array"@)->Some_0[1],
                    )->Some_0
                }
        }),
{
    let list = elements(idl, "constants"@);
    let results = list.map_values(|constant: Json| declared_const(constant));
    lemma_collected_len(results);
    assert forall|i: int| 0 <= i < list.len() implies {
        let constant = #[trigger] list[i];
        let ty = member_of(constant, "type"@)->Some_0;
        let value = required_text(constant, "value"@, call_site())->Ok_0;
        &&& declared_consts(idl)->Ok_0[i] == docs_of(constant) + const_said(
            item_name(required_text(constant, "name"@, call_site())->Ok_0)->Ok_0,
            ty,
            value,
        ) + "\n"@
        &&& text_of(ty) is None && is_byte_array(ty) && number_of(
            array_at(ty, "array"@)->Some_0[1],
        ) is Some ==> byte_array(value, call_site())->Ok_0.len() == number_of(
            array_at(ty, "array"@)->Some_0[1],
        )->Some_0
    } by {
        assert(results[i] == declared_const(list[i]));
        lemma_docs(list[i]);
    }
}

} // verus!
