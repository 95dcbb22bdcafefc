//! What the code for events and described types says.

use crate::account::ExpansionView;
use crate::attrs::{attrs_text, cfg_text, Attribute, Token};
use crate::discriminator::hashed;
use crate::event::{
    discriminator_impl, event_expansion, event_header, field_diagnostic, field_diagnostics,
    EventIdl, IDL_EVENT_PRINT, IDL_EVENT_TYPE,
};
use crate::event_texts::{
    lemma_bytemuck_event_text, lemma_event_cpi_struct_text, lemma_event_discriminator_text,
    lemma_field_diagnostic_text, lemma_idl_event_print_text, lemma_idl_event_type_text,
    lemma_idl_type_impl_text, lemma_variant_walker_text, lemma_wincode_event_text,
};
use crate::failure::{diagnostic, FailureView};
use crate::handler::byte_literals;
use crate::idl_type::idl_type_expansion;
use crate::item_laws::{
    all_attributes, checked_pod, conditions, lemma_conditions, lemma_fields_told, registered,
    size_added,
};
use crate::items::{Data, DeriveInput, Field, Variant};
use crate::names::item_name;
use crate::outside::{literal_of, lowercase_of};
use crate::passages::{
    each_of, lemma_each_of, lemma_some_present, lemma_terminated_lines, lines, present,
};
use crate::pod_fields::{
    dep_walkers, event_field_message, fields_of, variant_walkers, VARIANT_WALKER,
};
use crate::template::filled;
use crate::text::{some_texts, terminated, texts};
use crate::wincode::{field_failures, variant_failures, wincode_failure, GatedFailureView};
use crate::wrappers::{event_cpi_code, EventCpiStruct};
use vstd::prelude::*;

verus! {

// ---------------------------------------------------------------------------
// Failures of fields
// ---------------------------------------------------------------------------

/// The failure of a field, under the conditions round it and its own.
pub open spec fn gated_by(surface: Seq<char>, outer: Seq<char>, field: Field) -> Seq<
    GatedFailureView,
> {
    match wincode_failure(surface, field.attrs@) {
        Some(failure) => seq![
            GatedFailureView { cfg: outer + conditions(field.attrs@), failure },
        ],
        None => Seq::empty(),
    }
}

/// The failures of fields, in order.
pub open spec fn gated_in(surface: Seq<char>, outer: Seq<char>, fields: Seq<Field>) -> Seq<
    GatedFailureView,
>
    decreases fields.len(),
{
    if fields.len() == 0 {
        Seq::empty()
    } else {
        gated_by(surface, outer, fields[0]) + gated_in(surface, outer, fields.skip(1))
    }
}

/// The failures of the fields of variants, in order.
pub open spec fn gated_in_variants(surface: Seq<char>, variants: Seq<Variant>) -> Seq<
    GatedFailureView,
>
    decreases variants.len(),
{
    if variants.len() == 0 {
        Seq::empty()
    } else {
        gated_in(surface, conditions(variants[0].attrs@), variants[0].fields@) + gated_in_variants(
            surface,
            variants.skip(1),
        )
    }
}

proof fn lemma_gated_more(
    surface: Seq<char>,
    outer: Seq<char>,
    fields: Seq<Field>,
    last: Field,
)
    ensures
        gated_in(surface, outer, fields.push(last)) == gated_in(surface, outer, fields) + gated_by(
            surface,
            outer,
            last,
        ),
    decreases fields.len(),
{
    let more = fields.push(last);
    let end = gated_by(surface, outer, last);
    if fields.len() == 0 {
        assert(more.skip(1) =~= fields);
        assert(gated_in(surface, outer, more) =~= gated_in(surface, outer, fields) + end);
    } else {
        lemma_gated_more(surface, outer, fields.skip(1), last);
        assert(more.skip(1) =~= fields.skip(1).push(last));
        assert(gated_in(surface, outer, more) =~= gated_in(surface, outer, fields) + end);
    }
}

proof fn lemma_gated_in(surface: Seq<char>, outer: Seq<char>, fields: Seq<Field>)
    ensures
        field_failures(surface, outer, fields) == gated_in(surface, outer, fields),
    decreases fields.len(),
{
    if fields.len() > 0 {
        let before = fields.drop_last();
        lemma_gated_in(surface, outer, before);
        lemma_gated_more(surface, outer, before, fields.last());
        assert(before.push(fields.last()) =~= fields);
        lemma_conditions(fields.last().attrs@);
        assert(field_failures(surface, outer, fields) =~= field_failures(surface, outer, before)
            + gated_by(surface, outer, fields.last()));
    }
}

proof fn lemma_gated_more_variants(surface: Seq<char>, variants: Seq<Variant>, last: Variant)
    ensures
        gated_in_variants(surface, variants.push(last)) == gated_in_variants(surface, variants)
            + gated_in(surface, conditions(last.attrs@), last.fields@),
    decreases variants.len(),
{
    let more = variants.push(last);
    let end = gated_in(surface, conditions(last.attrs@), last.fields@);
    if variants.len() == 0 {
        assert(more.skip(1) =~= variants);
        assert(gated_in_variants(surface, more) =~= gated_in_variants(surface, variants) + end);
    } else {
        lemma_gated_more_variants(surface, variants.skip(1), last);
        assert(more.skip(1) =~= variants.skip(1).push(last));
        assert(gated_in_variants(surface, more) =~= gated_in_variants(surface, variants) + end);
    }
}

proof fn lemma_gated_in_variants(surface: Seq<char>, variants: Seq<Variant>)
    ensures
        variant_failures(surface, variants) == gated_in_variants(surface, variants),
    decreases variants.len(),
{
    if variants.len() > 0 {
        let before = variants.drop_last();
        let last = variants.last();
        lemma_gated_in_variants(surface, before);
        lemma_gated_more_variants(surface, before, last);
        assert(before.push(last) =~= variants);
        lemma_conditions(last.attrs@);
        lemma_gated_in(surface, cfg_text(last.attrs@), last.fields@);
    }
}

// ---------------------------------------------------------------------------
// Events
// ---------------------------------------------------------------------------

/// What an event is told apart by: the head of the digest of its name.
pub open spec fn told_apart_by(name: Seq<char>) -> Seq<char> {
    "impl anchor_lang::Discriminator for "@ + name + " {\n    const DISCRIMINATOR: &'static [u8] = &["@ + byte_literals(hashed("event"@, name)) + "];\n}"@
}

/// What an event says in the interface description.
pub open spec fn event_described(name: Seq<char>, idl: EventIdl, all: Seq<Field>) -> Seq<char> {
    "#[cfg(feature = \"idl-build\")]\n#[doc(hidden)]\nimpl anchor_lang::IdlAccountType for "@ + name + " {\n    fn __idl_type_def() -> Option<&'static str> {\n        "@ + idl.type_def@ + "\n    }\n    fn __register_idl_deps(\n        accounts: &mut ::anchor_lang::__alloc::vec::Vec<&'static str>,\n        types: &mut ::anchor_lang::__alloc::vec::Vec<&'static str>,\n    ) {\n        if let Some(t) = <Self as anchor_lang::IdlAccountType>::__idl_type_def() {\n            types.push(t);\n        }\n        "@ + each_of(all, |field: Field| registered(field)) + "\n    }\n}"@
}

/// How the description of an event is printed: its name and its discriminator, and then
/// the types that it depends on.
pub open spec fn event_printed(name: Seq<char>, disc: Seq<char>, test_name: Seq<char>) -> Seq<char> {
    "#[cfg(all(test, feature = \"idl-build\"))]\n#[test]\nfn "@ + test_name + "() {\n    let mut __accounts: anchor_lang::__alloc::vec::Vec<&'static str> =\n        anchor_lang::__alloc::vec::Vec::new();\n    let mut __types: anchor_lang::__alloc::vec::Vec<&'static str> =\n        anchor_lang::__alloc::vec::Vec::new();\n    <"@ + name + " as anchor_lang::IdlAccountType>::__register_idl_deps(\n        &mut __accounts,\n        &mut __types,\n    );\n    __types.sort();\n    __types.dedup();\n    let mut __payload = anchor_lang::__alloc::string::String::from("@ + literal_of("{\"event\":{\"name\":\""@ + name + "\",\"discriminator\":"@ + disc + "},\"types\":["@) + ");\n    let mut __first = true;\n    for __t in &__types {\n        if !__first { __payload.push(','); }\n        __first = false;\n        __payload.push_str(__t);\n    }\n    __payload.push_str(\"]}\");\n    println!(\"--- IDL begin event ---\");\n    println!(\"{}\", __payload);\n    println!(\"--- IDL end event ---\");\n}"@
}

/// The error for a field whose bytes are not its value.
pub open spec fn told_off(field: Field) -> Option<Seq<char>> {
    match event_field_message(
        field.ty,
        match field.name {
            Some(name) => name.text@,
            None => ""@,
        },
    ) {
        Some(message) => Some(conditions(field.attrs@) + "\n::core::compile_error!("@ + literal_of(message) + ");"@),
        None => None,
    }
}

/// An event that is encoded: it derives its schema, and what is logged is its
/// discriminator and then its encoding.
pub open spec fn encoded_event(
    input: DeriveInput,
    all: Seq<Field>,
    idl: EventIdl,
    disc: Seq<char>,
    test_name: Seq<char>,
) -> Seq<char> {
    let name = input.ident.text@;
    "#[derive(anchor_lang::AnchorSerialize)]\n"@ + all_attributes(input.attrs@) + "\n"@ + input.vis@ + " struct "@ + name + " "@ + input.fields_text@ + "\n\n"@ + told_apart_by(name) + "\n\nimpl anchor_lang::Event for "@ + name + " {\n    fn data(&self) -> anchor_lang::__alloc::vec::Vec<u8> {\n        let disc = <Self as anchor_lang::Discriminator>::DISCRIMINATOR;\n        let mut buf = anchor_lang::__alloc::vec::Vec::with_capacity(\n            disc.len() + 256,\n        );\n        buf.extend_from_slice(disc);\n        anchor_lang::wincode::config::serialize_into(\n            &mut buf,\n            self,\n            anchor_lang::BORSH_CONFIG,\n        )\n            .expect(\"`#[event]` wincode serialization cannot fail for \\\n                     derived AnchorSerialize types\");\n        buf\n    }\n}\n\n"@ + event_described(name, idl, all) + "\n\n"@ + event_printed(name, disc, test_name)
}

/// An event that is copied byte by byte: its fields are checked for that, it has no
/// padding, and what is logged is its discriminator and then its bytes.
pub open spec fn copied_event(
    input: DeriveInput,
    all: Seq<Field>,
    idl: EventIdl,
    disc: Seq<char>,
    test_name: Seq<char>,
) -> Seq<char> {
    let name = input.ident.text@;
    "#[repr(C)]\n#[derive(::core::clone::Clone, ::core::marker::Copy)]\n"@ + all_attributes(input.attrs@) + "\n"@ + input.vis@ + " struct "@ + name + " "@ + input.fields_text@ + "\n\n"@ + lines(present(all.map_values(|field: Field| told_off(field)))) + "\n\n"@ + each_of(all, |field: Field| checked_pod(field)) + "\n\nconst _: () = {\n    let mut __size = 0usize;\n    "@ + each_of(all, |field: Field| size_added(field, "::core"@)) + "\n    ::core::assert!(\n        ::core::mem::size_of::<"@ + name + ">() == __size,\n        \"`#[event]` struct has `repr(C)` alignment padding — \\\n         reorder fields from largest to smallest alignment (u128/u64 \\\n         first, then u32, then u16, then u8/bool), or drop the \\\n         `bytemuck` flag and use the default `#[event]` (wincode) \\\n         for arbitrary layouts\"\n    );\n};\n\nunsafe impl anchor_lang::bytemuck::Pod for "@ + name + " {}\nunsafe impl anchor_lang::bytemuck::Zeroable for "@ + name + " {}\n\n"@ + told_apart_by(name) + "\n\nimpl anchor_lang::Event for "@ + name + " {\n    fn data(&self) -> anchor_lang::__alloc::vec::Vec<u8> {\n        const SIZE: usize = ::core::mem::size_of::<"@ + name + ">();\n        let disc = <Self as anchor_lang::Discriminator>::DISCRIMINATOR;\n        let mut buf = anchor_lang::__alloc::vec::Vec::with_capacity(\n            disc.len() + SIZE,\n        );\n        buf.extend_from_slice(disc);\n        let start = buf.len();\n        buf.resize(start + SIZE, 0);\n        unsafe {\n            ::core::ptr::copy_nonoverlapping(\n                self as *const Self as *const u8,\n                buf.as_mut_ptr().add(start),\n                SIZE,\n            );\n        }\n        buf\n    }\n}\n\n"@ + event_described(name, idl, all) + "\n\n"@ + event_printed(name, disc, test_name)
}

proof fn lemma_event_parts(
    input: DeriveInput,
    all: Seq<Field>,
    idl: EventIdl,
    disc: Seq<char>,
    test_name: Seq<char>,
)
    ensures
        ({
            let name = input.ident.text@;
            &&& attrs_text(input.attrs@) == all_attributes(input.attrs@)
            &&& discriminator_impl(name) == told_apart_by(name)
            &&& filled(IDL_EVENT_TYPE@, seq![name, idl.type_def@, dep_walkers(all)])
                == event_described(name, idl, all)
            &&& filled(
                IDL_EVENT_PRINT@,
                seq![test_name, name, literal_of(event_header(name, disc))],
            ) == event_printed(name, disc, test_name)
            &&& field_diagnostics(all) == lines(
                present(all.map_values(|field: Field| told_off(field))),
            )
        }),
{
    let name = input.ident.text@;
    lemma_fields_told(all, "::core"@);
    lemma_each_of(
        input.attrs@,
        |attr: Attribute| attr.tokens@ + "\n"@,
        |attr: Attribute| attr.tokens@ + "\n"@,
    );
    lemma_event_discriminator_text(seq![name, byte_literals(hashed("event"@, name))]);
    lemma_idl_event_type_text(seq![name, idl.type_def@, dep_walkers(all)]);
    lemma_idl_event_print_text(seq![test_name, name, literal_of(event_header(name, disc))]);
    let texts = all.map_values(|field: Field| field_diagnostic(field));
    let said = all.map_values(|field: Field| told_off(field));
    assert forall|i: int| 0 <= i < all.len() implies texts[i] == #[trigger] said[i] by {
        let field = all[i];
        lemma_conditions(field.attrs@);
        let message = event_field_message(
            field.ty,
            match field.name {
                Some(name) => name.text@,
                None => ""@,
            },
        );
        if message is Some {
            lemma_field_diagnostic_text(
                seq![cfg_text(field.attrs@), literal_of(message->Some_0)],
            );
        }
    }
    assert(texts =~= said);
    lemma_some_present(texts);
    lemma_terminated_lines(some_texts(texts));
}

/// The code for an event. Without a mode the event is encoded; with one it is copied byte
/// by byte. In both it is told apart by the head of the digest of its name, which comes
/// first in what is logged of it.
pub proof fn lemma_event_written(
    attr: Seq<Token>,
    input: DeriveInput,
    idl: EventIdl,
    disc: Seq<char>,
)
    requires
        event_expansion(attr, input, idl, disc) is Ok,
    ensures
        ({
            let all = fields_of(input.data->Struct_0);
            let test_name = item_name(
                "__anchor_private_print_idl_event_"@ + lowercase_of(input.ident.text@),
            )->Ok_0;
            let out = event_expansion(attr, input, idl, disc)->Ok_0;
            &&& attr.len() == 0 ==> {
                &&& out.code == encoded_event(input, all, idl, disc, test_name)
                &&& out.gated == gated_in("`#[event]`"@, ""@, all)
            }
            &&& attr.len() > 0 ==> {
                &&& out.code == copied_event(input, all, idl, disc, test_name)
                &&& out.gated.len() == 0
            }
        }),
{
    let name = input.ident.text@;
    let all = fields_of(input.data->Struct_0);
    let test_name = item_name("__anchor_private_print_idl_event_"@ + lowercase_of(name))->Ok_0;
    lemma_event_parts(input, all, idl, disc, test_name);
    lemma_fields_told(all, "::core"@);
    lemma_gated_in("`#[event]`"@, ""@, all);
    if attr.len() == 0 {
        lemma_wincode_event_text(
            seq![
                all_attributes(input.attrs@),
                input.vis@,
                name,
                input.fields_text@,
                told_apart_by(name),
                event_described(name, idl, all),
                event_printed(name, disc, test_name),
            ],
        );
    } else {
        lemma_bytemuck_event_text(
            seq![
                all_attributes(input.attrs@),
                input.vis@,
                name,
                input.fields_text@,
                lines(present(all.map_values(|field: Field| told_off(field)))),
                each_of(all, |field: Field| checked_pod(field)),
                each_of(all, |field: Field| size_added(field, "::core"@)),
                told_apart_by(name),
                event_described(name, idl, all),
                event_printed(name, disc, test_name),
            ],
        );
    }
}

// ---------------------------------------------------------------------------
// Described types
// ---------------------------------------------------------------------------

/// The statements that register what the fields of a variant depend on.
pub open spec fn registered_in(variant: Variant) -> Seq<char> {
    conditions(variant.attrs@) + "\n{\n    "@ + each_of(variant.fields@, |field: Field| registered(field)) + "\n}"@ + "\n"@
}

proof fn lemma_variants_told(variants: Seq<Variant>)
    ensures
        variant_walkers(variants) == each_of(variants, |variant: Variant| registered_in(variant)),
{
    assert forall|i: int| 0 <= i < variants.len() implies filled(
        VARIANT_WALKER@,
        seq![cfg_text((#[trigger] variants[i]).attrs@), dep_walkers(variants[i].fields@)],
    ) + "\n"@ == registered_in(variants[i]) by {
        lemma_conditions(variants[i].attrs@);
        lemma_fields_told(variants[i].fields@, "core"@);
        lemma_variant_walker_text(
            seq![cfg_text(variants[i].attrs@), dep_walkers(variants[i].fields@)],
        );
    }
    lemma_each_of(
        variants,
        |variant: Variant|
            filled(
                VARIANT_WALKER@,
                seq![cfg_text(variant.attrs@), dep_walkers(variant.fields@)],
            ) + "\n"@,
        |variant: Variant| registered_in(variant),
    );
}

/// The code for a described type registers its own definition and then what each of its
/// fields depends on, in order; a field that is left out under some condition is
/// registered under the same. A union is refused.
pub proof fn lemma_type_described(input: DeriveInput, type_def: Seq<char>)
    ensures
        ({
            let out = idl_type_expansion(input, type_def);
            let deps = match input.data {
                Data::Struct(fields) => each_of(
                    fields_of(fields),
                    |field: Field| registered(field),
                ),
                Data::Enum(variants) => each_of(
                    variants@,
                    |variant: Variant| registered_in(variant),
                ),
                Data::Union => ""@,
            };
            let gated = match input.data {
                Data::Struct(fields) => gated_in("`#[derive(IdlType)]`"@, ""@, fields_of(fields)),
                Data::Enum(variants) => gated_in_variants("`#[derive(IdlType)]`"@, variants@),
                Data::Union => Seq::empty(),
            };
            match input.data {
                Data::Union => out == Err::<ExpansionView, FailureView>(
                    diagnostic(
                        input.ident.span,
                        "`#[derive(IdlType)]` does not support unions — use a struct or enum instead"@,
                    ),
                ),
                _ => out == Ok::<ExpansionView, FailureView>(
                    ExpansionView {
                        code: "#[cfg(feature = \"idl-build\")]\n#[doc(hidden)]\nimpl "@ + input.impl_generics@ + " anchor_lang::IdlAccountType for "@ + input.ident.text@ + " "@ + input.ty_generics@ + " "@ + input.where_clause@ + " {\n    fn __idl_type_def() -> Option<&'static str> {\n        "@ + type_def + "\n    }\n    fn __register_idl_deps(\n        accounts: &mut ::anchor_lang::__alloc::vec::Vec<&'static str>,\n        types: &mut ::anchor_lang::__alloc::vec::Vec<&'static str>,\n    ) {\n        if let Some(t) = <Self as anchor_lang::IdlAccountType>::__idl_type_def() {\n            types.push(t);\n        }\n        "@ + deps + "\n    }\n}"@,
                        gated,
                    },
                ),
            }
        }),
{
    match input.data {
        Data::Struct(fields) => {
            lemma_fields_told(fields_of(fields), "core"@);
            lemma_gated_in("`#[derive(IdlType)]`"@, ""@, fields_of(fields));
            lemma_idl_type_impl_text(
                seq![
                    input.impl_generics@,
                    input.ident.text@,
                    input.ty_generics@,
                    input.where_clause@,
                    type_def,
                    dep_walkers(fields_of(fields)),
                ],
            );
        },
        Data::Enum(variants) => {
            lemma_variants_told(variants@);
            lemma_gated_in_variants("`#[derive(IdlType)]`"@, variants@);
            lemma_idl_type_impl_text(
                seq![
                    input.impl_generics@,
                    input.ident.text@,
                    input.ty_generics@,
                    input.where_clause@,
                    type_def,
                    variant_walkers(variants@),
                ],
            );
        },
        Data::Union => {},
    }
}

// ---------------------------------------------------------------------------
// Accounts for events
// ---------------------------------------------------------------------------

/// A struct with named fields keeps them in order and gets the event authority and the
/// program behind them. Another is refused.
pub proof fn lemma_event_accounts_added(item: EventCpiStruct)
    ensures
        event_cpi_code(item) == (if item.named && !item.semicolon {
            Ok(item.attrs@ + "\n"@ + (item.vis@ + " struct"@) + " "@ + item.ident.text@ + " "@ + item.generics@ + " {\n    "@ + each_of(item.fields@, |field: String| field@ + ",\n"@) + "\n\n    /// CHECK: Only the event authority can invoke self-CPI\n    #[account(seeds = [b\"__event_authority\"], bump)]\n    pub event_authority: anchor_lang::accounts::UncheckedAccount,\n    /// CHECK: Kept for v1-compatible account ordering and IDL shape\n    pub program: anchor_lang::accounts::UncheckedAccount,\n}"@)
        } else {
            Err(
                diagnostic(
                    item.ident.span,
                    "`#[event_cpi]` only supports accounts structs with named fields"@,
                ),
            )
        }),
{
    let fields = item.fields@.map_values(|field: String| field@ + ",\n"@);
    let ended = |part: Seq<char>| part + ",\n"@;
    assert(texts(item.fields@).map_values(ended) =~= fields);
    lemma_each_of(
        item.fields@,
        |field: String| field@ + ",\n"@,
        |field: String| field@ + ",\n"@,
    );
    lemma_event_cpi_struct_text(
        seq![
            item.attrs@,
            item.vis@ + " struct"@,
            item.ident.text@,
            item.generics@,
            terminated(texts(item.fields@), ",\n"@),
        ],
    );
}

} // verus!
