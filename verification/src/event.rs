//! The `event` macro.

use crate::account::{expansion_view, Expansion, ExpansionView};
use crate::attrs::{attrs_text, cfg_attrs, cfg_text, print_attrs, Token};
use crate::discriminator::{hashed, hashed_discriminator, may_write, write_disc, writes_any};
use crate::failure::{diagnostic, new_diagnostic, Failure, FailureView};
use crate::handler::{byte_literals, print_byte_literals};
use crate::items::{Data, DeriveInput, Field, Fields};
use crate::modes::{event_mode, parse_event_mode, EventMode};
use crate::names::{item_name, new_ident};
use crate::outside::{literal_of, lowercase, lowercase_of, string_literal};
use crate::pod_fields::{
    cfg_field_dep_walkers, dep_walkers, diagnose_non_pod_event_field, event_field_message,
    fields_of, list_fields, pod_asserts, print_pod_asserts, print_size_steps, size_steps,
};
use crate::template::{fill10, fill2, fill3, fill7, filled};
use crate::text::{filter_map_texts, option_text, some_texts, terminate_strings, terminated};
use crate::wincode::{
    field_failures, gated_view, wincode_idl_override_tokens_for_fields, GatedFailure,
    GatedFailureView,
};
use vstd::prelude::*;

verus! {

/// The discriminator of an event.
pub const EVENT_DISCRIMINATOR: &'static str = r#"impl anchor_lang::Discriminator for @a {
    const DISCRIMINATOR: &'static [u8] = &[@b];
}"#;

/// Prints an event for the interface description.
pub const IDL_EVENT_PRINT: &'static str = r#"#[cfg(all(test, feature = "idl-build"))]
#[test]
fn @a() {
    let mut __accounts: anchor_lang::__alloc::vec::Vec<&'static str> =
        anchor_lang::__alloc::vec::Vec::new();
    let mut __types: anchor_lang::__alloc::vec::Vec<&'static str> =
        anchor_lang::__alloc::vec::Vec::new();
    <@b as anchor_lang::IdlAccountType>::__register_idl_deps(
        &mut __accounts,
        &mut __types,
    );
    __types.sort();
    __types.dedup();
    let mut __payload = anchor_lang::__alloc::string::String::from(@c);
    let mut __first = true;
    for __t in &__types {
        if !__first { __payload.push(','); }
        __first = false;
        __payload.push_str(__t);
    }
    __payload.push_str("]}");
    println!("--- IDL begin event ---");
    println!("{}", __payload);
    println!("--- IDL end event ---");
}"#;

/// The type of an event in the interface description.
pub const IDL_EVENT_TYPE: &'static str = r#"#[cfg(feature = "idl-build")]
#[doc(hidden)]
impl anchor_lang::IdlAccountType for @a {
    fn __idl_type_def() -> Option<&'static str> {
        @b
    }
    fn __register_idl_deps(
        accounts: &mut ::anchor_lang::__alloc::vec::Vec<&'static str>,
        types: &mut ::anchor_lang::__alloc::vec::Vec<&'static str>,
    ) {
        if let Some(t) = <Self as anchor_lang::IdlAccountType>::__idl_type_def() {
            types.push(t);
        }
        @c
    }
}"#;

/// An event that is serialized.
pub const WINCODE_EVENT: &'static str = r#"#[derive(anchor_lang::AnchorSerialize)]
@a
@b struct @c @d

@e

impl anchor_lang::Event for @c {
    fn data(&self) -> anchor_lang::__alloc::vec::Vec<u8> {
        let disc = <Self as anchor_lang::Discriminator>::DISCRIMINATOR;
        let mut buf = anchor_lang::__alloc::vec::Vec::with_capacity(
            disc.len() + 256,
        );
        buf.extend_from_slice(disc);
        anchor_lang::wincode::config::serialize_into(
            &mut buf,
            self,
            anchor_lang::BORSH_CONFIG,
        )
            .expect("`#[event]` wincode serialization cannot fail for \
                     derived AnchorSerialize types");
        buf
    }
}

@f

@g"#;

/// Reports a field that cannot be copied byte by byte.
pub const FIELD_DIAGNOSTIC: &'static str = r#"@a
::core::compile_error!(@b);"#;

/// An event that is copied byte by byte.
pub const BYTEMUCK_EVENT: &'static str = r#"#[repr(C)]
#[derive(::core::clone::Clone, ::core::marker::Copy)]
@a
@b struct @c @d

@e

@f

const _: () = {
    let mut __size = 0usize;
    @g
    ::core::assert!(
        ::core::mem::size_of::<@c>() == __size,
        "`#[event]` struct has `repr(C)` alignment padding — \
         reorder fields from largest to smallest alignment (u128/u64 \
         first, then u32, then u16, then u8/bool), or drop the \
         `bytemuck` flag and use the default `#[event]` (wincode) \
         for arbitrary layouts"
    );
};

unsafe impl anchor_lang::bytemuck::Pod for @c {}
unsafe impl anchor_lang::bytemuck::Zeroable for @c {}

@h

impl anchor_lang::Event for @c {
    fn data(&self) -> anchor_lang::__alloc::vec::Vec<u8> {
        const SIZE: usize = ::core::mem::size_of::<@c>();
        let disc = <Self as anchor_lang::Discriminator>::DISCRIMINATOR;
        let mut buf = anchor_lang::__alloc::vec::Vec::with_capacity(
            disc.len() + SIZE,
        );
        buf.extend_from_slice(disc);
        let start = buf.len();
        buf.resize(start + SIZE, 0);
        unsafe {
            ::core::ptr::copy_nonoverlapping(
                self as *const Self as *const u8,
                buf.as_mut_ptr().add(start),
                SIZE,
            );
        }
        buf
    }
}

@i

@j"#;

/// What the interface description says of an event besides its discriminator: whether
/// its layout can be described, and an expression for its type.
pub struct EventIdl {
    pub repr: Result<(), Failure>,
    pub type_def: String,
}

/// The beginning of the description of an event.
pub open spec fn event_header(name: Seq<char>, disc: Seq<char>) -> Seq<char> {
    "{\"event\":{\"name\":\""@ + name + "\",\"discriminator\":"@ + disc + "},\"types\":["@
}

/// The name of a field; nothing where it has none.
pub open spec fn name_or_nothing(field: Field) -> Seq<char> {
    match field.name {
        Some(name) => name.text@,
        None => ""@,
    }
}

/// The statement that reports a field that cannot be copied byte by byte.
pub open spec fn field_diagnostic(field: Field) -> Option<Seq<char>> {
    match event_field_message(field.ty, name_or_nothing(field)) {
        Some(message) => Some(
            filled(FIELD_DIAGNOSTIC@, seq![cfg_text(field.attrs@), literal_of(message)]),
        ),
        None => None,
    }
}

/// The statements that report the fields that cannot be copied byte by byte.
pub open spec fn field_diagnostics(fields: Seq<Field>) -> Seq<char> {
    terminated(some_texts(fields.map_values(|field: Field| field_diagnostic(field))), "\n"@)
}

/// What the event of a name is told apart by.
pub open spec fn discriminator_impl(name: Seq<char>) -> Seq<char> {
    filled(EVENT_DISCRIMINATOR@, seq![name, byte_literals(hashed("event"@, name))])
}

/// The code for an event, in the given mode, with its discriminator as JSON and the name
/// of the test that prints it.
pub open spec fn event_code(
    input: DeriveInput,
    fields: Fields,
    mode: EventMode,
    idl: EventIdl,
    disc: Seq<char>,
    test_name: Seq<char>,
) -> ExpansionView {
    let name = input.ident.text@;
    let all = fields_of(fields);
    let discriminator = discriminator_impl(name);
    let idl_type = filled(IDL_EVENT_TYPE@, seq![name, idl.type_def@, dep_walkers(all)]);
    let print = filled(
        IDL_EVENT_PRINT@,
        seq![test_name, name, literal_of(event_header(name, disc))],
    );
    match mode {
        EventMode::Wincode => ExpansionView {
            code: filled(
                WINCODE_EVENT@,
                seq![
                    attrs_text(input.attrs@),
                    input.vis@,
                    name,
                    input.fields_text@,
                    discriminator,
                    idl_type,
                    print,
                ],
            ),
            gated: field_failures("`#[event]`"@, ""@, all),
        },
        EventMode::Bytemuck => ExpansionView {
            code: filled(
                BYTEMUCK_EVENT@,
                seq![
                    attrs_text(input.attrs@),
                    input.vis@,
                    name,
                    input.fields_text@,
                    field_diagnostics(all),
                    pod_asserts(all),
                    size_steps(all, "::core"@),
                    discriminator,
                    idl_type,
                    print,
                ],
            ),
            gated: Seq::empty(),
        },
    }
}

/// What the `event` macro gives, with the discriminator as JSON.
pub open spec fn event_expansion(
    attr: Seq<Token>,
    input: DeriveInput,
    idl: EventIdl,
    disc: Seq<char>,
) -> Result<ExpansionView, FailureView> {
    match event_mode(attr) {
        Err(failure) => Err(failure),
        Ok(mode) => match input.data {
            Data::Struct(fields) => match idl.repr {
                Err(failure) if mode == EventMode::Bytemuck => Err(failure@),
                _ => match item_name(
                    "__anchor_private_print_idl_event_"@ + lowercase_of(input.ident.text@),
                ) {
                    Err(failure) => Err(failure),
                    Ok(test_name) => Ok(event_code(input, fields, mode, idl, disc, test_name)),
                },
            },
            _ => Err(diagnostic(input.ident.span, "`#[event]` only supports structs"@)),
        },
    }
}

fn print_field_diagnostic(field: &Field) -> (out: Option<String>)
    ensures
        option_text(out) == field_diagnostic(*field),
{
    let name = match &field.name {
        Some(name) => name.text.clone(),
        None => "".to_owned(),
    };
    match diagnose_non_pod_event_field(&field.ty, name.as_str()) {
        Some(message) => Some(
            fill2(
                FIELD_DIAGNOSTIC,
                cfg_attrs(&field.attrs).as_str(),
                string_literal(message.as_str()).as_str(),
            ),
        ),
        None => None,
    }
}

fn print_field_diagnostics(fields: &Vec<Field>) -> (out: String)
    ensures
        out@ == field_diagnostics(fields@),
{
    let parts = filter_map_texts(
        fields,
        |field: &Field| -> (s: Option<String>)
            ensures
                option_text(s) == field_diagnostic(*field)
            { print_field_diagnostic(field) },
        Ghost(|field: Field| field_diagnostic(field)),
    );
    terminate_strings(&parts, "\n")
}

/// Expands the `event` macro. `disc_json` writes a discriminator as JSON: it is given the
/// bytes that the code holds.
pub fn event<W: Fn(&Vec<u8>) -> String>(
    attr: &Vec<Token>,
    input: &DeriveInput,
    idl: EventIdl,
    disc_json: &W,
) -> (out: Result<Expansion, Failure>)
    requires
        writes_any(*disc_json),
    ensures
        exists|disc: Seq<char>|
            #![trigger may_write(*disc_json, hashed("event"@, input.ident.text@), disc)]
            may_write(*disc_json, hashed("event"@, input.ident.text@), disc) && expansion_view(out)
                == event_expansion(attr@, *input, idl, disc),
{
    let bytes = hashed_discriminator("event", input.ident.text.as_str());
    let disc = write_disc(disc_json, &bytes);
    described_event(attr, input, idl, disc.as_str())
}

/// Expands the `event` macro, given the discriminator as JSON.
pub fn described_event(attr: &Vec<Token>, input: &DeriveInput, idl: EventIdl, disc: &str) -> (out:
    Result<Expansion, Failure>)
    ensures
        expansion_view(out) == event_expansion(attr@, *input, idl, disc@),
{
    let mode = match parse_event_mode(attr) {
        Ok(mode) => mode,
        Err(failure) => return Err(failure),
    };
    let fields = match &input.data {
        Data::Struct(fields) => fields,
        _ => {
            return Err(
                new_diagnostic(input.ident.span, "`#[event]` only supports structs".to_owned()),
            );
        },
    };
    if let Err(failure) = idl.repr {
        if mode == EventMode::Bytemuck {
            return Err(failure);
        }
    }
    let name = input.ident.text.as_str();
    let test_name = match new_ident(
        "__anchor_private_print_idl_event_".to_owned().concat(lowercase(name).as_str()),
    ) {
        Ok(test_name) => test_name,
        Err(failure) => return Err(failure),
    };
    let none: Vec<Field> = Vec::new();
    let all = list_fields(fields, &none);
    let discriminator = fill2(
        EVENT_DISCRIMINATOR,
        name,
        print_byte_literals(&hashed_discriminator("event", name)).as_str(),
    );
    let idl_type = fill3(
        IDL_EVENT_TYPE,
        name,
        idl.type_def.as_str(),
        cfg_field_dep_walkers(all).as_str(),
    );
    let header = "{\"event\":{\"name\":\"".to_owned().concat(name).concat(
        "\",\"discriminator\":",
    ).concat(disc).concat("},\"types\":[");
    let print = fill3(
        IDL_EVENT_PRINT,
        test_name.as_str(),
        name,
        string_literal(header.as_str()).as_str(),
    );
    let attrs = print_attrs(&input.attrs);
    match mode {
        EventMode::Wincode => Ok(
            Expansion {
                code: fill7(
                    WINCODE_EVENT,
                    attrs.as_str(),
                    input.vis.as_str(),
                    name,
                    input.fields_text.as_str(),
                    discriminator.as_str(),
                    idl_type.as_str(),
                    print.as_str(),
                ),
                gated: wincode_idl_override_tokens_for_fields("`#[event]`", all),
            },
        ),
        EventMode::Bytemuck => {
            let gated: Vec<GatedFailure> = Vec::new();
            assert(gated_view(gated@) == Seq::<GatedFailureView>::empty());
            Ok(
                Expansion {
                    code: fill10(
                        BYTEMUCK_EVENT,
                        attrs.as_str(),
                        input.vis.as_str(),
                        name,
                        input.fields_text.as_str(),
                        print_field_diagnostics(all).as_str(),
                        print_pod_asserts(all).as_str(),
                        print_size_steps(all, "::core").as_str(),
                        discriminator.as_str(),
                        idl_type.as_str(),
                        print.as_str(),
                    ),
                    gated,
                },
            )
        },
    }
}

} // verus!
