//! The `IdlType` derive.

use crate::account::{expansion_view, Expansion, ExpansionView};
use crate::failure::{diagnostic, new_diagnostic, Failure, FailureView};
use crate::items::{Data, DeriveInput, Field};
use crate::pod_fields::{
    cfg_field_dep_walkers, cfg_variant_dep_walkers, dep_walkers, fields_of, list_fields,
    variant_walkers,
};
use crate::template::{fill6, filled};
use crate::wincode::{
    field_failures, variant_failures, wincode_idl_override_tokens_for_fields,
    wincode_idl_override_tokens_for_variants,
};
use vstd::prelude::*;

verus! {

/// The implementation for a type of the interface description.
pub const IDL_TYPE_IMPL: &'static str = r#"#[cfg(feature = "idl-build")]
#[doc(hidden)]
impl @a anchor_lang::IdlAccountType for @b @c @d {
    fn __idl_type_def() -> Option<&'static str> {
        @e
    }
    fn __register_idl_deps(
        accounts: &mut ::anchor_lang::__alloc::vec::Vec<&'static str>,
        types: &mut ::anchor_lang::__alloc::vec::Vec<&'static str>,
    ) {
        if let Some(t) = <Self as anchor_lang::IdlAccountType>::__idl_type_def() {
            types.push(t);
        }
        @f
    }
}"#;

/// Why a union is refused.
pub const NO_UNIONS: &'static str =
    "`#[derive(IdlType)]` does not support unions — use a struct or enum instead";

/// How the macro is named in messages.
pub const SURFACE: &'static str = "`#[derive(IdlType)]`";

/// The code for a type, with the statements that register what it depends on.
pub open spec fn idl_type_code(
    input: DeriveInput,
    type_def: Seq<char>,
    walkers: Seq<char>,
) -> Seq<char> {
    filled(
        IDL_TYPE_IMPL@,
        seq![
            input.impl_generics@,
            input.ident.text@,
            input.ty_generics@,
            input.where_clause@,
            type_def,
            walkers,
        ],
    )
}

/// What deriving `IdlType` gives, with an expression for the type.
pub open spec fn idl_type_expansion(input: DeriveInput, type_def: Seq<char>) -> Result<
    ExpansionView,
    FailureView,
> {
    match input.data {
        Data::Struct(fields) => Ok(
            ExpansionView {
                code: idl_type_code(input, type_def, dep_walkers(fields_of(fields))),
                gated: field_failures(SURFACE@, ""@, fields_of(fields)),
            },
        ),
        Data::Enum(variants) => Ok(
            ExpansionView {
                code: idl_type_code(input, type_def, variant_walkers(variants@)),
                gated: variant_failures(SURFACE@, variants@),
            },
        ),
        Data::Union => Err(diagnostic(input.ident.span, NO_UNIONS@)),
    }
}

fn print_idl_type(input: &DeriveInput, type_def: &str, walkers: &str) -> (out: String)
    ensures
        out@ == idl_type_code(*input, type_def@, walkers@),
{
    fill6(
        IDL_TYPE_IMPL,
        input.impl_generics.as_str(),
        input.ident.text.as_str(),
        input.ty_generics.as_str(),
        input.where_clause.as_str(),
        type_def,
        walkers,
    )
}

/// Derives `IdlType`, given an expression for the type.
pub fn derive_idl_type(input: &DeriveInput, type_def: &str) -> (out: Result<Expansion, Failure>)
    ensures
        expansion_view(out) == idl_type_expansion(*input, type_def@),
{
    match &input.data {
        Data::Struct(fields) => {
            let none: Vec<Field> = Vec::new();
            let all = list_fields(fields, &none);
            Ok(
                Expansion {
                    code: print_idl_type(input, type_def, cfg_field_dep_walkers(all).as_str()),
                    gated: wincode_idl_override_tokens_for_fields(SURFACE, all),
                },
            )
        },
        Data::Enum(variants) => Ok(
            Expansion {
                code: print_idl_type(input, type_def, cfg_variant_dep_walkers(variants).as_str()),
                gated: wincode_idl_override_tokens_for_variants(SURFACE, variants),
            },
        ),
        Data::Union => Err(new_diagnostic(input.ident.span, NO_UNIONS.to_owned())),
    }
}

} // verus!
