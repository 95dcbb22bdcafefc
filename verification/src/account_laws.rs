//! What the code for an accounts struct says.

use crate::account_fields::{finder_of, kind_of_field, AccountField, FieldKindView, ScopeView};
use crate::account_texts::{
    lemma_active_mut_bit_text, lemma_active_mut_mask_text, lemma_bump_bound_text,
    lemma_bump_default_text, lemma_bump_field_text, lemma_bump_local_text, lemma_bump_value_text,
    lemma_bumps_struct_text, lemma_client_field_text, lemma_client_meta_nested_text,
    lemma_client_meta_optional_text, lemma_client_meta_text, lemma_client_signer_text,
    lemma_client_told, lemma_cpi_constructor_text, lemma_cpi_field_text, lemma_cpi_module_text,
    lemma_cpi_nested_field_text, lemma_cpi_optional_field_text,
    lemma_cpi_optional_writable_field_text, lemma_cpi_signer_text, lemma_cpi_writable_field_text,
    lemma_derived_pda_text, lemma_dynamic_term_text, lemma_head_told, lemma_header_term_text,
    lemma_idl_deps_text, lemma_idl_impl_text, lemma_local_text, lemma_mut_bit_text,
    lemma_mut_mask_text, lemma_nested_active_mut_bits_text, lemma_nested_bump_field_text,
    lemma_nested_bump_local_text, lemma_nested_client_field_text, lemma_nested_idl_deps_text,
    lemma_nested_local_text, lemma_nested_mut_bits_text, lemma_optional_bump_field_text,
    lemma_optional_bump_local_text, lemma_optional_client_field_text, lemma_resolved_struct_text,
    lemma_steps_told,
};
use crate::accounts::{
    accepted_accounts, active_mask_step, active_mut_mask, all_prepared, arguments_of, bump_bound,
    bump_default, bump_field, bump_local, bump_value, bumps_build, bumps_def, client_field,
    client_meta_step, client_module, client_signer, constraints_text, cpi_field_decl, cpi_module,
    cpi_signer, deferred_text, derive_stmt, derive_stmts, direct_count, dynamic_mut_mask,
    dynamic_term, each, exit_text, finder_text, full_meta_step, header_size, header_term, idl_dep,
    idl_impl, inners_of, ix_assoc, ix_reader, ix_return, kinds_in, load_text, mut_mask,
    mut_mask_step, name_text, names_in, offset_step, offset_text, picked, prepared_at,
    required_binding, required_field, resolved_struct, scope_of, try_accounts, update_text,
    AccountsReadings, PreparedView, CLIENT_MODULE, CPI_CONSTRUCTOR, CPI_PHANTOM_FIELD,
    RESOLVED_STRUCT, TRY_ACCOUNTS_HEAD, TRY_ACCOUNTS_STEPS,
};
use crate::args::{ix_type, Argument};
use crate::derive_order::{derivation_order, lemma_derivation_order};
use crate::failure::{lemma_collected_len, FailureView};
use crate::field_attrs::only_program_id;
use crate::handler_laws::{lemma_args_said, named, read_args};
use crate::instruction_attrs::{declared_args, IxArg};
use crate::items::DeriveInput;
use crate::names::item_name;
use crate::outside::lowercase_of;
use crate::passages::{
    all_of, each_of, lemma_each_of, lemma_joined_parted, lemma_lines_of_all, lemma_lines_tell,
    lemma_said_tells, lemma_some_present, lemma_tells_around, lemma_tells_itself,
    lemma_tells_joined, lemma_tells_one, lemma_tells_within, lemma_terminated_lines,
    lemma_told_is_said, lines, parted, present, tells,
};
use crate::qualified_path::{helper_module, leaf};
use crate::syntax::{type_text, Type};
use crate::template::{filled, says_at};
use crate::text::{concat_all, decimal, flag, joined, option_text, some_texts, terminated, texts};
use vstd::prelude::*;

verus! {

// ---------------------------------------------------------------------------
// What is said of a field
// ---------------------------------------------------------------------------

/// Items with a comma behind each.
pub open spec fn listed(list: Seq<Seq<char>>) -> Seq<char> {
    each_of(list, |item: Seq<char>| item + ", "@)
}

/// What is said of the fields of which anything is said, in their order.
pub open spec fn of_some(
    fields: Seq<AccountField>,
    said: spec_fn(AccountField) -> Option<Seq<char>>,
) -> Seq<Seq<char>> {
    present(fields.map_values(said))
}

/// How many fields hold an account themselves.
pub open spec fn accounts_in(fields: Seq<AccountField>) -> nat {
    fields.filter(|field: AccountField| field.nested_inner is None).len()
}

/// Where the accounts of a field begin: each field before it takes one place, or as many
/// as the struct that it nests.
pub open spec fn begins_at(fields: Seq<AccountField>, i: int) -> Seq<char> {
    "0usize"@ + each_of(
        fields.take(i),
        |field: AccountField|
            match field.nested_inner {
                Some(ty) => " + <"@ + type_text(ty, None) + " as anchor_lang::TryAccounts>::HEADER_SIZE"@,
                None => " + 1"@,
            },
    )
}

/// A text for true or false.
pub open spec fn truth(holds: bool) -> Seq<char> {
    if holds {
        "true"@
    } else {
        "false"@
    }
}

/// The type that stands for nested accounts in a module beside theirs.
pub open spec fn stand_in(ty: Type, module: Seq<char>) -> Seq<char> {
    helper_module(ty->Path_0.path, module, 1)->Ok_0 + "::"@ + leaf(ty->Path_0.path).text@
}

/// The variable in which a field keeps its bump, or the bumps of the accounts that it
/// nests, while it is loaded.
pub open spec fn bump_kept(field: AccountField) -> Option<Seq<char>> {
    match field.nested_inner {
        Some(ty) => Some("let mut "@ + field.bump_cache@ + ": <"@ + type_text(ty, None) + " as anchor_lang::Bumps>::Bumps =\n    ::core::default::Default::default();"@),
        None => if !field.has_bump {
            None
        } else if field.is_optional {
            Some("let mut "@ + field.bump_cache@ + ": ::core::option::Option<u8> = ::core::default::Default::default();"@)
        } else {
            Some("let mut "@ + field.bump_cache@ + ": u8 = ::core::default::Default::default();"@)
        },
    }
}

/// Whether a field has a place among the bumps.
pub open spec fn bumps(field: AccountField) -> bool {
    field.has_bump || field.nested_inner is Some
}

/// The place of a field among the bumps.
pub open spec fn bump_place(field: AccountField) -> Option<Seq<char>> {
    if field.has_bump {
        Some("pub "@ + field.name.text@ + (if field.is_optional { ": Option<u8>"@ } else { ": u8"@ }))
    } else {
        match field.nested_inner {
            Some(ty) => Some("pub "@ + field.name.text@ + ": <"@ + type_text(ty, None) + " as anchor_lang::Bumps>::Bumps"@),
            None => None,
        }
    }
}

/// What one field says where it says anything.
pub open spec fn said_if(holds: bool, text: Seq<char>) -> Option<Seq<char>> {
    if holds {
        Some(text)
    } else {
        None
    }
}

/// The statement that marks the accounts of a field as written, by their places.
pub open spec fn marked_written(fields: Seq<AccountField>, i: int) -> Option<Seq<char>> {
    let field = fields[i];
    if field.contributes_mut_bit {
        Some("__mask = anchor_lang::mut_mask_set_bit(__mask, "@ + begins_at(fields, i) + ");"@)
    } else {
        match field.nested_inner {
            Some(ty) => Some("__mask = anchor_lang::mut_mask_or_shifted(\n    __mask,\n    <"@ + type_text(ty, None) + " as anchor_lang::TryAccounts>::MUT_MASK,\n    "@ + begins_at(fields, i) + ",\n);"@),
            None => None,
        }
    }
}

/// The statement that marks the accounts of a field as written if they are there.
pub open spec fn marked_if_there(fields: Seq<AccountField>, i: int) -> Option<Seq<char>> {
    let field = fields[i];
    if field.contributes_active_mut_bit {
        Some("if self."@ + field.name.text@ + ".is_some() {\n    __mask = anchor_lang::mut_mask_set_bit(__mask, "@ + begins_at(fields, i) + ");\n}"@)
    } else {
        match field.nested_inner {
            Some(ty) => Some("if <"@ + type_text(ty, None) + " as anchor_lang::TryAccounts>::HAS_DYNAMIC_MUT_MASK {\n    __mask = anchor_lang::mut_mask_or_shifted(\n        __mask,\n        <"@ + type_text(ty, None) + " as anchor_lang::TryAccounts>::active_mut_mask(&self."@ + field.name.text@ + ".0),\n        "@ + begins_at(fields, i) + ",\n    );\n}"@),
            None => None,
        }
    }
}

/// Whether the accounts that are written depend on which are there.
pub open spec fn may_vary(field: AccountField) -> Option<Seq<char>> {
    if field.contributes_active_mut_bit {
        Some(" || true"@)
    } else {
        match field.nested_inner {
            Some(ty) => Some(" || <"@ + type_text(ty, None) + " as anchor_lang::TryAccounts>::HAS_DYNAMIC_MUT_MASK"@),
            None => None,
        }
    }
}

/// Whether a client lets an account sign: where its type or its creation asks for it, as
/// the caller wishes.
pub open spec fn signs_for_client(field: AccountField) -> Seq<char> {
    match field.idl_field_ty {
        Some(ty) => "if <"@ + type_text(ty, None) + " as anchor_lang::AnchorAccount>::IS_SIGNER || "@ + truth(field.idl_init_signer) + " {\n    _is_signer.unwrap_or(true)\n} else {\n    false\n}"@,
        None => if field.idl_init_signer {
            "_is_signer.unwrap_or(true)"@
        } else {
            "false"@
        },
    }
}

/// Whether another program lets an account sign.
pub open spec fn signs_across(field: AccountField) -> Seq<char> {
    match field.idl_field_ty {
        Some(ty) => "<"@ + type_text(ty, None) + " as anchor_lang::AnchorAccount>::IS_SIGNER || "@ + truth(field.idl_init_signer),
        None => truth(field.idl_init_signer),
    }
}

/// The field by which a client gives an account.
pub open spec fn given_by_client(field: AccountField) -> Seq<char> {
    match field.nested_inner {
        Some(ty) => "pub "@ + field.name.text@ + ": "@ + stand_in(ty, "__client_accounts_"@),
        None => "pub "@ + field.name.text@ + (if field.is_optional {
            ": Option<anchor_lang::Address>"@
        } else {
            ": anchor_lang::Address"@
        }),
    }
}

/// The statement that adds the accounts of a field to the metas of a client. The program
/// itself stands for an account that is not there.
pub open spec fn meta_for_client(
    field: AccountField,
    value: Seq<char>,
    nested: Seq<char>,
    program_id: Seq<char>,
) -> Seq<char> {
    if field.nested_inner is Some {
        "__metas.extend(anchor_lang::ToAccountMetas::to_account_metas(\n    "@ + nested + ",\n    _is_signer,\n));"@
    } else if field.is_optional {
        "match "@ + value + " {\n    Some(__addr) => __metas.push(anchor_lang::AccountMeta {\n        pubkey: __addr,\n        is_writable: "@ + truth(field.idl_writable) + ",\n        is_signer: "@ + signs_for_client(field) + ",\n    }),\n    None => __metas.push(anchor_lang::AccountMeta {\n        pubkey: "@ + program_id + ",\n        is_writable: false,\n        is_signer: false,\n    }),\n}"@
    } else {
        "__metas.push(anchor_lang::AccountMeta {\n    pubkey: "@ + value + ",\n    is_writable: "@ + truth(field.idl_writable) + ",\n    is_signer: "@ + signs_for_client(field) + ",\n});"@
    }
}

/// The field by which another program gives an account: mutable where it is written, and
/// under `Option` where it may be absent.
pub open spec fn given_across(field: AccountField) -> Seq<char> {
    match field.nested_inner {
        Some(ty) => "#[nested]\npub "@ + field.name.text@ + ": "@ + stand_in(ty, "__cpi_accounts_"@)
            + "<'a>"@,
        None => "#[signer("@ + signs_across(field) + ")]\npub "@ + field.name.text@ + (
        if field.is_optional && field.idl_writable {
            ": ::core::option::Option<anchor_lang::CpiHandleMut<'a>>"@
        } else if field.is_optional {
            ": ::core::option::Option<anchor_lang::CpiHandle<'a>>"@
        } else if field.idl_writable {
            ": anchor_lang::CpiHandleMut<'a>"@
        } else {
            ": anchor_lang::CpiHandle<'a>"@
        }),
    }
}

/// The statement that registers the types that a field depends on.
pub open spec fn registers(field: AccountField) -> Option<Seq<char>> {
    match field.nested_inner {
        Some(ty) => Some("<"@ + type_text(ty, None) + ">::__idl_register_deps(accounts, types);"@),
        None => match field.idl_field_ty {
            Some(ty) => Some("<"@ + type_text(ty, None) + " as anchor_lang::IdlAccountType>::__register_idl_deps(accounts, types);"@),
            None => None,
        },
    }
}

/// Whether a client must give a field.
pub open spec fn must_give(field: AccountField, scope: ScopeView) -> bool {
    kind_of_field(field, scope) is Required
}

// ---------------------------------------------------------------------------
// What is said of all fields
// ---------------------------------------------------------------------------

/// Texts one behind the other.
pub open spec fn run_on(list: Seq<Seq<char>>) -> Seq<char> {
    each_of(list, |text: Seq<char>| text)
}

/// How many places the accounts take.
pub open spec fn places_taken(fields: Seq<AccountField>) -> Seq<char> {
    decimal(accounts_in(fields)) + "usize"@ + run_on(
        of_some(
            fields,
            |field: AccountField|
                match field.nested_inner {
                    Some(ty) => Some(" + <"@ + type_text(ty, None) + " as anchor_lang::TryAccounts>::HEADER_SIZE"@),
                    None => None,
                },
        ),
    )
}

/// The mask of the accounts that are written.
pub open spec fn written(fields: Seq<AccountField>) -> Seq<char> {
    let steps = present(Seq::new(fields.len(), |i: int| marked_written(fields, i)));
    if steps.len() == 0 {
        "[0u64; 4]"@
    } else {
        "{\n    let mut __mask = [0u64; 4];\n    "@ + lines(steps) + "\n    __mask\n}"@
    }
}

/// Whether that mask depends on the accounts that are there.
pub open spec fn varies(fields: Seq<AccountField>) -> Seq<char> {
    "false"@ + run_on(of_some(fields, |field: AccountField| may_vary(field)))
}

/// The mask of the accounts that are written and there.
pub open spec fn written_if_there(fields: Seq<AccountField>) -> Seq<char> {
    let steps = present(Seq::new(fields.len(), |i: int| marked_if_there(fields, i)));
    if steps.len() == 0 {
        "Self::MUT_MASK"@
    } else {
        "let mut __mask = Self::MUT_MASK;\n"@ + lines(steps) + "\n__mask"@
    }
}

/// The bumps put together from the variables that keep them.
pub open spec fn bumps_put_together(fields: Seq<AccountField>, name: Seq<char>) -> Seq<char> {
    if of_some(fields, |field: AccountField| bump_place(field)).len() == 0 {
        "let __bumps = "@ + (name + "Bumps"@) + "::default();"@
    } else {
        "let __bumps = "@ + (name + "Bumps"@) + " { "@ + listed(
            of_some(
                fields,
                |field: AccountField|
                    said_if(bumps(field), field.name.text@ + ": "@ + field.bump_cache@),
            ),
        ) + "};"@
    }
}

/// What the bumps of nested accounts must have.
pub open spec fn bump_bounded(field: AccountField) -> Option<Seq<char>> {
    match field.nested_inner {
        Some(ty) => Some("<"@ + type_text(ty, None) + " as anchor_lang::Bumps>::Bumps: ::core::default::Default"@),
        None => None,
    }
}

/// The statement that names what a client gave.
pub open spec fn bound_for_client(field: AccountField) -> Seq<char> {
    if field.nested_inner is Some {
        "let "@ + field.name.text@ + " = &self."@ + field.name.text@ + "; "@
    } else {
        "let "@ + field.name.text@ + " = self."@ + field.name.text@ + "; "@
    }
}

/// The statement that works out an address that a client need not give.
pub open spec fn worked_out(name: Seq<char>, kind: FieldKindView) -> Seq<char> {
    match kind {
        FieldKindView::Required => ""@,
        FieldKindView::Program(program) => "let "@ + name + " = "@ + program + ";"@,
        FieldKindView::Pda { seed_exprs, program_ref, .. } => "let ("@ + name + ", _) = anchor_lang::find_program_address(\n    &["@ + parted(seed_exprs, ", "@) + "], "@ + program_ref + ",\n);"@,
    }
}

/// The statements that work out addresses, in an order in which each finds those that it
/// needs.
pub open spec fn derived(fields: Seq<AccountField>, scope: ScopeView) -> Seq<Seq<char>> {
    derivation_order(
        fields.map_values(|field: AccountField| field.name.text@),
        fields.map_values(|field: AccountField| kind_of_field(field, scope)),
    ).map_values(
        |i: usize|
            worked_out(fields[i as int].name.text@, kind_of_field(fields[i as int], scope)),
    )
}

proof fn lemma_listed(list: Seq<Seq<char>>)
    ensures
        terminated(list, ", "@) == listed(list),
{
    let item = |item: Seq<char>| item + ", "@;
    let part = |part: Seq<char>| part + ", "@;
    assert(list.map_values(item) =~= list.map_values(part));
    lemma_each_of(list, item, item);
}

proof fn lemma_run_on(list: Seq<Seq<char>>)
    ensures
        concat_all(list) == run_on(list),
{
    let text = |text: Seq<char>| text;
    lemma_each_of(list, text, text);
    assert(list.map_values(text) =~= list);
}

/// What is worked out for each field.
proof fn lemma_prepared(fields: Seq<AccountField>, scope: ScopeView)
    requires
        all_prepared(fields, scope) is Ok,
    ensures
        all_prepared(fields, scope)->Ok_0.len() == fields.len(),
        forall|i: int|
            0 <= i < fields.len() ==> prepared_at(fields, scope, i) == Ok::<
                PreparedView,
                FailureView,
            >(#[trigger] all_prepared(fields, scope)->Ok_0[i]),
{
    let results = Seq::new(fields.len(), |i: int| prepared_at(fields, scope, i));
    lemma_collected_len(results);
    assert forall|i: int| 0 <= i < fields.len() implies prepared_at(fields, scope, i) == Ok::<
        PreparedView,
        FailureView,
    >(#[trigger] all_prepared(fields, scope)->Ok_0[i]) by {
        assert(results[i] == prepared_at(fields, scope, i));
    }
}

spec fn prepared(fields: Seq<AccountField>, scope: ScopeView, all: Seq<PreparedView>) -> bool {
    &&& all.len() == fields.len()
    &&& forall|i: int|
        0 <= i < fields.len() ==> prepared_at(fields, scope, i) == Ok::<PreparedView, FailureView>(
            #[trigger] all[i],
        )
}

proof fn lemma_each_said(
    fields: Seq<AccountField>,
    all: Seq<PreparedView>,
    text: spec_fn(PreparedView) -> Seq<char>,
    said: spec_fn(AccountField) -> Seq<char>,
)
    requires
        all.len() == fields.len(),
        forall|i: int| 0 <= i < fields.len() ==> text(#[trigger] all[i]) == said(fields[i]),
    ensures
        each(all, text) == fields.map_values(said),
{
    assert(each(all, text) =~= fields.map_values(said));
}

proof fn lemma_some_said(
    fields: Seq<AccountField>,
    all: Seq<PreparedView>,
    text: spec_fn(PreparedView) -> Option<Seq<char>>,
    said: spec_fn(AccountField) -> Option<Seq<char>>,
)
    requires
        all.len() == fields.len(),
        forall|i: int| 0 <= i < fields.len() ==> text(#[trigger] all[i]) == said(fields[i]),
    ensures
        picked(all, text) == of_some(fields, said),
{
    assert(all.map_values(text) =~= fields.map_values(said));
    lemma_some_present(all.map_values(text));
}

proof fn lemma_begins_at(fields: Seq<AccountField>, i: int)
    requires
        0 <= i <= fields.len(),
    ensures
        offset_text(inners_of(fields), i) == begins_at(fields, i),
    decreases i,
{
    let step = |field: AccountField|
        match field.nested_inner {
            Some(ty) => " + <"@ + type_text(ty, None) + " as anchor_lang::TryAccounts>::HEADER_SIZE"@,
            None => " + 1"@,
        };
    lemma_each_of(fields.take(i), step, step);
    if i > 0 {
        lemma_begins_at(fields, i - 1);
        lemma_each_of(fields.take(i - 1), step, step);
        let before = fields.take(i).map_values(step);
        assert(before.drop_last() =~= fields.take(i - 1).map_values(step));
        assert(before.last() == step(fields[i - 1]));
        assert(offset_step(inners_of(fields)[i - 1]) == step(fields[i - 1]));
        assert(begins_at(fields, i) =~= begins_at(fields, i - 1) + step(fields[i - 1]));
    } else {
        assert(fields.take(i).map_values(step) =~= Seq::<Seq<char>>::empty());
        assert(begins_at(fields, 0) =~= "0usize"@);
    }
}

proof fn lemma_accounts_in(fields: Seq<AccountField>, all: Seq<PreparedView>)
    requires
        all.len() == fields.len(),
        forall|i: int| 0 <= i < fields.len() ==> (#[trigger] all[i]).field == fields[i],
    ensures
        direct_count(all) == accounts_in(fields),
    decreases fields.len(),
{
    reveal(Seq::filter);
    if fields.len() > 0 {
        assert(all.last().field == fields.last()) by {
            assert(all[all.len() - 1].field == fields[fields.len() - 1]);
        }
        assert forall|i: int| 0 <= i < fields.len() - 1 implies (#[trigger] all.drop_last()[i]).field
            == fields.drop_last()[i] by {
            assert(all[i].field == fields[i]);
        }
        lemma_accounts_in(fields.drop_last(), all.drop_last());
    }
}

proof fn lemma_bumps_said(fields: Seq<AccountField>, scope: ScopeView, i: int, p: PreparedView)
    requires
        0 <= i < fields.len(),
        prepared_at(fields, scope, i) == Ok::<PreparedView, FailureView>(p),
    ensures
        p.field == fields[i],
        bump_local(p) == bump_kept(fields[i]),
        bump_field(p) == bump_place(fields[i]),
        bump_bound(p) == bump_bounded(fields[i]),
        bump_value(p) == said_if(
            bumps(fields[i]),
            fields[i].name.text@ + ": "@ + fields[i].bump_cache@,
        ),
        bump_default(p) == said_if(
            bumps(fields[i]),
            fields[i].name.text@ + ": ::core::default::Default::default()"@,
        ),
{
    let field = fields[i];
    let name = field.name.text@;
    lemma_optional_bump_local_text(seq![field.bump_cache@]);
    lemma_bump_local_text(seq![field.bump_cache@]);
    lemma_optional_bump_field_text(seq![name]);
    lemma_bump_field_text(seq![name]);
    lemma_bump_value_text(seq![name, field.bump_cache@]);
    lemma_bump_default_text(seq![name]);
    if let Some(ty) = field.nested_inner {
        let inner = type_text(ty, None);
        lemma_nested_bump_local_text(seq![field.bump_cache@, inner]);
        lemma_nested_bump_field_text(seq![name, inner]);
        lemma_bump_bound_text(seq![inner]);
    }
}

proof fn lemma_masks_said(fields: Seq<AccountField>, scope: ScopeView, i: int, p: PreparedView)
    requires
        0 <= i < fields.len(),
        prepared_at(fields, scope, i) == Ok::<PreparedView, FailureView>(p),
    ensures
        p.field == fields[i],
        mut_mask_step(p) == marked_written(fields, i),
        active_mask_step(p) == marked_if_there(fields, i),
        dynamic_term(p) == may_vary(fields[i]),
        idl_dep(p) == registers(fields[i]),
        header_term(p) == (match fields[i].nested_inner {
            Some(ty) => Some(
                " + <"@ + type_text(ty, None) + " as anchor_lang::TryAccounts>::HEADER_SIZE"@,
            ),
            None => None,
        }),
{
    let field = fields[i];
    let name = field.name.text@;
    lemma_begins_at(fields, i);
    lemma_mut_bit_text(seq![p.offset]);
    lemma_active_mut_bit_text(seq![name, p.offset]);
    if let Some(ty) = field.idl_field_ty {
        lemma_idl_deps_text(seq![type_text(ty, None)]);
    }
    if let Some(ty) = field.nested_inner {
        let inner = type_text(ty, None);
        lemma_nested_mut_bits_text(seq![inner, p.offset]);
        lemma_nested_active_mut_bits_text(seq![inner, name, p.offset]);
        lemma_dynamic_term_text(seq![inner]);
        lemma_nested_idl_deps_text(seq![inner]);
        lemma_header_term_text(seq![inner]);
    }
}

proof fn lemma_signers_said(field: AccountField)
    ensures
        client_signer(field) == signs_for_client(field),
        cpi_signer(field) == signs_across(field),
        flag(field.idl_writable) == truth(field.idl_writable),
{
    if let Some(ty) = field.idl_field_ty {
        lemma_client_signer_text(seq![type_text(ty, None), flag(field.idl_init_signer)]);
        lemma_cpi_signer_text(seq![type_text(ty, None), flag(field.idl_init_signer)]);
    }
}

proof fn lemma_given_said(fields: Seq<AccountField>, scope: ScopeView, i: int, p: PreparedView)
    requires
        0 <= i < fields.len(),
        prepared_at(fields, scope, i) == Ok::<PreparedView, FailureView>(p),
    ensures
        p.field == fields[i],
        p.client is Some <==> fields[i].nested_inner is Some,
        cpi_field_decl(p) == given_across(fields[i]),
        required_field(p) == said_if(must_give(fields[i], scope), given_by_client(fields[i])),
        required_binding(p) == said_if(must_give(fields[i], scope), bound_for_client(fields[i])),
        client_field(p) == given_by_client(fields[i]),
        finder_text(p) == finder_of(fields[i], scope)->Ok_0,
{
    let field = fields[i];
    let name = field.name.text@;
    lemma_signers_said(field);
    lemma_optional_client_field_text(seq![name]);
    lemma_client_field_text(seq![name]);
    lemma_nested_local_text(seq![name, name]);
    lemma_local_text(seq![name, name]);
    let signer = cpi_signer(field);
    lemma_cpi_optional_writable_field_text(seq![signer, name]);
    lemma_cpi_optional_field_text(seq![signer, name]);
    lemma_cpi_writable_field_text(seq![signer, name]);
    lemma_cpi_field_text(seq![signer, name]);
    if let Some(ty) = field.nested_inner {
        lemma_nested_client_field_text(seq![name, p.client->Some_0]);
        lemma_cpi_nested_field_text(seq![name, p.cpi->Some_0]);
        assert(p.client->Some_0 == stand_in(ty, "__client_accounts_"@));
        assert(p.cpi->Some_0 == stand_in(ty, "__cpi_accounts_"@));
    }
}

proof fn lemma_metas_said(fields: Seq<AccountField>, scope: ScopeView, i: int, p: PreparedView)
    requires
        0 <= i < fields.len(),
        prepared_at(fields, scope, i) == Ok::<PreparedView, FailureView>(p),
    ensures
        client_meta_step(p) == meta_for_client(
            fields[i],
            fields[i].name.text@,
            fields[i].name.text@,
            scope.program_id,
        ),
        full_meta_step(p) == meta_for_client(
            fields[i],
            "self."@ + fields[i].name.text@,
            "&self."@ + fields[i].name.text@,
            scope.program_id,
        ),
{
    let field = fields[i];
    let name = field.name.text@;
    lemma_signers_said(field);
    let writable = flag(field.idl_writable);
    let signer = client_signer(field);
    lemma_client_meta_nested_text(seq![name]);
    lemma_client_meta_nested_text(seq!["&self."@ + name]);
    lemma_client_meta_optional_text(seq![name, writable, signer, scope.program_id]);
    lemma_client_meta_optional_text(seq!["self."@ + name, writable, signer, scope.program_id]);
    lemma_client_meta_text(seq![name, writable, signer]);
    lemma_client_meta_text(seq!["self."@ + name, writable, signer]);
}

proof fn lemma_masks_text(fields: Seq<AccountField>, scope: ScopeView, all: Seq<PreparedView>)
    requires
        prepared(fields, scope, all),
    ensures
        header_size(all) == places_taken(fields),
        mut_mask(all) == written(fields),
        dynamic_mut_mask(all) == varies(fields),
        active_mut_mask(all) == written_if_there(fields),
        terminated(picked(all, |p: PreparedView| idl_dep(p)), "\n"@) == lines(
            of_some(fields, |field: AccountField| registers(field)),
        ),
{
    assert forall|i: int| 0 <= i < fields.len() implies {
        let p = #[trigger] all[i];
        &&& p.field == fields[i]
        &&& mut_mask_step(p) == marked_written(fields, i)
        &&& active_mask_step(p) == marked_if_there(fields, i)
        &&& dynamic_term(p) == may_vary(fields[i])
        &&& idl_dep(p) == registers(fields[i])
        &&& header_term(p) == (match fields[i].nested_inner {
            Some(ty) => Some(
                " + <"@ + type_text(ty, None) + " as anchor_lang::TryAccounts>::HEADER_SIZE"@,
            ),
            None => None,
        })
    } by {
        lemma_masks_said(fields, scope, i, all[i]);
    }
    lemma_accounts_in(fields, all);
    lemma_some_said(
        fields,
        all,
        |p: PreparedView| header_term(p),
        |field: AccountField|
            match field.nested_inner {
                Some(ty) => Some(" + <"@ + type_text(ty, None) + " as anchor_lang::TryAccounts>::HEADER_SIZE"@),
                None => None,
            },
    );
    lemma_run_on(picked(all, |p: PreparedView| header_term(p)));
    lemma_some_said(
        fields,
        all,
        |p: PreparedView| dynamic_term(p),
        |field: AccountField| may_vary(field),
    );
    lemma_run_on(picked(all, |p: PreparedView| dynamic_term(p)));
    lemma_some_said(
        fields,
        all,
        |p: PreparedView| idl_dep(p),
        |field: AccountField| registers(field),
    );
    lemma_terminated_lines(picked(all, |p: PreparedView| idl_dep(p)));
    let steps = all.map_values(|p: PreparedView| mut_mask_step(p));
    assert(steps =~= Seq::new(fields.len(), |i: int| marked_written(fields, i)));
    lemma_some_present(steps);
    lemma_terminated_lines(some_texts(steps));
    lemma_mut_mask_text(seq![lines(some_texts(steps))]);
    let steps = all.map_values(|p: PreparedView| active_mask_step(p));
    assert(steps =~= Seq::new(fields.len(), |i: int| marked_if_there(fields, i)));
    lemma_some_present(steps);
    lemma_terminated_lines(some_texts(steps));
    lemma_active_mut_mask_text(seq![lines(some_texts(steps))]);
}

proof fn lemma_bumps_text(
    fields: Seq<AccountField>,
    scope: ScopeView,
    all: Seq<PreparedView>,
    name: Seq<char>,
)
    requires
        prepared(fields, scope, all),
    ensures
        terminated(picked(all, |p: PreparedView| bump_local(p)), "\n"@) == lines(
            of_some(fields, |field: AccountField| bump_kept(field)),
        ),
        bumps_build(all, name + "Bumps"@) == bumps_put_together(fields, name),
        bumps_def(all, name + "Bumps"@) == (if of_some(
            fields,
            |field: AccountField| bump_place(field),
        ).len() == 0 {
            "pub type "@ + (name + "Bumps"@) + " = ();"@
        } else {
            "#[derive(Clone)]\npub struct "@ + (name + "Bumps"@) + " { "@ + listed(of_some(fields, |field: AccountField| bump_place(field))) + " }\n\nimpl ::core::default::Default for "@ + (name + "Bumps"@) + "\nwhere\n    "@ + listed(of_some(fields, |field: AccountField| bump_bounded(field))) + "\n{\n    fn default() -> Self {\n        Self {\n            "@ + listed(of_some(fields, |field: AccountField| said_if(bumps(field), field.name.text@ + ": ::core::default::Default::default()"@))) + "\n        }\n    }\n}"@
        }),
{
    assert forall|i: int| 0 <= i < fields.len() implies {
        let p = #[trigger] all[i];
        let field = fields[i];
        &&& p.field == field
        &&& bump_local(p) == bump_kept(field)
        &&& bump_field(p) == bump_place(field)
        &&& bump_bound(p) == bump_bounded(field)
        &&& bump_value(p) == said_if(bumps(field), field.name.text@ + ": "@ + field.bump_cache@)
        &&& bump_default(p) == said_if(
            bumps(field),
            field.name.text@ + ": ::core::default::Default::default()"@,
        )
    } by {
        lemma_bumps_said(fields, scope, i, all[i]);
    }
    let locals = |p: PreparedView| bump_local(p);
    let places = |p: PreparedView| bump_field(p);
    let bounds = |p: PreparedView| bump_bound(p);
    let values = |p: PreparedView| bump_value(p);
    let defaults = |p: PreparedView| bump_default(p);
    lemma_some_said(fields, all, locals, |field: AccountField| bump_kept(field));
    lemma_some_said(fields, all, places, |field: AccountField| bump_place(field));
    lemma_some_said(fields, all, bounds, |field: AccountField| bump_bounded(field));
    lemma_some_said(
        fields,
        all,
        values,
        |field: AccountField| said_if(bumps(field), field.name.text@ + ": "@ + field.bump_cache@),
    );
    lemma_some_said(
        fields,
        all,
        defaults,
        |field: AccountField|
            said_if(bumps(field), field.name.text@ + ": ::core::default::Default::default()"@),
    );
    lemma_terminated_lines(picked(all, locals));
    lemma_listed(picked(all, places));
    lemma_listed(picked(all, bounds));
    lemma_listed(picked(all, values));
    lemma_listed(picked(all, defaults));
    lemma_bumps_struct_text(
        seq![
            name + "Bumps"@,
            listed(picked(all, places)),
            listed(picked(all, bounds)),
            listed(picked(all, defaults)),
        ],
    );
}

proof fn lemma_statements_text(fields: Seq<AccountField>, scope: ScopeView, all: Seq<PreparedView>)
    requires
        prepared(fields, scope, all),
    ensures
        terminated(each(all, |p: PreparedView| load_text(p)), "\n"@) == lines(
            fields.map_values(|field: AccountField| field.load@),
        ),
        terminated(picked(all, |p: PreparedView| deferred_text(p)), "\n"@) == lines(
            of_some(fields, |field: AccountField| option_text(field.deferred_load)),
        ),
        concat_all(each(all, |p: PreparedView| constraints_text(p))) == lines(
            all_of(fields.map_values(|field: AccountField| texts(field.constraints@))),
        ),
        joined(each(all, |p: PreparedView| name_text(p)), ", "@) == parted(
            fields.map_values(|field: AccountField| field.name.text@),
            ", "@,
        ),
        terminated(picked(all, |p: PreparedView| update_text(p)), "\n"@) == lines(
            of_some(fields, |field: AccountField| option_text(field.update)),
        ),
        terminated(picked(all, |p: PreparedView| exit_text(p)), "\n"@) == lines(
            of_some(fields, |field: AccountField| option_text(field.exit)),
        ),
{
    assert forall|i: int| 0 <= i < fields.len() implies (#[trigger] all[i]).field == fields[i] by {
        lemma_masks_said(fields, scope, i, all[i]);
    }
    lemma_each_said(
        fields,
        all,
        |p: PreparedView| load_text(p),
        |field: AccountField| field.load@,
    );
    lemma_terminated_lines(each(all, |p: PreparedView| load_text(p)));
    lemma_some_said(
        fields,
        all,
        |p: PreparedView| deferred_text(p),
        |field: AccountField| option_text(field.deferred_load),
    );
    lemma_terminated_lines(picked(all, |p: PreparedView| deferred_text(p)));
    lemma_some_said(
        fields,
        all,
        |p: PreparedView| update_text(p),
        |field: AccountField| option_text(field.update),
    );
    lemma_terminated_lines(picked(all, |p: PreparedView| update_text(p)));
    lemma_some_said(
        fields,
        all,
        |p: PreparedView| exit_text(p),
        |field: AccountField| option_text(field.exit),
    );
    lemma_terminated_lines(picked(all, |p: PreparedView| exit_text(p)));
    lemma_each_said(
        fields,
        all,
        |p: PreparedView| name_text(p),
        |field: AccountField| field.name.text@,
    );
    lemma_joined_parted(each(all, |p: PreparedView| name_text(p)), ", "@);
    let lists = fields.map_values(|field: AccountField| texts(field.constraints@));
    let checks = each(all, |p: PreparedView| constraints_text(p));
    assert forall|i: int| 0 <= i < fields.len() implies checks[i] == lines(lists[i]) by {
        assert(all[i].field == fields[i]);
        lemma_terminated_lines(texts(fields[i].constraints@));
    }
    assert(checks =~= lists.map_values(|list: Seq<Seq<char>>| lines(list)));
    lemma_lines_of_all(lists);
}

proof fn lemma_client_text(fields: Seq<AccountField>, scope: ScopeView, all: Seq<PreparedView>)
    requires
        prepared(fields, scope, all),
    ensures
        terminated(each(all, |p: PreparedView| client_field(p)), ", "@) == listed(
            fields.map_values(|field: AccountField| given_by_client(field)),
        ),
        terminated(each(all, |p: PreparedView| cpi_field_decl(p)), ", "@) == listed(
            fields.map_values(|field: AccountField| given_across(field)),
        ),
        terminated(each(all, |p: PreparedView| full_meta_step(p)), "\n"@) == lines(
            fields.map_values(
                |field: AccountField|
                    meta_for_client(
                        field,
                        "self."@ + field.name.text@,
                        "&self."@ + field.name.text@,
                        scope.program_id,
                    ),
            ),
        ),
        terminated(each(all, |p: PreparedView| client_meta_step(p)), "\n"@) == lines(
            fields.map_values(
                |field: AccountField|
                    meta_for_client(field, field.name.text@, field.name.text@, scope.program_id),
            ),
        ),
        terminated(picked(all, |p: PreparedView| required_field(p)), ", "@) == listed(
            of_some(
                fields,
                |field: AccountField| said_if(must_give(field, scope), given_by_client(field)),
            ),
        ),
        concat_all(picked(all, |p: PreparedView| required_binding(p))) == run_on(
            of_some(
                fields,
                |field: AccountField| said_if(must_give(field, scope), bound_for_client(field)),
            ),
        ),
        terminated(picked(all, |p: PreparedView| finder_text(p)), "\n"@) == lines(
            of_some(fields, |field: AccountField| finder_of(field, scope)->Ok_0),
        ),
{
    assert forall|i: int| 0 <= i < fields.len() implies {
        let p = #[trigger] all[i];
        let field = fields[i];
        let name = field.name.text@;
        &&& cpi_field_decl(p) == given_across(field)
        &&& required_field(p) == said_if(must_give(field, scope), given_by_client(field))
        &&& required_binding(p) == said_if(must_give(field, scope), bound_for_client(field))
        &&& client_field(p) == given_by_client(field)
        &&& finder_text(p) == finder_of(field, scope)->Ok_0
        &&& client_meta_step(p) == meta_for_client(field, name, name, scope.program_id)
        &&& full_meta_step(p) == meta_for_client(
            field,
            "self."@ + name,
            "&self."@ + name,
            scope.program_id,
        )
    } by {
        lemma_given_said(fields, scope, i, all[i]);
        lemma_metas_said(fields, scope, i, all[i]);
    }
    let given = |p: PreparedView| client_field(p);
    lemma_each_said(fields, all, given, |field: AccountField| given_by_client(field));
    lemma_listed(each(all, given));
    let across = |p: PreparedView| cpi_field_decl(p);
    lemma_each_said(fields, all, across, |field: AccountField| given_across(field));
    lemma_listed(each(all, across));
    let full = |p: PreparedView| full_meta_step(p);
    lemma_each_said(
        fields,
        all,
        full,
        |field: AccountField|
            meta_for_client(
                field,
                "self."@ + field.name.text@,
                "&self."@ + field.name.text@,
                scope.program_id,
            ),
    );
    lemma_terminated_lines(each(all, full));
    let metas = |p: PreparedView| client_meta_step(p);
    lemma_each_said(
        fields,
        all,
        metas,
        |field: AccountField|
            meta_for_client(field, field.name.text@, field.name.text@, scope.program_id),
    );
    lemma_terminated_lines(each(all, metas));
    let required = |p: PreparedView| required_field(p);
    lemma_some_said(
        fields,
        all,
        required,
        |field: AccountField| said_if(must_give(field, scope), given_by_client(field)),
    );
    lemma_listed(picked(all, required));
    let bound = |p: PreparedView| required_binding(p);
    lemma_some_said(
        fields,
        all,
        bound,
        |field: AccountField| said_if(must_give(field, scope), bound_for_client(field)),
    );
    lemma_run_on(picked(all, bound));
    let finders = |p: PreparedView| finder_text(p);
    lemma_some_said(
        fields,
        all,
        finders,
        |field: AccountField| finder_of(field, scope)->Ok_0,
    );
    lemma_terminated_lines(picked(all, finders));
}

proof fn lemma_worked_out(name: Seq<char>, kind: FieldKindView)
    ensures
        derive_stmt(name, kind) == worked_out(name, kind),
{
    if let FieldKindView::Pda { seed_exprs, program_ref, .. } = kind {
        lemma_joined_parted(seed_exprs, ", "@);
        lemma_derived_pda_text(seq![name, joined(seed_exprs, ", "@), program_ref]);
    }
}

proof fn lemma_derived_text(fields: Seq<AccountField>, scope: ScopeView)
    requires
        fields.len() <= usize::MAX,
    ensures
        derive_stmts(fields, scope) == lines(derived(fields, scope)),
{
    let names = names_in(fields);
    let kinds = kinds_in(fields, scope);
    let order = derivation_order(names, kinds);
    let stmts = order.map_values(|i: usize| derive_stmt(names[i as int], kinds[i as int]));
    lemma_terminated_lines(stmts);
    lemma_derivation_order(names, kinds);
    assert forall|k: int| 0 <= k < order.len() implies stmts[k] == #[trigger] derived(
        fields,
        scope,
    )[k] by {
        assert(order[k] < names.len());
        lemma_worked_out(names[order[k] as int], kinds[order[k] as int]);
    }
    assert(stmts =~= derived(fields, scope));
}

// ---------------------------------------------------------------------------
// Laws
// ---------------------------------------------------------------------------

/// How an accounts struct is loaded: the places and masks, the two steps of loading, the
/// load itself, and what comes behind it.
#[verifier::opaque]
pub open spec fn loading(
    name: Seq<char>,
    fields: Seq<AccountField>,
    args: Seq<Argument>,
) -> Seq<Seq<char>> {
    seq![
            "impl anchor_lang::Bumps for "@ + name + " {\n    type Bumps = "@ + (name + "Bumps"@) + ";\n}\n\nimpl anchor_lang::TryAccounts for "@ + name + " {\n    const HEADER_SIZE: usize = "@ + places_taken(fields) + ";\n    const MUT_MASK: [u64; 4] = "@ + written(fields) + ";\n    const HAS_DYNAMIC_MUT_MASK: bool = "@ + varies(fields) + ";\n\n    #[inline(always)]\n    fn active_mut_mask(&self) -> [u64; 4] {\n        "@ + written_if_there(fields) + "\n    }\n\n    "@ + ("type IxArgs<'ix> = ("@ + each_of(args, |arg: Argument| ix_type(*arg.ty) + ", "@) + ");"@) + "\n\n"@,
            "    #[inline]\n    fn try_accounts<'ix>(\n        __program_id: &anchor_lang::Address,\n        __views: &[anchor_lang::AccountView],\n        __duplicates: ::core::option::Option<&anchor_lang::AccountBitvec>,\n        __base_offset: usize,\n        __ix_data: &'ix [u8],\n    ) -> anchor_lang::Result<(Self, "@ + (name + "Bumps"@) + ", Self::IxArgs<'ix>)> {\n        let (mut __accounts, __bumps, __ix_args) =\n            <Self as anchor_lang::TryAccounts>::validate_accounts(\n                __program_id,\n                __views,\n                __duplicates,\n                __base_offset,\n                __ix_data,\n            )?;\n        <Self as anchor_lang::TryAccounts>::update_accounts(&mut __accounts)?;\n        Ok((__accounts, __bumps, __ix_args))\n    }\n"@,
            "    #[inline]\n    fn validate_accounts<'ix>(\n        __program_id: &anchor_lang::Address,\n        __views: &[anchor_lang::AccountView],\n        __duplicates: ::core::option::Option<&anchor_lang::AccountBitvec>,\n        __base_offset: usize,\n        __ix_data: &'ix [u8],\n    ) -> anchor_lang::Result<(Self, "@ + (name + "Bumps"@) + ", Self::IxArgs<'ix>)> {\n        "@ + read_args(args, "__IxArgs"@) + "\n        "@ + lines(of_some(fields, |field: AccountField| bump_kept(field))) + "\n        "@ + lines(fields.map_values(|field: AccountField| field.load@)) + "\n        "@ + lines(of_some(fields, |field: AccountField| option_text(field.deferred_load))) + "\n        "@ + lines(all_of(fields.map_values(|field: AccountField| texts(field.constraints@)))) + "\n        "@ + bumps_put_together(fields, name) + "\n        Ok((Self { "@ + parted(fields.map_values(|field: AccountField| field.name.text@), ", "@) + " }, __bumps, "@ + ("("@ + named(args) + ")"@) + "))\n    }\n\n"@,
            "    #[inline(always)]\n    fn update_accounts(&mut self) -> anchor_lang::Result<()> {\n        "@ + lines(of_some(fields, |field: AccountField| option_text(field.update))) + "\n        Ok(())\n    }\n\n"@,
            "    #[inline(always)]\n    fn exit_accounts<'ix>(&mut self, __ix_data: &'ix [u8]) -> anchor_lang::Result<()> {\n        "@ + read_args(args, "__IxArgs"@) + "\n        "@ + lines(of_some(fields, |field: AccountField| option_text(field.exit))) + "\n        Ok(())\n    }\n"@,
    ]
}

spec fn loading_parts(name: Seq<char>, fields: Seq<AccountField>, args: Seq<Argument>) -> Seq<
    Seq<char>,
> {
    seq![
        (name + "Bumps"@),
        read_args(args, "__IxArgs"@),
        lines(of_some(fields, |field: AccountField| bump_kept(field))),
        lines(fields.map_values(|field: AccountField| field.load@)),
        lines(of_some(fields, |field: AccountField| option_text(field.deferred_load))),
        lines(all_of(fields.map_values(|field: AccountField| texts(field.constraints@)))),
        bumps_put_together(fields, name),
        parted(fields.map_values(|field: AccountField| field.name.text@), ", "@),
        ("("@ + named(args) + ")"@),
        lines(of_some(fields, |field: AccountField| option_text(field.update))),
        lines(of_some(fields, |field: AccountField| option_text(field.exit))),
    ]
}

spec fn head_parts(
    name: Seq<char>,
    fields: Seq<AccountField>,
    args: Seq<Argument>,
    steps: Seq<char>,
) -> Seq<Seq<char>> {
    seq![
        name,
        (name + "Bumps"@),
        places_taken(fields),
        written(fields),
        varies(fields),
        written_if_there(fields),
        ("type IxArgs<'ix> = ("@ + each_of(args, |arg: Argument| ix_type(*arg.ty) + ", "@) + ");"@),
        steps,
    ]
}

proof fn lemma_steps_loading(name: Seq<char>, fields: Seq<AccountField>, args: Seq<Argument>)
    ensures
        tells(
            filled(TRY_ACCOUNTS_STEPS@, loading_parts(name, fields, args)),
            loading(name, fields, args).skip(2),
        ),
{
    reveal(loading);
    let parts = loading_parts(name, fields, args);
    lemma_steps_told(parts);
    assert(loading(name, fields, args).skip(2) =~= seq![
            "    #[inline]\n    fn validate_accounts<'ix>(\n        __program_id: &anchor_lang::Address,\n        __views: &[anchor_lang::AccountView],\n        __duplicates: ::core::option::Option<&anchor_lang::AccountBitvec>,\n        __base_offset: usize,\n        __ix_data: &'ix [u8],\n    ) -> anchor_lang::Result<(Self, "@ + parts[0] + ", Self::IxArgs<'ix>)> {\n        "@ + parts[1] + "\n        "@ + parts[2] + "\n        "@ + parts[3] + "\n        "@ + parts[4] + "\n        "@ + parts[5] + "\n        "@ + parts[6] + "\n        Ok((Self { "@ + parts[7] + " }, __bumps, "@ + parts[8] + "))\n    }\n\n"@,
            "    #[inline(always)]\n    fn update_accounts(&mut self) -> anchor_lang::Result<()> {\n        "@ + parts[9] + "\n        Ok(())\n    }\n\n"@,
            "    #[inline(always)]\n    fn exit_accounts<'ix>(&mut self, __ix_data: &'ix [u8]) -> anchor_lang::Result<()> {\n        "@ + parts[1] + "\n        "@ + parts[10] + "\n        Ok(())\n    }\n"@,
    ]);
}

proof fn lemma_head_loading(
    name: Seq<char>,
    fields: Seq<AccountField>,
    args: Seq<Argument>,
    steps: Seq<char>,
)
    ensures
        tells(
            filled(TRY_ACCOUNTS_HEAD@, head_parts(name, fields, args, steps)),
            loading(name, fields, args).take(2).push(steps + "\n}\n"@),
        ),
{
    reveal(loading);
    let parts = head_parts(name, fields, args, steps);
    lemma_head_told(parts);
    assert(loading(name, fields, args).take(2).push(steps + "\n}\n"@) =~= seq![
            "impl anchor_lang::Bumps for "@ + parts[0] + " {\n    type Bumps = "@ + parts[1] + ";\n}\n\nimpl anchor_lang::TryAccounts for "@ + parts[0] + " {\n    const HEADER_SIZE: usize = "@ + parts[2] + ";\n    const MUT_MASK: [u64; 4] = "@ + parts[3] + ";\n    const HAS_DYNAMIC_MUT_MASK: bool = "@ + parts[4] + ";\n\n    #[inline(always)]\n    fn active_mut_mask(&self) -> [u64; 4] {\n        "@ + parts[5] + "\n    }\n\n    "@ + parts[6] + "\n\n"@,
            "    #[inline]\n    fn try_accounts<'ix>(\n        __program_id: &anchor_lang::Address,\n        __views: &[anchor_lang::AccountView],\n        __duplicates: ::core::option::Option<&anchor_lang::AccountBitvec>,\n        __base_offset: usize,\n        __ix_data: &'ix [u8],\n    ) -> anchor_lang::Result<(Self, "@ + parts[1] + ", Self::IxArgs<'ix>)> {\n        let (mut __accounts, __bumps, __ix_args) =\n            <Self as anchor_lang::TryAccounts>::validate_accounts(\n                __program_id,\n                __views,\n                __duplicates,\n                __base_offset,\n                __ix_data,\n            )?;\n        <Self as anchor_lang::TryAccounts>::update_accounts(&mut __accounts)?;\n        Ok((__accounts, __bumps, __ix_args))\n    }\n"@,
            parts[7] + "\n}\n"@,
    ]);
}

spec fn step_texts(all: Seq<PreparedView>, given: Seq<IxArg>, bumps_name: Seq<char>) -> Seq<
    Seq<char>,
> {
    seq![
        bumps_name,
        ix_reader(given),
        terminated(picked(all, |p: PreparedView| bump_local(p)), "\n"@),
        terminated(each(all, |p: PreparedView| load_text(p)), "\n"@),
        terminated(picked(all, |p: PreparedView| deferred_text(p)), "\n"@),
        concat_all(each(all, |p: PreparedView| constraints_text(p))),
        bumps_build(all, bumps_name),
        joined(each(all, |p: PreparedView| name_text(p)), ", "@),
        ix_return(given),
        terminated(picked(all, |p: PreparedView| update_text(p)), "\n"@),
        terminated(picked(all, |p: PreparedView| exit_text(p)), "\n"@),
    ]
}

proof fn lemma_step_texts(
    fields: Seq<AccountField>,
    scope: ScopeView,
    all: Seq<PreparedView>,
    given: Seq<IxArg>,
    name: Seq<char>,
)
    requires
        prepared(fields, scope, all),
    ensures
        step_texts(all, given, name + "Bumps"@) == loading_parts(name, fields, arguments_of(given)),
{
    lemma_bumps_text(fields, scope, all, name);
    lemma_statements_text(fields, scope, all);
    lemma_args_said(arguments_of(given), "__IxArgs"@);
    let texts = step_texts(all, given, name + "Bumps"@);
    let parts = loading_parts(name, fields, arguments_of(given));
    assert(texts[0] == parts[0]);
    assert(texts[1] == parts[1]);
    assert(texts[2] == parts[2]);
    assert(texts[3] == parts[3]);
    assert(texts[4] == parts[4]);
    assert(texts[5] == parts[5]);
    assert(texts[6] == parts[6]);
    assert(texts[7] == parts[7]);
    assert(texts[8] == parts[8]);
    assert(texts[9] == parts[9]);
    assert(texts[10] == parts[10]);
    assert(texts =~= parts);
}

proof fn lemma_head_texts(
    fields: Seq<AccountField>,
    scope: ScopeView,
    all: Seq<PreparedView>,
    given: Seq<IxArg>,
    name: Seq<char>,
    steps: Seq<char>,
)
    requires
        prepared(fields, scope, all),
    ensures
        seq![
            name,
            name + "Bumps"@,
            header_size(all),
            mut_mask(all),
            dynamic_mut_mask(all),
            active_mut_mask(all),
            ix_assoc(given),
            steps,
        ] == head_parts(name, fields, arguments_of(given), steps),
{
    lemma_masks_text(fields, scope, all);
    lemma_args_said(arguments_of(given), "__IxArgs"@);
}

proof fn lemma_loading(
    fields: Seq<AccountField>,
    scope: ScopeView,
    all: Seq<PreparedView>,
    given: Seq<IxArg>,
    name: Seq<char>,
)
    requires
        prepared(fields, scope, all),
    ensures
        tells(
            try_accounts(all, given, name, name + "Bumps"@),
            loading(name, fields, arguments_of(given)),
        ),
{
    let args = arguments_of(given);
    let loaded = try_accounts(all, given, name, name + "Bumps"@);
    let steps = filled(TRY_ACCOUNTS_STEPS@, step_texts(all, given, name + "Bumps"@));
    lemma_step_texts(fields, scope, all, given, name);
    lemma_head_texts(fields, scope, all, given, name, steps);
    assert(loaded == filled(TRY_ACCOUNTS_HEAD@, head_parts(name, fields, args, steps)));
    lemma_steps_loading(name, fields, args);
    lemma_head_loading(name, fields, args, steps);
    lemma_loading_len(name, fields, args);
    lemma_loading_joined(loaded, steps, loading(name, fields, args));
}

proof fn lemma_loading_joined(loaded: Seq<char>, steps: Seq<char>, passages: Seq<Seq<char>>)
    requires
        passages.len() == 5,
        tells(steps, passages.skip(2)),
        tells(loaded, passages.take(2).push(steps + "\n}\n"@)),
    ensures
        tells(loaded, passages),
{
    let told = passages.skip(2);
    let head = passages.take(2).push(steps + "\n}\n"@);
    lemma_tells_around(Seq::empty(), steps, "\n}\n"@, told);
    assert(Seq::<char>::empty() + steps + "\n}\n"@ =~= head[2]);
    lemma_tells_within(loaded, head, 2, told);
    assert(head.take(2) + told + head.skip(3) =~= passages);
}

/// What stands for clients: a struct with every account and its metas, a struct with the
/// accounts that a client must give, and the functions that find addresses.
#[verifier::opaque]
pub open spec fn for_clients(
    module: Seq<char>,
    resolved: Seq<char>,
    name: Seq<char>,
    fields: Seq<AccountField>,
    scope: ScopeView,
) -> Seq<Seq<char>> {
    seq![
            "pub mod "@ + module + " {\n    extern crate alloc;\n    use super::*;\n    pub struct "@ + name + " {\n        "@ + listed(fields.map_values(|field: AccountField| given_by_client(field))) + "\n    }\n    impl anchor_lang::ToAccountMetas for "@ + name + " {\n        fn to_account_metas(&self, _is_signer: Option<bool>) -> alloc::vec::Vec<anchor_lang::AccountMeta> {\n            let mut __metas = alloc::vec::Vec::new();\n            "@ + lines(fields.map_values(|field: AccountField| meta_for_client(field, "self."@ + field.name.text@, "&self."@ + field.name.text@, scope.program_id))) + "\n            __metas\n        }\n    }\n"@,
            "    "@ + ("pub struct "@ + resolved + " {\n    "@ + listed(of_some(fields, |field: AccountField| said_if(must_give(field, scope), given_by_client(field)))) + "\n}\nimpl anchor_lang::ToAccountMetas for "@ + resolved + " {\n    fn to_account_metas(&self, _is_signer: Option<bool>) -> alloc::vec::Vec<anchor_lang::AccountMeta> {\n        "@ + run_on(of_some(fields, |field: AccountField| said_if(must_give(field, scope), bound_for_client(field)))) + "\n        "@ + lines(derived(fields, scope)) + "\n        let mut __metas = alloc::vec::Vec::new();\n        "@ + lines(fields.map_values(|field: AccountField| meta_for_client(field, field.name.text@, field.name.text@, scope.program_id))) + "\n        __metas\n    }\n}"@) + "\n"@,
            "    impl "@ + name + " {\n        "@ + lines(of_some(fields, |field: AccountField| finder_of(field, scope)->Ok_0)) + "\n    }\n}\n"@,
    ]
}

spec fn resolved_parts(resolved: Seq<char>, fields: Seq<AccountField>, scope: ScopeView) -> Seq<
    Seq<char>,
> {
    seq![
        resolved,
        listed(of_some(fields, |field: AccountField| said_if(must_give(field, scope), given_by_client(field)))),
        run_on(of_some(fields, |field: AccountField| said_if(must_give(field, scope), bound_for_client(field)))),
        lines(derived(fields, scope)),
        lines(fields.map_values(|field: AccountField| meta_for_client(field, field.name.text@, field.name.text@, scope.program_id))),
    ]
}

spec fn client_parts(
    module: Seq<char>,
    given: Seq<char>,
    name: Seq<char>,
    fields: Seq<AccountField>,
    scope: ScopeView,
) -> Seq<Seq<char>> {
    seq![
        module,
        name,
        listed(fields.map_values(|field: AccountField| given_by_client(field))),
        lines(fields.map_values(|field: AccountField| meta_for_client(field, "self."@ + field.name.text@, "&self."@ + field.name.text@, scope.program_id))),
        given,
        lines(of_some(fields, |field: AccountField| finder_of(field, scope)->Ok_0)),
    ]
}

proof fn lemma_parts_for_clients(
    module: Seq<char>,
    resolved: Seq<char>,
    name: Seq<char>,
    fields: Seq<AccountField>,
    scope: ScopeView,
)
    ensures
        ({
            let given = filled(RESOLVED_STRUCT@, resolved_parts(resolved, fields, scope));
            tells(
                filled(CLIENT_MODULE@, client_parts(module, given, name, fields, scope)),
                for_clients(module, resolved, name, fields, scope),
            )
        }),
{
    reveal(for_clients);
    let inner = resolved_parts(resolved, fields, scope);
    let given = filled(RESOLVED_STRUCT@, inner);
    lemma_resolved_struct_text(inner);
    let parts = client_parts(module, given, name, fields, scope);
    lemma_client_told(parts);
    assert(for_clients(module, resolved, name, fields, scope) =~= seq![
            "pub mod "@ + parts[0] + " {\n    extern crate alloc;\n    use super::*;\n    pub struct "@ + parts[1] + " {\n        "@ + parts[2] + "\n    }\n    impl anchor_lang::ToAccountMetas for "@ + parts[1] + " {\n        fn to_account_metas(&self, _is_signer: Option<bool>) -> alloc::vec::Vec<anchor_lang::AccountMeta> {\n            let mut __metas = alloc::vec::Vec::new();\n            "@ + parts[3] + "\n            __metas\n        }\n    }\n"@,
            "    "@ + parts[4] + "\n"@,
            "    impl "@ + parts[1] + " {\n        "@ + parts[5] + "\n    }\n}\n"@,
    ]);
}

proof fn lemma_for_clients(
    fields: Seq<AccountField>,
    scope: ScopeView,
    all: Seq<PreparedView>,
    module: Seq<char>,
    resolved: Seq<char>,
    name: Seq<char>,
)
    requires
        prepared(fields, scope, all),
        fields.len() <= usize::MAX,
    ensures
        tells(
            client_module(all, module, name, resolved_struct(all, fields, scope, resolved)),
            for_clients(module, resolved, name, fields, scope),
        ),
{
    lemma_client_text(fields, scope, all);
    lemma_derived_text(fields, scope);
    let inner = seq![
        resolved,
        terminated(picked(all, |p: PreparedView| required_field(p)), ", "@),
        concat_all(picked(all, |p: PreparedView| required_binding(p))),
        derive_stmts(fields, scope),
        terminated(each(all, |p: PreparedView| client_meta_step(p)), "\n"@),
    ];
    assert(inner =~= resolved_parts(resolved, fields, scope));
    let given = resolved_struct(all, fields, scope, resolved);
    assert(given == filled(RESOLVED_STRUCT@, inner));
    let parts = seq![
        module,
        name,
        terminated(each(all, |p: PreparedView| client_field(p)), ", "@),
        terminated(each(all, |p: PreparedView| full_meta_step(p)), "\n"@),
        given,
        terminated(picked(all, |p: PreparedView| finder_text(p)), "\n"@),
    ];
    assert(parts =~= client_parts(module, given, name, fields, scope));
    lemma_parts_for_clients(module, resolved, name, fields, scope);
}

/// What stands for other programs: a struct with a handle for every account.
#[verifier::opaque]
pub open spec fn for_programs(
    module: Seq<char>,
    name: Seq<char>,
    fields: Seq<AccountField>,
    program_id: Seq<char>,
) -> Seq<char> {
    "pub mod "@ + module + " {\n    extern crate alloc;\n    use super::*;\n    #[derive(anchor_lang::ToCpiAccounts)]\n    #[accounts_program_id("@ + program_id + ")]\n    pub struct "@ + name + "<'a> {\n        "@ + listed(fields.map_values(|field: AccountField| given_across(field))) + "\n        "@ + (if fields.len() == 0 { "#[doc(hidden)]\npub _phantom: ::core::marker::PhantomData<&'a ()>,"@ } else { ""@ }) + "\n    }\n    "@ + (if fields.len() == 0 { "impl<'a> "@ + name + "<'a> {\n    #[inline]\n    pub const fn new() -> Self {\n        Self { _phantom: ::core::marker::PhantomData }\n    }\n}\nimpl<'a> ::core::default::Default for "@ + name + "<'a> {\n    #[inline]\n    fn default() -> Self { Self::new() }\n}"@ } else { ""@ }) + "\n}"@
}

/// The bumps of an accounts struct.
#[verifier::opaque]
pub open spec fn bumps_of(name: Seq<char>, fields: Seq<AccountField>) -> Seq<char> {
    if of_some(fields, |field: AccountField| bump_place(field)).len() == 0 {
        "pub type "@ + (name + "Bumps"@) + " = ();"@
    } else {
        "#[derive(Clone)]\npub struct "@ + (name + "Bumps"@) + " { "@ + listed(of_some(fields, |field: AccountField| bump_place(field))) + " }\n\nimpl ::core::default::Default for "@ + (name + "Bumps"@) + "\nwhere\n    "@ + listed(of_some(fields, |field: AccountField| bump_bounded(field))) + "\n{\n    fn default() -> Self {\n        Self {\n            "@ + listed(of_some(fields, |field: AccountField| said_if(bumps(field), field.name.text@ + ": ::core::default::Default::default()"@))) + "\n        }\n    }\n}"@
    }
}

/// What an accounts struct says in the interface description.
#[verifier::opaque]
pub open spec fn described(name: Seq<char>, fields: Seq<AccountField>, accounts_fn: Seq<char>) -> Seq<
    char,
> {
    "#[cfg(feature = \"idl-build\")]\n#[doc(hidden)]\nimpl "@ + name + " {\n    "@ + accounts_fn + "\n\n    /// **Opaque / unstable.** Walks each account field's\n    /// [`IdlAccountType::__register_idl_deps`] so nested\n    /// user-defined types (plain `#[derive(IdlType)]` structs,\n    /// `#[account]` data types, `#[event]` payload types, etc.)\n    /// transitively register into the IDL's program-level\n    /// `accounts[]` and `types[]` arrays.\n    #[doc(hidden)]\n    pub fn __idl_register_deps(\n        accounts: &mut anchor_lang::__alloc::vec::Vec<&'static str>,\n        types: &mut anchor_lang::__alloc::vec::Vec<&'static str>,\n    ) {\n        "@ + lines(of_some(fields, |field: AccountField| registers(field))) + "\n    }\n}\n"@
}

proof fn lemma_for_programs(
    fields: Seq<AccountField>,
    scope: ScopeView,
    all: Seq<PreparedView>,
    module: Seq<char>,
    name: Seq<char>,
)
    requires
        prepared(fields, scope, all),
    ensures
        cpi_module(all, module, name, scope.program_id) == for_programs(
            module,
            name,
            fields,
            scope.program_id,
        ),
{
    reveal(for_programs);
    lemma_client_text(fields, scope, all);
    let first = if fields.len() == 0 {
        "#[doc(hidden)]\npub _phantom: ::core::marker::PhantomData<&'a ()>,"@
    } else {
        ""@
    };
    let second = if fields.len() == 0 {
        "impl<'a> "@ + name + "<'a> {\n    #[inline]\n    pub const fn new() -> Self {\n        Self { _phantom: ::core::marker::PhantomData }\n    }\n}\nimpl<'a> ::core::default::Default for "@ + name + "<'a> {\n    #[inline]\n    fn default() -> Self { Self::new() }\n}"@
    } else {
        ""@
    };
    lemma_cpi_constructor_text(seq![name]);
    let parts = seq![
        module,
        scope.program_id,
        name,
        listed(fields.map_values(|field: AccountField| given_across(field))),
        first,
        second,
    ];
    lemma_cpi_module_text(parts);
    assert(parts =~= seq![
        module,
        scope.program_id,
        name,
        terminated(each(all, |p: PreparedView| cpi_field_decl(p)), ", "@),
        if all.len() == 0 { CPI_PHANTOM_FIELD@ } else { ""@ },
        if all.len() == 0 { filled(CPI_CONSTRUCTOR@, seq![name]) } else { ""@ },
    ]);
}

proof fn lemma_described(
    fields: Seq<AccountField>,
    scope: ScopeView,
    all: Seq<PreparedView>,
    name: Seq<char>,
    accounts_fn: Seq<char>,
)
    requires
        prepared(fields, scope, all),
    ensures
        idl_impl(all, name, accounts_fn) == described(name, fields, accounts_fn),
{
    reveal(described);
    lemma_masks_text(fields, scope, all);
    lemma_idl_impl_text(
        seq![
            name,
            accounts_fn,
            lines(of_some(fields, |field: AccountField| registers(field))),
        ],
    );
}

proof fn lemma_parts_of_code(
    client: Seq<char>,
    cpi: Seq<char>,
    defined: Seq<char>,
    loaded: Seq<char>,
    idl: Seq<char>,
    first: Seq<Seq<char>>,
    fourth: Seq<Seq<char>>,
)
    requires
        tells(client, first),
        tells(loaded, fourth),
    ensures
        tells(
            client + "\n"@ + cpi + "\n"@ + defined + "\n"@ + loaded + "\n"@ + idl,
            first + seq![cpi, defined] + fourth + seq![idl],
        ),
{
    let line = "\n"@;
    let none = Seq::<Seq<char>>::empty();
    lemma_tells_itself(cpi);
    lemma_tells_itself(defined);
    lemma_tells_itself(idl);
    let a = client + line;
    lemma_tells_joined(client, line, first, none);
    lemma_tells_joined(a, cpi, first + none, seq![cpi]);
    lemma_tells_joined(a + cpi, line, first + none + seq![cpi], none);
    let b = a + cpi + line;
    let told = first + none + seq![cpi] + none;
    lemma_tells_joined(b, defined, told, seq![defined]);
    lemma_tells_joined(b + defined, line, told + seq![defined], none);
    let c = b + defined + line;
    let told = told + seq![defined] + none;
    lemma_tells_joined(c, loaded, told, fourth);
    lemma_tells_joined(c + loaded, line, told + fourth, none);
    lemma_tells_joined(c + loaded + line, idl, told + fourth + none, seq![idl]);
    assert(told + fourth + none + seq![idl] =~= first + seq![cpi, defined] + fourth + seq![idl]);
}

/// The code for an accounts struct holds, in order: the accounts for clients, those for
/// other programs, the bumps, how the accounts are loaded, and the interface description.
///
/// For clients, every account is a meta that is writable and signs as its field says; the
/// program stands for one that is absent; and what a client need not give is worked out
/// first. Loading reads the arguments, loads every field in order, then those whose load
/// waits for others, and then checks every constraint of every field in order, whether or
/// not the field may be absent. Only behind the checks stands the result.
pub proof fn lemma_accounts_written(input: DeriveInput, readings: AccountsReadings)
    requires
        accepted_accounts(input, readings) is Ok,
    ensures
        ({
            let name = input.ident.text@;
            let fields = readings.fields->Ok_0@;
            let args = declared_args(input.attrs@, Seq::empty())->Ok_0;
            let program_id = only_program_id(input.attrs@, None)->Ok_0;
            let scope = scope_of(input.data->Struct_0->Named_0@, args, program_id);
            tells(
                accepted_accounts(input, readings)->Ok_0,
                for_clients(
                    item_name("__client_accounts_"@ + lowercase_of(name))->Ok_0,
                    item_name(name + "Resolved"@)->Ok_0,
                    name,
                    fields,
                    scope,
                ) + seq![
                    for_programs(
                        item_name("__cpi_accounts_"@ + lowercase_of(name))->Ok_0,
                        name,
                        fields,
                        program_id,
                    ),
                    bumps_of(name, fields),
                ] + loading(name, fields, arguments_of(args)) + seq![
                    described(name, fields, readings.idl_accounts_fn@),
                ],
            )
        }),
{
    let name = input.ident.text@;
    let fields = readings.fields->Ok_0@;
    let args = declared_args(input.attrs@, Seq::empty())->Ok_0;
    let program_id = only_program_id(input.attrs@, None)->Ok_0;
    let scope = scope_of(input.data->Struct_0->Named_0@, args, program_id);
    let client = item_name("__client_accounts_"@ + lowercase_of(name))->Ok_0;
    let resolved = item_name(name + "Resolved"@)->Ok_0;
    let cpi = item_name("__cpi_accounts_"@ + lowercase_of(name))->Ok_0;
    let all = all_prepared(fields, scope)->Ok_0;
    lemma_prepared(fields, scope);
    assert(fields.len() == readings.fields->Ok_0.len());
    lemma_for_clients(fields, scope, all, client, resolved, name);
    lemma_for_programs(fields, scope, all, cpi, name);
    lemma_bumps_text(fields, scope, all, name);
    assert(bumps_def(all, name + "Bumps"@) == bumps_of(name, fields)) by {
        reveal(bumps_of);
    }
    lemma_described(fields, scope, all, name, readings.idl_accounts_fn@);
    lemma_loading(fields, scope, all, args, name);
    lemma_parts_of_code(
        client_module(all, client, name, resolved_struct(all, fields, scope, resolved)),
        cpi_module(all, cpi, name, program_id),
        bumps_def(all, name + "Bumps"@),
        try_accounts(all, args, name, name + "Bumps"@),
        idl_impl(all, name, readings.idl_accounts_fn@),
        for_clients(client, resolved, name, fields, scope),
        loading(name, fields, arguments_of(args)),
    );
}

/// The loads of the fields, those that wait for others, and the constraints, in the order
/// in which they stand in `validate_accounts`.
pub open spec fn loads_and_checks(fields: Seq<AccountField>) -> Seq<Seq<char>> {
    seq!["fn validate_accounts<'ix>("@] + fields.map_values(|field: AccountField| field.load@)
        + of_some(fields, |field: AccountField| option_text(field.deferred_load)) + all_of(
        fields.map_values(|field: AccountField| texts(field.constraints@)),
    ) + seq!["Ok((Self { "@]
}

#[verifier::opaque]
spec fn told(text: Seq<char>, passages: Seq<Seq<char>>) -> bool {
    tells(text, passages)
}

proof fn lemma_told_lines(list: Seq<Seq<char>>)
    ensures
        told(lines(list), list),
{
    reveal(told);
    lemma_lines_tell(list);
}

proof fn lemma_told_joined(
    a: Seq<char>,
    b: Seq<char>,
    first: Seq<Seq<char>>,
    second: Seq<Seq<char>>,
)
    requires
        told(a, first),
        told(b, second),
    ensures
        told(a + b, first + second),
{
    reveal(told);
    lemma_tells_joined(a, b, first, second);
}

proof fn lemma_told_nothing(a: Seq<char>, b: Seq<char>, first: Seq<Seq<char>>)
    requires
        told(a, first),
    ensures
        told(a + b, first),
{
    reveal(told);
    let none = Seq::<Seq<char>>::empty();
    lemma_tells_joined(a, b, first, none);
    assert(first + none =~= first);
}

proof fn lemma_loads_and_checks(name: Seq<char>, fields: Seq<AccountField>, args: Seq<Argument>)
    ensures
        told(loading(name, fields, args)[2], loads_and_checks(fields)),
{
    reveal(loading);
    let part0 = "    #[inline]\n    fn validate_accounts<'ix>(\n        __program_id: &anchor_lang::Address,\n        __views: &[anchor_lang::AccountView],\n        __duplicates: ::core::option::Option<&anchor_lang::AccountBitvec>,\n        __base_offset: usize,\n        __ix_data: &'ix [u8],\n    ) -> anchor_lang::Result<(Self, "@;
    let told0 = seq!["fn validate_accounts<'ix>("@];
    assert(told(part0, told0)) by {
        reveal(told);
        reveal_strlit("    #[inline]\n    fn validate_accounts<'ix>(\n        __program_id: &anchor_lang::Address,\n        __views: &[anchor_lang::AccountView],\n        __duplicates: ::core::option::Option<&anchor_lang::AccountBitvec>,\n        __base_offset: usize,\n        __ix_data: &'ix [u8],\n    ) -> anchor_lang::Result<(Self, ");
        reveal_strlit("fn validate_accounts<'ix>(");
        assert(part0.subrange(18, 44) =~= "fn validate_accounts<'ix>("@);
        assert(says_at(part0, "fn validate_accounts<'ix>("@, 18));
        lemma_tells_one(part0, "fn validate_accounts<'ix>("@);
    }
    let text0 = part0;
    let all0 = told0;
    let part1 = (name + "Bumps"@);
    lemma_told_nothing(text0, part1, all0);
    let text1 = text0 + part1;
    let all1 = all0;
    let part2 = ", Self::IxArgs<'ix>)> {\n        "@;
    lemma_told_nothing(text1, part2, all1);
    let text2 = text1 + part2;
    let all2 = all1;
    let part3 = read_args(args, "__IxArgs"@);
    lemma_told_nothing(text2, part3, all2);
    let text3 = text2 + part3;
    let all3 = all2;
    let part4 = "\n        "@;
    lemma_told_nothing(text3, part4, all3);
    let text4 = text3 + part4;
    let all4 = all3;
    let part5 = lines(of_some(fields, |field: AccountField| bump_kept(field)));
    lemma_told_nothing(text4, part5, all4);
    let text5 = text4 + part5;
    let all5 = all4;
    let part6 = "\n        "@;
    lemma_told_nothing(text5, part6, all5);
    let text6 = text5 + part6;
    let all6 = all5;
    let part7 = lines(fields.map_values(|field: AccountField| field.load@));
    let told7 = fields.map_values(|field: AccountField| field.load@);
    lemma_told_lines(told7);
    lemma_told_joined(text6, part7, all6, told7);
    let text7 = text6 + part7;
    let all7 = all6 + told7;
    let part8 = "\n        "@;
    lemma_told_nothing(text7, part8, all7);
    let text8 = text7 + part8;
    let all8 = all7;
    let part9 = lines(of_some(fields, |field: AccountField| option_text(field.deferred_load)));
    let told9 = of_some(fields, |field: AccountField| option_text(field.deferred_load));
    lemma_told_lines(told9);
    lemma_told_joined(text8, part9, all8, told9);
    let text9 = text8 + part9;
    let all9 = all8 + told9;
    let part10 = "\n        "@;
    lemma_told_nothing(text9, part10, all9);
    let text10 = text9 + part10;
    let all10 = all9;
    let part11 = lines(all_of(fields.map_values(|field: AccountField| texts(field.constraints@))));
    let told11 = all_of(fields.map_values(|field: AccountField| texts(field.constraints@)));
    lemma_told_lines(told11);
    lemma_told_joined(text10, part11, all10, told11);
    let text11 = text10 + part11;
    let all11 = all10 + told11;
    let part12 = "\n        "@;
    lemma_told_nothing(text11, part12, all11);
    let text12 = text11 + part12;
    let all12 = all11;
    let part13 = bumps_put_together(fields, name);
    lemma_told_nothing(text12, part13, all12);
    let text13 = text12 + part13;
    let all13 = all12;
    let part14 = "\n        Ok((Self { "@;
    let told14 = seq!["Ok((Self { "@];
    assert(told(part14, told14)) by {
        reveal(told);
        reveal_strlit("\n        Ok((Self { ");
        reveal_strlit("Ok((Self { ");
        assert(part14.subrange(9, 20) =~= "Ok((Self { "@);
        assert(says_at(part14, "Ok((Self { "@, 9));
        lemma_tells_one(part14, "Ok((Self { "@);
    }
    lemma_told_joined(text13, part14, all13, told14);
    let text14 = text13 + part14;
    let all14 = all13 + told14;
    let part15 = parted(fields.map_values(|field: AccountField| field.name.text@), ", "@);
    lemma_told_nothing(text14, part15, all14);
    let text15 = text14 + part15;
    let all15 = all14;
    let part16 = " }, __bumps, "@;
    lemma_told_nothing(text15, part16, all15);
    let text16 = text15 + part16;
    let all16 = all15;
    let part17 = ("("@ + named(args) + ")"@);
    lemma_told_nothing(text16, part17, all16);
    let text17 = text16 + part17;
    let all17 = all16;
    let part18 = "))\n    }\n\n"@;
    lemma_told_nothing(text17, part18, all17);
    let text18 = text17 + part18;
    let all18 = all17;
    assert(all18 =~= loads_and_checks(fields));
    assert(loading(name, fields, args)[2] == text18);
}

/// In the code for an accounts struct, `validate_accounts` loads every field in order, then
/// those that wait for others, and then holds every constraint of every field, in the order
/// of the fields and whether or not a field may be absent, all before its result.
pub proof fn lemma_constraints_checked(input: DeriveInput, readings: AccountsReadings)
    requires
        accepted_accounts(input, readings) is Ok,
    ensures
        tells(
            accepted_accounts(input, readings)->Ok_0,
            seq!["fn validate_accounts<'ix>("@] + readings.fields->Ok_0@.map_values(
                |field: AccountField| field.load@,
            ) + of_some(
                readings.fields->Ok_0@,
                |field: AccountField| option_text(field.deferred_load),
            ) + all_of(
                readings.fields->Ok_0@.map_values(
                    |field: AccountField| texts(field.constraints@),
                ),
            ) + seq!["Ok((Self { "@],
        ),
{
    let name = input.ident.text@;
    let fields = readings.fields->Ok_0@;
    let given = declared_args(input.attrs@, Seq::empty())->Ok_0;
    let args = arguments_of(given);
    let program_id = only_program_id(input.attrs@, None)->Ok_0;
    let scope = scope_of(input.data->Struct_0->Named_0@, given, program_id);
    let before = for_clients(
        item_name("__client_accounts_"@ + lowercase_of(name))->Ok_0,
        item_name(name + "Resolved"@)->Ok_0,
        name,
        fields,
        scope,
    ) + seq![
        for_programs(
            item_name("__cpi_accounts_"@ + lowercase_of(name))->Ok_0,
            name,
            fields,
            program_id,
        ),
        bumps_of(name, fields),
    ];
    let behind = seq![described(name, fields, readings.idl_accounts_fn@)];
    lemma_accounts_written(input, readings);
    lemma_loads_and_checks(name, fields, args);
    lemma_loading_len(name, fields, args);
    reveal(told);
    lemma_told_inside(
        accepted_accounts(input, readings)->Ok_0,
        before,
        loading(name, fields, args),
        behind,
        2,
        loads_and_checks(fields),
    );
}

proof fn lemma_loading_len(name: Seq<char>, fields: Seq<AccountField>, args: Seq<Argument>)
    ensures
        loading(name, fields, args).len() == 5,
{
    reveal(loading);
}

proof fn lemma_told_inside(
    code: Seq<char>,
    before: Seq<Seq<char>>,
    middle: Seq<Seq<char>>,
    behind: Seq<Seq<char>>,
    k: int,
    inner: Seq<Seq<char>>,
)
    requires
        tells(code, before + middle + behind),
        0 <= k < middle.len(),
        tells(middle[k], inner),
    ensures
        tells(code, inner),
{
    let all = before + middle + behind;
    lemma_told_is_said(code, all, before.len() + k);
    assert(all[before.len() + k] == middle[k]);
    lemma_said_tells(code, middle[k], inner);
}

} // verus!
