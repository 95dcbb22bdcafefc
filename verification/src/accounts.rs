//! Accounts structs: what deriving `Accounts` generates.

use crate::account_fields::{
    classify_field, finder_of, kind_of_field, nested_is_path, print_finder, AccountField, FieldKind,
    FieldKindView, Scope, ScopeView,
};
use crate::args::{arg_names, args_reader, emit_args_deser, ix_types, names_of, Argument};
use crate::derive_order::{derivation_order, find_order, kinds_view};
use crate::failure::{
    code_view, collected, diagnostic, lemma_collected_prefix, new_diagnostic, unit_view, Failure,
    FailureView,
};
use crate::field_attrs::{only_program_id, parse_accounts_program_id_attr};
use crate::instruction_attrs::{declared_args, parse_instruction_attrs, IxArg};
use crate::items::{all_named, field_name, well_named, Data, DeriveInput, Field, Fields};
use crate::names::{item_name, new_ident};
use crate::outside::{lowercase, lowercase_of};
use crate::qualified_path::{helper_module, leaf, QualifiedTypePath};
use crate::syntax::{print_type, type_text, Ident, Path, Type};
use crate::template::{fill1, fill11, fill2, fill3, fill4, fill5, fill6, fill8, filled};
use crate::text::{
    concat_all, concat_strings, decimal, decimal_text, filter_map_texts, flag, flag_text,
    join_strings, joined, map_texts, option_text, same_text, some_texts, terminate_strings,
    terminated, texts,
};
use vstd::prelude::*;

verus! {

// ---------------------------------------------------------------------------
// Readings
// ---------------------------------------------------------------------------

/// What a field says of closing: its name, and the field that its account is closed
/// into.
pub struct FieldSummary {
    pub name: Ident,
    pub close: Option<Ident>,
}

/// What was read of an accounts struct, or why reading failed.
pub struct AccountsReadings {
    pub summaries: Result<Vec<FieldSummary>, Failure>,
    pub fields: Result<Vec<AccountField>, Failure>,
    /// The function that describes the accounts, as text.
    pub idl_accounts_fn: String,
}

/// The first field with the given name.
pub open spec fn find_summary(summaries: Seq<FieldSummary>, name: Seq<char>) -> Option<FieldSummary>
    decreases summaries.len(),
{
    if summaries.len() == 0 {
        None
    } else if summaries[0].name.text@ == name {
        Some(summaries[0])
    } else {
        find_summary(summaries.skip(1), name)
    }
}

/// What is said of an account that is closed into one that is closed too.
pub open spec fn chain_message(target: Seq<char>) -> Seq<char> {
    "close target `"@ + target
        + "` is also scheduled to close; close chains can revive an account that was already closed"@
}

/// Whether a field is closed into one that is closed too.
pub open spec fn is_chain(field: FieldSummary, all: Seq<FieldSummary>) -> bool {
    field.close matches Some(target) && (find_summary(all, target.text@) matches Some(found)
        && found.close is Some)
}

/// The first of the fields that is closed into one that is closed too.
pub open spec fn chain_check(summaries: Seq<FieldSummary>, all: Seq<FieldSummary>) -> Result<
    (),
    FailureView,
>
    decreases summaries.len(),
{
    if summaries.len() == 0 {
        Ok(())
    } else if is_chain(summaries[0], all) {
        let target = summaries[0].close->Some_0;
        Err(diagnostic(target.span, chain_message(target.text@)))
    } else {
        chain_check(summaries.skip(1), all)
    }
}

/// In a struct that passes the check, no account is closed into one that is closed
/// too.
pub proof fn lemma_no_close_chain(summaries: Seq<FieldSummary>, all: Seq<FieldSummary>, i: int)
    requires
        chain_check(summaries, all) is Ok,
        0 <= i < summaries.len(),
    ensures
        !is_chain(summaries[i], all),
    decreases summaries.len(),
{
    if i > 0 {
        assert(summaries.skip(1)[i - 1] == summaries[i]);
        lemma_no_close_chain(summaries.skip(1), all, i - 1);
    }
}

fn closes(summaries: &Vec<FieldSummary>, name: &str) -> (out: bool)
    ensures
        out == (find_summary(summaries@, name@) matches Some(found) && found.close is Some),
{
    assert(summaries@.skip(0) == summaries@);
    for i in 0..summaries.len()
        invariant
            find_summary(summaries@, name@) == find_summary(summaries@.skip(i as int), name@),
    {
        assert(summaries@.skip(i as int).skip(1) == summaries@.skip(i + 1));
        if same_text(summaries[i].name.text.as_str(), name) {
            return summaries[i].close.is_some();
        }
    }
    false
}

/// Refuses an account that is closed into one that is closed too.
pub fn check_close_chains(summaries: &Vec<FieldSummary>) -> (out: Result<(), Failure>)
    ensures
        unit_view(out) == chain_check(summaries@, summaries@),
{
    assert(summaries@.skip(0) == summaries@);
    for i in 0..summaries.len()
        invariant
            chain_check(summaries@, summaries@) == chain_check(
                summaries@.skip(i as int),
                summaries@,
            ),
    {
        assert(summaries@.skip(i as int).skip(1) == summaries@.skip(i + 1));
        if let Some(target) = &summaries[i].close {
            if closes(summaries, target.text.as_str()) {
                return Err(
                    new_diagnostic(
                        target.span,
                        "close target `".to_owned().concat(target.text.as_str()).concat(
                            "` is also scheduled to close; close chains can revive an account that was already closed",
                        ),
                    ),
                );
            }
        }
    }
    Ok(())
}

// ---------------------------------------------------------------------------
// Offsets
// ---------------------------------------------------------------------------

/// What a field adds to the offsets of those behind it: one account, or as many as
/// the struct that it nests has.
pub open spec fn offset_step(inner: Option<Type>) -> Seq<char> {
    match inner {
        Some(ty) => " + <"@ + type_text(ty, None) + " as anchor_lang::TryAccounts>::HEADER_SIZE"@,
        None => " + 1"@,
    }
}

/// The expression for the place of the first account of a field, given the structs
/// that the fields nest.
pub open spec fn offset_text(inners: Seq<Option<Type>>, i: int) -> Seq<char>
    decreases i,
{
    if i <= 0 {
        "0usize"@
    } else {
        offset_text(inners, i - 1) + offset_step(inners[i - 1])
    }
}

/// The structs that the fields nest.
pub open spec fn inners_of(fields: Seq<AccountField>) -> Seq<Option<Type>> {
    fields.map_values(|field: AccountField| field.nested_inner)
}

fn print_offset_step(inner: &Option<Type>) -> (out: String)
    ensures
        out@ == offset_step(*inner),
{
    match inner {
        Some(ty) => " + <".to_owned().concat(print_type(ty).as_str()).concat(
            " as anchor_lang::TryAccounts>::HEADER_SIZE",
        ),
        None => " + 1".to_owned(),
    }
}

/// Writes the place of the first account of each field.
pub fn field_offsets(inners: &Vec<Option<Type>>) -> (out: Vec<String>)
    ensures
        texts(out@) == Seq::new(inners@.len(), |i: int| offset_text(inners@, i)),
{
    let mut out: Vec<String> = Vec::new();
    let mut current = "0usize".to_owned();
    for i in 0..inners.len()
        invariant
            out@.len() == i,
            current@ == offset_text(inners@, i as int),
            forall|k: int| 0 <= k < i ==> (#[trigger] out@[k])@ == offset_text(inners@, k),
    {
        out.push(current.clone());
        current = current.concat(print_offset_step(&inners[i]).as_str());
    }
    assert(texts(out@) =~= Seq::new(inners@.len(), |i: int| offset_text(inners@, i)));
    out
}

// ---------------------------------------------------------------------------
// Relations
// ---------------------------------------------------------------------------

/// As many of the given name as the list holds of the target.
pub open spec fn per_mention(list: Seq<String>, target: Seq<char>, name: Seq<char>) -> Seq<Seq<char>>
    decreases list.len(),
{
    if list.len() == 0 {
        Seq::empty()
    } else if list.last()@ == target {
        per_mention(list.drop_last(), target, name).push(name)
    } else {
        per_mention(list.drop_last(), target, name)
    }
}

/// The fields that a target is related to: those that say so of it, and the one that
/// its own address is taken from.
pub open spec fn relations(fields: Seq<AccountField>, target: Seq<char>) -> Seq<Seq<char>>
    decreases fields.len(),
{
    if fields.len() == 0 {
        Seq::empty()
    } else {
        let field = fields.last();
        let before = relations(fields.drop_last(), target) + per_mention(
            field.idl_has_one@,
            target,
            field.name.text@,
        );
        match field.idl_address_v1_source {
            Some(sibling) if field.name.text@ == target => before.push(sibling@),
            _ => before,
        }
    }
}

/// The fields that a target is related to.
pub fn account_relations(fields: &Vec<AccountField>, target: &str) -> (out: Vec<String>)
    ensures
        texts(out@) == relations(fields@, target@),
{
    let mut out: Vec<String> = Vec::new();
    assert(texts(out@) == Seq::<Seq<char>>::empty());
    for i in 0..fields.len()
        invariant
            texts(out@) == relations(fields@.take(i as int), target@),
    {
        assert(fields@.take(i + 1).drop_last() == fields@.take(i as int));
        let field = &fields[i];
        let list = &field.idl_has_one;
        let ghost start = texts(out@);
        assert(start + per_mention(list@.take(0), target@, field.name.text@) == start);
        for k in 0..list.len()
            invariant
                texts(out@) == start + per_mention(
                    list@.take(k as int),
                    target@,
                    field.name.text@,
                ),
        {
            assert(list@.take(k + 1).drop_last() == list@.take(k as int));
            let ghost before = texts(out@);
            if same_text(list[k].as_str(), target) {
                out.push(field.name.text.clone());
                assert(texts(out@) == before.push(field.name.text@));
                assert(texts(out@) == start + per_mention(
                    list@.take(k + 1),
                    target@,
                    field.name.text@,
                ));
            }
        }
        assert(list@.take(list@.len() as int) == list@);
        if let Some(sibling) = &field.idl_address_v1_source {
            if same_text(field.name.text.as_str(), target) {
                let ghost before = texts(out@);
                out.push(sibling.clone());
                assert(texts(out@) == before.push(sibling@));
            }
        }
    }
    assert(fields@.take(fields@.len() as int) == fields@);
    out
}

// ---------------------------------------------------------------------------
// Signers
// ---------------------------------------------------------------------------

/// The variable that holds the bumps of nested accounts.
pub const NESTED_BUMP_LOCAL: &'static str = r#"let mut @a: <@b as anchor_lang::Bumps>::Bumps =
    ::core::default::Default::default();"#;

/// The variable that holds the bump of an account that may be absent.
pub const OPTIONAL_BUMP_LOCAL: &'static str = r#"let mut @a: ::core::option::Option<u8> = ::core::default::Default::default();"#;

/// The variable that holds a bump.
pub const BUMP_LOCAL: &'static str = r#"let mut @a: u8 = ::core::default::Default::default();"#;

/// Marks an account as written.
pub const MUT_BIT: &'static str = r#"__mask = anchor_lang::mut_mask_set_bit(__mask, @a);"#;

/// Marks the nested accounts that are written.
pub const NESTED_MUT_BITS: &'static str = r#"__mask = anchor_lang::mut_mask_or_shifted(
    __mask,
    <@a as anchor_lang::TryAccounts>::MUT_MASK,
    @b,
);"#;

/// The mask of the accounts that are written.
pub const MUT_MASK: &'static str = r#"{
    let mut __mask = [0u64; 4];
    @a
    __mask
}"#;

/// Marks an account as written, if it is there.
pub const ACTIVE_MUT_BIT: &'static str = r#"if self.@a.is_some() {
    __mask = anchor_lang::mut_mask_set_bit(__mask, @b);
}"#;

/// Marks the nested accounts that are written and there.
pub const NESTED_ACTIVE_MUT_BITS: &'static str = r#"if <@a as anchor_lang::TryAccounts>::HAS_DYNAMIC_MUT_MASK {
    __mask = anchor_lang::mut_mask_or_shifted(
        __mask,
        <@a as anchor_lang::TryAccounts>::active_mut_mask(&self.@b.0),
        @c,
    );
}"#;

/// The mask of the accounts that are written and there.
pub const ACTIVE_MUT_MASK: &'static str = r#"let mut __mask = Self::MUT_MASK;
@a
__mask"#;

/// Registers what nested accounts depend on.
pub const NESTED_IDL_DEPS: &'static str = r#"<@a>::__idl_register_deps(accounts, types);"#;

/// Registers what an account depends on.
pub const IDL_DEPS: &'static str = r#"<@a as anchor_lang::IdlAccountType>::__register_idl_deps(accounts, types);"#;

/// The struct that holds the bumps.
pub const BUMPS_STRUCT: &'static str = r#"#[derive(Clone)]
pub struct @a { @b }

impl ::core::default::Default for @a
where
    @c
{
    fn default() -> Self {
        Self {
            @d
        }
    }
}"#;

/// Derives an address from seeds.
pub const DERIVED_PDA: &'static str = r#"let (@a, _) = anchor_lang::find_program_address(
    &[@b], @c,
);"#;

/// Adds the metas of nested accounts.
pub const CLIENT_META_NESTED: &'static str = r#"__metas.extend(anchor_lang::ToAccountMetas::to_account_metas(
    @a,
    _is_signer,
));"#;

/// Adds the meta of an account that may be absent.
pub const CLIENT_META_OPTIONAL: &'static str = r#"match @a {
    Some(__addr) => __metas.push(anchor_lang::AccountMeta {
        pubkey: __addr,
        is_writable: @b,
        is_signer: @c,
    }),
    None => __metas.push(anchor_lang::AccountMeta {
        pubkey: @d,
        is_writable: false,
        is_signer: false,
    }),
}"#;

/// Adds the meta of an account.
pub const CLIENT_META: &'static str = r#"__metas.push(anchor_lang::AccountMeta {
    pubkey: @a,
    is_writable: @b,
    is_signer: @c,
});"#;

/// A field for nested accounts.
pub const CPI_NESTED_FIELD: &'static str = r#"#[nested]
pub @a: @b<'a>"#;

/// A field for an account that is written and may be absent.
pub const CPI_OPTIONAL_WRITABLE_FIELD: &'static str = r#"#[signer(@a)]
pub @b: ::core::option::Option<anchor_lang::CpiHandleMut<'a>>"#;

/// A field for an account that may be absent.
pub const CPI_OPTIONAL_FIELD: &'static str = r#"#[signer(@a)]
pub @b: ::core::option::Option<anchor_lang::CpiHandle<'a>>"#;

/// A field for an account that is written.
pub const CPI_WRITABLE_FIELD: &'static str = r#"#[signer(@a)]
pub @b: anchor_lang::CpiHandleMut<'a>"#;

/// A field for an account.
pub const CPI_FIELD: &'static str = r#"#[signer(@a)]
pub @b: anchor_lang::CpiHandle<'a>"#;

/// The field that holds the lifetime of a struct without accounts.
pub const CPI_PHANTOM_FIELD: &'static str = r#"#[doc(hidden)]
pub _phantom: ::core::marker::PhantomData<&'a ()>,"#;

/// How a struct without accounts is made.
pub const CPI_CONSTRUCTOR: &'static str = r#"impl<'a> @a<'a> {
    #[inline]
    pub const fn new() -> Self {
        Self { _phantom: ::core::marker::PhantomData }
    }
}
impl<'a> ::core::default::Default for @a<'a> {
    #[inline]
    fn default() -> Self { Self::new() }
}"#;

/// The module with the accounts for other programs.
pub const CPI_MODULE: &'static str = r#"pub mod @a {
    extern crate alloc;
    use super::*;
    #[derive(anchor_lang::ToCpiAccounts)]
    #[accounts_program_id(@b)]
    pub struct @c<'a> {
        @d
        @e
    }
    @f
}"#;

/// The struct of the accounts that a client must give.
pub const RESOLVED_STRUCT: &'static str = r#"pub struct @a {
    @b
}
impl anchor_lang::ToAccountMetas for @a {
    fn to_account_metas(&self, _is_signer: Option<bool>) -> alloc::vec::Vec<anchor_lang::AccountMeta> {
        @c
        @d
        let mut __metas = alloc::vec::Vec::new();
        @e
        __metas
    }
}"#;

/// Whether an account signs, for a client.
pub const CLIENT_SIGNER: &'static str = r#"if <@a as anchor_lang::AnchorAccount>::IS_SIGNER || @b {
    _is_signer.unwrap_or(true)
} else {
    false
}"#;

/// Whether an account signs, for another program.
pub const CPI_SIGNER: &'static str = r#"<@a as anchor_lang::AnchorAccount>::IS_SIGNER || @b"#;

/// The module with the accounts for clients.
pub const CLIENT_MODULE: &'static str = r#"pub mod @a {
    extern crate alloc;
    use super::*;
    pub struct @b {
        @c
    }
    impl anchor_lang::ToAccountMetas for @b {
        fn to_account_metas(&self, _is_signer: Option<bool>) -> alloc::vec::Vec<anchor_lang::AccountMeta> {
            let mut __metas = alloc::vec::Vec::new();
            @d
            __metas
        }
    }
    @e
    impl @b {
        @f
    }
}
"#;

/// How the accounts are loaded: their number, masks and arguments, and then the
/// steps.
pub const TRY_ACCOUNTS_HEAD: &'static str = r#"impl anchor_lang::Bumps for @a {
    type Bumps = @b;
}

impl anchor_lang::TryAccounts for @a {
    const HEADER_SIZE: usize = @c;
    const MUT_MASK: [u64; 4] = @d;
    const HAS_DYNAMIC_MUT_MASK: bool = @e;

    #[inline(always)]
    fn active_mut_mask(&self) -> [u64; 4] {
        @f
    }

    @g

    #[inline]
    fn try_accounts<'ix>(
        __program_id: &anchor_lang::Address,
        __views: &[anchor_lang::AccountView],
        __duplicates: ::core::option::Option<&anchor_lang::AccountBitvec>,
        __base_offset: usize,
        __ix_data: &'ix [u8],
    ) -> anchor_lang::Result<(Self, @b, Self::IxArgs<'ix>)> {
        let (mut __accounts, __bumps, __ix_args) =
            <Self as anchor_lang::TryAccounts>::validate_accounts(
                __program_id,
                __views,
                __duplicates,
                __base_offset,
                __ix_data,
            )?;
        <Self as anchor_lang::TryAccounts>::update_accounts(&mut __accounts)?;
        Ok((__accounts, __bumps, __ix_args))
    }
@h
}
"#;

/// The steps in which the accounts are loaded, updated and written back.
pub const TRY_ACCOUNTS_STEPS: &'static str = r#"    #[inline]
    fn validate_accounts<'ix>(
        __program_id: &anchor_lang::Address,
        __views: &[anchor_lang::AccountView],
        __duplicates: ::core::option::Option<&anchor_lang::AccountBitvec>,
        __base_offset: usize,
        __ix_data: &'ix [u8],
    ) -> anchor_lang::Result<(Self, @a, Self::IxArgs<'ix>)> {
        @b
        @c
        @d
        @e
        @f
        @g
        Ok((Self { @h }, __bumps, @i))
    }

    #[inline(always)]
    fn update_accounts(&mut self) -> anchor_lang::Result<()> {
        @j
        Ok(())
    }

    #[inline(always)]
    fn exit_accounts<'ix>(&mut self, __ix_data: &'ix [u8]) -> anchor_lang::Result<()> {
        @b
        @k
        Ok(())
    }
"#;

/// What the accounts say in the interface description.
pub const IDL_IMPL: &'static str = r#"#[cfg(feature = "idl-build")]
#[doc(hidden)]
impl @a {
    @b

    /// **Opaque / unstable.** Walks each account field's
    /// [`IdlAccountType::__register_idl_deps`] so nested
    /// user-defined types (plain `#[derive(IdlType)]` structs,
    /// `#[account]` data types, `#[event]` payload types, etc.)
    /// transitively register into the IDL's program-level
    /// `accounts[]` and `types[]` arrays.
    #[doc(hidden)]
    pub fn __idl_register_deps(
        accounts: &mut anchor_lang::__alloc::vec::Vec<&'static str>,
        types: &mut anchor_lang::__alloc::vec::Vec<&'static str>,
    ) {
        @c
    }
}
"#;

/// The condition under which a client lets an account sign.
pub open spec fn client_signer(field: AccountField) -> Seq<char> {
    match field.idl_field_ty {
        Some(ty) => filled(
            CLIENT_SIGNER@,
            seq![type_text(ty, None), flag(field.idl_init_signer)],
        ),
        None => if field.idl_init_signer {
            "_is_signer.unwrap_or(true)"@
        } else {
            "false"@
        },
    }
}

/// Writes the condition under which a client lets an account sign.
pub fn client_meta_signer_expr(field: &AccountField) -> (out: String)
    ensures
        out@ == client_signer(*field),
{
    match &field.idl_field_ty {
        Some(ty) => fill2(
            CLIENT_SIGNER,
            print_type(ty).as_str(),
            flag_text(field.idl_init_signer).as_str(),
        ),
        None => if field.idl_init_signer {
            "_is_signer.unwrap_or(true)".to_owned()
        } else {
            "false".to_owned()
        },
    }
}

/// The condition under which another program lets an account sign.
pub open spec fn cpi_signer(field: AccountField) -> Seq<char> {
    match field.idl_field_ty {
        Some(ty) => filled(CPI_SIGNER@, seq![type_text(ty, None), flag(field.idl_init_signer)]),
        None => flag(field.idl_init_signer),
    }
}

/// Writes the condition under which another program lets an account sign.
pub fn cpi_meta_signer_expr(field: &AccountField) -> (out: String)
    ensures
        out@ == cpi_signer(*field),
{
    match &field.idl_field_ty {
        Some(ty) => fill2(
            CPI_SIGNER,
            print_type(ty).as_str(),
            flag_text(field.idl_init_signer).as_str(),
        ),
        None => flag_text(field.idl_init_signer),
    }
}

// ---------------------------------------------------------------------------
// Fields, prepared
// ---------------------------------------------------------------------------

/// A field with what was worked out for it.
pub struct Prepared<'a> {
    pub field: &'a AccountField,
    pub offset: String,
    /// The types of nested accounts, for clients and for other programs.
    pub client: Option<String>,
    pub cpi: Option<String>,
    pub required: bool,
    pub finder: Option<String>,
    pub program_id: &'a str,
}

/// A field with what was worked out for it, as sequences of characters.
pub struct PreparedView {
    pub field: AccountField,
    pub offset: Seq<char>,
    pub client: Option<Seq<char>>,
    pub cpi: Option<Seq<char>>,
    pub required: bool,
    pub finder: Option<Seq<char>>,
    pub program_id: Seq<char>,
}

impl<'a> View for Prepared<'a> {
    type V = PreparedView;

    open spec fn view(&self) -> PreparedView {
        PreparedView {
            field: *self.field,
            offset: self.offset@,
            client: option_text(self.client),
            cpi: option_text(self.cpi),
            required: self.required,
            finder: option_text(self.finder),
            program_id: self.program_id@,
        }
    }
}

/// The fields with what was worked out for them, as sequences of characters.
pub open spec fn prepared_view(all: Seq<Prepared>) -> Seq<PreparedView> {
    all.map_values(|one: Prepared| one@)
}

/// The type that is generated beside an accounts struct.
pub open spec fn beside(ty: Type, prefix: Seq<char>) -> Result<Seq<char>, FailureView> {
    let path = ty->Path_0.path;
    match helper_module(path, prefix, 1) {
        Err(failure) => Err(failure),
        Ok(module) => Ok(module + "::"@ + leaf(path).text@),
    }
}

/// The type of nested accounts for clients.
pub fn nested_client_accounts_type(ty: &Type) -> (out: Result<String, Failure>)
    requires
        ty matches Type::Path(path) && path.path.segments@.len() > 0,
    ensures
        code_view(out) == beside(*ty, "__client_accounts_"@),
{
    type_beside(ty, "__client_accounts_")
}

fn type_beside(ty: &Type, prefix: &str) -> (out: Result<String, Failure>)
    requires
        ty matches Type::Path(path) && path.path.segments@.len() > 0,
    ensures
        code_view(out) == beside(*ty, prefix@),
{
    match QualifiedTypePath::from_type(ty) {
        Some(path) => match path.helper_module_path(prefix, 1) {
            Ok(module) => Ok(module.concat("::").concat(path.leaf_ident.text.as_str())),
            Err(failure) => Err(failure),
        },
        None => Ok(String::new()),
    }
}

/// A field with what is worked out for it.
pub open spec fn prepared_at(fields: Seq<AccountField>, scope: ScopeView, i: int) -> Result<
    PreparedView,
    FailureView,
> {
    let field = fields[i];
    let own = PreparedView {
        field,
        offset: offset_text(inners_of(fields), i),
        client: None,
        cpi: None,
        required: kind_of_field(field, scope) is Required,
        finder: None,
        program_id: scope.program_id,
    };
    match finder_of(field, scope) {
        Err(failure) => Err(failure),
        Ok(finder) => match field.nested_inner {
            None => Ok(PreparedView { finder, ..own }),
            Some(inner) => match beside(inner, "__client_accounts_"@) {
                Err(failure) => Err(failure),
                Ok(client) => match beside(inner, "__cpi_accounts_"@) {
                    Err(failure) => Err(failure),
                    Ok(cpi) => Ok(
                        PreparedView { finder, client: Some(client), cpi: Some(cpi), ..own },
                    ),
                },
            },
        },
    }
}

/// The fields with what is worked out for them, or the first failure.
pub open spec fn all_prepared(fields: Seq<AccountField>, scope: ScopeView) -> Result<
    Seq<PreparedView>,
    FailureView,
> {
    collected(Seq::new(fields.len(), |i: int| prepared_at(fields, scope, i)))
}

fn prepare_one<'a>(field: &'a AccountField, scope: &'a Scope, offset: String) -> (out: Result<
    Prepared<'a>,
    Failure,
>)
    requires
        nested_is_path(*field),
    ensures
        forall|fields: Seq<AccountField>, i: int|
            fields[i] == *field && offset@ == offset_text(inners_of(fields), i) ==> (match out {
                Ok(one) => Ok::<PreparedView, FailureView>(one@),
                Err(failure) => Err(failure@),
            }) == #[trigger] prepared_at(fields, scope@, i),
{
    let finder = match print_finder(field, scope) {
        Ok(finder) => finder,
        Err(failure) => return Err(failure),
    };
    let required = match classify_field(field, scope) {
        FieldKind::Required => true,
        _ => false,
    };
    let (client, cpi) = match &field.nested_inner {
        None => (None, None),
        Some(inner) => {
            let client = match nested_client_accounts_type(inner) {
                Ok(client) => client,
                Err(failure) => return Err(failure),
            };
            let cpi = match type_beside(inner, "__cpi_accounts_") {
                Ok(cpi) => cpi,
                Err(failure) => return Err(failure),
            };
            (Some(client), Some(cpi))
        },
    };
    Ok(
        Prepared {
            field,
            offset,
            client,
            cpi,
            required,
            finder,
            program_id: scope.program_id.as_str(),
        },
    )
}

fn prepare<'a>(fields: &'a Vec<AccountField>, scope: &'a Scope) -> (out: Result<
    Vec<Prepared<'a>>,
    Failure,
>)
    requires
        forall|i: int| 0 <= i < fields@.len() ==> nested_is_path(#[trigger] fields@[i]),
    ensures
        (match out {
            Ok(all) => Ok::<Seq<PreparedView>, FailureView>(prepared_view(all@)),
            Err(failure) => Err(failure@),
        }) == all_prepared(fields@, scope@),
{
    let mut out: Vec<Prepared<'a>> = Vec::new();
    let mut current = "0usize".to_owned();
    let ghost results = Seq::new(fields@.len(), |i: int| prepared_at(fields@, scope@, i));
    assert(prepared_view(out@) == Seq::<PreparedView>::empty());
    for i in 0..fields.len()
        invariant
            forall|i: int| 0 <= i < fields@.len() ==> nested_is_path(#[trigger] fields@[i]),
            results == Seq::new(fields@.len(), |i: int| prepared_at(fields@, scope@, i)),
            current@ == offset_text(inners_of(fields@), i as int),
            collected(results.take(i as int)) == Ok::<Seq<PreparedView>, FailureView>(
                prepared_view(out@),
            ),
    {
        assert(results.take(i + 1).drop_last() == results.take(i as int));
        assert(results[i as int] == prepared_at(fields@, scope@, i as int));
        match prepare_one(&fields[i], scope, current.clone()) {
            Ok(one) => {
                let ghost before = prepared_view(out@);
                out.push(one);
                assert(prepared_view(out@) == before.push(one@));
            },
            Err(failure) => {
                proof {
                    lemma_collected_prefix(results, i + 1);
                }
                return Err(failure);
            },
        }
        assert(inners_of(fields@)[i as int] == fields@[i as int].nested_inner);
        current = current.concat(print_offset_step(&fields[i].nested_inner).as_str());
    }
    assert(results.take(fields@.len() as int) == results);
    Ok(out)
}

// ---------------------------------------------------------------------------
// Pieces
// ---------------------------------------------------------------------------

/// The accounts struct that a field nests, as text.
pub open spec fn inner_text(field: AccountField) -> Seq<char> {
    match field.nested_inner {
        Some(ty) => type_text(ty, None),
        None => ""@,
    }
}

fn print_inner(field: &AccountField) -> (out: String)
    ensures
        out@ == inner_text(*field),
{
    match &field.nested_inner {
        Some(ty) => print_type(ty),
        None => "".to_owned(),
    }
}

/// The type that describes a field, as text.
pub open spec fn idl_type_text(field: AccountField) -> Seq<char> {
    match field.idl_field_ty {
        Some(ty) => type_text(ty, None),
        None => ""@,
    }
}

fn print_idl_type(field: &AccountField) -> (out: String)
    ensures
        out@ == idl_type_text(*field),
{
    match &field.idl_field_ty {
        Some(ty) => print_type(ty),
        None => "".to_owned(),
    }
}

fn some_str(text: &Option<String>) -> (out: &str)
    requires
        text is Some,
    ensures
        out@ == text->Some_0@,
{
    match text {
        Some(text) => text.as_str(),
        None => "",
    }
}

/// The field of the bumps struct for a field.
pub open spec fn bump_field(p: PreparedView) -> Option<Seq<char>> {
    if p.field.has_bump && p.field.is_optional {
        Some(filled("pub @a: Option<u8>"@, seq![p.field.name.text@]))
    } else if p.field.has_bump {
        Some(filled("pub @a: u8"@, seq![p.field.name.text@]))
    } else if p.field.nested_inner is Some {
        Some(
            filled(
                "pub @a: <@b as anchor_lang::Bumps>::Bumps"@,
                seq![p.field.name.text@, inner_text(p.field)],
            ),
        )
    } else {
        None
    }
}

fn print_bump_field(p: &Prepared) -> (out: Option<String>)
    ensures
        option_text(out) == bump_field(p@),
{
    if p.field.has_bump && p.field.is_optional {
        Some(fill1("pub @a: Option<u8>", p.field.name.text.as_str()))
    } else if p.field.has_bump {
        Some(fill1("pub @a: u8", p.field.name.text.as_str()))
    } else if p.field.nested_inner.is_some() {
        Some(
            fill2(
                "pub @a: <@b as anchor_lang::Bumps>::Bumps",
                p.field.name.text.as_str(),
                print_inner(p.field).as_str(),
            ),
        )
    } else {
        None
    }
}

/// The bound under which nested bumps have a default.
pub open spec fn bump_bound(p: PreparedView) -> Option<Seq<char>> {
    if p.field.nested_inner is Some {
        Some(
            filled(
                "<@a as anchor_lang::Bumps>::Bumps: ::core::default::Default"@,
                seq![inner_text(p.field)],
            ),
        )
    } else {
        None
    }
}

fn print_bump_bound(p: &Prepared) -> (out: Option<String>)
    ensures
        option_text(out) == bump_bound(p@),
{
    if p.field.nested_inner.is_some() {
        Some(
            fill1(
                "<@a as anchor_lang::Bumps>::Bumps: ::core::default::Default",
                print_inner(p.field).as_str(),
            ),
        )
    } else {
        None
    }
}

/// The variable that holds the bump of a field while it is loaded.
pub open spec fn bump_local(p: PreparedView) -> Option<Seq<char>> {
    if p.field.nested_inner is Some {
        Some(filled(NESTED_BUMP_LOCAL@, seq![p.field.bump_cache@, inner_text(p.field)]))
    } else if p.field.has_bump && p.field.is_optional {
        Some(filled(OPTIONAL_BUMP_LOCAL@, seq![p.field.bump_cache@]))
    } else if p.field.has_bump {
        Some(filled(BUMP_LOCAL@, seq![p.field.bump_cache@]))
    } else {
        None
    }
}

fn print_bump_local(p: &Prepared) -> (out: Option<String>)
    ensures
        option_text(out) == bump_local(p@),
{
    if p.field.nested_inner.is_some() {
        Some(fill2(NESTED_BUMP_LOCAL, p.field.bump_cache.as_str(), print_inner(p.field).as_str()))
    } else if p.field.has_bump && p.field.is_optional {
        Some(fill1(OPTIONAL_BUMP_LOCAL, p.field.bump_cache.as_str()))
    } else if p.field.has_bump {
        Some(fill1(BUMP_LOCAL, p.field.bump_cache.as_str()))
    } else {
        None
    }
}

/// The bump of a field in the bumps struct, once it is loaded.
pub open spec fn bump_value(p: PreparedView) -> Option<Seq<char>> {
    if p.field.has_bump || p.field.nested_inner is Some {
        Some(filled("@a: @b"@, seq![p.field.name.text@, p.field.bump_cache@]))
    } else {
        None
    }
}

fn print_bump_value(p: &Prepared) -> (out: Option<String>)
    ensures
        option_text(out) == bump_value(p@),
{
    if p.field.has_bump || p.field.nested_inner.is_some() {
        Some(fill2("@a: @b", p.field.name.text.as_str(), p.field.bump_cache.as_str()))
    } else {
        None
    }
}

/// The bump of a field in the default bumps struct.
pub open spec fn bump_default(p: PreparedView) -> Option<Seq<char>> {
    if p.field.has_bump || p.field.nested_inner is Some {
        Some(filled("@a: ::core::default::Default::default()"@, seq![p.field.name.text@]))
    } else {
        None
    }
}

fn print_bump_default(p: &Prepared) -> (out: Option<String>)
    ensures
        option_text(out) == bump_default(p@),
{
    if p.field.has_bump || p.field.nested_inner.is_some() {
        Some(fill1("@a: ::core::default::Default::default()", p.field.name.text.as_str()))
    } else {
        None
    }
}

/// What nested accounts add to the number of accounts.
pub open spec fn header_term(p: PreparedView) -> Option<Seq<char>> {
    if p.field.nested_inner is Some {
        Some(filled(" + <@a as anchor_lang::TryAccounts>::HEADER_SIZE"@, seq![inner_text(p.field)]))
    } else {
        None
    }
}

fn print_header_term(p: &Prepared) -> (out: Option<String>)
    ensures
        option_text(out) == header_term(p@),
{
    if p.field.nested_inner.is_some() {
        Some(
            fill1(
                " + <@a as anchor_lang::TryAccounts>::HEADER_SIZE",
                print_inner(p.field).as_str(),
            ),
        )
    } else {
        None
    }
}

/// The statement that marks a field as written.
pub open spec fn mut_mask_step(p: PreparedView) -> Option<Seq<char>> {
    if p.field.contributes_mut_bit {
        Some(filled(MUT_BIT@, seq![p.offset]))
    } else if p.field.nested_inner is Some {
        Some(filled(NESTED_MUT_BITS@, seq![inner_text(p.field), p.offset]))
    } else {
        None
    }
}

fn print_mut_mask_step(p: &Prepared) -> (out: Option<String>)
    ensures
        option_text(out) == mut_mask_step(p@),
{
    if p.field.contributes_mut_bit {
        Some(fill1(MUT_BIT, p.offset.as_str()))
    } else if p.field.nested_inner.is_some() {
        Some(fill2(NESTED_MUT_BITS, print_inner(p.field).as_str(), p.offset.as_str()))
    } else {
        None
    }
}

/// Whether the mask depends on a field being there.
pub open spec fn dynamic_term(p: PreparedView) -> Option<Seq<char>> {
    if p.field.contributes_active_mut_bit {
        Some(" || true"@)
    } else if p.field.nested_inner is Some {
        Some(
            filled(
                " || <@a as anchor_lang::TryAccounts>::HAS_DYNAMIC_MUT_MASK"@,
                seq![inner_text(p.field)],
            ),
        )
    } else {
        None
    }
}

fn print_dynamic_term(p: &Prepared) -> (out: Option<String>)
    ensures
        option_text(out) == dynamic_term(p@),
{
    if p.field.contributes_active_mut_bit {
        Some(" || true".to_owned())
    } else if p.field.nested_inner.is_some() {
        Some(
            fill1(
                " || <@a as anchor_lang::TryAccounts>::HAS_DYNAMIC_MUT_MASK",
                print_inner(p.field).as_str(),
            ),
        )
    } else {
        None
    }
}

/// The statement that marks a field as written, if it is there.
pub open spec fn active_mask_step(p: PreparedView) -> Option<Seq<char>> {
    if p.field.contributes_active_mut_bit {
        Some(filled(ACTIVE_MUT_BIT@, seq![p.field.name.text@, p.offset]))
    } else if p.field.nested_inner is Some {
        Some(
            filled(
                NESTED_ACTIVE_MUT_BITS@,
                seq![inner_text(p.field), p.field.name.text@, p.offset],
            ),
        )
    } else {
        None
    }
}

fn print_active_mask_step(p: &Prepared) -> (out: Option<String>)
    ensures
        option_text(out) == active_mask_step(p@),
{
    if p.field.contributes_active_mut_bit {
        Some(fill2(ACTIVE_MUT_BIT, p.field.name.text.as_str(), p.offset.as_str()))
    } else if p.field.nested_inner.is_some() {
        Some(
            fill3(
                NESTED_ACTIVE_MUT_BITS,
                print_inner(p.field).as_str(),
                p.field.name.text.as_str(),
                p.offset.as_str(),
            ),
        )
    } else {
        None
    }
}

/// The statement that registers what a field depends on.
pub open spec fn idl_dep(p: PreparedView) -> Option<Seq<char>> {
    if p.field.nested_inner is Some {
        Some(filled(NESTED_IDL_DEPS@, seq![inner_text(p.field)]))
    } else if p.field.idl_field_ty is Some {
        Some(filled(IDL_DEPS@, seq![idl_type_text(p.field)]))
    } else {
        None
    }
}

fn print_idl_dep(p: &Prepared) -> (out: Option<String>)
    ensures
        option_text(out) == idl_dep(p@),
{
    if p.field.nested_inner.is_some() {
        Some(fill1(NESTED_IDL_DEPS, print_inner(p.field).as_str()))
    } else if p.field.idl_field_ty.is_some() {
        Some(fill1(IDL_DEPS, print_idl_type(p.field).as_str()))
    } else {
        None
    }
}

/// The field by which a client gives an address.
pub open spec fn client_field(p: PreparedView) -> Seq<char> {
    if p.client is Some {
        filled("pub @a: @b"@, seq![p.field.name.text@, p.client->Some_0])
    } else if p.field.is_optional {
        filled("pub @a: Option<anchor_lang::Address>"@, seq![p.field.name.text@])
    } else {
        filled("pub @a: anchor_lang::Address"@, seq![p.field.name.text@])
    }
}

fn print_client_field(p: &Prepared) -> (out: String)
    ensures
        out@ == client_field(p@),
{
    if p.client.is_some() {
        fill2("pub @a: @b", p.field.name.text.as_str(), some_str(&p.client))
    } else if p.field.is_optional {
        fill1("pub @a: Option<anchor_lang::Address>", p.field.name.text.as_str())
    } else {
        fill1("pub @a: anchor_lang::Address", p.field.name.text.as_str())
    }
}

/// The variable for an address that a client gives.
pub open spec fn required_local(p: PreparedView) -> Seq<char> {
    if p.client is Some {
        filled("let @a = &self.@b; "@, seq![p.field.name.text@, p.field.name.text@])
    } else {
        filled("let @a = self.@b; "@, seq![p.field.name.text@, p.field.name.text@])
    }
}

fn print_required_local(p: &Prepared) -> (out: String)
    ensures
        out@ == required_local(p@),
{
    if p.client.is_some() {
        fill2("let @a = &self.@b; ", p.field.name.text.as_str(), p.field.name.text.as_str())
    } else {
        fill2("let @a = self.@b; ", p.field.name.text.as_str(), p.field.name.text.as_str())
    }
}

/// The statement that adds the meta of a field, from a variable.
pub open spec fn client_meta_step(p: PreparedView) -> Seq<char> {
    if p.client is Some {
        filled(CLIENT_META_NESTED@, seq![p.field.name.text@])
    } else if p.field.is_optional {
        filled(
            CLIENT_META_OPTIONAL@,
            seq![
                p.field.name.text@,
                flag(p.field.idl_writable),
                client_signer(p.field),
                p.program_id,
            ],
        )
    } else {
        filled(
            CLIENT_META@,
            seq![p.field.name.text@, flag(p.field.idl_writable), client_signer(p.field)],
        )
    }
}

fn print_client_meta_step(p: &Prepared) -> (out: String)
    ensures
        out@ == client_meta_step(p@),
{
    if p.client.is_some() {
        fill1(CLIENT_META_NESTED, p.field.name.text.as_str())
    } else if p.field.is_optional {
        fill4(
            CLIENT_META_OPTIONAL,
            p.field.name.text.as_str(),
            flag_text(p.field.idl_writable).as_str(),
            client_meta_signer_expr(p.field).as_str(),
            p.program_id,
        )
    } else {
        fill3(
            CLIENT_META,
            p.field.name.text.as_str(),
            flag_text(p.field.idl_writable).as_str(),
            client_meta_signer_expr(p.field).as_str(),
        )
    }
}

/// The statement that adds the meta of a field, from the struct.
pub open spec fn full_meta_step(p: PreparedView) -> Seq<char> {
    if p.client is Some {
        filled(CLIENT_META_NESTED@, seq!["&self."@ + p.field.name.text@])
    } else if p.field.is_optional {
        filled(
            CLIENT_META_OPTIONAL@,
            seq![
                "self."@ + p.field.name.text@,
                flag(p.field.idl_writable),
                client_signer(p.field),
                p.program_id,
            ],
        )
    } else {
        filled(
            CLIENT_META@,
            seq!["self."@ + p.field.name.text@, flag(p.field.idl_writable), client_signer(p.field)],
        )
    }
}

fn print_full_meta_step(p: &Prepared) -> (out: String)
    ensures
        out@ == full_meta_step(p@),
{
    if p.client.is_some() {
        fill1(CLIENT_META_NESTED, "&self.".to_owned().concat(p.field.name.text.as_str()).as_str())
    } else if p.field.is_optional {
        fill4(
            CLIENT_META_OPTIONAL,
            "self.".to_owned().concat(p.field.name.text.as_str()).as_str(),
            flag_text(p.field.idl_writable).as_str(),
            client_meta_signer_expr(p.field).as_str(),
            p.program_id,
        )
    } else {
        fill3(
            CLIENT_META,
            "self.".to_owned().concat(p.field.name.text.as_str()).as_str(),
            flag_text(p.field.idl_writable).as_str(),
            client_meta_signer_expr(p.field).as_str(),
        )
    }
}

/// The field by which another program gives an account.
pub open spec fn cpi_field_decl(p: PreparedView) -> Seq<char> {
    if p.cpi is Some {
        filled(CPI_NESTED_FIELD@, seq![p.field.name.text@, p.cpi->Some_0])
    } else if p.field.is_optional && p.field.idl_writable {
        filled(CPI_OPTIONAL_WRITABLE_FIELD@, seq![cpi_signer(p.field), p.field.name.text@])
    } else if p.field.is_optional {
        filled(CPI_OPTIONAL_FIELD@, seq![cpi_signer(p.field), p.field.name.text@])
    } else if p.field.idl_writable {
        filled(CPI_WRITABLE_FIELD@, seq![cpi_signer(p.field), p.field.name.text@])
    } else {
        filled(CPI_FIELD@, seq![cpi_signer(p.field), p.field.name.text@])
    }
}

fn print_cpi_field_decl(p: &Prepared) -> (out: String)
    ensures
        out@ == cpi_field_decl(p@),
{
    if p.cpi.is_some() {
        fill2(CPI_NESTED_FIELD, p.field.name.text.as_str(), some_str(&p.cpi))
    } else if p.field.is_optional && p.field.idl_writable {
        fill2(
            CPI_OPTIONAL_WRITABLE_FIELD,
            cpi_meta_signer_expr(p.field).as_str(),
            p.field.name.text.as_str(),
        )
    } else if p.field.is_optional {
        fill2(
            CPI_OPTIONAL_FIELD,
            cpi_meta_signer_expr(p.field).as_str(),
            p.field.name.text.as_str(),
        )
    } else if p.field.idl_writable {
        fill2(
            CPI_WRITABLE_FIELD,
            cpi_meta_signer_expr(p.field).as_str(),
            p.field.name.text.as_str(),
        )
    } else {
        fill2(CPI_FIELD, cpi_meta_signer_expr(p.field).as_str(), p.field.name.text.as_str())
    }
}

/// The texts of the fields that have one.
pub open spec fn picked(
    all: Seq<PreparedView>,
    text: spec_fn(PreparedView) -> Option<Seq<char>>,
) -> Seq<Seq<char>> {
    some_texts(all.map_values(text))
}

/// The texts of all fields.
pub open spec fn each(all: Seq<PreparedView>, text: spec_fn(PreparedView) -> Seq<char>) -> Seq<
    Seq<char>,
> {
    all.map_values(text)
}

fn pick<'a, F: Fn(&Prepared<'a>) -> Option<String>>(
    all: &Vec<Prepared<'a>>,
    f: F,
    Ghost(text): Ghost<spec_fn(PreparedView) -> Option<Seq<char>>>,
) -> (out: Vec<String>)
    requires
        forall|i: int| 0 <= i < all@.len() ==> #[trigger] f.requires((&all@[i],)),
        forall|i: int, s: Option<String>|
            0 <= i < all@.len() && #[trigger] f.ensures((&all@[i],), s) ==> option_text(s) == text(
                all@[i]@,
            ),
    ensures
        texts(out@) == picked(prepared_view(all@), text),
{
    let out = filter_map_texts(all, f, Ghost(|one: Prepared<'a>| text(one@)));
    assert(prepared_view(all@).map_values(text) == all@.map_values(|one: Prepared<'a>| text(one@)));
    out
}

fn print_each<'a, F: Fn(&Prepared<'a>) -> String>(
    all: &Vec<Prepared<'a>>,
    f: F,
    Ghost(text): Ghost<spec_fn(PreparedView) -> Seq<char>>,
) -> (out: Vec<String>)
    requires
        forall|i: int| 0 <= i < all@.len() ==> #[trigger] f.requires((&all@[i],)),
        forall|i: int, s: String|
            0 <= i < all@.len() && #[trigger] f.ensures((&all@[i],), s) ==> s@ == text(all@[i]@),
    ensures
        texts(out@) == each(prepared_view(all@), text),
{
    let out = map_texts(all, f, Ghost(|one: Prepared<'a>| text(one@)));
    assert(prepared_view(all@).map_values(text) == all@.map_values(|one: Prepared<'a>| text(one@)));
    out
}

// ---------------------------------------------------------------------------
// Bumps
// ---------------------------------------------------------------------------

/// The type that holds the bumps.
pub open spec fn bumps_def(all: Seq<PreparedView>, bumps_name: Seq<char>) -> Seq<char> {
    let fields = picked(all, |p: PreparedView| bump_field(p));
    if fields.len() > 0 {
        filled(
            BUMPS_STRUCT@,
            seq![
                bumps_name,
                terminated(fields, ", "@),
                terminated(picked(all, |p: PreparedView| bump_bound(p)), ", "@),
                terminated(picked(all, |p: PreparedView| bump_default(p)), ", "@),
            ],
        )
    } else {
        "pub type "@ + bumps_name + " = ();"@
    }
}

/// The statement that puts the bumps together.
pub open spec fn bumps_build(all: Seq<PreparedView>, bumps_name: Seq<char>) -> Seq<char> {
    if picked(all, |p: PreparedView| bump_field(p)).len() > 0 {
        "let __bumps = "@ + bumps_name + " { "@ + terminated(picked(all, |p: PreparedView| bump_value(p)), ", "@) + "};"@
    } else {
        "let __bumps = "@ + bumps_name + "::default();"@
    }
}

fn print_bumps<'a>(all: &Vec<Prepared<'a>>, bumps_name: &str) -> (out: (String, String))
    ensures
        out.0@ == bumps_def(prepared_view(all@), bumps_name@),
        out.1@ == bumps_build(prepared_view(all@), bumps_name@),
{
    let fields = pick(
        all,
        |p: &Prepared<'a>| -> (s: Option<String>)
            ensures
                option_text(s) == bump_field(p@)
            { print_bump_field(p) },
        Ghost(|p: PreparedView| bump_field(p)),
    );
    let bounds = pick(
        all,
        |p: &Prepared<'a>| -> (s: Option<String>)
            ensures
                option_text(s) == bump_bound(p@)
            { print_bump_bound(p) },
        Ghost(|p: PreparedView| bump_bound(p)),
    );
    let defaults = pick(
        all,
        |p: &Prepared<'a>| -> (s: Option<String>)
            ensures
                option_text(s) == bump_default(p@)
            { print_bump_default(p) },
        Ghost(|p: PreparedView| bump_default(p)),
    );
    let values = pick(
        all,
        |p: &Prepared<'a>| -> (s: Option<String>)
            ensures
                option_text(s) == bump_value(p@)
            { print_bump_value(p) },
        Ghost(|p: PreparedView| bump_value(p)),
    );
    assert(texts(fields@).len() == fields@.len());
    if fields.len() > 0 {
        (
            fill4(
                BUMPS_STRUCT,
                bumps_name,
                terminate_strings(&fields, ", ").as_str(),
                terminate_strings(&bounds, ", ").as_str(),
                terminate_strings(&defaults, ", ").as_str(),
            ),
            "let __bumps = ".to_owned().concat(bumps_name).concat(" { ").concat(
                terminate_strings(&values, ", ").as_str(),
            ).concat("};"),
        )
    } else {
        (
            "pub type ".to_owned().concat(bumps_name).concat(" = ();"),
            "let __bumps = ".to_owned().concat(bumps_name).concat("::default();"),
        )
    }
}

// ---------------------------------------------------------------------------
// Numbers and masks
// ---------------------------------------------------------------------------

/// How many fields are single accounts.
pub open spec fn direct_count(all: Seq<PreparedView>) -> nat
    decreases all.len(),
{
    if all.len() == 0 {
        0
    } else if all.last().field.nested_inner is None {
        direct_count(all.drop_last()) + 1
    } else {
        direct_count(all.drop_last())
    }
}

/// The number of accounts.
pub open spec fn header_size(all: Seq<PreparedView>) -> Seq<char> {
    decimal(direct_count(all)) + "usize"@ + concat_all(picked(all, |p: PreparedView| header_term(p)))
}

/// The mask of the accounts that are written.
pub open spec fn mut_mask(all: Seq<PreparedView>) -> Seq<char> {
    let steps = picked(all, |p: PreparedView| mut_mask_step(p));
    if steps.len() == 0 {
        "[0u64; 4]"@
    } else {
        filled(MUT_MASK@, seq![terminated(steps, "\n"@)])
    }
}

/// Whether the mask depends on which accounts are there.
pub open spec fn dynamic_mut_mask(all: Seq<PreparedView>) -> Seq<char> {
    "false"@ + concat_all(picked(all, |p: PreparedView| dynamic_term(p)))
}

/// The mask of the accounts that are written and there.
pub open spec fn active_mut_mask(all: Seq<PreparedView>) -> Seq<char> {
    let steps = picked(all, |p: PreparedView| active_mask_step(p));
    if steps.len() == 0 {
        "Self::MUT_MASK"@
    } else {
        filled(ACTIVE_MUT_MASK@, seq![terminated(steps, "\n"@)])
    }
}

fn count_direct(all: &Vec<Prepared>) -> (out: usize)
    ensures
        out == direct_count(prepared_view(all@)),
        out <= all@.len(),
{
    let mut out: usize = 0;
    let ghost views = prepared_view(all@);
    for i in 0..all.len()
        invariant
            views == prepared_view(all@),
            out == direct_count(views.take(i as int)),
            out <= i,
    {
        assert(views.take(i + 1).drop_last() == views.take(i as int));
        if all[i].field.nested_inner.is_none() {
            out = out + 1;
        }
    }
    assert(views.take(all@.len() as int) == views);
    out
}

/// The number and the masks of the accounts, as text.
struct Header {
    size: String,
    mask: String,
    dynamic: String,
    active: String,
}

fn print_header<'a>(all: &Vec<Prepared<'a>>) -> (out: Header)
    ensures
        out.size@ == header_size(prepared_view(all@)),
        out.mask@ == mut_mask(prepared_view(all@)),
        out.dynamic@ == dynamic_mut_mask(prepared_view(all@)),
        out.active@ == active_mut_mask(prepared_view(all@)),
{
    let terms = pick(
        all,
        |p: &Prepared<'a>| -> (s: Option<String>)
            ensures
                option_text(s) == header_term(p@)
            { print_header_term(p) },
        Ghost(|p: PreparedView| header_term(p)),
    );
    let steps = pick(
        all,
        |p: &Prepared<'a>| -> (s: Option<String>)
            ensures
                option_text(s) == mut_mask_step(p@)
            { print_mut_mask_step(p) },
        Ghost(|p: PreparedView| mut_mask_step(p)),
    );
    let dynamic = pick(
        all,
        |p: &Prepared<'a>| -> (s: Option<String>)
            ensures
                option_text(s) == dynamic_term(p@)
            { print_dynamic_term(p) },
        Ghost(|p: PreparedView| dynamic_term(p)),
    );
    let active = pick(
        all,
        |p: &Prepared<'a>| -> (s: Option<String>)
            ensures
                option_text(s) == active_mask_step(p@)
            { print_active_mask_step(p) },
        Ghost(|p: PreparedView| active_mask_step(p)),
    );
    assert(texts(steps@).len() == steps@.len());
    assert(texts(active@).len() == active@.len());
    Header {
        size: decimal_text(count_direct(all) as u64).concat("usize").concat(
            concat_strings(&terms).as_str(),
        ),
        mask: if steps.len() == 0 {
            "[0u64; 4]".to_owned()
        } else {
            fill1(MUT_MASK, terminate_strings(&steps, "\n").as_str())
        },
        dynamic: "false".to_owned().concat(concat_strings(&dynamic).as_str()),
        active: if active.len() == 0 {
            "Self::MUT_MASK".to_owned()
        } else {
            fill1(ACTIVE_MUT_MASK, terminate_strings(&active, "\n").as_str())
        },
    }
}

// ---------------------------------------------------------------------------
// Clients
// ---------------------------------------------------------------------------

/// A field that a client must give.
pub open spec fn required_field(p: PreparedView) -> Option<Seq<char>> {
    if p.required {
        Some(client_field(p))
    } else {
        None
    }
}

/// The variable for a field that a client must give.
pub open spec fn required_binding(p: PreparedView) -> Option<Seq<char>> {
    if p.required {
        Some(required_local(p))
    } else {
        None
    }
}

/// The function that finds the address of a field.
pub open spec fn finder_text(p: PreparedView) -> Option<Seq<char>> {
    p.finder
}

/// The names of the fields.
pub open spec fn names_in(fields: Seq<AccountField>) -> Seq<Seq<char>> {
    fields.map_values(|field: AccountField| field.name.text@)
}

/// How a client gets the addresses of the fields.
pub open spec fn kinds_in(fields: Seq<AccountField>, scope: ScopeView) -> Seq<FieldKindView> {
    fields.map_values(|field: AccountField| kind_of_field(field, scope))
}

/// The statement that derives an address.
pub open spec fn derive_stmt(name: Seq<char>, kind: FieldKindView) -> Seq<char> {
    match kind {
        FieldKindView::Required => ""@,
        FieldKindView::Program(expr) => "let "@ + name + " = "@ + expr + ";"@,
        FieldKindView::Pda { seed_exprs, program_ref, .. } => filled(
            DERIVED_PDA@,
            seq![name, joined(seed_exprs, ", "@), program_ref],
        ),
    }
}

/// The statements that derive the addresses that a client need not give, in an order
/// in which what they need is known.
pub open spec fn derive_stmts(fields: Seq<AccountField>, scope: ScopeView) -> Seq<char> {
    let names = names_in(fields);
    let kinds = kinds_in(fields, scope);
    terminated(
        derivation_order(names, kinds).map_values(
            |i: usize| derive_stmt(names[i as int], kinds[i as int]),
        ),
        "\n"@,
    )
}

/// The struct of the accounts that a client must give.
pub open spec fn resolved_struct(
    all: Seq<PreparedView>,
    fields: Seq<AccountField>,
    scope: ScopeView,
    resolved_name: Seq<char>,
) -> Seq<char> {
    filled(
        RESOLVED_STRUCT@,
        seq![
            resolved_name,
            terminated(picked(all, |p: PreparedView| required_field(p)), ", "@),
            concat_all(picked(all, |p: PreparedView| required_binding(p))),
            derive_stmts(fields, scope),
            terminated(each(all, |p: PreparedView| client_meta_step(p)), "\n"@),
        ],
    )
}

/// The module with the accounts for clients.
pub open spec fn client_module(
    all: Seq<PreparedView>,
    module: Seq<char>,
    name: Seq<char>,
    resolved: Seq<char>,
) -> Seq<char> {
    filled(
        CLIENT_MODULE@,
        seq![
            module,
            name,
            terminated(each(all, |p: PreparedView| client_field(p)), ", "@),
            terminated(each(all, |p: PreparedView| full_meta_step(p)), "\n"@),
            resolved,
            terminated(picked(all, |p: PreparedView| finder_text(p)), "\n"@),
        ],
    )
}

fn print_required_field(p: &Prepared) -> (out: Option<String>)
    ensures
        option_text(out) == required_field(p@),
{
    if p.required {
        Some(print_client_field(p))
    } else {
        None
    }
}

fn print_required_binding(p: &Prepared) -> (out: Option<String>)
    ensures
        option_text(out) == required_binding(p@),
{
    if p.required {
        Some(print_required_local(p))
    } else {
        None
    }
}

fn print_finder_text(p: &Prepared) -> (out: Option<String>)
    ensures
        option_text(out) == finder_text(p@),
{
    match &p.finder {
        Some(text) => Some(text.clone()),
        None => None,
    }
}

fn print_derive_stmt(name: &str, kind: &FieldKind) -> (out: String)
    ensures
        out@ == derive_stmt(name@, kind@),
{
    match kind {
        FieldKind::Required => "".to_owned(),
        FieldKind::Program(expr) => "let ".to_owned().concat(name).concat(" = ").concat(
            expr.as_str(),
        ).concat(";"),
        FieldKind::Pda { seed_exprs, program_ref, .. } => fill3(
            DERIVED_PDA,
            name,
            join_strings(seed_exprs, ", ").as_str(),
            program_ref.as_str(),
        ),
    }
}

fn print_derive_stmts(fields: &Vec<AccountField>, scope: &Scope) -> (out: String)
    ensures
        out@ == derive_stmts(fields@, scope@),
{
    let names = map_texts(
        fields,
        |field: &AccountField| -> (s: String)
            ensures
                s@ == field.name.text@
            { field.name.text.clone() },
        Ghost(|field: AccountField| field.name.text@),
    );
    let mut kinds: Vec<FieldKind> = Vec::new();
    for i in 0..fields.len()
        invariant
            kinds@.len() == i,
            forall|k: int| 0 <= k < i ==> (#[trigger] kinds@[k])@ == kind_of_field(
                fields@[k],
                scope@,
            ),
    {
        kinds.push(classify_field(&fields[i], scope));
    }
    assert(kinds_view(kinds@) == kinds_in(fields@, scope@));
    assert(texts(names@) == names_in(fields@));
    let order = find_order(&names, &kinds);
    let ghost all_names = names_in(fields@);
    let ghost all_kinds = kinds_in(fields@, scope@);
    let mut stmts: Vec<String> = Vec::new();
    for p in 0..order.len()
        invariant
            names@.len() == kinds@.len(),
            forall|p: int| 0 <= p < order@.len() ==> (#[trigger] order@[p]) < names@.len(),
            texts(names@) == all_names,
            kinds_view(kinds@) == all_kinds,
            stmts@.len() == p,
            forall|k: int| 0 <= k < p ==> (#[trigger] stmts@[k])@ == derive_stmt(
                all_names[order@[k] as int],
                all_kinds[order@[k] as int],
            ),
    {
        let i: usize = order[p];
        assert(texts(names@)[i as int] == all_names[i as int]);
        assert(kinds_view(kinds@)[i as int] == all_kinds[i as int]);
        stmts.push(print_derive_stmt(names[i].as_str(), &kinds[i]));
    }
    assert(texts(stmts@) == order@.map_values(
        |i: usize| derive_stmt(all_names[i as int], all_kinds[i as int]),
    ));
    terminate_strings(&stmts, "\n")
}

fn print_resolved_struct<'a>(
    all: &Vec<Prepared<'a>>,
    fields: &Vec<AccountField>,
    scope: &Scope,
    resolved_name: &str,
) -> (out: String)
    ensures
        out@ == resolved_struct(prepared_view(all@), fields@, scope@, resolved_name@),
{
    let given = pick(
        all,
        |p: &Prepared<'a>| -> (s: Option<String>)
            ensures
                option_text(s) == required_field(p@)
            { print_required_field(p) },
        Ghost(|p: PreparedView| required_field(p)),
    );
    let locals = pick(
        all,
        |p: &Prepared<'a>| -> (s: Option<String>)
            ensures
                option_text(s) == required_binding(p@)
            { print_required_binding(p) },
        Ghost(|p: PreparedView| required_binding(p)),
    );
    let metas = print_each(
        all,
        |p: &Prepared<'a>| -> (s: String)
            ensures
                s@ == client_meta_step(p@)
            { print_client_meta_step(p) },
        Ghost(|p: PreparedView| client_meta_step(p)),
    );
    fill5(
        RESOLVED_STRUCT,
        resolved_name,
        terminate_strings(&given, ", ").as_str(),
        concat_strings(&locals).as_str(),
        print_derive_stmts(fields, scope).as_str(),
        terminate_strings(&metas, "\n").as_str(),
    )
}

fn print_client_module<'a>(all: &Vec<Prepared<'a>>, module: &str, name: &str, resolved: &str) -> (
out: String)
    ensures
        out@ == client_module(prepared_view(all@), module@, name@, resolved@),
{
    let fields = print_each(
        all,
        |p: &Prepared<'a>| -> (s: String)
            ensures
                s@ == client_field(p@)
            { print_client_field(p) },
        Ghost(|p: PreparedView| client_field(p)),
    );
    let metas = print_each(
        all,
        |p: &Prepared<'a>| -> (s: String)
            ensures
                s@ == full_meta_step(p@)
            { print_full_meta_step(p) },
        Ghost(|p: PreparedView| full_meta_step(p)),
    );
    let finders = pick(
        all,
        |p: &Prepared<'a>| -> (s: Option<String>)
            ensures
                option_text(s) == finder_text(p@)
            { print_finder_text(p) },
        Ghost(|p: PreparedView| finder_text(p)),
    );
    fill6(
        CLIENT_MODULE,
        module,
        name,
        terminate_strings(&fields, ", ").as_str(),
        terminate_strings(&metas, "\n").as_str(),
        resolved,
        terminate_strings(&finders, "\n").as_str(),
    )
}

// ---------------------------------------------------------------------------
// Other programs
// ---------------------------------------------------------------------------

/// The module with the accounts for other programs.
pub open spec fn cpi_module(
    all: Seq<PreparedView>,
    module: Seq<char>,
    name: Seq<char>,
    program_id: Seq<char>,
) -> Seq<char> {
    filled(
        CPI_MODULE@,
        seq![
            module,
            program_id,
            name,
            terminated(each(all, |p: PreparedView| cpi_field_decl(p)), ", "@),
            if all.len() == 0 { CPI_PHANTOM_FIELD@ } else { ""@ },
            if all.len() == 0 { filled(CPI_CONSTRUCTOR@, seq![name]) } else { ""@ },
        ],
    )
}

fn print_cpi_module<'a>(all: &Vec<Prepared<'a>>, module: &str, name: &str, program_id: &str) -> (
out: String)
    ensures
        out@ == cpi_module(prepared_view(all@), module@, name@, program_id@),
{
    let fields = print_each(
        all,
        |p: &Prepared<'a>| -> (s: String)
            ensures
                s@ == cpi_field_decl(p@)
            { print_cpi_field_decl(p) },
        Ghost(|p: PreparedView| cpi_field_decl(p)),
    );
    assert(prepared_view(all@).len() == all@.len());
    let constructor = if all.len() == 0 {
        fill1(CPI_CONSTRUCTOR, name)
    } else {
        "".to_owned()
    };
    fill6(
        CPI_MODULE,
        module,
        program_id,
        name,
        terminate_strings(&fields, ", ").as_str(),
        if all.len() == 0 { CPI_PHANTOM_FIELD } else { "" },
        constructor.as_str(),
    )
}

// ---------------------------------------------------------------------------
// Loading
// ---------------------------------------------------------------------------

/// The name of a field.
pub open spec fn name_text(p: PreparedView) -> Seq<char> {
    p.field.name.text@
}

/// The statements that load a field.
pub open spec fn load_text(p: PreparedView) -> Seq<char> {
    p.field.load@
}

/// The statements that load a field once the others are loaded.
pub open spec fn deferred_text(p: PreparedView) -> Option<Seq<char>> {
    option_text(p.field.deferred_load)
}

/// The statements that check a field.
pub open spec fn constraints_text(p: PreparedView) -> Seq<char> {
    terminated(texts(p.field.constraints@), "\n"@)
}

/// The statements that update a field.
pub open spec fn update_text(p: PreparedView) -> Option<Seq<char>> {
    option_text(p.field.update)
}

/// The statements that write a field back.
pub open spec fn exit_text(p: PreparedView) -> Option<Seq<char>> {
    option_text(p.field.exit)
}

fn print_name_text(p: &Prepared) -> (out: String)
    ensures
        out@ == name_text(p@),
{
    p.field.name.text.clone()
}

fn print_load_text(p: &Prepared) -> (out: String)
    ensures
        out@ == load_text(p@),
{
    p.field.load.clone()
}

fn print_constraints_text(p: &Prepared) -> (out: String)
    ensures
        out@ == constraints_text(p@),
{
    terminate_strings(&p.field.constraints, "\n")
}

fn print_deferred_text(p: &Prepared) -> (out: Option<String>)
    ensures
        option_text(out) == deferred_text(p@),
{
    match &p.field.deferred_load {
        Some(text) => Some(text.clone()),
        None => None,
    }
}

fn print_update_text(p: &Prepared) -> (out: Option<String>)
    ensures
        option_text(out) == update_text(p@),
{
    match &p.field.update {
        Some(text) => Some(text.clone()),
        None => None,
    }
}

fn print_exit_text(p: &Prepared) -> (out: Option<String>)
    ensures
        option_text(out) == exit_text(p@),
{
    match &p.field.exit {
        Some(text) => Some(text.clone()),
        None => None,
    }
}

/// The arguments that a struct declares, as those of an instruction.
pub open spec fn arguments_of<'a>(args: Seq<IxArg>) -> Seq<Argument<'a>> {
    args.map_values(|arg: IxArg| Argument { name: &arg.name, ty: &arg.ty })
}

/// The statements that read the arguments, their type and their values.
pub open spec fn ix_reader(args: Seq<IxArg>) -> Seq<char> {
    args_reader(arguments_of(args), "__IxArgs"@, false)
}

/// The type of the arguments.
pub open spec fn ix_assoc(args: Seq<IxArg>) -> Seq<char> {
    "type IxArgs<'ix> = ("@ + terminated(ix_types(arguments_of(args)), ", "@) + ");"@
}

/// The values of the arguments.
pub open spec fn ix_return(args: Seq<IxArg>) -> Seq<char> {
    "("@ + terminated(arg_names(arguments_of(args)), ", "@) + ")"@
}

/// The implementation that loads the accounts.
pub open spec fn try_accounts(
    all: Seq<PreparedView>,
    args: Seq<IxArg>,
    name: Seq<char>,
    bumps_name: Seq<char>,
) -> Seq<char> {
    let steps = filled(
        TRY_ACCOUNTS_STEPS@,
        seq![
            bumps_name,
            ix_reader(args),
            terminated(picked(all, |p: PreparedView| bump_local(p)), "\n"@),
            terminated(each(all, |p: PreparedView| load_text(p)), "\n"@),
            terminated(picked(all, |p: PreparedView| deferred_text(p)), "\n"@),
            concat_all(each(all, |p: PreparedView| constraints_text(p))),
            bumps_build(all, bumps_name),
            joined(each(all, |p: PreparedView| name_text(p)), ", "@),
            ix_return(args),
            terminated(picked(all, |p: PreparedView| update_text(p)), "\n"@),
            terminated(picked(all, |p: PreparedView| exit_text(p)), "\n"@),
        ],
    );
    filled(
        TRY_ACCOUNTS_HEAD@,
        seq![
            name,
            bumps_name,
            header_size(all),
            mut_mask(all),
            dynamic_mut_mask(all),
            active_mut_mask(all),
            ix_assoc(args),
            steps,
        ],
    )
}

fn print_try_accounts<'a>(
    all: &Vec<Prepared<'a>>,
    args: &Vec<IxArg>,
    name: &str,
    bumps_name: &str,
    build: &str,
) -> (out: String)
    requires
        build@ == bumps_build(prepared_view(all@), bumps_name@),
    ensures
        out@ == try_accounts(prepared_view(all@), args@, name@, bumps_name@),
{
    let mut arguments: Vec<Argument> = Vec::new();
    for i in 0..args.len()
        invariant
            arguments@ == arguments_of(args@.take(i as int)),
    {
        arguments.push(Argument { name: &args[i].name, ty: &args[i].ty });
        assert(arguments_of(args@.take(i + 1)) == arguments_of(args@.take(i as int)).push(
            Argument { name: &args@[i as int].name, ty: &args@[i as int].ty },
        ));
    }
    assert(args@.take(args@.len() as int) == args@);
    let reader = emit_args_deser(&arguments, "__IxArgs", false);
    let assoc = "type IxArgs<'ix> = (".to_owned().concat(
        terminate_strings(&reader.arg_types, ", ").as_str(),
    ).concat(");");
    let values = "(".to_owned().concat(
        terminate_strings(&names_of(&arguments), ", ").as_str(),
    ).concat(")");
    let header = print_header(all);
    let locals = pick(
        all,
        |p: &Prepared<'a>| -> (s: Option<String>)
            ensures
                option_text(s) == bump_local(p@)
            { print_bump_local(p) },
        Ghost(|p: PreparedView| bump_local(p)),
    );
    let loads = print_each(
        all,
        |p: &Prepared<'a>| -> (s: String)
            ensures
                s@ == load_text(p@)
            { print_load_text(p) },
        Ghost(|p: PreparedView| load_text(p)),
    );
    let deferred = pick(
        all,
        |p: &Prepared<'a>| -> (s: Option<String>)
            ensures
                option_text(s) == deferred_text(p@)
            { print_deferred_text(p) },
        Ghost(|p: PreparedView| deferred_text(p)),
    );
    let constraints = print_each(
        all,
        |p: &Prepared<'a>| -> (s: String)
            ensures
                s@ == constraints_text(p@)
            { print_constraints_text(p) },
        Ghost(|p: PreparedView| constraints_text(p)),
    );
    let names = print_each(
        all,
        |p: &Prepared<'a>| -> (s: String)
            ensures
                s@ == name_text(p@)
            { print_name_text(p) },
        Ghost(|p: PreparedView| name_text(p)),
    );
    let updates = pick(
        all,
        |p: &Prepared<'a>| -> (s: Option<String>)
            ensures
                option_text(s) == update_text(p@)
            { print_update_text(p) },
        Ghost(|p: PreparedView| update_text(p)),
    );
    let exits = pick(
        all,
        |p: &Prepared<'a>| -> (s: Option<String>)
            ensures
                option_text(s) == exit_text(p@)
            { print_exit_text(p) },
        Ghost(|p: PreparedView| exit_text(p)),
    );
    let steps = fill11(
        TRY_ACCOUNTS_STEPS,
        bumps_name,
        reader.deser.as_str(),
        terminate_strings(&locals, "\n").as_str(),
        terminate_strings(&loads, "\n").as_str(),
        terminate_strings(&deferred, "\n").as_str(),
        concat_strings(&constraints).as_str(),
        build,
        join_strings(&names, ", ").as_str(),
        values.as_str(),
        terminate_strings(&updates, "\n").as_str(),
        terminate_strings(&exits, "\n").as_str(),
    );
    fill8(
        TRY_ACCOUNTS_HEAD,
        name,
        bumps_name,
        header.size.as_str(),
        header.mask.as_str(),
        header.dynamic.as_str(),
        header.active.as_str(),
        assoc.as_str(),
        steps.as_str(),
    )
}

/// What the accounts say in the interface description.
pub open spec fn idl_impl(all: Seq<PreparedView>, name: Seq<char>, accounts_fn: Seq<char>) -> Seq<
    char,
> {
    filled(
        IDL_IMPL@,
        seq![name, accounts_fn, terminated(picked(all, |p: PreparedView| idl_dep(p)), "\n"@)],
    )
}

fn print_idl_impl<'a>(all: &Vec<Prepared<'a>>, name: &str, accounts_fn: &str) -> (out: String)
    ensures
        out@ == idl_impl(prepared_view(all@), name@, accounts_fn@),
{
    let deps = pick(
        all,
        |p: &Prepared<'a>| -> (s: Option<String>)
            ensures
                option_text(s) == idl_dep(p@)
            { print_idl_dep(p) },
        Ghost(|p: PreparedView| idl_dep(p)),
    );
    fill3(IDL_IMPL, name, accounts_fn, terminate_strings(&deps, "\n").as_str())
}

// ---------------------------------------------------------------------------
// The whole
// ---------------------------------------------------------------------------

/// The names that are generated beside an accounts struct, as sequences of characters.
pub struct GeneratedNames {
    pub bumps: Seq<char>,
    pub client_mod: Seq<char>,
    pub resolved: Seq<char>,
    pub cpi_mod: Seq<char>,
}

/// The code for accounts that were accepted.
pub open spec fn accounts_code(
    name: Seq<char>,
    names: GeneratedNames,
    all: Seq<PreparedView>,
    fields: Seq<AccountField>,
    args: Seq<IxArg>,
    scope: ScopeView,
    accounts_fn: Seq<char>,
) -> Seq<char> {
    client_module(
        all,
        names.client_mod,
        name,
        resolved_struct(all, fields, scope, names.resolved),
    ) + "\n"@ + cpi_module(all, names.cpi_mod, name, scope.program_id) + "\n"@ + bumps_def(
        all,
        names.bumps,
    ) + "\n"@ + try_accounts(all, args, name, names.bumps) + "\n"@ + idl_impl(
        all,
        name,
        accounts_fn,
    )
}

/// What the seeds of an accounts struct can refer to.
pub open spec fn scope_of(fields: Seq<Field>, args: Seq<IxArg>, program_id: Seq<char>) -> ScopeView {
    ScopeView {
        fields: fields.map_values(|field: Field| field_name(field)),
        args: args.map_values(|arg: IxArg| arg.name.text@),
        program_id,
    }
}

/// What the derivation is checked for before the fields are used: the shape of the
/// struct, its arguments, its accounts and its fields, in this order.
pub open spec fn accounts_refusal(input: DeriveInput, readings: AccountsReadings) -> Option<
    FailureView,
> {
    match item_name(input.ident.text@ + "Bumps"@) {
        Err(failure) => Some(failure),
        Ok(_) => match only_program_id(input.attrs@, None) {
            Err(failure) => Some(failure),
            Ok(_) => match input.data {
                Data::Struct(Fields::Named(fields)) => if fields@.len() > 255 {
                    Some(
                        diagnostic(
                            input.ident.span,
                            "`Accounts` derive supports at most 255 fields"@,
                        ),
                    )
                } else {
                    match declared_args(input.attrs@, Seq::empty()) {
                        Err(failure) => Some(failure),
                        Ok(_) => match readings.summaries {
                            Err(failure) => Some(failure@),
                            Ok(summaries) => match chain_check(summaries@, summaries@) {
                                Err(failure) => Some(failure),
                                Ok(_) => match readings.fields {
                                    Err(failure) => Some(failure@),
                                    Ok(_) => None,
                                },
                            },
                        },
                    }
                },
                Data::Struct(_) => Some(
                    diagnostic(
                        input.ident.span,
                        "`Accounts` derive only supports named fields"@,
                    ),
                ),
                _ => Some(
                    diagnostic(input.ident.span, "`Accounts` derive only supports structs"@),
                ),
            },
        },
    }
}

/// The code for an accounts struct that was accepted.
pub open spec fn accepted_accounts(input: DeriveInput, readings: AccountsReadings) -> Result<
    Seq<char>,
    FailureView,
> {
    let name = input.ident.text@;
    let fields = readings.fields->Ok_0@;
    let args = declared_args(input.attrs@, Seq::empty())->Ok_0;
    let scope = scope_of(
        input.data->Struct_0->Named_0@,
        args,
        only_program_id(input.attrs@, None)->Ok_0,
    );
    match item_name("__client_accounts_"@ + lowercase_of(name)) {
        Err(failure) => Err(failure),
        Ok(client_mod) => match item_name(name + "Resolved"@) {
            Err(failure) => Err(failure),
            Ok(resolved) => match item_name("__cpi_accounts_"@ + lowercase_of(name)) {
                Err(failure) => Err(failure),
                Ok(cpi_mod) => match all_prepared(fields, scope) {
                    Err(failure) => Err(failure),
                    Ok(all) => Ok(
                        accounts_code(
                            name,
                            GeneratedNames { bumps: name + "Bumps"@, client_mod, resolved, cpi_mod },
                            all,
                            fields,
                            args,
                            scope,
                            readings.idl_accounts_fn@,
                        ),
                    ),
                },
            },
        },
    }
}

/// Whether the nested accounts that were read are named by paths.
pub open spec fn nested_are_paths(readings: AccountsReadings) -> bool {
    readings.fields matches Ok(fields) ==> (forall|i: int|
        0 <= i < fields@.len() ==> nested_is_path(#[trigger] fields@[i]))
}

fn make_scope(fields: &Vec<Field>, args: &Vec<IxArg>, program_id: String) -> (scope: Scope)
    requires
        all_named(fields@),
    ensures
        scope@ == scope_of(fields@, args@, program_id@),
{
    let field_names = map_texts(
        fields,
        |field: &Field| -> (s: String)
            requires
                field.name is Some
            ensures
                s@ == field_name(*field)
            {
                match &field.name {
                    Some(name) => name.text.clone(),
                    None => String::new(),
                }
            },
        Ghost(|field: Field| field_name(field)),
    );
    let arg_names = map_texts(
        args,
        |arg: &IxArg| -> (s: String)
            ensures
                s@ == arg.name.text@
            { arg.name.text.clone() },
        Ghost(|arg: IxArg| arg.name.text@),
    );
    Scope { fields: field_names, args: arg_names, program_id }
}

fn generate(
    input: &DeriveInput,
    bumps: &str,
    fields: &Vec<AccountField>,
    args: &Vec<IxArg>,
    scope: &Scope,
    accounts_fn: &str,
    Ghost(readings): Ghost<AccountsReadings>,
) -> (out: Result<String, Failure>)
    requires
        bumps@ == input.ident.text@ + "Bumps"@,
        readings.fields == Ok::<Vec<AccountField>, Failure>(*fields),
        declared_args(input.attrs@, Seq::empty()) == Ok::<Seq<IxArg>, FailureView>(args@),
        readings.idl_accounts_fn@ == accounts_fn@,
        nested_are_paths(readings),
        scope@ == scope_of(
            input.data->Struct_0->Named_0@,
            args@,
            only_program_id(input.attrs@, None)->Ok_0,
        ),
    ensures
        code_view(out) == accepted_accounts(*input, readings),
{
    let name = input.ident.text.as_str();
    let lower = lowercase(name);
    let client_mod = match new_ident("__client_accounts_".to_owned().concat(lower.as_str())) {
        Ok(client_mod) => client_mod,
        Err(failure) => return Err(failure),
    };
    let resolved = match new_ident(name.to_owned().concat("Resolved")) {
        Ok(resolved) => resolved,
        Err(failure) => return Err(failure),
    };
    let cpi_mod = match new_ident("__cpi_accounts_".to_owned().concat(lower.as_str())) {
        Ok(cpi_mod) => cpi_mod,
        Err(failure) => return Err(failure),
    };
    let all = match prepare(fields, scope) {
        Ok(all) => all,
        Err(failure) => return Err(failure),
    };
    let resolved_text = print_resolved_struct(&all, fields, scope, resolved.as_str());
    let (def, build) = print_bumps(&all, bumps);
    Ok(
        print_client_module(&all, client_mod.as_str(), name, resolved_text.as_str()).concat(
            "\n",
        ).concat(
            print_cpi_module(
                &all,
                cpi_mod.as_str(),
                name,
                scope.program_id.as_str(),
            ).as_str(),
        ).concat("\n").concat(def.as_str()).concat("\n").concat(
            print_try_accounts(&all, args, name, bumps, build.as_str()).as_str(),
        ).concat("\n").concat(print_idl_impl(&all, name, accounts_fn).as_str()),
    )
}

/// Derives `Accounts`.
pub fn impl_accounts(input: &DeriveInput, readings: AccountsReadings) -> (out: Result<
    String,
    Failure,
>)
    requires
        well_named(input.data),
        nested_are_paths(readings),
    ensures
        code_view(out) == (match accounts_refusal(*input, readings) {
            Some(failure) => Err(failure),
            None => accepted_accounts(*input, readings),
        }),
{
    let ghost all_readings = readings;
    let bumps = match new_ident(input.ident.text.clone().concat("Bumps")) {
        Ok(bumps) => bumps,
        Err(failure) => return Err(failure),
    };
    let program_id = match parse_accounts_program_id_attr(&input.attrs) {
        Ok(program_id) => program_id,
        Err(failure) => return Err(failure),
    };
    let named = match &input.data {
        Data::Struct(Fields::Named(named)) => named,
        Data::Struct(_) => {
            return Err(
                new_diagnostic(
                    input.ident.span,
                    "`Accounts` derive only supports named fields".to_owned(),
                ),
            );
        },
        _ => {
            return Err(
                new_diagnostic(
                    input.ident.span,
                    "`Accounts` derive only supports structs".to_owned(),
                ),
            );
        },
    };
    if named.len() > 255 {
        return Err(
            new_diagnostic(
                input.ident.span,
                "`Accounts` derive supports at most 255 fields".to_owned(),
            ),
        );
    }
    let args = match parse_instruction_attrs(&input.attrs) {
        Ok(args) => args,
        Err(failure) => return Err(failure),
    };
    let summaries = match readings.summaries {
        Ok(summaries) => summaries,
        Err(failure) => return Err(failure),
    };
    if let Err(failure) = check_close_chains(&summaries) {
        return Err(failure);
    }
    let fields = match readings.fields {
        Ok(fields) => fields,
        Err(failure) => return Err(failure),
    };
    let scope = make_scope(named, &args, program_id);
    generate(
        input,
        bumps.as_str(),
        &fields,
        &args,
        &scope,
        readings.idl_accounts_fn.as_str(),
        Ghost(all_readings),
    )
}

// ---------------------------------------------------------------------------
// Laws
// ---------------------------------------------------------------------------

/// Whether a field relates a name to a target: it says so of the target, or it is the
/// target and its address is taken from the name.
pub open spec fn relates(field: AccountField, target: Seq<char>, name: Seq<char>) -> bool {
    ||| field.name.text@ == name && texts(field.idl_has_one@).contains(target)
    ||| field.name.text@ == target && (field.idl_address_v1_source matches Some(sibling)
        && sibling@ == name)
}

proof fn lemma_per_mention(list: Seq<String>, target: Seq<char>, name: Seq<char>, found: Seq<char>)
    ensures
        per_mention(list, target, name).contains(found) <==> (found == name && texts(
            list,
        ).contains(target)),
    decreases list.len(),
{
    if list.len() > 0 {
        lemma_per_mention(list.drop_last(), target, name, found);
        let before = per_mention(list.drop_last(), target, name);
        let out = per_mention(list, target, name);
        if texts(list).contains(target) {
            let i = choose|i: int| 0 <= i < list.len() && texts(list)[i] == target;
            if i < list.len() - 1 {
                assert(texts(list.drop_last())[i] == target);
            }
        }
        if texts(list.drop_last()).contains(target) {
            let i = choose|i: int|
                0 <= i < list.drop_last().len() && texts(list.drop_last())[i] == target;
            assert(texts(list)[i] == target);
        }
        if list.last()@ == target {
            assert(texts(list)[list.len() - 1] == target);
            lemma_push_contains(before, name, found);
        }
    }
}

proof fn lemma_push_contains(list: Seq<Seq<char>>, last: Seq<char>, found: Seq<char>)
    ensures
        list.push(last).contains(found) <==> list.contains(found) || found == last,
{
    let out = list.push(last);
    if list.contains(found) {
        let i = choose|i: int| 0 <= i < list.len() && list[i] == found;
        assert(out[i] == found);
    }
    assert(out[list.len() as int] == last);
}

/// A target is related to exactly those names that some field relates it to.
pub proof fn lemma_relations(fields: Seq<AccountField>, target: Seq<char>, name: Seq<char>)
    ensures
        relations(fields, target).contains(name) <==> exists|i: int|
            0 <= i < fields.len() && relates(#[trigger] fields[i], target, name),
    decreases fields.len(),
{
    if fields.len() > 0 {
        let rest = fields.drop_last();
        let field = fields.last();
        lemma_relations(rest, target, name);
        let mentions = per_mention(field.idl_has_one@, target, field.name.text@);
        lemma_per_mention(field.idl_has_one@, target, field.name.text@, name);
        let head = relations(rest, target);
        let before = head + mentions;
        assert(before.contains(name) <==> head.contains(name) || mentions.contains(name)) by {
            if head.contains(name) {
                let i = choose|i: int| 0 <= i < head.len() && head[i] == name;
                assert(before[i] == name);
            }
            if mentions.contains(name) {
                let i = choose|i: int| 0 <= i < mentions.len() && mentions[i] == name;
                assert(before[head.len() + i] == name);
            }
        }
        match field.idl_address_v1_source {
            Some(sibling) => {
                lemma_push_contains(before, sibling@, name);
            },
            None => {},
        }
        if exists|i: int| 0 <= i < rest.len() && relates(#[trigger] rest[i], target, name) {
            let i = choose|i: int| 0 <= i < rest.len() && relates(#[trigger] rest[i], target, name);
            assert(fields[i] == rest[i]);
        }
        if exists|i: int| 0 <= i < fields.len() && relates(#[trigger] fields[i], target, name) {
            let i = choose|i: int|
                0 <= i < fields.len() && relates(#[trigger] fields[i], target, name);
            if i < rest.len() {
                assert(rest[i] == fields[i]);
            }
        }
        assert(fields[fields.len() - 1] == field);
    }
}

} // verus!
