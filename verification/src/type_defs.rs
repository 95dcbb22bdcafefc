//! Definitions of types in an interface description, as Rust items.

use crate::declared_constants::{docs_text, gen_declare_program_docs};
use crate::declared_types::{declare_idl_type_to_tokens, idl_type};
use crate::discriminator::bytes_view;
use crate::failure::{
    at_call_site, call_site, code_view, collected, diagnostic, lemma_collected_prefix,
    lemma_stepped_prefix, list_view, new_diagnostic, stepped, Failure, FailureView, Span,
};
use crate::handler::{byte_literals, print_byte_literals};
use crate::json::{
    array_at, elements, items_of, json_str, json_text, member_of, number_of, required_text, text_at,
    Json,
};
use crate::names::{item_name, new_ident, to_type_name, type_case};
use crate::outside::{literal_of, string_literal};
use crate::template::{fill4, fill6, fill7, fill8, fill9, filled};
use crate::text::{
    concat_all, concat_strings, decimal, decimal_text, is_less, join_strings, joined,
    lemma_text_less_total, lemma_text_less_transitive, map_texts, option_text, same_text,
    terminate_strings, terminated, text_less, texts,
};
use crate::type_parts::{
    declare_type_serialization, fields_result, gen_declare_program_repr,
    gen_declare_program_type_fields, gen_declare_program_type_generics, generics_of, repr_attr,
    serialization_of, type_fields, DeclareTypeFields, DeclareTypeGenerics, DeclareTypeSerialization,
    FieldReading, FieldsView, GenericsView,
};
use vstd::prelude::*;

verus! {

// ---------------------------------------------------------------------------
// Templates
// ---------------------------------------------------------------------------

/// How an account type names its program and its discriminator.
pub const DISCRIMINATOR_IMPLS: &'static str = r#"impl @a anchor_lang::Owner for @b @c {
    const OWNER: anchor_lang::Address = ID;
}

impl @a anchor_lang::Discriminator for @b @c {
    const DISCRIMINATOR: &'static [u8] = &[@d];
}"#;

/// A struct whose bytes are its value.
pub const POD_STRUCT: &'static str = r#"@a
#[derive(Clone, Copy)]
@b
pub struct @c @d@e
@f
@g
@h
@i"#;

/// A struct that is serialised.
pub const STRUCT: &'static str = r#"@a
@b
#[derive(Clone, anchor_lang::AnchorDeserialize, anchor_lang::AnchorSerialize)]
pub struct @c @d@e
@f
@g
@h"#;

/// An enum.
pub const ENUM: &'static str = r#"@a
@b
#[derive(Clone, anchor_lang::AnchorDeserialize, anchor_lang::AnchorSerialize)]
pub enum @c @d {
    @e
}
@f
@g"#;

/// A type alias.
pub const ALIAS: &'static str = r#"@a
pub type @b @c = @d;"#;

/// How a type describes itself.
pub const IDL_IMPL: &'static str = r#"#[doc(hidden)]
impl @a anchor_lang::IdlAccountType for @b @c @d {
    const __IDL_ACCOUNT_ENTRY: Option<&'static str> = @e;
    const __IDL_TYPE_DEF: Option<&'static str> = Some(@f);

    fn __register_idl_deps(
        accounts: &mut anchor_lang::__alloc::vec::Vec<&'static str>,
        types: &mut anchor_lang::__alloc::vec::Vec<&'static str>,
    ) {
        if let Some(a) = <Self as anchor_lang::IdlAccountType>::__IDL_ACCOUNT_ENTRY {
            accounts.push(a);
        }
        if let Some(t) = <Self as anchor_lang::IdlAccountType>::__IDL_TYPE_DEF {
            types.push(t);
        }
        @g
    }
}"#;

/// Reads an account after its discriminator was compared.
pub const TRY_DESERIALIZE: &'static str = r#"fn try_deserialize(
    buf: &mut &[u8],
) -> ::core::result::Result<Self, anchor_lang::Error> {
    use anchor_lang::Discriminator as _;
    if buf.len() < <Self as anchor_lang::Discriminator>::DISCRIMINATOR.len() {
        return Err(anchor_lang::Error::AccountDataTooSmall);
    }
    let given_disc = &buf[..<Self as anchor_lang::Discriminator>::DISCRIMINATOR.len()];
    if given_disc != <Self as anchor_lang::Discriminator>::DISCRIMINATOR {
        return Err(anchor_lang::Error::InvalidAccountData);
    }
    Self::try_deserialize_unchecked(buf)
}"#;

/// Reads a serialised account.
pub const BORSH_DESERIALIZE: &'static str = r#"impl @a anchor_lang::AccountDeserialize for @b @c
where
    for<'__de> Self:
        anchor_lang::wincode::SchemaRead<'__de, anchor_lang::BorshConfig, Dst = Self>,
{
    @d

    fn try_deserialize_unchecked(
        buf: &mut &[u8],
    ) -> ::core::result::Result<Self, anchor_lang::Error> {
        use anchor_lang::Discriminator as _;
        let disc_len = <Self as anchor_lang::Discriminator>::DISCRIMINATOR.len();
        if buf.len() < disc_len {
            return Err(anchor_lang::Error::AccountDataTooSmall);
        }
        let original = *buf;
        let mut data = &original[disc_len..];
        let value = <Self as anchor_lang::wincode::SchemaRead<
            '_,
            anchor_lang::BorshConfig,
        >>::get(&mut data)
            .map_err(|_| anchor_lang::Error::InvalidAccountData)?;
        *buf = data;
        Ok(value)
    }
}"#;

/// Reads an account whose bytes are its value.
pub const POD_DESERIALIZE: &'static str = r#"impl @a anchor_lang::AccountDeserialize for @b @c
where
    Self: anchor_lang::bytemuck::Pod,
{
    @d

    fn try_deserialize_unchecked(
        buf: &mut &[u8],
    ) -> ::core::result::Result<Self, anchor_lang::Error> {
        use anchor_lang::Discriminator as _;
        let disc_len = <Self as anchor_lang::Discriminator>::DISCRIMINATOR.len();
        if buf.len() < disc_len {
            return Err(anchor_lang::Error::AccountDataTooSmall);
        }
        let original = *buf;
        let data = &original[disc_len..];
        let size = ::core::mem::size_of::<Self>();
        if data.len() < size {
            return Err(anchor_lang::Error::AccountDataTooSmall);
        }
        let value = anchor_lang::bytemuck::pod_read_unaligned(&data[..size]);
        *buf = &data[size..];
        Ok(value)
    }
}"#;

/// That a type holds no padding and may be read from any bytes.
pub const POD_IMPLS: &'static str = r#"impl @a @b @c @d {
    const __ANCHOR_DECLARE_PROGRAM_POD_ASSERT: fn() = || {
        fn assert_pod<T: anchor_lang::bytemuck::Pod>() {}
        @e
    };
    const __ANCHOR_DECLARE_PROGRAM_NO_PADDING: () = assert!(
        core::mem::size_of::<Self>() == 0 @f,
        "declared bytemuck type has padding bytes"
    );
}
unsafe impl @a anchor_lang::bytemuck::Pod for @b @c @d {}
unsafe impl @a anchor_lang::bytemuck::Zeroable for @b @c @d {}"#;


// ---------------------------------------------------------------------------
// What the definitions of structs, enums and aliases share
// ---------------------------------------------------------------------------

/// The last entry of a list with the given name.
pub open spec fn entry_named(items: Seq<Json>, name: Seq<char>) -> Option<Json>
    decreases items.len(),
{
    if items.len() == 0 {
        None
    } else if text_at(items.last(), "name"@) == Some(name) {
        Some(items.last())
    } else {
        entry_named(items.drop_last(), name)
    }
}

/// Finds the last entry of a list with the given name.
pub fn find_entry<'a>(items: &'a Vec<Json>, name: &str) -> (found: Option<&'a Json>)
    ensures
        match found {
            Some(entry) => entry_named(items@, name@) == Some(*entry),
            None => entry_named(items@, name@) is None,
        },
{
    let mut n: usize = items.len();
    assert(items@.take(n as int) == items@);
    while n > 0
        invariant
            n <= items@.len(),
            entry_named(items@, name@) == entry_named(items@.take(n as int), name@),
        decreases n,
    {
        assert(items@.take(n as int).drop_last() == items@.take(n - 1));
        if let Some(text) = items[n - 1].text_at("name") {
            if same_text(text, name) {
                return Some(&items[n - 1]);
            }
        }
        n = n - 1;
    }
    None
}

/// A byte of the discriminator of an account.
pub open spec fn account_byte(value: Json, name: Seq<char>, span: Span) -> Result<
    u8,
    FailureView,
> {
    match number_of(value) {
        None => Err(
            diagnostic(
                span,
                "account `"@ + name + "` discriminator entries must be integers"@,
            ),
        ),
        Some(n) => if n > 255 {
            Err(
                diagnostic(
                    span,
                    "account `"@ + name + "` discriminator entry `"@ + decimal(n as nat)
                        + "` exceeds u8"@,
                ),
            )
        } else {
            Ok(n as u8)
        },
    }
}

/// The discriminator of an account.
pub open spec fn account_bytes(values: Seq<Json>, name: Seq<char>, span: Span) -> Result<
    Seq<u8>,
    FailureView,
> {
    collected(values.map_values(|value: Json| account_byte(value, name, span)))
}

fn read_account_bytes(values: &Vec<Json>, name: &str, span: Span) -> (out: Result<
    Vec<u8>,
    Failure,
>)
    ensures
        bytes_view(out) == account_bytes(values@, name@, span),
{
    let ghost results = values@.map_values(|value: Json| account_byte(value, name@, span));
    let mut bytes: Vec<u8> = Vec::new();
    for i in 0..values.len()
        invariant
            results == values@.map_values(|value: Json| account_byte(value, name@, span)),
            collected(results.take(i as int)) == Ok::<Seq<u8>, FailureView>(bytes@),
    {
        assert(results.take(i + 1).drop_last() == results.take(i as int));
        proof {
            if collected(results.take(i + 1)) is Err {
                lemma_collected_prefix(results, i + 1);
            }
        }
        match values[i].as_u64() {
            None => {
                return Err(
                    new_diagnostic(
                        span,
                        "account `".to_owned().concat(name).concat(
                            "` discriminator entries must be integers",
                        ),
                    ),
                );
            },
            Some(n) => {
                if n > 255 {
                    return Err(
                        new_diagnostic(
                            span,
                            "account `".to_owned().concat(name).concat(
                                "` discriminator entry `",
                            ).concat(decimal_text(n).as_str()).concat("` exceeds u8"),
                        ),
                    );
                }
                bytes.push(n as u8);
            },
        }
    }
    assert(results.take(values@.len() as int) == results);
    Ok(bytes)
}

/// The discriminator that an entry holds.
pub open spec fn entry_discriminator(entry: Option<Json>) -> Option<Seq<Json>> {
    match entry {
        Some(entry) => array_at(entry, "discriminator"@),
        None => None,
    }
}

/// The owner and the discriminator of an account; nothing for other types.
pub open spec fn discriminator_impls(
    ident: Seq<char>,
    name: Seq<char>,
    generics: GenericsView,
    entry: Option<Json>,
    span: Span,
) -> Result<Seq<char>, FailureView> {
    match entry_discriminator(entry) {
        None => Ok(""@),
        Some(values) => match account_bytes(values, name, span) {
            Err(failure) => Err(failure),
            Ok(bytes) => Ok(
                filled(
                    DISCRIMINATOR_IMPLS@,
                    seq![
                        generics.impl_generics,
                        ident,
                        generics.ty_generics,
                        byte_literals(bytes),
                    ],
                ),
            ),
        },
    }
}

fn print_discriminator_impls(
    ident: &str,
    name: &str,
    generics: &DeclareTypeGenerics,
    entry: Option<&Json>,
    span: Span,
) -> (out: Result<String, Failure>)
    ensures
        code_view(out) == discriminator_impls(
            ident@,
            name@,
            generics@,
            (match entry {
                Some(entry) => Some(*entry),
                None => None,
            }),
            span,
        ),
{
    let values = match entry {
        Some(entry) => match entry.array_at("discriminator") {
            Some(values) => values,
            None => return Ok("".to_owned()),
        },
        None => return Ok("".to_owned()),
    };
    match read_account_bytes(values, name, span) {
        Err(failure) => Err(failure),
        Ok(bytes) => Ok(
            fill4(
                DISCRIMINATOR_IMPLS,
                generics.impl_generics.as_str(),
                ident,
                generics.ty_generics.as_str(),
                print_byte_literals(&bytes).as_str(),
            ),
        ),
    }
}

/// What is known of a type before its body is read.
pub struct TypeHead<'a> {
    pub name: &'a str,
    pub ident: String,
    pub docs: String,
    pub repr: Option<String>,
    pub serialization: DeclareTypeSerialization,
    pub generics: DeclareTypeGenerics,
    pub impls: String,
    pub entry: Option<&'a Json>,
}

/// What is known of a type before its body is read, as sequences of characters.
pub struct HeadView {
    pub name: Seq<char>,
    pub ident: Seq<char>,
    pub docs: Seq<char>,
    pub repr: Option<Seq<char>>,
    pub serialization: DeclareTypeSerialization,
    pub generics: GenericsView,
    pub impls: Seq<char>,
    pub entry: Option<Json>,
}

impl<'a> View for TypeHead<'a> {
    type V = HeadView;

    open spec fn view(&self) -> HeadView {
        HeadView {
            name: self.name@,
            ident: self.ident@,
            docs: self.docs@,
            repr: option_text(self.repr),
            serialization: self.serialization,
            generics: self.generics@,
            impls: self.impls@,
            entry: match self.entry {
                Some(entry) => Some(*entry),
                None => None,
            },
        }
    }
}

/// What is known of a type before its body is read.
pub open spec fn type_head(ty_def: Json, accounts: Seq<Json>) -> Result<HeadView, FailureView> {
    match required_text(ty_def, "name"@, call_site()) {
        Err(failure) => Err(failure),
        Ok(name) => match item_name(type_case(name)) {
            Err(failure) => Err(failure),
            Ok(ident) => match repr_attr(ty_def, call_site()) {
                Err(failure) => Err(failure),
                Ok(repr) => match serialization_of(ty_def, call_site()) {
                    Err(failure) => Err(failure),
                    Ok(serialization) => match generics_of(ty_def, call_site()) {
                        Err(failure) => Err(failure),
                        Ok(generics) => {
                            let entry = entry_named(accounts, name);
                            match discriminator_impls(ident, name, generics, entry, call_site()) {
                                Err(failure) => Err(failure),
                                Ok(impls) => Ok(
                                    HeadView {
                                        name,
                                        ident,
                                        docs: docs_text(ty_def),
                                        repr,
                                        serialization,
                                        generics,
                                        impls,
                                        entry,
                                    },
                                ),
                            }
                        },
                    },
                },
            },
        },
    }
}

/// What is known of a type or the failure, as sequences of characters.
pub open spec fn head_view<'a>(result: Result<TypeHead<'a>, Failure>) -> Result<
    HeadView,
    FailureView,
> {
    match result {
        Ok(head) => Ok(head@),
        Err(failure) => Err(failure@),
    }
}

fn read_type_head<'a>(ty_def: &'a Json, accounts: &'a Vec<Json>) -> (out: Result<
    TypeHead<'a>,
    Failure,
>)
    ensures
        head_view(out) == type_head(*ty_def, accounts@),
{
    let span = at_call_site();
    let name = match json_str(ty_def, "name", span) {
        Err(failure) => return Err(failure),
        Ok(name) => name,
    };
    let ident = match new_ident(to_type_name(name)) {
        Err(failure) => return Err(failure),
        Ok(ident) => ident,
    };
    let docs = gen_declare_program_docs(ty_def);
    let repr = match gen_declare_program_repr(ty_def, span) {
        Err(failure) => return Err(failure),
        Ok(repr) => repr,
    };
    let serialization = match declare_type_serialization(ty_def, span) {
        Err(failure) => return Err(failure),
        Ok(serialization) => serialization,
    };
    let generics = match gen_declare_program_type_generics(ty_def, span) {
        Err(failure) => return Err(failure),
        Ok(generics) => generics,
    };
    let entry = find_entry(accounts, name);
    let impls = match print_discriminator_impls(ident.as_str(), name, &generics, entry, span) {
        Err(failure) => return Err(failure),
        Ok(impls) => impls,
    };
    Ok(TypeHead { name, ident, docs, repr, serialization, generics, impls, entry })
}

/// The layout of a type, if it has one.
pub open spec fn plain_repr(repr: Option<Seq<char>>) -> Seq<char> {
    match repr {
        Some(text) => text,
        None => ""@,
    }
}

/// The layout of a type whose bytes are its value.
pub open spec fn pod_repr(repr: Option<Seq<char>>) -> Seq<char> {
    match repr {
        Some(text) => text,
        None => "#[repr(C)]"@,
    }
}

/// The entry of an account, as an expression.
pub open spec fn entry_text(entry: Option<Json>) -> Seq<char> {
    match entry {
        Some(entry) => "Some("@ + literal_of(json_text(entry)) + ")"@,
        None => "None"@,
    }
}

/// The call that registers what a type depends on.
pub open spec fn registration(ty: Seq<char>) -> Seq<char> {
    "<"@ + ty + " as anchor_lang::IdlAccountType>::__register_idl_deps(accounts, types);"@
}

/// How a type describes itself.
pub open spec fn idl_impl(head: HeadView, ty_def: Json, tys: Seq<Seq<char>>) -> Seq<char> {
    filled(
        IDL_IMPL@,
        seq![
            head.generics.impl_generics,
            head.ident,
            head.generics.ty_generics,
            head.generics.idl_where_clause,
            entry_text(head.entry),
            literal_of(json_text(ty_def)),
            terminated(tys.map_values(|ty: Seq<char>| registration(ty)), "\n"@),
        ],
    )
}

/// Writes how a type describes itself.
pub fn gen_declare_program_idl_account_type_impl(
    head: &TypeHead,
    ty_def: &Json,
    field_tys: &Vec<String>,
) -> (out: String)
    ensures
        out@ == idl_impl(head@, *ty_def, texts(field_tys@)),
{
    let entry = match head.entry {
        Some(entry) => "Some(".to_owned().concat(
            string_literal(entry.to_text().as_str()).as_str(),
        ).concat(")"),
        None => "None".to_owned(),
    };
    let calls = map_texts(
        field_tys,
        |ty: &String| -> (s: String)
            ensures
                s@ == registration(ty@)
            {
                "<".to_owned().concat(ty.as_str()).concat(
                    " as anchor_lang::IdlAccountType>::__register_idl_deps(accounts, types);",
                )
            },
        Ghost(|ty: String| registration(ty@)),
    );
    assert(texts(calls@) =~= texts(field_tys@).map_values(|ty: Seq<char>| registration(ty)));
    fill7(
        IDL_IMPL,
        head.generics.impl_generics.as_str(),
        head.ident.as_str(),
        head.generics.ty_generics.as_str(),
        head.generics.idl_where_clause.as_str(),
        entry.as_str(),
        string_literal(ty_def.to_text().as_str()).as_str(),
        terminate_strings(&calls, "\n").as_str(),
    )
}

/// How an account is read.
pub open spec fn deserialize_impl(head: HeadView) -> Seq<char> {
    filled(
        if head.serialization is Borsh {
            BORSH_DESERIALIZE@
        } else {
            POD_DESERIALIZE@
        },
        seq![
            head.generics.impl_generics,
            head.ident,
            head.generics.ty_generics,
            TRY_DESERIALIZE@,
        ],
    )
}

/// Writes how an account is read.
pub fn gen_declare_program_account_deserialize_impl(head: &TypeHead) -> (out: String)
    ensures
        out@ == deserialize_impl(head@),
{
    let template = if head.serialization.is_bytemuck() {
        POD_DESERIALIZE
    } else {
        BORSH_DESERIALIZE
    };
    fill4(
        template,
        head.generics.impl_generics.as_str(),
        head.ident.as_str(),
        head.generics.ty_generics.as_str(),
        TRY_DESERIALIZE,
    )
}

/// What a field must satisfy for the bytes of its type to be the value.
pub open spec fn pod_bound(ty: Seq<char>) -> Seq<char> {
    ty + ": anchor_lang::bytemuck::Pod + anchor_lang::bytemuck::Zeroable"@
}

/// The check that a field has any bytes as its value.
pub open spec fn pod_assert(ty: Seq<char>) -> Seq<char> {
    "assert_pod::<"@ + ty + ">();"@
}

/// The size of a field as a summand.
pub open spec fn size_term(ty: Seq<char>) -> Seq<char> {
    " + core::mem::size_of::<"@ + ty + ">()"@
}

/// What a type must satisfy for its bytes to be its value: what its parameters must,
/// and what its fields must.
pub open spec fn pod_where(generic: Seq<char>, tys: Seq<Seq<char>>) -> Seq<char> {
    let bounds = joined(tys.map_values(|ty: Seq<char>| pod_bound(ty)), ", "@);
    if tys.len() == 0 {
        generic
    } else if generic.len() == 0 {
        "where "@ + bounds
    } else {
        generic + ", "@ + bounds
    }
}

/// That a type holds no padding and may be read from any bytes.
pub open spec fn pod_impls(head: HeadView, tys: Seq<Seq<char>>) -> Seq<char> {
    filled(
        POD_IMPLS@,
        seq![
            head.generics.impl_generics,
            head.ident,
            head.generics.ty_generics,
            pod_where(head.generics.pod_where_clause, tys),
            concat_all(tys.map_values(|ty: Seq<char>| pod_assert(ty))),
            concat_all(tys.map_values(|ty: Seq<char>| size_term(ty))),
        ],
    )
}

/// Writes that a type holds no padding and may be read from any bytes.
pub fn gen_declare_program_pod_impls(head: &TypeHead, fields: &DeclareTypeFields) -> (out: String)
    ensures
        out@ == pod_impls(head@, fields@.tys()),
{
    let tys = fields.tys();
    let bounds = map_texts(
        &tys,
        |ty: &String| -> (s: String)
            ensures
                s@ == pod_bound(ty@)
            {
                ty.clone().concat(
                    ": anchor_lang::bytemuck::Pod + anchor_lang::bytemuck::Zeroable",
                )
            },
        Ghost(|ty: String| pod_bound(ty@)),
    );
    assert(texts(bounds@) =~= texts(tys@).map_values(|ty: Seq<char>| pod_bound(ty)));
    let asserts = map_texts(
        &tys,
        |ty: &String| -> (s: String)
            ensures
                s@ == pod_assert(ty@)
            { "assert_pod::<".to_owned().concat(ty.as_str()).concat(">();") },
        Ghost(|ty: String| pod_assert(ty@)),
    );
    assert(texts(asserts@) =~= texts(tys@).map_values(|ty: Seq<char>| pod_assert(ty)));
    let sizes = map_texts(
        &tys,
        |ty: &String| -> (s: String)
            ensures
                s@ == size_term(ty@)
            { " + core::mem::size_of::<".to_owned().concat(ty.as_str()).concat(">()") },
        Ghost(|ty: String| size_term(ty@)),
    );
    assert(texts(sizes@) =~= texts(tys@).map_values(|ty: Seq<char>| size_term(ty)));
    let generic = &head.generics.pod_where_clause;
    let bounds_text = join_strings(&bounds, ", ");
    let generic_len: usize = generic.as_str().unicode_len();
    let where_clause = if tys.len() == 0 {
        generic.clone()
    } else if generic_len == 0 {
        "where ".to_owned().concat(bounds_text.as_str())
    } else {
        generic.clone().concat(", ").concat(bounds_text.as_str())
    };
    fill6(
        POD_IMPLS,
        head.generics.impl_generics.as_str(),
        head.ident.as_str(),
        head.generics.ty_generics.as_str(),
        where_clause.as_str(),
        concat_strings(&asserts).as_str(),
        concat_strings(&sizes).as_str(),
    )
}

// ---------------------------------------------------------------------------
// Structs
// ---------------------------------------------------------------------------

/// The body of a struct.
pub open spec fn struct_body(fields: FieldsView) -> Seq<char> {
    match fields {
        FieldsView::Named { fields, .. } => "{\n"@ + terminated(fields, "\n"@) + "}"@,
        FieldsView::Tuple { fields, .. } => "("@ + joined(fields, ", "@) + ");"@,
        FieldsView::Unit => ";"@,
    }
}

fn print_struct_body(fields: &DeclareTypeFields) -> (out: String)
    ensures
        out@ == struct_body(fields@),
{
    match fields {
        DeclareTypeFields::Named { fields, .. } => "{\n".to_owned().concat(
            terminate_strings(fields, "\n").as_str(),
        ).concat("}"),
        DeclareTypeFields::Tuple { fields, .. } => "(".to_owned().concat(
            join_strings(fields, ", ").as_str(),
        ).concat(");"),
        DeclareTypeFields::Unit => ";".to_owned(),
    }
}

/// The fields of a struct: none where no list is given.
pub open spec fn struct_fields(name: Seq<char>, body: Json, reading: FieldReading) -> Result<
    FieldsView,
    FailureView,
> {
    match member_of(body, "fields"@) {
        None => Ok(FieldsView::Unit),
        Some(list) => match items_of(list) {
            None => Err(
                diagnostic(
                    call_site(),
                    "struct type `"@ + name + "` fields must be an array"@,
                ),
            ),
            Some(_) => type_fields(reading, call_site(), true),
        },
    }
}

/// A struct as items.
pub open spec fn struct_items(head: HeadView, ty_def: Json, fields: FieldsView) -> Seq<char> {
    let read = if head.entry is Some {
        deserialize_impl(head)
    } else {
        ""@
    };
    let described = idl_impl(head, ty_def, fields.tys());
    if head.serialization is Borsh {
        filled(
            STRUCT@,
            seq![
                head.docs,
                plain_repr(head.repr),
                head.ident,
                head.generics.impl_generics,
                struct_body(fields),
                head.impls,
                read,
                described,
            ],
        )
    } else {
        filled(
            POD_STRUCT@,
            seq![
                head.docs,
                pod_repr(head.repr),
                head.ident,
                head.generics.impl_generics,
                struct_body(fields),
                pod_impls(head, fields.tys()),
                head.impls,
                read,
                described,
            ],
        )
    }
}

fn read_struct_fields(name: &str, body: &Json, reading: &FieldReading) -> (out: Result<
    DeclareTypeFields,
    Failure,
>)
    ensures
        fields_result(out) == struct_fields(name@, *body, *reading),
{
    match body.get("fields") {
        None => Ok(DeclareTypeFields::Unit),
        Some(list) => match list.as_array() {
            None => Err(
                new_diagnostic(
                    at_call_site(),
                    "struct type `".to_owned().concat(name).concat("` fields must be an array"),
                ),
            ),
            Some(_) => gen_declare_program_type_fields(reading, at_call_site(), true),
        },
    }
}

fn print_struct(head: &TypeHead, ty_def: &Json, fields: &DeclareTypeFields) -> (out: String)
    ensures
        out@ == struct_items(head@, *ty_def, fields@),
{
    let described = gen_declare_program_idl_account_type_impl(head, ty_def, &fields.tys());
    let read = match head.entry {
        Some(_) => gen_declare_program_account_deserialize_impl(head),
        None => "".to_owned(),
    };
    let body = print_struct_body(fields);
    if head.serialization.is_bytemuck() {
        let repr = match &head.repr {
            Some(text) => text.clone(),
            None => "#[repr(C)]".to_owned(),
        };
        fill9(
            POD_STRUCT,
            head.docs.as_str(),
            repr.as_str(),
            head.ident.as_str(),
            head.generics.impl_generics.as_str(),
            body.as_str(),
            gen_declare_program_pod_impls(head, fields).as_str(),
            head.impls.as_str(),
            read.as_str(),
            described.as_str(),
        )
    } else {
        let repr = print_plain_repr(&head.repr);
        fill8(
            STRUCT,
            head.docs.as_str(),
            repr.as_str(),
            head.ident.as_str(),
            head.generics.impl_generics.as_str(),
            body.as_str(),
            head.impls.as_str(),
            read.as_str(),
            described.as_str(),
        )
    }
}

fn print_plain_repr(repr: &Option<String>) -> (out: String)
    ensures
        out@ == plain_repr(option_text(*repr)),
{
    match repr {
        Some(text) => text.clone(),
        None => "".to_owned(),
    }
}

// ---------------------------------------------------------------------------
// Enums
// ---------------------------------------------------------------------------

/// A variant as it is declared.
pub open spec fn variant_text(ident: Seq<char>, fields: FieldsView) -> Seq<char> {
    match fields {
        FieldsView::Named { fields, .. } => ident + " {\n"@ + terminated(fields, "\n"@) + "},"@,
        FieldsView::Tuple { fields, .. } => ident + "("@ + joined(fields, ", "@) + "),"@,
        FieldsView::Unit => ident + ","@,
    }
}

/// A variant as it is declared, and the types of its fields.
pub open spec fn variant_item(variant: Json, reading: FieldReading) -> Result<
    (Seq<char>, Seq<Seq<char>>),
    FailureView,
> {
    match required_text(variant, "name"@, call_site()) {
        Err(failure) => Err(failure),
        Ok(name) => match item_name(name) {
            Err(failure) => Err(failure),
            Ok(ident) => match member_of(variant, "fields"@) {
                None => Ok((variant_text(ident, FieldsView::Unit), Seq::empty())),
                Some(list) => match items_of(list) {
                    None => Err(
                        diagnostic(
                            call_site(),
                            "variant `"@ + name + "` fields must be an array"@,
                        ),
                    ),
                    Some(_) => match type_fields(reading, call_site(), false) {
                        Err(failure) => Err(failure),
                        Ok(fields) => Ok((variant_text(ident, fields), fields.tys())),
                    },
                },
            },
        },
    }
}

/// What variants give: their declarations and the types of all their fields, with
/// those of one more variant.
pub open spec fn with_variant(
    so_far: (Seq<Seq<char>>, Seq<Seq<char>>),
    variant: Json,
    reading: FieldReading,
) -> Result<(Seq<Seq<char>>, Seq<Seq<char>>), FailureView> {
    match variant_item(variant, reading) {
        Err(failure) => Err(failure),
        Ok((item, more)) => Ok((so_far.0.push(item), so_far.1 + more)),
    }
}

/// What the first `n` variants give: their declarations and the types of all their
/// fields.
pub open spec fn variant_items(variants: Seq<Json>, readings: Seq<FieldReading>, n: int) -> Result<
    (Seq<Seq<char>>, Seq<Seq<char>>),
    FailureView,
> {
    stepped(
        (Seq::empty(), Seq::empty()),
        n,
        |so_far: (Seq<Seq<char>>, Seq<Seq<char>>), i: int|
            with_variant(so_far, variants[i], readings[i]),
    )
}

/// An enum as items.
pub open spec fn enum_items(
    head: HeadView,
    ty_def: Json,
    body: Json,
    readings: Seq<FieldReading>,
) -> Result<Seq<char>, FailureView> {
    if !(head.serialization is Borsh) {
        Err(
            diagnostic(
                call_site(),
                "declare_program! does not support bytemuck enum type `"@ + head.name + "`"@,
            ),
        )
    } else {
        match array_at(body, "variants"@) {
            None => Err(
                diagnostic(call_site(), "enum type `"@ + head.name + "` is missing variants"@),
            ),
            Some(variants) => match variant_items(variants, readings, variants.len() as int) {
                Err(failure) => Err(failure),
                Ok((items, tys)) => Ok(
                    filled(
                        ENUM@,
                        seq![
                            head.docs,
                            plain_repr(head.repr),
                            head.ident,
                            head.generics.impl_generics,
                            terminated(items, "\n"@),
                            head.impls,
                            idl_impl(head, ty_def, tys),
                        ],
                    ),
                ),
            },
        }
    }
}

/// The variant and its types or the failure, as sequences of characters.
pub open spec fn variant_view(result: Result<(String, Vec<String>), Failure>) -> Result<
    (Seq<char>, Seq<Seq<char>>),
    FailureView,
> {
    match result {
        Ok((item, tys)) => Ok((item@, texts(tys@))),
        Err(failure) => Err(failure@),
    }
}

fn print_variant_text(ident: String, fields: &DeclareTypeFields) -> (out: String)
    ensures
        out@ == variant_text(ident@, fields@),
{
    match fields {
        DeclareTypeFields::Named { fields, .. } => ident.concat(" {\n").concat(
            terminate_strings(fields, "\n").as_str(),
        ).concat("},"),
        DeclareTypeFields::Tuple { fields, .. } => ident.concat("(").concat(
            join_strings(fields, ", ").as_str(),
        ).concat("),"),
        DeclareTypeFields::Unit => ident.concat(","),
    }
}

fn print_variant(variant: &Json, reading: &FieldReading) -> (out: Result<
    (String, Vec<String>),
    Failure,
>)
    ensures
        variant_view(out) == variant_item(*variant, *reading),
{
    let name = match json_str(variant, "name", at_call_site()) {
        Err(failure) => return Err(failure),
        Ok(name) => name,
    };
    let ident = match new_ident(name.to_owned()) {
        Err(failure) => return Err(failure),
        Ok(ident) => ident,
    };
    let fields = match variant.get("fields") {
        None => DeclareTypeFields::Unit,
        Some(list) => match list.as_array() {
            None => return Err(
                new_diagnostic(
                    at_call_site(),
                    "variant `".to_owned().concat(name).concat("` fields must be an array"),
                ),
            ),
            Some(_) => match gen_declare_program_type_fields(reading, at_call_site(), false) {
                Err(failure) => return Err(failure),
                Ok(fields) => fields,
            },
        },
    };
    let tys = fields.tys();
    Ok((print_variant_text(ident, &fields), tys))
}

fn print_enum(head: &TypeHead, ty_def: &Json, body: &Json, readings: &Vec<FieldReading>) -> (out:
    Result<String, Failure>)
    requires
        readings@.len() == elements(*body, "variants"@).len(),
    ensures
        code_view(out) == enum_items(head@, *ty_def, *body, readings@),
{
    if head.serialization.is_bytemuck() {
        return Err(
            new_diagnostic(
                at_call_site(),
                "declare_program! does not support bytemuck enum type `".to_owned().concat(
                    head.name,
                ).concat("`"),
            ),
        );
    }
    let variants = match body.array_at("variants") {
        None => return Err(
            new_diagnostic(
                at_call_site(),
                "enum type `".to_owned().concat(head.name).concat("` is missing variants"),
            ),
        ),
        Some(variants) => variants,
    };
    let mut items: Vec<String> = Vec::new();
    let mut tys: Vec<String> = Vec::new();
    let ghost count = variants@.len() as int;
    assert(texts(items@) == Seq::<Seq<char>>::empty());
    assert(texts(tys@) == Seq::<Seq<char>>::empty());
    for i in 0..variants.len()
        invariant
            head.serialization is Borsh,
            array_at(*body, "variants"@) == Some(variants@),
            readings@.len() == variants@.len(),
            count == variants@.len(),
            variant_items(variants@, readings@, i as int) == Ok::<
                (Seq<Seq<char>>, Seq<Seq<char>>),
                FailureView,
            >((texts(items@), texts(tys@))),
    {
        proof {
            if variant_items(variants@, readings@, i + 1) is Err {
                lemma_stepped_prefix(
                    (Seq::empty(), Seq::empty()),
                    i + 1,
                    count,
                    |so_far: (Seq<Seq<char>>, Seq<Seq<char>>), i: int|
                        with_variant(so_far, variants@[i], readings@[i]),
                );
            }
        }
        match print_variant(&variants[i], &readings[i]) {
            Err(failure) => return Err(failure),
            Ok((item, more)) => {
                let ghost before = texts(items@);
                items.push(item);
                assert(texts(items@) == before.push(item@));
                append_texts(&mut tys, &more);
            },
        }
    }
    let described = gen_declare_program_idl_account_type_impl(head, ty_def, &tys);
    Ok(
        fill7(
            ENUM,
            head.docs.as_str(),
            print_plain_repr(&head.repr).as_str(),
            head.ident.as_str(),
            head.generics.impl_generics.as_str(),
            terminate_strings(&items, "\n").as_str(),
            head.impls.as_str(),
            described.as_str(),
        ),
    )
}

fn append_texts(list: &mut Vec<String>, more: &Vec<String>)
    ensures
        texts(final(list)@) == texts(old(list)@) + texts(more@),
{
    let ghost start = texts(list@);
    for i in 0..more.len()
        invariant
            texts(list@) == start + texts(more@).take(i as int),
    {
        let ghost before = texts(list@);
        let text = more[i].clone();
        list.push(text);
        assert(texts(list@) == before.push(text@));
        assert(texts(more@).take(i + 1) == texts(more@).take(i as int).push(text@));
    }
    assert(texts(more@).take(more@.len() as int) == texts(more@));
}

// ---------------------------------------------------------------------------
// All types
// ---------------------------------------------------------------------------

/// A type alias as an item.
pub open spec fn alias_item(head: HeadView, body: Json) -> Result<Seq<char>, FailureView> {
    match member_of(body, "alias"@) {
        None => Err(
            diagnostic(call_site(), "type alias `"@ + head.name + "` is missing alias"@),
        ),
        Some(alias) => match idl_type(alias, call_site()) {
            Err(failure) => Err(failure),
            Ok(ty) => Ok(
                filled(
                    ALIAS@,
                    seq![head.docs, head.ident, head.generics.impl_generics, ty],
                ),
            ),
        },
    }
}

/// How many lists of fields a definition may hold: one for a struct, and one for each
/// variant of an enum.
pub open spec fn list_count(ty_def: Json) -> nat {
    match member_of(ty_def, "type"@) {
        None => 0,
        Some(body) => if text_at(body, "kind"@) == Some("struct"@) {
            1
        } else if text_at(body, "kind"@) == Some("enum"@) {
            elements(body, "variants"@).len()
        } else {
            0
        },
    }
}

/// Whether there is a reading for every list of fields of every type. What stands for
/// a list that is not there is not looked at.
pub open spec fn readings_fit(types: Seq<Json>, readings: Seq<Vec<FieldReading>>) -> bool {
    &&& readings.len() == types.len()
    &&& forall|i: int|
        0 <= i < types.len() ==> (#[trigger] readings[i])@.len() == list_count(types[i])
}

/// A type as items.
pub open spec fn type_items(ty_def: Json, accounts: Seq<Json>, readings: Seq<FieldReading>) -> Result<
    Seq<char>,
    FailureView,
> {
    match type_head(ty_def, accounts) {
        Err(failure) => Err(failure),
        Ok(head) => match member_of(ty_def, "type"@) {
            None => Err(
                diagnostic(call_site(), "type `"@ + head.name + "` is missing type body"@),
            ),
            Some(body) => match required_text(body, "kind"@, call_site()) {
                Err(failure) => Err(failure),
                Ok(kind) => if kind == "struct"@ {
                    match struct_fields(head.name, body, readings[0]) {
                        Err(failure) => Err(failure),
                        Ok(fields) => Ok(struct_items(head, ty_def, fields)),
                    }
                } else if kind == "enum"@ {
                    enum_items(head, ty_def, body, readings)
                } else if kind == "type"@ {
                    alias_item(head, body)
                } else {
                    Err(
                        diagnostic(
                            call_site(),
                            "declare_program! only supports struct, enum, and type alias IDL types for now, got `"@
                                + kind + "`"@,
                        ),
                    )
                },
            },
        },
    }
}

fn print_type_items(ty_def: &Json, accounts: &Vec<Json>, readings: &Vec<FieldReading>) -> (out:
    Result<String, Failure>)
    requires
        readings@.len() == list_count(*ty_def),
    ensures
        code_view(out) == type_items(*ty_def, accounts@, readings@),
{
    let head = match read_type_head(ty_def, accounts) {
        Err(failure) => return Err(failure),
        Ok(head) => head,
    };
    let body = match ty_def.get("type") {
        None => return Err(
            new_diagnostic(
                at_call_site(),
                "type `".to_owned().concat(head.name).concat("` is missing type body"),
            ),
        ),
        Some(body) => body,
    };
    let kind = match json_str(body, "kind", at_call_site()) {
        Err(failure) => return Err(failure),
        Ok(kind) => kind,
    };
    if same_text(kind, "struct") {
        return match read_struct_fields(head.name, body, &readings[0]) {
            Err(failure) => Err(failure),
            Ok(fields) => Ok(print_struct(&head, ty_def, &fields)),
        };
    }
    if same_text(kind, "enum") {
        return print_enum(&head, ty_def, body, readings);
    }
    if same_text(kind, "type") {
        let alias = match body.get("alias") {
            None => return Err(
                new_diagnostic(
                    at_call_site(),
                    "type alias `".to_owned().concat(head.name).concat("` is missing alias"),
                ),
            ),
            Some(alias) => alias,
        };
        return match declare_idl_type_to_tokens(alias, at_call_site()) {
            Err(failure) => Err(failure),
            Ok(ty) => Ok(
                fill4(
                    ALIAS,
                    head.docs.as_str(),
                    head.ident.as_str(),
                    head.generics.impl_generics.as_str(),
                    ty.as_str(),
                ),
            ),
        };
    }
    Err(
        new_diagnostic(
            at_call_site(),
            "declare_program! only supports struct, enum, and type alias IDL types for now, got `".to_owned().concat(
                kind,
            ).concat("`"),
        ),
    )
}

/// Types as items, with one more type.
pub open spec fn with_type(
    items: Seq<Seq<char>>,
    ty_def: Json,
    accounts: Seq<Json>,
    readings: Seq<FieldReading>,
) -> Result<Seq<Seq<char>>, FailureView> {
    match type_items(ty_def, accounts, readings) {
        Err(failure) => Err(failure),
        Ok(item) => Ok(items.push(item)),
    }
}

/// The first `n` types, each as items.
pub open spec fn first_items(
    types: Seq<Json>,
    accounts: Seq<Json>,
    readings: Seq<Vec<FieldReading>>,
    n: int,
) -> Result<Seq<Seq<char>>, FailureView> {
    stepped(
        Seq::empty(),
        n,
        |items: Seq<Seq<char>>, i: int| with_type(items, types[i], accounts, readings[i]@),
    )
}

/// The types of an interface description, each as items.
pub open spec fn declared_items(idl: Json, readings: Seq<Vec<FieldReading>>) -> Result<
    Seq<Seq<char>>,
    FailureView,
> {
    let types = elements(idl, "types"@);
    first_items(types, elements(idl, "accounts"@), readings, types.len() as int)
}

/// Writes the types of an interface description. A list of fields comes as it was read.
pub fn gen_declare_program_types(idl: &Json, readings: &Vec<Vec<FieldReading>>) -> (out: Result<
    Vec<String>,
    Failure,
>)
    requires
        readings_fit(elements(*idl, "types"@), readings@),
    ensures
        list_view(out) == declared_items(*idl, readings@),
{
    let none: Vec<Json> = Vec::new();
    let types = idl.array_or("types", &none);
    let accounts = idl.array_or("accounts", &none);
    let ghost count = types@.len() as int;
    let mut out: Vec<String> = Vec::new();
    assert(texts(out@) == Seq::<Seq<char>>::empty());
    for i in 0..types.len()
        invariant
            readings_fit(types@, readings@),
            count == types@.len(),
            declared_items(*idl, readings@) == first_items(types@, accounts@, readings@, count),
            first_items(types@, accounts@, readings@, i as int) == Ok::<
                Seq<Seq<char>>,
                FailureView,
            >(texts(out@)),
    {
        assert(readings@[i as int]@.len() == list_count(types@[i as int]));
        match print_type_items(&types[i], accounts, &readings[i]) {
            Ok(text) => {
                let ghost before = texts(out@);
                out.push(text);
                assert(texts(out@) == before.push(text@));
            },
            Err(failure) => {
                proof {
                    lemma_stepped_prefix(
                        Seq::empty(),
                        i + 1,
                        count,
                        |items: Seq<Seq<char>>, i: int|
                            with_type(items, types@[i], accounts@, readings@[i]@),
                    );
                }
                return Err(failure);
            },
        }
    }
    Ok(out)
}

// ---------------------------------------------------------------------------
// The names of all types
// ---------------------------------------------------------------------------

/// The first place in an ordered list of names that does not come before a name.
pub open spec fn name_place(names: Seq<Seq<char>>, name: Seq<char>) -> int
    decreases names.len(),
{
    if names.len() == 0 || !text_less(names[0], name) {
        0
    } else {
        1 + name_place(names.skip(1), name)
    }
}

/// An ordered list of names with one more, once.
pub open spec fn with_name(names: Seq<Seq<char>>, name: Seq<char>) -> Seq<Seq<char>> {
    let place = name_place(names, name);
    if place < names.len() && names[place] == name {
        names
    } else {
        names.insert(place, name)
    }
}

/// An ordered list of names with that of an item.
pub open spec fn with_name_of(names: Seq<Seq<char>>, item: Json) -> Result<
    Seq<Seq<char>>,
    FailureView,
> {
    match required_text(item, "name"@, call_site()) {
        Err(failure) => Err(failure),
        Ok(name) => Ok(with_name(names, name)),
    }
}

/// An ordered list of names with those of the first `n` items.
pub open spec fn with_first_names(names: Seq<Seq<char>>, items: Seq<Json>, n: int) -> Result<
    Seq<Seq<char>>,
    FailureView,
> {
    stepped(names, n, |before: Seq<Seq<char>>, i: int| with_name_of(before, items[i]))
}

/// An ordered list of names with those of the items.
pub open spec fn with_names(names: Seq<Seq<char>>, items: Seq<Json>) -> Result<
    Seq<Seq<char>>,
    FailureView,
> {
    with_first_names(names, items, items.len() as int)
}

/// The names of all accounts and types, in order and each once.
pub open spec fn declared_names(idl: Json) -> Result<Seq<Seq<char>>, FailureView> {
    match with_names(Seq::empty(), elements(idl, "accounts"@)) {
        Err(failure) => Err(failure),
        Ok(names) => with_names(names, elements(idl, "types"@)),
    }
}

/// The type names of all accounts and types.
pub open spec fn type_idents(idl: Json) -> Result<Seq<Seq<char>>, FailureView> {
    match declared_names(idl) {
        Err(failure) => Err(failure),
        Ok(names) => collected(names.map_values(|name: Seq<char>| item_name(type_case(name)))),
    }
}

fn insert_name(names: &mut Vec<String>, name: &str)
    ensures
        texts(final(names)@) == with_name(texts(old(names)@), name@),
{
    let ghost views = texts(names@);
    let mut i: usize = 0;
    assert(views.skip(0) == views);
    while i < names.len() && is_less(names[i].as_str(), name)
        invariant
            *names == *old(names),
            views == texts(names@),
            i <= names@.len(),
            name_place(views, name@) == i + name_place(views.skip(i as int), name@),
        decreases names@.len() - i,
    {
        assert(views.skip(i as int).skip(1) == views.skip(i + 1));
        i = i + 1;
    }
    if i < names.len() && same_text(names[i].as_str(), name) {
        assert(texts(names@) == with_name(views, name@));
    } else {
        names.insert(i, name.to_owned());
        assert(texts(names@) == views.insert(i as int, name@));
    }
}

fn insert_names(known: Vec<String>, items: &Vec<Json>) -> (out: Result<Vec<String>, Failure>)
    ensures
        list_view(out) == with_names(texts(known@), items@),
{
    let ghost start = texts(known@);
    let mut names = known;
    for i in 0..items.len()
        invariant
            start == texts(known@),
            with_first_names(start, items@, i as int) == Ok::<Seq<Seq<char>>, FailureView>(
                texts(names@),
            ),
    {
        assert(with_first_names(start, items@, i + 1) == with_name_of(
            texts(names@),
            items@[i as int],
        ));
        match json_str(&items[i], "name", at_call_site()) {
            Err(failure) => {
                proof {
                    lemma_stepped_prefix(
                        start,
                        i + 1,
                        items@.len() as int,
                        |before: Seq<Seq<char>>, i: int| with_name_of(before, items@[i]),
                    );
                }
                return Err(failure);
            },
            Ok(name) => {
                insert_name(&mut names, name);
            },
        }
    }
    Ok(names)
}

/// The type names of all accounts and types.
pub fn gen_declare_program_type_idents(idl: &Json) -> (out: Result<Vec<String>, Failure>)
    ensures
        list_view(out) == type_idents(*idl),
{
    let none: Vec<Json> = Vec::new();
    let empty: Vec<String> = Vec::new();
    assert(texts(empty@) == Seq::<Seq<char>>::empty());
    let names = match insert_names(empty, idl.array_or("accounts", &none)) {
        Err(failure) => return Err(failure),
        Ok(names) => names,
    };
    let names = match insert_names(names, idl.array_or("types", &none)) {
        Err(failure) => return Err(failure),
        Ok(names) => names,
    };
    assert(names@.map_values(|name: String| item_name(type_case(name@))) =~= texts(
        names@,
    ).map_values(|name: Seq<char>| item_name(type_case(name))));
    crate::failure::try_map_texts(
        &names,
        |name: &String| -> (r: Result<String, Failure>)
            ensures
                code_view(r) == item_name(type_case(name@))
            { new_ident(to_type_name(name.as_str())) },
        Ghost(|name: String| item_name(type_case(name@))),
    )
}

// ---------------------------------------------------------------------------
// Laws
// ---------------------------------------------------------------------------

/// Whether names are ordered, each once.
pub open spec fn is_ordered(names: Seq<Seq<char>>) -> bool {
    forall|i: int, j: int|
        0 <= i < j < names.len() ==> text_less(#[trigger] names[i], #[trigger] names[j])
}

proof fn lemma_name_place(names: Seq<Seq<char>>, name: Seq<char>)
    ensures
        0 <= name_place(names, name) <= names.len(),
        forall|i: int|
            0 <= i < name_place(names, name) ==> text_less(#[trigger] names[i], name),
        name_place(names, name) < names.len() ==> !text_less(
            names[name_place(names, name)],
            name,
        ),
    decreases names.len(),
{
    if names.len() > 0 && text_less(names[0], name) {
        lemma_name_place(names.skip(1), name);
        assert forall|i: int| 0 <= i < name_place(names, name) implies text_less(
            #[trigger] names[i],
            name,
        ) by {
            if i > 0 {
                assert(names.skip(1)[i - 1] == names[i]);
            }
        }
    }
}

proof fn lemma_with_name(names: Seq<Seq<char>>, name: Seq<char>, found: Seq<char>)
    requires
        is_ordered(names),
    ensures
        is_ordered(with_name(names, name)),
        with_name(names, name).contains(found) <==> names.contains(found) || found == name,
{
    lemma_name_place(names, name);
    let place = name_place(names, name);
    let out = with_name(names, name);
    if place < names.len() && names[place] == name {
        assert(names[place] == name);
    } else {
        assert(out[place] == name);
        if names.contains(found) {
            let i = choose|i: int| 0 <= i < names.len() && names[i] == found;
            let to = if i < place {
                i
            } else {
                i + 1
            };
            assert(out[to] == found);
        }
        if out.contains(found) && found != name {
            let i = choose|i: int| 0 <= i < out.len() && out[i] == found;
            let from = if i < place {
                i
            } else {
                i - 1
            };
            assert(names[from] == found);
        }
        assert forall|i: int, j: int| 0 <= i < j < out.len() implies text_less(
            #[trigger] out[i],
            #[trigger] out[j],
        ) by {
            if i == place {
                assert(out[j] == names[j - 1]);
                lemma_text_less_total(names[place], name);
                if j - 1 > place {
                    lemma_text_less_transitive(name, names[place], names[j - 1]);
                }
            } else if j == place {
                assert(out[i] == names[i]);
            } else {
                let a = if i < place {
                    i
                } else {
                    i - 1
                };
                let b = if j < place {
                    j
                } else {
                    j - 1
                };
                assert(out[i] == names[a]);
                assert(out[j] == names[b]);
            }
        }
    }
}

/// Whether one of the items has the given name.
pub open spec fn any_named(items: Seq<Json>, name: Seq<char>) -> bool {
    exists|i: int| 0 <= i < items.len() && text_at(#[trigger] items[i], "name"@) == Some(name)
}

/// Whether one of the first `n` items has the given name.
spec fn any_named_before(items: Seq<Json>, n: int, name: Seq<char>) -> bool {
    exists|i: int| 0 <= i < n && text_at(#[trigger] items[i], "name"@) == Some(name)
}

proof fn lemma_with_names(names: Seq<Seq<char>>, items: Seq<Json>, n: int, found: Seq<char>)
    requires
        is_ordered(names),
        0 <= n,
        with_first_names(names, items, n) is Ok,
    ensures
        is_ordered(with_first_names(names, items, n)->Ok_0),
        with_first_names(names, items, n)->Ok_0.contains(found) <==> names.contains(found)
            || any_named_before(items, n, found),
    decreases n,
{
    if n > 0 {
        assert(with_first_names(names, items, n - 1) is Ok);
        lemma_with_names(names, items, n - 1, found);
        let name = text_at(items[n - 1], "name"@)->Some_0;
        lemma_with_name(with_first_names(names, items, n - 1)->Ok_0, name, found);
        if any_named_before(items, n, found) {
            let i = choose|i: int|
                0 <= i < n && text_at(#[trigger] items[i], "name"@) == Some(found);
            assert(i < n - 1 ==> any_named_before(items, n - 1, found));
        }
        if any_named_before(items, n - 1, found) {
            let i = choose|i: int|
                0 <= i < n - 1 && text_at(#[trigger] items[i], "name"@) == Some(found);
            assert(any_named_before(items, n, found));
        }
        assert(text_at(items[n - 1], "name"@) == Some(name));
    }
}

/// The names of all accounts and types are ordered, each once, and they are exactly
/// those that an account or a type has.
pub proof fn lemma_declared_names(idl: Json, found: Seq<char>)
    requires
        declared_names(idl) is Ok,
    ensures
        is_ordered(declared_names(idl)->Ok_0),
        declared_names(idl)->Ok_0.contains(found) <==> any_named(
            elements(idl, "accounts"@),
            found,
        ) || any_named(elements(idl, "types"@), found),
{
    let accounts = elements(idl, "accounts"@);
    let types = elements(idl, "types"@);
    lemma_with_names(Seq::empty(), accounts, accounts.len() as int, found);
    let names = with_names(Seq::empty(), accounts)->Ok_0;
    lemma_with_names(names, types, types.len() as int, found);
}

} // verus!
