//! CPI accounts structs: which accounts their fields stand for, and the code that
//! hands them to an invocation.

use crate::failure::{code_view, diagnostic, new_diagnostic, Failure, FailureView};
use crate::field_attrs::{
    account_meta_attrs, accounts_program_id_expr, field_metas, first_program_id, has_nested_attr,
    nested_attr, only_signer, signer_expr_attr,
};
use crate::items::{all_named, field_name, well_named, Data, DeriveInput, Field, Fields};
use crate::syntax::{
    is_unit, lifetime_text, type_span, AngleBracketed, GenericArgument, Ident, Lifetime,
    PathArguments, PathSegment, Type,
};
use crate::template::{fill1, fill3, fill4, fill8, filled};
use crate::text::{concat_all, concat_strings, flag, flag_text, map_texts, same_text};
use vstd::prelude::*;

verus! {

/// What a field of a CPI accounts struct stands for.
#[derive(Clone, Copy, Debug, PartialEq, Eq, Structural)]
pub enum CpiFieldKind {
    Readonly,
    Writable,
    OptionalReadonly,
    OptionalWritable,
    Nested,
    Phantom,
}

// ---------------------------------------------------------------------------
// Reading types
// ---------------------------------------------------------------------------

/// The last segment of the path that names a type.
pub open spec fn last_segment(ty: Type) -> Option<PathSegment> {
    match ty {
        Type::Path(path) => if path.path.segments@.len() > 0 {
            Some(path.path.segments@.last())
        } else {
            None
        },
        _ => None,
    }
}

/// The only generic argument of the last segment of the path that names a type.
pub open spec fn only_argument(ty: Type) -> Option<GenericArgument> {
    match last_segment(ty) {
        Some(segment) => match segment.arguments {
            PathArguments::AngleBracketed(angle) => if angle.args@.len() == 1 {
                Some(angle.args@[0])
            } else {
                None
            },
            _ => None,
        },
        None => None,
    }
}

/// Whether the last segment of the path that names a type is the given one.
pub open spec fn is_named(ty: Type, name: Seq<char>) -> bool {
    last_segment(ty) matches Some(segment) && segment.ident.text@ == name
}

/// The type in an `Option`.
pub open spec fn option_of(ty: Type) -> Option<Type> {
    if is_named(ty, "Option"@) {
        match only_argument(ty) {
            Some(GenericArgument::Type(inner)) => Some(inner),
            _ => None,
        }
    } else {
        None
    }
}

/// The lifetime in a `PhantomData<&'a ()>`.
pub open spec fn phantom_lifetime(ty: Type) -> Option<Lifetime> {
    if is_named(ty, "PhantomData"@) {
        match only_argument(ty) {
            Some(GenericArgument::Type(Type::Reference(reference))) if is_unit(
                *reference.elem,
            ) => reference.lifetime,
            _ => None,
        }
    } else {
        None
    }
}

/// The lifetime that is the only argument of a path.
pub open spec fn only_lifetime(ty: Type) -> Option<Lifetime> {
    match only_argument(ty) {
        Some(GenericArgument::Lifetime(lifetime)) => Some(lifetime),
        _ => None,
    }
}

/// The first lifetime among generic arguments.
pub open spec fn first_lifetime_arg(args: Seq<GenericArgument>) -> Option<Lifetime>
    decreases args.len(),
{
    if args.len() == 0 {
        None
    } else {
        match args[0] {
            GenericArgument::Lifetime(lifetime) => Some(lifetime),
            _ => first_lifetime_arg(args.skip(1)),
        }
    }
}

/// The first lifetime among the generic arguments of segments.
pub open spec fn first_segment_lifetime(segments: Seq<PathSegment>) -> Option<Lifetime>
    decreases segments.len(),
{
    if segments.len() == 0 {
        None
    } else {
        let found = match segments[0].arguments {
            PathArguments::AngleBracketed(angle) => first_lifetime_arg(angle.args@),
            _ => None,
        };
        match found {
            Some(lifetime) => Some(lifetime),
            None => first_segment_lifetime(segments.skip(1)),
        }
    }
}

/// The first lifetime argument in the path that names a type.
pub open spec fn first_lifetime(ty: Type) -> Option<Lifetime> {
    match ty {
        Type::Path(path) => first_segment_lifetime(path.path.segments@),
        _ => None,
    }
}

/// What a reference that may be absent refers to.
pub open spec fn found<T>(value: Option<&T>) -> Option<T> {
    match value {
        Some(value) => Some(*value),
        None => None,
    }
}

fn find_last_segment(ty: &Type) -> (out: Option<&PathSegment>)
    ensures
        found(out) == last_segment(*ty),
{
    match ty {
        Type::Path(path) => if path.path.segments.len() > 0 {
            Some(&path.path.segments[path.path.segments.len() - 1])
        } else {
            None
        },
        _ => None,
    }
}

fn find_only_argument(ty: &Type) -> (out: Option<&GenericArgument>)
    ensures
        found(out) == only_argument(*ty),
{
    match find_last_segment(ty) {
        Some(segment) => match &segment.arguments {
            PathArguments::AngleBracketed(angle) => if angle.args.len() == 1 {
                Some(&angle.args[0])
            } else {
                None
            },
            _ => None,
        },
        None => None,
    }
}

fn has_name(ty: &Type, name: &str) -> (out: bool)
    ensures
        out == is_named(*ty, name@),
{
    match find_last_segment(ty) {
        Some(segment) => same_text(segment.ident.text.as_str(), name),
        None => false,
    }
}

/// The type in an `Option`.
pub fn option_inner(ty: &Type) -> (out: Option<&Type>)
    ensures
        found(out) == option_of(*ty),
{
    if has_name(ty, "Option") {
        match find_only_argument(ty) {
            Some(GenericArgument::Type(inner)) => Some(inner),
            _ => None,
        }
    } else {
        None
    }
}

/// The lifetime in a `PhantomData<&'a ()>`.
pub fn phantom_data_lifetime(ty: &Type) -> (out: Option<&Lifetime>)
    ensures
        found(out) == phantom_lifetime(*ty),
{
    if has_name(ty, "PhantomData") {
        match find_only_argument(ty) {
            Some(GenericArgument::Type(Type::Reference(reference))) => if reference.elem.is_unit() {
                match &reference.lifetime {
                    Some(lifetime) => Some(lifetime),
                    None => None,
                }
            } else {
                None
            },
            _ => None,
        }
    } else {
        None
    }
}

/// The name of a type whose only argument is a lifetime, and that lifetime.
pub fn path_type_ident_and_lifetime(ty: &Type) -> (out: Option<(&Ident, &Lifetime)>)
    ensures
        match out {
            Some((ident, lifetime)) => only_lifetime(*ty) == Some(*lifetime) && last_segment(
                *ty,
            )->Some_0.ident == *ident,
            None => only_lifetime(*ty) is None,
        },
{
    match find_last_segment(ty) {
        Some(segment) => match find_only_argument(ty) {
            Some(GenericArgument::Lifetime(lifetime)) => Some((&segment.ident, lifetime)),
            _ => None,
        },
        None => None,
    }
}

/// The first lifetime argument in the path that names a type.
pub fn path_type_first_lifetime(ty: &Type) -> (out: Option<&Lifetime>)
    ensures
        found(out) == first_lifetime(*ty),
{
    match ty {
        Type::Path(path) => {
            let segments = &path.path.segments;
            assert(segments@.skip(0) == segments@);
            for i in 0..segments.len()
                invariant
                    first_segment_lifetime(path.path.segments@) == first_segment_lifetime(
                        segments@.skip(i as int),
                    ),
                    *ty == Type::Path(*path),
            {
                assert(segments@.skip(i as int).skip(1) == segments@.skip(i + 1));
                if let PathArguments::AngleBracketed(angle) = &segments[i].arguments {
                    let args = &angle.args;
                    assert(args@.skip(0) == args@);
                    for k in 0..args.len()
                        invariant
                            first_lifetime_arg(args@) == first_lifetime_arg(args@.skip(k as int)),
                            i < segments@.len(),
                            segments@[i as int].arguments == PathArguments::AngleBracketed(*angle),
                            args@ == angle.args@,
                            first_segment_lifetime(path.path.segments@) == first_segment_lifetime(
                                segments@.skip(i as int),
                            ),
                            *ty == Type::Path(*path),
                    {
                        assert(args@.skip(k as int).skip(1) == args@.skip(k + 1));
                        if let GenericArgument::Lifetime(lifetime) = &args[k] {
                            return Some(lifetime);
                        }
                    }
                }
            }
            None
        },
        _ => None,
    }
}

// ---------------------------------------------------------------------------
// What a field stands for
// ---------------------------------------------------------------------------

/// The kinds of field that there are.
pub const EXPECTED_HANDLE: &'static str =
    "expected CpiHandle<'a>, CpiHandleMut<'a>, Option<CpiHandle<'a>>, or Option<CpiHandleMut<'a>>";

/// What a field stands for that is not optional, and its lifetime.
pub open spec fn direct_kind(ty: Type) -> Result<(CpiFieldKind, Lifetime), FailureView> {
    match only_lifetime(ty) {
        None => Err(diagnostic(type_span(ty), EXPECTED_HANDLE@)),
        Some(lifetime) => if is_named(ty, "CpiHandle"@) {
            Ok((CpiFieldKind::Readonly, lifetime))
        } else if is_named(ty, "CpiHandleMut"@) {
            Ok((CpiFieldKind::Writable, lifetime))
        } else {
            Err(diagnostic(type_span(ty), "expected CpiHandle<'a> or CpiHandleMut<'a>"@))
        },
    }
}

/// What a field stands for, and its lifetime.
pub open spec fn field_kind(ty: Type, nested: bool) -> Result<
    (CpiFieldKind, Lifetime),
    FailureView,
> {
    if nested {
        if option_of(ty) is Some {
            Err(diagnostic(type_span(ty), "#[nested] fields cannot be wrapped in Option"@))
        } else {
            match first_lifetime(ty) {
                None => Err(diagnostic(type_span(ty), NESTED_WITHOUT_LIFETIME@)),
                Some(lifetime) => Ok((CpiFieldKind::Nested, lifetime)),
            }
        }
    } else {
        match phantom_lifetime(ty) {
            Some(lifetime) => Ok((CpiFieldKind::Phantom, lifetime)),
            None => match option_of(ty) {
                None => direct_kind(ty),
                Some(inner) => match direct_kind(inner) {
                    Err(failure) => Err(failure),
                    Ok((kind, lifetime)) => Ok(
                        (
                            if kind == CpiFieldKind::Readonly {
                                CpiFieldKind::OptionalReadonly
                            } else {
                                CpiFieldKind::OptionalWritable
                            },
                            lifetime,
                        ),
                    ),
                },
            },
        }
    }
}

/// Why a nested field must have a lifetime.
pub const NESTED_WITHOUT_LIFETIME: &'static str =
    "#[nested] fields must name a type carrying the CPI lifetime, e.g. Inner<'a>";

/// The kind and the lifetime, or the failure.
pub open spec fn kind_view(kind: Result<(CpiFieldKind, &Lifetime), Failure>) -> Result<
    (CpiFieldKind, Lifetime),
    FailureView,
> {
    match kind {
        Ok((kind, lifetime)) => Ok((kind, *lifetime)),
        Err(failure) => Err(failure@),
    }
}

/// What a field stands for that is not optional, and its lifetime.
pub fn direct_cpi_field_kind(ty: &Type) -> (out: Result<(CpiFieldKind, &Lifetime), Failure>)
    ensures
        kind_view(out) == direct_kind(*ty),
{
    match path_type_ident_and_lifetime(ty) {
        None => Err(new_diagnostic(ty.span(), EXPECTED_HANDLE.to_owned())),
        Some((ident, lifetime)) => if same_text(ident.text.as_str(), "CpiHandle") {
            Ok((CpiFieldKind::Readonly, lifetime))
        } else if same_text(ident.text.as_str(), "CpiHandleMut") {
            Ok((CpiFieldKind::Writable, lifetime))
        } else {
            Err(
                new_diagnostic(
                    ty.span(),
                    "expected CpiHandle<'a> or CpiHandleMut<'a>".to_owned(),
                ),
            )
        },
    }
}

/// What a field stands for, and its lifetime.
pub fn cpi_field_kind(ty: &Type, nested: bool) -> (out: Result<(CpiFieldKind, &Lifetime), Failure>)
    ensures
        kind_view(out) == field_kind(*ty, nested),
{
    if nested {
        if option_inner(ty).is_some() {
            return Err(
                new_diagnostic(
                    ty.span(),
                    "#[nested] fields cannot be wrapped in Option".to_owned(),
                ),
            );
        }
        return match path_type_first_lifetime(ty) {
            Some(lifetime) => Ok((CpiFieldKind::Nested, lifetime)),
            None => Err(new_diagnostic(ty.span(), NESTED_WITHOUT_LIFETIME.to_owned())),
        };
    }
    if let Some(lifetime) = phantom_data_lifetime(ty) {
        return Ok((CpiFieldKind::Phantom, lifetime));
    }
    if let Some(inner) = option_inner(ty) {
        return match direct_cpi_field_kind(inner) {
            Ok((CpiFieldKind::Readonly, lifetime)) => Ok(
                (CpiFieldKind::OptionalReadonly, lifetime),
            ),
            Ok((_, lifetime)) => Ok((CpiFieldKind::OptionalWritable, lifetime)),
            Err(failure) => Err(failure),
        };
    }
    direct_cpi_field_kind(ty)
}

// ---------------------------------------------------------------------------
// Scanning the fields
// ---------------------------------------------------------------------------

/// An account that a field stands for.
pub struct CpiField {
    pub name: String,
    pub kind: CpiFieldKind,
    pub signer: String,
}

/// An account with its texts as sequences of characters.
pub struct CpiFieldView {
    pub name: Seq<char>,
    pub kind: CpiFieldKind,
    pub signer: Seq<char>,
}

/// The accounts with their texts as sequences of characters.
pub open spec fn cpi_fields_view(fields: Seq<CpiField>) -> Seq<CpiFieldView> {
    fields.map_values(
        |field: CpiField| CpiFieldView {
            name: field.name@,
            kind: field.kind,
            signer: field.signer@,
        },
    )
}

/// What a field that is not left out says.
pub struct FieldReading {
    pub kind: CpiFieldKind,
    pub lifetime: Seq<char>,
    pub signer: Seq<char>,
    pub duplicate_readonly: bool,
}

/// What a field says by itself; nothing where it is left out.
pub open spec fn field_reading(field: Field) -> Result<Option<FieldReading>, FailureView> {
    match field_metas(field) {
        Err(failure) => Err(failure),
        Ok(metas) => match only_signer(field.attrs@, None) {
            Err(failure) => Err(failure),
            Ok(signer) => match nested_attr(field.attrs@, false) {
                Err(failure) => Err(failure),
                Ok(nested) => if metas.skip && signer is Some {
                    Err(
                        diagnostic(
                            field.span,
                            "#[account_meta(skip)] cannot be combined with #[signer]"@,
                        ),
                    )
                } else if metas.skip && nested {
                    Err(
                        diagnostic(
                            field.span,
                            "#[account_meta(skip)] cannot be combined with #[nested]"@,
                        ),
                    )
                } else if metas.skip {
                    Ok(None)
                } else if nested && signer is Some {
                    Err(
                        diagnostic(field.span, "#[nested] cannot be combined with #[signer]"@),
                    )
                } else {
                    match field_kind(field.ty, nested) {
                        Err(failure) => Err(failure),
                        Ok((kind, lifetime)) => if kind == CpiFieldKind::Phantom
                            && signer is Some {
                            Err(
                                diagnostic(
                                    field.span,
                                    "PhantomData fields cannot be combined with #[signer]"@,
                                ),
                            )
                        } else {
                            Ok(
                                Some(
                                    FieldReading {
                                        kind,
                                        lifetime: lifetime.name@,
                                        signer: match signer {
                                            Some(expr) => expr,
                                            None => "false"@,
                                        },
                                        duplicate_readonly: metas.duplicate_readonly,
                                    },
                                ),
                            )
                        },
                    }
                },
            },
        },
    }
}

/// The accounts that a field stands for.
pub open spec fn field_accounts(name: Seq<char>, reading: FieldReading) -> Seq<CpiFieldView> {
    let own = CpiFieldView { name, kind: reading.kind, signer: reading.signer };
    if reading.kind == CpiFieldKind::Phantom {
        Seq::empty()
    } else if reading.duplicate_readonly {
        seq![CpiFieldView { name, kind: CpiFieldKind::Readonly, signer: "false"@ }, own]
    } else {
        seq![own]
    }
}

/// Why the fields must agree on one lifetime.
pub const LIFETIMES_DIFFER: &'static str =
    "all CpiHandle and CpiHandleMut fields must use the same lifetime";

/// Why the option needs a field that is an account.
pub const DUPLICATE_NEEDS_HANDLE: &'static str =
    "#[account_meta(duplicate_readonly)] requires a direct CpiHandle or CpiHandleMut field";

/// The lifetime and the accounts of the fields, with those given found before them.
pub open spec fn scanned(
    fields: Seq<Field>,
    lifetime: Option<Seq<char>>,
    accounts: Seq<CpiFieldView>,
) -> Result<(Option<Seq<char>>, Seq<CpiFieldView>), FailureView>
    decreases fields.len(),
{
    if fields.len() == 0 {
        Ok((lifetime, accounts))
    } else {
        match field_reading(fields[0]) {
            Err(failure) => Err(failure),
            Ok(None) => scanned(fields.skip(1), lifetime, accounts),
            Ok(Some(reading)) => if lifetime is Some && lifetime != Some(reading.lifetime) {
                Err(diagnostic(type_span(fields[0].ty), LIFETIMES_DIFFER@))
            } else if reading.duplicate_readonly && reading.kind != CpiFieldKind::Phantom
                && reading.kind != CpiFieldKind::Readonly && reading.kind
                != CpiFieldKind::Writable {
                Err(diagnostic(fields[0].span, DUPLICATE_NEEDS_HANDLE@))
            } else {
                scanned(
                    fields.skip(1),
                    Some(reading.lifetime),
                    accounts + field_accounts(field_name(fields[0]), reading),
                )
            },
        }
    }
}

/// A field that is not left out: its kind, its lifetime, the condition under which it
/// signs, and whether it comes twice.
struct Reading<'a> {
    kind: CpiFieldKind,
    lifetime: &'a Lifetime,
    signer: String,
    duplicate_readonly: bool,
}

spec fn reading_of(reading: Result<Option<Reading>, Failure>) -> Result<
    Option<FieldReading>,
    FailureView,
> {
    match reading {
        Err(failure) => Err(failure@),
        Ok(None) => Ok(None),
        Ok(Some(reading)) => Ok(
            Some(
                FieldReading {
                    kind: reading.kind,
                    lifetime: reading.lifetime.name@,
                    signer: reading.signer@,
                    duplicate_readonly: reading.duplicate_readonly,
                },
            ),
        ),
    }
}

fn read_field(field: &Field) -> (out: Result<Option<Reading<'_>>, Failure>)
    ensures
        reading_of(out) == field_reading(*field),
{
    let metas = match account_meta_attrs(field) {
        Ok(metas) => metas,
        Err(failure) => return Err(failure),
    };
    let signer = match signer_expr_attr(field) {
        Ok(signer) => signer,
        Err(failure) => return Err(failure),
    };
    let nested = match has_nested_attr(field) {
        Ok(nested) => nested,
        Err(failure) => return Err(failure),
    };
    if metas.skip {
        if signer.present {
            return Err(
                new_diagnostic(
                    field.span,
                    "#[account_meta(skip)] cannot be combined with #[signer]".to_owned(),
                ),
            );
        }
        if nested {
            return Err(
                new_diagnostic(
                    field.span,
                    "#[account_meta(skip)] cannot be combined with #[nested]".to_owned(),
                ),
            );
        }
        return Ok(None);
    }
    if nested && signer.present {
        return Err(
            new_diagnostic(
                field.span,
                "#[nested] cannot be combined with #[signer]".to_owned(),
            ),
        );
    }
    let (kind, lifetime) = match cpi_field_kind(&field.ty, nested) {
        Ok(kind) => kind,
        Err(failure) => return Err(failure),
    };
    if kind == CpiFieldKind::Phantom && signer.present {
        return Err(
            new_diagnostic(
                field.span,
                "PhantomData fields cannot be combined with #[signer]".to_owned(),
            ),
        );
    }
    Ok(
        Some(
            Reading {
                kind,
                lifetime,
                signer: signer.expr,
                duplicate_readonly: metas.duplicate_readonly,
            },
        ),
    )
}

/// The lifetime and the accounts, or the failure.
pub open spec fn scan_view(scan: Result<(Option<String>, Vec<CpiField>), Failure>) -> Result<
    (Option<Seq<char>>, Seq<CpiFieldView>),
    FailureView,
> {
    match scan {
        Ok((lifetime, accounts)) => Ok(
            (crate::text::option_text(lifetime), cpi_fields_view(accounts@)),
        ),
        Err(failure) => Err(failure@),
    }
}

/// Finds the accounts that the fields stand for, and the lifetime that they share.
pub fn scan_fields(fields: &Vec<Field>) -> (out: Result<(Option<String>, Vec<CpiField>), Failure>)
    requires
        all_named(fields@),
    ensures
        scan_view(out) == scanned(fields@, None, Seq::empty()),
{
    let mut lifetime: Option<String> = None;
    let mut accounts: Vec<CpiField> = Vec::new();
    assert(fields@.skip(0) == fields@);
    assert(cpi_fields_view(accounts@) == Seq::<CpiFieldView>::empty());
    for i in 0..fields.len()
        invariant
            all_named(fields@),
            scanned(fields@, None, Seq::empty()) == scanned(
                fields@.skip(i as int),
                crate::text::option_text(lifetime),
                cpi_fields_view(accounts@),
            ),
    {
        let field = &fields[i];
        assert(fields@.skip(i as int).skip(1) == fields@.skip(i + 1));
        assert(fields@.skip(i as int)[0] == *field);
        let reading = match read_field(field) {
            Ok(reading) => reading,
            Err(failure) => return Err(failure),
        };
        if let Some(reading) = reading {
            if let Some(existing) = &lifetime {
                if !same_text(existing.as_str(), reading.lifetime.name.as_str()) {
                    return Err(new_diagnostic(field.ty.span(), LIFETIMES_DIFFER.to_owned()));
                }
            }
            lifetime = Some(reading.lifetime.name.clone());
            let ghost before = cpi_fields_view(accounts@);
            let ghost now = field_reading(*field)->Ok_0->Some_0;
            if reading.kind != CpiFieldKind::Phantom {
                let name = match &field.name {
                    Some(name) => name.text.clone(),
                    None => String::new(),
                };
                if reading.duplicate_readonly {
                    if reading.kind != CpiFieldKind::Readonly && reading.kind
                        != CpiFieldKind::Writable {
                        return Err(
                            new_diagnostic(field.span, DUPLICATE_NEEDS_HANDLE.to_owned()),
                        );
                    }
                    accounts.push(
                        CpiField {
                            name: name.clone(),
                            kind: CpiFieldKind::Readonly,
                            signer: "false".to_owned(),
                        },
                    );
                }
                accounts.push(CpiField { name, kind: reading.kind, signer: reading.signer });
            }
            assert(cpi_fields_view(accounts@) == before + field_accounts(field_name(*field), now));
        }
    }
    Ok((lifetime, accounts))
}

// ---------------------------------------------------------------------------
// The implementation
// ---------------------------------------------------------------------------

/// Adds the metas of nested accounts.
pub const META_NESTED: &'static str = r#"__accounts.extend(anchor_lang::ToCpiAccounts::to_instruction_accounts(&self.@a));"#;

/// Adds the meta of an account.
pub const META_DIRECT: &'static str = r#"__accounts.push(
    anchor_lang::pinocchio::instruction::InstructionAccount::new(
        self.@a.address(),
        @b,
        @c,
    ),
);"#;

/// Adds the meta of an account that may be absent.
pub const META_OPTIONAL: &'static str = r#"match self.@a {
    ::core::option::Option::Some(__account) => {
        __accounts.push(
            anchor_lang::pinocchio::instruction::InstructionAccount::new(
                __account.address(),
                @b,
                @c,
            ),
        );
    }
    ::core::option::Option::None => {
        __accounts.push(
            anchor_lang::pinocchio::instruction::InstructionAccount::readonly(
                &@d,
            ),
        );
    }
}"#;

/// Adds the handles of nested accounts.
pub const HANDLE_NESTED: &'static str = r#"__handles.extend(anchor_lang::ToCpiAccounts::to_cpi_handles(&self.@a));"#;

/// Adds the handle of an account that is read.
pub const HANDLE_READONLY: &'static str = r#"__handles.push(self.@a.into_readonly());"#;

/// Adds the handle of an account that is written.
pub const HANDLE_WRITABLE: &'static str = r#"__handles.push(self.@a.into());"#;

/// Adds the handle of an account that is read and may be absent.
pub const HANDLE_OPTIONAL_READONLY: &'static str = r#"if let ::core::option::Option::Some(__account) = self.@a {
    __handles.push(__account);
}"#;

/// Adds the handle of an account that is written and may be absent.
pub const HANDLE_OPTIONAL_WRITABLE: &'static str = r#"if let ::core::option::Option::Some(__account) = self.@a {
    __handles.push(__account.into());
}"#;

/// Adds the flags of nested accounts.
pub const FLAG_NESTED: &'static str = r#"__flags.extend(
    anchor_lang::ToCpiAccounts::optional_account_sentinel_flags(&self.@a),
);"#;

/// Adds the flag of an account that is always there.
pub const FLAG_DIRECT: &'static str = r#"__flags.push(false);"#;

/// Adds the flag of an account that may be absent.
pub const FLAG_OPTIONAL: &'static str = r#"__flags.push(self.@a.is_none());"#;

/// The implementation for a CPI accounts struct.
pub const TO_CPI_ACCOUNTS: &'static str = r#"impl @a anchor_lang::ToCpiAccounts<@b>
    for @c @d @e
{
    fn to_instruction_accounts(
        &self,
    ) -> anchor_lang::__alloc::vec::Vec<
        anchor_lang::pinocchio::instruction::InstructionAccount<@b>,
    > {
        let mut __accounts = anchor_lang::__alloc::vec::Vec::new();
        @f
        __accounts
    }

    fn to_cpi_handles(
        &self,
    ) -> anchor_lang::__alloc::vec::Vec<anchor_lang::CpiHandle<@b>> {
        let mut __handles = anchor_lang::__alloc::vec::Vec::new();
        @g
        __handles
    }

    fn optional_account_sentinel_flags(&self) -> anchor_lang::__alloc::vec::Vec<bool> {
        let mut __flags = anchor_lang::__alloc::vec::Vec::new();
        @h
        __flags
    }
}"#;

/// Whether an account is written.
pub open spec fn is_writable(kind: CpiFieldKind) -> bool {
    kind == CpiFieldKind::Writable || kind == CpiFieldKind::OptionalWritable
}

/// The statement that adds the meta of an account.
pub open spec fn meta_step(field: CpiFieldView, program_id: Seq<char>) -> Seq<char> {
    match field.kind {
        CpiFieldKind::Phantom => ""@,
        CpiFieldKind::Nested => filled(META_NESTED@, seq![field.name]),
        CpiFieldKind::Readonly | CpiFieldKind::Writable => filled(
            META_DIRECT@,
            seq![field.name, flag(is_writable(field.kind)), field.signer],
        ),
        CpiFieldKind::OptionalReadonly | CpiFieldKind::OptionalWritable => filled(
            META_OPTIONAL@,
            seq![field.name, flag(is_writable(field.kind)), field.signer, program_id],
        ),
    }
}

/// The statement that adds the handle of an account.
pub open spec fn handle_step(field: CpiFieldView) -> Seq<char> {
    match field.kind {
        CpiFieldKind::Phantom => ""@,
        CpiFieldKind::Nested => filled(HANDLE_NESTED@, seq![field.name]),
        CpiFieldKind::Readonly => filled(HANDLE_READONLY@, seq![field.name]),
        CpiFieldKind::Writable => filled(HANDLE_WRITABLE@, seq![field.name]),
        CpiFieldKind::OptionalReadonly => filled(HANDLE_OPTIONAL_READONLY@, seq![field.name]),
        CpiFieldKind::OptionalWritable => filled(HANDLE_OPTIONAL_WRITABLE@, seq![field.name]),
    }
}

/// The statement that adds the flag of an account.
pub open spec fn flag_step(field: CpiFieldView) -> Seq<char> {
    match field.kind {
        CpiFieldKind::Phantom => ""@,
        CpiFieldKind::Nested => filled(FLAG_NESTED@, seq![field.name]),
        CpiFieldKind::Readonly | CpiFieldKind::Writable => FLAG_DIRECT@,
        CpiFieldKind::OptionalReadonly | CpiFieldKind::OptionalWritable => filled(
            FLAG_OPTIONAL@,
            seq![field.name],
        ),
    }
}

/// The implementation of a struct with these accounts.
pub open spec fn cpi_impl(
    input: DeriveInput,
    lifetime: Seq<char>,
    accounts: Seq<CpiFieldView>,
    program_id: Seq<char>,
) -> Seq<char> {
    filled(
        TO_CPI_ACCOUNTS@,
        seq![
            input.impl_generics@,
            lifetime_text(lifetime),
            input.ident.text@,
            input.ty_generics@,
            input.where_clause@,
            concat_all(accounts.map_values(|field: CpiFieldView| meta_step(field, program_id))),
            concat_all(accounts.map_values(|field: CpiFieldView| handle_step(field))),
            concat_all(accounts.map_values(|field: CpiFieldView| flag_step(field))),
        ],
    )
}

/// What deriving `ToCpiAccounts` gives.
pub open spec fn cpi_accounts_code(input: DeriveInput) -> Result<Seq<char>, FailureView> {
    match input.data {
        Data::Struct(Fields::Named(fields)) => match first_program_id(input.attrs@) {
            Err(failure) => Err(failure),
            Ok(program_id) => match scanned(fields@, None, Seq::empty()) {
                Err(failure) => Err(failure),
                Ok((None, _)) => Err(diagnostic(input.span, NO_HANDLE@)),
                Ok((Some(lifetime), accounts)) => Ok(
                    cpi_impl(input, lifetime, accounts, program_id),
                ),
            },
        },
        Data::Struct(_) => Err(diagnostic(input.span, NOT_NAMED@)),
        _ => Err(diagnostic(input.span, "ToCpiAccounts can only be derived for structs"@)),
    }
}

/// Why a struct needs named fields.
pub const NOT_NAMED: &'static str =
    "ToCpiAccounts can only be derived for structs with named fields";

/// Why a struct needs an account.
pub const NO_HANDLE: &'static str =
    "ToCpiAccounts requires at least one CpiHandle or CpiHandleMut field";

spec fn own_view(field: CpiField) -> CpiFieldView {
    CpiFieldView { name: field.name@, kind: field.kind, signer: field.signer@ }
}

fn print_meta_step(field: &CpiField, program_id: &str) -> (out: String)
    ensures
        out@ == meta_step(own_view(*field), program_id@),
{
    let name = field.name.as_str();
    let signer = field.signer.as_str();
    match field.kind {
        CpiFieldKind::Phantom => "".to_owned(),
        CpiFieldKind::Nested => fill1(META_NESTED, name),
        CpiFieldKind::Readonly => fill3(META_DIRECT, name, flag_text(false).as_str(), signer),
        CpiFieldKind::Writable => fill3(META_DIRECT, name, flag_text(true).as_str(), signer),
        CpiFieldKind::OptionalReadonly => fill4(
            META_OPTIONAL,
            name,
            flag_text(false).as_str(),
            signer,
            program_id,
        ),
        CpiFieldKind::OptionalWritable => fill4(
            META_OPTIONAL,
            name,
            flag_text(true).as_str(),
            signer,
            program_id,
        ),
    }
}

fn print_handle_step(field: &CpiField) -> (out: String)
    ensures
        out@ == handle_step(own_view(*field)),
{
    let name = field.name.as_str();
    match field.kind {
        CpiFieldKind::Phantom => "".to_owned(),
        CpiFieldKind::Nested => fill1(HANDLE_NESTED, name),
        CpiFieldKind::Readonly => fill1(HANDLE_READONLY, name),
        CpiFieldKind::Writable => fill1(HANDLE_WRITABLE, name),
        CpiFieldKind::OptionalReadonly => fill1(HANDLE_OPTIONAL_READONLY, name),
        CpiFieldKind::OptionalWritable => fill1(HANDLE_OPTIONAL_WRITABLE, name),
    }
}

fn print_flag_step(field: &CpiField) -> (out: String)
    ensures
        out@ == flag_step(own_view(*field)),
{
    let name = field.name.as_str();
    match field.kind {
        CpiFieldKind::Phantom => "".to_owned(),
        CpiFieldKind::Nested => fill1(FLAG_NESTED, name),
        CpiFieldKind::Readonly => FLAG_DIRECT.to_owned(),
        CpiFieldKind::Writable => FLAG_DIRECT.to_owned(),
        CpiFieldKind::OptionalReadonly => fill1(FLAG_OPTIONAL, name),
        CpiFieldKind::OptionalWritable => fill1(FLAG_OPTIONAL, name),
    }
}

fn print_cpi_impl(
    input: &DeriveInput,
    lifetime: &str,
    accounts: &Vec<CpiField>,
    program_id: &str,
) -> (out: String)
    ensures
        out@ == cpi_impl(*input, lifetime@, cpi_fields_view(accounts@), program_id@),
{
    let metas = map_texts(
        accounts,
        |field: &CpiField| -> (s: String)
            ensures
                s@ == meta_step(own_view(*field), program_id@)
            { print_meta_step(field, program_id) },
        Ghost(|field: CpiField| meta_step(own_view(field), program_id@)),
    );
    let handles = map_texts(
        accounts,
        |field: &CpiField| -> (s: String)
            ensures
                s@ == handle_step(own_view(*field))
            { print_handle_step(field) },
        Ghost(|field: CpiField| handle_step(own_view(field))),
    );
    let flags = map_texts(
        accounts,
        |field: &CpiField| -> (s: String)
            ensures
                s@ == flag_step(own_view(*field))
            { print_flag_step(field) },
        Ghost(|field: CpiField| flag_step(own_view(field))),
    );
    proof {
        let views = cpi_fields_view(accounts@);
        assert(views.map_values(|field: CpiFieldView| meta_step(field, program_id@))
            == accounts@.map_values(|field: CpiField| meta_step(own_view(field), program_id@)));
        assert(views.map_values(|field: CpiFieldView| handle_step(field)) == accounts@.map_values(
            |field: CpiField| handle_step(own_view(field)),
        ));
        assert(views.map_values(|field: CpiFieldView| flag_step(field)) == accounts@.map_values(
            |field: CpiField| flag_step(own_view(field)),
        ));
    }
    fill8(
        TO_CPI_ACCOUNTS,
        input.impl_generics.as_str(),
        "'".to_owned().concat(lifetime).as_str(),
        input.ident.text.as_str(),
        input.ty_generics.as_str(),
        input.where_clause.as_str(),
        concat_strings(&metas).as_str(),
        concat_strings(&handles).as_str(),
        concat_strings(&flags).as_str(),
    )
}

/// Derives `ToCpiAccounts`.
pub fn impl_to_cpi_accounts(input: &DeriveInput) -> (out: Result<String, Failure>)
    requires
        well_named(input.data),
    ensures
        code_view(out) == cpi_accounts_code(*input),
{
    let fields = match &input.data {
        Data::Struct(Fields::Named(fields)) => fields,
        Data::Struct(_) => return Err(new_diagnostic(input.span, NOT_NAMED.to_owned())),
        _ => {
            return Err(
                new_diagnostic(
                    input.span,
                    "ToCpiAccounts can only be derived for structs".to_owned(),
                ),
            );
        },
    };
    let program_id = match accounts_program_id_expr(&input.attrs) {
        Ok(program_id) => program_id,
        Err(failure) => return Err(failure),
    };
    match scan_fields(fields) {
        Err(failure) => Err(failure),
        Ok((None, _)) => Err(new_diagnostic(input.span, NO_HANDLE.to_owned())),
        Ok((Some(lifetime), accounts)) => Ok(
            print_cpi_impl(input, lifetime.as_str(), &accounts, program_id.as_str()),
        ),
    }
}

// ---------------------------------------------------------------------------
// Laws
// ---------------------------------------------------------------------------

/// A field that is not left out and holds a lifetime shares it with all others: where
/// the fields can be scanned, every field that says a lifetime says the shared one.
pub proof fn lemma_one_lifetime(
    fields: Seq<Field>,
    lifetime: Option<Seq<char>>,
    accounts: Seq<CpiFieldView>,
    i: int,
)
    requires
        scanned(fields, lifetime, accounts) is Ok,
        0 <= i < fields.len(),
        field_reading(fields[i]) matches Ok(Some(_)),
    ensures
        scanned(fields, lifetime, accounts)->Ok_0.0 == Some(
            field_reading(fields[i])->Ok_0->Some_0.lifetime,
        ),
    decreases fields.len(),
{
    match field_reading(fields[0]) {
        Ok(Some(reading)) => {
            let next = accounts + field_accounts(field_name(fields[0]), reading);
            if i > 0 {
                assert(fields.skip(1)[i - 1] == fields[i]);
                lemma_one_lifetime(fields.skip(1), Some(reading.lifetime), next, i - 1);
            } else {
                lemma_lifetime_stays(fields.skip(1), reading.lifetime, next);
            }
        },
        _ => {
            assert(fields.skip(1)[i - 1] == fields[i]);
            lemma_one_lifetime(fields.skip(1), lifetime, accounts, i - 1);
        },
    }
}

proof fn lemma_lifetime_stays(
    fields: Seq<Field>,
    lifetime: Seq<char>,
    accounts: Seq<CpiFieldView>,
)
    requires
        scanned(fields, Some(lifetime), accounts) is Ok,
    ensures
        scanned(fields, Some(lifetime), accounts)->Ok_0.0 == Some(lifetime),
    decreases fields.len(),
{
    if fields.len() > 0 {
        match field_reading(fields[0]) {
            Ok(Some(reading)) => {
                lemma_lifetime_stays(
                    fields.skip(1),
                    lifetime,
                    accounts + field_accounts(field_name(fields[0]), reading),
                );
            },
            _ => {
                lemma_lifetime_stays(fields.skip(1), lifetime, accounts);
            },
        }
    }
}

} // verus!
