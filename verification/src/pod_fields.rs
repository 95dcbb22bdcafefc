//! Fields that are copied byte by byte: which types cannot be, and the checks that
//! the generated code makes.

use crate::attrs::{cfg_attrs, cfg_text};
use crate::cpi_accounts::last_segment;
use crate::items::{Field, Fields, Variant};
use crate::syntax::{print_type, type_text, Type};
use crate::template::{fill2, fill3, filled};
use crate::text::{concat_all, concat_strings, map_texts, option_text, same_text};
use vstd::prelude::*;

verus! {

/// Why an account cannot hold a vector.
pub const ACCOUNT_VEC: &'static str = "field `@a` on `#[account] struct @b` uses `Vec`, which allocates on the heap and isn't Pod. Zero-copy accounts need fixed-size fields. Use `[T; N]` for a bounded array, or restructure `@b` as `Slab<Header, T>` if you need a dynamic tail.";

/// Why an account cannot hold a string.
pub const ACCOUNT_STRING: &'static str = "field `@a` on `#[account] struct @b` uses `String`, which allocates on the heap and isn't Pod. Use a fixed-size `[u8; N]` buffer to store string data in a zero-copy account.";

/// Why an account cannot hold an option.
pub const ACCOUNT_OPTION: &'static str = r#"field `@a` on `#[account] struct @b` uses `Option`, which carries a discriminant byte that breaks the zero-copy layout contract. Use a sentinel value (e.g. an all-zero `[u8; 32]` for "no address") or a `PodBool` flag stored alongside the value."#;

/// Why an account cannot hold a pointer.
pub const ACCOUNT_POINTER: &'static str = "field `@a` on `#[account] struct @b` uses `@c`, which heap-allocates and isn't valid in a zero-copy account. Store the inner type directly.";

/// Why an account cannot hold a truth value.
pub const ACCOUNT_BOOL: &'static str = "field `@a` on `#[account] struct @b` uses `bool`. `bytemuck` disallows `bool` as Pod because only `0x00` and `0x01` are valid bit-patterns (any other byte read as `bool` is UB). Use `anchor_lang::PodBool` instead.";

/// Why an event cannot hold a vector.
pub const EVENT_VEC: &'static str = "event field `@a` uses `Vec`, which is a fat pointer — the `#[event(bytemuck)]` memcpy path would emit the `(ptr, len, cap)` bits instead of the elements. Use `[T; N]` for a fixed-size array, or drop the `bytemuck` attribute to use the default wincode encoding, which handles `Vec` natively.";

/// Why an event cannot hold a string.
pub const EVENT_STRING: &'static str = "event field `@a` uses `String`, which is a fat pointer — the `#[event(bytemuck)]` memcpy path would emit the `(ptr, len, cap)` bits instead of the UTF-8 bytes. Use `[u8; N]` for a bounded buffer, or drop the `bytemuck` attribute to use the default wincode encoding, which handles `String` natively.";

/// Why an event cannot hold an option.
pub const EVENT_OPTION: &'static str = r#"event field `@a` uses `Option`, whose niche-or-tag layout isn't guaranteed to match the client decoder. Use a sentinel value (e.g. an all-zero `[u8; 32]` for "no address"), or drop the `bytemuck` attribute to use the default wincode encoding."#;

/// Why an event cannot hold a pointer.
pub const EVENT_POINTER: &'static str = "event field `@a` uses `@c`, which is a heap/shared pointer — its bytes are a pointer, not the referenced data. Inline the value directly (`T` instead of `@c<T>`), or drop the `bytemuck` attribute to use the default wincode encoding.";

/// Why an event cannot hold a collection.
pub const EVENT_COLLECTION: &'static str = "event field `@a` uses `@c`, which allocates on the heap. Drop the `bytemuck` attribute to use the default wincode encoding, which handles dynamic collections.";

/// Why an event cannot hold a truth value.
pub const EVENT_BOOL: &'static str = "event field `@a` is `bool`. `bytemuck` disallows `bool` as Pod because only `0x00` and `0x01` are valid — any other byte is UB. Use a `u8` and treat `0` / non-zero as the boolean, or drop the `bytemuck` attribute to use the default wincode encoding.";

/// The last name in the path of a type.
pub open spec fn type_ident(ty: Type) -> Option<Seq<char>> {
    match last_segment(ty) {
        Some(segment) => Some(segment.ident.text@),
        None => None,
    }
}

fn find_type_ident(ty: &Type) -> (out: Option<&str>)
    ensures
        (match out {
            Some(name) => Some(name@),
            None => None,
        }) == type_ident(*ty),
{
    match ty {
        Type::Path(path) => {
            let segments = &path.path.segments;
            if segments.len() == 0 {
                None
            } else {
                Some(segments[segments.len() - 1].ident.text.as_str())
            }
        },
        _ => None,
    }
}

/// What is said of a field of an account that cannot be copied byte by byte, judged
/// by the name of its type.
pub open spec fn account_field_message(ty: Type, field: Seq<char>, owner: Seq<char>) -> Option<
    Seq<char>,
> {
    match type_ident(ty) {
        None => None,
        Some(name) => {
            let parts = seq![field, owner, name];
            if name == "Vec"@ {
                Some(filled(ACCOUNT_VEC@, parts))
            } else if name == "String"@ {
                Some(filled(ACCOUNT_STRING@, parts))
            } else if name == "Option"@ {
                Some(filled(ACCOUNT_OPTION@, parts))
            } else if name == "Box"@ || name == "Rc"@ || name == "Arc"@ {
                Some(filled(ACCOUNT_POINTER@, parts))
            } else if name == "bool"@ {
                Some(filled(ACCOUNT_BOOL@, parts))
            } else {
                None
            }
        },
    }
}

/// Says what is wrong with a field of an account that cannot be copied byte by byte.
pub fn diagnose_non_pod_field(ty: &Type, field_name: &str, struct_name: &str) -> (out: Option<
    String,
>)
    ensures
        option_text(out) == account_field_message(*ty, field_name@, struct_name@),
{
    let name = match find_type_ident(ty) {
        Some(name) => name,
        None => return None,
    };
    let template = if same_text(name, "Vec") {
        ACCOUNT_VEC
    } else if same_text(name, "String") {
        ACCOUNT_STRING
    } else if same_text(name, "Option") {
        ACCOUNT_OPTION
    } else if same_text(name, "Box") || same_text(name, "Rc") || same_text(name, "Arc") {
        ACCOUNT_POINTER
    } else if same_text(name, "bool") {
        ACCOUNT_BOOL
    } else {
        return None;
    };
    Some(fill3(template, field_name, struct_name, name))
}

/// Whether a type is a pointer, by its name.
pub open spec fn is_pointer(name: Seq<char>) -> bool {
    name == "Box"@ || name == "Rc"@ || name == "Arc"@ || name == "Cow"@ || name == "Weak"@
}

/// Whether a type is a collection, by its name.
pub open spec fn is_collection(name: Seq<char>) -> bool {
    name == "HashMap"@ || name == "HashSet"@ || name == "BTreeMap"@ || name == "BTreeSet"@ || name
        == "BinaryHeap"@ || name == "LinkedList"@ || name == "VecDeque"@
}

/// What is said of a field of an event that cannot be copied byte by byte, judged by
/// the name of its type.
pub open spec fn event_field_message(ty: Type, field: Seq<char>) -> Option<Seq<char>> {
    match type_ident(ty) {
        None => None,
        Some(name) => {
            let parts = seq![field, ""@, name];
            if name == "Vec"@ {
                Some(filled(EVENT_VEC@, parts))
            } else if name == "String"@ {
                Some(filled(EVENT_STRING@, parts))
            } else if name == "Option"@ {
                Some(filled(EVENT_OPTION@, parts))
            } else if is_pointer(name) {
                Some(filled(EVENT_POINTER@, parts))
            } else if is_collection(name) {
                Some(filled(EVENT_COLLECTION@, parts))
            } else if name == "bool"@ {
                Some(filled(EVENT_BOOL@, parts))
            } else {
                None
            }
        },
    }
}

/// Says what is wrong with a field of an event that cannot be copied byte by byte.
pub fn diagnose_non_pod_event_field(ty: &Type, field_name: &str) -> (out: Option<String>)
    ensures
        option_text(out) == event_field_message(*ty, field_name@),
{
    let name = match find_type_ident(ty) {
        Some(name) => name,
        None => return None,
    };
    let template = if same_text(name, "Vec") {
        EVENT_VEC
    } else if same_text(name, "String") {
        EVENT_STRING
    } else if same_text(name, "Option") {
        EVENT_OPTION
    } else if same_text(name, "Box") || same_text(name, "Rc") || same_text(name, "Arc")
        || same_text(name, "Cow") || same_text(name, "Weak") {
        EVENT_POINTER
    } else if same_text(name, "HashMap") || same_text(name, "HashSet") || same_text(
        name,
        "BTreeMap",
    ) || same_text(name, "BTreeSet") || same_text(name, "BinaryHeap") || same_text(
        name,
        "LinkedList",
    ) || same_text(name, "VecDeque") {
        EVENT_COLLECTION
    } else if same_text(name, "bool") {
        EVENT_BOOL
    } else {
        return None;
    };
    Some(fill3(template, field_name, "", name))
}

// ---------------------------------------------------------------------------
// Fields of a struct
// ---------------------------------------------------------------------------

/// The fields of a struct, in order.
pub open spec fn fields_of(fields: Fields) -> Seq<Field> {
    match fields {
        Fields::Named(list) => list@,
        Fields::Unnamed(list) => list@,
        Fields::Unit => Seq::empty(),
    }
}

/// The fields of a struct that have names, in order.
pub open spec fn named_fields_of(fields: Fields) -> Seq<Field> {
    match fields {
        Fields::Named(list) => list@,
        _ => Seq::empty(),
    }
}

/// The fields of a struct, or the given empty list.
pub fn list_fields<'a>(fields: &'a Fields, none: &'a Vec<Field>) -> (out: &'a Vec<Field>)
    requires
        none@.len() == 0,
    ensures
        out@ == fields_of(*fields),
{
    match fields {
        Fields::Named(list) => list,
        Fields::Unnamed(list) => list,
        Fields::Unit => {
            assert(none@ == Seq::<Field>::empty());
            none
        },
    }
}

/// The fields of a struct that have names, or the given empty list.
pub fn list_named_fields<'a>(fields: &'a Fields, none: &'a Vec<Field>) -> (out: &'a Vec<Field>)
    requires
        none@.len() == 0,
    ensures
        out@ == named_fields_of(*fields),
{
    match fields {
        Fields::Named(list) => list,
        _ => {
            assert(none@ == Seq::<Field>::empty());
            none
        },
    }
}

/// Checks that a field can be copied byte by byte.
pub const POD_ASSERT: &'static str = r#"@a
const _: fn() = || {
    fn assert_pod<T: anchor_lang::bytemuck::Pod>() {}
    assert_pod::<@b>();
};"#;

/// Adds the size of a field.
pub const SIZE_STEP: &'static str = r#"@a
{
    __size += @c::mem::size_of::<@b>();
}"#;

/// Registers what a field depends on.
pub const DEP_WALKER: &'static str = r#"@a
<@b as anchor_lang::IdlAccountType>::__register_idl_deps(accounts, types);"#;

/// Registers what the fields of a variant depend on.
pub const VARIANT_WALKER: &'static str = r#"@a
{
    @b
}"#;

/// The checks that the fields can be copied byte by byte.
pub open spec fn pod_asserts(fields: Seq<Field>) -> Seq<char> {
    concat_all(
        fields.map_values(
            |field: Field|
                filled(POD_ASSERT@, seq![cfg_text(field.attrs@), type_text(field.ty, None)]) + "\n"@,
        ),
    )
}

/// The checks that the fields can be copied byte by byte.
pub fn print_pod_asserts(fields: &Vec<Field>) -> (out: String)
    ensures
        out@ == pod_asserts(fields@),
{
    let parts = map_texts(
        fields,
        |field: &Field| -> (s: String)
            ensures
                s@ == filled(POD_ASSERT@, seq![cfg_text(field.attrs@), type_text(field.ty, None)]) + "\n"@
            {
                fill2(POD_ASSERT, cfg_attrs(&field.attrs).as_str(), print_type(&field.ty).as_str()).concat("\n")
            },
        Ghost(
            |field: Field|
                filled(POD_ASSERT@, seq![cfg_text(field.attrs@), type_text(field.ty, None)]) + "\n"@,
        ),
    );
    concat_strings(&parts)
}

/// The statements that add up the sizes of the fields.
pub open spec fn size_steps(fields: Seq<Field>, core: Seq<char>) -> Seq<char> {
    concat_all(
        fields.map_values(
            |field: Field|
                filled(SIZE_STEP@, seq![cfg_text(field.attrs@), type_text(field.ty, None), core]) + "\n"@,
        ),
    )
}

/// The statements that add up the sizes of the fields.
pub fn print_size_steps(fields: &Vec<Field>, core: &str) -> (out: String)
    ensures
        out@ == size_steps(fields@, core@),
{
    let parts = map_texts(
        fields,
        |field: &Field| -> (s: String)
            ensures
                s@ == filled(SIZE_STEP@, seq![cfg_text(field.attrs@), type_text(field.ty, None), core@]) + "\n"@
            {
                fill3(SIZE_STEP, cfg_attrs(&field.attrs).as_str(), print_type(&field.ty).as_str(), core).concat("\n")
            },
        Ghost(
            |field: Field|
                filled(SIZE_STEP@, seq![cfg_text(field.attrs@), type_text(field.ty, None), core@]) + "\n"@,
        ),
    );
    concat_strings(&parts)
}

/// The statements that register what the fields depend on.
pub open spec fn dep_walkers(fields: Seq<Field>) -> Seq<char> {
    concat_all(
        fields.map_values(
            |field: Field|
                filled(DEP_WALKER@, seq![cfg_text(field.attrs@), type_text(field.ty, None)]) + "\n"@,
        ),
    )
}

/// The statements that register what the fields depend on.
pub fn cfg_field_dep_walkers(fields: &Vec<Field>) -> (out: String)
    ensures
        out@ == dep_walkers(fields@),
{
    let parts = map_texts(
        fields,
        |field: &Field| -> (s: String)
            ensures
                s@ == filled(DEP_WALKER@, seq![cfg_text(field.attrs@), type_text(field.ty, None)]) + "\n"@
            {
                fill2(DEP_WALKER, cfg_attrs(&field.attrs).as_str(), print_type(&field.ty).as_str()).concat("\n")
            },
        Ghost(
            |field: Field|
                filled(DEP_WALKER@, seq![cfg_text(field.attrs@), type_text(field.ty, None)]) + "\n"@,
        ),
    );
    concat_strings(&parts)
}

/// The statements that register what the fields of variants depend on.
pub open spec fn variant_walkers(variants: Seq<Variant>) -> Seq<char> {
    concat_all(
        variants.map_values(
            |variant: Variant|
                filled(
                    VARIANT_WALKER@,
                    seq![cfg_text(variant.attrs@), dep_walkers(variant.fields@)],
                ) + "\n"@,
        ),
    )
}

/// The statements that register what the fields of variants depend on.
pub fn cfg_variant_dep_walkers(variants: &Vec<Variant>) -> (out: String)
    ensures
        out@ == variant_walkers(variants@),
{
    let parts = map_texts(
        variants,
        |variant: &Variant| -> (s: String)
            ensures
                s@ == filled(
                    VARIANT_WALKER@,
                    seq![cfg_text(variant.attrs@), dep_walkers(variant.fields@)],
                ) + "\n"@
            {
                fill2(
                    VARIANT_WALKER,
                    cfg_attrs(&variant.attrs).as_str(),
                    cfg_field_dep_walkers(&variant.fields).as_str(),
                ).concat("\n")
            },
        Ghost(
            |variant: Variant|
                filled(
                    VARIANT_WALKER@,
                    seq![cfg_text(variant.attrs@), dep_walkers(variant.fields@)],
                ) + "\n"@,
        ),
    );
    concat_strings(&parts)
}

} // verus!
