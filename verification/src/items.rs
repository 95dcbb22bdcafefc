//! Structs and enums as the macros see them.

use crate::attrs::Attribute;
use crate::failure::Span;
use crate::syntax::{Ident, Type};
use vstd::prelude::*;

verus! {

/// A field. A field of a tuple has no name. `vis` is its visibility, as text.
pub struct Field {
    pub attrs: Vec<Attribute>,
    pub vis: String,
    pub name: Option<Ident>,
    pub ty: Type,
    pub span: Span,
}

/// A variant of an enum.
pub struct Variant {
    pub attrs: Vec<Attribute>,
    pub fields: Vec<Field>,
}

/// The fields of a struct.
pub enum Fields {
    Named(Vec<Field>),
    Unnamed(Vec<Field>),
    Unit,
}

/// What a derive macro is given: a struct, or something else.
pub enum Data {
    Struct(Fields),
    Enum(Vec<Variant>),
    Union,
}

/// The input of a derive macro. The generics are given as text: as an impl declares
/// them, as the type takes them, and the `where` clause. `fields_text` is the fields
/// of a struct with their brackets, as text.
pub struct DeriveInput {
    pub attrs: Vec<Attribute>,
    pub vis: String,
    pub ident: Ident,
    pub impl_generics: String,
    pub ty_generics: String,
    pub where_clause: String,
    pub data: Data,
    pub fields_text: String,
    pub span: Span,
}

/// Whether each field has a name.
pub open spec fn all_named(fields: Seq<Field>) -> bool {
    forall|i: int| 0 <= i < fields.len() ==> (#[trigger] fields[i]).name is Some
}

/// Whether the fields that are said to be named have names.
pub open spec fn well_named(data: Data) -> bool {
    data matches Data::Struct(Fields::Named(fields)) ==> all_named(fields@)
}

/// The name of a field.
pub open spec fn field_name(field: Field) -> Seq<char> {
    field.name->Some_0.text@
}

} // verus!
