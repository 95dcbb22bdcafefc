//! What the definition of a type in an interface description consists of: its layout,
//! its serialisation, its generics and its fields.

use crate::declared_types::{declare_idl_type_to_tokens, idl_type};
use crate::failure::{
    collected, diagnostic, lemma_collected_prefix, new_diagnostic, Failure, FailureView, Span,
};
use crate::json::{flag_at, json_str, member_of, number_of, required_text, text_at, Json};
use crate::names::{item_name, new_ident, snake_case, to_snake_case};
use crate::outside::{read_type, type_reading};
use crate::text::{
    decimal, decimal_text, filter_map_texts, join_strings, joined, map_texts, option_text,
    same_text, some_texts, texts,
};
use vstd::prelude::*;

verus! {

// ---------------------------------------------------------------------------
// Serialisation
// ---------------------------------------------------------------------------

/// How the values of a type are turned into bytes.
#[derive(Clone, Copy, Debug, PartialEq, Eq, Structural)]
pub enum DeclareTypeSerialization {
    Borsh,
    Bytemuck,
    BytemuckUnsafe,
}

impl DeclareTypeSerialization {
    /// Whether the bytes of a value are the value.
    pub fn is_bytemuck(self) -> (found: bool)
        ensures
            found == !(self is Borsh),
    {
        match self {
            DeclareTypeSerialization::Bytemuck | DeclareTypeSerialization::BytemuckUnsafe => true,
            DeclareTypeSerialization::Borsh => false,
        }
    }
}

/// The serialisation that a definition names; Borsh where it names none.
pub open spec fn serialization_of(ty_def: Json, span: Span) -> Result<
    DeclareTypeSerialization,
    FailureView,
> {
    match text_at(ty_def, "serialization"@) {
        None => Ok(DeclareTypeSerialization::Borsh),
        Some(name) => if name == "borsh"@ {
            Ok(DeclareTypeSerialization::Borsh)
        } else if name == "bytemuck"@ {
            Ok(DeclareTypeSerialization::Bytemuck)
        } else if name == "bytemuckunsafe"@ || name == "bytemuckUnsafe"@ {
            Ok(DeclareTypeSerialization::BytemuckUnsafe)
        } else {
            Err(diagnostic(span, "unsupported IDL type serialization `"@ + name + "`"@))
        },
    }
}

/// The serialisation or the failure, with its text as a sequence of characters.
pub open spec fn serialization_view(
    result: Result<DeclareTypeSerialization, Failure>,
) -> Result<DeclareTypeSerialization, FailureView> {
    match result {
        Ok(serialization) => Ok(serialization),
        Err(failure) => Err(failure@),
    }
}

/// Reads the serialisation that a definition names.
pub fn declare_type_serialization(ty_def: &Json, span: Span) -> (out: Result<
    DeclareTypeSerialization,
    Failure,
>)
    ensures
        serialization_view(out) == serialization_of(*ty_def, span),
{
    match ty_def.text_at("serialization") {
        None => Ok(DeclareTypeSerialization::Borsh),
        Some(name) => if same_text(name, "borsh") {
            Ok(DeclareTypeSerialization::Borsh)
        } else if same_text(name, "bytemuck") {
            Ok(DeclareTypeSerialization::Bytemuck)
        } else if same_text(name, "bytemuckunsafe") || same_text(name, "bytemuckUnsafe") {
            Ok(DeclareTypeSerialization::BytemuckUnsafe)
        } else {
            Err(
                new_diagnostic(
                    span,
                    "unsupported IDL type serialization `".to_owned().concat(name).concat("`"),
                ),
            )
        },
    }
}

// ---------------------------------------------------------------------------
// Layout
// ---------------------------------------------------------------------------

/// The word for a kind of layout.
pub open spec fn repr_kind(kind: Seq<char>) -> Option<Seq<char>> {
    if kind == "rust"@ {
        Some("Rust"@)
    } else if kind == "c"@ {
        Some("C"@)
    } else if kind == "transparent"@ {
        Some("transparent"@)
    } else {
        None
    }
}

/// What stands behind the kind of a layout.
pub open spec fn repr_modifier(repr: Json, kind: Seq<char>) -> Seq<char> {
    if kind == "transparent"@ {
        ""@
    } else {
        let packed = if flag_at(repr, "packed"@) {
            ", packed"@
        } else {
            ""@
        };
        let align = match member_of(repr, "align"@) {
            Some(value) => match number_of(value) {
                Some(n) => ", align("@ + decimal((n as usize) as nat) + ")"@,
                None => ""@,
            },
            None => ""@,
        };
        packed + align
    }
}

/// The layout of a type as an attribute.
pub open spec fn repr_attr(ty_def: Json, span: Span) -> Result<Option<Seq<char>>, FailureView> {
    match member_of(ty_def, "repr"@) {
        None => Ok(None),
        Some(repr) => match required_text(repr, "kind"@, span) {
            Err(failure) => Err(failure),
            Ok(kind) => match repr_kind(kind) {
                None => Err(diagnostic(span, "unsupported IDL repr kind `"@ + kind + "`"@)),
                Some(word) => Ok(
                    Some("#[repr("@ + word + repr_modifier(repr, kind) + ")]"@),
                ),
            },
        },
    }
}

/// The layout, its absence or the failure, as sequences of characters.
pub open spec fn repr_view(result: Result<Option<String>, Failure>) -> Result<
    Option<Seq<char>>,
    FailureView,
> {
    match result {
        Ok(repr) => Ok(option_text(repr)),
        Err(failure) => Err(failure@),
    }
}

fn print_repr_modifier(repr: &Json, kind: &str) -> (out: String)
    ensures
        out@ == repr_modifier(*repr, kind@),
{
    if same_text(kind, "transparent") {
        return "".to_owned();
    }
    let packed = if repr.flag_at("packed") {
        ", packed".to_owned()
    } else {
        "".to_owned()
    };
    let align = match repr.get("align") {
        Some(value) => match value.as_u64() {
            Some(n) => ", align(".to_owned().concat(
                decimal_text((n as usize) as u64).as_str(),
            ).concat(")"),
            None => "".to_owned(),
        },
        None => "".to_owned(),
    };
    packed.concat(align.as_str())
}

/// Writes the layout of a type as an attribute.
pub fn gen_declare_program_repr(ty_def: &Json, span: Span) -> (out: Result<
    Option<String>,
    Failure,
>)
    ensures
        repr_view(out) == repr_attr(*ty_def, span),
{
    let repr = match ty_def.get("repr") {
        None => return Ok(None),
        Some(repr) => repr,
    };
    let kind = match json_str(repr, "kind", span) {
        Err(failure) => return Err(failure),
        Ok(kind) => kind,
    };
    let word = if same_text(kind, "rust") {
        "Rust"
    } else if same_text(kind, "c") {
        "C"
    } else if same_text(kind, "transparent") {
        "transparent"
    } else {
        return Err(
            new_diagnostic(
                span,
                "unsupported IDL repr kind `".to_owned().concat(kind).concat("`"),
            ),
        );
    };
    Ok(
        Some(
            "#[repr(".to_owned().concat(word).concat(
                print_repr_modifier(repr, kind).as_str(),
            ).concat(")]"),
        ),
    )
}

// ---------------------------------------------------------------------------
// Generics
// ---------------------------------------------------------------------------

/// A generic parameter: its name, how it is declared, and whether it is a type.
pub struct GenericParam {
    pub name: String,
    pub declaration: String,
    pub is_type: bool,
}

/// A generic parameter, as sequences of characters.
pub struct ParamView {
    pub name: Seq<char>,
    pub declaration: Seq<char>,
    pub is_type: bool,
}

impl View for GenericParam {
    type V = ParamView;

    open spec fn view(&self) -> ParamView {
        ParamView { name: self.name@, declaration: self.declaration@, is_type: self.is_type }
    }
}

/// Parameters, as sequences of characters.
pub open spec fn params_view(params: Seq<GenericParam>) -> Seq<ParamView> {
    params.map_values(|param: GenericParam| param@)
}

/// A generic parameter that an entry describes.
pub open spec fn generic_param(generic: Json, span: Span) -> Result<ParamView, FailureView> {
    match required_text(generic, "name"@, span) {
        Err(failure) => Err(failure),
        Ok(name) => match item_name(name) {
            Err(failure) => Err(failure),
            Ok(ident) => match required_text(generic, "kind"@, span) {
                Err(failure) => Err(failure),
                Ok(kind) => if kind == "type"@ {
                    Ok(ParamView { name: ident, declaration: ident, is_type: true })
                } else if kind == "const"@ {
                    match required_text(generic, "type"@, span) {
                        Err(failure) => Err(failure),
                        Ok(ty) => match type_reading(ty) {
                            Err(unread) => Err(
                                diagnostic(
                                    span,
                                    "failed to parse const generic `"@ + name + "` type `"@ + ty
                                        + "`: "@ + unread.message,
                                ),
                            ),
                            Ok(tokens) => Ok(
                                ParamView {
                                    name: ident,
                                    declaration: "const "@ + ident + ": "@ + tokens,
                                    is_type: false,
                                },
                            ),
                        },
                    }
                } else {
                    Err(diagnostic(span, "unsupported IDL type generic kind `"@ + kind + "`"@))
                },
            },
        },
    }
}

/// The generics of a type, as text: on an `impl`, behind the name of the type, and
/// what they must satisfy.
pub struct DeclareTypeGenerics {
    pub impl_generics: String,
    pub ty_generics: String,
    pub idl_where_clause: String,
    pub pod_where_clause: String,
}

/// The generics of a type, as sequences of characters.
pub struct GenericsView {
    pub impl_generics: Seq<char>,
    pub ty_generics: Seq<char>,
    pub idl_where_clause: Seq<char>,
    pub pod_where_clause: Seq<char>,
}

impl View for DeclareTypeGenerics {
    type V = GenericsView;

    open spec fn view(&self) -> GenericsView {
        GenericsView {
            impl_generics: self.impl_generics@,
            ty_generics: self.ty_generics@,
            idl_where_clause: self.idl_where_clause@,
            pod_where_clause: self.pod_where_clause@,
        }
    }
}

/// Bounds on the parameters that are types, with `where` before them; nothing where
/// there are none.
pub open spec fn where_text(params: Seq<ParamView>, bound: Seq<char>) -> Seq<char> {
    let bounds = some_texts(
        params.map_values(
            |param: ParamView|
                if param.is_type {
                    Some(param.name + bound)
                } else {
                    None
                },
        ),
    );
    if bounds.len() == 0 {
        ""@
    } else {
        "where "@ + joined(bounds, ", "@)
    }
}

/// What a type parameter must satisfy for its type to describe itself.
pub const IDL_BOUND: &'static str = ": anchor_lang::IdlAccountType";

/// What a type parameter must satisfy for the bytes of its type to be the value.
pub const POD_BOUND: &'static str =
    ": anchor_lang::bytemuck::Pod + anchor_lang::bytemuck::Zeroable";

/// The generics with the given parameters.
pub open spec fn generics_with(params: Seq<ParamView>) -> GenericsView {
    GenericsView {
        impl_generics: "<"@ + joined(
            params.map_values(|param: ParamView| param.declaration),
            ", "@,
        ) + ">"@,
        ty_generics: "<"@ + joined(params.map_values(|param: ParamView| param.name), ", "@) + ">"@,
        idl_where_clause: where_text(params, IDL_BOUND@),
        pod_where_clause: where_text(params, POD_BOUND@),
    }
}

/// The generics of a type.
pub open spec fn generics_of(ty_def: Json, span: Span) -> Result<GenericsView, FailureView> {
    match crate::json::array_at(ty_def, "generics"@) {
        None => Ok(
            GenericsView {
                impl_generics: ""@,
                ty_generics: ""@,
                idl_where_clause: ""@,
                pod_where_clause: ""@,
            },
        ),
        Some(list) => match collected(
            list.map_values(|generic: Json| generic_param(generic, span)),
        ) {
            Err(failure) => Err(failure),
            Ok(params) => Ok(generics_with(params)),
        },
    }
}

/// The generics or the failure, as sequences of characters.
pub open spec fn generics_view(result: Result<DeclareTypeGenerics, Failure>) -> Result<
    GenericsView,
    FailureView,
> {
    match result {
        Ok(generics) => Ok(generics@),
        Err(failure) => Err(failure@),
    }
}

/// The parameter or the failure, as sequences of characters.
pub open spec fn param_view(result: Result<GenericParam, Failure>) -> Result<
    ParamView,
    FailureView,
> {
    match result {
        Ok(param) => Ok(param@),
        Err(failure) => Err(failure@),
    }
}

fn read_generic_param(generic: &Json, span: Span) -> (out: Result<GenericParam, Failure>)
    ensures
        param_view(out) == generic_param(*generic, span),
{
    let name = match json_str(generic, "name", span) {
        Err(failure) => return Err(failure),
        Ok(name) => name,
    };
    let ident = match new_ident(name.to_owned()) {
        Err(failure) => return Err(failure),
        Ok(ident) => ident,
    };
    let kind = match json_str(generic, "kind", span) {
        Err(failure) => return Err(failure),
        Ok(kind) => kind,
    };
    if same_text(kind, "type") {
        let declaration = ident.clone();
        return Ok(GenericParam { name: ident, declaration, is_type: true });
    }
    if same_text(kind, "const") {
        let ty = match json_str(generic, "type", span) {
            Err(failure) => return Err(failure),
            Ok(ty) => ty,
        };
        return match read_type(ty) {
            Err(unread) => Err(
                new_diagnostic(
                    span,
                    "failed to parse const generic `".to_owned().concat(name).concat(
                        "` type `",
                    ).concat(ty).concat("`: ").concat(unread.message.as_str()),
                ),
            ),
            Ok(tokens) => {
                let declaration = "const ".to_owned().concat(ident.as_str()).concat(": ").concat(
                    tokens.as_str(),
                );
                Ok(GenericParam { name: ident, declaration, is_type: false })
            },
        };
    }
    Err(
        new_diagnostic(
            span,
            "unsupported IDL type generic kind `".to_owned().concat(kind).concat("`"),
        ),
    )
}

fn print_where(params: &Vec<GenericParam>, bound: &str) -> (out: String)
    ensures
        out@ == where_text(params_view(params@), bound@),
{
    let ghost bounds = params_view(params@).map_values(
        |param: ParamView|
            if param.is_type {
                Some(param.name + bound@)
            } else {
                None
            },
    );
    let list = filter_map_texts(
        params,
        |param: &GenericParam| -> (s: Option<String>)
            ensures
                option_text(s) == (if param.is_type {
                    Some(param.name@ + bound@)
                } else {
                    None
                })
            {
                if param.is_type {
                    Some(param.name.clone().concat(bound))
                } else {
                    None
                }
            },
        Ghost(
            |param: GenericParam|
                if param.is_type {
                    Some(param.name@ + bound@)
                } else {
                    None
                },
        ),
    );
    assert(params@.map_values(
        |param: GenericParam|
            if param.is_type {
                Some(param.name@ + bound@)
            } else {
                None
            },
    ) =~= bounds);
    if list.len() == 0 {
        "".to_owned()
    } else {
        "where ".to_owned().concat(join_strings(&list, ", ").as_str())
    }
}

fn make_generics(params: &Vec<GenericParam>) -> (out: DeclareTypeGenerics)
    ensures
        out@ == generics_with(params_view(params@)),
{
    let declarations = map_texts(
        params,
        |param: &GenericParam| -> (s: String)
            ensures
                s@ == param.declaration@
            { param.declaration.clone() },
        Ghost(|param: GenericParam| param.declaration@),
    );
    assert(texts(declarations@) =~= params_view(params@).map_values(
        |param: ParamView| param.declaration,
    ));
    let names = map_texts(
        params,
        |param: &GenericParam| -> (s: String)
            ensures
                s@ == param.name@
            { param.name.clone() },
        Ghost(|param: GenericParam| param.name@),
    );
    assert(texts(names@) =~= params_view(params@).map_values(|param: ParamView| param.name));
    DeclareTypeGenerics {
        impl_generics: "<".to_owned().concat(join_strings(&declarations, ", ").as_str()).concat(
            ">",
        ),
        ty_generics: "<".to_owned().concat(join_strings(&names, ", ").as_str()).concat(">"),
        idl_where_clause: print_where(params, IDL_BOUND),
        pod_where_clause: print_where(params, POD_BOUND),
    }
}

/// Writes the generics of a type.
pub fn gen_declare_program_type_generics(ty_def: &Json, span: Span) -> (out: Result<
    DeclareTypeGenerics,
    Failure,
>)
    ensures
        generics_view(out) == generics_of(*ty_def, span),
{
    let list = match ty_def.array_at("generics") {
        None => return Ok(
            DeclareTypeGenerics {
                impl_generics: "".to_owned(),
                ty_generics: "".to_owned(),
                idl_where_clause: "".to_owned(),
                pod_where_clause: "".to_owned(),
            },
        ),
        Some(list) => list,
    };
    let ghost results = list@.map_values(|generic: Json| generic_param(generic, span));
    let mut params: Vec<GenericParam> = Vec::new();
    assert(params_view(params@) == Seq::<ParamView>::empty());
    for i in 0..list.len()
        invariant
            results == list@.map_values(|generic: Json| generic_param(generic, span)),
            array_is(*ty_def, list@),
            collected(results.take(i as int)) == Ok::<Seq<ParamView>, FailureView>(
                params_view(params@),
            ),
    {
        assert(results.take(i + 1).drop_last() == results.take(i as int));
        match read_generic_param(&list[i], span) {
            Ok(param) => {
                let ghost before = params_view(params@);
                params.push(param);
                assert(params_view(params@) == before.push(param@));
            },
            Err(failure) => {
                proof {
                    lemma_collected_prefix(results, i + 1);
                }
                return Err(failure);
            },
        }
    }
    assert(results.take(list@.len() as int) == results);
    Ok(make_generics(&params))
}

spec fn array_is(ty_def: Json, list: Seq<Json>) -> bool {
    crate::json::array_at(ty_def, "generics"@) == Some(list)
}

// ---------------------------------------------------------------------------
// Fields
// ---------------------------------------------------------------------------

/// A field with a name: the name, and the type as JSON or why it has no such form.
pub struct NamedType {
    pub name: String,
    pub ty: Result<Json, String>,
}

/// A list of fields, as the interface description's own types read it.
pub enum FieldReading {
    Named(Vec<NamedType>),
    /// Fields without names: of each its type as JSON or why it has no such form.
    Tuple(Vec<Result<Json, String>>),
    /// Why the list is neither.
    Invalid(String),
}

/// The fields of a struct or a variant: as they are declared, and their types.
pub enum DeclareTypeFields {
    Named { fields: Vec<String>, tys: Vec<String> },
    Tuple { fields: Vec<String>, tys: Vec<String> },
    Unit,
}

/// The fields of a struct or a variant, as sequences of characters.
pub enum FieldsView {
    Named { fields: Seq<Seq<char>>, tys: Seq<Seq<char>> },
    Tuple { fields: Seq<Seq<char>>, tys: Seq<Seq<char>> },
    Unit,
}

impl View for DeclareTypeFields {
    type V = FieldsView;

    open spec fn view(&self) -> FieldsView {
        match self {
            DeclareTypeFields::Named { fields, tys } => FieldsView::Named {
                fields: texts(fields@),
                tys: texts(tys@),
            },
            DeclareTypeFields::Tuple { fields, tys } => FieldsView::Tuple {
                fields: texts(fields@),
                tys: texts(tys@),
            },
            DeclareTypeFields::Unit => FieldsView::Unit,
        }
    }
}

impl FieldsView {
    /// The types of the fields.
    pub open spec fn tys(self) -> Seq<Seq<char>> {
        match self {
            FieldsView::Named { tys, .. } => tys,
            FieldsView::Tuple { tys, .. } => tys,
            FieldsView::Unit => Seq::empty(),
        }
    }
}

impl DeclareTypeFields {
    /// The types of the fields.
    pub fn tys(&self) -> (out: Vec<String>)
        ensures
            texts(out@) == self@.tys(),
    {
        match self {
            DeclareTypeFields::Named { tys, .. } => crate::text::clone_strings(tys),
            DeclareTypeFields::Tuple { tys, .. } => crate::text::clone_strings(tys),
            DeclareTypeFields::Unit => {
                let none: Vec<String> = Vec::new();
                assert(texts(none@) == Seq::<Seq<char>>::empty());
                none
            },
        }
    }
}

/// What stands before a field.
pub open spec fn visibility(public: bool) -> Seq<char> {
    if public {
        "pub "@
    } else {
        ""@
    }
}

/// A named field as it is declared, and its type.
pub open spec fn named_field(field: NamedType, span: Span, public: bool) -> Result<
    (Seq<char>, Seq<char>),
    FailureView,
> {
    match field.ty {
        Err(message) => Err(
            diagnostic(
                span,
                "failed to normalize IDL field `"@ + field.name@ + "` type: "@ + message@,
            ),
        ),
        Ok(value) => match idl_type(value, span) {
            Err(failure) => Err(failure),
            Ok(ty) => match item_name(snake_case(field.name@)) {
                Err(failure) => Err(failure),
                Ok(ident) => Ok((visibility(public) + ident + ": "@ + ty + ","@, ty)),
            },
        },
    }
}

/// A field without a name as it is declared, and its type.
pub open spec fn tuple_field(field: Result<Json, String>, span: Span, public: bool) -> Result<
    (Seq<char>, Seq<char>),
    FailureView,
> {
    match field {
        Err(message) => Err(
            diagnostic(
                span,
                "failed to normalize tuple field type for declare_program!: "@ + message@,
            ),
        ),
        Ok(value) => match idl_type(value, span) {
            Err(failure) => Err(failure),
            Ok(ty) => Ok((visibility(public) + ty, ty)),
        },
    }
}

/// The first of each pair.
pub open spec fn firsts(pairs: Seq<(Seq<char>, Seq<char>)>) -> Seq<Seq<char>> {
    pairs.map_values(|pair: (Seq<char>, Seq<char>)| pair.0)
}

/// The second of each pair.
pub open spec fn seconds(pairs: Seq<(Seq<char>, Seq<char>)>) -> Seq<Seq<char>> {
    pairs.map_values(|pair: (Seq<char>, Seq<char>)| pair.1)
}

/// The fields that a list describes.
pub open spec fn type_fields(reading: FieldReading, span: Span, public: bool) -> Result<
    FieldsView,
    FailureView,
> {
    match reading {
        FieldReading::Invalid(message) => Err(
            diagnostic(span, "invalid IDL field list: "@ + message@),
        ),
        FieldReading::Named(list) => match collected(
            list@.map_values(|field: NamedType| named_field(field, span, public)),
        ) {
            Err(failure) => Err(failure),
            Ok(pairs) => Ok(FieldsView::Named { fields: firsts(pairs), tys: seconds(pairs) }),
        },
        FieldReading::Tuple(list) => match collected(
            list@.map_values(|field: Result<Json, String>| tuple_field(field, span, public)),
        ) {
            Err(failure) => Err(failure),
            Ok(pairs) => Ok(FieldsView::Tuple { fields: firsts(pairs), tys: seconds(pairs) }),
        },
    }
}

/// The fields or the failure, as sequences of characters.
pub open spec fn fields_result(result: Result<DeclareTypeFields, Failure>) -> Result<
    FieldsView,
    FailureView,
> {
    match result {
        Ok(fields) => Ok(fields@),
        Err(failure) => Err(failure@),
    }
}

/// The pair or the failure, as sequences of characters.
pub open spec fn pair_view(result: Result<(String, String), Failure>) -> Result<
    (Seq<char>, Seq<char>),
    FailureView,
> {
    match result {
        Ok((field, ty)) => Ok((field@, ty@)),
        Err(failure) => Err(failure@),
    }
}

fn print_visibility(public: bool) -> (out: String)
    ensures
        out@ == visibility(public),
{
    if public {
        "pub ".to_owned()
    } else {
        "".to_owned()
    }
}

fn print_named_field(field: &NamedType, span: Span, public: bool) -> (out: Result<
    (String, String),
    Failure,
>)
    ensures
        pair_view(out) == named_field(*field, span, public),
{
    let value = match &field.ty {
        Err(message) => return Err(
            new_diagnostic(
                span,
                "failed to normalize IDL field `".to_owned().concat(field.name.as_str()).concat(
                    "` type: ",
                ).concat(message.as_str()),
            ),
        ),
        Ok(value) => value,
    };
    let ty = match declare_idl_type_to_tokens(value, span) {
        Err(failure) => return Err(failure),
        Ok(ty) => ty,
    };
    let ident = match new_ident(to_snake_case(field.name.as_str())) {
        Err(failure) => return Err(failure),
        Ok(ident) => ident,
    };
    let text = print_visibility(public).concat(ident.as_str()).concat(": ").concat(
        ty.as_str(),
    ).concat(",");
    Ok((text, ty))
}

fn print_tuple_field(field: &Result<Json, String>, span: Span, public: bool) -> (out: Result<
    (String, String),
    Failure,
>)
    ensures
        pair_view(out) == tuple_field(*field, span, public),
{
    let value = match field {
        Err(message) => return Err(
            new_diagnostic(
                span,
                "failed to normalize tuple field type for declare_program!: ".to_owned().concat(
                    message.as_str(),
                ),
            ),
        ),
        Ok(value) => value,
    };
    match declare_idl_type_to_tokens(value, span) {
        Err(failure) => Err(failure),
        Ok(ty) => Ok((print_visibility(public).concat(ty.as_str()), ty)),
    }
}

/// The lists or the failure, as sequences of characters.
spec fn pairs_are(
    results: Seq<Result<(Seq<char>, Seq<char>), FailureView>>,
    fields: Seq<String>,
    tys: Seq<String>,
) -> bool {
    match collected(results) {
        Ok(pairs) => texts(fields) == firsts(pairs) && texts(tys) == seconds(pairs),
        Err(_) => false,
    }
}

proof fn lemma_pairs_push(
    results: Seq<Result<(Seq<char>, Seq<char>), FailureView>>,
    i: int,
    fields: Seq<String>,
    tys: Seq<String>,
    field: String,
    ty: String,
)
    requires
        0 <= i < results.len(),
        pairs_are(results.take(i), fields, tys),
        results[i] == Ok::<(Seq<char>, Seq<char>), FailureView>((field@, ty@)),
    ensures
        pairs_are(results.take(i + 1), fields.push(field), tys.push(ty)),
{
    assert(results.take(i + 1).drop_last() == results.take(i));
    let pairs = collected(results.take(i))->Ok_0;
    let pair = (field@, ty@);
    assert(texts(fields.push(field)) =~= texts(fields).push(field@));
    assert(texts(tys.push(ty)) =~= texts(tys).push(ty@));
    assert(firsts(pairs.push(pair)) =~= firsts(pairs).push(pair.0));
    assert(seconds(pairs.push(pair)) =~= seconds(pairs).push(pair.1));
}

/// Writes the fields that a list describes.
pub fn gen_declare_program_type_fields(reading: &FieldReading, span: Span, public: bool) -> (out:
    Result<DeclareTypeFields, Failure>)
    ensures
        fields_result(out) == type_fields(*reading, span, public),
{
    let mut fields: Vec<String> = Vec::new();
    let mut tys: Vec<String> = Vec::new();
    match reading {
        FieldReading::Invalid(message) => Err(
            new_diagnostic(span, "invalid IDL field list: ".to_owned().concat(message.as_str())),
        ),
        FieldReading::Named(list) => {
            let ghost results = list@.map_values(
                |field: NamedType| named_field(field, span, public),
            );
            assert(texts(fields@) =~= firsts(Seq::empty()));
            assert(texts(tys@) =~= seconds(Seq::empty()));
            for i in 0..list.len()
                invariant
                    *reading == FieldReading::Named(*list),
                    results == list@.map_values(
                        |field: NamedType| named_field(field, span, public),
                    ),
                    pairs_are(results.take(i as int), fields@, tys@),
            {
                assert(results.take(i + 1).drop_last() == results.take(i as int));
                match print_named_field(&list[i], span, public) {
                    Ok((field, ty)) => {
                        proof {
                            lemma_pairs_push(results, i as int, fields@, tys@, field, ty);
                        }
                        fields.push(field);
                        tys.push(ty);
                    },
                    Err(failure) => {
                        proof {
                            lemma_collected_prefix(results, i + 1);
                        }
                        return Err(failure);
                    },
                }
            }
            assert(results.take(list@.len() as int) == results);
            Ok(DeclareTypeFields::Named { fields, tys })
        },
        FieldReading::Tuple(list) => {
            let ghost results = list@.map_values(
                |field: Result<Json, String>| tuple_field(field, span, public),
            );
            assert(texts(fields@) =~= firsts(Seq::empty()));
            assert(texts(tys@) =~= seconds(Seq::empty()));
            for i in 0..list.len()
                invariant
                    *reading == FieldReading::Tuple(*list),
                    results == list@.map_values(
                        |field: Result<Json, String>| tuple_field(field, span, public),
                    ),
                    pairs_are(results.take(i as int), fields@, tys@),
            {
                assert(results.take(i + 1).drop_last() == results.take(i as int));
                match print_tuple_field(&list[i], span, public) {
                    Ok((field, ty)) => {
                        proof {
                            lemma_pairs_push(results, i as int, fields@, tys@, field, ty);
                        }
                        fields.push(field);
                        tys.push(ty);
                    },
                    Err(failure) => {
                        proof {
                            lemma_collected_prefix(results, i + 1);
                        }
                        return Err(failure);
                    },
                }
            }
            assert(results.take(list@.len() as int) == results);
            Ok(DeclareTypeFields::Tuple { fields, tys })
        },
    }
}

} // verus!
