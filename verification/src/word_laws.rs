//! How types, names and lists are written, and what they are taken for.

use crate::accounts::{chain_check, find_summary, is_chain, scope_of, FieldSummary};
use crate::args::Argument;
use crate::attrs::{Attribute, Token};
use crate::cpi_accounts::{
    first_lifetime_arg, first_segment_lifetime, is_named, option_of, phantom_lifetime,
};
use crate::declared_constants::is_byte_array;
use crate::declared_errors::program_name;
use crate::declared_program::instruction_bytes;
use crate::declared_types::{defined_generics, generic_arg, idl_type};
use crate::discriminator::{
    array_discriminator, clash_check, clashes, first_clash, handler_discriminators, hashed,
    DiscrimAttr, NamedView,
};
use crate::failure::{diagnostic, FailureView, Span};
use crate::field_attrs::{field_metas, meta_attrs, with_meta_option, AccountMetaAttrs};
use crate::handler::{bound_args, byte_literal, byte_literals, discriminator_bytes, handler_args};
use crate::handler_fn::{fn_arg_texts, pat_text, FnArg, HandlerFn, Pat};
use crate::instruction_attrs::IxArg;
use crate::items::Field;
use crate::json::{array_at, flag_at, member_of, required_text, text_at, text_of, Json};
use crate::names::{camel_case, capitalized, initials, item_name, snake_case, type_case};
use crate::nested_meta::{option_name, OptionPath};
use crate::outside::{expr_reading, uppercase_of};
use crate::passages::{lemma_joined_parted, parted};
use crate::qualified_path::repeated;
use crate::syntax::{
    argument_texts, path_text, segment_texts, type_text, type_texts, GenericArgument, Ident, Path,
    PathArguments, PathSegment, Type,
};
use crate::text::{decimal, has_prefix};
use crate::type_laws::bytewise;
use crate::type_parts::serialization_of;
use vstd::prelude::*;

verus! {

// ---------------------------------------------------------------------------
// Bytes and types
// ---------------------------------------------------------------------------

/// Bytes are written in decimal, each as a `u8`, with commas between them.
pub proof fn lemma_bytes_written(bytes: Seq<u8>)
    ensures
        byte_literals(bytes) == parted(
            bytes.map_values(|byte: u8| decimal(byte as nat) + "u8"@),
            ", "@,
        ),
{
    let texts = bytes.map_values(|byte: u8| byte_literal(byte));
    assert(texts =~= bytes.map_values(|byte: u8| decimal(byte as nat) + "u8"@));
    lemma_joined_parted(texts, ", "@);
}

/// A generic argument as it is written, with a lifetime in place of its lifetimes where
/// one is given.
pub open spec fn argument_said(arg: GenericArgument, ix: Option<Seq<char>>) -> Seq<char> {
    match arg {
        GenericArgument::Lifetime(lifetime) => "'"@ + (match ix {
            Some(name) => name,
            None => lifetime.name@,
        }),
        GenericArgument::Type(ty) => type_text(ty, ix),
        GenericArgument::Other { tokens, .. } => tokens@,
    }
}

/// A segment of a path as it is written.
pub open spec fn segment_said(segment: PathSegment, ix: Option<Seq<char>>) -> Seq<char> {
    segment.ident.text@ + (match segment.arguments {
        PathArguments::Absent => ""@,
        PathArguments::AngleBracketed(angle) => (if angle.turbofish {
            "::<"@
        } else {
            "<"@
        }) + parted(angle.args@.map_values(|arg: GenericArgument| argument_said(arg, ix)), ", "@)
            + ">"@,
        PathArguments::Parenthesized { tokens, .. } => tokens@,
    })
}

proof fn lemma_arguments_said(args: Seq<GenericArgument>, ix: Option<Seq<char>>)
    ensures
        argument_texts(args, ix) == args.map_values(
            |arg: GenericArgument| argument_said(arg, ix),
        ),
    decreases args.len(),
{
    if args.len() > 0 {
        lemma_arguments_said(args.drop_last(), ix);
    }
    assert(argument_texts(args, ix) =~= args.map_values(
        |arg: GenericArgument| argument_said(arg, ix),
    ));
}

proof fn lemma_segments_said(segments: Seq<PathSegment>, ix: Option<Seq<char>>)
    ensures
        segment_texts(segments, ix) == segments.map_values(
            |segment: PathSegment| segment_said(segment, ix),
        ),
    decreases segments.len(),
{
    if segments.len() > 0 {
        lemma_segments_said(segments.drop_last(), ix);
        if let PathArguments::AngleBracketed(angle) = segments.last().arguments {
            lemma_arguments_said(angle.args@, ix);
            lemma_joined_parted(argument_texts(angle.args@, ix), ", "@);
        }
        assert(segment_texts(segments, ix).last() == segment_said(segments.last(), ix));
    }
    assert(segment_texts(segments, ix) =~= segments.map_values(
        |segment: PathSegment| segment_said(segment, ix),
    ));
}

proof fn lemma_types_said(types: Seq<Type>, ix: Option<Seq<char>>)
    ensures
        type_texts(types, ix) == types.map_values(|ty: Type| type_text(ty, ix)),
    decreases types.len(),
{
    if types.len() > 0 {
        lemma_types_said(types.drop_last(), ix);
    }
    assert(type_texts(types, ix) =~= types.map_values(|ty: Type| type_text(ty, ix)));
}

/// The segments of a path as they are written, with colons between them.
pub open spec fn along(segments: Seq<PathSegment>, ix: Option<Seq<char>>) -> Seq<char> {
    parted(segments.map_values(|segment: PathSegment| segment_said(segment, ix)), "::"@)
}

/// A path is written with all its segments and their arguments.
pub proof fn lemma_path_written(path: Path)
    ensures
        path_text(path) == (if path.leading_colon {
            "::"@
        } else {
            ""@
        }) + along(path.segments@, None),
{
    lemma_segments_said(path.segments@, None);
    lemma_joined_parted(segment_texts(path.segments@, None), "::"@);
}

/// A type is written by the types that it is made of. Where a lifetime is given, it
/// stands for every lifetime argument and for every one that a reference leaves out.
pub proof fn lemma_type_written(ty: Type, ix: Option<Seq<char>>)
    ensures
        match ty {
            Type::Path(path) => path.qself is None ==> type_text(ty, ix) == (
            if path.path.leading_colon {
                "::"@
            } else {
                ""@
            }) + along(path.path.segments@, ix),
            Type::Reference(reference) => {
                let named = reference.lifetime is Some && reference.lifetime->Some_0.name@ != "_"@;
                let lifetime = if ix is Some && !named {
                    "'"@ + ix->Some_0 + " "@
                } else if reference.lifetime is Some {
                    "'"@ + reference.lifetime->Some_0.name@ + " "@
                } else {
                    ""@
                };
                type_text(ty, ix) == "& "@ + lifetime + (if reference.mutable {
                    "mut "@
                } else {
                    ""@
                }) + type_text(*reference.elem, ix)
            },
            Type::Tuple(tuple) => type_text(ty, ix) == "("@ + parted(
                tuple.elems@.map_values(|elem: Type| type_text(elem, ix)),
                ", "@,
            ) + (if tuple.elems@.len() == 1 {
                ",)"@
            } else {
                ")"@
            }),
            Type::Array { elem, len, .. } => type_text(ty, ix) == "["@ + type_text(*elem, ix)
                + "; "@ + len@ + "]"@,
            Type::Slice(inner) => type_text(ty, ix) == "["@ + type_text(*inner.elem, ix) + "]"@,
            Type::Paren(inner) => type_text(ty, ix) == "("@ + type_text(*inner.elem, ix) + ")"@,
            Type::Group(inner) => type_text(ty, ix) == type_text(*inner.elem, ix),
            Type::Pointer { mutable, elem, .. } => type_text(ty, ix) == (if mutable {
                "* mut "@
            } else {
                "* const "@
            }) + type_text(*elem, ix),
            Type::Other { tokens, .. } => type_text(ty, ix) == tokens@,
        },
{
    match ty {
        Type::Path(path) => {
            lemma_segments_said(path.path.segments@, ix);
            lemma_joined_parted(segment_texts(path.path.segments@, ix), "::"@);
        },
        Type::Tuple(tuple) => {
            lemma_types_said(tuple.elems@, ix);
            lemma_joined_parted(type_texts(tuple.elems@, ix), ", "@);
        },
        _ => {},
    }
}

/// An option is a type called `Option` with one argument, a type; and a type that only
/// holds a lifetime is `PhantomData` of a reference to `()`.
pub proof fn lemma_wrapped_types(ty: Type)
    ensures
        ({
            let segments = ty->Path_0.path.segments@;
            let last = segments.last();
            let args = last.arguments->AngleBracketed_0.args@;
            let one_type = ty is Path && segments.len() > 0 && last.arguments is AngleBracketed
                && args.len() == 1 && args[0] is Type;
            &&& option_of(ty) == (if one_type && last.ident.text@ == "Option"@ {
                Some(args[0]->Type_0)
            } else {
                None
            })
            &&& phantom_lifetime(ty) is Some ==> {
                let inner = args[0]->Type_0;
                &&& one_type && last.ident.text@ == "PhantomData"@
                &&& inner is Reference
                &&& *inner->Reference_0.elem is Tuple
                &&& (*inner->Reference_0.elem)->Tuple_0.elems@.len() == 0
                &&& inner->Reference_0.lifetime == phantom_lifetime(ty)
            }
            &&& forall|name: Seq<char>| #[trigger]
                is_named(ty, name) <==> ty is Path && segments.len() > 0 && last.ident.text@
                    == name
        }),
{
}

// ---------------------------------------------------------------------------
// Arguments of a handler
// ---------------------------------------------------------------------------

/// The parameter of a handler as an argument, where it is bound to a name.
pub open spec fn bound<'a>(arg: FnArg) -> Seq<Argument<'a>> {
    match arg {
        FnArg::Typed(typed) => match typed.pat {
            Pat::Ident { ident, .. } => seq![Argument { name: &ident, ty: &typed.ty }],
            _ => Seq::empty(),
        },
        _ => Seq::empty(),
    }
}

/// The parameters that are bound to a name, in order.
pub open spec fn bound_in<'a>(inputs: Seq<FnArg>) -> Seq<Argument<'a>>
    decreases inputs.len(),
{
    if inputs.len() == 0 {
        Seq::empty()
    } else {
        bound(inputs[0]) + bound_in(inputs.skip(1))
    }
}

proof fn lemma_bound_more(inputs: Seq<FnArg>, last: FnArg)
    ensures
        bound_in(inputs.push(last)) == bound_in(inputs) + bound(last),
    decreases inputs.len(),
{
    let more = inputs.push(last);
    if inputs.len() == 0 {
        assert(more.skip(1) =~= inputs);
    } else {
        lemma_bound_more(inputs.skip(1), last);
        assert(more.skip(1) =~= inputs.skip(1).push(last));
    }
    assert(bound_in(more) =~= bound_in(inputs) + bound(last));
}

proof fn lemma_bound_in(inputs: Seq<FnArg>)
    ensures
        bound_args(inputs) == bound_in(inputs),
    decreases inputs.len(),
{
    if inputs.len() > 0 {
        let before = inputs.drop_last();
        lemma_bound_in(before);
        lemma_bound_more(before, inputs.last());
        assert(before.push(inputs.last()) =~= inputs);
        assert(bound_args(inputs) =~= bound_args(before) + bound(inputs.last()));
    }
}

/// The arguments of a handler are its parameters behind the context that are bound to a
/// name, in order.
pub proof fn lemma_arguments_bound(handler: HandlerFn)
    ensures
        handler_args(handler) == bound_in(handler.inputs@.skip(1)),
{
    lemma_bound_in(handler.inputs@.skip(1));
}

// ---------------------------------------------------------------------------
// Refusals
// ---------------------------------------------------------------------------

/// Discriminators clash where one begins with another of a different name. The first
/// clash is told: which name begins with which.
pub proof fn lemma_clash_told(
    section: Seq<char>,
    list: Seq<NamedView>,
    at: Option<Span>,
    outer: int,
    inner: int,
)
    requires
        0 <= outer < list.len(),
        0 <= inner < list.len(),
        list[outer].name != list[inner].name,
        has_prefix(list[outer].bytes, list[inner].bytes),
        forall|a: int, b: int|
            0 <= a < list.len() && 0 <= b < list.len() && (a < outer || a == outer && b < inner)
                ==> (#[trigger] list[a]).name == (#[trigger] list[b]).name || !has_prefix(
                list[a].bytes,
                list[b].bytes,
            ),
    ensures
        clash_check(section, list, at) == Err::<(), FailureView>(
            diagnostic(
                match at {
                    Some(span) => span,
                    None => list[outer].span,
                },
                "Ambiguous discriminators for "@ + section + ": `"@ + list[inner].name
                    + "` discriminator "@ + crate::names::bytes_text(list[inner].bytes)
                    + " is a prefix of `"@ + list[outer].name + "` discriminator "@
                    + crate::names::bytes_text(list[outer].bytes),
            ),
        ),
{
    assert(clashes(list, outer, inner));
    assert forall|a: int, b: int| #[trigger] clashes(list, a, b) implies outer < a || (outer == a
        && inner <= b) by {
        if a < outer || a == outer && b < inner {
            assert(list[a].name == list[b].name || !has_prefix(list[a].bytes, list[b].bytes));
        }
    }
    assert(first_clash(list, outer, inner));
    let (o, i) = choose|o: int, i: int| first_clash(list, o, i);
    assert(first_clash(list, o, i));
    assert(clashes(list, o, i));
    assert(o == outer && i == inner);
}

proof fn lemma_summary_found(all: Seq<FieldSummary>, name: Seq<char>, j: int)
    requires
        0 <= j < all.len(),
        all[j].name.text@ == name,
        forall|k: int| 0 <= k < j ==> (#[trigger] all[k]).name.text@ != name,
    ensures
        find_summary(all, name) == Some(all[j]),
    decreases all.len(),
{
    if j > 0 {
        assert(all[0].name.text@ != name);
        let rest = all.skip(1);
        assert(rest[j - 1] == all[j]);
        assert forall|k: int| 0 <= k < j - 1 implies (#[trigger] rest[k]).name.text@ != name by {
            assert(rest[k] == all[k + 1]);
        }
        lemma_summary_found(rest, name, j - 1);
    }
}

/// An account that is closed into one that is closed too is refused: where the field at
/// `i` is the first such, it is pointed at. The field that it is closed into is the first
/// with the name that it gives.
pub proof fn lemma_chain_refused(
    summaries: Seq<FieldSummary>,
    all: Seq<FieldSummary>,
    i: int,
    j: int,
)
    requires
        0 <= i < summaries.len(),
        summaries[i].close is Some,
        0 <= j < all.len(),
        all[j].name.text@ == summaries[i].close->Some_0.text@,
        forall|k: int|
            0 <= k < j ==> (#[trigger] all[k]).name.text@ != summaries[i].close->Some_0.text@,
        all[j].close is Some,
        forall|k: int| 0 <= k < i ==> !is_chain(#[trigger] summaries[k], all),
    ensures
        is_chain(summaries[i], all),
        chain_check(summaries, all) == Err::<(), FailureView>(
            diagnostic(
                summaries[i].close->Some_0.span,
                "close target `"@ + summaries[i].close->Some_0.text@
                    + "` is also scheduled to close; close chains can revive an account that was already closed"@,
            ),
        ),
    decreases summaries.len(),
{
    lemma_summary_found(all, summaries[i].close->Some_0.text@, j);
    if i > 0 {
        assert(!is_chain(summaries[0], all));
        let rest = summaries.skip(1);
        assert(rest[i - 1] == summaries[i]);
        assert forall|k: int| 0 <= k < i - 1 implies !is_chain(#[trigger] rest[k], all) by {
            assert(rest[k] == summaries[k + 1]);
        }
        lemma_chain_refused(rest, all, i - 1, j);
    }
}

// ---------------------------------------------------------------------------
// Declared types
// ---------------------------------------------------------------------------

/// A type is copied byte by byte exactly where its definition names one of the byte by
/// byte encodings; without a name it is not.
pub proof fn lemma_serialized(ty_def: Json, span: Span)
    ensures
        serialization_of(ty_def, span) is Ok ==> (!(serialization_of(ty_def, span)->Ok_0 is Borsh)
            <==> bytewise(ty_def)),
        serialization_of(ty_def, span) is Ok <==> bytewise(ty_def) || text_at(
            ty_def,
            "serialization"@,
        ) is None || text_at(ty_def, "serialization"@) == Some("borsh"@),
{
    reveal_strlit("borsh");
    reveal_strlit("bytemuck");
    reveal_strlit("bytemuckunsafe");
    reveal_strlit("bytemuckUnsafe");
    assert("borsh"@.len() != "bytemuck"@.len());
    assert("borsh"@.len() != "bytemuckunsafe"@.len());
    assert("borsh"@.len() != "bytemuckUnsafe"@.len());
}

/// Whether a name is that of a number with a fixed layout.
pub open spec fn is_pod_number(name: Seq<char>) -> bool {
    seq![
        "PodBool"@,
        "PodU16"@,
        "PodU32"@,
        "PodU64"@,
        "PodU128"@,
        "PodI16"@,
        "PodI32"@,
        "PodI64"@,
        "PodI128"@,
    ].contains(name)
}

/// A type that a description defines is called by its name in type case, with its generic
/// arguments in order; the numbers with a fixed layout are those of the framework.
pub proof fn lemma_defined_type(value: Json, span: Span)
    requires
        !(value is Text),
        member_of(value, "defined"@) is Some,
        idl_type(value, span) is Ok,
    ensures
        ({
            let defined = member_of(value, "defined"@)->Some_0;
            let name = match text_of(defined) {
                Some(name) => name,
                None => required_text(defined, "name"@, span)->Ok_0,
            };
            let out = idl_type(value, span)->Ok_0;
            &&& is_pod_number(name) ==> out == "anchor_lang::pod::"@ + name
            &&& !is_pod_number(name) ==> {
                let ident = item_name(type_case(name))->Ok_0;
                let args = defined_generics(defined, span)->Ok_0;
                out == (if args.len() == 0 {
                    ident
                } else {
                    ident + "<"@ + parted(args, ", "@) + ">"@
                })
            }
        }),
{
    let defined = member_of(value, "defined"@)->Some_0;
    let name = match text_of(defined) {
        Some(name) => name,
        None => required_text(defined, "name"@, span)->Ok_0,
    };
    let pods = seq![
        "PodBool"@,
        "PodU16"@,
        "PodU32"@,
        "PodU64"@,
        "PodU128"@,
        "PodI16"@,
        "PodI32"@,
        "PodI64"@,
        "PodI128"@,
    ];
    assert(pods[0] == "PodBool"@ && pods[1] == "PodU16"@ && pods[2] == "PodU32"@);
    assert(pods[3] == "PodU64"@ && pods[4] == "PodU128"@ && pods[5] == "PodI16"@);
    assert(pods[6] == "PodI32"@ && pods[7] == "PodI64"@ && pods[8] == "PodI128"@);
    if !is_pod_number(name) {
        lemma_joined_parted(defined_generics(defined, span)->Ok_0, ", "@);
    }
}

/// A program without a name in its metadata is called `DeclaredProgram`.
pub proof fn lemma_program_called(idl: Json)
    ensures
        member_of(idl, "metadata"@) is None ==> program_name(idl) == "DeclaredProgram"@,
        member_of(idl, "metadata"@) matches Some(metadata) ==> program_name(idl) == (match text_at(
            metadata,
            "name"@,
        ) {
            Some(name) => name,
            None => "DeclaredProgram"@,
        }),
{
}

// ---------------------------------------------------------------------------
// Names
// ---------------------------------------------------------------------------

proof fn lemma_one_part(text: Seq<char>, capitals: Seq<Seq<char>>)
    requires
        text.len() > 0,
        !text.contains('_'),
        capitals.len() > 0,
    ensures
        initials(text) == seq![text[0]],
        capitalized(text, capitals) == capitals[0] + text.skip(1),
    decreases text.len(),
{
    let before = text.drop_last();
    assert(text.contains(text.last())) by {
        assert(text[text.len() - 1] == text.last());
    }
    if text.len() == 1 {
        assert(initials(before) =~= Seq::<char>::empty());
        assert(capitalized(before, capitals) =~= Seq::<char>::empty());
        assert(initials(text) =~= seq![text[0]]);
        assert(capitalized(text, capitals) =~= capitals[0] + text.skip(1));
    } else {
        assert(!before.contains('_')) by {
            if before.contains('_') {
                let k = choose|k: int| 0 <= k < before.len() && before[k] == '_';
                assert(text[k] == '_');
            }
        }
        assert(text[text.len() - 2] != '_') by {
            assert(text.contains(text[text.len() - 2]));
        }
        lemma_one_part(before, capitals);
        assert(capitalized(text, capitals) =~= capitals[0] + text.skip(1));
    }
}

/// A name of one part is written in camel case with its first letter in upper case.
pub proof fn lemma_camel_part(part: Seq<char>)
    requires
        part.len() > 0,
        !part.contains('_'),
    ensures
        camel_case(part) == uppercase_of(part[0]) + part.skip(1),
{
    let capitals = initials(part).map_values(|ch: char| uppercase_of(ch));
    lemma_one_part(part, seq![part]);
    assert(capitals =~= seq![uppercase_of(part[0])]);
    lemma_one_part(part, capitals);
}

/// What is left out some number of times is written that number of times.
pub proof fn lemma_repeated(text: Seq<char>, times: nat)
    ensures
        repeated(text, 0) == Seq::<char>::empty(),
        repeated(text, times + 1) == repeated(text, times) + text,
{
}

// ---------------------------------------------------------------------------
// Marks of accounts
// ---------------------------------------------------------------------------

proof fn lemma_no_metas(attrs: Seq<Attribute>, so_far: AccountMetaAttrs)
    requires
        forall|i: int| 0 <= i < attrs.len() ==> (#[trigger] attrs[i]).path@ != "account_meta"@,
    ensures
        meta_attrs(attrs, so_far) == Ok::<AccountMetaAttrs, FailureView>(so_far),
    decreases attrs.len(),
{
    if attrs.len() > 0 {
        assert(attrs[0].path@ != "account_meta"@);
        let rest = attrs.skip(1);
        assert forall|i: int| 0 <= i < rest.len() implies (#[trigger] rest[i]).path@
            != "account_meta"@ by {
            assert(rest[i] == attrs[i + 1]);
        }
        lemma_no_metas(rest, so_far);
    }
}

/// A field without the attribute is neither left out nor listed twice; the options of the
/// attribute set these two and nothing else, each once, and never both.
pub proof fn lemma_metas_marked(
    field: Field,
    tokens: Seq<Token>,
    path: OptionPath,
    so_far: AccountMetaAttrs,
)
    ensures
        (forall|i: int|
            0 <= i < field.attrs@.len() ==> (#[trigger] field.attrs@[i]).path@ != "account_meta"@)
            ==> field_metas(field) == Ok::<AccountMetaAttrs, FailureView>(
            AccountMetaAttrs { skip: false, duplicate_readonly: false },
        ),
        field_metas(field) is Ok ==> !(field_metas(field)->Ok_0.skip && field_metas(
            field,
        )->Ok_0.duplicate_readonly),
        with_meta_option(tokens, path, so_far) matches Ok(now) ==> {
            ||| option_name(tokens, path) == Some("skip"@) && !so_far.skip && now
                == (AccountMetaAttrs { skip: true, ..so_far })
            ||| option_name(tokens, path) == Some("duplicate_readonly"@)
                && !so_far.duplicate_readonly && now == (AccountMetaAttrs {
                duplicate_readonly: true,
                ..so_far
            })
        },
{
    if forall|i: int|
        0 <= i < field.attrs@.len() ==> (#[trigger] field.attrs@[i]).path@ != "account_meta"@ {
        lemma_no_metas(
            field.attrs@,
            AccountMetaAttrs { skip: false, duplicate_readonly: false },
        );
    }
}

// ---------------------------------------------------------------------------
// What things are taken for
// ---------------------------------------------------------------------------

/// Seeds can name the fields of the struct and the arguments that it declares.
pub proof fn lemma_scope(fields: Seq<Field>, args: Seq<IxArg>, program_id: Seq<char>)
    ensures
        ({
            let scope = scope_of(fields, args, program_id);
            &&& scope.fields.len() == fields.len()
            &&& forall|i: int|
                0 <= i < fields.len() && (#[trigger] fields[i]).name is Some ==> scope.fields[i]
                    == fields[i].name->Some_0.text@
            &&& scope.args.len() == args.len()
            &&& forall|i: int|
                0 <= i < args.len() ==> scope.args[i] == (#[trigger] args[i]).name.text@
            &&& scope.program_id == program_id
        }),
{
}

/// The discriminator of a handler is the one that it is given, or else follows from its
/// name; that of a declared instruction is the one in its description, or else follows
/// from its name in snake case.
pub proof fn lemma_instruction_told_by(
    name: Seq<char>,
    discrim: Option<Seq<u8>>,
    ix: Json,
    span: Span,
)
    ensures
        discrim matches Some(bytes) ==> discriminator_bytes(name, discrim) == bytes,
        discrim is None ==> discriminator_bytes(name, discrim) == hashed("global"@, name),
        array_at(ix, "discriminator"@) is None ==> instruction_bytes(ix, name, span) == Ok::<
            Seq<u8>,
            FailureView,
        >(hashed("global"@, snake_case(name))),
        array_at(ix, "discriminator"@) matches Some(values) ==> instruction_bytes(ix, name, span)
            == array_discriminator(values, span),
{
}

/// A flag is set where it is there and true; a constant is an array of bytes where its
/// type is an array of two entries of which the first is `u8`.
pub proof fn lemma_flags_and_arrays(value: Json, key: Seq<char>)
    ensures
        flag_at(value, key) <==> member_of(value, key) == Some(Json::Bool(true)),
        is_byte_array(value) <==> {
            &&& member_of(value, "array"@) is Some
            &&& member_of(value, "array"@)->Some_0 is Array
            &&& member_of(value, "array"@)->Some_0->Array_0@.len() == 2
            &&& text_of(member_of(value, "array"@)->Some_0->Array_0@[0]) == Some("u8"@)
        },
{
}

/// The parameters of a function are written in order, each with its attributes, its
/// pattern and its type.
pub proof fn lemma_params_written(inputs: Seq<FnArg>, i: int)
    requires
        0 <= i < inputs.len(),
    ensures
        fn_arg_texts(inputs).len() == inputs.len(),
        inputs[i] matches FnArg::Receiver { tokens, .. } ==> fn_arg_texts(inputs)[i] == tokens@,
        inputs[i] matches FnArg::Typed(arg) ==> {
            &&& fn_arg_texts(inputs)[i] == arg.attrs@ + pat_text(arg.pat) + ": "@ + type_text(
                arg.ty,
                None,
            )
            &&& arg.pat matches Pat::Ident { tokens, .. } ==> pat_text(arg.pat) == tokens@
            &&& arg.pat matches Pat::Wild { tokens } ==> pat_text(arg.pat) == tokens@
        },
{
}

/// Handlers of an interface are told apart by the bytes that they are given, or else by
/// those that follow from their names in snake case.
pub proof fn lemma_handlers_told_by(
    handlers: Seq<Ident>,
    discrims: Seq<Option<DiscrimAttr>>,
    i: int,
)
    requires
        handlers.len() == discrims.len(),
        0 <= i < handlers.len(),
    ensures
        ({
            let list = handler_discriminators(handlers, discrims);
            &&& list.len() == handlers.len()
            &&& list[i].name == handlers[i].text@
            &&& list[i].span == handlers[i].span
            &&& discrims[i] is None ==> list[i].bytes == hashed(
                "global"@,
                snake_case(handlers[i].text@),
            )
            &&& discrims[i] is Some ==> list[i].bytes == discrims[i]->Some_0.bytes@
        }),
{
}

/// A generic argument of a declared type is a type, which is written as any type is, or a
/// value, which is written as it stands.
pub proof fn lemma_generic_argument(value: Json, span: Span)
    ensures
        text_at(value, "kind"@) == Some("type"@) && member_of(value, "type"@) is Some
            ==> generic_arg(value, span) == idl_type(member_of(value, "type"@)->Some_0, span),
        text_at(value, "kind"@) == Some("const"@) && generic_arg(value, span) is Ok
            ==> generic_arg(value, span)->Ok_0 == expr_reading(
            text_at(value, "value"@)->Some_0,
        )->Ok_0,
        generic_arg(value, span) is Ok ==> text_at(value, "kind"@) == Some("type"@) || text_at(
            value,
            "kind"@,
        ) == Some("const"@),
{
    reveal_strlit("type");
    reveal_strlit("const");
    assert("type"@.len() != "const"@.len());
}

proof fn lemma_first_argument(args: Seq<GenericArgument>)
    ensures
        first_lifetime_arg(args) is None <==> forall|i: int|
            0 <= i < args.len() ==> !((#[trigger] args[i]) is Lifetime),
        first_lifetime_arg(args) is Some ==> exists|i: int|
            {
                &&& 0 <= i < args.len()
                &&& (#[trigger] args[i]) is Lifetime
                &&& first_lifetime_arg(args) == Some(args[i]->Lifetime_0)
                &&& forall|k: int| 0 <= k < i ==> !((#[trigger] args[k]) is Lifetime)
            },
    decreases args.len(),
{
    if args.len() > 0 && !(args[0] is Lifetime) {
        let rest = args.skip(1);
        lemma_first_argument(rest);
        if first_lifetime_arg(rest) is Some {
            let i = choose|i: int|
                {
                    &&& 0 <= i < rest.len()
                    &&& (#[trigger] rest[i]) is Lifetime
                    &&& first_lifetime_arg(rest) == Some(rest[i]->Lifetime_0)
                    &&& forall|k: int| 0 <= k < i ==> !((#[trigger] rest[k]) is Lifetime)
                };
            assert(args[i + 1] == rest[i]);
            assert forall|k: int| 0 <= k < i + 1 implies !((#[trigger] args[k]) is Lifetime) by {
                if k > 0 {
                    assert(args[k] == rest[k - 1]);
                }
            }
        } else {
            assert forall|i: int| 0 <= i < args.len() implies !((#[trigger] args[i]) is Lifetime) by {
                if i > 0 {
                    assert(args[i] == rest[i - 1]);
                }
            }
        }
    }
}

/// The lifetime of nested accounts is the first lifetime argument of the first segment
/// that has one.
pub proof fn lemma_nested_lifetime(segments: Seq<PathSegment>, at: int)
    requires
        0 <= at < segments.len(),
        forall|k: int| 0 <= k < at ==> (#[trigger] segments[k]).arguments is Absent,
        segments[at].arguments is AngleBracketed,
    ensures
        ({
            let args = segments[at].arguments->AngleBracketed_0.args@;
            &&& forall|i: int|
                0 <= i < args.len() && (#[trigger] args[i]) is Lifetime && (forall|k: int|
                    0 <= k < i ==> !((#[trigger] args[k]) is Lifetime)) ==> first_segment_lifetime(
                    segments,
                ) == Some(args[i]->Lifetime_0)
        }),
    decreases segments.len(),
{
    let args = segments[at].arguments->AngleBracketed_0.args@;
    if at > 0 {
        assert(segments[0].arguments is Absent);
        let rest = segments.skip(1);
        assert(rest[at - 1] == segments[at]);
        assert forall|k: int| 0 <= k < at - 1 implies (#[trigger] rest[k]).arguments is Absent by {
            assert(rest[k] == segments[k + 1]);
        }
        lemma_nested_lifetime(rest, at - 1);
    } else {
        lemma_first_argument(args);
        assert forall|i: int|
            0 <= i < args.len() && (#[trigger] args[i]) is Lifetime && (forall|k: int|
                0 <= k < i ==> !((#[trigger] args[k]) is Lifetime)) implies first_segment_lifetime(
            segments,
        ) == Some(args[i]->Lifetime_0) by {
            let j = choose|j: int|
                {
                    &&& 0 <= j < args.len()
                    &&& (#[trigger] args[j]) is Lifetime
                    &&& first_lifetime_arg(args) == Some(args[j]->Lifetime_0)
                    &&& forall|k: int| 0 <= k < j ==> !((#[trigger] args[k]) is Lifetime)
                };
            if i < j {
                assert(!(args[i] is Lifetime));
            }
            if j < i {
                assert(!(args[j] is Lifetime));
            }
        }
    }
}

} // verus!
