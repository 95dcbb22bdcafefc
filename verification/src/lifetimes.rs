//! The lifetime of the instruction data in the types of instruction arguments.

use crate::syntax::{
    argument_texts, is_elided, segment_texts, type_text, type_texts, AngleBracketed,
    GenericArgument, Ident, Inner, Lifetime, Path, PathArguments, PathSegment, QSelf, Type,
    TypePath, TypeReference, TypeTuple,
};
use crate::text::same_text;
use vstd::prelude::*;

verus! {

/// Whether a type borrows: it is a reference, or a path with a lifetime argument or
/// with a type argument that borrows.
pub open spec fn borrows(ty: Type) -> bool
    decreases ty,
{
    match ty {
        Type::Reference(_) => true,
        Type::Path(path) => any_segment_borrows(path.path.segments@),
        _ => false,
    }
}

/// Whether one of the segments has an argument that borrows.
pub open spec fn any_segment_borrows(segments: Seq<PathSegment>) -> bool
    decreases segments,
{
    segments.len() > 0 && (any_segment_borrows(segments.drop_last()) || (
    match segments.last().arguments {
        PathArguments::AngleBracketed(angle) => any_argument_borrows(angle.args@),
        _ => false,
    }))
}

/// Whether one of the arguments is a lifetime or a type that borrows.
pub open spec fn any_argument_borrows(args: Seq<GenericArgument>) -> bool
    decreases args,
{
    args.len() > 0 && (any_argument_borrows(args.drop_last()) || (match args.last() {
        GenericArgument::Lifetime(_) => true,
        GenericArgument::Type(ty) => borrows(ty),
        GenericArgument::Other { .. } => false,
    }))
}

/// Whether a type needs the lifetime of the instruction data when it is the type of
/// an instruction argument.
pub fn needs_ix_lifetime(ty: &Type) -> (needs: bool)
    ensures
        needs == borrows(*ty),
    decreases ty,
{
    match ty {
        Type::Reference(_) => true,
        Type::Path(path) => {
            assert(decreases_to!(ty->Path_0 => ty->Path_0.path.segments@));
            segments_need(&path.path.segments)
        },
        _ => false,
    }
}

fn segments_need(segments: &Vec<PathSegment>) -> (needs: bool)
    ensures
        needs == any_segment_borrows(segments@),
    decreases segments@,
{
    let mut needs = false;
    for i in 0..segments.len()
        invariant
            needs == any_segment_borrows(segments@.take(i as int)),
    {
        assert(segments@.take(i + 1).drop_last() == segments@.take(i as int));
        if let PathArguments::AngleBracketed(angle) = &segments[i].arguments {
            assert(decreases_to!(segments@[i as int] => segments@[i as int].arguments->AngleBracketed_0.args@));
            if arguments_need(&angle.args) {
                needs = true;
            }
        }
    }
    assert(segments@.take(segments@.len() as int) == segments@);
    needs
}

fn arguments_need(args: &Vec<GenericArgument>) -> (needs: bool)
    ensures
        needs == any_argument_borrows(args@),
    decreases args@,
{
    let mut needs = false;
    for i in 0..args.len()
        invariant
            needs == any_argument_borrows(args@.take(i as int)),
    {
        assert(args@.take(i + 1).drop_last() == args@.take(i as int));
        match &args[i] {
            GenericArgument::Lifetime(_) => {
                needs = true;
            },
            GenericArgument::Type(ty) => {
                assert(decreases_to!(args@[i as int] => args@[i as int]->Type_0));
                if needs_ix_lifetime(ty) {
                    needs = true;
                }
            },
            GenericArgument::Other { .. } => {},
        }
    }
    assert(args@.take(args@.len() as int) == args@);
    needs
}

// ---------------------------------------------------------------------------
// Types that hold a lifetime
// ---------------------------------------------------------------------------

/// Whether a reference or a lifetime argument of a path stands anywhere in a type.
pub open spec fn carries(ty: Type) -> bool
    decreases ty,
{
    match ty {
        Type::Reference(_) => true,
        Type::Path(path) => any_segment_carries(path.path.segments@) || (match path.qself {
            Some(qself) => carries(*qself.ty),
            None => false,
        }),
        Type::Tuple(tuple) => any_carries(tuple.elems@),
        Type::Array { elem, .. } => carries(*elem),
        Type::Slice(inner) => carries(*inner.elem),
        Type::Paren(inner) => carries(*inner.elem),
        Type::Group(inner) => carries(*inner.elem),
        Type::Pointer { elem, .. } => carries(*elem),
        Type::Other { .. } => false,
    }
}

/// Whether one of the types holds a reference or a lifetime argument.
pub open spec fn any_carries(types: Seq<Type>) -> bool
    decreases types,
{
    types.len() > 0 && (any_carries(types.drop_last()) || carries(types.last()))
}

/// Whether one of the segments has an argument that holds a lifetime.
pub open spec fn any_segment_carries(segments: Seq<PathSegment>) -> bool
    decreases segments,
{
    segments.len() > 0 && (any_segment_carries(segments.drop_last()) || (
    match segments.last().arguments {
        PathArguments::AngleBracketed(angle) => any_argument_carries(angle.args@),
        _ => false,
    }))
}

/// Whether one of the arguments is a lifetime or a type that holds one.
pub open spec fn any_argument_carries(args: Seq<GenericArgument>) -> bool
    decreases args,
{
    args.len() > 0 && (any_argument_carries(args.drop_last()) || (match args.last() {
        GenericArgument::Lifetime(_) => true,
        GenericArgument::Type(ty) => carries(ty),
        GenericArgument::Other { .. } => false,
    }))
}

/// Whether a reference or a lifetime argument of a path stands anywhere in a type.
pub fn carries_lifetime(ty: &Type) -> (found: bool)
    ensures
        found == carries(*ty),
    decreases ty,
{
    match ty {
        Type::Reference(_) => true,
        Type::Path(path) => {
            assert(decreases_to!(ty->Path_0 => ty->Path_0.path.segments@));
            if segments_carry(&path.path.segments) {
                return true;
            }
            match &path.qself {
                Some(qself) => carries_lifetime(&qself.ty),
                None => false,
            }
        },
        Type::Tuple(tuple) => {
            assert(decreases_to!(ty->Tuple_0 => ty->Tuple_0.elems@));
            types_carry(&tuple.elems)
        },
        Type::Array { elem, .. } => carries_lifetime(elem),
        Type::Slice(inner) => carries_lifetime(&inner.elem),
        Type::Paren(inner) => carries_lifetime(&inner.elem),
        Type::Group(inner) => carries_lifetime(&inner.elem),
        Type::Pointer { elem, .. } => carries_lifetime(elem),
        Type::Other { .. } => false,
    }
}

fn types_carry(types: &Vec<Type>) -> (found: bool)
    ensures
        found == any_carries(types@),
    decreases types@,
{
    let mut found = false;
    for i in 0..types.len()
        invariant
            found == any_carries(types@.take(i as int)),
    {
        assert(types@.take(i + 1).drop_last() == types@.take(i as int));
        assert(decreases_to!(types@ => types@[i as int]));
        if carries_lifetime(&types[i]) {
            found = true;
        }
    }
    assert(types@.take(types@.len() as int) == types@);
    found
}

fn segments_carry(segments: &Vec<PathSegment>) -> (found: bool)
    ensures
        found == any_segment_carries(segments@),
    decreases segments@,
{
    let mut found = false;
    for i in 0..segments.len()
        invariant
            found == any_segment_carries(segments@.take(i as int)),
    {
        assert(segments@.take(i + 1).drop_last() == segments@.take(i as int));
        if let PathArguments::AngleBracketed(angle) = &segments[i].arguments {
            assert(decreases_to!(segments@[i as int] => segments@[i as int].arguments->AngleBracketed_0.args@));
            if arguments_carry(&angle.args) {
                found = true;
            }
        }
    }
    assert(segments@.take(segments@.len() as int) == segments@);
    found
}

fn arguments_carry(args: &Vec<GenericArgument>) -> (found: bool)
    ensures
        found == any_argument_carries(args@),
    decreases args@,
{
    let mut found = false;
    for i in 0..args.len()
        invariant
            found == any_argument_carries(args@.take(i as int)),
    {
        assert(args@.take(i + 1).drop_last() == args@.take(i as int));
        match &args[i] {
            GenericArgument::Lifetime(_) => {
                found = true;
            },
            GenericArgument::Type(ty) => {
                assert(decreases_to!(args@[i as int] => args@[i as int]->Type_0));
                if carries_lifetime(ty) {
                    found = true;
                }
            },
            GenericArgument::Other { .. } => {},
        }
    }
    assert(args@.take(args@.len() as int) == args@);
    found
}

// ---------------------------------------------------------------------------
// Writing the lifetime in
// ---------------------------------------------------------------------------

/// Whether `out` is `ty` with every lifetime argument of a path and every elided
/// lifetime of a reference replaced by `ix`, and nothing else changed. What a tree holds
/// as tokens alone stays as it is.
pub open spec fn ix_form(ty: Type, out: Type, ix: Lifetime) -> bool
    decreases ty,
{
    match ty {
        Type::Path(a) => match out {
            Type::Path(b) => {
                &&& match a.qself {
                    None => b.qself is None,
                    Some(x) => match b.qself {
                        Some(y) => y.position == x.position && ix_form(*x.ty, *y.ty, ix),
                        None => false,
                    },
                }
                &&& b.span == a.span
                &&& b.path.leading_colon == a.path.leading_colon
                &&& b.path.span == a.path.span
                &&& ix_segments(a.path.segments@, b.path.segments@, ix)
            },
            _ => false,
        },
        Type::Reference(a) => match out {
            Type::Reference(b) => {
                &&& b.lifetime == (if is_elided(a.lifetime) {
                    Some(ix)
                } else {
                    a.lifetime
                })
                &&& b.mutable == a.mutable
                &&& b.span == a.span
                &&& ix_form(*a.elem, *b.elem, ix)
            },
            _ => false,
        },
        Type::Tuple(a) => match out {
            Type::Tuple(b) => b.span == a.span && ix_types(a.elems@, b.elems@, ix),
            _ => false,
        },
        Type::Array { elem: x, len, span } => match out {
            Type::Array { elem: y, len: out_len, span: out_span } => {
                &&& out_len@ == len@
                &&& out_span == span
                &&& ix_form(*x, *y, ix)
            },
            _ => false,
        },
        Type::Slice(a) => match out {
            Type::Slice(b) => b.span == a.span && ix_form(*a.elem, *b.elem, ix),
            _ => false,
        },
        Type::Paren(a) => match out {
            Type::Paren(b) => b.span == a.span && ix_form(*a.elem, *b.elem, ix),
            _ => false,
        },
        Type::Group(a) => match out {
            Type::Group(b) => b.span == a.span && ix_form(*a.elem, *b.elem, ix),
            _ => false,
        },
        Type::Pointer { mutable, elem: x, span } => match out {
            Type::Pointer { mutable: out_mutable, elem: y, span: out_span } => {
                &&& out_mutable == mutable
                &&& out_span == span
                &&& ix_form(*x, *y, ix)
            },
            _ => false,
        },
        Type::Other { .. } => out == ty,
    }
}

/// Whether the types `out` are `types` with their lifetimes replaced.
pub open spec fn ix_types(types: Seq<Type>, out: Seq<Type>, ix: Lifetime) -> bool
    decreases types,
{
    &&& out.len() == types.len()
    &&& types.len() > 0 ==> {
        &&& ix_types(types.drop_last(), out.drop_last(), ix)
        &&& ix_form(types.last(), out.last(), ix)
    }
}

/// Whether the segments `out` are `segments` with their lifetimes replaced.
pub open spec fn ix_segments(
    segments: Seq<PathSegment>,
    out: Seq<PathSegment>,
    ix: Lifetime,
) -> bool
    decreases segments,
{
    &&& out.len() == segments.len()
    &&& segments.len() > 0 ==> {
        let a = segments.last();
        let b = out.last();
        &&& ix_segments(segments.drop_last(), out.drop_last(), ix)
        &&& b.ident == a.ident
        &&& b.span == a.span
        &&& match a.arguments {
            PathArguments::AngleBracketed(x) => match b.arguments {
                PathArguments::AngleBracketed(y) => {
                    &&& y.turbofish == x.turbofish
                    &&& y.span == x.span
                    &&& ix_arguments(x.args@, y.args@, ix)
                },
                _ => false,
            },
            _ => b.arguments == a.arguments,
        }
    }
}

/// Whether the arguments `out` are `args` with their lifetimes replaced.
pub open spec fn ix_arguments(
    args: Seq<GenericArgument>,
    out: Seq<GenericArgument>,
    ix: Lifetime,
) -> bool
    decreases args,
{
    &&& out.len() == args.len()
    &&& args.len() > 0 ==> {
        &&& ix_arguments(args.drop_last(), out.drop_last(), ix)
        &&& match args.last() {
            GenericArgument::Lifetime(_) => out.last() == GenericArgument::Lifetime(ix),
            GenericArgument::Type(a) => match out.last() {
                GenericArgument::Type(b) => ix_form(a, b, ix),
                _ => false,
            },
            GenericArgument::Other { .. } => out.last() == args.last(),
        }
    }
}

fn clone_lifetime(lifetime: &Lifetime) -> (out: Lifetime)
    ensures
        out == *lifetime,
{
    Lifetime { name: lifetime.name.clone(), span: lifetime.span }
}

/// Writes the lifetime of the instruction data into a type: in place of every
/// lifetime argument of a path, and of every elided lifetime of a reference, at any
/// depth. A lifetime that a reference names stays.
pub fn with_ix_lifetime(ty: &Type, ix: &Lifetime) -> (out: Type)
    ensures
        ix_form(*ty, out, *ix),
    decreases ty,
{
    match ty {
        Type::Reference(reference) => {
            let lifetime = match &reference.lifetime {
                Some(lifetime) => if same_text(lifetime.name.as_str(), "_") {
                    Some(clone_lifetime(ix))
                } else {
                    Some(clone_lifetime(lifetime))
                },
                None => Some(clone_lifetime(ix)),
            };
            Type::Reference(
                TypeReference {
                    lifetime,
                    mutable: reference.mutable,
                    elem: Box::new(with_ix_lifetime(&reference.elem, ix)),
                    span: reference.span,
                },
            )
        },
        Type::Path(path) => {
            assert(decreases_to!(ty->Path_0 => ty->Path_0.path.segments@));
            let qself = match &path.qself {
                Some(qself) => Some(
                    QSelf {
                        ty: Box::new(with_ix_lifetime(&qself.ty, ix)),
                        position: qself.position,
                    },
                ),
                None => None,
            };
            Type::Path(
                TypePath {
                    qself,
                    path: Path {
                        leading_colon: path.path.leading_colon,
                        segments: segments_with(&path.path.segments, ix),
                        span: path.path.span,
                    },
                    span: path.span,
                },
            )
        },
        Type::Tuple(tuple) => {
            assert(decreases_to!(ty->Tuple_0 => ty->Tuple_0.elems@));
            Type::Tuple(TypeTuple { elems: types_with(&tuple.elems, ix), span: tuple.span })
        },
        Type::Array { elem, len, span } => Type::Array {
            elem: Box::new(with_ix_lifetime(elem, ix)),
            len: len.clone(),
            span: *span,
        },
        Type::Slice(inner) => Type::Slice(
            Inner { elem: Box::new(with_ix_lifetime(&inner.elem, ix)), span: inner.span },
        ),
        Type::Paren(inner) => Type::Paren(
            Inner { elem: Box::new(with_ix_lifetime(&inner.elem, ix)), span: inner.span },
        ),
        Type::Group(inner) => Type::Group(
            Inner { elem: Box::new(with_ix_lifetime(&inner.elem, ix)), span: inner.span },
        ),
        Type::Pointer { mutable, elem, span } => Type::Pointer {
            mutable: *mutable,
            elem: Box::new(with_ix_lifetime(elem, ix)),
            span: *span,
        },
        Type::Other { tokens, span } => Type::Other { tokens: tokens.clone(), span: *span },
    }
}

fn types_with(types: &Vec<Type>, ix: &Lifetime) -> (out: Vec<Type>)
    ensures
        ix_types(types@, out@, *ix),
    decreases types@,
{
    let mut out: Vec<Type> = Vec::new();
    for i in 0..types.len()
        invariant
            ix_types(types@.take(i as int), out@, *ix),
    {
        assert(types@.take(i + 1).drop_last() == types@.take(i as int));
        assert(decreases_to!(types@ => types@[i as int]));
        let ghost before = out@;
        out.push(with_ix_lifetime(&types[i], ix));
        assert(out@.drop_last() == before);
    }
    assert(types@.take(types@.len() as int) == types@);
    out
}

fn segments_with(segments: &Vec<PathSegment>, ix: &Lifetime) -> (out: Vec<PathSegment>)
    ensures
        ix_segments(segments@, out@, *ix),
    decreases segments@,
{
    let mut out: Vec<PathSegment> = Vec::new();
    for i in 0..segments.len()
        invariant
            ix_segments(segments@.take(i as int), out@, *ix),
    {
        assert(segments@.take(i + 1).drop_last() == segments@.take(i as int));
        let segment = &segments[i];
        let arguments = match &segment.arguments {
            PathArguments::Absent => PathArguments::Absent,
            PathArguments::AngleBracketed(angle) => {
                assert(decreases_to!(segments@[i as int] => segments@[i as int].arguments->AngleBracketed_0.args@));
                PathArguments::AngleBracketed(
                    AngleBracketed {
                        turbofish: angle.turbofish,
                        args: arguments_with(&angle.args, ix),
                        span: angle.span,
                    },
                )
            },
            PathArguments::Parenthesized { tokens, span } => PathArguments::Parenthesized {
                tokens: tokens.clone(),
                span: *span,
            },
        };
        let ident = Ident { text: segment.ident.text.clone(), span: segment.ident.span };
        let ghost before = out@;
        out.push(PathSegment { ident, arguments, span: segment.span });
        assert(out@.drop_last() == before);
    }
    assert(segments@.take(segments@.len() as int) == segments@);
    out
}

fn arguments_with(args: &Vec<GenericArgument>, ix: &Lifetime) -> (out: Vec<GenericArgument>)
    ensures
        ix_arguments(args@, out@, *ix),
    decreases args@,
{
    let mut out: Vec<GenericArgument> = Vec::new();
    for i in 0..args.len()
        invariant
            ix_arguments(args@.take(i as int), out@, *ix),
    {
        assert(args@.take(i + 1).drop_last() == args@.take(i as int));
        let arg = match &args[i] {
            GenericArgument::Lifetime(_) => GenericArgument::Lifetime(clone_lifetime(ix)),
            GenericArgument::Type(ty) => {
                assert(decreases_to!(args@[i as int] => args@[i as int]->Type_0));
                GenericArgument::Type(with_ix_lifetime(ty, ix))
            },
            GenericArgument::Other { tokens, span } => GenericArgument::Other {
                tokens: tokens.clone(),
                span: *span,
            },
        };
        let ghost before = out@;
        out.push(arg);
        assert(out@.drop_last() == before);
    }
    assert(args@.take(args@.len() as int) == args@);
    out
}

// ---------------------------------------------------------------------------
// Laws
// ---------------------------------------------------------------------------

/// What needs the lifetime of the instruction data holds a lifetime.
pub proof fn lemma_borrows_carries(ty: Type)
    requires
        borrows(ty),
    ensures
        carries(ty),
    decreases ty,
{
    match ty {
        Type::Path(a) => {
            lemma_segments_carry(a.path.segments@);
        },
        _ => {},
    }
}

proof fn lemma_segments_carry(segments: Seq<PathSegment>)
    requires
        any_segment_borrows(segments),
    ensures
        any_segment_carries(segments),
    decreases segments,
{
    if any_segment_borrows(segments.drop_last()) {
        lemma_segments_carry(segments.drop_last());
    } else {
        assert(decreases_to!(segments.last() => segments.last().arguments->AngleBracketed_0.args@));
        lemma_arguments_carry(segments.last().arguments->AngleBracketed_0.args@);
    }
}

proof fn lemma_arguments_carry(args: Seq<GenericArgument>)
    requires
        any_argument_borrows(args),
    ensures
        any_argument_carries(args),
    decreases args,
{
    if any_argument_borrows(args.drop_last()) {
        lemma_arguments_carry(args.drop_last());
    } else if args.last() is Type {
        lemma_borrows_carries(args.last()->Type_0);
    }
}

/// A type with its lifetimes replaced is written as the type with the replacing
/// lifetime in their place.
pub proof fn lemma_ix_text(ty: Type, out: Type, ix: Lifetime)
    requires
        ix_form(ty, out, ix),
    ensures
        type_text(out, None) == type_text(ty, Some(ix.name@)),
    decreases ty,
{
    match ty {
        Type::Path(a) => {
            lemma_ix_segments_text(a.path.segments@, out->Path_0.path.segments@, ix);
            if a.qself is Some {
                lemma_ix_text(*a.qself->Some_0.ty, *out->Path_0.qself->Some_0.ty, ix);
            }
        },
        Type::Reference(a) => {
            lemma_ix_text(*a.elem, *out->Reference_0.elem, ix);
        },
        Type::Tuple(a) => {
            lemma_ix_types_text(a.elems@, out->Tuple_0.elems@, ix);
        },
        Type::Array { elem, .. } => {
            lemma_ix_text(*elem, *out->Array_elem, ix);
        },
        Type::Slice(a) => {
            lemma_ix_text(*a.elem, *out->Slice_0.elem, ix);
        },
        Type::Paren(a) => {
            lemma_ix_text(*a.elem, *out->Paren_0.elem, ix);
        },
        Type::Group(a) => {
            lemma_ix_text(*a.elem, *out->Group_0.elem, ix);
        },
        Type::Pointer { elem, .. } => {
            lemma_ix_text(*elem, *out->Pointer_elem, ix);
        },
        Type::Other { .. } => {},
    }
}

proof fn lemma_ix_types_text(types: Seq<Type>, out: Seq<Type>, ix: Lifetime)
    requires
        ix_types(types, out, ix),
    ensures
        out.len() == types.len(),
        type_texts(out, None) == type_texts(types, Some(ix.name@)),
    decreases types,
{
    if types.len() > 0 {
        lemma_ix_types_text(types.drop_last(), out.drop_last(), ix);
        lemma_ix_text(types.last(), out.last(), ix);
    }
}

proof fn lemma_ix_segments_text(segments: Seq<PathSegment>, out: Seq<PathSegment>, ix: Lifetime)
    requires
        ix_segments(segments, out, ix),
    ensures
        segment_texts(out, None) == segment_texts(segments, Some(ix.name@)),
    decreases segments,
{
    if segments.len() > 0 {
        lemma_ix_segments_text(segments.drop_last(), out.drop_last(), ix);
        match segments.last().arguments {
            PathArguments::AngleBracketed(x) => {
                assert(decreases_to!(segments.last() => segments.last().arguments->AngleBracketed_0.args@));
                lemma_ix_arguments_text(x.args@, out.last().arguments->AngleBracketed_0.args@, ix);
            },
            _ => {},
        }
    }
}

proof fn lemma_ix_arguments_text(
    args: Seq<GenericArgument>,
    out: Seq<GenericArgument>,
    ix: Lifetime,
)
    requires
        ix_arguments(args, out, ix),
    ensures
        argument_texts(out, None) == argument_texts(args, Some(ix.name@)),
    decreases args,
{
    if args.len() > 0 {
        lemma_ix_arguments_text(args.drop_last(), out.drop_last(), ix);
        match args.last() {
            GenericArgument::Type(a) => {
                lemma_ix_text(a, out.last()->Type_0, ix);
            },
            _ => {},
        }
    }
}

/// A type that holds no lifetime is its own form with the lifetimes replaced.
pub proof fn lemma_ix_form_unborrowed(ty: Type, ix: Lifetime)
    requires
        !carries(ty),
    ensures
        ix_form(ty, ty, ix),
    decreases ty,
{
    match ty {
        Type::Path(a) => {
            lemma_ix_segments_unborrowed(a.path.segments@, ix);
            if a.qself is Some {
                lemma_ix_form_unborrowed(*a.qself->Some_0.ty, ix);
            }
        },
        Type::Tuple(a) => {
            lemma_ix_types_unborrowed(a.elems@, ix);
        },
        Type::Array { elem, .. } => {
            lemma_ix_form_unborrowed(*elem, ix);
        },
        Type::Slice(a) => {
            lemma_ix_form_unborrowed(*a.elem, ix);
        },
        Type::Paren(a) => {
            lemma_ix_form_unborrowed(*a.elem, ix);
        },
        Type::Group(a) => {
            lemma_ix_form_unborrowed(*a.elem, ix);
        },
        Type::Pointer { elem, .. } => {
            lemma_ix_form_unborrowed(*elem, ix);
        },
        _ => {},
    }
}

/// A type in which there is nothing to replace is written as it was.
pub proof fn lemma_unborrowed_stays(ty: Type, out: Type, ix: Lifetime)
    requires
        !carries(ty),
        ix_form(ty, out, ix),
    ensures
        type_text(out, None) == type_text(ty, None),
        !borrows(ty),
{
    lemma_ix_form_unborrowed(ty, ix);
    lemma_ix_text(ty, ty, ix);
    lemma_ix_text(ty, out, ix);
    if borrows(ty) {
        lemma_borrows_carries(ty);
    }
}

proof fn lemma_ix_types_unborrowed(types: Seq<Type>, ix: Lifetime)
    requires
        !any_carries(types),
    ensures
        ix_types(types, types, ix),
    decreases types,
{
    if types.len() > 0 {
        lemma_ix_types_unborrowed(types.drop_last(), ix);
        lemma_ix_form_unborrowed(types.last(), ix);
    }
}

proof fn lemma_ix_segments_unborrowed(segments: Seq<PathSegment>, ix: Lifetime)
    requires
        !any_segment_carries(segments),
    ensures
        ix_segments(segments, segments, ix),
    decreases segments,
{
    if segments.len() > 0 {
        lemma_ix_segments_unborrowed(segments.drop_last(), ix);
        match segments.last().arguments {
            PathArguments::AngleBracketed(x) => {
                assert(decreases_to!(segments.last() => segments.last().arguments->AngleBracketed_0.args@));
                lemma_ix_arguments_unborrowed(x.args@, ix);
            },
            _ => {},
        }
    }
}

proof fn lemma_ix_arguments_unborrowed(args: Seq<GenericArgument>, ix: Lifetime)
    requires
        !any_argument_carries(args),
    ensures
        ix_arguments(args, args, ix),
    decreases args,
{
    if args.len() > 0 {
        lemma_ix_arguments_unborrowed(args.drop_last(), ix);
        match args.last() {
            GenericArgument::Type(a) => {
                lemma_ix_form_unborrowed(a, ix);
            },
            _ => {},
        }
    }
}

/// Replacing the lifetimes a second time changes nothing.
pub proof fn lemma_ix_form_twice(ty: Type, out: Type, ix: Lifetime)
    requires
        ix_form(ty, out, ix),
    ensures
        ix_form(out, out, ix),
    decreases ty,
{
    match ty {
        Type::Path(a) => {
            lemma_ix_segments_twice(a.path.segments@, out->Path_0.path.segments@, ix);
            if a.qself is Some {
                lemma_ix_form_twice(*a.qself->Some_0.ty, *out->Path_0.qself->Some_0.ty, ix);
            }
        },
        Type::Reference(a) => {
            lemma_ix_form_twice(*a.elem, *out->Reference_0.elem, ix);
        },
        Type::Tuple(a) => {
            lemma_ix_types_twice(a.elems@, out->Tuple_0.elems@, ix);
        },
        Type::Array { elem, .. } => {
            lemma_ix_form_twice(*elem, *out->Array_elem, ix);
        },
        Type::Slice(a) => {
            lemma_ix_form_twice(*a.elem, *out->Slice_0.elem, ix);
        },
        Type::Paren(a) => {
            lemma_ix_form_twice(*a.elem, *out->Paren_0.elem, ix);
        },
        Type::Group(a) => {
            lemma_ix_form_twice(*a.elem, *out->Group_0.elem, ix);
        },
        Type::Pointer { elem, .. } => {
            lemma_ix_form_twice(*elem, *out->Pointer_elem, ix);
        },
        Type::Other { .. } => {},
    }
}

proof fn lemma_ix_types_twice(types: Seq<Type>, out: Seq<Type>, ix: Lifetime)
    requires
        ix_types(types, out, ix),
    ensures
        ix_types(out, out, ix),
    decreases types,
{
    if types.len() > 0 {
        lemma_ix_types_twice(types.drop_last(), out.drop_last(), ix);
        lemma_ix_form_twice(types.last(), out.last(), ix);
    }
}

proof fn lemma_ix_segments_twice(segments: Seq<PathSegment>, out: Seq<PathSegment>, ix: Lifetime)
    requires
        ix_segments(segments, out, ix),
    ensures
        ix_segments(out, out, ix),
    decreases segments,
{
    if segments.len() > 0 {
        lemma_ix_segments_twice(segments.drop_last(), out.drop_last(), ix);
        match segments.last().arguments {
            PathArguments::AngleBracketed(x) => {
                assert(decreases_to!(segments.last() => segments.last().arguments->AngleBracketed_0.args@));
                lemma_ix_arguments_twice(x.args@, out.last().arguments->AngleBracketed_0.args@, ix);
            },
            _ => {},
        }
    }
}

proof fn lemma_ix_arguments_twice(
    args: Seq<GenericArgument>,
    out: Seq<GenericArgument>,
    ix: Lifetime,
)
    requires
        ix_arguments(args, out, ix),
    ensures
        ix_arguments(out, out, ix),
    decreases args,
{
    if args.len() > 0 {
        lemma_ix_arguments_twice(args.drop_last(), out.drop_last(), ix);
        match args.last() {
            GenericArgument::Type(a) => {
                lemma_ix_form_twice(a, out.last()->Type_0, ix);
            },
            _ => {},
        }
    }
}

} // verus!
