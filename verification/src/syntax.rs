//! Types and paths as the macros see them.

use crate::failure::Span;
use crate::text::{join_strings, joined, texts};
use vstd::prelude::*;

verus! {

/// An identifier. A raw identifier keeps its prefix.
pub struct Ident {
    pub text: String,
    pub span: Span,
}

/// A lifetime, named without its apostrophe.
pub struct Lifetime {
    pub name: String,
    pub span: Span,
}

/// A type.
pub enum Type {
    Path(TypePath),
    Reference(TypeReference),
    /// A tuple. The unit type is the empty one.
    Tuple(TypeTuple),
    /// An array. Its length is an expression, as text.
    Array { elem: Box<Type>, len: String, span: Span },
    Slice(Inner),
    /// A type in round brackets.
    Paren(Inner),
    /// A type that a macro put together.
    Group(Inner),
    /// A raw pointer.
    Pointer { mutable: bool, elem: Box<Type>, span: Span },
    /// Any other type, as it is written.
    Other { tokens: String, span: Span },
}

/// A tuple type.
pub struct TypeTuple {
    pub elems: Vec<Type>,
    pub span: Span,
}

/// The type inside another.
pub struct Inner {
    pub elem: Box<Type>,
    pub span: Span,
}

/// A type named by a path.
pub struct TypePath {
    pub qself: Option<QSelf>,
    pub path: Path,
    pub span: Span,
}

/// What a qualified path is qualified by: `ty`, as the type that the first
/// `position` segments of the path name.
pub struct QSelf {
    pub ty: Box<Type>,
    pub position: usize,
}

/// A path.
pub struct Path {
    pub leading_colon: bool,
    pub segments: Vec<PathSegment>,
    pub span: Span,
}

/// A segment of a path.
pub struct PathSegment {
    pub ident: Ident,
    pub arguments: PathArguments,
    pub span: Span,
}

/// The arguments of a path segment.
pub enum PathArguments {
    Absent,
    AngleBracketed(AngleBracketed),
    /// Arguments in round brackets, as they are written.
    Parenthesized { tokens: String, span: Span },
}

/// Generic arguments in angle brackets.
pub struct AngleBracketed {
    pub turbofish: bool,
    pub args: Vec<GenericArgument>,
    pub span: Span,
}

/// A generic argument.
pub enum GenericArgument {
    Lifetime(Lifetime),
    Type(Type),
    /// Any other argument, as it is written.
    Other { tokens: String, span: Span },
}

/// A reference type.
pub struct TypeReference {
    pub lifetime: Option<Lifetime>,
    pub mutable: bool,
    pub elem: Box<Type>,
    pub span: Span,
}

/// Where a type stands.
pub open spec fn type_span(ty: Type) -> Span {
    match ty {
        Type::Path(path) => path.span,
        Type::Reference(reference) => reference.span,
        Type::Tuple(tuple) => tuple.span,
        Type::Array { span, .. } => span,
        Type::Slice(inner) => inner.span,
        Type::Paren(inner) => inner.span,
        Type::Group(inner) => inner.span,
        Type::Pointer { span, .. } => span,
        Type::Other { span, .. } => span,
    }
}

/// Whether a type is the empty tuple.
pub open spec fn is_unit(ty: Type) -> bool {
    ty matches Type::Tuple(tuple) && tuple.elems@.len() == 0
}

/// Where a generic argument stands.
pub open spec fn argument_span(arg: GenericArgument) -> Span {
    match arg {
        GenericArgument::Lifetime(lifetime) => lifetime.span,
        GenericArgument::Type(ty) => type_span(ty),
        GenericArgument::Other { span, .. } => span,
    }
}

impl Type {
    /// Whether the type is the empty tuple.
    pub fn is_unit(&self) -> (unit: bool)
        ensures
            unit == is_unit(*self),
    {
        match self {
            Type::Tuple(tuple) => tuple.elems.len() == 0,
            _ => false,
        }
    }

    /// Where the type stands.
    pub fn span(&self) -> (span: Span)
        ensures
            span == type_span(*self),
    {
        match self {
            Type::Path(path) => path.span,
            Type::Reference(reference) => reference.span,
            Type::Tuple(tuple) => tuple.span,
            Type::Array { span, .. } => *span,
            Type::Slice(inner) => inner.span,
            Type::Paren(inner) => inner.span,
            Type::Group(inner) => inner.span,
            Type::Pointer { span, .. } => *span,
            Type::Other { span, .. } => *span,
        }
    }
}

impl GenericArgument {
    /// Where the argument stands.
    pub fn span(&self) -> (span: Span)
        ensures
            span == argument_span(*self),
    {
        match self {
            GenericArgument::Lifetime(lifetime) => lifetime.span,
            GenericArgument::Type(ty) => ty.span(),
            GenericArgument::Other { span, .. } => *span,
        }
    }
}

// ---------------------------------------------------------------------------
// Types as text
// ---------------------------------------------------------------------------

/// Whether a reference leaves its lifetime out, or writes it as an underscore.
pub open spec fn is_elided(lifetime: Option<Lifetime>) -> bool {
    match lifetime {
        None => true,
        Some(lifetime) => lifetime.name@ == "_"@,
    }
}

/// A lifetime as text.
pub open spec fn lifetime_text(name: Seq<char>) -> Seq<char> {
    "'"@ + name
}

/// The lifetime of a reference as text, with a blank behind it. With `ix` given,
/// it stands in for an elided lifetime.
pub open spec fn reference_lifetime(lifetime: Option<Lifetime>, ix: Option<Seq<char>>) -> Seq<
    char,
> {
    match ix {
        Some(name) if is_elided(lifetime) => lifetime_text(name) + " "@,
        _ => match lifetime {
            Some(lifetime) => lifetime_text(lifetime.name@) + " "@,
            None => ""@,
        },
    }
}

/// A type as text. With `ix` given, every lifetime argument of a path and every
/// elided lifetime of a reference is written as `ix`.
pub open spec fn type_text(ty: Type, ix: Option<Seq<char>>) -> Seq<char>
    decreases ty,
{
    match ty {
        Type::Path(path) => qualified_text(
            match path.qself {
                Some(qself) => Some((type_text(*qself.ty, ix), qself.position)),
                None => None,
            },
            path.path.leading_colon,
            segment_texts(path.path.segments@, ix),
        ),
        Type::Reference(reference) => "& "@ + reference_lifetime(reference.lifetime, ix) + (
        if reference.mutable {
            "mut "@
        } else {
            ""@
        }) + type_text(*reference.elem, ix),
        Type::Tuple(tuple) => "("@ + joined(type_texts(tuple.elems@, ix), ", "@) + (
        if tuple.elems@.len() == 1 {
            ",)"@
        } else {
            ")"@
        }),
        Type::Array { elem, len, .. } => "["@ + type_text(*elem, ix) + "; "@ + len@ + "]"@,
        Type::Slice(inner) => "["@ + type_text(*inner.elem, ix) + "]"@,
        Type::Paren(inner) => "("@ + type_text(*inner.elem, ix) + ")"@,
        Type::Group(inner) => type_text(*inner.elem, ix),
        Type::Pointer { mutable, elem, .. } => (if mutable {
            "* mut "@
        } else {
            "* const "@
        }) + type_text(*elem, ix),
        Type::Other { tokens, .. } => tokens@,
    }
}

/// Each type as text.
pub open spec fn type_texts(types: Seq<Type>, ix: Option<Seq<char>>) -> Seq<Seq<char>>
    decreases types,
{
    if types.len() == 0 {
        Seq::empty()
    } else {
        type_texts(types.drop_last(), ix).push(type_text(types.last(), ix))
    }
}

/// Each segment of a path as text.
pub open spec fn segment_texts(segments: Seq<PathSegment>, ix: Option<Seq<char>>) -> Seq<Seq<char>>
    decreases segments,
{
    if segments.len() == 0 {
        Seq::empty()
    } else {
        let last = segments.last();
        segment_texts(segments.drop_last(), ix).push(
            last.ident.text@ + (match last.arguments {
                PathArguments::Absent => ""@,
                PathArguments::AngleBracketed(angle) => (if angle.turbofish {
                    "::<"@
                } else {
                    "<"@
                }) + joined(argument_texts(angle.args@, ix), ", "@) + ">"@,
                PathArguments::Parenthesized { tokens, .. } => tokens@,
            }),
        )
    }
}

/// Each generic argument as text.
pub open spec fn argument_texts(args: Seq<GenericArgument>, ix: Option<Seq<char>>) -> Seq<Seq<char>>
    decreases args,
{
    if args.len() == 0 {
        Seq::empty()
    } else {
        argument_texts(args.drop_last(), ix).push(
            match args.last() {
                GenericArgument::Lifetime(lifetime) => lifetime_text(
                    match ix {
                        Some(name) => name,
                        None => lifetime.name@,
                    },
                ),
                GenericArgument::Type(ty) => type_text(ty, ix),
                GenericArgument::Other { tokens, .. } => tokens@,
            },
        )
    }
}

/// The colons that a path begins with.
pub open spec fn leading_text(leading_colon: bool) -> Seq<char> {
    if leading_colon {
        "::"@
    } else {
        ""@
    }
}

/// A path as text, from its segments as texts.
pub open spec fn plain_text(leading_colon: bool, segments: Seq<Seq<char>>) -> Seq<char> {
    leading_text(leading_colon) + joined(segments, "::"@)
}

/// A path that may be qualified as text, from its segments as texts. It is qualified by
/// a type, given as text, and the number of segments that name what the type is taken as.
pub open spec fn qualified_text(
    qself: Option<(Seq<char>, usize)>,
    leading_colon: bool,
    segments: Seq<Seq<char>>,
) -> Seq<char> {
    match qself {
        None => plain_text(leading_colon, segments),
        Some((ty, position)) if position == 0 => "<"@ + ty + ">"@ + plain_text(
            leading_colon,
            segments,
        ),
        Some((ty, position)) if position >= segments.len() => "<"@ + ty + " as "@ + plain_text(
            leading_colon,
            segments,
        ) + ">"@,
        Some((ty, position)) => "<"@ + ty + " as "@ + plain_text(
            leading_colon,
            segments.take(position as int),
        ) + ">::"@ + joined(segments.skip(position as int), "::"@),
    }
}

/// A path as text.
pub open spec fn path_text(path: Path) -> Seq<char> {
    plain_text(path.leading_colon, segment_texts(path.segments@, None))
}

fn print_plain(leading_colon: bool, segments: &Vec<String>) -> (out: String)
    ensures
        out@ == plain_text(leading_colon, texts(segments@)),
{
    let lead = if leading_colon {
        "::".to_owned()
    } else {
        "".to_owned()
    };
    lead.concat(join_strings(segments, "::").as_str())
}

/// The strings from one position to another.
pub fn slice_strings(list: &Vec<String>, from: usize, to: usize) -> (out: Vec<String>)
    requires
        from <= to <= list@.len(),
    ensures
        texts(out@) == texts(list@).subrange(from as int, to as int),
{
    let mut out: Vec<String> = Vec::new();
    for i in from..to
        invariant
            from <= to <= list@.len(),
            texts(out@) == texts(list@).subrange(from as int, i as int),
    {
        let ghost before = texts(out@);
        out.push(list[i].clone());
        assert(texts(out@) == before.push(list@[i as int]@));
        assert(texts(list@).subrange(from as int, i + 1) == texts(list@).subrange(
            from as int,
            i as int,
        ).push(texts(list@)[i as int]));
    }
    out
}

fn print_qualified(qself: &Option<(String, usize)>, leading_colon: bool, segments: &Vec<String>) -> (out:
    String)
    ensures
        out@ == qualified_text(
            match *qself {
                Some((ty, position)) => Some((ty@, position)),
                None => None,
            },
            leading_colon,
            texts(segments@),
        ),
{
    match qself {
        None => print_plain(leading_colon, segments),
        Some((ty, position)) => {
            let position: usize = *position;
            let head = "<".to_owned().concat(ty.as_str());
            if position == 0 {
                head.concat(">").concat(print_plain(leading_colon, segments).as_str())
            } else if position >= segments.len() {
                head.concat(" as ").concat(print_plain(leading_colon, segments).as_str()).concat(
                    ">",
                )
            } else {
                let first = slice_strings(segments, 0, position);
                let rest = slice_strings(segments, position, segments.len());
                head.concat(" as ").concat(print_plain(leading_colon, &first).as_str()).concat(
                    ">::",
                ).concat(join_strings(&rest, "::").as_str())
            }
        },
    }
}

/// Writes a type.
pub fn print_type(ty: &Type) -> (out: String)
    ensures
        out@ == type_text(*ty, None),
    decreases ty,
{
    match ty {
        Type::Path(path) => {
            assert(decreases_to!(ty->Path_0 => ty->Path_0.path.segments@));
            let segments = print_segments(&path.path.segments);
            let qself = match &path.qself {
                Some(qself) => Some((print_type(&qself.ty), qself.position)),
                None => None,
            };
            print_qualified(&qself, path.path.leading_colon, &segments)
        },
        Type::Reference(reference) => {
            let lifetime = match &reference.lifetime {
                Some(lifetime) => "'".to_owned().concat(lifetime.name.as_str()).concat(" "),
                None => "".to_owned(),
            };
            let mutable = if reference.mutable {
                "mut "
            } else {
                ""
            };
            let elem = print_type(&reference.elem);
            "& ".to_owned().concat(lifetime.as_str()).concat(mutable).concat(elem.as_str())
        },
        Type::Tuple(tuple) => {
            assert(decreases_to!(ty->Tuple_0 => ty->Tuple_0.elems@));
            let elems = print_types(&tuple.elems);
            let close = if tuple.elems.len() == 1 {
                ",)"
            } else {
                ")"
            };
            "(".to_owned().concat(join_strings(&elems, ", ").as_str()).concat(close)
        },
        Type::Array { elem, len, .. } => "[".to_owned().concat(print_type(elem).as_str()).concat(
            "; ",
        ).concat(len.as_str()).concat("]"),
        Type::Slice(inner) => "[".to_owned().concat(print_type(&inner.elem).as_str()).concat("]"),
        Type::Paren(inner) => "(".to_owned().concat(print_type(&inner.elem).as_str()).concat(")"),
        Type::Group(inner) => print_type(&inner.elem),
        Type::Pointer { mutable, elem, .. } => {
            let head = if *mutable {
                "* mut ".to_owned()
            } else {
                "* const ".to_owned()
            };
            head.concat(print_type(elem).as_str())
        },
        Type::Other { tokens, .. } => tokens.clone(),
    }
}

fn print_types(types: &Vec<Type>) -> (out: Vec<String>)
    ensures
        texts(out@) == type_texts(types@, None),
    decreases types@,
{
    let mut out: Vec<String> = Vec::new();
    assert(texts(out@) == Seq::<Seq<char>>::empty());
    for i in 0..types.len()
        invariant
            texts(out@) == type_texts(types@.take(i as int), None),
    {
        assert(types@.take(i + 1).drop_last() == types@.take(i as int));
        assert(decreases_to!(types@ => types@[i as int]));
        let ghost before = texts(out@);
        let text = print_type(&types[i]);
        out.push(text);
        assert(texts(out@) == before.push(text@));
    }
    assert(types@.take(types@.len() as int) == types@);
    out
}

/// Writes each segment of a path.
pub fn print_segments(segments: &Vec<PathSegment>) -> (out: Vec<String>)
    ensures
        texts(out@) == segment_texts(segments@, None),
    decreases segments@,
{
    let mut out: Vec<String> = Vec::new();
    assert(texts(out@) == Seq::<Seq<char>>::empty());
    for i in 0..segments.len()
        invariant
            texts(out@) == segment_texts(segments@.take(i as int), None),
    {
        assert(segments@.take(i + 1).drop_last() == segments@.take(i as int));
        let ghost before = texts(out@);
        let segment = &segments[i];
        let arguments = match &segment.arguments {
            PathArguments::Absent => "".to_owned(),
            PathArguments::AngleBracketed(angle) => {
                assert(decreases_to!(segments@[i as int] => segments@[i as int].arguments->AngleBracketed_0.args@));
                let open = if angle.turbofish {
                    "::<".to_owned()
                } else {
                    "<".to_owned()
                };
                let args = print_arguments(&angle.args);
                open.concat(join_strings(&args, ", ").as_str()).concat(">")
            },
            PathArguments::Parenthesized { tokens, .. } => tokens.clone(),
        };
        let text = segment.ident.text.clone().concat(arguments.as_str());
        out.push(text);
        assert(texts(out@) == before.push(text@));
    }
    assert(segments@.take(segments@.len() as int) == segments@);
    out
}

fn print_arguments(args: &Vec<GenericArgument>) -> (out: Vec<String>)
    ensures
        texts(out@) == argument_texts(args@, None),
    decreases args@,
{
    let mut out: Vec<String> = Vec::new();
    assert(texts(out@) == Seq::<Seq<char>>::empty());
    for i in 0..args.len()
        invariant
            texts(out@) == argument_texts(args@.take(i as int), None),
    {
        assert(args@.take(i + 1).drop_last() == args@.take(i as int));
        let ghost before = texts(out@);
        let text = match &args[i] {
            GenericArgument::Lifetime(lifetime) => "'".to_owned().concat(lifetime.name.as_str()),
            GenericArgument::Type(ty) => {
                assert(decreases_to!(args@[i as int] => args@[i as int]->Type_0));
                print_type(ty)
            },
            GenericArgument::Other { tokens, .. } => tokens.clone(),
        };
        out.push(text);
        assert(texts(out@) == before.push(text@));
    }
    assert(args@.take(args@.len() as int) == args@);
    out
}

/// Writes a path.
pub fn print_path(path: &Path) -> (out: String)
    ensures
        out@ == path_text(*path),
{
    let segments = print_segments(&path.segments);
    print_plain(path.leading_colon, &segments)
}

} // verus!
