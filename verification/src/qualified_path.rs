//! The accounts struct of a handler, and the modules generated beside it.

use crate::cpi_accounts::found;
use crate::failure::{code_view, diagnostic, new_diagnostic, Failure, FailureView};
use crate::handler_fn::FnArg;
use crate::names::{item_name, new_ident};
use crate::outside::{lowercase, lowercase_of};
use crate::syntax::{
    argument_span, is_unit, segment_texts, type_span, AngleBracketed, GenericArgument, Ident, Path,
    PathArguments, PathSegment, Type,
};
use crate::text::{same_text, terminate_strings, terminated};
use vstd::prelude::*;

verus! {

/// A path to a type, and the name of that type.
pub struct QualifiedTypePath<'a> {
    pub path: &'a Path,
    pub leaf_ident: &'a Ident,
}

/// The path, or the failure.
pub open spec fn qualified_view(path: Result<QualifiedTypePath, Failure>) -> Result<
    Path,
    FailureView,
> {
    match path {
        Ok(path) => Ok(*path.path),
        Err(failure) => Err(failure@),
    }
}

/// The name that a path ends with.
pub open spec fn leaf(path: Path) -> Ident {
    path.segments@.last().ident
}

/// The given text as often as said.
pub open spec fn repeated(text: Seq<char>, times: nat) -> Seq<char>
    decreases times,
{
    if times == 0 {
        Seq::empty()
    } else {
        repeated(text, (times - 1) as nat) + text
    }
}

/// Whether the first of the given segments is the given name.
pub open spec fn begins_with(segments: Seq<PathSegment>, name: Seq<char>) -> bool {
    segments.len() > 0 && segments[0].ident.text@ == name
}

/// The path from a module to the module that is generated beside a type: as many
/// modules up as said, unless the path to the type is absolute, then the way to the
/// type, then the prefix with the name of the type in lower case.
pub open spec fn helper_module(path: Path, prefix: Seq<char>, depth: nat) -> Result<
    Seq<char>,
    FailureView,
> {
    let way = path.segments@.drop_last();
    let absolute = path.leading_colon || begins_with(way, "crate"@);
    let rest = if begins_with(way, "self"@) {
        way.skip(1)
    } else {
        way
    };
    match item_name(prefix + lowercase_of(leaf(path).text@)) {
        Err(failure) => Err(failure),
        Ok(name) => Ok(
            (if absolute {
                ""@
            } else {
                repeated("super::"@, depth)
            }) + terminated(segment_texts(rest, None), "::"@) + name,
        ),
    }
}

fn repeat(text: &str, times: usize) -> (out: String)
    ensures
        out@ == repeated(text@, times as nat),
{
    let mut out = String::new();
    for i in 0..times
        invariant
            out@ == repeated(text@, i as nat),
    {
        out.append(text);
    }
    out
}

proof fn lemma_segment_texts(segments: Seq<PathSegment>, from: int, to: int)
    requires
        0 <= from <= to <= segments.len(),
    ensures
        segment_texts(segments, None).len() == segments.len(),
        segment_texts(segments.subrange(from, to), None) == segment_texts(
            segments,
            None,
        ).subrange(from, to),
    decreases segments.len(), to - from,
{
    if segments.len() > 0 {
        lemma_segment_texts(segments.drop_last(), 0, 0);
    }
    if from < to {
        if to == segments.len() {
            lemma_segment_texts(segments.drop_last(), from, to - 1);
            assert(segments.subrange(from, to).drop_last() == segments.drop_last().subrange(
                from,
                to - 1,
            ));
            assert(segments.subrange(from, to).last() == segments.last());
        } else {
            lemma_segment_texts(segments.drop_last(), from, to);
            assert(segments.subrange(from, to) == segments.drop_last().subrange(from, to));
        }
    } else {
        assert(segments.subrange(from, to).len() == 0);
    }
}

impl<'a> QualifiedTypePath<'a> {
    /// A path with its last name; nothing where the path is empty.
    pub fn from_path(path: &'a Path) -> (out: Option<QualifiedTypePath<'a>>)
        ensures
            match out {
                Some(found) => path.segments@.len() > 0 && *found.path == *path
                    && *found.leaf_ident == leaf(*path),
                None => path.segments@.len() == 0,
            },
    {
        if path.segments.len() == 0 {
            return None;
        }
        Some(
            QualifiedTypePath {
                path,
                leaf_ident: &path.segments[path.segments.len() - 1].ident,
            },
        )
    }

    /// The path that names a type, with its last name.
    pub fn from_type(ty: &'a Type) -> (out: Option<QualifiedTypePath<'a>>)
        ensures
            match ty {
                Type::Path(path) => match out {
                    Some(found) => path.path.segments@.len() > 0 && *found.path == path.path
                        && *found.leaf_ident == leaf(path.path),
                    None => path.path.segments@.len() == 0,
                },
                _ => out is None,
            },
    {
        match ty {
            Type::Path(path) => QualifiedTypePath::from_path(&path.path),
            _ => None,
        }
    }

    /// The path to the module that is generated beside the type.
    pub fn helper_module_path(&self, prefix: &str, relative_depth: usize) -> (out: Result<
        String,
        Failure,
    >)
        requires
            self.path.segments@.len() > 0,
            *self.leaf_ident == leaf(*self.path),
        ensures
            code_view(out) == helper_module(*self.path, prefix@, relative_depth as nat),
    {
        let name = prefix.to_owned().concat(lowercase(self.leaf_ident.text.as_str()).as_str());
        let helper = match new_ident(name) {
            Ok(helper) => helper,
            Err(failure) => return Err(failure),
        };
        let segments = &self.path.segments;
        let all = crate::syntax::print_segments(segments);
        let count: usize = segments.len() - 1;
        let ghost way = segments@.drop_last();
        let has_way = count > 0;
        let absolute = self.path.leading_colon || (has_way && same_text(
            segments[0].ident.text.as_str(),
            "crate",
        ));
        let from: usize = if has_way && same_text(segments[0].ident.text.as_str(), "self") {
            1
        } else {
            0
        };
        proof {
            lemma_segment_texts(segments@, from as int, count as int);
            assert(way.skip(0) == way);
            assert(segments@.subrange(from as int, count as int) == way.skip(from as int));
        }
        let rest = crate::syntax::slice_strings(&all, from, count);
        let up = if absolute {
            "".to_owned()
        } else {
            repeat("super::", relative_depth)
        };
        Ok(up.concat(terminate_strings(&rest, "::").as_str()).concat(helper.as_str()))
    }
}

// ---------------------------------------------------------------------------
// What a handler returns
// ---------------------------------------------------------------------------

/// Whether a type is the empty tuple.
pub fn is_unit_type(ty: &Type) -> (unit: bool)
    ensures
        unit == is_unit(*ty),
{
    ty.is_unit()
}

/// What a handler must return.
pub const RETURN_FORM: &'static str = "handler return type must be `Result<T>`";

/// The value that a handler returns; nothing where it returns none.
pub open spec fn returned(output: Option<Type>) -> Result<Option<Type>, FailureView> {
    match output {
        None => Ok(None),
        Some(ty) => match result_value(ty) {
            None => Err(diagnostic(type_span(ty), RETURN_FORM@)),
            Some(value) => if is_unit(value) {
                Ok(None)
            } else {
                Ok(Some(value))
            },
        },
    }
}

/// The first argument of a `Result`, where it is a type.
pub open spec fn result_value(ty: Type) -> Option<Type> {
    match ty {
        Type::Path(path) => if path.path.segments@.len() > 0 && leaf(path.path).text@
            == "Result"@ {
            match path.path.segments@.last().arguments {
                PathArguments::AngleBracketed(angle) => if angle.args@.len() > 0 {
                    match angle.args@[0] {
                        GenericArgument::Type(value) => Some(value),
                        _ => None,
                    }
                } else {
                    None
                },
                _ => None,
            }
        } else {
            None
        },
        _ => None,
    }
}

/// The type or its absence, or the failure.
pub open spec fn returned_view(out: Result<Option<&Type>, Failure>) -> Result<
    Option<Type>,
    FailureView,
> {
    match out {
        Ok(ty) => Ok(found(ty)),
        Err(failure) => Err(failure@),
    }
}

fn find_result_value(ty: &Type) -> (out: Option<&Type>)
    ensures
        found(out) == result_value(*ty),
{
    match ty {
        Type::Path(path) => {
            let segments = &path.path.segments;
            if segments.len() == 0 {
                return None;
            }
            let segment = &segments[segments.len() - 1];
            if !same_text(segment.ident.text.as_str(), "Result") {
                return None;
            }
            match &segment.arguments {
                PathArguments::AngleBracketed(angle) => if angle.args.len() > 0 {
                    match &angle.args[0] {
                        GenericArgument::Type(value) => Some(value),
                        _ => None,
                    }
                } else {
                    None
                },
                _ => None,
            }
        },
        _ => None,
    }
}

/// The value that a handler returns; nothing where it returns none.
pub fn extract_result_return_type(output: &Option<Type>) -> (out: Result<Option<&Type>, Failure>)
    ensures
        returned_view(out) == returned(*output),
{
    match output {
        None => Ok(None),
        Some(ty) => match find_result_value(ty) {
            None => Err(new_diagnostic(ty.span(), RETURN_FORM.to_owned())),
            Some(value) => if is_unit_type(value) {
                Ok(None)
            } else {
                Ok(Some(value))
            },
        },
    }
}

// ---------------------------------------------------------------------------
// The context of a handler
// ---------------------------------------------------------------------------

/// What the first parameter must be.
pub const CONTEXT_FORM: &'static str = "first parameter must be `ctx: &mut Context<T>`";

/// What a context with several arguments that is passed by value is answered.
pub const OLD_CONTEXT: &'static str = "Anchor v2 handlers take `ctx: &mut Context<Accounts>`. The v1 multi-lifetime form `Context<'_, '_, 'info, 'info, Accounts<'info>>` is not supported; use `ctx: &mut Context<Buy>`.";

/// What a context that is passed by value is answered.
pub const CONTEXT_BY_VALUE: &'static str =
    "handler context must be passed by mutable reference: use `ctx: &mut Context<T>`";

/// What a context that is passed by shared reference is answered.
pub const CONTEXT_SHARED: &'static str =
    "handler context must be mutable: use `ctx: &mut Context<T>`";

/// What a reference to something that is no path is answered.
pub const CONTEXT_UNREADABLE: &'static str =
    "could not parse handler context - expected `Context<YourAccountsStruct>`";

/// What a context without arguments is answered.
pub const ACCOUNTS_MISSING: &'static str =
    "missing accounts type: expected `Context<YourAccountsStruct>`";

/// What a context with several arguments is answered.
pub const ONE_ACCOUNTS_TYPE: &'static str = "Anchor v2 `Context` takes exactly one accounts type. Use `ctx: &mut Context<Buy>` instead of the v1 form `Context<'_, '_, 'info, 'info, Buy<'info>>`.";

/// What a context whose argument is no struct is answered.
pub const ACCOUNTS_FORM: &'static str =
    "Context generic must be an accounts struct type, for example `Context<Buy>`";

/// What an accounts struct with arguments is answered.
pub const ACCOUNTS_WITH_ARGUMENTS: &'static str = "Anchor v2 account structs in handler contexts do not take `'info`; use `Context<Buy>` instead of `Context<Buy<'info>>`.";

/// What a first parameter that is no reference is answered.
pub open spec fn by_value_failure(ty: Type) -> FailureView {
    match ty {
        Type::Path(path) => if path.path.segments@.len() > 0 && leaf(path.path).text@
            == "Context"@ {
            match path.path.segments@.last().arguments {
                PathArguments::AngleBracketed(angle) => if angle.args@.len() != 1 {
                    diagnostic(angle.span, OLD_CONTEXT@)
                } else {
                    diagnostic(path.span, CONTEXT_BY_VALUE@)
                },
                _ => diagnostic(path.span, CONTEXT_BY_VALUE@),
            }
        } else {
            diagnostic(path.span, CONTEXT_FORM@)
        },
        _ => diagnostic(type_span(ty), CONTEXT_FORM@),
    }
}

/// The accounts struct that an argument of a context names.
pub open spec fn accounts_argument(arg: GenericArgument) -> Result<Path, FailureView> {
    match arg {
        GenericArgument::Type(Type::Path(accounts)) => if accounts.path.segments@.len() == 0 {
            Err(diagnostic(accounts.span, ACCOUNTS_FORM@))
        } else {
            match accounts.path.segments@.last().arguments {
                PathArguments::Absent => Ok(accounts.path),
                PathArguments::AngleBracketed(angle) => Err(
                    diagnostic(angle.span, ACCOUNTS_WITH_ARGUMENTS@),
                ),
                PathArguments::Parenthesized { span, .. } => Err(
                    diagnostic(span, ACCOUNTS_WITH_ARGUMENTS@),
                ),
            }
        },
        _ => Err(diagnostic(argument_span(arg), ACCOUNTS_FORM@)),
    }
}

/// The accounts struct in a type that must be a context.
pub open spec fn context_accounts(ty: Type) -> Result<Path, FailureView> {
    match ty {
        Type::Path(context) => if context.path.segments@.len() == 0 {
            Err(diagnostic(context.span, CONTEXT_UNREADABLE@))
        } else {
            let segment = context.path.segments@.last();
            if segment.ident.text@ != "Context"@ {
                Err(diagnostic(segment.ident.span, CONTEXT_FORM@))
            } else {
                match segment.arguments {
                    PathArguments::AngleBracketed(angle) => if angle.args@.len() != 1 {
                        Err(diagnostic(angle.span, ONE_ACCOUNTS_TYPE@))
                    } else {
                        accounts_argument(angle.args@[0])
                    },
                    _ => Err(diagnostic(segment.span, ACCOUNTS_MISSING@)),
                }
            }
        },
        _ => Err(diagnostic(type_span(ty), CONTEXT_UNREADABLE@)),
    }
}

/// The accounts struct in the first parameter of a handler.
pub open spec fn handler_accounts(arg: FnArg) -> Result<Path, FailureView> {
    match arg {
        FnArg::Receiver { span, .. } => Err(diagnostic(span, CONTEXT_FORM@)),
        FnArg::Typed(typed) => match typed.ty {
            Type::Reference(reference) => if !reference.mutable {
                Err(diagnostic(reference.span, CONTEXT_SHARED@))
            } else {
                context_accounts(*reference.elem)
            },
            other => Err(by_value_failure(other)),
        },
    }
}

fn explain_by_value(ty: &Type) -> (failure: Failure)
    ensures
        failure@ == by_value_failure(*ty),
{
    match ty {
        Type::Path(path) => {
            let segments = &path.path.segments;
            if segments.len() > 0 {
                let segment = &segments[segments.len() - 1];
                if same_text(segment.ident.text.as_str(), "Context") {
                    if let PathArguments::AngleBracketed(angle) = &segment.arguments {
                        if angle.args.len() != 1 {
                            return new_diagnostic(angle.span, OLD_CONTEXT.to_owned());
                        }
                    }
                    return new_diagnostic(path.span, CONTEXT_BY_VALUE.to_owned());
                }
            }
            new_diagnostic(path.span, CONTEXT_FORM.to_owned())
        },
        _ => new_diagnostic(ty.span(), CONTEXT_FORM.to_owned()),
    }
}

fn extract_accounts_argument(arg: &GenericArgument) -> (out: Result<
    QualifiedTypePath<'_>,
    Failure,
>)
    ensures
        qualified_view(out) == accounts_argument(*arg),
        out matches Ok(found) ==> found.path.segments@.len() > 0 && *found.leaf_ident == leaf(
            *found.path,
        ),
{
    match arg {
        GenericArgument::Type(Type::Path(accounts)) => {
            let segments = &accounts.path.segments;
            if segments.len() == 0 {
                return Err(new_diagnostic(accounts.span, ACCOUNTS_FORM.to_owned()));
            }
            match &segments[segments.len() - 1].arguments {
                PathArguments::Absent => Ok(
                    QualifiedTypePath {
                        path: &accounts.path,
                        leaf_ident: &segments[segments.len() - 1].ident,
                    },
                ),
                PathArguments::AngleBracketed(angle) => Err(
                    new_diagnostic(angle.span, ACCOUNTS_WITH_ARGUMENTS.to_owned()),
                ),
                PathArguments::Parenthesized { span, .. } => Err(
                    new_diagnostic(*span, ACCOUNTS_WITH_ARGUMENTS.to_owned()),
                ),
            }
        },
        _ => Err(new_diagnostic(arg.span(), ACCOUNTS_FORM.to_owned())),
    }
}

/// The accounts struct in the first parameter of a handler.
pub fn extract_context_accounts_path(arg: &FnArg) -> (out: Result<QualifiedTypePath<'_>, Failure>)
    ensures
        qualified_view(out) == handler_accounts(*arg),
        out matches Ok(found) ==> found.path.segments@.len() > 0 && *found.leaf_ident == leaf(
            *found.path,
        ),
{
    let ty = match arg {
        FnArg::Typed(typed) => &typed.ty,
        FnArg::Receiver { span, .. } => {
            return Err(new_diagnostic(*span, CONTEXT_FORM.to_owned()));
        },
    };
    let reference = match ty {
        Type::Reference(reference) => reference,
        _ => return Err(explain_by_value(ty)),
    };
    if !reference.mutable {
        return Err(new_diagnostic(reference.span, CONTEXT_SHARED.to_owned()));
    }
    let context = match &*reference.elem {
        Type::Path(context) => context,
        other => return Err(new_diagnostic(other.span(), CONTEXT_UNREADABLE.to_owned())),
    };
    let segments = &context.path.segments;
    if segments.len() == 0 {
        return Err(new_diagnostic(context.span, CONTEXT_UNREADABLE.to_owned()));
    }
    let segment = &segments[segments.len() - 1];
    if !same_text(segment.ident.text.as_str(), "Context") {
        return Err(new_diagnostic(segment.ident.span, CONTEXT_FORM.to_owned()));
    }
    match &segment.arguments {
        PathArguments::AngleBracketed(angle) => {
            if angle.args.len() != 1 {
                return Err(new_diagnostic(angle.span, ONE_ACCOUNTS_TYPE.to_owned()));
            }
            extract_accounts_argument(&angle.args[0])
        },
        _ => Err(new_diagnostic(segment.span, ACCOUNTS_MISSING.to_owned())),
    }
}

} // verus!
