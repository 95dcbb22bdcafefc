//! Instruction arguments that an accounts struct declares.

use crate::attrs::{print_between, Attribute, Meta, Token, TokenKind};
use crate::failure::{diagnostic, new_diagnostic, Failure, FailureView, Span};
use crate::nested_meta::{
    end_before, fail_at, find_end, is_punct, not_a_list, punct_at, refuse_non_list, unexpected,
};
use crate::outside::{ident_reading, read_ident, read_type_prefix, type_prefix_reading};
use crate::reading::{print_source, report_unread, source_text, unread_failure};
use crate::syntax::{Ident, Type};
use crate::text::{has_prefix, same_text, starts_with};
use vstd::prelude::*;

verus! {

/// An argument of an instruction, as an accounts struct declares it.
pub struct IxArg {
    pub name: Ident,
    pub ty: Type,
}

/// Why a name is refused.
pub const RESERVED_NAME: &'static str =
    "instruction argument names beginning with `__` are reserved for generated code";

/// The name of an argument, which the token at `pos` is.
pub open spec fn declared_name(tokens: Seq<Token>, pos: int, close: Span) -> Result<
    Ident,
    FailureView,
> {
    let here = tokens.subrange(pos, pos + 1);
    match ident_reading(source_text(here)) {
        Err(unread) => Err(unread_failure(here, unread, 1, close)),
        Ok(_) => match tokens[pos].kind {
            TokenKind::Word(word) => if has_prefix(word@, "__"@) {
                Err(diagnostic(tokens[pos].span, RESERVED_NAME@))
            } else {
                Ok(Ident { text: word, span: tokens[pos].span })
            },
            _ => Err(unexpected(tokens, pos, close, "expected identifier"@)),
        },
    }
}

/// The type of an argument, which begins at `pos`, and the position behind it. Every
/// part of the type stands where its first token does.
pub open spec fn declared_type(tokens: Seq<Token>, pos: int, close: Span) -> Result<
    (Type, int),
    FailureView,
> {
    let here = tokens.skip(pos);
    let span = if pos < tokens.len() {
        tokens[pos].span
    } else {
        close
    };
    match type_prefix_reading(source_text(here), span) {
        Err(unread) => Err(unread_failure(here, unread, 1, close)),
        Ok((ty, rest)) => Ok((ty, end_before(tokens, pos, rest.len()))),
    }
}

/// The arguments that a list declares from `pos` on, behind those given, or the first
/// failure. An argument is a name, a colon and a type; a comma parts it from the next.
pub open spec fn declared_list(tokens: Seq<Token>, pos: int, close: Span, args: Seq<IxArg>) -> Result<
    Seq<IxArg>,
    FailureView,
>
    decreases tokens.len() - pos,
{
    if pos < 0 || pos >= tokens.len() {
        Ok(args)
    } else {
        match declared_name(tokens, pos, close) {
            Err(failure) => Err(failure),
            Ok(name) => if !punct_at(tokens, pos + 1, ':') {
                Err(unexpected(tokens, pos + 1, close, "expected `:`"@))
            } else {
                match declared_type(tokens, pos + 2, close) {
                    Err(failure) => Err(failure),
                    Ok((ty, end)) => if end >= tokens.len() {
                        Ok(args.push(IxArg { name, ty }))
                    } else if !punct_at(tokens, end, ',') {
                        Err(unexpected(tokens, end, close, "expected `,`"@))
                    } else if end < pos {
                        Ok(args.push(IxArg { name, ty }))
                    } else {
                        declared_list(tokens, end + 1, close, args.push(IxArg { name, ty }))
                    },
                }
            },
        }
    }
}

/// The arguments that the `instruction` attributes among the given ones declare, behind
/// those given, or the first failure. An `instruction` attribute that is no list fails.
pub open spec fn declared_args(attrs: Seq<Attribute>, args: Seq<IxArg>) -> Result<
    Seq<IxArg>,
    FailureView,
>
    decreases attrs.len(),
{
    if attrs.len() == 0 {
        Ok(args)
    } else if attrs[0].path@ != "instruction"@ {
        declared_args(attrs.skip(1), args)
    } else {
        match attrs[0].meta {
            Meta::List { tokens, close } => match declared_list(tokens@, 0, close, args) {
                Err(failure) => Err(failure),
                Ok(more) => declared_args(attrs.skip(1), more),
            },
            _ => Err(not_a_list(attrs[0])),
        }
    }
}

/// The arguments, or the failure.
pub open spec fn ix_args_view(args: Result<Vec<IxArg>, Failure>) -> Result<
    Seq<IxArg>,
    FailureView,
> {
    match args {
        Ok(args) => Ok(args@),
        Err(failure) => Err(failure@),
    }
}

fn read_arg_name(tokens: &Vec<Token>, pos: usize, close: Span) -> (out: Result<Ident, Failure>)
    requires
        pos < tokens@.len(),
    ensures
        (match out {
            Ok(name) => Ok::<Ident, FailureView>(name),
            Err(failure) => Err(failure@),
        }) == declared_name(tokens@, pos as int, close),
{
    let len: usize = tokens.len();
    assert(pos + 1 <= len);
    let text = " ".to_owned().concat(print_between(tokens, pos, pos + 1).as_str());
    match read_ident(text.as_str()) {
        Err(unread) => {
            assert(tokens@.take(pos + 1).skip(pos as int) == tokens@.subrange(
                pos as int,
                pos + 1,
            ));
            Err(report_unread(tokens, pos, pos + 1, unread, 1, close))
        },
        Ok(_) => match &tokens[pos].kind {
            TokenKind::Word(word) => if starts_with(word.as_str(), "__") {
                Err(new_diagnostic(tokens[pos].span, RESERVED_NAME.to_owned()))
            } else {
                Ok(Ident { text: word.clone(), span: tokens[pos].span })
            },
            _ => Err(fail_at(tokens, pos, close, "expected identifier")),
        },
    }
}

fn read_arg_type(tokens: &Vec<Token>, pos: usize, close: Span) -> (out: Result<
    (Type, usize),
    Failure,
>)
    requires
        pos <= tokens@.len(),
    ensures
        (match out {
            Ok((ty, end)) => Ok::<(Type, int), FailureView>((ty, end as int)),
            Err(failure) => Err(failure@),
        }) == declared_type(tokens@, pos as int, close),
        out matches Ok((_, end)) ==> pos <= end <= tokens@.len(),
{
    let text = print_source(tokens, pos);
    let span = if pos < tokens.len() {
        tokens[pos].span
    } else {
        close
    };
    match read_type_prefix(text.as_str(), span) {
        Err(unread) => {
            assert(tokens@.subrange(pos as int, tokens@.len() as int) == tokens@.skip(pos as int));
            Err(report_unread(tokens, pos, tokens.len(), unread, 1, close))
        },
        Ok((ty, rest)) => Ok((ty, find_end(tokens, pos, rest.len()))),
    }
}

fn read_args(tokens: &Vec<Token>, close: Span, args: &mut Vec<IxArg>) -> (out: Result<(), Failure>)
    ensures
        match out {
            Ok(_) => declared_list(tokens@, 0, close, old(args)@) == Ok::<Seq<IxArg>, FailureView>(
                final(args)@,
            ),
            Err(failure) => declared_list(tokens@, 0, close, old(args)@) == Err::<
                Seq<IxArg>,
                FailureView,
            >(failure@),
        },
{
    let mut pos: usize = 0;
    let ghost start = args@;
    while pos < tokens.len()
        invariant
            start == old(args)@,
            pos <= tokens@.len(),
            declared_list(tokens@, 0, close, start) == declared_list(
                tokens@,
                pos as int,
                close,
                args@,
            ),
        decreases tokens@.len() - pos,
    {
        let name = match read_arg_name(tokens, pos, close) {
            Ok(name) => name,
            Err(failure) => return Err(failure),
        };
        if !is_punct(tokens, pos + 1, ':') {
            return Err(fail_at(tokens, pos + 1, close, "expected `:`"));
        }
        let (ty, end) = match read_arg_type(tokens, pos + 2, close) {
            Ok(read) => read,
            Err(failure) => return Err(failure),
        };
        args.push(IxArg { name, ty });
        if end >= tokens.len() {
            return Ok(());
        }
        if !is_punct(tokens, end, ',') {
            return Err(fail_at(tokens, end, close, "expected `,`"));
        }
        pos = end + 1;
    }
    Ok(())
}

/// Reads the arguments that the `instruction` attributes of a struct declare.
pub fn parse_instruction_attrs(attrs: &Vec<Attribute>) -> (out: Result<Vec<IxArg>, Failure>)
    ensures
        ix_args_view(out) == declared_args(attrs@, Seq::empty()),
{
    let mut args: Vec<IxArg> = Vec::new();
    assert(attrs@.skip(0) == attrs@);
    for i in 0..attrs.len()
        invariant
            declared_args(attrs@, Seq::empty()) == declared_args(attrs@.skip(i as int), args@),
    {
        assert(attrs@.skip(i as int).skip(1) == attrs@.skip(i + 1));
        if same_text(attrs[i].path.as_str(), "instruction") {
            match &attrs[i].meta {
                Meta::List { tokens, close } => {
                    if let Err(failure) = read_args(tokens, *close, &mut args) {
                        return Err(failure);
                    }
                },
                _ => return Err(refuse_non_list(&attrs[i])),
            }
        }
    }
    Ok(args)
}

} // verus!
