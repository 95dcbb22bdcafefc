//! The arguments of the `program` macro.

use crate::attrs::{print_between, token_end, tokens_text, Token};
use crate::failure::{diagnostic, new_diagnostic, Failure, FailureView, Span};
use crate::nested_meta::{
    fail_at, find_path, is_punct, path_before, punct_at, read_word_at, unexpected, word_at,
};
use crate::outside::{meta_reading, read_meta};
use crate::reading::{print_source, report_unread, source_text, unread_failure};
use crate::text::{option_text, same_text};
use vstd::prelude::*;

verus! {

/// Whether a program is run or only called.
#[derive(Clone, Copy, Debug, PartialEq, Eq, Structural)]
pub enum ProgramMode {
    Executable,
    Interface,
}

/// The arguments of the `program` macro. `program_id` is an expression, as text.
pub struct ProgramConfig {
    pub mode: ProgramMode,
    pub program_id: String,
}

/// An argument of the `program` macro. It has a name where the path that it begins with
/// is one word.
pub struct ProgramArg {
    pub name: Option<String>,
    pub path_span: Span,
    pub span: Span,
    pub kind: ProgramArgKind,
}

/// What stands behind the path of an argument.
pub enum ProgramArgKind {
    Path,
    List,
    /// The expression behind an equals sign, as text.
    NameValue(String),
}

/// An argument of the `program` macro, with its texts as sequences of characters.
pub struct ArgView {
    pub name: Option<Seq<char>>,
    pub path_span: Span,
    pub span: Span,
    pub kind: ArgKindView,
}

/// What stands behind the path of an argument, with its text as a sequence of
/// characters.
pub enum ArgKindView {
    Path,
    List,
    NameValue(Seq<char>),
}

impl View for ProgramArg {
    type V = ArgView;

    open spec fn view(&self) -> ArgView {
        ArgView {
            name: option_text(self.name),
            path_span: self.path_span,
            span: self.span,
            kind: match self.kind {
                ProgramArgKind::Path => ArgKindView::Path,
                ProgramArgKind::List => ArgKindView::List,
                ProgramArgKind::NameValue(expr) => ArgKindView::NameValue(expr@),
            },
        }
    }
}

/// The arguments, with their texts as sequences of characters.
pub open spec fn args_view(args: Seq<ProgramArg>) -> Seq<ArgView> {
    args.map_values(|arg: ProgramArg| arg@)
}

/// The arguments of the `program` macro, as sequences of characters.
pub struct ConfigView {
    pub mode: ProgramMode,
    pub program_id: Seq<char>,
}

/// The arguments or the failure, as sequences of characters.
pub open spec fn config_view(config: Result<ProgramConfig, Failure>) -> Result<
    ConfigView,
    FailureView,
> {
    match config {
        Ok(config) => Ok(ConfigView { mode: config.mode, program_id: config.program_id@ }),
        Err(failure) => Err(failure@),
    }
}

/// Why an argument is refused.
pub const UNSUPPORTED_ARGUMENT: &'static str = "unsupported `#[program]` argument; expected `interface` or `program_id = <expr>`";

/// Why the id of an executable program cannot be given.
pub const PROGRAM_ID_NEEDS_INTERFACE: &'static str =
    "`program_id` is only supported with `#[program(interface, ...)]`";

// ---------------------------------------------------------------------------
// Reading arguments
// ---------------------------------------------------------------------------

/// The argument that the tokens from `pos` to `end` make up, with its path up to
/// `path_end`.
pub open spec fn arg_between(tokens: Seq<Token>, pos: int, path_end: int, end: int) -> ArgView {
    ArgView {
        name: if path_end == pos + 1 {
            word_at(tokens, pos)
        } else {
            None
        },
        path_span: Span {
            start: tokens[pos].span.start,
            end: token_end(tokens[path_end - 1]),
        },
        span: Span { start: tokens[pos].span.start, end: token_end(tokens[end - 1]) },
        kind: if path_end == end {
            ArgKindView::Path
        } else if punct_at(tokens, path_end, '=') {
            ArgKindView::NameValue(tokens_text(tokens.subrange(path_end + 1, end)))
        } else {
            ArgKindView::List
        },
    }
}

/// Where the path of an argument ends that begins at `pos` and ends at `end`, given the
/// number of its tokens.
pub open spec fn path_end_of(pos: int, end: int, path: nat) -> int {
    if 0 < path && pos + path <= end {
        pos + path
    } else {
        end
    }
}

/// The arguments from `pos` on, behind those given, or the first failure. A comma parts
/// an argument from the next.
pub open spec fn args_from(tokens: Seq<Token>, pos: int, close: Span, args: Seq<ArgView>) -> Result<
    Seq<ArgView>,
    FailureView,
>
    decreases tokens.len() - pos,
{
    if pos < 0 || pos >= tokens.len() {
        Ok(args)
    } else {
        let here = tokens.skip(pos);
        match meta_reading(source_text(here)) {
            Err(unread) => Err(unread_failure(here, unread, 1, close)),
            Ok((path, rest)) => {
                let end = path_before(tokens, pos, rest.len()).next as int;
                let path_end = path_end_of(pos, end, path.len());
                let more = args.push(arg_between(tokens, pos, path_end, end));
                if end >= tokens.len() {
                    Ok(more)
                } else if !punct_at(tokens, end, ',') {
                    Err(unexpected(tokens, end, close, "expected `,`"@))
                } else if end <= pos {
                    Ok(more)
                } else {
                    args_from(tokens, end + 1, close, more)
                }
            },
        }
    }
}

fn take_arg(tokens: &Vec<Token>, pos: usize, path_end: usize, end: usize) -> (arg: ProgramArg)
    requires
        pos < path_end <= end <= tokens@.len(),
    ensures
        arg@ == arg_between(tokens@, pos as int, path_end as int, end as int),
{
    let start: usize = tokens[pos].span.start;
    let name = if path_end == pos + 1 {
        read_word_at(tokens, pos)
    } else {
        None
    };
    let kind = if path_end == end {
        ProgramArgKind::Path
    } else if is_punct(tokens, path_end, '=') {
        ProgramArgKind::NameValue(print_between(tokens, path_end + 1, end))
    } else {
        ProgramArgKind::List
    };
    ProgramArg {
        name,
        path_span: Span { start, end: tokens[path_end - 1].end() },
        span: Span { start, end: tokens[end - 1].end() },
        kind,
    }
}

fn read_program_args(tokens: &Vec<Token>, close: Span) -> (out: Result<Vec<ProgramArg>, Failure>)
    ensures
        (match out {
            Ok(args) => Ok::<Seq<ArgView>, FailureView>(args_view(args@)),
            Err(failure) => Err(failure@),
        }) == args_from(tokens@, 0, close, Seq::empty()),
{
    let mut args: Vec<ProgramArg> = Vec::new();
    let mut pos: usize = 0;
    let len: usize = tokens.len();
    assert(args_view(args@) == Seq::<ArgView>::empty());
    while pos < tokens.len()
        invariant
            len == tokens@.len(),
            pos <= tokens@.len(),
            args_from(tokens@, 0, close, Seq::empty()) == args_from(
                tokens@,
                pos as int,
                close,
                args_view(args@),
            ),
        decreases tokens@.len() - pos,
    {
        let text = print_source(tokens, pos);
        let (path, rest) = match read_meta(text.as_str()) {
            Ok(read) => read,
            Err(unread) => {
                assert(tokens@.subrange(pos as int, tokens@.len() as int) == tokens@.skip(
                    pos as int,
                ));
                return Err(report_unread(tokens, pos, tokens.len(), unread, 1, close));
            },
        };
        let end: usize = find_path(tokens, pos, rest.len()).next;
        let path_end: usize = if path.len() > 0 && path.len() <= end - pos {
            pos + path.len()
        } else {
            end
        };
        let ghost before = args_view(args@);
        let arg = take_arg(tokens, pos, path_end, end);
        args.push(arg);
        assert(args_view(args@) == before.push(arg@));
        if end >= tokens.len() {
            return Ok(args);
        }
        if !is_punct(tokens, end, ',') {
            return Err(fail_at(tokens, end, close, "expected `,`"));
        }
        pos = end + 1;
    }
    Ok(args)
}

// ---------------------------------------------------------------------------
// What the arguments say
// ---------------------------------------------------------------------------

/// What the arguments say, with the mode and the program id read so far.
pub open spec fn config_from(
    args: Seq<ArgView>,
    mode: ProgramMode,
    program_id: Option<(Seq<char>, Span)>,
) -> Result<ConfigView, FailureView>
    decreases args.len(),
{
    if args.len() == 0 {
        match program_id {
            Some((_, span)) if mode == ProgramMode::Executable => Err(
                diagnostic(span, PROGRAM_ID_NEEDS_INTERFACE@),
            ),
            Some((expr, _)) => Ok(ConfigView { mode, program_id: expr }),
            None => Ok(ConfigView { mode, program_id: "crate::ID"@ }),
        }
    } else {
        let arg = args[0];
        match arg.kind {
            ArgKindView::Path if arg.name == Some("interface"@) => config_from(
                args.skip(1),
                ProgramMode::Interface,
                program_id,
            ),
            ArgKindView::NameValue(expr) if arg.name == Some("program_id"@) => if program_id
                is Some {
                Err(diagnostic(arg.path_span, "duplicate `program_id`"@))
            } else {
                config_from(args.skip(1), mode, Some((expr, arg.path_span)))
            },
            _ => Err(diagnostic(arg.span, UNSUPPORTED_ARGUMENT@)),
        }
    }
}

/// What the tokens that the `program` macro is given say. `close` is where they end.
pub open spec fn config_in(tokens: Seq<Token>, close: Span) -> Result<ConfigView, FailureView> {
    match args_from(tokens, 0, close, Seq::empty()) {
        Err(failure) => Err(failure),
        Ok(args) => config_from(args, ProgramMode::Executable, None),
    }
}

fn is_named(arg: &ProgramArg, name: &str) -> (found: bool)
    ensures
        found == (arg@.name == Some(name@)),
{
    match &arg.name {
        Some(own) => same_text(own.as_str(), name),
        None => false,
    }
}

/// What the arguments of the `program` macro say.
pub fn choose_config(args: &Vec<ProgramArg>) -> (out: Result<ProgramConfig, Failure>)
    ensures
        config_view(out) == config_from(args_view(args@), ProgramMode::Executable, None),
{
    let mut mode = ProgramMode::Executable;
    let mut program_id: Option<(String, Span)> = None;
    let ghost all = args_view(args@);
    assert(all.skip(0) == all);
    for i in 0..args.len()
        invariant
            all == args_view(args@),
            config_from(all, ProgramMode::Executable, None) == config_from(
                all.skip(i as int),
                mode,
                match program_id {
                    Some((expr, span)) => Some((expr@, span)),
                    None => None,
                },
            ),
    {
        assert(all.skip(i as int).skip(1) == all.skip(i + 1));
        let arg = &args[i];
        assert(all.skip(i as int)[0] == arg@);
        match &arg.kind {
            ProgramArgKind::Path => {
                if !is_named(arg, "interface") {
                    return Err(new_diagnostic(arg.span, UNSUPPORTED_ARGUMENT.to_owned()));
                }
                mode = ProgramMode::Interface;
            },
            ProgramArgKind::NameValue(expr) => {
                if !is_named(arg, "program_id") {
                    return Err(new_diagnostic(arg.span, UNSUPPORTED_ARGUMENT.to_owned()));
                }
                if program_id.is_some() {
                    return Err(
                        new_diagnostic(arg.path_span, "duplicate `program_id`".to_owned()),
                    );
                }
                program_id = Some((expr.clone(), arg.path_span));
            },
            ProgramArgKind::List => {
                return Err(new_diagnostic(arg.span, UNSUPPORTED_ARGUMENT.to_owned()));
            },
        }
    }
    match program_id {
        Some((expr, span)) => if mode == ProgramMode::Executable {
            Err(new_diagnostic(span, PROGRAM_ID_NEEDS_INTERFACE.to_owned()))
        } else {
            Ok(ProgramConfig { mode, program_id: expr })
        },
        None => Ok(ProgramConfig { mode, program_id: "crate::ID".to_owned() }),
    }
}

/// Reads the tokens that the `program` macro is given.
pub fn parse_program_config_tokens(attr: &Vec<Token>, close: Span) -> (out: Result<
    ProgramConfig,
    Failure,
>)
    ensures
        config_view(out) == config_in(attr@, close),
{
    match read_program_args(attr, close) {
        Ok(args) => choose_config(&args),
        Err(failure) => Err(failure),
    }
}

// ---------------------------------------------------------------------------
// Laws
// ---------------------------------------------------------------------------

/// A program that is run has the id of its crate: another id is for interfaces.
pub proof fn lemma_executable_id(
    args: Seq<ArgView>,
    mode: ProgramMode,
    program_id: Option<(Seq<char>, Span)>,
)
    requires
        config_from(args, mode, program_id) is Ok,
        config_from(args, mode, program_id)->Ok_0.mode == ProgramMode::Executable,
    ensures
        config_from(args, mode, program_id)->Ok_0.program_id == "crate::ID"@,
    decreases args.len(),
{
    if args.len() > 0 {
        let arg = args[0];
        match arg.kind {
            ArgKindView::Path if arg.name == Some("interface"@) => {
                lemma_executable_id(args.skip(1), ProgramMode::Interface, program_id);
            },
            ArgKindView::NameValue(expr) => {
                lemma_executable_id(args.skip(1), mode, Some((expr, arg.path_span)));
            },
            _ => {},
        }
    }
}

} // verus!
