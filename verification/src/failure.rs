//! What a macro reports when it cannot expand.

use crate::text::texts;
use vstd::prelude::*;

verus! {

/// A stretch of the source: its first and its last token, as numbers that the
/// caller gave out.
#[derive(Clone, Copy, Debug, PartialEq, Eq, Structural)]
pub struct Span {
    pub start: usize,
    pub end: usize,
}

/// Where the macro was called. Code that stands for nothing in the source has this place.
pub open spec fn call_site() -> Span {
    Span { start: 0, end: 0 }
}

/// Where the macro was called.
pub fn at_call_site() -> (span: Span)
    ensures
        span == call_site(),
{
    Span { start: 0, end: 0 }
}

/// Why a macro did not expand.
#[derive(Debug)]
pub enum Failure {
    /// A compile error with `message`, reported at `span`.
    Diagnostic { span: Span, message: String },
    /// The text was to name an item and is not an identifier.
    NotAnIdentifier(String),
}

/// A failure with its text as a sequence of characters.
pub enum FailureView {
    Diagnostic { span: Span, message: Seq<char> },
    NotAnIdentifier(Seq<char>),
}

impl View for Failure {
    type V = FailureView;

    open spec fn view(&self) -> FailureView {
        match self {
            Failure::Diagnostic { span, message } => FailureView::Diagnostic {
                span: *span,
                message: message@,
            },
            Failure::NotAnIdentifier(text) => FailureView::NotAnIdentifier(text@),
        }
    }
}

/// A diagnostic at `span`.
pub open spec fn diagnostic(span: Span, message: Seq<char>) -> FailureView {
    FailureView::Diagnostic { span, message }
}

/// Makes a diagnostic at `span`.
pub fn new_diagnostic(span: Span, message: String) -> (failure: Failure)
    ensures
        failure@ == diagnostic(span, message@),
{
    Failure::Diagnostic { span, message }
}

/// The generated code or the failure, as sequences of characters.
pub open spec fn code_view(result: Result<String, Failure>) -> Result<Seq<char>, FailureView> {
    match result {
        Ok(code) => Ok(code@),
        Err(failure) => Err(failure@),
    }
}

/// The list of generated code or the failure, as sequences of characters.
pub open spec fn list_view(result: Result<Vec<String>, Failure>) -> Result<
    Seq<Seq<char>>,
    FailureView,
> {
    match result {
        Ok(list) => Ok(texts(list@)),
        Err(failure) => Err(failure@),
    }
}

/// The failure, if there is one.
pub open spec fn unit_view(result: Result<(), Failure>) -> Result<(), FailureView> {
    match result {
        Ok(_) => Ok(()),
        Err(failure) => Err(failure@),
    }
}

/// The failures, with their texts as sequences of characters.
pub open spec fn failures_view(failures: Seq<Failure>) -> Seq<FailureView> {
    failures.map_values(|failure: Failure| failure@)
}

/// The generated code or all failures, as sequences of characters.
pub open spec fn codes_view(result: Result<String, Vec<Failure>>) -> Result<
    Seq<char>,
    Seq<FailureView>,
> {
    match result {
        Ok(code) => Ok(code@),
        Err(failures) => Err(failures_view(failures@)),
    }
}

/// All values in order, or the first failure.
pub open spec fn collected<A>(results: Seq<Result<A, FailureView>>) -> Result<Seq<A>, FailureView>
    decreases results.len(),
{
    if results.len() == 0 {
        Ok(Seq::empty())
    } else {
        match collected(results.drop_last()) {
            Err(failure) => Err(failure),
            Ok(values) => match results.last() {
                Err(failure) => Err(failure),
                Ok(value) => Ok(values.push(value)),
            },
        }
    }
}

/// What fails among the first results fails among all of them.
pub proof fn lemma_collected_prefix<A>(results: Seq<Result<A, FailureView>>, n: int)
    requires
        0 <= n <= results.len(),
        collected(results.take(n)) is Err,
    ensures
        collected(results) == collected(results.take(n)),
    decreases results.len(),
{
    if n == results.len() {
        assert(results.take(n) == results);
    } else {
        assert(results.drop_last().take(n) == results.take(n));
        lemma_collected_prefix(results.drop_last(), n);
    }
}

/// What `n` steps make of a state, one after the other, or the first failure.
pub open spec fn stepped<S>(
    start: S,
    n: int,
    step: spec_fn(S, int) -> Result<S, FailureView>,
) -> Result<S, FailureView>
    decreases n,
{
    if n <= 0 {
        Ok(start)
    } else {
        match stepped(start, n - 1, step) {
            Err(failure) => Err(failure),
            Ok(state) => step(state, n - 1),
        }
    }
}

/// What fails in the first steps fails in all of them.
pub proof fn lemma_stepped_prefix<S>(
    start: S,
    n: int,
    m: int,
    step: spec_fn(S, int) -> Result<S, FailureView>,
)
    requires
        n <= m,
        stepped(start, n, step) is Err,
    ensures
        stepped(start, m, step) == stepped(start, n, step),
    decreases m - n,
{
    if n < m {
        lemma_stepped_prefix(start, n, m - 1, step);
    }
}

/// As many values as results.
pub proof fn lemma_collected_len<A>(results: Seq<Result<A, FailureView>>)
    ensures
        collected(results) is Ok ==> collected(results)->Ok_0.len() == results.len(),
        collected(results) is Ok ==> forall|i: int|
            0 <= i < results.len() ==> #[trigger] results[i] == Ok::<A, FailureView>(
                collected(results)->Ok_0[i],
            ),
    decreases results.len(),
{
    if results.len() > 0 {
        lemma_collected_len(results.drop_last());
        if collected(results) is Ok {
            assert forall|i: int| 0 <= i < results.len() implies #[trigger] results[i] == Ok::<
                A,
                FailureView,
            >(collected(results)->Ok_0[i]) by {
                if i < results.len() - 1 {
                    assert(results.drop_last()[i] == results[i]);
                }
            }
        }
    }
}

/// The code of each item in order, or the first failure.
pub fn try_map_texts<T, F: Fn(&T) -> Result<String, Failure>>(
    items: &Vec<T>,
    f: F,
    Ghost(code): Ghost<spec_fn(T) -> Result<Seq<char>, FailureView>>,
) -> (out: Result<Vec<String>, Failure>)
    requires
        forall|i: int| 0 <= i < items@.len() ==> #[trigger] f.requires((&items@[i],)),
        forall|i: int, r: Result<String, Failure>|
            0 <= i < items@.len() && #[trigger] f.ensures((&items@[i],), r) ==> code_view(r)
                == code(items@[i]),
    ensures
        list_view(out) == collected(items@.map_values(code)),
{
    let mut out: Vec<String> = Vec::new();
    let ghost results = items@.map_values(code);
    assert(texts(out@) == Seq::<Seq<char>>::empty());
    for i in 0..items.len()
        invariant
            results == items@.map_values(code),
            collected(results.take(i as int)) == Ok::<Seq<Seq<char>>, FailureView>(texts(out@)),
            forall|i: int| 0 <= i < items@.len() ==> #[trigger] f.requires((&items@[i],)),
            forall|i: int, r: Result<String, Failure>|
                0 <= i < items@.len() && #[trigger] f.ensures((&items@[i],), r) ==> code_view(r)
                    == code(items@[i]),
    {
        assert(results.take(i + 1).drop_last() == results.take(i as int));
        match f(&items[i]) {
            Ok(text) => {
                let ghost before = texts(out@);
                out.push(text);
                assert(texts(out@) == before.push(text@));
            },
            Err(failure) => {
                proof {
                    lemma_collected_prefix(results, i + 1);
                }
                return Err(failure);
            },
        }
    }
    assert(results.take(items.len() as int) == results);
    Ok(out)
}

} // verus!
