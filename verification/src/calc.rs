//! The calculator.

use crate::error::EvalError;
use crate::eval::{evaluate, lemma_completed, lemma_failure_is_final, run, step};
use crate::text::to_chars;
use crate::token::{marks_tokens, split, texts, tokenize, Span};
use crate::trace::{entries, entries_until, entry_after, string_views, trace, TraceEntry, TraceStep};
use vstd::prelude::*;
use vstd::slice::{slice_subrange, slice_to_vec};
use vstd::string::{StrSliceExecFns, StringExecFns};

verus! {

/// A calculator for lines in reverse Polish notation. It keeps nothing from
/// one line to the next.
#[derive(Clone, Copy, Debug)]
pub struct RpnCalculator {
    verbose: bool,
}

impl RpnCalculator {
    /// Whether the calculator records what it does.
    pub closed spec fn verbose(&self) -> bool {
        self.verbose
    }

    /// What the calculator makes of `line`: its value, and the record that
    /// goes with it.
    pub open spec fn outcome(&self, line: Seq<char>) -> (Result<i32, EvalError>, Seq<TraceEntry>) {
        (
            evaluate(line),
            if self.verbose() {
                trace(line)
            } else {
                Seq::empty()
            },
        )
    }

    /// A calculator that records its steps if `verbose` is set.
    pub fn new(verbose: bool) -> (calc: Self)
        ensures
            calc.verbose() == verbose,
    {
        RpnCalculator { verbose }
    }

    /// Whether the calculator records what it does.
    pub fn is_verbose(&self) -> (verbose: bool)
        ensures
            verbose == self.verbose(),
    {
        self.verbose
    }

    /// The value of `formula`. It depends on the line alone: the same line
    /// has the same value on every call and on every calculator, verbose or
    /// not.
    pub fn eval(&self, formula: &str) -> (r: Result<i32, EvalError>)
        ensures
            r == evaluate(formula@),
            r == self.outcome(formula@).0,
    {
        evaluate_line(formula, false).0
    }

    /// The value of `formula` and, from a verbose calculator, the record of
    /// how it came about. A calculator that is not verbose records nothing.
    pub fn eval_traced(&self, formula: &str) -> (out: (Result<i32, EvalError>, Vec<TraceStep>))
        ensures
            (out.0, entries(out.1@)) == self.outcome(formula@),
    {
        evaluate_line(formula, self.verbose)
    }
}

/// The text of each token of `line`.
fn token_names(line: &str, spans: &Vec<Span>) -> (names: Vec<String>)
    requires
        marks_tokens(line@, spans@),
    ensures
        string_views(names@) == split(line@),
{
    let mut names: Vec<String> = Vec::new();
    let mut i: usize = 0;
    while i < spans.len()
        invariant
            i <= spans.len(),
            marks_tokens(line@, spans@),
            names@.len() == i,
            forall|k: int| 0 <= k < i ==> (#[trigger] names@[k])@ == split(line@)[k],
        decreases spans.len() - i,
    {
        let span = spans[i];
        assert(texts(line@, spans@)[i as int] == line@.subrange(span.start as int, span.end as int));
        names.push(String::from_str(line.substring_char(span.start, span.end)));
        i += 1;
    }
    assert(string_views(names@) =~= split(line@));
    names
}

/// The names from place `k` on, last to first.
fn remaining_after(names: &Vec<String>, k: usize) -> (rest: Vec<String>)
    requires
        k <= names.len(),
    ensures
        string_views(rest@) == string_views(names@).skip(k as int).reverse(),
{
    let n = names.len();
    let mut rest: Vec<String> = Vec::new();
    let mut j: usize = n;
    while j > k
        invariant
            k <= j <= n,
            n == names.len(),
            rest@.len() == n - j,
            forall|t: int| 0 <= t < rest@.len() ==> (#[trigger] rest@[t])@ == names@[n - 1 - t]@,
        decreases j,
    {
        j -= 1;
        rest.push(names[j].clone());
    }
    assert(string_views(rest@) =~= string_views(names@).skip(k as int).reverse());
    rest
}

/// Evaluates `line`, and records each step if `record` is set.
fn evaluate_line(line: &str, record: bool) -> (out: (Result<i32, EvalError>, Vec<TraceStep>))
    ensures
        out.0 == evaluate(line@),
        entries(out.1@) == (if record {
            trace(line@)
        } else {
            Seq::empty()
        }),
{
    let chars = to_chars(line);
    let spans = tokenize(chars.as_slice());
    let names = if record {
        token_names(line, &spans)
    } else {
        Vec::new()
    };
    let ghost tokens = split(line@);
    let mut stack: Vec<i32> = Vec::new();
    let mut steps: Vec<TraceStep> = Vec::new();
    let mut i: usize = 0;
    assert(entries(steps@) =~= entries_until(tokens, 0));
    while i < spans.len()
        invariant
            i <= spans.len(),
            chars@ == line@,
            tokens == split(line@),
            marks_tokens(chars@, spans@),
            record ==> string_views(names@) == tokens,
            run(tokens, i as nat) == Ok::<Seq<i32>, EvalError>(stack@),
            entries(steps@) == (if record {
                entries_until(tokens, i as nat)
            } else {
                Seq::empty()
            }),
        decreases spans.len() - i,
    {
        let span = spans[i];
        assert(texts(chars@, spans@)[i as int] == chars@.subrange(
            span.start as int,
            span.end as int,
        ));
        let token = slice_subrange(chars.as_slice(), span.start, span.end);
        match step(&mut stack, token, i + 1) {
            Ok(()) => {},
            Err(e) => {
                proof {
                    lemma_completed(tokens, i as nat, tokens.len());
                    lemma_failure_is_final(tokens, (i + 1) as nat, tokens.len());
                }
                return (Err(e), steps);
            },
        }
        if record {
            let entry = TraceStep {
                remaining: remaining_after(&names, i + 1),
                stack: slice_to_vec(stack.as_slice()),
            };
            assert(entry@ == entry_after(tokens, (i + 1) as nat));
            let ghost before = steps@;
            assert(entries(before).len() == before.len());
            assert(entries_until(tokens, i as nat).len() == i);
            steps.push(entry);
            assert forall|k: int| 0 <= k < i + 1 implies entries(steps@)[k] == entries_until(
                tokens,
                (i + 1) as nat,
            )[k] by {
                if k < i {
                    assert(steps@[k] == before[k]);
                    assert(entries(before)[k] == entries_until(tokens, i as nat)[k]);
                } else {
                    assert(steps@[k] == entry);
                }
            }
            assert(entries(steps@) =~= entries_until(tokens, (i + 1) as nat));
        }
        i += 1;
    }
    proof {
        lemma_completed(tokens, i as nat, tokens.len());
    }
    let value = if stack.len() == 1 {
        Ok(stack[0])
    } else {
        Err(EvalError::SyntaxError { position: None })
    };
    (value, steps)
}

} // verus!
