//! What holds of every line.

use crate::calc::RpnCalculator;
use crate::error::EvalError;
use crate::eval::{completed, evaluate, lemma_completed_is_read, run, spec_step};
use crate::token::{lemma_split_len, split};
use crate::trace::trace;
use vstd::prelude::*;

verus! {

/// The value of a line is the same on every calculator: whether a calculator
/// is verbose decides what it records and nothing else, and one that is not
/// verbose records nothing.
pub proof fn lemma_verbosity_is_unobservable(a: RpnCalculator, b: RpnCalculator, line: Seq<char>)
    ensures
        a.outcome(line).0 == b.outcome(line).0,
        a.outcome(line).0 == evaluate(line),
        a.verbose() == b.verbose() ==> a.outcome(line) == b.outcome(line),
        !a.verbose() ==> a.outcome(line).1.len() == 0,
        a.verbose() ==> a.outcome(line).1 == trace(line),
{
}

/// A position in an error is the place, counted from 1, of the token at
/// which evaluation failed: every token before it was read, there is such a
/// token in the line, and reading it is what gave the error.
pub proof fn lemma_error_position(line: Seq<char>, e: EvalError, p: usize)
    requires
        line.len() <= usize::MAX,
        evaluate(line) == Err::<i32, EvalError>(e),
        e.spec_position() == Some(p),
    ensures
        1 <= p <= split(line).len(),
        p == completed(split(line), split(line).len()) + 1,
        run(split(line), (p - 1) as nat) is Ok,
        spec_step(run(split(line), (p - 1) as nat)->Ok_0, split(line)[p - 1], p) == Err::<
            Seq<i32>,
            EvalError,
        >(e),
{
    let tokens = split(line);
    let n = tokens.len();
    lemma_split_len(line);
    lemma_completed_is_read(tokens, n);
    let done = completed(tokens, n);
    if done == n {
        // every token was read: the error is that of the line as a whole
        assert(e == EvalError::SyntaxError { position: None });
    } else {
        assert(run(tokens, n) == run(tokens, done + 1));
        let stack = run(tokens, done)->Ok_0;
        assert(run(tokens, done + 1) == spec_step(stack, tokens[done as int], (done + 1) as usize));
    }
}

/// An error without a position that is a syntax error is that of a line
/// whose tokens were all read and left no value, or more than one.
pub proof fn lemma_syntax_error_of_the_line(line: Seq<char>)
    requires
        line.len() <= usize::MAX,
        evaluate(line) == Err::<i32, EvalError>(EvalError::SyntaxError { position: None }),
    ensures
        run(split(line), split(line).len()) is Ok,
        run(split(line), split(line).len())->Ok_0.len() != 1,
{
    let tokens = split(line);
    let n = tokens.len();
    lemma_split_len(line);
    lemma_completed_is_read(tokens, n);
    let done = completed(tokens, n);
    if done < n {
        let stack = run(tokens, done)->Ok_0;
        assert(run(tokens, done + 1) == spec_step(stack, tokens[done as int], (done + 1) as usize));
    }
}

/// A line has a value exactly when all its tokens are read and leave that
/// one value on the stack.
pub proof fn lemma_value_is_the_one_left(line: Seq<char>, value: i32)
    ensures
        evaluate(line) == Ok::<i32, EvalError>(value) <==> run(split(line), split(line).len())
            == Ok::<Seq<i32>, EvalError>(seq![value]),
{
    let r = run(split(line), split(line).len());
    if r is Ok {
        let stack = r->Ok_0;
        if stack.len() == 1 {
            assert(stack =~= seq![stack[0]]);
        }
    }
}

/// A line without tokens has no value.
pub proof fn lemma_blank_line(line: Seq<char>)
    requires
        split(line).len() == 0,
    ensures
        evaluate(line) == Err::<i32, EvalError>(EvalError::SyntaxError { position: None }),
        trace(line).len() == 0,
{
}

} // verus!
