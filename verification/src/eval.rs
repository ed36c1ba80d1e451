//! Evaluation of a line on a stack of integers.
//!
//! The tokens of a line are read from left to right. An operand is pushed; an
//! operator takes the two topmost values, the upper one as its right operand,
//! and pushes its result. The line has a value where every token could be
//! read and exactly one value is left at the end.

use crate::arith::Operator;
use crate::error::EvalError;
use crate::number::{parse_int, spec_parse_int};
use crate::token::split;
use vstd::prelude::*;

verus! {

/// What the token at `position` makes of `stack`: the next stack, or the
/// failure. A token that is not an operand needs two values before it is
/// looked at more closely, so a stray word on a short stack is a syntax error
/// and not an invalid token.
pub open spec fn spec_step(stack: Seq<i32>, token: Seq<char>, position: usize) -> Result<
    Seq<i32>,
    EvalError,
> {
    match spec_parse_int(token) {
        Some(value) => Ok(stack.push(value)),
        None => if stack.len() < 2 {
            Err(EvalError::SyntaxError { position: Some(position) })
        } else {
            match Operator::spec_from_token(token) {
                None => Err(EvalError::InvalidTokenError { position }),
                Some(op) => match op.spec_apply(stack[stack.len() - 2], stack[stack.len() - 1]) {
                    Ok(value) => Ok(stack.take(stack.len() - 2).push(value)),
                    Err(fault) => Err(EvalError::ArithmeticError { fault }),
                },
            }
        },
    }
}

/// The stack after the first `n` of `tokens`, or the first failure among them.
pub open spec fn run(tokens: Seq<Seq<char>>, n: nat) -> Result<Seq<i32>, EvalError>
    decreases n,
{
    if n == 0 {
        Ok(Seq::empty())
    } else {
        match run(tokens, (n - 1) as nat) {
            Ok(stack) => spec_step(stack, tokens[n - 1], n as usize),
            Err(e) => Err(e),
        }
    }
}

/// The value of a line that left `stack`: its one element.
pub open spec fn finish(stack: Seq<i32>) -> Result<i32, EvalError> {
    if stack.len() == 1 {
        Ok(stack[0])
    } else {
        Err(EvalError::SyntaxError { position: None })
    }
}

/// The value of a line with the given tokens.
pub open spec fn evaluate_tokens(tokens: Seq<Seq<char>>) -> Result<i32, EvalError> {
    match run(tokens, tokens.len()) {
        Ok(stack) => finish(stack),
        Err(e) => Err(e),
    }
}

/// The value of `line`.
pub open spec fn evaluate(line: Seq<char>) -> Result<i32, EvalError> {
    evaluate_tokens(split(line))
}

/// The number of tokens, among the first `n`, that are read before the first
/// failure.
pub open spec fn completed(tokens: Seq<Seq<char>>, n: nat) -> nat
    decreases n,
{
    if n == 0 || run(tokens, n) is Ok {
        n
    } else {
        completed(tokens, (n - 1) as nat)
    }
}

/// Once a token has failed, the failure stays whatever follows.
pub proof fn lemma_failure_is_final(tokens: Seq<Seq<char>>, m: nat, n: nat)
    requires
        m <= n,
        run(tokens, m) is Err,
    ensures
        run(tokens, n) == run(tokens, m),
    decreases n,
{
    if m < n {
        lemma_failure_is_final(tokens, m, (n - 1) as nat);
    }
}

/// Where the first `i` tokens are read and the next one fails, or is the
/// end of those looked at, `i` tokens are completed.
pub proof fn lemma_completed(tokens: Seq<Seq<char>>, i: nat, n: nat)
    requires
        i <= n,
        run(tokens, i) is Ok,
        i < n ==> run(tokens, i + 1) is Err,
    ensures
        completed(tokens, n) == i,
    decreases n,
{
    if i < n {
        lemma_failure_is_final(tokens, i + 1, n);
        lemma_completed(tokens, i, (n - 1) as nat);
    }
}

/// Every token up to the last completed one was read.
pub proof fn lemma_completed_is_read(tokens: Seq<Seq<char>>, n: nat)
    ensures
        completed(tokens, n) <= n,
        run(tokens, completed(tokens, n)) is Ok,
        completed(tokens, n) < n ==> run(tokens, n) == run(tokens, completed(tokens, n) + 1),
        completed(tokens, n) < n ==> run(tokens, n) is Err,
    decreases n,
{
    if n > 0 && run(tokens, n) is Err {
        lemma_completed_is_read(tokens, (n - 1) as nat);
    }
}

/// Reads one token: changes `stack` as `spec_step` says, or fails and leaves
/// it as it was.
pub fn step(stack: &mut Vec<i32>, token: &[char], position: usize) -> (r: Result<(), EvalError>)
    ensures
        match spec_step(old(stack)@, token@, position) {
            Ok(next) => r is Ok && final(stack)@ == next,
            Err(e) => r == Err::<(), EvalError>(e) && final(stack)@ == old(stack)@,
        },
{
    if let Some(value) = parse_int(token) {
        stack.push(value);
        return Ok(());
    }
    let n = stack.len();
    if n < 2 {
        return Err(EvalError::SyntaxError { position: Some(position) });
    }
    let op = match Operator::from_token(token) {
        Some(op) => op,
        None => {
            return Err(EvalError::InvalidTokenError { position });
        },
    };
    match op.apply(stack[n - 2], stack[n - 1]) {
        Ok(value) => {
            stack.pop();
            stack.pop();
            stack.push(value);
            assert(stack@ =~= old(stack)@.take(n - 2).push(value));
            Ok(())
        },
        Err(fault) => Err(EvalError::ArithmeticError { fault }),
    }
}

} // verus!
