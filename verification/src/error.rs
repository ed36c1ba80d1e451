//! What can go wrong when a line is evaluated.

use crate::arith::ArithmeticFault;
use crate::number::{all_digits, digit_value, digits_value, is_digit};
use vstd::prelude::*;
use vstd::string::StringExecFns;

verus! {

/// The failure of an evaluation. Positions count the tokens of the line from 1.
#[derive(Clone, Copy, Debug, PartialEq, Eq, Structural)]
#[allow(inconsistent_fields)]
pub enum EvalError {
    /// The line is not a well-formed expression. With a position: the token
    /// there is not an operand and found fewer than two values to work on.
    /// Without one: the line as a whole left no value, or more than one.
    SyntaxError { position: Option<usize> },
    /// The token at `position` is neither an operand nor an operator.
    InvalidTokenError { position: usize },
    /// An operator had no result on its operands.
    ArithmeticError { fault: ArithmeticFault },
}

/// The character for the digit `d`, for `d < 10`.
pub open spec fn digit_char(d: nat) -> char {
    if d == 0 {
        '0'
    } else if d == 1 {
        '1'
    } else if d == 2 {
        '2'
    } else if d == 3 {
        '3'
    } else if d == 4 {
        '4'
    } else if d == 5 {
        '5'
    } else if d == 6 {
        '6'
    } else if d == 7 {
        '7'
    } else if d == 8 {
        '8'
    } else {
        '9'
    }
}

/// `n` written in base ten, without leading zeros.
pub open spec fn decimal(n: nat) -> Seq<char>
    decreases n,
{
    if n < 10 {
        seq![digit_char(n)]
    } else {
        decimal(n / 10).push(digit_char(n % 10))
    }
}

/// What is written by `decimal` reads back as the same number.
pub proof fn lemma_decimal_reads_back(n: nat)
    ensures
        decimal(n).len() > 0,
        all_digits(decimal(n)),
        digits_value(decimal(n)) == n,
    decreases n,
{
    let d = digit_char(n % 10);
    assert(is_digit(d) && digit_value(d) == n % 10);
    if n < 10 {
        assert(decimal(n).drop_last() =~= Seq::<char>::empty());
        assert(digits_value(decimal(n).drop_last()) == 0);
    } else {
        lemma_decimal_reads_back(n / 10);
        assert(decimal(n).drop_last() =~= decimal(n / 10));
    }
}

impl EvalError {
    /// The position that the error names, if it names one.
    pub open spec fn spec_position(self) -> Option<usize> {
        match self {
            EvalError::SyntaxError { position } => position,
            EvalError::InvalidTokenError { position } => Some(position),
            EvalError::ArithmeticError { .. } => None,
        }
    }

    /// The text of the error.
    pub open spec fn spec_message(self) -> Seq<char> {
        match self {
            EvalError::SyntaxError { position: Some(p) } => "invalid syntax at "@ + decimal(
                p as nat,
            ),
            EvalError::SyntaxError { position: None } => "invalid syntax"@,
            EvalError::InvalidTokenError { position } => "invalid token as "@ + decimal(
                position as nat,
            ),
            EvalError::ArithmeticError { fault: ArithmeticFault::DivisionByZero } => "division by zero"@,
            EvalError::ArithmeticError { fault: ArithmeticFault::Overflow } => "integer overflow"@,
        }
    }

    /// The position that the error names, if it names one.
    pub fn position(&self) -> (p: Option<usize>)
        ensures
            p == self.spec_position(),
    {
        match self {
            EvalError::SyntaxError { position } => *position,
            EvalError::InvalidTokenError { position } => Some(*position),
            EvalError::ArithmeticError { .. } => None,
        }
    }

    /// Renders the error as text.
    pub fn message(&self) -> (text: String)
        ensures
            text@ == self.spec_message(),
    {
        match self {
            EvalError::SyntaxError { position: Some(p) } => {
                let mut text = String::from_str("invalid syntax at ");
                push_decimal(&mut text, *p);
                text
            },
            EvalError::SyntaxError { position: None } => String::from_str("invalid syntax"),
            EvalError::InvalidTokenError { position } => {
                let mut text = String::from_str("invalid token as ");
                push_decimal(&mut text, *position);
                text
            },
            EvalError::ArithmeticError { fault: ArithmeticFault::DivisionByZero } => {
                String::from_str("division by zero")
            },
            EvalError::ArithmeticError { fault: ArithmeticFault::Overflow } => {
                String::from_str("integer overflow")
            },
        }
    }
}

/// The one-character text of the digit `d`.
fn digit_text(d: usize) -> (text: &'static str)
    requires
        d < 10,
    ensures
        text@ == seq![digit_char(d as nat)],
{
    proof {
        reveal_strlit("0");
        reveal_strlit("1");
        reveal_strlit("2");
        reveal_strlit("3");
        reveal_strlit("4");
        reveal_strlit("5");
        reveal_strlit("6");
        reveal_strlit("7");
        reveal_strlit("8");
        reveal_strlit("9");
    }
    let text = if d == 0 {
        "0"
    } else if d == 1 {
        "1"
    } else if d == 2 {
        "2"
    } else if d == 3 {
        "3"
    } else if d == 4 {
        "4"
    } else if d == 5 {
        "5"
    } else if d == 6 {
        "6"
    } else if d == 7 {
        "7"
    } else if d == 8 {
        "8"
    } else {
        "9"
    };
    assert(text@ =~= seq![digit_char(d as nat)]);
    text
}

/// Appends `n`, written in base ten, to `text`.
pub fn push_decimal(text: &mut String, n: usize)
    ensures
        final(text)@ == old(text)@ + decimal(n as nat),
    decreases n,
{
    if n >= 10 {
        push_decimal(text, n / 10);
    }
    text.append(digit_text(n % 10));
    assert(text@ =~= old(text)@ + decimal(n as nat));
}

} // verus!
