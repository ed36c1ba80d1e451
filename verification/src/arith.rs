//! The five binary operators and their arithmetic on 32-bit integers.
//!
//! Division truncates toward zero and the remainder takes the sign of the
//! dividend. An operation whose exact value does not fit in an `i32` has no
//! result: it is reported as a fault, never wrapped.

use vstd::prelude::*;

verus! {

/// One of the five operators.
#[derive(Clone, Copy, Debug, PartialEq, Eq, Structural)]
pub enum Operator {
    Add,
    Sub,
    Mul,
    Div,
    Rem,
}

/// Why an operator has no result on a pair of operands.
#[derive(Clone, Copy, Debug, PartialEq, Eq, Structural)]
pub enum ArithmeticFault {
    /// The right operand of `/` or `%` is zero.
    DivisionByZero,
    /// The exact result lies outside the range of `i32`.
    Overflow,
}

/// The distance of `x` from zero.
pub open spec fn magnitude(x: int) -> int {
    if x < 0 {
        -x
    } else {
        x
    }
}

/// `x / y` rounded toward zero, for `y != 0`.
pub open spec fn quotient(x: int, y: int) -> int {
    let q = magnitude(x) / magnitude(y);
    if (x < 0) != (y < 0) {
        -q
    } else {
        q
    }
}

/// What is left of `x` after `quotient(x, y)` times `y`, for `y != 0`: it has
/// the sign of `x`.
pub open spec fn remainder(x: int, y: int) -> int {
    let r = magnitude(x) % magnitude(y);
    if x < 0 {
        -r
    } else {
        r
    }
}

/// Quotient and remainder divide `x` exactly, the remainder is smaller in
/// magnitude than the divisor and is never of the sign opposite to `x`, and
/// the quotient never overshoots `x`.
pub proof fn lemma_quotient_remainder(x: int, y: int)
    requires
        y != 0,
    ensures
        x == y * quotient(x, y) + remainder(x, y),
        magnitude(remainder(x, y)) < magnitude(y),
        x >= 0 ==> remainder(x, y) >= 0,
        x <= 0 ==> remainder(x, y) <= 0,
        magnitude(y * quotient(x, y)) <= magnitude(x),
{
    let a = magnitude(x);
    let b = magnitude(y);
    let q = a / b;
    let r = a % b;
    vstd::arithmetic::div_mod::lemma_fundamental_div_mod(a, b);
    assert(a == b * q + r);
    assert(0 <= r < b);
    assert(0 <= q) by (nonlinear_arith)
        requires
            a == b * q + r,
            0 <= r < b,
            0 <= a,
    ;
    assert(0 <= b * q) by (nonlinear_arith)
        requires
            0 <= q,
            0 < b,
    ;
    assert(y * quotient(x, y) == (if x < 0 {
        -(b * q)
    } else {
        b * q
    })) by (nonlinear_arith)
        requires
            b == magnitude(y),
            y != 0,
            quotient(x, y) == (if (x < 0) != (y < 0) {
                -q
            } else {
                q
            }),
    ;
}

impl Operator {
    /// The character that stands for the operator.
    pub open spec fn symbol(self) -> char {
        match self {
            Operator::Add => '+',
            Operator::Sub => '-',
            Operator::Mul => '*',
            Operator::Div => '/',
            Operator::Rem => '%',
        }
    }

    /// The operator that `token` spells, if it spells one: a token is an
    /// operator exactly when it is the operator's one character.
    pub open spec fn spec_from_token(token: Seq<char>) -> Option<Operator> {
        if token.len() != 1 {
            None
        } else if token[0] == '+' {
            Some(Operator::Add)
        } else if token[0] == '-' {
            Some(Operator::Sub)
        } else if token[0] == '*' {
            Some(Operator::Mul)
        } else if token[0] == '/' {
            Some(Operator::Div)
        } else if token[0] == '%' {
            Some(Operator::Rem)
        } else {
            None
        }
    }

    /// The exact value of `x op y` over the integers; for `/` and `%` it is
    /// meaningful only where `y != 0`.
    pub open spec fn exact(self, x: int, y: int) -> int {
        match self {
            Operator::Add => x + y,
            Operator::Sub => x - y,
            Operator::Mul => x * y,
            Operator::Div => quotient(x, y),
            Operator::Rem => remainder(x, y),
        }
    }

    /// Whether the operator divides by its right operand.
    pub open spec fn divides(self) -> bool {
        self == Operator::Div || self == Operator::Rem
    }

    /// The result of `x op y` on 32-bit integers: the exact value where it
    /// fits, else the fault.
    pub open spec fn spec_apply(self, x: i32, y: i32) -> Result<i32, ArithmeticFault> {
        if self.divides() && y == 0 {
            Err(ArithmeticFault::DivisionByZero)
        } else if i32::MIN <= self.exact(x as int, y as int) <= i32::MAX {
            Ok(self.exact(x as int, y as int) as i32)
        } else {
            Err(ArithmeticFault::Overflow)
        }
    }

    /// Reads an operator from a token.
    pub fn from_token(token: &[char]) -> (op: Option<Operator>)
        ensures
            op == Self::spec_from_token(token@),
    {
        if token.len() != 1 {
            return None;
        }
        let c = token[0];
        if c == '+' {
            Some(Operator::Add)
        } else if c == '-' {
            Some(Operator::Sub)
        } else if c == '*' {
            Some(Operator::Mul)
        } else if c == '/' {
            Some(Operator::Div)
        } else if c == '%' {
            Some(Operator::Rem)
        } else {
            None
        }
    }

    /// Applies the operator to `x` (left) and `y` (right).
    pub fn apply(self, x: i32, y: i32) -> (r: Result<i32, ArithmeticFault>)
        ensures
            r == self.spec_apply(x, y),
    {
        let value = match self {
            Operator::Add => x.checked_add(y),
            Operator::Sub => x.checked_sub(y),
            Operator::Mul => x.checked_mul(y),
            Operator::Div => {
                if y == 0 {
                    return Err(ArithmeticFault::DivisionByZero);
                }
                x.checked_div(y)
            },
            Operator::Rem => {
                if y == 0 {
                    return Err(ArithmeticFault::DivisionByZero);
                }
                if y == -1 {
                    Some(0)
                } else {
                    x.checked_rem(y)
                }
            },
        };
        match value {
            Some(v) => Ok(v),
            None => Err(ArithmeticFault::Overflow),
        }
    }
}

} // verus!
