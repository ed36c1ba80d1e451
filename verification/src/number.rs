//! Operands: tokens that spell a signed integer in base ten.
//!
//! An operand is an optional `-` followed by one or more of the digits `0` to
//! `9`, and its value must fit in an `i32`. Leading zeros are allowed; a `+`
//! sign, digits of other scripts and a bare `-` are not.

use vstd::prelude::*;

verus! {

/// The largest magnitude an operand can have: that of `i32::MIN`.
pub const MAX_MAGNITUDE: i64 = 0x8000_0000;

/// Whether `c` is one of the digits `0` to `9`.
pub open spec fn is_digit(c: char) -> bool {
    0x30 <= c as u32 <= 0x39
}

/// The value of the digit `c`.
pub open spec fn digit_value(c: char) -> nat {
    (c as u32 - 0x30) as nat
}

/// Whether every character of `s` is a digit.
pub open spec fn all_digits(s: Seq<char>) -> bool {
    forall|i: int| 0 <= i < s.len() ==> is_digit(#[trigger] s[i])
}

/// The number that the digits `s` spell in base ten; the empty sequence spells 0.
pub open spec fn digits_value(s: Seq<char>) -> nat
    decreases s.len(),
{
    if s.len() == 0 {
        0
    } else {
        digits_value(s.drop_last()) * 10 + digit_value(s.last())
    }
}

/// Whether `token` begins with a minus sign.
pub open spec fn is_negative(token: Seq<char>) -> bool {
    token.len() > 0 && token[0] == '-'
}

/// The part of `token` after its sign.
pub open spec fn digits_of(token: Seq<char>) -> Seq<char> {
    if is_negative(token) {
        token.skip(1)
    } else {
        token
    }
}

/// The integer that `token` would spell if it had no bound.
pub open spec fn signed_value(token: Seq<char>) -> int {
    if is_negative(token) {
        -(digits_value(digits_of(token)) as int)
    } else {
        digits_value(digits_of(token)) as int
    }
}

/// The operand that `token` spells, or `None` where it spells none.
pub open spec fn spec_parse_int(token: Seq<char>) -> Option<i32> {
    if digits_of(token).len() > 0 && all_digits(digits_of(token)) && i32::MIN <= signed_value(token)
        <= i32::MAX {
        Some(signed_value(token) as i32)
    } else {
        None
    }
}

/// Appending a digit multiplies the value by ten and adds the digit.
pub proof fn lemma_digits_value_push(s: Seq<char>, c: char)
    ensures
        digits_value(s.push(c)) == digits_value(s) * 10 + digit_value(c),
{
    assert(s.push(c).drop_last() =~= s);
}

/// Reads an operand from a token.
pub fn parse_int(token: &[char]) -> (r: Option<i32>)
    ensures
        r == spec_parse_int(token@),
{
    let n = token.len();
    let negative = n > 0 && token[0] == '-';
    let start: usize = if negative {
        1
    } else {
        0
    };
    if start == n {
        return None;
    }
    let ghost digits = digits_of(token@);
    assert(digits =~= token@.subrange(start as int, n as int));
    // `acc` is the value of the digits read so far, or `MAX_MAGNITUDE + 1`
    // once that value has passed `MAX_MAGNITUDE`.
    let mut acc: i64 = 0;
    let mut i = start;
    while i < n
        invariant
            start <= i <= n,
            n == token@.len(),
            digits == digits_of(token@),
            digits == token@.subrange(start as int, n as int),
            all_digits(digits.take(i - start)),
            0 <= acc <= MAX_MAGNITUDE + 1,
            digits_value(digits.take(i - start)) <= MAX_MAGNITUDE ==> acc == digits_value(
                digits.take(i - start),
            ),
            digits_value(digits.take(i - start)) > MAX_MAGNITUDE ==> acc == MAX_MAGNITUDE + 1,
        decreases n - i,
    {
        let code: u32 = token[i] as u32;
        if code < 0x30 || code > 0x39 {
            assert(!is_digit(digits[i - start]));
            return None;
        }
        proof {
            assert(digits.take(i + 1 - start) =~= digits.take(i - start).push(token@[i as int]));
            lemma_digits_value_push(digits.take(i - start), token@[i as int]);
        }
        if acc <= MAX_MAGNITUDE {
            acc = acc * 10 + (code - 0x30) as i64;
            if acc > MAX_MAGNITUDE {
                acc = MAX_MAGNITUDE + 1;
            }
        }
        i += 1;
    }
    assert(digits.take(n - start) =~= digits);
    if negative {
        if acc <= MAX_MAGNITUDE {
            Some((-acc) as i32)
        } else {
            None
        }
    } else {
        if acc < MAX_MAGNITUDE {
            Some(acc as i32)
        } else {
            None
        }
    }
}

} // verus!
