//! The Luhn checksum over the nine digits of an identifier: two-digit year,
//! month, encoded day and three-digit serial.

use vstd::prelude::*;
use vstd::string::*;
use crate::digits::{digit_at, digit_val, is_digit_char};

verus! {

/// Digit value used by the checksum; a non-digit character counts as zero.
pub open spec fn luhn_digit(c: char) -> int {
    if is_digit_char(c) {
        digit_val(c)
    } else {
        0
    }
}

/// Contribution of the character at position `i`: values at even positions
/// are doubled, and a doubled value above nine is reduced by nine.
pub open spec fn luhn_term(c: char, i: int) -> int {
    let v = if i % 2 == 0 {
        2 * luhn_digit(c)
    } else {
        luhn_digit(c)
    };
    if v > 9 {
        v - 9
    } else {
        v
    }
}

/// Sum of the first `n` checksum contributions.
pub open spec fn luhn_sum(s: Seq<char>, n: int) -> int
    decreases n,
{
    if n <= 0 {
        0
    } else {
        luhn_sum(s, n - 1) + luhn_term(s[n - 1], n - 1)
    }
}

/// The check digit of a nine-character digit string: ten minus the sum of the
/// contributions, modulo ten.
pub open spec fn spec_luhn(s: Seq<char>) -> int {
    (10 - (luhn_sum(s, s.len() as int) % 10)) % 10
}

/// Every checksum contribution lies in `0..=9`.
proof fn lemma_luhn_term_bound(c: char, i: int)
    ensures
        0 <= luhn_term(c, i) <= 9,
{
}

/// The sum of the first `n` contributions lies in `0..=9*n`.
proof fn lemma_luhn_sum_bound(s: Seq<char>, n: int)
    requires
        n >= 0,
    ensures
        0 <= luhn_sum(s, n) <= 9 * n,
    decreases n,
{
    if n > 0 {
        lemma_luhn_sum_bound(s, n - 1);
        lemma_luhn_term_bound(s[n - 1], n - 1);
    }
}

/// Computes the Luhn check digit of a nine-character string. The same string
/// always yields the same digit, and the digit is always in `0..=9`.
pub fn luhn(value: String) -> (r: u8)
    requires
        value@.len() == 9,
    ensures
        r == spec_luhn(value@),
        r <= 9,
{
    let s = value.as_str();
    let mut sum: u32 = 0;
    let mut i: usize = 0;
    while i < 9
        invariant
            s@ == value@,
            s@.len() == 9,
            i <= 9,
            sum == luhn_sum(s@, i as int),
            sum <= 81,
        decreases 9 - i,
    {
        let v: u32 = match digit_at(s, i) {
            Some(d) => d,
            None => 0,
        };
        let v = if i % 2 == 0 {
            2 * v
        } else {
            v
        };
        let v = if v > 9 {
            v - 9
        } else {
            v
        };
        proof {
            assert(v == luhn_term(s@[i as int], i as int));
            lemma_luhn_sum_bound(s@, i as int + 1);
        }
        sum = sum + v;
        i = i + 1;
    }
    let rem = sum % 10;
    ((10 - rem) % 10) as u8
}

} // verus!
