//! Decimal digits as characters: the spec-level correspondence between digit
//! characters and their values, executable readers for fixed-width digit
//! fields, and executable writers that zero-pad numbers onto a `String`.

use vstd::prelude::*;
use vstd::string::*;
use vstd::arithmetic::div_mod::{
    lemma_div_denominator, lemma_fundamental_div_mod, lemma_mod_breakdown,
};

verus! {

/// The characters `'0'` through `'9'`.
pub open spec fn is_digit_char(c: char) -> bool {
    48 <= c as int <= 57
}

/// Numeric value of a digit character.
pub open spec fn digit_val(c: char) -> int {
    c as int - 48
}

/// The digit character for a value in `0..=9`.
pub open spec fn char_of_digit(d: int) -> char {
    if d == 0 {
        '0'
    } else if d == 1 {
        '1'
    } else if d == 2 {
        '2'
    } else if d == 3 {
        '3'
    } else if d == 4 {
        '4'
    } else if d == 5 {
        '5'
    } else if d == 6 {
        '6'
    } else if d == 7 {
        '7'
    } else if d == 8 {
        '8'
    } else {
        '9'
    }
}

/// Every character at positions `from..to` is a digit.
pub open spec fn all_digits(s: Seq<char>, from: int, to: int) -> bool {
    forall|i: int| from <= i < to ==> is_digit_char(#[trigger] s[i])
}

/// Value of the one-digit field at position `i`.
pub open spec fn val1(s: Seq<char>, i: int) -> int {
    digit_val(s[i])
}

/// Value of the two-digit field starting at position `i`.
pub open spec fn val2(s: Seq<char>, i: int) -> int {
    digit_val(s[i]) * 10 + digit_val(s[i + 1])
}

/// Value of the three-digit field starting at position `i`.
pub open spec fn val3(s: Seq<char>, i: int) -> int {
    digit_val(s[i]) * 100 + digit_val(s[i + 1]) * 10 + digit_val(s[i + 2])
}

/// The single digit character of a value below ten.
pub open spec fn digits1(n: int) -> Seq<char> {
    seq![char_of_digit(n)]
}

/// The two digit characters of a value below one hundred, zero-padded.
pub open spec fn digits2(n: int) -> Seq<char> {
    seq![char_of_digit(n / 10), char_of_digit(n % 10)]
}

/// The three digit characters of a value below one thousand, zero-padded.
pub open spec fn digits3(n: int) -> Seq<char> {
    seq![char_of_digit(n / 100), char_of_digit((n / 10) % 10), char_of_digit(n % 10)]
}

/// The four digit characters of a value below ten thousand, zero-padded.
pub open spec fn digits4(n: int) -> Seq<char> {
    seq![
        char_of_digit(n / 1000),
        char_of_digit((n / 100) % 10),
        char_of_digit((n / 10) % 10),
        char_of_digit(n % 10),
    ]
}

/// A digit's character round-trips to its value.
pub proof fn lemma_char_of_digit(d: int)
    requires
        0 <= d <= 9,
    ensures
        is_digit_char(char_of_digit(d)),
        digit_val(char_of_digit(d)) == d,
{
}

/// The two-digit rendering of `n` reads back as `n`.
pub proof fn lemma_digits2_val(n: int)
    requires
        0 <= n <= 99,
    ensures
        digits2(n).len() == 2,
        all_digits(digits2(n), 0, 2),
        val2(digits2(n), 0) == n,
{
    lemma_fundamental_div_mod(n, 10);
    lemma_char_of_digit(n / 10);
    lemma_char_of_digit(n % 10);
    assert forall|i: int| 0 <= i < 2 implies is_digit_char(#[trigger] digits2(n)[i]) by {
        if i == 0 {
            assert(digits2(n)[0] == char_of_digit(n / 10));
        } else {
            assert(digits2(n)[1] == char_of_digit(n % 10));
        }
    }
}

/// The three-digit rendering of `n` reads back as `n`.
pub proof fn lemma_digits3_val(n: int)
    requires
        0 <= n <= 999,
    ensures
        digits3(n).len() == 3,
        all_digits(digits3(n), 0, 3),
        val3(digits3(n), 0) == n,
{
    lemma_fundamental_div_mod(n, 100);
    lemma_fundamental_div_mod(n % 100, 10);
    lemma_mod_breakdown(n, 10, 10);
    lemma_char_of_digit(n / 100);
    lemma_char_of_digit((n / 10) % 10);
    lemma_char_of_digit(n % 10);
    assert forall|i: int| 0 <= i < 3 implies is_digit_char(#[trigger] digits3(n)[i]) by {
        if i == 0 {
            assert(digits3(n)[0] == char_of_digit(n / 100));
        } else if i == 1 {
            assert(digits3(n)[1] == char_of_digit((n / 10) % 10));
        } else {
            assert(digits3(n)[2] == char_of_digit(n % 10));
        }
    }
}

/// The four-digit rendering of `n` reads back as `n`: the first two digits as
/// the century part, the last two as the year-within-century part.
pub proof fn lemma_digits4_val(n: int)
    requires
        0 <= n <= 9999,
    ensures
        digits4(n).len() == 4,
        all_digits(digits4(n), 0, 4),
        val2(digits4(n), 0) == n / 100,
        val2(digits4(n), 2) == n % 100,
{
    lemma_div_denominator(n, 100, 10);
    lemma_fundamental_div_mod(n / 100, 10);
    lemma_mod_breakdown(n, 10, 10);
    lemma_char_of_digit(n / 1000);
    lemma_char_of_digit((n / 100) % 10);
    lemma_char_of_digit((n / 10) % 10);
    lemma_char_of_digit(n % 10);
    assert(n / 1000 == (n / 100) / 10);
    assert forall|i: int| 0 <= i < 4 implies is_digit_char(#[trigger] digits4(n)[i]) by {
        if i == 0 {
            assert(digits4(n)[0] == char_of_digit(n / 1000));
        } else if i == 1 {
            assert(digits4(n)[1] == char_of_digit((n / 100) % 10));
        } else if i == 2 {
            assert(digits4(n)[2] == char_of_digit((n / 10) % 10));
        } else {
            assert(digits4(n)[3] == char_of_digit(n % 10));
        }
    }
}

/// The value of the digit character at position `i`, if it is one.
pub fn digit_at(s: &str, i: usize) -> (r: Option<u32>)
    requires
        i < s@.len(),
    ensures
        match r {
            Some(v) => is_digit_char(s@[i as int]) && v == digit_val(s@[i as int]),
            None => !is_digit_char(s@[i as int]),
        },
{
    let c = s.get_char(i);
    let u = c as u32;
    if 48 <= u && u <= 57 {
        Some(u - 48)
    } else {
        None
    }
}

/// Whether every character at positions `from..to` is a digit.
pub fn digits_in_range(s: &str, from: usize, to: usize) -> (b: bool)
    requires
        from <= to <= s@.len(),
    ensures
        b == all_digits(s@, from as int, to as int),
{
    let mut i: usize = from;
    while i < to
        invariant
            from <= i <= to <= s@.len(),
            all_digits(s@, from as int, i as int),
        decreases to - i,
    {
        if digit_at(s, i).is_none() {
            return false;
        }
        i = i + 1;
    }
    true
}

/// Reads the one-digit field at position `i`.
pub fn read1(s: &str, i: usize) -> (v: u32)
    requires
        i < s@.len(),
        all_digits(s@, i as int, i + 1),
    ensures
        v == val1(s@, i as int),
        v <= 9,
{
    match digit_at(s, i) {
        Some(d) => d,
        None => 0,
    }
}

/// Reads the two-digit field starting at position `i`.
pub fn read2(s: &str, i: usize) -> (v: u32)
    requires
        i + 2 <= s@.len() <= usize::MAX,
        all_digits(s@, i as int, i + 2),
    ensures
        v == val2(s@, i as int),
        v <= 99,
{
    let a = read1(s, i);
    let b = read1(s, i + 1);
    a * 10 + b
}

/// Reads the three-digit field starting at position `i`.
pub fn read3(s: &str, i: usize) -> (v: u32)
    requires
        i + 3 <= s@.len() <= usize::MAX,
        all_digits(s@, i as int, i + 3),
    ensures
        v == val3(s@, i as int),
        v <= 999,
{
    let a = read1(s, i);
    let b = read1(s, i + 1);
    let c = read1(s, i + 2);
    a * 100 + b * 10 + c
}

/// Appends the digit character of `d`.
pub fn push_digit(out: &mut String, d: u32)
    requires
        d <= 9,
    ensures
        final(out)@ == old(out)@ + digits1(d as int),
{
    let ds: &str = match d {
        0 => "0",
        1 => "1",
        2 => "2",
        3 => "3",
        4 => "4",
        5 => "5",
        6 => "6",
        7 => "7",
        8 => "8",
        _ => "9",
    };
    proof {
        reveal_strlit("0");
        reveal_strlit("1");
        reveal_strlit("2");
        reveal_strlit("3");
        reveal_strlit("4");
        reveal_strlit("5");
        reveal_strlit("6");
        reveal_strlit("7");
        reveal_strlit("8");
        reveal_strlit("9");
        assert(ds@ =~= digits1(d as int));
    }
    out.append(ds);
}

/// Appends the two digit characters of `n`, zero-padded.
pub fn push_two(out: &mut String, n: u32)
    requires
        n <= 99,
    ensures
        final(out)@ == old(out)@ + digits2(n as int),
{
    push_digit(out, n / 10);
    push_digit(out, n % 10);
    assert(out@ =~= old(out)@ + digits2(n as int));
}

/// Appends the three digit characters of `n`, zero-padded.
pub fn push_three(out: &mut String, n: u32)
    requires
        n <= 999,
    ensures
        final(out)@ == old(out)@ + digits3(n as int),
{
    push_digit(out, n / 100);
    push_digit(out, (n / 10) % 10);
    push_digit(out, n % 10);
    assert(out@ =~= old(out)@ + digits3(n as int));
}

/// Appends the four digit characters of `n`, zero-padded.
pub fn push_four(out: &mut String, n: u32)
    requires
        n <= 9999,
    ensures
        final(out)@ == old(out)@ + digits4(n as int),
{
    push_digit(out, n / 1000);
    push_digit(out, (n / 100) % 10);
    push_digit(out, (n / 10) % 10);
    push_digit(out, n % 10);
    assert(out@ =~= old(out)@ + digits4(n as int));
}

} // verus!
