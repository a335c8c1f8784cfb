//! Round-trip laws: reparsing either canonical rendering of an identifier,
//! against the same current date, reproduces the identifier.

use vstd::prelude::*;
use vstd::arithmetic::div_mod::{
    lemma_fundamental_div_mod, lemma_mod_bound, lemma_mod_multiples_vanish, lemma_small_mod,
};
use crate::calendar::{valid_date, Date};
use crate::digits::{
    all_digits, digits1, digits2, digits3, digits4, is_digit_char, lemma_digits2_val,
    lemma_digits3_val, lemma_digits4_val, val1, val2, val3,
};
use crate::grammar::{
    caps_of, grammar_matches, has_century, has_control, has_sep, is_sep_char, sep_of_char,
    spec_caps, Caps,
};
use crate::pnr::{parse_post, Personnummer};
use crate::resolve::{
    lemma_century_resolution, spec_base_year, spec_resolved_sep, spec_resolved_year,
};
use crate::types::{sep_char, PersonnummerError, Seperator};

verus! {

/// The separator matches the age bracket of the identifier at the given
/// current date: minus within the first hundred years, plus within the
/// second. Every parse that resolved the century implicitly satisfies this
/// (see `lemma_parse_sep_consistent`); an explicitly century-qualified input
/// can violate it, by lying in the future or more than two hundred years
/// back.
pub open spec fn sep_consistent(p: Personnummer, now: Date) -> bool {
    match p.seperator {
        Seperator::Minus => 0 <= now.year - p.date.year <= 99,
        Seperator::Plus => 100 <= now.year - p.date.year <= 199,
    }
}

/// The separator is the one the canonical recomputation yields at the given
/// current date: plus exactly from one hundred years of age on. Every parse
/// yields an identifier with this property at the date it was parsed
/// against (see `lemma_parse_sep_canonical`); `sep_consistent` is the
/// stronger bracket condition that the short form, which carries only two
/// year digits and the one-bit plus hint, needs in addition.
pub open spec fn sep_canonical(p: Personnummer, now: Date) -> bool {
    (p.seperator is Plus) <==> now.year - p.date.year >= 100
}

/// Every successful parse yields an identifier whose separator is the
/// canonical one at the date it was parsed against: recomputed from the age
/// bracket when the century was explicit, and echoed but provably in the
/// right bracket when it was implicit.
pub proof fn lemma_parse_sep_canonical(s: Seq<char>, now: Date, p: Personnummer)
    requires
        parse_post(s, now, Ok(p)),
    ensures
        sep_canonical(p, now),
{
    let c = spec_caps(s)->Some_0;
    lemma_century_resolution(c, now.year as int);
    if c.century is None {
        let base = spec_base_year(c, now.year as int);
        assert(base - 99 <= p.date.year <= base);
    }
}

/// The blocks of the long form read back as the identifier's fields.
proof fn lemma_long_chars_fields(p: Personnummer)
    requires
        p.wf(),
        0 <= p.date.year <= 9999,
    ensures
        p.long_chars().len() == 12,
        all_digits(p.long_chars(), 0, 12),
        val2(p.long_chars(), 0) == p.date.year as int / 100,
        val2(p.long_chars(), 2) == p.date.year as int % 100,
        val2(p.long_chars(), 4) == p.date.month,
        val2(p.long_chars(), 6) == p.spec_encoded_day(),
        val3(p.long_chars(), 8) == p.serial,
        val1(p.long_chars(), 11) == p.control,
{
    let s = p.long_chars();
    let y = p.date.year as int;
    let a = digits4(y);
    let b = digits2(p.date.month as int);
    let c = digits2(p.spec_encoded_day());
    let d = digits3(p.serial as int);
    let e = digits1(p.control as int);
    lemma_digits4_val(y);
    lemma_digits2_val(p.date.month as int);
    lemma_digits2_val(p.spec_encoded_day());
    lemma_digits3_val(p.serial as int);
    crate::digits::lemma_char_of_digit(p.control as int);
    assert(s =~= a + b + c + d + e);
    assert forall|i: int| 0 <= i < 12 implies is_digit_char(#[trigger] s[i]) by {
        if i < 4 {
            assert(s[i] == a[i]);
        } else if i < 6 {
            assert(s[i] == b[i - 4]);
        } else if i < 8 {
            assert(s[i] == c[i - 6]);
        } else if i < 11 {
            assert(s[i] == d[i - 8]);
        } else {
            assert(s[i] == e[0]);
        }
    }
    assert(s[0] == a[0] && s[1] == a[1] && s[2] == a[2] && s[3] == a[3]);
    assert(s[4] == b[0] && s[5] == b[1]);
    assert(s[6] == c[0] && s[7] == c[1]);
    assert(s[8] == d[0] && s[9] == d[1] && s[10] == d[2]);
    assert(s[11] == e[0]);
}

/// The encoded day decodes back to the calendar day, and signals
/// coordination exactly when the flag was set.
proof fn lemma_encoded_day(p: Personnummer)
    requires
        p.wf(),
    ensures
        1 <= p.spec_encoded_day() <= 91,
        p.spec_encoded_day() % 60 == p.date.day,
        (p.spec_encoded_day() > 60) == p.coordination,
{
    if p.coordination {
        lemma_mod_multiples_vanish(1, p.date.day as int, 60);
        lemma_small_mod(p.date.day as nat, 60);
    } else {
        lemma_small_mod(p.date.day as nat, 60);
    }
}

/// Round trip through the long form: parsing `long_chars` of a well-formed
/// identifier with a four-digit year, against any current date, succeeds and
/// reproduces the birth date, serial, control digit and coordination flag;
/// when the identifier's separator is the canonical one at that date — as it
/// is for every identifier parsed at that date, however old or far in the
/// future — the separator is reproduced as well.
pub proof fn lemma_round_trip_long(
    p: Personnummer,
    now: Date,
    r: Result<Personnummer, PersonnummerError>,
)
    requires
        p.wf(),
        now.wf(),
        0 <= p.date.year <= 9999,
        parse_post(p.long_chars(), now, r),
    ensures
        r matches Ok(q) ==> {
            &&& q.date == p.date
            &&& q.serial == p.serial
            &&& q.control == p.control
            &&& q.coordination == p.coordination
            &&& sep_canonical(p, now) ==> q.seperator == p.seperator
        },
        r is Ok,
{
    let s = p.long_chars();
    let y = p.date.year as int;
    lemma_long_chars_fields(p);
    lemma_encoded_day(p);
    assert(grammar_matches(s));
    assert(has_century(s));
    assert(has_sep(s) == is_sep_char(s[8]));
    assert(!is_sep_char(s[8]));
    let c = caps_of(s);
    assert(spec_caps(s) == Some(c));
    assert(c.century == Some(y / 100));
    assert(c.year2 == y % 100);
    lemma_fundamental_div_mod(y, 100);
    let fy = spec_resolved_year(c, now.year as int);
    assert(fy == (y / 100) * 100 + y % 100);
    assert(fy == y);
    assert(valid_date(fy, c.month, c.day % 60));
}

/// Round trip through the short form: parsing `short_chars` of a well-formed
/// identifier whose separator matches its age bracket at the given current
/// date succeeds and reproduces every field, the separator included.
pub proof fn lemma_round_trip_short(
    p: Personnummer,
    now: Date,
    r: Result<Personnummer, PersonnummerError>,
)
    requires
        p.wf(),
        now.wf(),
        sep_consistent(p, now),
        parse_post(p.short_chars(), now, r),
    ensures
        r matches Ok(q) ==> {
            &&& q.date == p.date
            &&& q.serial == p.serial
            &&& q.control == p.control
            &&& q.coordination == p.coordination
            &&& q.seperator == p.seperator
        },
        r is Ok,
{
    let s = p.short_chars();
    let y = p.date.year as int;
    let a = digits2(y % 100);
    let b = digits2(p.date.month as int);
    let cd = digits2(p.spec_encoded_day());
    let sp = seq![sep_char(p.seperator)];
    let d = digits3(p.serial as int);
    let e = digits1(p.control as int);
    lemma_mod_bound(y, 100);
    lemma_digits2_val(y % 100);
    lemma_digits2_val(p.date.month as int);
    lemma_digits2_val(p.spec_encoded_day());
    lemma_digits3_val(p.serial as int);
    crate::digits::lemma_char_of_digit(p.control as int);
    lemma_encoded_day(p);
    assert(s =~= a + b + cd + sp + d + e);
    assert(s[6] == sep_char(p.seperator));
    assert(is_sep_char(s[6]));
    assert(!is_digit_char(s[6]));
    assert forall|i: int| 0 <= i < 6 implies is_digit_char(#[trigger] s[i]) by {
        if i < 2 {
            assert(s[i] == a[i]);
        } else if i < 4 {
            assert(s[i] == b[i - 2]);
        } else {
            assert(s[i] == cd[i - 4]);
        }
    }
    assert forall|i: int| 7 <= i < 11 implies is_digit_char(#[trigger] s[i]) by {
        if i < 10 {
            assert(s[i] == d[i - 7]);
        } else {
            assert(s[i] == e[0]);
        }
    }
    assert(grammar_matches(s));
    assert(!all_digits(s, 0, 11));
    assert(!has_century(s));
    let c = caps_of(s);
    assert(spec_caps(s) == Some(c));
    assert(s[0] == a[0] && s[1] == a[1]);
    assert(s[2] == b[0] && s[3] == b[1]);
    assert(s[4] == cd[0] && s[5] == cd[1]);
    assert(s[7] == d[0] && s[8] == d[1] && s[9] == d[2]);
    assert(s[10] == e[0]);
    assert(c.year2 == y % 100);
    assert(c.month == p.date.month);
    assert(c.day == p.spec_encoded_day());
    assert(c.sep == Some(sep_of_char(sep_char(p.seperator))));
    assert(sep_of_char(sep_char(p.seperator)) == p.seperator);
    assert(c.serial == p.serial);
    assert(c.control == p.control);
    let base = spec_base_year(c, now.year as int);
    let fy = spec_resolved_year(c, now.year as int);
    lemma_century_resolution(c, now.year as int);
    assert(y % 100 == c.year2);
    assert(base - 99 <= y <= base);
    assert(fy == y);
    assert(spec_resolved_sep(c, now.year as int) == p.seperator);
    assert(valid_date(fy, c.month, c.day % 60));
}

/// A parse whose input left the century implicit always yields an identifier
/// whose separator matches its age bracket at the date it was parsed
/// against.
pub proof fn lemma_parse_sep_consistent(s: Seq<char>, now: Date, p: Personnummer)
    requires
        parse_post(s, now, Ok(p)),
        spec_caps(s) matches Some(c) && c.century is None,
    ensures
        sep_consistent(p, now),
{
    let c = spec_caps(s)->Some_0;
    lemma_century_resolution(c, now.year as int);
    let base = spec_base_year(c, now.year as int);
    assert(base - 99 <= p.date.year <= base);
}

} // verus!
