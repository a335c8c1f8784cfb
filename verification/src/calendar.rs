//! Calendar dates: the proleptic Gregorian rules for leap years and month
//! lengths, and the `Date` value used both for birth dates and for the
//! injected "now".

use vstd::prelude::*;
use vstd::arithmetic::div_mod::lemma_mod_multiples_vanish;

verus! {

/// Smallest year the library's dates can carry; matches the range of the
/// calendar type that supplies clock readings.
pub const MIN_YEAR: i32 = -262143;

/// Largest year the library's dates can carry.
pub const MAX_YEAR: i32 = 262142;

/// Leap years of the proleptic Gregorian calendar: every fourth year, except
/// century years not divisible by four hundred.
pub open spec fn is_leap_year(y: int) -> bool {
    y % 4 == 0 && (y % 100 != 0 || y % 400 == 0)
}

/// Number of days in month `m` of year `y`.
pub open spec fn spec_days_in_month(y: int, m: int) -> int {
    if m == 2 {
        if is_leap_year(y) {
            29
        } else {
            28
        }
    } else if m == 4 || m == 6 || m == 9 || m == 11 {
        30
    } else {
        31
    }
}

/// A real calendar date within the supported year range.
pub open spec fn valid_date(y: int, m: int, d: int) -> bool {
    &&& MIN_YEAR <= y <= MAX_YEAR
    &&& 1 <= m <= 12
    &&& 1 <= d <= spec_days_in_month(y, m)
}

/// A calendar date. The parse pipeline takes one of these as the injected
/// current date, and every constructed identifier carries one as its birth
/// date.
#[derive(Clone, Copy, PartialEq, Eq, Structural, Debug)]
pub struct Date {
    pub year: i32,
    pub month: u32,
    pub day: u32,
}

impl Date {
    /// The date is a real calendar date in the supported year range.
    pub open spec fn wf(self) -> bool {
        valid_date(self.year as int, self.month as int, self.day as int)
    }
}

/// Whole years from `birth` to `now`, counting the current year only once the
/// birthday has been reached.
pub open spec fn spec_age(birth: Date, now: Date) -> int {
    if birth.month > now.month || (birth.month == now.month && birth.day > now.day) {
        now.year - birth.year - 1
    } else {
        now.year - birth.year
    }
}

/// Leap-year test for any supported year, including years before the epoch.
pub fn leap_year(y: i32) -> (r: bool)
    requires
        MIN_YEAR <= y <= MAX_YEAR,
    ensures
        r == is_leap_year(y as int),
{
    let s: u64 = (y as i64 + 400_000_000) as u64;
    proof {
        lemma_mod_multiples_vanish(100_000_000, y as int, 4);
        lemma_mod_multiples_vanish(4_000_000, y as int, 100);
        lemma_mod_multiples_vanish(1_000_000, y as int, 400);
    }
    s % 4 == 0 && (s % 100 != 0 || s % 400 == 0)
}

/// Number of days in month `m` of year `y`.
pub fn days_in_month(y: i32, m: u32) -> (r: u32)
    requires
        MIN_YEAR <= y <= MAX_YEAR,
        1 <= m <= 12,
    ensures
        r == spec_days_in_month(y as int, m as int),
{
    if m == 2 {
        if leap_year(y) {
            29
        } else {
            28
        }
    } else if m == 4 || m == 6 || m == 9 || m == 11 {
        30
    } else {
        31
    }
}

/// Builds a date from its parts, or reports that they do not name a real
/// calendar date in the supported range.
pub fn date_from_ymd(y: i64, m: u32, d: u32) -> (r: Option<Date>)
    ensures
        match r {
            Some(date) => {
                &&& valid_date(y as int, m as int, d as int)
                &&& date.year == y
                &&& date.month == m
                &&& date.day == d
                &&& date.wf()
            },
            None => !valid_date(y as int, m as int, d as int),
        },
{
    if y < MIN_YEAR as i64 || y > MAX_YEAR as i64 {
        return None;
    }
    if m < 1 || m > 12 {
        return None;
    }
    let yy: i32 = y as i32;
    if d < 1 || d > days_in_month(yy, m) {
        return None;
    }
    Some(Date { year: yy, month: m, day: d })
}

} // verus!
