//! The identifier itself: parsing against an injected current date,
//! checksum validation, formatting, and the derived attributes.

use vstd::prelude::*;
use vstd::string::*;
use crate::calendar::{spec_age, valid_date, Date};
use crate::checksum::{luhn, spec_luhn};
use crate::clock::today;
use crate::digits::{
    digits1, digits2, digits3, digits4, push_digit, push_four, push_three, push_two,
};
use crate::grammar::{grammar_matches, scan, spec_caps};
use crate::resolve::{resolve_century, spec_resolved_sep, spec_resolved_year};
use crate::types::{sep_char, PersonnummerError, Seperator};
use vstd::arithmetic::div_mod::lemma_mod_multiples_vanish;

verus! {

/// A parsed personal identity number: the resolved birth date, the serial
/// and control digits as supplied, the canonical separator, and whether the
/// day carried the coordination-number offset.
pub struct Personnummer {
    pub date: Date,
    pub serial: u32,
    pub control: u8,
    pub seperator: Seperator,
    pub coordination: bool,
}

/// The two canonical renderings of an identifier, one with the full century
/// and no separator, one with the two-digit year and the separator.
pub struct FormattedPersonnummer {
    long: String,
    short: String,
}

impl FormattedPersonnummer {
    /// The characters of the long form.
    pub closed spec fn long_view(self) -> Seq<char> {
        self.long@
    }

    /// The characters of the short form.
    pub closed spec fn short_view(self) -> Seq<char> {
        self.short@
    }

    /// The long form, `YYYYMMDDSSSC`.
    pub fn long(&self) -> (r: String)
        ensures
            r@ == self.long_view(),
    {
        self.long.clone()
    }

    /// The short form, `YYMMDD-SSSC` or `YYMMDD+SSSC`.
    pub fn short(&self) -> (r: String)
        ensures
            r@ == self.short_view(),
    {
        self.short.clone()
    }
}

impl Personnummer {
    /// Well-formed: a real birth date, a three-digit serial and a one-digit
    /// control digit. Every identifier the parser returns satisfies this.
    pub open spec fn wf(self) -> bool {
        &&& self.date.wf()
        &&& self.serial <= 999
        &&& self.control <= 9
    }

    /// The day as the identifier text encodes it: coordination numbers carry
    /// the calendar day plus sixty.
    pub open spec fn spec_encoded_day(self) -> int {
        if self.coordination {
            self.date.day + 60
        } else {
            self.date.day as int
        }
    }

    /// The nine digit characters the checksum covers: two-digit year, month,
    /// encoded day and serial.
    pub open spec fn checksum_chars(self) -> Seq<char> {
        digits2((self.date.year as int) % 100) + digits2(self.date.month as int) + digits2(
            self.spec_encoded_day(),
        ) + digits3(self.serial as int)
    }

    /// Checksum-valid: the serial is nonzero and the Luhn digit of the nine
    /// covered digits equals the supplied control digit.
    pub open spec fn spec_valid(self) -> bool {
        self.serial > 0 && spec_luhn(self.checksum_chars()) == self.control
    }

    /// The characters of the long form: four-digit year, month, encoded day,
    /// serial and control digit.
    pub open spec fn long_chars(self) -> Seq<char> {
        digits4(self.date.year as int) + digits2(self.date.month as int) + digits2(
            self.spec_encoded_day(),
        ) + digits3(self.serial as int) + digits1(self.control as int)
    }

    /// The characters of the short form: two-digit year, month, encoded day,
    /// separator, serial and control digit.
    pub open spec fn short_chars(self) -> Seq<char> {
        digits2((self.date.year as int) % 100) + digits2(self.date.month as int) + digits2(
            self.spec_encoded_day(),
        ) + seq![sep_char(self.seperator)] + digits3(self.serial as int) + digits1(
            self.control as int,
        )
    }
}

/// What parsing `s` against the current date `now` returns: a format error
/// for a string outside the grammar; a date error when the resolved year,
/// month and (coordination-decoded) day do not name a real calendar date;
/// and otherwise the identifier whose every field is determined by the
/// captured digits and the resolution rules.
pub open spec fn parse_post(
    s: Seq<char>,
    now: Date,
    r: Result<Personnummer, PersonnummerError>,
) -> bool {
    match spec_caps(s) {
        None => r == Err::<Personnummer, PersonnummerError>(PersonnummerError::InvalidInput),
        Some(c) => {
            let fy = spec_resolved_year(c, now.year as int);
            if valid_date(fy, c.month, c.day % 60) {
                match r {
                    Ok(p) => {
                        &&& p.date.year == fy
                        &&& p.date.month == c.month
                        &&& p.date.day == c.day % 60
                        &&& p.serial == c.serial
                        &&& p.control == c.control
                        &&& p.seperator == spec_resolved_sep(c, now.year as int)
                        &&& p.coordination == (c.day > 60)
                    },
                    Err(_) => false,
                }
            } else {
                r == Err::<Personnummer, PersonnummerError>(PersonnummerError::InvalidDate)
            }
        },
    }
}

impl Personnummer {
    /// Parses an identifier against the given current date. Returns a format
    /// error exactly for strings outside the grammar and a date error exactly
    /// for matching strings whose digits name no real calendar date; every
    /// other string yields an identifier, checksum-correct or not.
    pub fn parse(pnr: &str, now: Date) -> (r: Result<Personnummer, PersonnummerError>)
        requires
            now.wf(),
        ensures
            parse_post(pnr@, now, r),
            r == Err::<Personnummer, PersonnummerError>(PersonnummerError::InvalidInput)
                <==> !grammar_matches(pnr@),
            r == Err::<Personnummer, PersonnummerError>(PersonnummerError::InvalidDate)
                <==> (spec_caps(pnr@) matches Some(c) && !valid_date(
                spec_resolved_year(c, now.year as int),
                c.month,
                c.day % 60,
            )),
            r matches Ok(p) ==> p.wf(),
    {
        let caps = match scan(pnr) {
            Some(c) => c,
            None => {
                return Err(PersonnummerError::InvalidInput);
            },
        };
        let (full_year, sep) = resolve_century(&caps, now.year);
        let cal_day = caps.day % 60;
        let date = match crate::calendar::date_from_ymd(full_year, caps.month, cal_day) {
            Some(d) => d,
            None => {
                return Err(PersonnummerError::InvalidDate);
            },
        };
        Ok(
            Personnummer {
                date,
                serial: caps.serial,
                control: caps.control as u8,
                seperator: sep,
                coordination: caps.day > 60,
            },
        )
    }

    /// Parses an identifier against the current date read from the system
    /// clock; a clock that cannot be read falls back to the Unix epoch date.
    /// Which date is supplied is unknown, but the result is a parse against
    /// some real calendar date, and format errors do not depend on the clock
    /// at all.
    pub fn new(pnr: &str) -> (r: Result<Personnummer, PersonnummerError>)
        ensures
            exists|now: Date| now.wf() && parse_post(pnr@, now, r),
            r == Err::<Personnummer, PersonnummerError>(PersonnummerError::InvalidInput)
                <==> !grammar_matches(pnr@),
            r matches Ok(p) ==> p.wf(),
    {
        let now = match today() {
            Some(d) => d,
            None => Date { year: 1970, month: 1, day: 1 },
        };
        let r = Self::parse(pnr, now);
        proof {
            assert(now.wf() && parse_post(pnr@, now, r));
        }
        r
    }

    /// Renders the two canonical forms. Both use the encoded day, so that
    /// either form parses back to the same identifier.
    pub fn format(&self) -> (r: FormattedPersonnummer)
        requires
            self.wf(),
            0 <= self.date.year <= 9999,
        ensures
            r.long_view() == self.long_chars(),
            r.short_view() == self.short_chars(),
    {
        let enc: u32 = if self.coordination {
            self.date.day + 60
        } else {
            self.date.day
        };
        let year: u32 = self.date.year as u32;

        let mut long = String::new();
        push_four(&mut long, year);
        push_two(&mut long, self.date.month);
        push_two(&mut long, enc);
        push_three(&mut long, self.serial);
        push_digit(&mut long, self.control as u32);
        proof {
            assert(long@ =~= self.long_chars());
        }

        let mut short = String::new();
        push_two(&mut short, year % 100);
        push_two(&mut short, self.date.month);
        push_two(&mut short, enc);
        short.append(self.seperator.as_str());
        push_three(&mut short, self.serial);
        push_digit(&mut short, self.control as u32);
        proof {
            assert(short@ =~= self.short_chars());
        }

        FormattedPersonnummer { long, short }
    }

    /// Whether the identifier is checksum-valid: nonzero serial and a Luhn
    /// digit over year, month, encoded day and serial that equals the
    /// supplied control digit.
    pub fn valid(&self) -> (r: bool)
        requires
            self.wf(),
        ensures
            r == self.spec_valid(),
    {
        let enc: u32 = if self.coordination {
            self.date.day + 60
        } else {
            self.date.day
        };
        let y2 = year_mod_100(self.date.year);
        let mut digits = String::new();
        push_two(&mut digits, y2);
        push_two(&mut digits, self.date.month);
        push_two(&mut digits, enc);
        push_three(&mut digits, self.serial);
        proof {
            assert(digits@ =~= self.checksum_chars());
        }
        let check = luhn(digits);
        self.serial > 0 && check == self.control
    }

    /// Whole years from the birth date to the given current date, counting
    /// the current year only once the birthday has been reached.
    pub fn age(&self, now: Date) -> (r: i32)
        requires
            self.wf(),
            now.wf(),
        ensures
            r == spec_age(self.date, now),
    {
        if self.date.month > now.month || (self.date.month == now.month && self.date.day
            > now.day) {
            now.year - self.date.year - 1
        } else {
            now.year - self.date.year
        }
    }

    /// Whole years from the birth date to the current date read from the
    /// system clock; a clock that cannot be read falls back to the Unix
    /// epoch date.
    pub fn get_age(&self) -> (r: i32)
        requires
            self.wf(),
        ensures
            exists|now: Date| now.wf() && r == spec_age(self.date, now),
    {
        let now = match today() {
            Some(d) => d,
            None => Date { year: 1970, month: 1, day: 1 },
        };
        let r = self.age(now);
        proof {
            assert(now.wf() && r == spec_age(self.date, now));
        }
        r
    }

    /// Whether the identifier is female-coded: even penultimate serial digit.
    pub fn is_female(&self) -> (r: bool)
        ensures
            r == ((self.serial % 10) % 2 == 0),
    {
        (self.serial % 10) % 2 == 0
    }

    /// Whether the identifier is male-coded: odd penultimate serial digit.
    pub fn is_male(&self) -> (r: bool)
        ensures
            r == ((self.serial % 10) % 2 != 0),
    {
        !self.is_female()
    }

    /// Whether the day carried the coordination-number offset.
    pub fn is_coordination_number(&self) -> (r: bool)
        ensures
            r == self.coordination,
    {
        self.coordination
    }

    /// Year of the birth date.
    pub fn year(&self) -> (r: i32)
        ensures
            r == self.date.year,
    {
        self.date.year
    }

    /// Month of the birth date.
    pub fn month(&self) -> (r: u32)
        ensures
            r == self.date.month,
    {
        self.date.month
    }

    /// Calendar day of the birth date, with the coordination offset removed.
    pub fn day(&self) -> (r: u32)
        ensures
            r == self.date.day,
    {
        self.date.day
    }

    /// Serial part of the identifier.
    pub fn serial(&self) -> (r: u32)
        ensures
            r == self.serial,
    {
        self.serial
    }

    /// The canonical separator between birth date and serial.
    pub fn seperator(&self) -> (r: Seperator)
        ensures
            r == self.seperator,
    {
        self.seperator
    }
}

/// The two-digit year of any supported year, as a remainder that is never
/// negative.
fn year_mod_100(y: i32) -> (r: u32)
    requires
        crate::calendar::MIN_YEAR <= y <= crate::calendar::MAX_YEAR,
    ensures
        r == (y as int) % 100,
        r <= 99,
{
    let s: u64 = (y as i64 + 1_000_000_000) as u64;
    proof {
        lemma_mod_multiples_vanish(10_000_000, y as int, 100);
    }
    (s % 100) as u32
}

} // verus!
