//! The identifier grammar: which strings are well-formed identifiers, and
//! which raw fields (century, year, month, day, separator, serial, control
//! digit) such a string carries.
//!
//! The grammar, anchored at both ends, is
//! `century{2}? year{2} month{2} day{2} ('-'|'+')? serial{3} control?`
//! with every fixed-width field made of decimal digits. Each admissible
//! length therefore determines which optional parts are present.

use vstd::prelude::*;
use vstd::string::*;
use crate::digits::{
    all_digits, digits_in_range, read1, read2, read3, val1, val2, val3,
};
use crate::types::Seperator;

verus! {

/// The two separator characters the grammar recognizes.
pub open spec fn is_sep_char(c: char) -> bool {
    c == '-' || c == '+'
}

/// The separator a separator character denotes.
pub open spec fn sep_of_char(c: char) -> Seperator {
    if c == '+' {
        Seperator::Plus
    } else {
        Seperator::Minus
    }
}

/// Whether a string matches the identifier grammar. One disjunct per shape:
/// the six date digits and three serial digits are always present; the
/// century pair, the separator and the control digit are optional, so the
/// length and the position of the separator decide the shape.
pub open spec fn grammar_matches(s: Seq<char>) -> bool {
    ||| (s.len() == 9 && all_digits(s, 0, 9))
    ||| (s.len() == 10 && all_digits(s, 0, 10))
    ||| (s.len() == 10 && all_digits(s, 0, 6) && is_sep_char(s[6]) && all_digits(s, 7, 10))
    ||| (s.len() == 11 && all_digits(s, 0, 11))
    ||| (s.len() == 11 && all_digits(s, 0, 6) && is_sep_char(s[6]) && all_digits(s, 7, 11))
    ||| (s.len() == 12 && all_digits(s, 0, 12))
    ||| (s.len() == 12 && all_digits(s, 0, 8) && is_sep_char(s[8]) && all_digits(s, 9, 12))
    ||| (s.len() == 13 && all_digits(s, 0, 8) && is_sep_char(s[8]) && all_digits(s, 9, 13))
}

/// The raw fields a matching string carries, as unbounded integers. The
/// separator is kept as matched; a missing control digit counts as zero.
pub ghost struct Caps {
    pub century: Option<int>,
    pub year2: int,
    pub month: int,
    pub day: int,
    pub sep: Option<Seperator>,
    pub serial: int,
    pub control: int,
}

/// A matching string has the explicit century exactly when its length leaves
/// room for it: eleven digits without a separator, or twelve or more
/// characters.
pub open spec fn has_century(s: Seq<char>) -> bool {
    (s.len() == 11 && all_digits(s, 0, 11)) || s.len() >= 12
}

/// Offset of the six date digits: two when a century pair precedes them.
pub open spec fn date_off(s: Seq<char>) -> int {
    if has_century(s) {
        2
    } else {
        0
    }
}

/// Whether the matching string carries a separator character.
pub open spec fn has_sep(s: Seq<char>) -> bool {
    is_sep_char(s[date_off(s) + 6])
}

/// Offset of the three serial digits.
pub open spec fn serial_off(s: Seq<char>) -> int {
    date_off(s) + 6 + if has_sep(s) {
        1int
    } else {
        0int
    }
}

/// Whether the matching string carries a control digit.
pub open spec fn has_control(s: Seq<char>) -> bool {
    s.len() == serial_off(s) + 4
}

/// The raw fields of a matching string.
pub open spec fn caps_of(s: Seq<char>) -> Caps {
    Caps {
        century: if has_century(s) {
            Some(val2(s, 0))
        } else {
            None
        },
        year2: val2(s, date_off(s)),
        month: val2(s, date_off(s) + 2),
        day: val2(s, date_off(s) + 4),
        sep: if has_sep(s) {
            Some(sep_of_char(s[date_off(s) + 6]))
        } else {
            None
        },
        serial: val3(s, serial_off(s)),
        control: if has_control(s) {
            val1(s, serial_off(s) + 3)
        } else {
            0
        },
    }
}

/// The raw fields of a string, or nothing when it does not match the grammar.
pub open spec fn spec_caps(s: Seq<char>) -> Option<Caps> {
    if grammar_matches(s) {
        Some(caps_of(s))
    } else {
        None
    }
}

/// The raw fields of a matching string, in executable form.
pub struct RawCaps {
    pub century: Option<u32>,
    pub year2: u32,
    pub month: u32,
    pub day: u32,
    pub sep: Option<Seperator>,
    pub serial: u32,
    pub control: u32,
}

impl RawCaps {
    /// The fields as unbounded integers.
    pub open spec fn as_caps(self) -> Caps {
        Caps {
            century: match self.century {
                Some(c) => Some(c as int),
                None => None,
            },
            year2: self.year2 as int,
            month: self.month as int,
            day: self.day as int,
            sep: self.sep,
            serial: self.serial as int,
            control: self.control as int,
        }
    }

    /// Every field is within the width its digit count allows.
    pub open spec fn wf(self) -> bool {
        &&& match self.century {
            Some(c) => c <= 99,
            None => true,
        }
        &&& self.year2 <= 99
        &&& self.month <= 99
        &&& self.day <= 99
        &&& self.serial <= 999
        &&& self.control <= 9
    }
}

/// Matches a string against the grammar and extracts its raw fields.
pub fn scan(s: &str) -> (r: Option<RawCaps>)
    ensures
        match r {
            Some(c) => c.wf() && spec_caps(s@) == Some(c.as_caps()),
            None => spec_caps(s@) is None,
        },
{
    let n = s.unicode_len();
    if n < 9 || n > 13 {
        return None;
    }
    // Century present: eleven characters all digits, or twelve or thirteen.
    let century_present: bool = if n == 11 {
        digits_in_range(s, 0, 11)
    } else {
        n >= 12
    };
    let doff: usize = if century_present {
        2
    } else {
        0
    };
    proof {
        assert(century_present == has_century(s@));
    }
    if !digits_in_range(s, 0, doff + 6) {
        // The century pair (if any) and the six date digits are mandatory.
        return None;
    }
    let sep: Option<Seperator> = sep_at(s, doff + 6);
    let soff: usize = if sep.is_some() {
        doff + 7
    } else {
        doff + 6
    };
    if n != soff + 3 && n != soff + 4 {
        return None;
    }
    if !digits_in_range(s, soff, n) {
        return None;
    }
    let caps = RawCaps {
        century: if century_present {
            Some(read2(s, 0))
        } else {
            None
        },
        year2: read2(s, doff),
        month: read2(s, doff + 2),
        day: read2(s, doff + 4),
        sep,
        serial: read3(s, soff),
        control: if n == soff + 4 {
            read1(s, soff + 3)
        } else {
            0
        },
    };
    proof {
        assert(grammar_matches(s@));
        assert(caps.as_caps() == caps_of(s@));
    }
    Some(caps)
}

/// The separator at position `i`, if the character there is one.
fn sep_at(s: &str, i: usize) -> (r: Option<Seperator>)
    requires
        i < s@.len(),
    ensures
        match r {
            Some(sep) => is_sep_char(s@[i as int]) && sep == sep_of_char(s@[i as int]),
            None => !is_sep_char(s@[i as int]),
        },
{
    let c = s.get_char(i);
    if c == '-' {
        Some(Seperator::Minus)
    } else if c == '+' {
        Some(Seperator::Plus)
    } else {
        None
    }
}

} // verus!
