//! Century resolution: turning the two-digit year, the optional explicit
//! century and the optional separator into an unambiguous four-digit year and
//! a canonical separator, relative to an injected current date.

use vstd::prelude::*;
use vstd::arithmetic::div_mod::{lemma_fundamental_div_mod, lemma_mod_multiples_vanish};
use crate::calendar::{MAX_YEAR, MIN_YEAR};
use crate::grammar::{Caps, RawCaps};
use crate::types::Seperator;

verus! {

/// The year the two-digit year is measured against: the current year, pushed
/// back a century when the century is implicit and the separator is a plus.
pub open spec fn spec_base_year(c: Caps, now_year: int) -> int {
    if c.century is None && c.sep == Some(Seperator::Plus) {
        now_year - 100
    } else {
        now_year
    }
}

/// The resolved four-digit year. An explicit century is taken as given;
/// otherwise the resolved year is the latest year at or below the base year
/// that ends in the given two digits.
pub open spec fn spec_resolved_year(c: Caps, now_year: int) -> int {
    match c.century {
        Some(cc) => cc * 100 + c.year2,
        None => {
            let base = spec_base_year(c, now_year);
            base - ((base - c.year2) % 100)
        },
    }
}

/// The canonical separator. With an explicit century it is recomputed from
/// the resolved age bracket; otherwise the matched separator is echoed, a
/// missing one counting as minus.
pub open spec fn spec_resolved_sep(c: Caps, now_year: int) -> Seperator {
    match c.century {
        Some(cc) => if now_year - (cc * 100 + c.year2) >= 100 {
            Seperator::Plus
        } else {
            Seperator::Minus
        },
        None => if c.sep == Some(Seperator::Plus) {
            Seperator::Plus
        } else {
            Seperator::Minus
        },
    }
}

/// Century resolution is a function of the captured fields and the current
/// year alone, and its result is fully characterized: an explicit century is
/// taken as given, and an implicit one names the single year that ends in the
/// given two digits and lies at most ninety-nine years at-or-below the base
/// year. Equal inputs therefore always resolve equally, and moving the
/// current year across a century boundary moves the resolved year by exactly
/// one century step.
pub proof fn lemma_century_resolution(c: Caps, now_year: int)
    requires
        0 <= c.year2 <= 99,
    ensures
        c.century matches Some(cc) ==> spec_resolved_year(c, now_year) == cc * 100 + c.year2,
        c.century is None ==> {
            let base = spec_base_year(c, now_year);
            let f = spec_resolved_year(c, now_year);
            &&& f % 100 == c.year2
            &&& base - 99 <= f <= base
            &&& forall|g: int| #[trigger] (g % 100) == c.year2 && base - 99 <= g <= base ==> g == f
        },
{
    if c.century is None {
        let base = spec_base_year(c, now_year);
        let f = spec_resolved_year(c, now_year);
        let d = base - c.year2;
        lemma_fundamental_div_mod(d, 100);
        assert(f == c.year2 + 100 * (d / 100));
        lemma_mod_multiples_vanish(d / 100, c.year2, 100);
        assert(f % 100 == c.year2 % 100);
        assert forall|g: int| #[trigger] (g % 100) == c.year2 && base - 99 <= g <= base implies g == f by {
            lemma_fundamental_div_mod(g, 100);
            lemma_fundamental_div_mod(f, 100);
            let k = g / 100 - f / 100;
            assert(g - f == 100 * k);
            assert(-99 <= g - f <= 99);
            assert(100 * k >= -99 && 100 * k <= 99 ==> k == 0) by (nonlinear_arith);
        }
    }
}

/// Resolves the captured fields to a four-digit year and a separator.
pub fn resolve_century(caps: &RawCaps, now_year: i32) -> (r: (i64, Seperator))
    requires
        caps.wf(),
        MIN_YEAR <= now_year <= MAX_YEAR,
    ensures
        r.0 == spec_resolved_year(caps.as_caps(), now_year as int),
        r.1 == spec_resolved_sep(caps.as_caps(), now_year as int),
{
    match caps.century {
        Some(cc) => {
            let full: i64 = (cc as i64) * 100 + (caps.year2 as i64);
            let sep = if (now_year as i64) - full >= 100 {
                Seperator::Plus
            } else {
                Seperator::Minus
            };
            (full, sep)
        },
        None => {
            let plus = matches!(caps.sep, Some(Seperator::Plus));
            let base: i64 = if plus {
                now_year as i64 - 100
            } else {
                now_year as i64
            };
            let d: i64 = base - caps.year2 as i64;
            let shifted: u64 = (d + 1_000_000_000) as u64;
            let m: i64 = (shifted % 100) as i64;
            proof {
                lemma_mod_multiples_vanish(10_000_000, d as int, 100);
            }
            let sep = if plus {
                Seperator::Plus
            } else {
                Seperator::Minus
            };
            (base - m, sep)
        },
    }
}

} // verus!
