//! The one place the library touches the wall clock.

use vstd::prelude::*;
use chrono::Datelike;
use crate::calendar::Date;

verus! {

/// Relies on `std::time::SystemTime::now` / `duration_since` for the seconds
/// since the Unix epoch, and on `chrono::DateTime::from_timestamp` and the
/// `Datelike` accessors `year`, `month` and `day` to turn them into a
/// calendar date: a timestamp that chrono accepts carries a real proleptic
/// Gregorian date, with the month in `1..=12`, the day in `1..=` the length
/// of that month, and the year inside the documented representable range of
/// chrono's calendar dates, which this library's `MIN_YEAR` and `MAX_YEAR`
/// mirror. Unlike `chrono::Utc::now`, which panics on a clock set before the
/// epoch, this reads the clock without any panicking call and reports an
/// unusable clock as `None`.
#[verifier::external_body]
pub(crate) fn today() -> (r: Option<Date>)
    ensures
        r matches Some(d) ==> d.wf(),
{
    let secs = match std::time::SystemTime::now().duration_since(std::time::UNIX_EPOCH) {
        Ok(since) => since.as_secs() as i64,
        Err(_) => return None,
    };
    let now = chrono::DateTime::from_timestamp(secs, 0)?;
    Some(Date { year: now.year(), month: now.month(), day: now.day() })
}

} // verus!
