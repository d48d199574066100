//! Calendar time in UTC.

use vstd::prelude::*;
use chrono::Datelike;
use chrono::NaiveDateTime;
use chrono::Timelike;

verus! {

/// A date and a time of day in UTC.
#[derive(Clone, Copy, Debug, PartialEq, Eq, Structural)]
pub struct CivilTime {
    pub year: i32,
    pub month: u32,
    pub day: u32,
    pub hour: u32,
    pub minute: u32,
    pub second: u32,
}

/// The calendar date (year, month, day) on which the given second since
/// 1970-01-01 falls, as `chrono` reckons it.
pub uninterp spec fn utc_date(secs: i64) -> (int, int, int);

/// The time of day of a second since 1970-01-01.
pub open spec fn time_of_day(secs: i64) -> (int, int, int) {
    let s = secs as int;
    ((s % 86_400) / 3_600, (s % 3_600) / 60, s % 60)
}

/// `NaiveDateTime::from_timestamp_opt` with no nanoseconds, read back through
/// `Datelike` and `Timelike`.
///
/// Claimed of it and not proved: it succeeds on every second within two
/// million million of the epoch (its range is about 262,000 years either
/// way); the date is a function of the second alone, with the month from 1
/// to 12 and the day from 1 to 31; and the time of day is the second's
/// remainder within its day, split into hours, minutes and seconds.
#[verifier::external_body]
#[allow(deprecated)]
pub(crate) fn civil_from_unix(secs: i64) -> (r: Option<CivilTime>)
    ensures
        -2_000_000_000_000 <= secs <= 2_000_000_000_000 ==> r.is_some(),
        r matches Some(t) ==> {
            &&& (t.year as int, t.month as int, t.day as int) == utc_date(secs)
            &&& 1 <= t.month <= 12
            &&& 1 <= t.day <= 31
            &&& (t.hour as int, t.minute as int, t.second as int) == time_of_day(secs)
        },
{
    match NaiveDateTime::from_timestamp_opt(secs, 0) {
        Some(t) => Some(
            CivilTime {
                year: t.year(),
                month: t.month(),
                day: t.day(),
                hour: t.hour(),
                minute: t.minute(),
                second: t.second(),
            },
        ),
        None => None,
    }
}

/// What a second since 1970-01-01 is on the calendar.
pub open spec fn civil_of(secs: i64, t: CivilTime) -> bool {
    &&& (t.year as int, t.month as int, t.day as int) == utc_date(secs)
    &&& (t.hour as int, t.minute as int, t.second as int) == time_of_day(secs)
}

} // verus!
