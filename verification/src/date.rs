use vstd::prelude::*;

use chrono::Datelike;
use chrono::MappedLocalTime;
use chrono::TimeZone;
use chrono::Utc;

verus! {

/// The UTC calendar date `(year, month, day)` that a Unix timestamp falls
/// on, or `None` when the timestamp lies outside the representable range
/// of civil time.  The date is a function of the seconds alone.
pub uninterp spec fn utc_date_of(secs: i64) -> Option<(i32, u32, u32)>;

/// Relies on chrono's `TimeZone::timestamp_opt` on `Utc`: for UTC the
/// result depends on the seconds alone, is `Single` for every in-range
/// timestamp and `None` outside that range, and `Datelike::month` and
/// `Datelike::day` are documented to lie in `1..=12` and `1..=31`.
#[verifier::external_body]
pub(crate) fn utc_date_of_timestamp(secs: i64) -> (r: Option<(i32, u32, u32)>)
    ensures
        r == utc_date_of(secs),
        r matches Some(ymd) ==> 1 <= ymd.1 <= 12 && 1 <= ymd.2 <= 31,
{
    match Utc.timestamp_opt(secs, 0) {
        MappedLocalTime::Single(dt) => Some((dt.year(), dt.month(), dt.day())),
        _ => None,
    }
}

/// A leap year of the proleptic Gregorian calendar.
pub open spec fn spec_is_leap_year(y: int) -> bool {
    y % 4 == 0 && (y % 100 != 0 || y % 400 == 0)
}

pub fn is_leap_year(y: i32) -> (r: bool)
    ensures
        r == spec_is_leap_year(y as int),
{
    y % 4 == 0 && (y % 100 != 0 || y % 400 == 0)
}

/// Days of a non-leap year that precede month `m` (January is 1).
pub open spec fn spec_days_before_month(m: int) -> int {
    if m == 1 {
        0
    } else if m == 2 {
        31
    } else if m == 3 {
        59
    } else if m == 4 {
        90
    } else if m == 5 {
        120
    } else if m == 6 {
        151
    } else if m == 7 {
        181
    } else if m == 8 {
        212
    } else if m == 9 {
        243
    } else if m == 10 {
        273
    } else if m == 11 {
        304
    } else {
        334
    }
}

/// Zero-based count of days elapsed since January 1 of year `y` for the
/// calendar date `(y, m, d)`.  December 31 of a leap year is day 365.
pub open spec fn spec_day_of_year(y: int, m: int, d: int) -> int {
    spec_days_before_month(m) + (d - 1) + if m > 2 && spec_is_leap_year(y) {
        1int
    } else {
        0int
    }
}

pub fn day_of_year(y: i32, m: u32, d: u32) -> (r: u32)
    requires
        1 <= m <= 12,
        1 <= d <= 31,
    ensures
        r == spec_day_of_year(y as int, m as int, d as int),
        r <= 365,
{
    let before: u32 = if m == 1 {
        0
    } else if m == 2 {
        31
    } else if m == 3 {
        59
    } else if m == 4 {
        90
    } else if m == 5 {
        120
    } else if m == 6 {
        151
    } else if m == 7 {
        181
    } else if m == 8 {
        212
    } else if m == 9 {
        243
    } else if m == 10 {
        273
    } else if m == 11 {
        304
    } else {
        334
    };
    let leap_shift: u32 = if m > 2 && is_leap_year(y) {
        1
    } else {
        0
    };
    before + (d - 1) + leap_shift
}

} // verus!
