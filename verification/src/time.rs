//! Calendar and clock arithmetic.
//!
//! Instants are counted in whole seconds since 1970-01-01 00:00:00 UTC. The
//! calendar itself (which day of which month a day number falls on) comes from
//! `chrono`, as does the local time zone's offset; the arithmetic on top of it
//! (time of day, weekday, day numbers) is done and proved here.

use vstd::prelude::*;
use chrono::{Datelike, NaiveDate, TimeZone};

verus! {

/// Day number, counted from 0001-01-01 as day 1, of 1970-01-01.
pub const UNIX_EPOCH_DAY_CE: i64 = 719163;

/// Day number (0001-01-01 being day 1) of the first date `chrono` represents,
/// -262143-01-01.
pub const MIN_DAY_CE: i32 = -95746129;

/// Day number (0001-01-01 being day 1) of the last date `chrono` represents,
/// 262142-12-31.
pub const MAX_DAY_CE: i32 = 95745399;

/// The smallest year `chrono` can represent.
pub const MIN_YEAR: i32 = -262143;

/// The largest year `chrono` can represent.
pub const MAX_YEAR: i32 = 262142;

/// The calendar date `(year, month, day)` of a day number counted from
/// 0001-01-01 as day 1 in the proleptic Gregorian calendar, `None` outside
/// the range of dates `chrono` represents.
pub uninterp spec fn calendar_date(days_ce: i32) -> Option<(i32, u32, u32)>;

/// The day number (0001-01-01 being day 1) of a calendar date, `None` when
/// the date does not exist or lies outside the range `chrono` represents.
pub uninterp spec fn day_number(year: i32, month: u32, day: u32) -> Option<i32>;

/// Whether `year` is a leap year of the proleptic Gregorian calendar
/// (astronomical year numbering, so year 0 is one).
pub open spec fn is_leap_year(year: int) -> bool {
    year % 4 == 0 && (year % 100 != 0 || year % 400 == 0)
}

/// The number of days of a month: 31, 30 for April, June, September and
/// November, 28 or 29 for February; `None` for a month number outside 1..=12
/// or a year `chrono` does not represent.
pub open spec fn month_length(year: i32, month: u32) -> Option<u32> {
    if MIN_YEAR <= year <= MAX_YEAR && 1 <= month <= 12 {
        Some(
            if month == 2 {
                if is_leap_year(year as int) {
                    29u32
                } else {
                    28u32
                }
            } else if month == 4 || month == 6 || month == 9 || month == 11 {
                30u32
            } else {
                31u32
            },
        )
    } else {
        None
    }
}

/// The number of days of month `month` of `year` (see [`month_length`]),
/// as `chrono`'s `num_days_in_month` gives it for the 1st of that month.
pub(crate) fn days_in_month_of(year: i32, month: u32) -> (r: Option<u32>)
    ensures
        r == month_length(year, month),
        (MIN_YEAR <= year <= MAX_YEAR && 1 <= month <= 12) ==> r is Some,
        r matches Some(n) ==> 28 <= n <= 31,
{
    if year < MIN_YEAR || year > MAX_YEAR || month < 1 || month > 12 {
        return None;
    }
    if month == 2 {
        let leap = year % 4 == 0 && (year % 100 != 0 || year % 400 == 0);
        assert(leap == is_leap_year(year as int)) by {
            if year >= 0 {
            } else {
                assert(year % 4 == 0 <==> (year as int) % 4 == 0) by (nonlinear_arith);
                assert(year % 100 == 0 <==> (year as int) % 100 == 0) by (nonlinear_arith);
                assert(year % 400 == 0 <==> (year as int) % 400 == 0) by (nonlinear_arith);
            }
        }
        if leap {
            Some(29)
        } else {
            Some(28)
        }
    } else if month == 4 || month == 6 || month == 9 || month == 11 {
        Some(30)
    } else {
        Some(31)
    }
}

/// `NaiveDate::from_num_days_from_ce_opt` followed by `year`, `month` and `day`.
/// Trusted: the result is `calendar_date(days_ce)`; every day number from
/// `MIN_DAY_CE` to `MAX_DAY_CE` has a date, and a date has a year from
/// `MIN_YEAR` to `MAX_YEAR`, a month in 1..=12 and a day in 1..=31.
#[verifier::external_body]
pub(crate) fn date_of_day_number(days_ce: i32) -> (r: Option<(i32, u32, u32)>)
    ensures
        r == calendar_date(days_ce),
        MIN_DAY_CE <= days_ce <= MAX_DAY_CE ==> r is Some,
        r matches Some((y, m, d)) ==> MIN_YEAR <= y <= MAX_YEAR && 1 <= m <= 12 && 1 <= d <= 31,
{
    match NaiveDate::from_num_days_from_ce_opt(days_ce) {
        Some(date) => Some((date.year(), date.month(), date.day())),
        None => None,
    }
}

/// `NaiveDate::from_ymd_opt` followed by `num_days_from_ce`.
/// Trusted: the result is `day_number(year, month, day)`; every month of every
/// year in `MIN_YEAR..=MAX_YEAR` has the days 1 to 28, and every day up to the
/// month's length (as `num_days_in_month` gives it); every date lies from
/// `MIN_DAY_CE` to `MAX_DAY_CE`, and a date of a year before the last one at
/// least 365 days before the end for each year still to come (every year has
/// 365 days or more).
#[verifier::external_body]
pub(crate) fn day_number_of(year: i32, month: u32, day: u32) -> (r: Option<i32>)
    ensures
        r == day_number(year, month, day),
        (MIN_YEAR <= year <= MAX_YEAR && 1 <= month <= 12 && 1 <= day <= 28) ==> r is Some,
        (MIN_YEAR <= year <= MAX_YEAR && 1 <= month <= 12 && 1 <= day && month_length(year, month) is Some
            && day <= month_length(year, month)->0) ==> r is Some,
        r matches Some(n) ==> MIN_DAY_CE <= n <= MAX_DAY_CE && (year <= MAX_YEAR ==> n + 365 * (
            MAX_YEAR - year) <= MAX_DAY_CE),
{
    match NaiveDate::from_ymd_opt(year, month, day) {
        Some(date) => Some(date.num_days_from_ce()),
        None => None,
    }
}

/// Whether a local offset found for instant `ts` lies strictly between minus
/// one day and one day, with `ts` far enough from the ends of `i64`.
pub open spec fn offset_fits(off: Option<i32>, ts: i64) -> bool {
    match off {
        Some(o) => -86400 < o < 86400 && i64::MIN + 86400 <= ts <= i64::MAX - 86400,
        None => true,
    }
}

/// The local time zone's offset from UTC, in seconds, at the instant `ts`
/// (`chrono::Local`), or `None` when `ts` lies outside the range `chrono`
/// represents. Trusted: an offset lies strictly between minus one day and one
/// day, as every `chrono::FixedOffset` does, and an instant `chrono` represents
/// lies hundreds of thousands of years from the epoch at most. Which offset
/// comes back depends on the machine's time zone and is not stated; `chrono`
/// panics when the system's time zone data yields no offset, which no input
/// here can rule out.
#[verifier::external_body]
pub(crate) fn local_offset_at(ts: i64) -> (r: Option<i32>)
    ensures
        offset_fits(r, ts),
{
    match chrono::DateTime::from_timestamp(ts, 0) {
        Some(dt) => Some(chrono::Local.offset_from_utc_datetime(&dt.naive_utc()).local_minus_utc()),
        None => None,
    }
}

/// The instant at which the local time zone's clock shows second
/// `secs_of_day` of day number `days_ce` (0001-01-01 being day 1), in seconds
/// since the epoch: `NaiveDate::from_num_days_from_ce_opt`,
/// `NaiveTime::from_num_seconds_from_midnight_opt`, then
/// `chrono::Local.from_local_datetime(..).single()`. `None` when that local
/// time is skipped or repeated by the time zone, or out of range. Trusted: the
/// instant lies within a day of the same clock reading in UTC, as every
/// offset does; which instant it is depends on the machine's time zone and is
/// not stated.
#[verifier::external_body]
pub(crate) fn local_time_to_instant(days_ce: i32, secs_of_day: u32) -> (r: Option<i64>)
    ensures
        r matches Some(t) ==> -86400 < t - ((days_ce - UNIX_EPOCH_DAY_CE) * 86400 + secs_of_day) < 86400,
{
    match NaiveDate::from_num_days_from_ce_opt(days_ce) {
        Some(date) => match chrono::NaiveTime::from_num_seconds_from_midnight_opt(secs_of_day, 0) {
            Some(time) => match chrono::Local.from_local_datetime(&date.and_time(time)).single() {
                Some(dt) => Some(dt.timestamp()),
                None => None,
            },
            None => None,
        },
        None => None,
    }
}

/// The current instant (`chrono::Utc::now`), in seconds since the epoch.
/// Nothing is stated of its value.
#[verifier::external_body]
pub(crate) fn now_timestamp() -> (r: i64) {
    chrono::Utc::now().timestamp()
}

/// The current instant (`chrono::Utc::now`), in milliseconds since the
/// epoch (`timestamp_millis`). Nothing is stated of its value.
#[verifier::external_body]
pub(crate) fn now_millis() -> (r: i64) {
    chrono::Utc::now().timestamp_millis()
}

/// The day, counted from 1970-01-01 as day 0, that an instant falls on.
pub open spec fn day_index(secs: int) -> int {
    secs / 86400
}

/// The hour of the day of an instant.
pub open spec fn hour_of(secs: int) -> int {
    (secs % 86400) / 3600
}

/// The minute of the hour of an instant.
pub open spec fn minute_of(secs: int) -> int {
    (secs % 3600) / 60
}

/// The weekday of a day number counted from 0001-01-01 (a Monday) as day 1,
/// as days from Monday: 0 for Monday up to 6 for Sunday.
pub open spec fn weekday_of_day_ce(days_ce: int) -> int {
    (days_ce - 1) % 7
}

/// The broken-down local time of an instant.
#[derive(Debug, Clone, Copy, PartialEq, Eq)]
pub struct LocalParts {
    /// Seconds since the epoch, shifted by the local offset.
    pub local_secs: i64,
    /// Day number of the local date, 0001-01-01 being day 1.
    pub days_ce: i64,
    /// Hour of the day, 0 to 23.
    pub hour: u32,
    /// Minute of the hour, 0 to 59.
    pub minute: u32,
    /// Days from Monday, 0 to 6.
    pub weekday: u32,
}

/// What [`local_parts`] computes from an instant and the offset in force.
pub open spec fn spec_local_parts(ts: int, offset: int) -> LocalParts {
    let l = ts + offset;
    LocalParts {
        local_secs: l as i64,
        days_ce: (day_index(l) + 719163) as i64,
        hour: hour_of(l) as u32,
        minute: minute_of(l) as u32,
        weekday: weekday_of_day_ce(day_index(l) + 719163) as u32,
    }
}

/// The local time of instant `ts` when the local offset is `offset` seconds.
pub fn local_parts(ts: i64, offset: i32) -> (p: LocalParts)
    requires
        -86400 < offset < 86400,
        i64::MIN + 86400 <= ts <= i64::MAX - 86400,
    ensures
        p == spec_local_parts(ts as int, offset as int),
        p.hour < 24,
        p.minute < 60,
        p.weekday < 7,
{
    let l: i64 = ts + offset as i64;
    let day: i64 = euclid_div(l, 86400);
    let sod: i64 = euclid_rem(l, 86400);
    let soh: i64 = euclid_rem(l, 3600);
    let days_ce: i64 = day + UNIX_EPOCH_DAY_CE;
    let wd: i64 = euclid_rem(days_ce - 1, 7);
    LocalParts {
        local_secs: l,
        days_ce,
        hour: (sod / 3600) as u32,
        minute: (soh / 60) as u32,
        weekday: wd as u32,
    }
}

/// Floor division by a positive divisor.
pub fn euclid_div(x: i64, d: i64) -> (q: i64)
    requires
        d > 0,
    ensures
        q == x as int / d as int,
{
    proof {
        assert(i64::MIN <= x as int / d as int <= i64::MAX) by (nonlinear_arith)
            requires
                d >= 1,
                i64::MIN <= x <= i64::MAX,
        {
            if x >= 0 {
                assert(x as int / d as int <= x);
            } else {
                assert(x as int / d as int >= x);
            }
        }
    }
    match x.checked_div_euclid(d) {
        Some(q) => q,
        None => 0,
    }
}

/// The remainder of floor division by a positive divisor, in `0..d`.
pub fn euclid_rem(x: i64, d: i64) -> (r: i64)
    requires
        d > 0,
    ensures
        r == x as int % d as int,
        0 <= r < d,
{
    match x.checked_rem_euclid(d) {
        Some(r) => r,
        None => 0,
    }
}

/// The local day number (0001-01-01 being day 1) for the clock reading `now`
/// and the local offset found for it, UTC when none was found;
/// 1970-01-01 when `now` lies within a day of the ends of `i64` or the day
/// does not fit in an `i32`.
pub open spec fn spec_day_number_at(now: i64, off: Option<i32>) -> i32 {
    let o: int = match off {
        Some(o) => o as int,
        None => 0,
    };
    let d = day_index(now + o) + UNIX_EPOCH_DAY_CE;
    if now < i64::MIN + 86400 || now > i64::MAX - 86400 {
        UNIX_EPOCH_DAY_CE as i32
    } else if d < i32::MIN || d > i32::MAX {
        UNIX_EPOCH_DAY_CE as i32
    } else {
        d as i32
    }
}

/// Whether `d` is the local day for some clock reading and an offset the
/// local time zone may have at it: what [`today_day_number`] gives, whatever
/// the clock shows.
pub open spec fn is_clock_day(d: i32) -> bool {
    exists|now: i64, off: Option<i32>| offset_fits(off, now) && d == #[trigger] spec_day_number_at(now, off)
}

/// The local day number for the clock reading `now` and the local offset
/// `off` found for it (see [`spec_day_number_at`]).
pub fn day_number_at(now: i64, off: Option<i32>) -> (d: i32)
    requires
        off matches Some(o) ==> -86400 < o < 86400,
    ensures
        d == spec_day_number_at(now, off),
{
    let o: i32 = match off {
        Some(o) => o,
        None => 0,
    };
    if now < i64::MIN + 86400 || now > i64::MAX - 86400 {
        return UNIX_EPOCH_DAY_CE as i32;
    }
    let p = local_parts(now, o);
    if p.days_ce < i32::MIN as i64 || p.days_ce > i32::MAX as i64 {
        UNIX_EPOCH_DAY_CE as i32
    } else {
        p.days_ce as i32
    }
}

/// Today's day number (0001-01-01 being day 1) in the local time zone,
/// from the clock; the UTC date when the local offset is unknown.
pub fn today_day_number() -> (d: i32)
    ensures
        is_clock_day(d),
{
    let now = now_timestamp();
    let off = local_offset_at(now);
    let d = day_number_at(now, off);
    assert(offset_fits(off, now) && d == spec_day_number_at(now, off));
    d
}

} // verus!
