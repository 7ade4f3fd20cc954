//! The quick time ranges of the statistics view and the instants they span.

use vstd::prelude::*;
use crate::time::{
    day_index, euclid_rem, local_offset_at, local_parts, local_time_to_instant, now_timestamp, weekday_of_day_ce,
    UNIX_EPOCH_DAY_CE,
};

verus! {

/// A time range to show statistics for.
#[derive(Debug, Clone, Copy, PartialEq, Eq, Structural)]
pub enum TimeRange {
    Today,
    Yesterday,
    Last7Days,
    Last30Days,
    /// From the first instant to the second (seconds since the epoch).
    Custom(i64, i64),
}

/// Whether two ranges are the same quick range (a custom range never is).
pub open spec fn spec_is_same_range(a: TimeRange, b: TimeRange) -> bool {
    match (a, b) {
        (TimeRange::Today, TimeRange::Today) => true,
        (TimeRange::Yesterday, TimeRange::Yesterday) => true,
        (TimeRange::Last7Days, TimeRange::Last7Days) => true,
        (TimeRange::Last30Days, TimeRange::Last30Days) => true,
        _ => false,
    }
}

/// Whether two ranges are the same quick range (a custom range never is).
pub fn is_same_range(a: &TimeRange, b: &TimeRange) -> (r: bool)
    ensures
        r == spec_is_same_range(*a, *b),
{
    match (a, b) {
        (TimeRange::Today, TimeRange::Today) => true,
        (TimeRange::Yesterday, TimeRange::Yesterday) => true,
        (TimeRange::Last7Days, TimeRange::Last7Days) => true,
        (TimeRange::Last30Days, TimeRange::Last30Days) => true,
        _ => false,
    }
}

/// The local midnights and end of day that the quick ranges start and end at.
#[derive(Debug, Clone, Copy, PartialEq, Eq, Structural)]
pub struct RangeStarts {
    /// Midnight today.
    pub today: i64,
    /// Midnight yesterday.
    pub yesterday: i64,
    /// 23:59:59 yesterday.
    pub yesterday_end: i64,
    /// Midnight seven days ago.
    pub week_ago: i64,
    /// Midnight thirty days ago.
    pub month_ago: i64,
}

/// The instants a range spans, from its start to its end: today, the last 7
/// or the last 30 days up to `now`; yesterday from midnight to 23:59:59.
pub open spec fn spec_bounds(range: TimeRange, now: i64, s: RangeStarts) -> (i64, i64) {
    match range {
        TimeRange::Today => (s.today, now),
        TimeRange::Yesterday => (s.yesterday, s.yesterday_end),
        TimeRange::Last7Days => (s.week_ago, now),
        TimeRange::Last30Days => (s.month_ago, now),
        TimeRange::Custom(a, b) => (a, b),
    }
}

/// The instants a range spans, given `now` and the local midnights.
pub fn bounds_from(range: &TimeRange, now: i64, starts: &RangeStarts) -> (r: (i64, i64))
    ensures
        r == spec_bounds(*range, now, *starts),
{
    match range {
        TimeRange::Today => (starts.today, now),
        TimeRange::Yesterday => (starts.yesterday, starts.yesterday_end),
        TimeRange::Last7Days => (starts.week_ago, now),
        TimeRange::Last30Days => (starts.month_ago, now),
        TimeRange::Custom(a, b) => (*a, *b),
    }
}

/// Whether `now` lies far enough from the ends of `i64` for the quick ranges
/// to be worked out (a month back and a day ahead).
pub open spec fn clock_in_range(now: i64) -> bool {
    i64::MIN + 86400 * 32 <= now <= i64::MAX - 86400
}

/// The local day number (0001-01-01 being day 1) of the instant `days` days
/// before `now` when the local offset there is `off` seconds.
pub open spec fn day_before_with(now: int, days: int, off: int) -> int {
    day_index(now - 86400 * days + off) + UNIX_EPOCH_DAY_CE
}

/// Whether `d` is the local day of the instant `days` days before `now` for
/// some offset a time zone may have there.
pub open spec fn is_day_before(now: i64, days: i64, d: i32) -> bool {
    exists|off: int| -86400 < off < 86400 && d == #[trigger] day_before_with(now as int, days as int, off)
}

/// Whether `t` is an instant at which some time zone's clock reads second
/// `secs_of_day` of the local day `days` days before `now`: within a day of
/// that reading in UTC, on a day the offset there gives.
pub open spec fn is_local_reading(now: i64, days: i64, secs_of_day: int, t: i64) -> bool {
    exists|off: int|
        -86400 < off < 86400 && -86400 < t - ((#[trigger] day_before_with(now as int, days as int, off)
            - UNIX_EPOCH_DAY_CE) * 86400 + secs_of_day) < 86400
}

/// The local day number (0001-01-01 being day 1) of the instant `days` days
/// before `now`, in the machine's time zone.
fn local_day_before(now: i64, days: i64) -> (d: Option<i32>)
    requires
        0 <= days <= 30,
    ensures
        !clock_in_range(now) ==> d is None,
        d matches Some(x) ==> is_day_before(now, days, x),
{
    if now < i64::MIN + 86400 * 32 || now > i64::MAX - 86400 {
        return None;
    }
    let t = now - 86400 * days;
    let off = local_offset_at(t);
    match off {
        None => None,
        Some(o) => {
            let p = local_parts(t, o);
            if p.days_ce < i32::MIN as i64 || p.days_ce > i32::MAX as i64 {
                None
            } else {
                assert(p.days_ce == day_before_with(now as int, days as int, o as int));
                Some(p.days_ce as i32)
            }
        },
    }
}

/// The local time `secs_of_day` on the local day `days` days before `now`.
fn local_instant(now: i64, days: i64, secs_of_day: u32) -> (r: Option<i64>)
    requires
        0 <= days <= 30,
        secs_of_day < 86400,
    ensures
        !clock_in_range(now) ==> r is None,
        r matches Some(t) ==> is_local_reading(now, days, secs_of_day as int, t),
{
    match local_day_before(now, days) {
        None => None,
        Some(d) => {
            let r = local_time_to_instant(d, secs_of_day);
            proof {
                if r is Some {
                    let off = choose|off: int|
                        -86400 < off < 86400 && d == #[trigger] day_before_with(now as int, days as int, off);
                    assert(-86400 < off < 86400 && -86400 < r->0 - ((day_before_with(now as int, days as int, off)
                        - UNIX_EPOCH_DAY_CE) * 86400 + secs_of_day) < 86400);
                }
            }
            r
        },
    }
}

/// Whether `s` holds local midnights and the end of yesterday for the clock
/// reading `now`, in some time zone: midnight today, midnight and 23:59:59
/// yesterday, midnight seven and thirty days ago.
pub open spec fn starts_near(now: i64, s: RangeStarts) -> bool {
    &&& is_local_reading(now, 0, 0, s.today)
    &&& is_local_reading(now, 1, 0, s.yesterday)
    &&& is_local_reading(now, 1, 86399, s.yesterday_end)
    &&& is_local_reading(now, 7, 0, s.week_ago)
    &&& is_local_reading(now, 30, 0, s.month_ago)
}

/// The local midnights the quick ranges start at, from `now`; `None` when
/// the time zone skips or repeats one of those clock readings, or `now` lies
/// within a month of the ends of `i64`.
pub fn range_starts_at(now: i64) -> (r: Option<RangeStarts>)
    ensures
        !clock_in_range(now) ==> r is None,
        r matches Some(s) ==> starts_near(now, s),
{
    let today = match local_instant(now, 0, 0) {
        Some(t) => t,
        None => return None,
    };
    let yesterday = match local_instant(now, 1, 0) {
        Some(t) => t,
        None => return None,
    };
    let yesterday_end = match local_instant(now, 1, 86399) {
        Some(t) => t,
        None => return None,
    };
    let week_ago = match local_instant(now, 7, 0) {
        Some(t) => t,
        None => return None,
    };
    let month_ago = match local_instant(now, 30, 0) {
        Some(t) => t,
        None => return None,
    };
    Some(RangeStarts { today, yesterday, yesterday_end, week_ago, month_ago })
}

/// The Monday of the week the day `today` (0001-01-01, a Monday, being day 1)
/// falls in.
pub open spec fn week_start_day(today: int) -> int {
    today - weekday_of_day_ce(today)
}

/// The week the local day `today` falls in, from its Monday's local midnight
/// to seven days later. `None` when the time zone skips or repeats that
/// midnight, or the Monday is no `i32`. Which instant the midnight is depends
/// on the time zone: it lies within a day of that midnight in UTC.
pub fn this_week_range(today: i32) -> (r: Option<(i64, i64)>)
    ensures
        today >= i32::MIN + 6 ==> (r matches Some((a, b)) ==> b == a + 7 * 86400 && -86400 < a - (week_start_day(
            today as int,
        ) - UNIX_EPOCH_DAY_CE) * 86400 < 86400),
        today < i32::MIN + 6 ==> r is None,
{
    if today < i32::MIN + 6 {
        return None;
    }
    let wd = euclid_rem(today as i64 - 1, 7);
    let monday = (today as i64 - wd) as i32;
    match local_time_to_instant(monday, 0) {
        Some(a) => Some((a, a + 7 * 86400)),
        None => None,
    }
}

/// The instants a range spans, by the clock and the machine's time zone: a
/// custom range is its own bounds; a quick range spans from the local
/// midnight it starts at (see [`starts_near`]) to the clock reading, yesterday
/// to its 23:59:59; `None` when the time zone skips or repeats one of those
/// local clock readings.
pub fn stats_time_range_bounds(range: &TimeRange) -> (r: Option<(i64, i64)>)
    ensures
        range matches TimeRange::Custom(a, b) ==> r == Some((*a, *b)),
        !(range is Custom) ==> (r is None || exists|now: i64, s: RangeStarts|
            starts_near(now, s) && r == Some(#[trigger] spec_bounds(*range, now, s))),
{
    match range {
        TimeRange::Custom(a, b) => Some((*a, *b)),
        _ => {
            let now = now_timestamp();
            match range_starts_at(now) {
                Some(s) => {
                    let r = bounds_from(range, now, &s);
                    assert(starts_near(now, s) && Some(r) == Some(spec_bounds(*range, now, s)));
                    Some(r)
                },
                None => None,
            }
        },
    }
}

} // verus!
