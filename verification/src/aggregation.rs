//! Usage totals per period, for the hierarchical time navigation: the months
//! of a year, the weeks of a month, the days of a week, the hours of a day.

use vstd::prelude::*;
use crate::chart_data::{usages_abs, weekday_label};
use crate::models::{AppUsage, PeriodUsage, TimeNavigationLevel, TimeNavigationState, WindowEvent};
use crate::text::{decimal, push_decimal, push_str, replace_char, replace_char_str, string_of};
use crate::time::{
    calendar_date, date_of_day_number, day_number, day_number_of, days_in_month_of, euclid_div,
    local_offset_at, month_length,
    local_parts, offset_fits, spec_local_parts, weekday_of_day_ce, MAX_DAY_CE, MAX_YEAR, MIN_DAY_CE,
    MIN_YEAR, UNIX_EPOCH_DAY_CE,
};

verus! {

/// What decides the period an event counts for.
#[derive(Debug, Clone, Copy, PartialEq, Eq, Structural)]
pub enum PeriodKey {
    /// The months of a year: events whose local date lies in the year, by month.
    Months { year: i32 },
    /// The weeks of a month: events whose local date lies in the month, by
    /// week of the month (weeks start on Monday; `first_weekday` is the
    /// weekday of the 1st, counted from Monday as 0).
    Weeks { year: i32, month: u32, first_weekday: u32 },
    /// Seven days from day number `week_start`: events whose UTC date lies in
    /// them, by day number.
    Days { week_start: i64 },
    /// The hours of a day: events whose local date is the day, by hour.
    Hours { year: i32, month: u32, day: u32 },
}

/// The local date `(year, month, day)` and hour of instant `ts` when the
/// local offset is `off`.
pub open spec fn local_date(ts: i64, off: Option<i32>) -> Option<(i32, u32, u32, int)> {
    match off {
        None => None,
        Some(o) => {
            let p = spec_local_parts(ts as int, o as int);
            if i32::MIN <= p.days_ce <= i32::MAX {
                match calendar_date(p.days_ce as i32) {
                    Some((y, m, d)) => Some((y, m, d, p.hour as int)),
                    None => None,
                }
            } else {
                None
            }
        },
    }
}

/// The week of the month of day `d`, weeks starting on Monday, when the 1st is
/// `first_weekday` days after a Monday.
pub open spec fn week_of_month(d: int, first_weekday: int) -> int {
    (d + first_weekday - 1) / 7 + 1
}

/// The day number (0001-01-01 being day 1) of the UTC date of instant `ts`.
pub open spec fn utc_day_number(ts: i64) -> int {
    ts as int / 86400 + 719163
}

/// The period an event counts for, if any. Time away from the keyboard
/// counts for none, as in the statistics table and the bar chart.
pub open spec fn period_of(k: PeriodKey, e: WindowEvent, off: Option<i32>) -> Option<int> {
    if e.is_afk {
        None
    } else {
        period_of_present(k, e, off)
    }
}

/// The period an event not spent away counts for, if any.
pub open spec fn period_of_present(k: PeriodKey, e: WindowEvent, off: Option<i32>) -> Option<int> {
    match k {
        PeriodKey::Months { year } => match local_date(e.timestamp, off) {
            Some((y, m, d, h)) => if y == year {
                Some(m as int)
            } else {
                None
            },
            None => None,
        },
        PeriodKey::Weeks { year, month, first_weekday } => match local_date(e.timestamp, off) {
            Some((y, m, d, h)) => if y == year && m == month {
                Some(week_of_month(d as int, first_weekday as int))
            } else {
                None
            },
            None => None,
        },
        PeriodKey::Days { week_start } => {
            let dn = utc_day_number(e.timestamp);
            if week_start <= dn < week_start + 7 {
                Some(dn)
            } else {
                None
            }
        },
        PeriodKey::Hours { year, month, day } => match local_date(e.timestamp, off) {
            Some((y, m, d, h)) => if y == year && m == month && d == day {
                Some(h)
            } else {
                None
            },
            None => None,
        },
    }
}

/// The `(period, seconds)` entries of the first `j` events of `u`.
pub open spec fn usage_periods(k: PeriodKey, u: AppUsage, offs: Seq<Option<i32>>, j: int) -> Seq<(int, int)>
    decreases j,
{
    if j <= 0 {
        Seq::empty()
    } else {
        let prev = usage_periods(k, u, offs, j - 1);
        match period_of(k, u.window_events@[j - 1], offs[j - 1]) {
            Some(p) => prev.push((p, u.window_events@[j - 1].duration_secs as int)),
            None => prev,
        }
    }
}

/// The `(period, seconds)` entries of all events of the first `i` applications.
pub open spec fn all_periods(k: PeriodKey, us: Seq<AppUsage>, offs: Seq<Vec<Option<i32>>>, i: int) -> Seq<
    (int, int),
>
    decreases i,
{
    if i <= 0 {
        Seq::empty()
    } else {
        all_periods(k, us, offs, i - 1) + usage_periods(
            k,
            us[i - 1],
            offs[i - 1]@,
            us[i - 1].window_events@.len() as int,
        )
    }
}

/// The seconds the entries give period `p`.
pub open spec fn period_total(es: Seq<(int, int)>, p: int) -> int
    decreases es.len(),
{
    if es.len() == 0 {
        0
    } else {
        period_total(es.drop_last(), p) + if es.last().0 == p {
            es.last().1
        } else {
            0
        }
    }
}

/// The sum of the absolute seconds of the entries.
pub open spec fn periods_abs(es: Seq<(int, int)>) -> int
    decreases es.len(),
{
    if es.len() == 0 {
        0
    } else {
        periods_abs(es.drop_last()) + if es.last().1 < 0 {
            -es.last().1
        } else {
            es.last().1
        }
    }
}

proof fn lemma_period_total_bound(es: Seq<(int, int)>, p: int)
    ensures
        -periods_abs(es) <= period_total(es, p) <= periods_abs(es),
    decreases es.len(),
{
    if es.len() > 0 {
        lemma_period_total_bound(es.drop_last(), p);
    }
}

proof fn lemma_periods_abs_take(es: Seq<(int, int)>, k: int)
    requires
        0 <= k <= es.len(),
    ensures
        periods_abs(es.take(k)) <= periods_abs(es),
        0 <= periods_abs(es.take(k)),
    decreases es.len(),
{
    if k < es.len() {
        assert(es.drop_last().take(k) =~= es.take(k));
        lemma_periods_abs_take(es.drop_last(), k);
    } else {
        assert(es.take(k) =~= es);
        if es.len() > 0 {
            lemma_periods_abs_take(es.drop_last(), 0);
            lemma_period_total_bound(es, 0);
        }
    }
}

proof fn lemma_periods_abs_concat(a: Seq<(int, int)>, b: Seq<(int, int)>)
    ensures
        periods_abs(a + b) == periods_abs(a) + periods_abs(b),
    decreases b.len(),
{
    if b.len() > 0 {
        assert((a + b).drop_last() =~= a + b.drop_last());
        lemma_periods_abs_concat(a, b.drop_last());
    } else {
        assert(a + b =~= a);
    }
}

proof fn lemma_usage_periods_abs(k: PeriodKey, u: AppUsage, offs: Seq<Option<i32>>, j: int)
    requires
        0 <= j <= u.window_events@.len(),
    ensures
        periods_abs(usage_periods(k, u, offs, j)) <= crate::chart_data::events_abs(u.window_events@, j),
    decreases j,
{
    if j > 0 {
        lemma_usage_periods_abs(k, u, offs, j - 1);
        let prev = usage_periods(k, u, offs, j - 1);
        match period_of(k, u.window_events@[j - 1], offs[j - 1]) {
            Some(p) => {
                assert(prev.push((p, u.window_events@[j - 1].duration_secs as int)).drop_last() =~= prev);
            },
            None => {},
        }
    }
}

proof fn lemma_all_periods_abs(k: PeriodKey, us: Seq<AppUsage>, offs: Seq<Vec<Option<i32>>>, i: int)
    requires
        0 <= i <= us.len(),
    ensures
        periods_abs(all_periods(k, us, offs, i)) <= usages_abs(us, i),
    decreases i,
{
    if i > 0 {
        lemma_all_periods_abs(k, us, offs, i - 1);
        let m = us[i - 1].window_events@.len() as int;
        lemma_periods_abs_concat(all_periods(k, us, offs, i - 1), usage_periods(k, us[i - 1], offs[i - 1]@, m));
        lemma_usage_periods_abs(k, us[i - 1], offs[i - 1]@, m);
    }
}

/// Whether period `p` is one that key `k` gives: a month 1 to 12, an hour 0
/// to 23, a day of the week from its start.
pub open spec fn in_key_range(k: PeriodKey, p: int) -> bool {
    match k {
        PeriodKey::Months { .. } => 1 <= p <= 12,
        PeriodKey::Hours { .. } => 0 <= p < 24,
        PeriodKey::Days { week_start } => week_start <= p < week_start + 7,
        PeriodKey::Weeks { .. } => true,
    }
}

/// Whether every entry's period is one that key `k` gives.
pub open spec fn keys_in_range(k: PeriodKey, es: Seq<(int, int)>) -> bool {
    forall|i: int| 0 <= i < es.len() ==> in_key_range(k, #[trigger] es[i].0)
}

/// The seconds of all entries.
pub open spec fn periods_sum(es: Seq<(int, int)>) -> int
    decreases es.len(),
{
    if es.len() == 0 {
        0
    } else {
        periods_sum(es.drop_last()) + es.last().1
    }
}

/// The seconds the entries give periods `lo` to `lo + n - 1` together.
pub open spec fn periods_upto(es: Seq<(int, int)>, lo: int, n: int) -> int
    decreases n,
{
    if n <= 0 {
        0
    } else {
        periods_upto(es, lo, n - 1) + period_total(es, lo + n - 1)
    }
}

proof fn lemma_periods_step(es: Seq<(int, int)>, lo: int, n: int)
    requires
        es.len() > 0,
        n >= 0,
    ensures
        periods_upto(es, lo, n) == periods_upto(es.drop_last(), lo, n) + if lo <= es.last().0 < lo + n {
            es.last().1
        } else {
            0
        },
    decreases n,
{
    if n > 0 {
        lemma_periods_step(es, lo, n - 1);
    }
}

proof fn lemma_periods_zero(es: Seq<(int, int)>, lo: int, n: int)
    requires
        es.len() == 0,
    ensures
        periods_upto(es, lo, n) == 0,
    decreases n,
{
    if n > 0 {
        lemma_periods_zero(es, lo, n - 1);
    }
}

/// Every entry counts for exactly one period: when all entries' periods lie
/// from `lo` to `lo + n - 1`, those periods together hold all their seconds.
pub proof fn lemma_periods_partition(es: Seq<(int, int)>, lo: int, n: int)
    requires
        n >= 0,
        forall|i: int| 0 <= i < es.len() ==> lo <= #[trigger] es[i].0 < lo + n,
    ensures
        periods_upto(es, lo, n) == periods_sum(es),
    decreases es.len(),
{
    if es.len() > 0 {
        assert forall|i: int| 0 <= i < es.drop_last().len() implies lo <= #[trigger] es.drop_last()[i].0 < lo + n by {
            assert(es.drop_last()[i] == es[i]);
        }
        lemma_periods_partition(es.drop_last(), lo, n);
        lemma_periods_step(es, lo, n);
        assert(es.last() == es[es.len() - 1]);
    } else {
        lemma_periods_zero(es, lo, n);
    }
}

/// The sum of the totals of the first `n` periods of a result.
pub open spec fn result_total(r: Seq<PeriodUsage>, n: int) -> int
    decreases n,
{
    if n <= 0 {
        0
    } else {
        result_total(r, n - 1) + r[n - 1].total_seconds
    }
}

proof fn lemma_result_total(r: Seq<PeriodUsage>, es: Seq<(int, int)>, lo: int, n: int)
    requires
        0 <= n <= r.len(),
        forall|i: int| 0 <= i < r.len() ==> (#[trigger] r[i]).total_seconds == period_total(es, lo + i),
    ensures
        result_total(r, n) == periods_upto(es, lo, n),
    decreases n,
{
    if n > 0 {
        lemma_result_total(r, es, lo, n - 1);
        assert(r[n - 1].total_seconds == period_total(es, lo + n - 1));
    }
}

/// At the hour level an event counts for hour `h` only when it was not
/// spent away and its local date is exactly the selected day, at hour `h`;
/// every such event counts for its hour, and an event of any other day for
/// none.
pub proof fn lemma_hour_period_is_the_selected_day(year: i32, month: u32, day: u32, e: WindowEvent, off: Option<i32>)
    ensures
        period_of(PeriodKey::Hours { year, month, day }, e, off) matches Some(h) ==> (!e.is_afk && local_date(
            e.timestamp,
            off,
        ) == Some((year, month, day, h))),
        forall|y: i32, m: u32, d: u32, h: int|
            local_date(e.timestamp, off) == Some((y, m, d, h)) && !(y == year && m == month && d == day)
                ==> #[trigger] period_of(PeriodKey::Hours { year, month, day }, e, off) is None,
        forall|h: int|
            !e.is_afk && local_date(e.timestamp, off) == Some((year, month, day, h)) ==> #[trigger] period_of(
                PeriodKey::Hours { year, month, day },
                e,
                off,
            ) == Some(h),
{
}

/// At the week level weeks start on Monday: an event not spent away on local
/// day `d` of the selected month counts for week `w` exactly when
/// `d + first_weekday` (the day counted from the Monday before the 1st) lies
/// in `7(w - 1) + 1 ..= 7w`, the 1st being `first_weekday` days after a
/// Monday; events of other months count for no week.
pub proof fn lemma_week_period_starts_on_monday(year: i32, month: u32, first_weekday: u32, e: WindowEvent, off: Option<i32>)
    ensures
        period_of(PeriodKey::Weeks { year, month, first_weekday }, e, off) matches Some(w) ==> (!e.is_afk
            && (local_date(e.timestamp, off) matches Some((y, m, d, h)) && y == year && m == month && 7 * (w
            - 1) < d + first_weekday <= 7 * w)),
        forall|y: i32, m: u32, d: u32, h: int|
            !e.is_afk && local_date(e.timestamp, off) == Some((y, m, d, h)) && y == year && m == month ==> (
            #[trigger] period_of(PeriodKey::Weeks { year, month, first_weekday }, e, off) matches Some(w) && 7 * (w
                - 1) < d + first_weekday <= 7 * w),
{
}

/// The day level shows, for week `w` of a month whose 1st (day number
/// `first`) lies `fw` days after a Monday, the days from the first day the
/// week level counts in week `w`: that day is in week `w`, the day before it
/// (for a week after the first) in week `w - 1`, and from the second week on
/// it is a Monday.
pub proof fn lemma_day_level_starts_week(first: int, fw: int, w: int)
    requires
        0 <= fw < 7,
        w >= 1,
    ensures
        ({
            let d = week_start(first, fw, w) - first + 1;
            &&& d >= 1
            &&& week_of_month(d, fw) == w
            &&& w > 1 ==> week_of_month(d - 1, fw) == w - 1
            &&& w > 1 ==> (d + fw - 1) % 7 == 0
        }),
{
}

/// At the month level an event not spent away counts for month `m` exactly
/// when its local date lies in month `m` of the selected year.
pub proof fn lemma_month_period_is_the_local_month(year: i32, e: WindowEvent, off: Option<i32>)
    ensures
        period_of(PeriodKey::Months { year }, e, off) matches Some(p) ==> (!e.is_afk && (local_date(
            e.timestamp,
            off,
        ) matches Some((y, m, d, h)) && y == year && p == m)),
        forall|y: i32, m: u32, d: u32, h: int|
            !e.is_afk && local_date(e.timestamp, off) == Some((y, m, d, h)) && y == year ==> #[trigger] period_of(
                PeriodKey::Months { year },
                e,
                off,
            ) == Some(m as int),
{
}

/// At the day level an event not spent away counts for the day number of its
/// UTC date, when that day is one of the seven from `week_start`, and for no
/// day otherwise.
pub proof fn lemma_day_period_is_the_utc_day(week_start: i64, e: WindowEvent, off: Option<i32>)
    ensures
        period_of(PeriodKey::Days { week_start }, e, off) matches Some(p) ==> (!e.is_afk && p == e.timestamp
            as int / 86400 + 719163 && week_start <= p < week_start + 7),
        !e.is_afk && week_start <= e.timestamp as int / 86400 + 719163 < week_start + 7 ==> period_of(
            PeriodKey::Days { week_start },
            e,
            off,
        ) is Some,
{
}

/// Aggregating by month, day or hour conserves time: the periods' totals add
/// up to the seconds of every event that counts at all (an event of the
/// selected year, week or day not spent away from the keyboard).
pub proof fn lemma_aggregation_conserves_time(
    r: Seq<PeriodUsage>,
    k: PeriodKey,
    es: Seq<(int, int)>,
)
    requires
        keys_in_range(k, es),
        match k {
            PeriodKey::Months { .. } => months_result(r, es),
            PeriodKey::Hours { .. } => hours_result(r, es),
            PeriodKey::Days { week_start } => days_result(r, es, week_start as int),
            PeriodKey::Weeks { .. } => false,
        },
    ensures
        result_total(r, r.len() as int) == periods_sum(es),
{
    match k {
        PeriodKey::Months { .. } => {
            assert forall|i: int| 0 <= i < es.len() implies 1 <= #[trigger] es[i].0 < 1 + 12 by {
                assert(in_key_range(k, es[i].0));
            }
            lemma_periods_partition(es, 1, 12);
            assert forall|i: int| 0 <= i < r.len() implies (#[trigger] r[i]).total_seconds == period_total(
                es,
                1 + i,
            ) by {}
            lemma_result_total(r, es, 1, 12);
        },
        PeriodKey::Hours { .. } => {
            assert forall|i: int| 0 <= i < es.len() implies 0 <= #[trigger] es[i].0 < 0 + 24 by {
                assert(in_key_range(k, es[i].0));
            }
            lemma_periods_partition(es, 0, 24);
            assert forall|i: int| 0 <= i < r.len() implies (#[trigger] r[i]).total_seconds == period_total(
                es,
                0 + i,
            ) by {}
            lemma_result_total(r, es, 0, 24);
        },
        PeriodKey::Days { week_start } => {
            let ws = week_start as int;
            assert forall|i: int| 0 <= i < es.len() implies ws <= #[trigger] es[i].0 < ws + 7 by {
                assert(in_key_range(k, es[i].0));
            }
            lemma_periods_partition(es, ws, 7);
            assert forall|i: int| 0 <= i < r.len() implies (#[trigger] r[i]).total_seconds == period_total(
                es,
                ws + i,
            ) by {}
            lemma_result_total(r, es, ws, 7);
        },
        PeriodKey::Weeks { .. } => {},
    }
}

/// The entries, as the mathematical values they stand for.
pub open spec fn periods_view(v: Seq<(i64, i64)>) -> Seq<(int, int)> {
    v.map_values(|e: (i64, i64)| (e.0 as int, e.1 as int))
}

/// The local date and hour of an instant, given the local offset.
fn local_date_of(ts: i64, off: Option<i32>) -> (r: Option<(i32, u32, u32, u32)>)
    requires
        offset_fits(off, ts),
    ensures
        match r {
            Some((y, m, d, h)) => local_date(ts, off) == Some((y, m, d, h as int)) && 1 <= m <= 12 && 1
                <= d <= 31 && h < 24,
            None => local_date(ts, off) is None,
        },
{
    match off {
        None => None,
        Some(o) => {
            let p = local_parts(ts, o);
            if p.days_ce < i32::MIN as i64 || p.days_ce > i32::MAX as i64 {
                return None;
            }
            match date_of_day_number(p.days_ce as i32) {
                Some((y, m, d)) => Some((y, m, d, p.hour)),
                None => None,
            }
        },
    }
}

fn period_of_event(k: PeriodKey, e: &WindowEvent, off: Option<i32>) -> (r: Option<i64>)
    requires
        offset_fits(off, e.timestamp),
        k matches PeriodKey::Days { week_start } ==> MIN_DAY_CE <= week_start <= MAX_DAY_CE,
    ensures
        match r {
            Some(p) => period_of(k, *e, off) == Some(p as int) && in_key_range(k, p as int),
            None => period_of(k, *e, off) is None,
        },
{
    if e.is_afk {
        return None;
    }
    match k {
        PeriodKey::Months { year } => match local_date_of(e.timestamp, off) {
            Some((y, m, _d, _h)) => if y == year {
                Some(m as i64)
            } else {
                None
            },
            None => None,
        },
        PeriodKey::Weeks { year, month, first_weekday } => match local_date_of(e.timestamp, off) {
            Some((y, m, d, _h)) => if y == year && m == month {
                Some(((d as i64 + first_weekday as i64 - 1) / 7 + 1) as i64)
            } else {
                None
            },
            None => None,
        },
        PeriodKey::Days { week_start } => {
            let dn = euclid_div(e.timestamp, 86400) + UNIX_EPOCH_DAY_CE;
            if week_start <= dn && dn < week_start + 7 {
                Some(dn)
            } else {
                None
            }
        },
        PeriodKey::Hours { year, month, day } => match local_date_of(e.timestamp, off) {
            Some((y, m, d, h)) => if y == year && m == month && d == day {
                Some(h as i64)
            } else {
                None
            },
            None => None,
        },
    }
}

/// Whether `offs` holds a local offset for each event of each application,
/// each in the range `chrono` gives.
pub open spec fn offsets_match(us: Seq<AppUsage>, offs: Seq<Vec<Option<i32>>>) -> bool {
    crate::chart_data::offsets_for(us, offs)
}

/// Aggregates usage by period.
pub struct DataAggregator<'a> {
    app_usage: &'a [AppUsage],
}

/// The navigation state's month, 1 when none is selected.
pub open spec fn month_of(s: TimeNavigationState) -> u32 {
    match s.selected_month {
        Some(m) => m,
        None => 1,
    }
}

/// The navigation state's week, 1 when none is selected.
pub open spec fn week_of(s: TimeNavigationState) -> u32 {
    match s.selected_week {
        Some(w) => w,
        None => 1,
    }
}

/// The navigation state's day, 1 when none is selected.
pub open spec fn day_of(s: TimeNavigationState) -> u32 {
    match s.selected_day {
        Some(d) => d,
        None => 1,
    }
}

/// Whether aggregating for `s` stays within the dates `chrono` represents:
/// the weeks of a month need the month and the next one; the days of week
/// `w` (from 1) of a month need the seven days from its start, which a year's
/// distance to the last representable year covers when `7 * w` days fit in it.
pub open spec fn state_in_range(s: TimeNavigationState) -> bool {
    match s.level {
        TimeNavigationLevel::Week => 1 <= month_of(s) <= 12 && MIN_YEAR <= s.selected_year && (if month_of(s)
            == 12 {
            s.selected_year < MAX_YEAR
        } else {
            s.selected_year <= MAX_YEAR
        }),
        TimeNavigationLevel::Day => 1 <= month_of(s) <= 12 && MIN_YEAR <= s.selected_year && 1 <= week_of(s)
            && 7 * week_of(s) <= 365 * (MAX_YEAR - s.selected_year),
        _ => true,
    }
}

/// Whether `r` is the usage of the months of a year.
pub open spec fn months_result(r: Seq<PeriodUsage>, es: Seq<(int, int)>) -> bool {
    &&& r.len() == 12
    &&& forall|i: int|
        0 <= i < 12 ==> {
            &&& (#[trigger] r[i]).label@ == decimal((i + 1) as nat) + "月"@
            &&& r[i].index == i + 1
            &&& r[i].total_seconds == period_total(es, i + 1)
        }
}

/// Whether `r` is the usage of weeks 1 to `weeks` of a month.
pub open spec fn weeks_result(r: Seq<PeriodUsage>, es: Seq<(int, int)>, weeks: int) -> bool {
    &&& r.len() == weeks
    &&& forall|i: int|
        0 <= i < weeks ==> {
            &&& (#[trigger] r[i]).label@ == "第"@ + decimal((i + 1) as nat) + "周"@
            &&& r[i].index == i + 1
            &&& r[i].total_seconds == period_total(es, i + 1)
        }
}

/// Whether `r` is the usage of the seven days from day number `ws`.
pub open spec fn days_result(r: Seq<PeriodUsage>, es: Seq<(int, int)>, ws: int) -> bool {
    &&& r.len() == 7
    &&& forall|i: int|
        0 <= i < 7 ==> {
            &&& (#[trigger] r[i]).label@ == weekday_label(weekday_of_day_ce(ws + i))
            &&& calendar_date((ws + i) as i32) matches Some((y, m, d)) && r[i].index == d
            &&& r[i].total_seconds == period_total(es, ws + i)
        }
}

/// Whether `r` is the usage of the 24 hours of a day.
pub open spec fn hours_result(r: Seq<PeriodUsage>, es: Seq<(int, int)>) -> bool {
    &&& r.len() == 24
    &&& forall|i: int|
        0 <= i < 24 ==> {
            &&& (#[trigger] r[i]).label@ == decimal(i as nat) + "时"@
            &&& r[i].index == i
            &&& r[i].total_seconds == period_total(es, i)
        }
}

/// The first day of the week `week` (from 1) of a month whose 1st is day
/// number `first` and falls `fw` days after a Monday: the Monday starting the
/// week, or the 1st for the first week.
pub open spec fn week_start(first: int, fw: int, week: int) -> int {
    let start_day = (week - 1) * 7 - fw + 1;
    if start_day < 1 {
        first
    } else {
        first + start_day - 1
    }
}

/// The weekday of the 1st of a month, as days from Monday.
pub open spec fn first_weekday(year: i32, month: u32) -> int {
    weekday_of_day_ce(day_number(year, month, 1)->0 as int)
}

/// The key by which state `s` groups events (for a year, nothing is grouped).
pub open spec fn period_key_of(s: TimeNavigationState) -> PeriodKey {
    let y = s.selected_year;
    let m = month_of(s);
    match s.level {
        TimeNavigationLevel::Week => PeriodKey::Weeks { year: y, month: m, first_weekday: first_weekday(y, m) as u32 },
        TimeNavigationLevel::Day => PeriodKey::Days {
            week_start: week_start(day_number(y, m, 1)->0 as int, first_weekday(y, m), week_of(s) as int) as i64,
        },
        TimeNavigationLevel::Hour => PeriodKey::Hours { year: y, month: m, day: day_of(s) },
        _ => PeriodKey::Months { year: y },
    }
}

/// What [`DataAggregator::aggregate_with_offsets`] returns for state `s`.
pub open spec fn aggregation_of(
    r: Seq<PeriodUsage>,
    s: TimeNavigationState,
    us: Seq<AppUsage>,
    offs: Seq<Vec<Option<i32>>>,
) -> bool {
    let y = s.selected_year;
    let m = month_of(s);
    match s.level {
        TimeNavigationLevel::Year => r.len() == 0,
        TimeNavigationLevel::Month => months_result(
            r,
            all_periods(PeriodKey::Months { year: y }, us, offs, us.len() as int),
        ),
        TimeNavigationLevel::Week => {
            let fw = first_weekday(y, m);
            weeks_result(
                r,
                all_periods(
                    PeriodKey::Weeks { year: y, month: m, first_weekday: fw as u32 },
                    us,
                    offs,
                    us.len() as int,
                ),
                week_of_month(month_length(y, m)->0 as int, fw),
            )
        },
        TimeNavigationLevel::Day => {
            let ws = week_start(day_number(y, m, 1)->0 as int, first_weekday(y, m), week_of(s) as int);
            days_result(
                r,
                all_periods(PeriodKey::Days { week_start: ws as i64 }, us, offs, us.len() as int),
                ws,
            )
        },
        TimeNavigationLevel::Hour => hours_result(
            r,
            all_periods(
                PeriodKey::Hours { year: y, month: m, day: day_of(s) },
                us,
                offs,
                us.len() as int,
            ),
        ),
    }
}

/// The usage total of period `p`.
fn total_for(v: &Vec<(i64, i64)>, p: i64) -> (t: i64)
    requires
        periods_abs(periods_view(v@)) <= i64::MAX,
    ensures
        t == period_total(periods_view(v@), p as int),
{
    let ghost es = periods_view(v@);
    let mut t: i64 = 0;
    let mut k: usize = 0;
    while k < v.len()
        invariant
            es == periods_view(v@),
            k <= v@.len(),
            periods_abs(es) <= i64::MAX,
            t == period_total(es.take(k as int), p as int),
        decreases v@.len() - k,
    {
        proof {
            assert(es.take(k + 1).drop_last() =~= es.take(k as int));
            lemma_periods_abs_take(es, k + 1);
            lemma_period_total_bound(es.take(k + 1), p as int);
        }
        if v[k].0 == p {
            t = t + v[k].1;
        }
        k = k + 1;
    }
    proof {
        assert(es.take(v@.len() as int) =~= es);
    }
    t
}

/// A label: `prefix`, the number, `suffix`.
fn numbered_label(prefix: &str, n: u64, suffix: &str) -> (s: String)
    ensures
        s@ == prefix@ + decimal(n as nat) + suffix@,
{
    let mut s = String::new();
    push_str(&mut s, prefix);
    push_decimal(&mut s, n);
    push_str(&mut s, suffix);
    assert(Seq::<char>::empty() + prefix@ + decimal(n as nat) + suffix@ =~= prefix@ + decimal(n as nat)
        + suffix@);
    s
}

impl<'a> DataAggregator<'a> {
    /// The usage being aggregated.
    pub closed spec fn usage(&self) -> Seq<AppUsage> {
        self.app_usage@
    }

    /// An aggregator of `app_usage`.
    pub fn new(app_usage: &'a [AppUsage]) -> (a: Self)
        ensures
            a.usage() == app_usage@,
    {
        DataAggregator { app_usage }
    }

    /// The `(period, seconds)` entries of all events.
    fn collect(&self, k: PeriodKey, offs: &Vec<Vec<Option<i32>>>) -> (v: Vec<(i64, i64)>)
        requires
            offsets_match(self.usage(), offs@),
            k matches PeriodKey::Days { week_start } ==> MIN_DAY_CE <= week_start <= MAX_DAY_CE,
        ensures
            periods_view(v@) == all_periods(k, self.usage(), offs@, self.usage().len() as int),
            keys_in_range(k, periods_view(v@)),
    {
        let ghost us = self.app_usage@;
        let mut v: Vec<(i64, i64)> = Vec::new();
        let n = self.app_usage.len();
        let mut i: usize = 0;
        while i < n
            invariant
                n == us.len(),
                us == self.app_usage@,
                offsets_match(us, offs@),
                k matches PeriodKey::Days { week_start } ==> MIN_DAY_CE <= week_start <= MAX_DAY_CE,
                i <= n,
                periods_view(v@) == all_periods(k, us, offs@, i as int),
                keys_in_range(k, periods_view(v@)),
            decreases n - i,
        {
            let u = &self.app_usage[i];
            let m = u.window_events.len();
            let ghost before = periods_view(v@);
            let mut j: usize = 0;
            while j < m
                invariant
                    n == us.len(),
                    i < n,
                    *u == us[i as int],
                    m == u.window_events@.len(),
                    offsets_match(us, offs@),
                    k matches PeriodKey::Days { week_start } ==> MIN_DAY_CE <= week_start <= MAX_DAY_CE,
                    j <= m,
                    periods_view(v@) == before + usage_periods(k, *u, offs@[i as int]@, j as int),
                    keys_in_range(k, periods_view(v@)),
                decreases m - j,
            {
                let e = &u.window_events[j];
                let ghost prev = usage_periods(k, *u, offs@[i as int]@, j as int);
                match period_of_event(k, e, offs[i][j]) {
                    Some(p) => {
                        let ghost v0 = v@;
                        v.push((p, e.duration_secs));
                        proof {
                            assert(periods_view(v@) =~= periods_view(v0).push((p as int, e.duration_secs as int)));
                            assert(before + prev.push((p as int, e.duration_secs as int)) =~= (before + prev).push(
                                (p as int, e.duration_secs as int),
                            ));
                        }
                    },
                    None => {},
                }
                j = j + 1;
            }
            i = i + 1;
        }
        v
    }

    /// The weekday of the 1st of a month, as days from Monday.
    fn first_weekday_of(year: i32, month: u32) -> (w: u32)
        requires
            MIN_YEAR <= year <= MAX_YEAR,
            1 <= month <= 12,
        ensures
            w == first_weekday(year, month),
            w < 7,
    {
        let dn = match day_number_of(year, month, 1) {
            Some(n) => n,
            None => 0,
        };
        crate::time::euclid_rem(dn as i64 - 1, 7) as u32
    }

    /// The week of the month of `day`, weeks starting on Monday.
    fn get_week_of_month(year: i32, month: u32, day: u32) -> (w: u32)
        requires
            MIN_YEAR <= year <= MAX_YEAR,
            1 <= month <= 12,
            1 <= day <= 31,
        ensures
            w == week_of_month(day as int, first_weekday(year, month)),
    {
        let fw = Self::first_weekday_of(year, month);
        ((day + fw - 1) / 7) + 1
    }

    /// The number of days of a month.
    fn days_in_month(year: i32, month: u32) -> (n: u32)
        requires
            MIN_YEAR <= year <= MAX_YEAR,
            1 <= month <= 12,
        ensures
            Some(n) == month_length(year, month),
            28 <= n <= 31,
    {
        match days_in_month_of(year, month) {
            Some(n) => n,
            None => 28,
        }
    }

    /// The usage per month of `year`.
    fn aggregate_by_year(&self, year: i32, offs: &Vec<Vec<Option<i32>>>) -> (r: Vec<PeriodUsage>)
        requires
            offsets_match(self.usage(), offs@),
            crate::chart_data::sums_fit(self.usage()),
        ensures
            months_result(r@, all_periods(PeriodKey::Months { year }, self.usage(), offs@, self.usage().len() as int)),
            keys_in_range(
                PeriodKey::Months { year },
                all_periods(PeriodKey::Months { year }, self.usage(), offs@, self.usage().len() as int),
            ),
    {
        let k = PeriodKey::Months { year };
        let v = self.collect(k, offs);
        proof {
            lemma_all_periods_abs(k, self.app_usage@, offs@, self.app_usage@.len() as int);
        }
        let mut r: Vec<PeriodUsage> = Vec::new();
        let mut month: u32 = 1;
        while month <= 12
            invariant
                1 <= month <= 13,
                r@.len() == month - 1,
                periods_abs(periods_view(v@)) <= i64::MAX,
                forall|i: int|
                    0 <= i < r@.len() ==> {
                        &&& (#[trigger] r@[i]).label@ == decimal((i + 1) as nat) + "月"@
                        &&& r@[i].index == i + 1
                        &&& r@[i].total_seconds == period_total(periods_view(v@), i + 1)
                    },
            decreases 13 - month,
        {
            let label = numbered_label("", month as u64, "月");
            proof {
                assert(""@ + decimal(month as nat) + "月"@ =~= decimal(month as nat) + "月"@) by {
                    reveal_strlit("");
                }
            }
            let t = total_for(&v, month as i64);
            r.push(PeriodUsage { label, index: month as i32, total_seconds: t });
            month = month + 1;
        }
        r
    }

    /// The usage per week of a month, weeks 1 to the week of its last day.
    fn aggregate_by_month(&self, year: i32, month: u32, offs: &Vec<Vec<Option<i32>>>) -> (r: Vec<PeriodUsage>)
        requires
            offsets_match(self.usage(), offs@),
            crate::chart_data::sums_fit(self.usage()),
            MIN_YEAR <= year <= MAX_YEAR,
            1 <= month <= 12,
        ensures
            weeks_result(
                r@,
                all_periods(
                    PeriodKey::Weeks { year, month, first_weekday: first_weekday(year, month) as u32 },
                    self.usage(),
                    offs@,
                    self.usage().len() as int,
                ),
                week_of_month(month_length(year, month)->0 as int, first_weekday(year, month)),
            ),
    {
        let fw = Self::first_weekday_of(year, month);
        let k = PeriodKey::Weeks { year, month, first_weekday: fw };
        let v = self.collect(k, offs);
        proof {
            lemma_all_periods_abs(k, self.app_usage@, offs@, self.app_usage@.len() as int);
        }
        let dim = Self::days_in_month(year, month);
        let max_week = Self::get_week_of_month(year, month, dim);
        let mut r: Vec<PeriodUsage> = Vec::new();
        let mut week: u32 = 1;
        while week <= max_week
            invariant
                max_week <= 6,
                1 <= week <= max_week + 1,
                r@.len() == week - 1,
                periods_abs(periods_view(v@)) <= i64::MAX,
                forall|i: int|
                    0 <= i < r@.len() ==> {
                        &&& (#[trigger] r@[i]).label@ == "第"@ + decimal((i + 1) as nat) + "周"@
                        &&& r@[i].index == i + 1
                        &&& r@[i].total_seconds == period_total(periods_view(v@), i + 1)
                    },
            decreases max_week + 1 - week,
        {
            let label = numbered_label("第", week as u64, "周");
            let t = total_for(&v, week as i64);
            r.push(PeriodUsage { label, index: week as i32, total_seconds: t });
            week = week + 1;
        }
        r
    }

    /// The usage per day of week `week` of a month (by UTC date).
    fn aggregate_by_week(&self, year: i32, month: u32, week: u32, offs: &Vec<Vec<Option<i32>>>) -> (r: Vec<
        PeriodUsage,
    >)
        requires
            offsets_match(self.usage(), offs@),
            crate::chart_data::sums_fit(self.usage()),
            MIN_YEAR <= year,
            1 <= month <= 12,
            1 <= week,
            7 * week <= 365 * (MAX_YEAR - year),
        ensures
            ({
                let ws = week_start(day_number(year, month, 1)->0 as int, first_weekday(year, month), week as int);
                &&& days_result(
                    r@,
                    all_periods(PeriodKey::Days { week_start: ws as i64 }, self.usage(), offs@, self.usage().len() as int),
                    ws,
                )
                &&& keys_in_range(
                    PeriodKey::Days { week_start: ws as i64 },
                    all_periods(PeriodKey::Days { week_start: ws as i64 }, self.usage(), offs@, self.usage().len() as int),
                )
            }),
    {
        let first: i32 = match day_number_of(year, month, 1) {
            Some(n) => n,
            None => 0,
        };
        let fw = Self::first_weekday_of(year, month);
        let start_day: i64 = ((week - 1) * 7) as i64 - fw as i64 + 1;
        let ws: i64 = if start_day < 1 {
            first as i64
        } else {
            first as i64 + (start_day - 1)
        };
        let k = PeriodKey::Days { week_start: ws };
        let v = self.collect(k, offs);
        proof {
            lemma_all_periods_abs(k, self.app_usage@, offs@, self.app_usage@.len() as int);
        }
        let mut r: Vec<PeriodUsage> = Vec::new();
        let mut i: i64 = 0;
        while i < 7
            invariant
                0 <= i <= 7,
                MIN_DAY_CE <= ws,
                ws + 7 <= MAX_DAY_CE,
                r@.len() == i,
                periods_abs(periods_view(v@)) <= i64::MAX,
                forall|t: int|
                    0 <= t < r@.len() ==> {
                        &&& (#[trigger] r@[t]).label@ == weekday_label(weekday_of_day_ce(ws + t))
                        &&& calendar_date((ws + t) as i32) matches Some((y, m, d)) && r@[t].index == d
                        &&& r@[t].total_seconds == period_total(periods_view(v@), ws + t)
                    },
            decreases 7 - i,
        {
            let dn: i64 = ws + i;
            let wd = crate::time::euclid_rem(dn - 1, 7);
            let label = if wd == 0 {
                string_of("周一")
            } else if wd == 1 {
                string_of("周二")
            } else if wd == 2 {
                string_of("周三")
            } else if wd == 3 {
                string_of("周四")
            } else if wd == 4 {
                string_of("周五")
            } else if wd == 5 {
                string_of("周六")
            } else {
                string_of("周日")
            };
            let day: u32 = match date_of_day_number(dn as i32) {
                Some((_y, _m, d)) => d,
                None => 0,
            };
            let t = total_for(&v, dn);
            r.push(PeriodUsage { label, index: day as i32, total_seconds: t });
            i = i + 1;
        }
        r
    }

    /// The usage per hour of a day.
    fn aggregate_by_day(&self, year: i32, month: u32, day: u32, offs: &Vec<Vec<Option<i32>>>) -> (r: Vec<
        PeriodUsage,
    >)
        requires
            offsets_match(self.usage(), offs@),
            crate::chart_data::sums_fit(self.usage()),
        ensures
            hours_result(
                r@,
                all_periods(PeriodKey::Hours { year, month, day }, self.usage(), offs@, self.usage().len() as int),
            ),
            keys_in_range(
                PeriodKey::Hours { year, month, day },
                all_periods(PeriodKey::Hours { year, month, day }, self.usage(), offs@, self.usage().len() as int),
            ),
    {
        let k = PeriodKey::Hours { year, month, day };
        let v = self.collect(k, offs);
        proof {
            lemma_all_periods_abs(k, self.app_usage@, offs@, self.app_usage@.len() as int);
        }
        let mut r: Vec<PeriodUsage> = Vec::new();
        let mut hour: u32 = 0;
        while hour < 24
            invariant
                hour <= 24,
                r@.len() == hour,
                periods_abs(periods_view(v@)) <= i64::MAX,
                forall|i: int|
                    0 <= i < r@.len() ==> {
                        &&& (#[trigger] r@[i]).label@ == decimal(i as nat) + "时"@
                        &&& r@[i].index == i
                        &&& r@[i].total_seconds == period_total(periods_view(v@), i)
                    },
            decreases 24 - hour,
        {
            let label = numbered_label("", hour as u64, "时");
            proof {
                assert(""@ + decimal(hour as nat) + "时"@ =~= decimal(hour as nat) + "时"@) by {
                    reveal_strlit("");
                }
            }
            let t = total_for(&v, hour as i64);
            r.push(PeriodUsage { label, index: hour as i32, total_seconds: t });
            hour = hour + 1;
        }
        r
    }

    /// The usage per period of the navigation state, given a local offset for
    /// each event: nothing for a year, the months of the selected year, the
    /// weeks of the selected month, the days of the selected week, the hours of
    /// the selected day (a month, week or day not selected counting as 1).
    pub fn aggregate_with_offsets(&self, state: &TimeNavigationState, offs: &Vec<Vec<Option<i32>>>) -> (r: Vec<
        PeriodUsage,
    >)
        requires
            offsets_match(self.usage(), offs@),
            crate::chart_data::sums_fit(self.usage()),
            state_in_range(*state),
        ensures
            aggregation_of(r@, *state, self.usage(), offs@),
            state.level != TimeNavigationLevel::Year ==> keys_in_range(
                period_key_of(*state),
                all_periods(period_key_of(*state), self.usage(), offs@, self.usage().len() as int),
            ),
    {
        let month = match state.selected_month {
            Some(m) => m,
            None => 1,
        };
        match state.level {
            TimeNavigationLevel::Year => Vec::new(),
            TimeNavigationLevel::Month => self.aggregate_by_year(state.selected_year, offs),
            TimeNavigationLevel::Week => self.aggregate_by_month(state.selected_year, month, offs),
            TimeNavigationLevel::Day => {
                let week = match state.selected_week {
                    Some(w) => w,
                    None => 1,
                };
                self.aggregate_by_week(state.selected_year, month, week, offs)
            },
            TimeNavigationLevel::Hour => {
                let day = match state.selected_day {
                    Some(d) => d,
                    None => 1,
                };
                self.aggregate_by_day(state.selected_year, month, day, offs)
            },
        }
    }

    /// The usage per period of the navigation state, with each event placed by
    /// its local time in the machine's time zone. Which offsets the time zone
    /// gives is not stated; the result is the one
    /// [`Self::aggregate_with_offsets`] gives for them.
    pub fn aggregate(&self, state: &TimeNavigationState) -> (r: Vec<PeriodUsage>)
        requires
            crate::chart_data::sums_fit(self.usage()),
            state_in_range(*state),
        ensures
            exists|offs: Seq<Vec<Option<i32>>>|
                offsets_match(self.usage(), offs) && aggregation_of(r@, *state, self.usage(), offs) && (
                state.level != TimeNavigationLevel::Year ==> keys_in_range(
                    period_key_of(*state),
                    all_periods(period_key_of(*state), self.usage(), offs, self.usage().len() as int),
                )),
    {
        let offs = crate::chart_data::local_offsets(self.app_usage);
        let ghost o = offs@;
        let r = self.aggregate_with_offsets(state, &offs);
        assert(offsets_match(self.app_usage@, o));
        r
    }
}

/// A period label shortened for a chart's axis: `1月` to `1`, `第1周` to `W1`,
/// `周一` to `一`, `0时` to `0`; a year's labels are kept.
pub open spec fn short_period_label(level: TimeNavigationLevel, label: Seq<char>) -> Seq<char> {
    match level {
        TimeNavigationLevel::Year => label,
        TimeNavigationLevel::Month => replace_char(label, '月', Seq::empty()),
        TimeNavigationLevel::Week => replace_char(replace_char(label, '第', seq!['W']), '周', Seq::empty()),
        TimeNavigationLevel::Day => replace_char(label, '周', Seq::empty()),
        TimeNavigationLevel::Hour => replace_char(label, '时', Seq::empty()),
    }
}

/// A period label shortened for a chart's axis.
pub fn format_period_label(level: TimeNavigationLevel, label: &str) -> (r: String)
    ensures
        r@ == short_period_label(level, label@),
{
    proof {
        reveal_strlit("");
        reveal_strlit("W");
    }
    let r = match level {
        TimeNavigationLevel::Year => string_of(label),
        TimeNavigationLevel::Month => replace_char_str(label, '月', ""),
        TimeNavigationLevel::Week => {
            let w = replace_char_str(label, '第', "W");
            replace_char_str(w.as_str(), '周', "")
        },
        TimeNavigationLevel::Day => replace_char_str(label, '周', ""),
        TimeNavigationLevel::Hour => replace_char_str(label, '时', ""),
    };
    proof {
        assert(""@ =~= Seq::<char>::empty());
        assert("W"@ =~= seq!['W']);
    }
    r
}

} // verus!
