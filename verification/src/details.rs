//! The details view: every window event as a record, newest first, with a
//! search and a time filter.

use vstd::prelude::*;
use crate::icons::{lowercase, to_lowercase};
use crate::models::AppUsage;
use crate::chart_data::weekday_label;
use crate::text::{chars_of, contains_seq, find, lemma_find_from, occurs_at, string_of};
use crate::time::{
    calendar_date, date_of_day_number, day_number, day_number_of, euclid_rem, is_clock_day, month_length,
    weekday_of_day_ce, local_time_to_instant,
    today_day_number, MAX_DAY_CE, MAX_YEAR, MIN_DAY_CE, MIN_YEAR, UNIX_EPOCH_DAY_CE,
};

verus! {

/// The time filters of the details view.
#[derive(Debug, Clone, Copy, PartialEq, Eq, Structural)]
pub enum TimeFilter {
    All,
    Today,
    ThisWeek,
    ThisMonth,
    Custom,
}

/// One window event, as the details view lists it.
#[derive(Debug, Clone)]
pub struct WindowEventRecord {
    /// The application.
    pub app_name: String,
    /// The window title.
    pub window_title: String,
    /// When the event started, in seconds since the epoch.
    pub start_time: i64,
    /// How long it lasted, in seconds.
    pub duration_secs: i64,
    /// Whether the user was away.
    pub is_afk: bool,
}

/// The time bounds a filter stands for, as instants (seconds since the epoch).
#[derive(Debug, Clone, Copy, PartialEq, Eq, Structural)]
pub enum RecordBounds {
    /// Every record.
    Any,
    /// Records starting at or after the instant.
    Since(i64),
    /// Records starting from the first instant to the second, both included.
    Between(i64, i64),
}

/// The records of the first `j` events of `u`.
pub open spec fn usage_records(u: AppUsage, j: int) -> Seq<WindowEventRecord>
    decreases j,
{
    if j <= 0 {
        Seq::empty()
    } else {
        let e = u.window_events@[j - 1];
        usage_records(u, j - 1).push(
            WindowEventRecord {
                app_name: u.app_name,
                window_title: e.window_title,
                start_time: e.timestamp,
                duration_secs: e.duration_secs,
                is_afk: e.is_afk,
            },
        )
    }
}

/// The records of all events of the first `i` applications, in order.
pub open spec fn all_records(us: Seq<AppUsage>, i: int) -> Seq<WindowEventRecord>
    decreases i,
{
    if i <= 0 {
        Seq::empty()
    } else {
        all_records(us, i - 1) + usage_records(us[i - 1], us[i - 1].window_events@.len() as int)
    }
}

/// Where a record starting at `t` goes in `s`: before the first record that
/// started earlier, so that records starting at the same time keep their order.
pub open spec fn insert_position(s: Seq<WindowEventRecord>, t: i64) -> int
    decreases s.len(),
{
    if s.len() == 0 {
        0
    } else if s[0].start_time < t {
        0
    } else {
        1 + insert_position(s.drop_first(), t)
    }
}

/// The records newest first, records starting at the same time in their
/// given order (a stable sort).
pub open spec fn newest_first(s: Seq<WindowEventRecord>) -> Seq<WindowEventRecord>
    decreases s.len(),
{
    if s.len() == 0 {
        Seq::empty()
    } else {
        let sorted = newest_first(s.drop_last());
        sorted.insert(insert_position(sorted, s.last().start_time), s.last())
    }
}

/// Whether the records are newest first.
pub open spec fn is_newest_first(s: Seq<WindowEventRecord>) -> bool {
    forall|i: int, j: int| 0 <= i < j < s.len() ==> #[trigger] s[i].start_time >= #[trigger] s[j].start_time
}

proof fn lemma_insert_position(s: Seq<WindowEventRecord>, t: i64)
    requires
        is_newest_first(s),
    ensures
        0 <= insert_position(s, t) <= s.len(),
        forall|i: int| 0 <= i < insert_position(s, t) ==> #[trigger] s[i].start_time >= t,
        forall|i: int| insert_position(s, t) <= i < s.len() ==> #[trigger] s[i].start_time < t,
    decreases s.len(),
{
    if s.len() > 0 && s[0].start_time >= t {
        let r = s.drop_first();
        assert(is_newest_first(r)) by {
            assert forall|i: int, j: int| 0 <= i < j < r.len() implies #[trigger] r[i].start_time
                >= #[trigger] r[j].start_time by {
                assert(s[i + 1].start_time >= s[j + 1].start_time);
            }
        }
        lemma_insert_position(r, t);
        assert forall|i: int| 0 <= i < insert_position(s, t) implies #[trigger] s[i].start_time >= t by {
            if i > 0 {
                assert(s[i] == r[i - 1]);
            }
        }
        assert forall|i: int| insert_position(s, t) <= i < s.len() implies #[trigger] s[i].start_time < t by {
            assert(s[i] == r[i - 1]);
        }
    } else if s.len() > 0 {
        assert forall|i: int| 0 <= i < s.len() implies #[trigger] s[i].start_time < t by {
            if i > 0 {
                assert(s[0].start_time >= s[i].start_time);
            }
        }
    }
}

/// Newest first is sorted by start time, newest first, and holds the same
/// records as it sorts.
pub proof fn lemma_newest_first_sorted(s: Seq<WindowEventRecord>)
    ensures
        is_newest_first(newest_first(s)),
        newest_first(s).to_multiset() == s.to_multiset(),
        newest_first(s).len() == s.len(),
    decreases s.len(),
{
    broadcast use vstd::seq_lib::group_to_multiset_ensures;
    if s.len() > 0 {
        let init = s.drop_last();
        lemma_newest_first_sorted(init);
        let sorted = newest_first(init);
        let x = s.last();
        let p = insert_position(sorted, x.start_time);
        lemma_insert_position(sorted, x.start_time);
        let r = sorted.insert(p, x);
        assert forall|i: int, j: int| 0 <= i < j < r.len() implies #[trigger] r[i].start_time
            >= #[trigger] r[j].start_time by {
            if j < p {
                assert(r[i] == sorted[i] && r[j] == sorted[j]);
            } else if j == p {
                assert(r[i] == sorted[i]);
            } else if i < p {
                assert(r[i] == sorted[i] && r[j] == sorted[j - 1]);
            } else if i == p {
                assert(r[j] == sorted[j - 1]);
            } else {
                assert(r[i] == sorted[i - 1] && r[j] == sorted[j - 1]);
            }
        }
        assert(s =~= init.push(x));
        assert(r.to_multiset() == sorted.to_multiset().insert(x));
    }
}

/// Whether a record passes the filters: not away, matching the search (the
/// lower-case query in the lower-case application or title), within the bounds.
pub open spec fn record_passes(r: WindowEventRecord, query: Seq<char>, bounds: RecordBounds) -> bool {
    &&& !r.is_afk
    &&& (query.len() == 0 || contains_seq(lowercase(r.app_name@), lowercase(query)) || contains_seq(
        lowercase(r.window_title@),
        lowercase(query),
    ))
    &&& match bounds {
        RecordBounds::Any => true,
        RecordBounds::Since(start) => r.start_time >= start,
        RecordBounds::Between(start, end) => start <= r.start_time <= end,
    }
}

/// The search matches anywhere: a record not spent away and within the
/// bounds passes whenever the lower-case query occurs at some position of
/// its lower-case application name or of its lower-case title; and a record
/// passing a non-empty query has the query somewhere in one of them.
pub proof fn lemma_search_matches_anywhere(r: WindowEventRecord, query: Seq<char>, bounds: RecordBounds, i: int)
    ensures
        !r.is_afk && match bounds {
            RecordBounds::Any => true,
            RecordBounds::Since(start) => r.start_time >= start,
            RecordBounds::Between(start, end) => start <= r.start_time <= end,
        } && (occurs_at(lowercase(r.app_name@), lowercase(query), i) || occurs_at(
            lowercase(r.window_title@),
            lowercase(query),
            i,
        )) ==> record_passes(r, query, bounds),
        record_passes(r, query, bounds) && query.len() > 0 ==> exists|j: int|
            occurs_at(lowercase(r.app_name@), lowercase(query), j) || occurs_at(
                lowercase(r.window_title@),
                lowercase(query),
                j,
            ),
{
}

/// The records among the first `k` that pass the filters, in order.
pub open spec fn passing(s: Seq<WindowEventRecord>, query: Seq<char>, bounds: RecordBounds, k: int) -> Seq<
    WindowEventRecord,
>
    decreases k,
{
    if k <= 0 {
        Seq::empty()
    } else if record_passes(s[k - 1], query, bounds) {
        passing(s, query, bounds, k - 1).push(s[k - 1])
    } else {
        passing(s, query, bounds, k - 1)
    }
}

/// The buttons of the date picker.
#[derive(Debug, Clone, Copy, PartialEq, Eq, Structural)]
pub enum DateStep {
    PrevYear,
    NextYear,
    PrevMonth,
    NextMonth,
    PrevDay,
    NextDay,
}

/// The date a picker button asks for from `date`, whose month has `n` days:
/// a year back or ahead; a month back or ahead within the year; a day back
/// or ahead within the month; `None` where the button does nothing.
pub open spec fn spec_step_target(date: (i32, u32, u32), n: u32, step: DateStep) -> Option<(i32, u32, u32)> {
    let (y, m, d) = date;
    match step {
        DateStep::PrevYear => Some(((y - 1) as i32, m, d)),
        DateStep::NextYear => Some(((y + 1) as i32, m, d)),
        DateStep::PrevMonth => if m > 1 {
            Some((y, (m - 1) as u32, d))
        } else {
            None
        },
        DateStep::NextMonth => if m < 12 {
            Some((y, (m + 1) as u32, d))
        } else {
            None
        },
        DateStep::PrevDay => if d > 1 {
            Some((y, m, (d - 1) as u32))
        } else {
            None
        },
        DateStep::NextDay => if d < n {
            Some((y, m, (d + 1) as u32))
        } else {
            None
        },
    }
}

/// The date a picker button asks for (see [`spec_step_target`]).
pub fn step_target(date: (i32, u32, u32), n: u32, step: DateStep) -> (r: Option<(i32, u32, u32)>)
    requires
        MIN_YEAR <= date.0 <= MAX_YEAR,
    ensures
        r == spec_step_target(date, n, step),
{
    let (y, m, d) = date;
    match step {
        DateStep::PrevYear => Some((y - 1, m, d)),
        DateStep::NextYear => Some((y + 1, m, d)),
        DateStep::PrevMonth => if m > 1 {
            Some((y, m - 1, d))
        } else {
            None
        },
        DateStep::NextMonth => if m < 12 {
            Some((y, m + 1, d))
        } else {
            None
        },
        DateStep::PrevDay => if d > 1 {
            Some((y, m, d - 1))
        } else {
            None
        },
        DateStep::NextDay => if d < n {
            Some((y, m, d + 1))
        } else {
            None
        },
    }
}

/// The weekday shown after a picked day: ` 周一` to ` 周日`.
pub fn weekday_caption(day: i32) -> (s: String)
    ensures
        s@ == " "@ + weekday_label(weekday_of_day_ce(day as int)),
{
    let wd = euclid_rem(day as i64 - 1, 7);
    let name = if wd == 0 {
        " 周一"
    } else if wd == 1 {
        " 周二"
    } else if wd == 2 {
        " 周三"
    } else if wd == 3 {
        " 周四"
    } else if wd == 4 {
        " 周五"
    } else if wd == 5 {
        " 周六"
    } else {
        " 周日"
    };
    proof {
        reveal_strlit(" 周一");
        reveal_strlit(" 周二");
        reveal_strlit(" 周三");
        reveal_strlit(" 周四");
        reveal_strlit(" 周五");
        reveal_strlit(" 周六");
        reveal_strlit(" 周日");
        reveal_strlit(" ");
        reveal_strlit("周一");
        reveal_strlit("周二");
        reveal_strlit("周三");
        reveal_strlit("周四");
        reveal_strlit("周五");
        reveal_strlit("周六");
        reveal_strlit("周日");
    }
    let s = string_of(name);
    assert(s@ =~= " "@ + weekday_label(weekday_of_day_ce(day as int)));
    s
}

/// The quick choices of the custom date range.
#[derive(Debug, Clone, Copy, PartialEq, Eq, Structural)]
pub enum QuickCustomRange {
    /// From seven days before today to today.
    Last7Days,
    /// From thirty days before today to today.
    Last30Days,
    /// The month today falls in.
    ThisMonth,
    /// The month before it.
    LastMonth,
}

/// The first and last day (day numbers) of the month `m` of year `y`, the
/// last one being the day before the next month's first day.
pub open spec fn month_span(y: i32, m: u32) -> Option<(i32, i32)> {
    let next = if m == 12 {
        ((y + 1) as i32, 1u32)
    } else {
        (y, (m + 1) as u32)
    };
    match (day_number(y, m, 1), day_number(next.0, next.1, 1)) {
        (Some(a), Some(b)) => Some((a, (b - 1) as i32)),
        _ => None,
    }
}

/// Whether the day `today` falls in month `month` of year `year`.
pub open spec fn in_month_of_year(today: i32, year: i32, month: u32) -> bool {
    match calendar_date(today) {
        Some((y, m, d)) => y == year && m == month,
        None => false,
    }
}

/// The days `n` days before `today` to `today`, when both are dates.
pub open spec fn days_back(today: i32, n: int) -> Option<(i32, i32)> {
    if MIN_DAY_CE <= today - n && today <= MAX_DAY_CE {
        Some(((today - n) as i32, today))
    } else {
        None
    }
}

/// The range a quick choice stands for when today is the day `today`, as
/// first and last day; `None` when it runs past the dates `chrono` represents.
pub open spec fn spec_quick_custom_range(today: i32, kind: QuickCustomRange) -> Option<(i32, i32)> {
    match kind {
        QuickCustomRange::Last7Days => days_back(today, 7),
        QuickCustomRange::Last30Days => days_back(today, 30),
        QuickCustomRange::ThisMonth => match calendar_date(today) {
            Some((y, m, d)) => month_span(y, m),
            None => None,
        },
        QuickCustomRange::LastMonth => match calendar_date(today) {
            Some((y, m, d)) => if m == 1 {
                month_span((y - 1) as i32, 12)
            } else {
                month_span(y, (m - 1) as u32)
            },
            None => None,
        },
    }
}

/// The first and last day of the month `m` (1 to 12) of year `y`.
fn month_span_of(y: i32, m: u32) -> (r: Option<(i32, i32)>)
    requires
        y < i32::MAX,
        1 <= m <= 12,
    ensures
        r == month_span(y, m),
        MIN_YEAR <= y <= MAX_YEAR && !(y == MAX_YEAR && m == 12) ==> r is Some,
{
    let (ny, nm) = if m == 12 {
        (y + 1, 1u32)
    } else {
        (y, m + 1)
    };
    match (day_number_of(y, m, 1), day_number_of(ny, nm, 1)) {
        (Some(a), Some(b)) => Some((a, b - 1)),
        _ => None,
    }
}

/// The range a quick choice stands for when today is the day `today`: the
/// last 7 or 30 days up to today, this month or last month, each as first and
/// last day. Each exists for every day `chrono` represents but this month in
/// the last month it represents, and last month in the first.
pub fn quick_custom_range(today: i32, kind: QuickCustomRange) -> (r: Option<(i32, i32)>)
    ensures
        r == spec_quick_custom_range(today, kind),
        (kind is Last7Days || kind is Last30Days) ==> (r is Some <==> (MIN_DAY_CE <= today - if kind is Last7Days {
            7int
        } else {
            30int
        } && today <= MAX_DAY_CE)),
        MIN_DAY_CE <= today <= MAX_DAY_CE && kind is ThisMonth && !in_month_of_year(today, MAX_YEAR, 12) ==> r is Some,
        MIN_DAY_CE <= today <= MAX_DAY_CE && kind is LastMonth && !in_month_of_year(today, MIN_YEAR, 1) ==> r is Some,
{
    match kind {
        QuickCustomRange::Last7Days => {
            if today >= MIN_DAY_CE + 7 && today <= MAX_DAY_CE {
                Some((today - 7, today))
            } else {
                None
            }
        },
        QuickCustomRange::Last30Days => {
            if today >= MIN_DAY_CE + 30 && today <= MAX_DAY_CE {
                Some((today - 30, today))
            } else {
                None
            }
        },
        QuickCustomRange::ThisMonth => match date_of_day_number(today) {
            Some((y, m, _d)) => month_span_of(y, m),
            None => None,
        },
        QuickCustomRange::LastMonth => match date_of_day_number(today) {
            Some((y, m, _d)) => {
                if m == 1 {
                    month_span_of(y - 1, 12)
                } else {
                    month_span_of(y, m - 1)
                }
            },
            None => None,
        },
    }
}

/// The most records the list shows.
pub const MAX_RECORDS: usize = 1000;

/// The details view's state.
pub struct DetailsView {
    search_query: String,
    selected_app: Option<String>,
    time_filter: TimeFilter,
    custom_start_date: Option<i32>,
    custom_end_date: Option<i32>,
    show_custom_range: bool,
    flat_data: Vec<WindowEventRecord>,
}

/// Whether `p` occurs in `s`.
fn contains_str(s: &str, p: &str) -> (b: bool)
    ensures
        b == contains_seq(s@, p@),
{
    let vs = chars_of(s);
    let vp = chars_of(p);
    proof {
        lemma_find_from(vs@, vp@, 0);
    }
    match find(vs.as_slice(), vp.as_slice(), 0) {
        Some(_) => true,
        None => {
            assert forall|i: int| !occurs_at(vs@, vp@, i) by {}
            false
        },
    }
}

impl DetailsView {
    /// The records, newest first.
    pub closed spec fn records(&self) -> Seq<WindowEventRecord> {
        self.flat_data@
    }

    /// The search query.
    pub closed spec fn query(&self) -> Seq<char> {
        self.search_query@
    }

    /// The time filter.
    pub closed spec fn filter(&self) -> TimeFilter {
        self.time_filter
    }

    /// The custom range's first day, as a day number (0001-01-01 being day 1).
    pub closed spec fn custom_start(&self) -> Option<i32> {
        self.custom_start_date
    }

    /// The custom range's last day, as a day number.
    pub closed spec fn custom_end(&self) -> Option<i32> {
        self.custom_end_date
    }

    /// The last day of the default custom range when today is the day `today`.
    pub open spec fn range_end_for(today: i32) -> i32 {
        if today < i32::MIN + 7 {
            (i32::MIN + 7) as i32
        } else {
            today
        }
    }

    /// A view with no records and no search, showing everything, with a custom
    /// range of the last seven days up to `today` (a day number).
    pub fn new_at(today: i32) -> (v: Self)
        requires
            today >= i32::MIN + 7,
        ensures
            v.records().len() == 0,
            v.query().len() == 0,
            v.filter() == TimeFilter::All,
            v.custom_start() == Some((today - 7) as i32),
            v.custom_end() == Some(today),
    {
        DetailsView {
            search_query: String::new(),
            selected_app: None,
            time_filter: TimeFilter::All,
            custom_start_date: Some(today - 7),
            custom_end_date: Some(today),
            show_custom_range: false,
            flat_data: Vec::new(),
        }
    }

    /// A view with no records and no search, showing everything, with a custom
    /// range of the last seven days (by the clock, in the local time zone),
    /// ending today (a day too close to the lower end of `i32` moves up).
    pub fn new() -> (v: Self)
        ensures
            v.records().len() == 0,
            v.query().len() == 0,
            v.filter() == TimeFilter::All,
            exists|today: i32|
                is_clock_day(today) && v.custom_end() == Some(#[trigger] Self::range_end_for(today))
                    && v.custom_start() == Some((Self::range_end_for(today) - 7) as i32),
    {
        let today = today_day_number();
        let end = if today < i32::MIN + 7 {
            i32::MIN + 7
        } else {
            today
        };
        let v = Self::new_at(end);
        assert(is_clock_day(today) && v.custom_end() == Some(Self::range_end_for(today)));
        v
    }

    /// A quick choice of the custom range, today being the day `today`: the
    /// range becomes the one the choice stands for; nothing changes when it
    /// does not exist.
    pub fn select_quick_range(&mut self, today: i32, kind: QuickCustomRange)
        ensures
            match spec_quick_custom_range(today, kind) {
                Some((a, b)) => final(self).custom_start() == Some(a) && final(self).custom_end() == Some(b),
                None => final(self).custom_start() == old(self).custom_start() && final(self).custom_end()
                    == old(self).custom_end(),
            },
            final(self).records() == old(self).records(),
            final(self).query() == old(self).query(),
            final(self).filter() == old(self).filter(),
    {
        match quick_custom_range(today, kind) {
            Some((a, b)) => {
                self.custom_start_date = Some(a);
                self.custom_end_date = Some(b);
            },
            None => {},
        }
    }

    /// Sets the search query.
    pub fn set_search_query(&mut self, query: String)
        ensures
            final(self).query() == query@,
            final(self).records() == old(self).records(),
            final(self).filter() == old(self).filter(),
    {
        self.search_query = query;
    }

    /// Sets the time filter.
    pub fn set_time_filter(&mut self, filter: TimeFilter)
        ensures
            final(self).filter() == filter,
            final(self).records() == old(self).records(),
            final(self).query() == old(self).query(),
    {
        self.time_filter = filter;
    }

    /// Replaces the records by those of every event of `app_usage`, newest
    /// first (events starting at the same time keep their order).
    pub fn update_data(&mut self, app_usage: &[AppUsage])
        ensures
            final(self).records() == newest_first(all_records(app_usage@, app_usage@.len() as int)),
            final(self).query() == old(self).query(),
            final(self).filter() == old(self).filter(),
            final(self).custom_start() == old(self).custom_start(),
            final(self).custom_end() == old(self).custom_end(),
    {
        let ghost us = app_usage@;
        let mut flat: Vec<WindowEventRecord> = Vec::new();
        let ghost mut seen: Seq<WindowEventRecord> = Seq::empty();
        let n = app_usage.len();
        let mut i: usize = 0;
        while i < n
            invariant
                n == us.len(),
                us == app_usage@,
                i <= n,
                seen == all_records(us, i as int),
                flat@ == newest_first(seen),
            decreases n - i,
        {
            let u = &app_usage[i];
            let m = u.window_events.len();
            let ghost before = seen;
            let mut j: usize = 0;
            while j < m
                invariant
                    n == us.len(),
                    i < n,
                    *u == us[i as int],
                    m == u.window_events@.len(),
                    j <= m,
                    seen == before + usage_records(*u, j as int),
                    flat@ == newest_first(seen),
                decreases m - j,
            {
                let e = &u.window_events[j];
                let rec = WindowEventRecord {
                    app_name: u.app_name.clone(),
                    window_title: e.window_title.clone(),
                    start_time: e.timestamp,
                    duration_secs: e.duration_secs,
                    is_afk: e.is_afk,
                };
                let ghost sorted = flat@;
                proof {
                    lemma_newest_first_sorted(seen);
                }
                let mut p: usize = 0;
                assert(sorted.skip(0) =~= sorted);
                while p < flat.len() && !(flat[p].start_time < rec.start_time)
                    invariant
                        flat@ == sorted,
                        p <= sorted.len(),
                        insert_position(sorted, rec.start_time) == p + insert_position(
                            sorted.skip(p as int),
                            rec.start_time,
                        ),
                    decreases sorted.len() - p,
                {
                    assert(sorted.skip(p as int).drop_first() =~= sorted.skip(p + 1));
                    p = p + 1;
                }
                proof {
                    if p < sorted.len() {
                        assert(sorted.skip(p as int)[0] == sorted[p as int]);
                    }
                    assert(insert_position(sorted, rec.start_time) == p);
                    let nseen = seen + seq![rec];
                    assert(nseen.drop_last() =~= seen);
                    assert(before + usage_records(*u, j + 1) =~= nseen);
                    seen = nseen;
                }
                flat.insert(p, rec);
                j = j + 1;
            }
            proof {
                assert(us[i as int] == *u);
            }
            i = i + 1;
        }
        self.flat_data = flat;
    }

    /// The records passing the search, the away filter and `bounds`, newest
    /// first, at most 1000 of them.
    pub fn filter_data_in(&self, bounds: RecordBounds) -> (r: Vec<WindowEventRecord>)
        ensures
            ({
                let all = passing(self.records(), self.query(), bounds, self.records().len() as int);
                r@ == all.take(if all.len() < MAX_RECORDS { all.len() as int } else { MAX_RECORDS as int })
            }),
    {
        let ghost recs = self.flat_data@;
        let ghost q = self.search_query@;
        let query_empty = self.search_query.as_str().is_empty();
        let query = to_lowercase(self.search_query.as_str());
        let mut result: Vec<WindowEventRecord> = Vec::new();
        let n = self.flat_data.len();
        let mut k: usize = 0;
        while k < n
            invariant
                n == recs.len(),
                recs == self.flat_data@,
                q == self.search_query@,
                query@ == lowercase(q),
                query_empty == (q.len() == 0),
                k <= n,
                result@ == passing(recs, q, bounds, k as int),
            decreases n - k,
        {
            let rec = &self.flat_data[k];
            let mut pass = !rec.is_afk;
            if pass && !query_empty {
                let app = to_lowercase(rec.app_name.as_str());
                let title = to_lowercase(rec.window_title.as_str());
                pass = contains_str(app.as_str(), query.as_str()) || contains_str(title.as_str(), query.as_str());
            }
            if pass {
                pass = match bounds {
                    RecordBounds::Any => true,
                    RecordBounds::Since(start) => rec.start_time >= start,
                    RecordBounds::Between(start, end) => rec.start_time >= start && rec.start_time <= end,
                };
            }
            if pass {
                result.push(rec.clone_record());
            }
            k = k + 1;
        }
        if result.len() > MAX_RECORDS {
            result.truncate(MAX_RECORDS);
        }
        proof {
            let all = passing(recs, q, bounds, n as int);
            if all.len() < MAX_RECORDS {
                assert(all.take(all.len() as int) =~= all);
            }
        }
        result
    }

    /// The bounds of the custom range: from the first day's local midnight to
    /// the last day's local 23:59:59, both included; `None` without both days,
    /// or when the local time zone skips or repeats one of those clock readings.
    pub fn custom_bounds(&self) -> (r: Option<RecordBounds>)
        ensures
            self.custom_bounds_ok(r),
    {
        match (self.custom_start_date, self.custom_end_date) {
            (Some(s), Some(e)) => match (local_time_to_instant(s, 0), local_time_to_instant(e, 86399)) {
                (Some(a), Some(z)) => Some(RecordBounds::Between(a, z)),
                _ => None,
            },
            _ => None,
        }
    }

    /// The bounds the time filter stands for, given the starts of today, this
    /// week and this month (instants) and the custom range's bounds.
    pub fn bounds_for(&self, today_start: i64, week_start: i64, month_start: i64, custom: Option<RecordBounds>) -> (b:
        RecordBounds)
        ensures
            b == self.bounds_for_spec(today_start, week_start, month_start, custom),
    {
        match self.time_filter {
            TimeFilter::All => RecordBounds::Any,
            TimeFilter::Today => RecordBounds::Since(today_start),
            TimeFilter::ThisWeek => RecordBounds::Since(week_start),
            TimeFilter::ThisMonth => RecordBounds::Since(month_start),
            TimeFilter::Custom => match custom {
                Some(c) => c,
                None => RecordBounds::Any,
            },
        }
    }

    /// The records the view lists, under its time filter, given the starts of
    /// today, this week and this month: see [`Self::filter_data_in`] and
    /// [`Self::bounds_for`] (the custom range as [`Self::custom_bounds`] gives it).
    pub fn filter_data(&self, today_start: i64, week_start: i64, month_start: i64) -> (r: Vec<WindowEventRecord>)
        ensures
            exists|custom: Option<RecordBounds>| {
                let all = passing(
                    self.records(),
                    self.query(),
                    #[trigger] self.bounds_for_spec(today_start, week_start, month_start, custom),
                    self.records().len() as int,
                );
                &&& self.custom_bounds_ok(custom)
                &&& r@ == all.take(if all.len() < MAX_RECORDS { all.len() as int } else { MAX_RECORDS as int })
            },
    {
        let custom = self.custom_bounds();
        let b = self.bounds_for(today_start, week_start, month_start, custom);
        let r = self.filter_data_in(b);
        assert(b == self.bounds_for_spec(today_start, week_start, month_start, custom));
        r
    }

    /// What holds of the custom range's bounds, whatever the time zone: none
    /// without both days; otherwise, if any, within a day of the first day's
    /// midnight and of the last day's 23:59:59 in UTC.
    pub open spec fn custom_bounds_ok(&self, r: Option<RecordBounds>) -> bool {
        &&& (self.custom_start() is None || self.custom_end() is None) ==> r is None
        &&& r matches Some(b) ==> (b matches RecordBounds::Between(a, z) && self.custom_start() matches Some(
            s,
        ) && self.custom_end() matches Some(e) && -86400 < a - (s - UNIX_EPOCH_DAY_CE) * 86400 < 86400 && -86400
            < z - ((e - UNIX_EPOCH_DAY_CE) * 86400 + 86399) < 86400)
    }

    /// What [`Self::bounds_for`] returns.
    pub open spec fn bounds_for_spec(
        &self,
        today_start: i64,
        week_start: i64,
        month_start: i64,
        custom: Option<RecordBounds>,
    ) -> RecordBounds {
        match self.filter() {
            TimeFilter::All => RecordBounds::Any,
            TimeFilter::Today => RecordBounds::Since(today_start),
            TimeFilter::ThisWeek => RecordBounds::Since(week_start),
            TimeFilter::ThisMonth => RecordBounds::Since(month_start),
            TimeFilter::Custom => match custom {
                Some(c) => c,
                None => RecordBounds::Any,
            },
        }
    }

    /// The day that `year-month-day` clamps to (the day capped at the month's
    /// length), as a day number, `None` when day 0 was asked for.
    pub open spec fn clamped_date(year: i32, month: u32, day: u32, dim: u32) -> Option<i32> {
        day_number(year, month, if day < dim { day } else { dim })
    }

    /// The custom range's `(first, last)` days after setting the first day
    /// (`is_start`) or the last day to `year-month-day`, the day capped at the
    /// month's length; the other end moves along when the range would
    /// otherwise be empty; nothing changes when there is no such day.
    pub open spec fn dates_after_update(
        start: Option<i32>,
        end: Option<i32>,
        is_start: bool,
        year: i32,
        month: u32,
        day: u32,
    ) -> (Option<i32>, Option<i32>) {
        match Self::clamped_date(year, month, day, crate::time::month_length(year, month)->0) {
            None => (start, end),
            Some(d) => if is_start {
                (
                    Some(d),
                    match end {
                        Some(e) => if d > e {
                            Some(d)
                        } else {
                            Some(e)
                        },
                        None => None,
                    },
                )
            } else {
                (
                    match start {
                        Some(s) => if d < s {
                            Some(d)
                        } else {
                            Some(s)
                        },
                        None => None,
                    },
                    Some(d),
                )
            },
        }
    }

    /// Whether a date of year `year` and month `month` (1 to 12) can be
    /// picked: the month and the next one lie in the years `chrono`
    /// represents.
    pub open spec fn pickable(year: int, month: int) -> bool {
        &&& MIN_YEAR <= year
        &&& 1 <= month <= 12
        &&& if month == 12 {
            year < MAX_YEAR
        } else {
            year <= MAX_YEAR
        }
    }

    /// A button of the date picker of the first day (`is_start`) or the last
    /// day: the date it shows moves as [`step_target`] says and is set as
    /// [`Self::update_date`] does. Nothing changes without a date, for a
    /// button that does nothing there, or when the new date's month cannot
    /// be picked.
    pub fn step_date(&mut self, is_start: bool, step: DateStep)
        ensures
            final(self).records() == old(self).records(),
            final(self).query() == old(self).query(),
            final(self).filter() == old(self).filter(),
            ({
                let cur = if is_start {
                    old(self).custom_start()
                } else {
                    old(self).custom_end()
                };
                let unchanged = final(self).custom_start() == old(self).custom_start() && final(self).custom_end()
                    == old(self).custom_end();
                match cur {
                    None => unchanged,
                    Some(c) => match calendar_date(c) {
                        None => unchanged,
                        Some(date) => match spec_step_target(date, month_length(date.0, date.1)->0, step) {
                            None => unchanged,
                            Some((y, m, d)) => if Self::pickable(y as int, m as int) {
                                (final(self).custom_start(), final(self).custom_end()) == Self::dates_after_update(
                                    old(self).custom_start(),
                                    old(self).custom_end(),
                                    is_start,
                                    y,
                                    m,
                                    d,
                                )
                            } else {
                                unchanged
                            },
                        },
                    },
                }
            }),
    {
        let cur = if is_start {
            self.custom_start_date
        } else {
            self.custom_end_date
        };
        let c = match cur {
            Some(c) => c,
            None => return ,
        };
        let date = match date_of_day_number(c) {
            Some(date) => date,
            None => return ,
        };
        let n = match crate::time::days_in_month_of(date.0, date.1) {
            Some(n) => n,
            None => return ,
        };
        match step_target(date, n, step) {
            None => {},
            Some((y, m, d)) => {
                let ok = if m == 12 {
                    MIN_YEAR <= y && y < MAX_YEAR
                } else {
                    MIN_YEAR <= y && y <= MAX_YEAR
                } && 1 <= m && m <= 12;
                if ok {
                    self.update_date(is_start, y, m, d);
                }
            },
        }
    }

    /// Sets the custom range's first day (`is_start`) or last day to
    /// `year-month-day`, the day capped at the month's length; the other end
    /// moves along when the range would otherwise be empty. Nothing changes for
    /// day 0.
    pub fn update_date(&mut self, is_start: bool, year: i32, month: u32, day: u32)
        requires
            MIN_YEAR <= year,
            1 <= month <= 12,
            if month == 12 {
                year < MAX_YEAR
            } else {
                year <= MAX_YEAR
            },
        ensures
            final(self).records() == old(self).records(),
            final(self).query() == old(self).query(),
            final(self).filter() == old(self).filter(),
            day >= 1 ==> Self::clamped_date(year, month, day, crate::time::month_length(year, month)->0) is Some,
            (final(self).custom_start(), final(self).custom_end()) == Self::dates_after_update(
                old(self).custom_start(),
                old(self).custom_end(),
                is_start,
                year,
                month,
                day,
            ),
    {
        let dim: u32 = match crate::time::days_in_month_of(year, month) {
            Some(n) => n,
            None => 28,
        };
        let day = if day < dim {
            day
        } else {
            dim
        };
        match day_number_of(year, month, day) {
            None => {},
            Some(date) => {
                if is_start {
                    self.custom_start_date = Some(date);
                    match self.custom_end_date {
                        Some(end) => {
                            if date > end {
                                self.custom_end_date = Some(date);
                            }
                        },
                        None => {},
                    }
                } else {
                    self.custom_end_date = Some(date);
                    match self.custom_start_date {
                        Some(start) => {
                            if date < start {
                                self.custom_start_date = Some(date);
                            }
                        },
                        None => {},
                    }
                }
            },
        }
    }
}

impl WindowEventRecord {
    /// A copy of the record.
    pub fn clone_record(&self) -> (r: Self)
        ensures
            r == *self,
    {
        WindowEventRecord {
            app_name: self.app_name.clone(),
            window_title: self.window_title.clone(),
            start_time: self.start_time,
            duration_secs: self.duration_secs,
            is_afk: self.is_afk,
        }
    }
}

} // verus!
