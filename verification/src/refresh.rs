//! When the interface asks for fresh data: each frame decides, from the view
//! shown, the window's focus and when each kind of data last came back, which
//! requests to send; each answer records when it came.

use vstd::prelude::*;
use crate::cache::whole_seconds;
use crate::navigation::View;
use crate::time::now_millis;
use crate::time_range::TimeRange;

verus! {

/// The kinds of data the interface asks for.
#[derive(Debug, Clone, Copy, PartialEq, Eq, Structural)]
pub enum DataKind {
    Dashboard,
    Stats,
    Details,
    Categories,
    DailyGoals,
}

/// The requests a frame sends.
#[derive(Debug, Clone, Copy, PartialEq, Eq, Structural)]
pub struct RefreshRequest {
    /// Today's usage for the dashboard.
    pub dashboard: bool,
    /// The daily goals.
    pub daily_goals: bool,
    /// The usage of the statistics range.
    pub stats: bool,
    /// Every record, for the details view.
    pub details: bool,
    /// The categories page's data.
    pub categories: bool,
    /// The list of categories (asked by the settings view while no goals came).
    pub all_categories: bool,
}

/// What the interface remembers between frames, times in milliseconds since
/// the epoch.
#[derive(Debug, Clone, Copy, PartialEq, Eq, Structural)]
pub struct RefreshState {
    /// Whether the window had the focus at the last frame.
    pub was_visible: bool,
    /// When the dashboard's data last came back.
    pub dashboard_last: Option<i64>,
    /// When the statistics data last came back.
    pub stats_last: Option<i64>,
    /// When the records last came back.
    pub details_last: Option<i64>,
    /// When the categories page's data last came back.
    pub categories_last: Option<i64>,
    /// When the daily goals last came back.
    pub goals_last: Option<i64>,
    /// Whether the categories page asked to be reloaded.
    pub categories_dirty: bool,
    /// The statistics time range.
    pub stats_range: TimeRange,
}

/// Whether data that last came back at `last` is younger than `secs` whole
/// seconds at `now` (never, when none came).
pub open spec fn fresh(last: Option<i64>, now: i64, secs: int) -> bool {
    match last {
        Some(l) => whole_seconds(now - l) < secs,
        None => false,
    }
}

/// No request at all.
pub open spec fn no_request() -> RefreshRequest {
    RefreshRequest {
        dashboard: false,
        daily_goals: false,
        stats: false,
        details: false,
        categories: false,
        all_categories: false,
    }
}

/// The requests for `view`: the dashboard's and the statistics data at most
/// every 5 seconds (the goals with the dashboard's, when they are 5 seconds
/// old), the records at most every 10, the categories page's data when asked
/// or 5 seconds old, and the settings view the category list while no goals
/// came.
pub open spec fn spec_requests(s: RefreshState, view: View, now: i64) -> RefreshRequest {
    match view {
        View::Dashboard => if fresh(s.dashboard_last, now, 5) {
            no_request()
        } else {
            RefreshRequest { dashboard: true, daily_goals: !fresh(s.goals_last, now, 5), ..no_request() }
        },
        View::Statistics => RefreshRequest { stats: !fresh(s.stats_last, now, 5), ..no_request() },
        View::Details => RefreshRequest { details: !fresh(s.details_last, now, 10), ..no_request() },
        View::Categories => RefreshRequest {
            categories: s.categories_dirty || !fresh(s.categories_last, now, 5),
            ..no_request()
        },
        View::Settings => RefreshRequest { all_categories: s.goals_last is None, ..no_request() },
    }
}

/// The state after the focus check: on regaining the focus the dashboard's
/// and the statistics data count as never fetched.
pub open spec fn after_focus(s: RefreshState, has_focus: bool) -> RefreshState {
    if has_focus && !s.was_visible {
        RefreshState { was_visible: has_focus, dashboard_last: None, stats_last: None, ..s }
    } else {
        RefreshState { was_visible: has_focus, ..s }
    }
}

/// The state after a frame at `now`: the focus check; a categories request
/// clears the page's reload flag; a statistics range chosen in the frame is
/// kept and forces the next statistics request.
pub open spec fn after_frame(
    s: RefreshState,
    has_focus: bool,
    view: View,
    new_stats_range: Option<TimeRange>,
    now: i64,
) -> RefreshState {
    let f = after_focus(s, has_focus);
    let g = if spec_requests(f, view, now).categories {
        RefreshState { categories_dirty: false, ..f }
    } else {
        f
    };
    match new_stats_range {
        Some(r) => RefreshState { stats_range: r, stats_last: None, ..g },
        None => g,
    }
}

/// The state once an answer for `kind` came back at `now`.
pub open spec fn after_response(s: RefreshState, kind: DataKind, now: i64) -> RefreshState {
    match kind {
        DataKind::Dashboard => RefreshState { dashboard_last: Some(now), ..s },
        DataKind::Stats => RefreshState { stats_last: Some(now), ..s },
        DataKind::Details => RefreshState { details_last: Some(now), ..s },
        DataKind::Categories => RefreshState { categories_last: Some(now), ..s },
        DataKind::DailyGoals => RefreshState { goals_last: Some(now), ..s },
    }
}

/// Whether `last` is younger than `secs` whole seconds at `now`.
fn is_fresh(last: Option<i64>, now: i64, secs: i128) -> (b: bool)
    ensures
        b == fresh(last, now, secs as int),
{
    match last {
        Some(l) => {
            let e: i128 = now as i128 - l as i128;
            let w: i128 = if e >= 0 {
                e / 1000
            } else {
                -((-e) / 1000)
            };
            w < secs
        },
        None => false,
    }
}

impl RefreshState {
    /// Nothing fetched yet, the window not focused, the statistics range
    /// `stats_range`.
    pub fn new(stats_range: TimeRange) -> (s: Self)
        ensures
            s == (RefreshState {
                was_visible: false,
                dashboard_last: None,
                stats_last: None,
                details_last: None,
                categories_last: None,
                goals_last: None,
                categories_dirty: false,
                stats_range,
            }),
    {
        RefreshState {
            was_visible: false,
            dashboard_last: None,
            stats_last: None,
            details_last: None,
            categories_last: None,
            goals_last: None,
            categories_dirty: false,
            stats_range,
        }
    }

    /// One frame at `now` (milliseconds since the epoch) with `view` shown:
    /// the focus check, then the requests for the view (a categories request
    /// clears the page's reload flag), then the statistics range chosen in
    /// this frame, if any, which forces the next statistics request.
    pub fn frame_step_at(&mut self, has_focus: bool, view: View, new_stats_range: Option<TimeRange>, now: i64) -> (req:
        RefreshRequest)
        ensures
            req == spec_requests(after_focus(*old(self), has_focus), view, now),
            *final(self) == after_frame(*old(self), has_focus, view, new_stats_range, now),
    {
        if has_focus && !self.was_visible {
            self.dashboard_last = None;
            self.stats_last = None;
        }
        self.was_visible = has_focus;
        let mut req = RefreshRequest {
            dashboard: false,
            daily_goals: false,
            stats: false,
            details: false,
            categories: false,
            all_categories: false,
        };
        match view {
            View::Dashboard => {
                if !is_fresh(self.dashboard_last, now, 5) {
                    req.dashboard = true;
                    req.daily_goals = !is_fresh(self.goals_last, now, 5);
                }
            },
            View::Statistics => {
                req.stats = !is_fresh(self.stats_last, now, 5);
            },
            View::Details => {
                req.details = !is_fresh(self.details_last, now, 10);
            },
            View::Categories => {
                req.categories = self.categories_dirty || !is_fresh(self.categories_last, now, 5);
                if req.categories {
                    self.categories_dirty = false;
                }
            },
            View::Settings => {
                req.all_categories = self.goals_last.is_none();
            },
        }
        match new_stats_range {
            Some(r) => {
                self.stats_range = r;
                self.stats_last = None;
            },
            None => {},
        }
        req
    }

    /// One frame by the clock: [`Self::frame_step_at`] at the clock's reading.
    pub fn frame_step(&mut self, has_focus: bool, view: View, new_stats_range: Option<TimeRange>) -> (req:
        RefreshRequest)
        ensures
            exists|now: i64|
                req == spec_requests(after_focus(*old(self), has_focus), view, now) && *final(self)
                    == #[trigger] after_frame(*old(self), has_focus, view, new_stats_range, now),
    {
        let now = now_millis();
        let req = self.frame_step_at(has_focus, view, new_stats_range, now);
        assert(req == spec_requests(after_focus(*old(self), has_focus), view, now) && *self == after_frame(
            *old(self),
            has_focus,
            view,
            new_stats_range,
            now,
        ));
        req
    }

    /// An answer for `kind` came back at `now`, with data or with an error
    /// (an error also waits for the next period, so as not to retry at once).
    pub fn response_at(&mut self, kind: DataKind, now: i64)
        ensures
            *final(self) == after_response(*old(self), kind, now),
    {
        match kind {
            DataKind::Dashboard => self.dashboard_last = Some(now),
            DataKind::Stats => self.stats_last = Some(now),
            DataKind::Details => self.details_last = Some(now),
            DataKind::Categories => self.categories_last = Some(now),
            DataKind::DailyGoals => self.goals_last = Some(now),
        }
    }

    /// An answer for `kind` came back now, by the clock.
    pub fn response(&mut self, kind: DataKind)
        ensures
            exists|now: i64| *final(self) == #[trigger] after_response(*old(self), kind, now),
    {
        let now = now_millis();
        self.response_at(kind, now);
        assert(*self == after_response(*old(self), kind, now));
    }
}

} // verus!
