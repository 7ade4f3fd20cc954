//! Navigation between the application's views.

use vstd::prelude::*;
use vstd::view::View as _;
use crate::models::{TimeNavigationLevel, TimeNavigationState};
use crate::time::{calendar_date, date_of_day_number, is_clock_day, today_day_number};

verus! {

/// How the views are navigated.
#[derive(Debug, Clone, Copy, PartialEq, Eq, Structural)]
pub enum NavigationMode {
    /// A sidebar (the default).
    Sidebar,
    /// Tabs along the top.
    TopTab,
}

impl Default for NavigationMode {
    fn default() -> (m: Self)
        ensures
            m == NavigationMode::Sidebar,
    {
        NavigationMode::Sidebar
    }
}

/// The application's views.
#[derive(Debug, Clone, Copy, PartialEq, Eq, Structural)]
pub enum View {
    Dashboard,
    Statistics,
    Details,
    Categories,
    Settings,
}

impl View {
    /// Every view, in navigation order.
    pub fn all() -> (v: Vec<View>)
        ensures
            v@ == seq![
                View::Dashboard,
                View::Statistics,
                View::Details,
                View::Categories,
                View::Settings,
            ],
    {
        vec![View::Dashboard, View::Statistics, View::Details, View::Categories, View::Settings]
    }

    /// The view's name.
    pub fn label(&self) -> (s: &'static str)
        ensures
            s@ == match self {
                View::Dashboard => "仪表板"@,
                View::Statistics => "统计"@,
                View::Details => "详细"@,
                View::Categories => "分类"@,
                View::Settings => "设置"@,
            },
    {
        match self {
            View::Dashboard => "仪表板",
            View::Statistics => "统计",
            View::Details => "详细",
            View::Categories => "分类",
            View::Settings => "设置",
        }
    }

    /// The view's icon in the tab bar.
    pub fn icon(&self) -> (s: &'static str)
        ensures
            s@ == match self {
                View::Dashboard => "📊"@,
                View::Statistics => "📈"@,
                View::Details => "📋"@,
                View::Categories => "📂"@,
                View::Settings => "⚙"@,
            },
    {
        match self {
            View::Dashboard => "📊",
            View::Statistics => "📈",
            View::Details => "📋",
            View::Categories => "📂",
            View::Settings => "⚙",
        }
    }

    /// The view's icon in the sidebar.
    pub fn sidebar_icon(&self) -> (s: &'static str)
        ensures
            s@ == match self {
                View::Dashboard => "⊞"@,
                View::Statistics => "≣"@,
                View::Details => "≡"@,
                View::Categories => "⌘"@,
                View::Settings => "⚙"@,
            },
    {
        match self {
            View::Dashboard => "⊞",
            View::Statistics => "≣",
            View::Details => "≡",
            View::Categories => "⌘",
            View::Settings => "⚙",
        }
    }
}

/// The quick time ranges of the statistics view.
#[derive(Debug, Clone, Copy, PartialEq, Eq, Structural)]
pub enum QuickTimeRange {
    Today,
    ThisWeek,
    ThisMonth,
    ThisYear,
}

/// Where a quick range puts the navigation when today's local date is
/// `today`: this week shows the days of today's month, this month its weeks,
/// this year its months. Today's navigation (hours of today) is set by the
/// navigation state's own step, so none is given for it here.
pub open spec fn spec_quick_navigation(today: (i32, u32, u32), kind: QuickTimeRange) -> Option<
    TimeNavigationState,
> {
    match kind {
        QuickTimeRange::Today => None,
        QuickTimeRange::ThisWeek => Some(
            TimeNavigationState {
                level: TimeNavigationLevel::Day,
                selected_year: today.0,
                selected_month: Some(today.1),
                selected_week: None,
                selected_day: None,
            },
        ),
        QuickTimeRange::ThisMonth => Some(
            TimeNavigationState {
                level: TimeNavigationLevel::Week,
                selected_year: today.0,
                selected_month: Some(today.1),
                selected_week: None,
                selected_day: None,
            },
        ),
        QuickTimeRange::ThisYear => Some(
            TimeNavigationState {
                level: TimeNavigationLevel::Month,
                selected_year: today.0,
                selected_month: None,
                selected_week: None,
                selected_day: None,
            },
        ),
    }
}

/// Where a quick range puts the navigation when today's local date is
/// `today` (see [`spec_quick_navigation`]).
pub fn quick_navigation(today: (i32, u32, u32), kind: QuickTimeRange) -> (s: Option<TimeNavigationState>)
    ensures
        s == spec_quick_navigation(today, kind),
{
    match kind {
        QuickTimeRange::Today => None,
        QuickTimeRange::ThisWeek => Some(
            TimeNavigationState {
                level: TimeNavigationLevel::Day,
                selected_year: today.0,
                selected_month: Some(today.1),
                selected_week: None,
                selected_day: None,
            },
        ),
        QuickTimeRange::ThisMonth => Some(
            TimeNavigationState {
                level: TimeNavigationLevel::Week,
                selected_year: today.0,
                selected_month: Some(today.1),
                selected_week: None,
                selected_day: None,
            },
        ),
        QuickTimeRange::ThisYear => Some(
            TimeNavigationState {
                level: TimeNavigationLevel::Month,
                selected_year: today.0,
                selected_month: None,
                selected_week: None,
                selected_day: None,
            },
        ),
    }
}

/// The controller of the hierarchical time navigation.
pub struct TimeNavigationController<'a> {
    state: &'a TimeNavigationState,
}

/// Today's local date `(year, month, day)`, from the clock.
fn today() -> (r: Option<(i32, u32, u32)>)
    ensures
        exists|d: i32| is_clock_day(d) && r == #[trigger] calendar_date(d),
{
    let d = today_day_number();
    let r = date_of_day_number(d);
    assert(is_clock_day(d) && r == calendar_date(d));
    r
}

impl<'a> TimeNavigationController<'a> {
    /// The navigation state shown.
    pub closed spec fn nav(&self) -> TimeNavigationState {
        *self.state
    }

    /// Whether the selected day is the date `t`.
    pub open spec fn selects_day(&self, t: (i32, u32, u32)) -> bool {
        self.nav().selected_year == t.0 && self.nav().selected_month == Some(t.1) && self.nav().selected_day
            == Some(t.2)
    }

    /// Whether the selected month is that of the date `t`.
    pub open spec fn selects_month(&self, t: (i32, u32, u32)) -> bool {
        self.nav().selected_year == t.0 && self.nav().selected_month == Some(t.1)
    }

    /// Whether the selected year is that of the date `t`.
    pub open spec fn selects_year(&self, t: (i32, u32, u32)) -> bool {
        self.nav().selected_year == t.0
    }

    /// Whether the selected day is the date of the local day `d`.
    pub open spec fn day_is_selected(&self, d: i32) -> bool {
        match calendar_date(d) {
            Some(t) => self.selects_day(t),
            None => false,
        }
    }

    /// Whether the selected month is that of the local day `d`.
    pub open spec fn month_is_selected(&self, d: i32) -> bool {
        match calendar_date(d) {
            Some(t) => self.selects_month(t),
            None => false,
        }
    }

    /// Whether the selected year is that of the local day `d`.
    pub open spec fn year_is_selected(&self, d: i32) -> bool {
        match calendar_date(d) {
            Some(t) => self.selects_year(t),
            None => false,
        }
    }

    /// A controller of `state`.
    pub fn new(state: &'a TimeNavigationState) -> (c: Self)
        ensures
            c.nav() == *state,
    {
        TimeNavigationController { state }
    }

    /// Whether the selected day is `today` (a local date).
    pub fn is_current_today_at(&self, today: (i32, u32, u32)) -> (b: bool)
        ensures
            b == (self.nav().selected_year == today.0 && self.nav().selected_month == Some(today.1)
                && self.nav().selected_day == Some(today.2)),
    {
        self.state.selected_year == today.0 && self.state.selected_month == Some(today.1)
            && self.state.selected_day == Some(today.2)
    }

    /// Whether the selected week's month is that of `today`.
    pub fn is_current_week_at(&self, today: (i32, u32, u32)) -> (b: bool)
        ensures
            b == (self.nav().selected_year == today.0 && self.nav().selected_month == Some(today.1)),
    {
        self.state.selected_year == today.0 && self.state.selected_month == Some(today.1)
    }

    /// Whether the selected month is that of `today`.
    pub fn is_current_month_at(&self, today: (i32, u32, u32)) -> (b: bool)
        ensures
            b == (self.nav().selected_year == today.0 && self.nav().selected_month == Some(today.1)),
    {
        self.state.selected_year == today.0 && self.state.selected_month == Some(today.1)
    }

    /// Whether the selected year is that of `today`.
    pub fn is_current_year_at(&self, today: (i32, u32, u32)) -> (b: bool)
        ensures
            b == (self.nav().selected_year == today.0),
    {
        self.state.selected_year == today.0
    }

    /// Whether the selected day is today, by the clock.
    pub fn is_current_today(&self) -> (b: bool)
        ensures
            exists|d: i32| is_clock_day(d) && b == #[trigger] self.day_is_selected(d),
    {
        let r = today();
        let ghost d = choose|d: i32| is_clock_day(d) && r == #[trigger] calendar_date(d);
        let b = match r {
            Some(t) => self.is_current_today_at(t),
            None => false,
        };
        assert(is_clock_day(d) && b == self.day_is_selected(d));
        b
    }

    /// Whether the selected week's month is this month, by the clock.
    pub fn is_current_week(&self) -> (b: bool)
        ensures
            exists|d: i32| is_clock_day(d) && b == #[trigger] self.month_is_selected(d),
    {
        let r = today();
        let ghost d = choose|d: i32| is_clock_day(d) && r == #[trigger] calendar_date(d);
        let b = match r {
            Some(t) => self.is_current_week_at(t),
            None => false,
        };
        assert(is_clock_day(d) && b == self.month_is_selected(d));
        b
    }

    /// Whether the selected month is this month, by the clock.
    pub fn is_current_month(&self) -> (b: bool)
        ensures
            exists|d: i32| is_clock_day(d) && b == #[trigger] self.month_is_selected(d),
    {
        let r = today();
        let ghost d = choose|d: i32| is_clock_day(d) && r == #[trigger] calendar_date(d);
        let b = match r {
            Some(t) => self.is_current_month_at(t),
            None => false,
        };
        assert(is_clock_day(d) && b == self.month_is_selected(d));
        b
    }

    /// Whether the selected year is this year, by the clock.
    pub fn is_current_year(&self) -> (b: bool)
        ensures
            exists|d: i32| is_clock_day(d) && b == #[trigger] self.year_is_selected(d),
    {
        let r = today();
        let ghost d = choose|d: i32| is_clock_day(d) && r == #[trigger] calendar_date(d);
        let b = match r {
            Some(t) => self.is_current_year_at(t),
            None => false,
        };
        assert(is_clock_day(d) && b == self.year_is_selected(d));
        b
    }
}

} // verus!
