//! The records the tracker keeps: window events and per-application usage.

use vstd::prelude::*;

verus! {

/// One stretch of time a window held the focus.
#[derive(Debug, Clone)]
pub struct WindowEvent {
    /// Row id once stored.
    pub id: Option<i64>,
    /// When the window got the focus, in seconds since 1970-01-01 00:00:00 UTC.
    pub timestamp: i64,
    /// The application (window class).
    pub app_name: String,
    /// The window title.
    pub window_title: String,
    /// The workspace the window was on.
    pub workspace: String,
    /// How long the window kept the focus, in seconds.
    pub duration_secs: i64,
    /// Whether the user was away from the keyboard.
    pub is_afk: bool,
}

/// The usage of one application over a period, with its window events.
#[derive(Debug, Clone)]
pub struct AppUsage {
    /// The application (window class).
    pub app_name: String,
    /// Total time spent in the application, in seconds.
    pub total_seconds: i64,
    /// The window events the total is made of.
    pub window_events: Vec<WindowEvent>,
}

/// The total usage of one period (a month, a week, a day or an hour).
#[derive(Debug, Clone)]
pub struct PeriodUsage {
    /// The period's label.
    pub label: String,
    /// The period's number (month, week, day of month or hour).
    pub index: i32,
    /// Time spent in the period, in seconds.
    pub total_seconds: i64,
}

/// A limit on the daily use of an application.
#[derive(Debug, Clone)]
pub struct DailyGoal {
    /// Row id once stored.
    pub id: Option<i64>,
    /// The application.
    pub app_name: String,
    /// The most minutes a day.
    pub max_minutes: i32,
    /// Whether to notify when the limit is reached.
    pub notify_enabled: bool,
}

/// What the dashboard shows: the usage of each application.
#[derive(Debug, Clone)]
pub struct DashboardData {
    /// The usage of each application.
    pub app_usage: Vec<AppUsage>,
}

/// The level of the hierarchical time navigation.
#[derive(Debug, Clone, Copy, PartialEq, Eq, Structural)]
pub enum TimeNavigationLevel {
    Year,
    Month,
    Week,
    Day,
    Hour,
}

/// Where the hierarchical time navigation stands.
#[derive(Debug, Clone, Copy, PartialEq, Eq, Structural)]
pub struct TimeNavigationState {
    /// What is being shown.
    pub level: TimeNavigationLevel,
    /// The selected year.
    pub selected_year: i32,
    /// The selected month, 1 to 12.
    pub selected_month: Option<u32>,
    /// The selected week of the month, from 1.
    pub selected_week: Option<u32>,
    /// The selected day of the month, from 1.
    pub selected_day: Option<u32>,
}

impl TimeNavigationState {
    /// The navigation at the months of `year`.
    pub open spec fn new_spec(year: i32) -> Self {
        TimeNavigationState {
            level: TimeNavigationLevel::Month,
            selected_year: year,
            selected_month: None,
            selected_week: None,
            selected_day: None,
        }
    }

    /// The navigation at the months of `year`.
    pub fn new(year: i32) -> (s: Self)
        ensures
            s == Self::new_spec(year),
    {
        TimeNavigationState {
            level: TimeNavigationLevel::Month,
            selected_year: year,
            selected_month: None,
            selected_week: None,
            selected_day: None,
        }
    }
}

} // verus!
