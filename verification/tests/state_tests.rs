use std::sync::Arc;
use tail::cache::CacheService;
use tail::dashboard::{kpi_figures, productivity_score};
use tail::categories::unclassified_apps;
use tail::details::{
    quick_custom_range, step_target, weekday_caption, DateStep, DetailsView, QuickCustomRange, RecordBounds, TimeFilter,
};
use tail::dialogs::{AddGoalDialog, AliasDialog, SettingsAction};
use tail::ipc::HyprlandEvent;
use tail::models::{AppUsage, DashboardData, TimeNavigationLevel, TimeNavigationState, WindowEvent};
use tail::navigation::{quick_navigation, NavigationMode, QuickTimeRange, TimeNavigationController, View};
use tail::service::{DurationUpdate, ServiceStep, TailService};
use tail::refresh::{DataKind, RefreshRequest, RefreshState};
use tail::stores::{AppStore, CategoryStore, DashboardStore, StatsStore};
use tail::theme::ThemeType;
use tail::time_range::{
    bounds_from, is_same_range, range_starts_at, stats_time_range_bounds, this_week_range, RangeStarts, TimeRange,
};
use tail::time::day_number_at;

fn ev(ts: i64, title: &str, secs: i64, afk: bool) -> WindowEvent {
    WindowEvent {
        id: None,
        timestamp: ts,
        app_name: String::new(),
        window_title: title.to_string(),
        workspace: String::new(),
        duration_secs: secs,
        is_afk: afk,
    }
}

#[test]
fn service_records_focus_changes() {
    let mut svc = TailService::new();
    assert!(svc.current_window().is_none());
    let c = svc.record_window_change("firefox".into(), "GitHub".into(), "1".into(), 1000, 50, false);
    assert!(c.update.is_none());
    assert_eq!(c.insert.app_name, "firefox");
    assert_eq!(c.insert.timestamp, 1000);
    assert_eq!(c.insert.duration_secs, 0);
    assert!(svc.current_window().is_none());
    svc.window_inserted(c.insert, 7, 50);
    assert_eq!(svc.current_window().as_ref().unwrap().event_id, Some(7));
    assert_eq!(svc.update_current_window_duration(50), None);
    assert_eq!(svc.update_current_window_duration(80), Some(DurationUpdate { event_id: 7, duration_secs: 30 }));
    assert_eq!(svc.flush_current_window(50), Some(DurationUpdate { event_id: 7, duration_secs: 0 }));
    assert_eq!(svc.update_current_window_duration(40), None);
    let c2 = svc.record_window_change("kitty".into(), "zsh".into(), "2".into(), 1100, 150, true);
    assert_eq!(c2.update, Some(DurationUpdate { event_id: 7, duration_secs: 100 }));
    assert!(c2.insert.is_afk);
    assert!(svc.current_window().is_none());
}

#[test]
fn service_handles_events() {
    let mut svc = TailService::new();
    let step = svc.handle_event(HyprlandEvent::ActiveWindowChanged { class: "code".into(), title: "main.rs".into() });
    match step {
        ServiceStep::RecordChange { app_name, window_title, workspace } => {
            assert_eq!(app_name, "code");
            assert_eq!(window_title, "main.rs");
            assert_eq!(workspace, "unknown");
        }
        _ => panic!("expected a window change"),
    }
    let c = svc.record_window_change("code".into(), "main.rs".into(), "unknown".into(), 10, 10, false);
    svc.window_inserted(c.insert, 1, 10);
    let step = svc.handle_event(HyprlandEvent::WindowTitleChanged { address: "0x1".into(), title: "lib.rs".into() });
    assert!(matches!(step, ServiceStep::Nothing));
    assert_eq!(svc.current_window().as_ref().unwrap().window_title, "lib.rs");
    let step = svc.next_step(HyprlandEvent::WindowTitleChanged {
        address: String::new(),
        title: "__UPDATE_CURRENT_WINDOW__".into(),
    });
    assert!(matches!(step, ServiceStep::UpdateCurrent));
    assert_eq!(svc.current_window().as_ref().unwrap().window_title, "lib.rs");
    let step = svc.next_step(HyprlandEvent::WindowTitleChanged { address: "0x1".into(), title: "mod.rs".into() });
    assert!(matches!(step, ServiceStep::Nothing));
    assert_eq!(svc.current_window().as_ref().unwrap().window_title, "mod.rs");
    let step = svc.handle_event(HyprlandEvent::WindowTitleChanged {
        address: String::new(),
        title: "__UPDATE_CURRENT_WINDOW__".into(),
    });
    assert!(matches!(step, ServiceStep::Nothing));
    assert_eq!(svc.current_window().as_ref().unwrap().window_title, "__UPDATE_CURRENT_WINDOW__");
    let step = svc.handle_event(HyprlandEvent::WorkspaceChanged { name: "3".into() });
    assert!(matches!(step, ServiceStep::Nothing));
}

#[test]
fn alias_dialog_flow() {
    let mut d = AliasDialog::default();
    assert!(!d.is_open);
    d.open_for_app("firefox".into(), Some("FF".into()));
    assert!(d.is_open && d.is_edit_mode);
    assert_eq!(d.alias, "FF");
    assert!(d.can_submit());
    d.alias = "一二三四五六七八九十一二三四五六".into();
    assert!(!d.can_submit());
    d.alias = "一二三四五六七八九十一二三四五".into();
    assert!(d.can_submit());
    d.close();
    assert!(!d.is_open && d.app_name.is_empty() && d.alias.is_empty() && !d.is_edit_mode);
    assert!(!d.can_submit());
    d.open_for_management(vec![("a".into(), "b".into())]);
    assert!(d.is_management_view());
    d.open_for_app("kitty".into(), None);
    assert!(!d.is_edit_mode);
    assert_eq!(d.alias, "");
}

#[test]
fn add_goal_dialog_flow() {
    let mut d = AddGoalDialog::new();
    assert_eq!(d.max_minutes, 60);
    assert!(!d.visible);
    d.app_name = "x".into();
    d.max_minutes = 125;
    d.open();
    assert!(d.visible && d.app_name.is_empty() && d.max_minutes == 60);
    assert!(d.goal().is_none());
    d.app_name = "  firefox \t".into();
    d.max_minutes = 125;
    assert_eq!(d.time_preview(), "= 2 小时 5 分钟");
    let g = d.goal().unwrap();
    assert_eq!(g.app_name, "firefox");
    assert_eq!(g.max_minutes, 125);
    assert!(g.notify_enabled && g.id.is_none());
    d.max_minutes = 45;
    assert_eq!(d.time_preview(), "= 45 分钟");
    d.close();
    assert!(!d.visible);
    assert!(matches!(SettingsAction::ChangeTheme(ThemeType::Nord), SettingsAction::ChangeTheme(ThemeType::Nord)));
}

#[test]
fn views_and_themes() {
    assert_eq!(View::all().len(), 5);
    assert_eq!(View::Dashboard.label(), "仪表板");
    assert_eq!(View::Settings.icon(), "⚙");
    assert_eq!(View::Categories.sidebar_icon(), "⌘");
    assert_eq!(NavigationMode::default(), NavigationMode::Sidebar);
    assert_eq!(ThemeType::default(), ThemeType::Dark);
    assert_eq!(ThemeType::Auto.name(), "跟随系统");
    assert_eq!(ThemeType::all().len(), 7);
    assert_eq!(ThemeType::all()[2], ThemeType::CatppuccinMocha);
    assert_ne!(QuickTimeRange::Today, QuickTimeRange::ThisYear);
}

#[test]
fn time_navigation_controller() {
    let s = TimeNavigationState {
        level: TimeNavigationLevel::Hour,
        selected_year: 2024,
        selected_month: Some(3),
        selected_week: None,
        selected_day: Some(15),
    };
    let c = TimeNavigationController::new(&s);
    assert!(c.is_current_today_at((2024, 3, 15)));
    assert!(!c.is_current_today_at((2024, 3, 16)));
    assert!(c.is_current_month_at((2024, 3, 1)));
    assert!(c.is_current_week_at((2024, 3, 1)));
    assert!(!c.is_current_year_at((2023, 3, 15)));
}

#[test]
fn cache_expires() {
    // Times in milliseconds; a value lives 10 whole seconds.
    let mut c: CacheService<u32> = CacheService::new(10);
    assert!(!c.is_valid_at(0));
    c.set_at(5, 100_000);
    assert!(c.is_valid_at(100_000));
    assert!(c.is_valid_at(109_999));
    assert!(!c.is_valid_at(110_000));
    assert!(c.is_valid_at(99_500));
    assert_eq!(c.get(), Some(&5));
    let r = c.get_or_refresh_at(105_000, || Ok(9));
    assert_eq!(r, Ok(&5));
    let r = c.get_or_refresh_at(200_000, || Ok(9));
    assert_eq!(r, Ok(&9));
    let r = c.get_or_refresh_at(300_000, || Err("down".to_string()));
    assert_eq!(r, Err("down".to_string()));
    assert_eq!(c.get(), Some(&9));
    c.invalidate();
    assert_eq!(c.get(), None);
    assert!(!c.is_valid_at(200_000));
    let d: CacheService<u32> = CacheService::default();
    assert!(!d.is_valid());
}

#[test]
fn stores_track_state() {
    let mut app = AppStore::new(Arc::new(3u8));
    assert!(app.is_dirty());
    app.mark_clean();
    assert!(!app.is_dirty());
    app.mark_dirty();
    assert!(app.is_dirty());
    assert_eq!(*app.data_service(), 3);

    let mut dash: DashboardStore<u8> = DashboardStore::new(Arc::new(0));
    assert_eq!(dash.get_total_seconds(), 0);
    assert_eq!(dash.get_app_count(), 0);
    let data = DashboardData {
        app_usage: vec![
            AppUsage { app_name: "a".into(), total_seconds: 10, window_events: vec![] },
            AppUsage { app_name: String::new(), total_seconds: 5, window_events: vec![] },
        ],
    };
    dash.store(data, 100);
    assert_eq!(dash.get_total_seconds(), 15);
    assert_eq!(dash.get_app_count(), 1);
    dash.invalidate();
    assert_eq!(dash.get_total_seconds(), 0);

    let mut stats: StatsStore<u8, u32> = StatsStore::new(Arc::new(0), 2024);
    assert_eq!(stats.time_state, TimeNavigationState::new(2024));
    assert_eq!(stats.get_data_at(10, || Ok(1)), Ok(&1));
    let same = TimeNavigationState::new(2024);
    stats.set_time_state(same);
    assert_eq!(stats.get_data_at(11, || Ok(2)), Ok(&1));
    let mut other = TimeNavigationState::new(2024);
    other.selected_month = Some(2);
    stats.set_time_state(other);
    assert_eq!(stats.time_state.selected_month, Some(2));
    assert_eq!(stats.get_data_at(12, || Ok(3)), Ok(&3));
}

#[test]
fn details_sorts_and_filters() {
    let us = vec![
        AppUsage {
            app_name: "Firefox".into(),
            total_seconds: 0,
            window_events: vec![ev(100, "GitHub", 5, false), ev(300, "Docs", 6, false)],
        },
        AppUsage {
            app_name: "kitty".into(),
            total_seconds: 0,
            window_events: vec![ev(200, "zsh", 7, true), ev(300, "vim", 8, false)],
        },
    ];
    let mut v = DetailsView::new_at(739000);
    v.update_data(&us);
    let all = v.filter_data_in(RecordBounds::Any);
    let times: Vec<(i64, &str)> = all.iter().map(|r| (r.start_time, r.window_title.as_str())).collect();
    assert_eq!(times, vec![(300, "Docs"), (300, "vim"), (100, "GitHub")]);
    v.set_search_query("FIRE".into());
    let hits = v.filter_data_in(RecordBounds::Any);
    assert_eq!(hits.len(), 2);
    v.set_search_query("git".into());
    let hits = v.filter_data_in(RecordBounds::Any);
    assert_eq!(hits.len(), 1);
    assert_eq!(hits[0].window_title, "GitHub");
    v.set_search_query(String::new());
    assert_eq!(v.filter_data_in(RecordBounds::Since(200)).len(), 2);
    assert_eq!(v.filter_data_in(RecordBounds::Between(50, 150)).len(), 1);
    v.set_time_filter(TimeFilter::Custom);
    v.update_date(true, 2024, 2, 31);
    v.update_date(false, 2024, 2, 10);
    let _ = DetailsView::new();
}

#[test]
fn dashboard_figures() {
    let us = vec![
        AppUsage { app_name: "a".into(), total_seconds: 3600 * 5, window_events: vec![] },
        AppUsage { app_name: "b".into(), total_seconds: 1800, window_events: vec![] },
        AppUsage { app_name: String::new(), total_seconds: 999, window_events: vec![] },
    ];
    let k = kpi_figures(&us);
    assert_eq!(k.total_seconds, 19800);
    assert_eq!(k.app_count, 2);
    assert_eq!(k.avg_per_app, 9900);
    assert_eq!(productivity_score(0, 3, true), 0);
    assert_eq!(productivity_score(19800, 2, true), 85);
    assert_eq!(productivity_score(19800, 6, true), 100);
    assert_eq!(productivity_score(100, 20, false), 55);
}

#[test]
fn theme_resolution() {
    assert_eq!(ThemeType::Auto.resolved(true), ThemeType::Dark);
    assert_eq!(ThemeType::Auto.resolved(false), ThemeType::Light);
    assert_eq!(ThemeType::Nord.resolved(false), ThemeType::Nord);
}

#[test]
fn clock_based_navigation_runs() {
    let s = TimeNavigationState::new(1900);
    let c = TimeNavigationController::new(&s);
    assert!(!c.is_current_year());
    assert!(!c.is_current_month());
    assert!(!c.is_current_week());
    assert!(!c.is_current_today());
}

#[test]
fn details_time_filters() {
    let us = vec![AppUsage {
        app_name: "a".into(),
        total_seconds: 0,
        window_events: vec![ev(100, "x", 1, false), ev(5000, "y", 1, false), ev(90000, "z", 1, false)],
    }];
    let mut v = DetailsView::new_at(719170);
    v.update_data(&us);
    assert_eq!(v.filter_data(1000, 50, 0).len(), 3);
    v.set_time_filter(TimeFilter::Today);
    assert_eq!(v.bounds_for(1000, 50, 0, None), RecordBounds::Since(1000));
    assert_eq!(v.filter_data(1000, 50, 0).len(), 2);
    v.set_time_filter(TimeFilter::ThisWeek);
    assert_eq!(v.filter_data(1000, 50, 0).len(), 3);
    v.set_time_filter(TimeFilter::ThisMonth);
    assert_eq!(v.filter_data(1000, 50, 6000).len(), 1);
    v.set_time_filter(TimeFilter::Custom);
    assert_eq!(v.bounds_for(0, 0, 0, None), RecordBounds::Any);
    assert_eq!(v.bounds_for(0, 0, 0, Some(RecordBounds::Between(1, 2))), RecordBounds::Between(1, 2));
    if let Some(RecordBounds::Between(a, z)) = v.custom_bounds() {
        assert!(a.abs() < 86400);
        assert!((z - (7 * 86400 + 86399)).abs() < 86400);
    }
}

#[test]
fn time_ranges() {
    let starts = RangeStarts { today: 100, yesterday: 10, yesterday_end: 99, week_ago: 5, month_ago: 1 };
    assert_eq!(bounds_from(&TimeRange::Today, 150, &starts), (100, 150));
    assert_eq!(bounds_from(&TimeRange::Yesterday, 150, &starts), (10, 99));
    assert_eq!(bounds_from(&TimeRange::Last7Days, 150, &starts), (5, 150));
    assert_eq!(bounds_from(&TimeRange::Last30Days, 150, &starts), (1, 150));
    assert_eq!(bounds_from(&TimeRange::Custom(7, 8), 150, &starts), (7, 8));
    assert!(is_same_range(&TimeRange::Today, &TimeRange::Today));
    assert!(!is_same_range(&TimeRange::Today, &TimeRange::Yesterday));
    assert!(!is_same_range(&TimeRange::Custom(1, 2), &TimeRange::Custom(1, 2)));
    assert_eq!(stats_time_range_bounds(&TimeRange::Custom(3, 4)), Some((3, 4)));
    if let Some((a, b)) = stats_time_range_bounds(&TimeRange::Today) {
        assert!(a <= b);
    }
    if let Some(s) = range_starts_at(1710498600) {
        assert!(s.month_ago < s.week_ago && s.week_ago < s.yesterday && s.yesterday < s.yesterday_end);
        assert!(s.yesterday_end < s.today);
    }
}

#[test]
fn day_numbers_from_clock_readings() {
    assert_eq!(day_number_at(0, Some(0)), 719163);
    assert_eq!(day_number_at(-1, None), 719162);
    assert_eq!(day_number_at(86399, Some(1)), 719164);
    assert_eq!(day_number_at(3600, Some(-7200)), 719162);
    assert_eq!(day_number_at(i64::MAX, None), 719163);
}

#[test]
fn alias_management_and_submit() {
    let mut d = AliasDialog::default();
    d.open_for_app("firefox".into(), Some("FF".into()));
    d.open_for_management(vec![("firefox".into(), "FF".into()), ("kitty".into(), "term".into())]);
    assert!(d.app_name.is_empty() && d.alias.is_empty() && !d.is_edit_mode);
    assert!(d.is_management_view());
    assert_eq!(d.delete_alias(5), None);
    assert!(d.is_open);
    assert_eq!(d.delete_alias(1), Some(("kitty".to_string(), String::new())));
    assert!(!d.is_open && d.aliases.is_empty());

    d.open_for_app("code".into(), None);
    assert_eq!(d.submit(), None);
    assert!(d.is_open);
    d.alias = "VS Code".into();
    assert_eq!(d.submit(), Some(("code".to_string(), "VS Code".to_string())));
    assert!(!d.is_open && d.app_name.is_empty() && d.alias.is_empty());
}

#[test]
fn quick_custom_ranges() {
    // 2024-03-15 is day 738960 (0001-01-01 being day 1).
    let today = 738960;
    assert_eq!(quick_custom_range(today, QuickCustomRange::Last7Days), Some((738953, 738960)));
    assert_eq!(quick_custom_range(today, QuickCustomRange::Last30Days), Some((738930, 738960)));
    assert_eq!(quick_custom_range(today, QuickCustomRange::ThisMonth), Some((738946, 738976)));
    assert_eq!(quick_custom_range(today, QuickCustomRange::LastMonth), Some((738917, 738945)));
    // 2024-01-10: last month is December 2023.
    assert_eq!(quick_custom_range(738895, QuickCustomRange::LastMonth), Some((738855, 738885)));
    assert_eq!(quick_custom_range(738895, QuickCustomRange::ThisMonth), Some((738886, 738916)));
    assert_eq!(quick_custom_range(i32::MIN, QuickCustomRange::Last7Days), None);
    let mut v = DetailsView::new_at(700000);
    v.select_quick_range(today, QuickCustomRange::ThisMonth);
    v.set_time_filter(TimeFilter::Custom);
    if let Some(RecordBounds::Between(a, z)) = v.custom_bounds() {
        assert!((a - 1709251200).abs() < 86400);
        assert!((z - (1711843200 + 86399)).abs() < 86400);
    }
}

#[test]
fn quick_navigation_states() {
    let today = (2024, 3, 15);
    assert_eq!(quick_navigation(today, QuickTimeRange::Today), None);
    let w = quick_navigation(today, QuickTimeRange::ThisWeek).unwrap();
    assert_eq!(w.level, TimeNavigationLevel::Day);
    assert_eq!((w.selected_year, w.selected_month, w.selected_week, w.selected_day), (2024, Some(3), None, None));
    let m = quick_navigation(today, QuickTimeRange::ThisMonth).unwrap();
    assert_eq!(m.level, TimeNavigationLevel::Week);
    assert_eq!(m.selected_month, Some(3));
    let y = quick_navigation(today, QuickTimeRange::ThisYear).unwrap();
    assert_eq!(y, TimeNavigationState::new(2024));
}

#[test]
fn this_week_from_monday() {
    // 2024-03-15 is a Friday; its Monday 2024-03-11 starts at 1710115200 in UTC.
    if let Some((a, b)) = this_week_range(738960) {
        assert_eq!(b - a, 7 * 86400);
        assert!((a - 1710115200).abs() < 86400);
    }
    assert_eq!(this_week_range(i32::MIN), None);
}

#[test]
fn unclassified_applications() {
    let all = vec!["firefox".to_string(), "kitty".to_string(), "code".to_string(), "gimp".to_string()];
    let classified = vec!["kitty".to_string(), "gimp".to_string(), "steam".to_string()];
    assert_eq!(unclassified_apps(&all, &classified), vec!["firefox".to_string(), "code".to_string()]);
    assert_eq!(unclassified_apps(&all, &Vec::new()), all);
    assert!(unclassified_apps(&Vec::new(), &classified).is_empty());
}

#[test]
fn closed_dialogs_do_nothing() {
    let mut d = AliasDialog::default();
    d.app_name = "code".into();
    d.alias = "VS".into();
    assert_eq!(d.submit(), None);
    assert_eq!(d.app_name, "code");
    d.aliases = vec![("a".into(), "b".into())];
    assert_eq!(d.delete_alias(0), None);
    assert_eq!(d.aliases.len(), 1);

    let mut g = AddGoalDialog::new();
    g.app_name = "  firefox ".into();
    assert!(g.confirm().is_none());
    g.open();
    assert!(g.confirm().is_none());
    assert!(g.visible);
    g.app_name = "  firefox ".into();
    g.max_minutes = 90;
    let goal = g.confirm().unwrap();
    assert_eq!(goal.app_name, "firefox");
    assert_eq!(goal.max_minutes, 90);
    assert!(goal.notify_enabled && goal.id.is_none());
    assert!(!g.visible);
}

#[test]
fn date_picker_steps() {
    assert_eq!(step_target((2024, 3, 15), 31, DateStep::PrevYear), Some((2023, 3, 15)));
    assert_eq!(step_target((2024, 3, 15), 31, DateStep::NextMonth), Some((2024, 4, 15)));
    assert_eq!(step_target((2024, 12, 15), 31, DateStep::NextMonth), None);
    assert_eq!(step_target((2024, 1, 15), 31, DateStep::PrevMonth), None);
    assert_eq!(step_target((2024, 3, 31), 31, DateStep::NextDay), None);
    assert_eq!(step_target((2024, 3, 1), 31, DateStep::PrevDay), None);
    assert_eq!(step_target((2024, 3, 30), 31, DateStep::NextDay), Some((2024, 3, 31)));
    // 2024-03-15 (day 738960) is a Friday.
    assert_eq!(weekday_caption(738960), " 周五");
    assert_eq!(weekday_caption(738956), " 周一");
    assert_eq!(weekday_caption(738962), " 周日");

    // From 2024-03-31 a month ahead clamps to 2024-04-30 (day 739006).
    let mut v = DetailsView::new_at(738976);
    v.step_date(false, DateStep::NextMonth);
    v.step_date(true, DateStep::NextYear);
    v.set_time_filter(TimeFilter::Custom);
    if let Some(RecordBounds::Between(a, z)) = v.custom_bounds() {
        // start 2025-03-24, end moved along to it
        assert_eq!(z - a, 86399);
    }
}

#[test]
fn frame_requests() {
    let mut s = RefreshState::new(TimeRange::Today);
    let none = RefreshRequest {
        dashboard: false,
        daily_goals: false,
        stats: false,
        details: false,
        categories: false,
        all_categories: false,
    };
    let r = s.frame_step_at(true, View::Dashboard, None, 1_000_000);
    assert_eq!(r, RefreshRequest { dashboard: true, daily_goals: true, ..none });
    assert!(s.was_visible);
    s.response_at(DataKind::Dashboard, 1_000_000);
    s.response_at(DataKind::DailyGoals, 1_000_000);
    assert_eq!(s.frame_step_at(true, View::Dashboard, None, 1_004_999), none);
    assert_eq!(s.frame_step_at(true, View::Dashboard, None, 1_005_000), RefreshRequest { dashboard: true, daily_goals: true, ..none });
    // Losing and regaining the focus forces the dashboard again.
    s.response_at(DataKind::Dashboard, 1_005_000);
    s.frame_step_at(false, View::Dashboard, None, 1_005_100);
    assert_eq!(s.frame_step_at(true, View::Dashboard, None, 1_005_200).dashboard, true);
    // A new statistics range forces the next statistics request.
    s.response_at(DataKind::Stats, 1_006_000);
    assert_eq!(s.frame_step_at(true, View::Statistics, Some(TimeRange::Yesterday), 1_006_100), none);
    assert_eq!(s.stats_range, TimeRange::Yesterday);
    assert_eq!(s.frame_step_at(true, View::Statistics, None, 1_006_200).stats, true);
    // Records every 10 seconds; the settings view asks for categories while no goals came.
    s.response_at(DataKind::Details, 1_000_000);
    assert_eq!(s.frame_step_at(true, View::Details, None, 1_009_999), none);
    assert_eq!(s.frame_step_at(true, View::Details, None, 1_010_000).details, true);
    assert_eq!(s.frame_step_at(true, View::Settings, None, 1_010_000), none);
    let mut t = RefreshState::new(TimeRange::Today);
    assert_eq!(t.frame_step_at(true, View::Settings, None, 0).all_categories, true);
    t.categories_dirty = true;
    t.response_at(DataKind::Categories, 0);
    assert_eq!(t.frame_step_at(true, View::Categories, None, 1).categories, true);
    assert!(!t.categories_dirty);
    assert_eq!(t.frame_step_at(true, View::Categories, None, 2), none);
}

#[test]
fn category_store_and_refresh() {
    let mut c: CategoryStore<u8, u32> = CategoryStore::new(Arc::new(0));
    assert_eq!(c.get_data_at(0, || Ok(1)), Ok(&1));
    assert_eq!(c.get_data_at(9_999, || Ok(2)), Ok(&1));
    assert_eq!(c.get_data_at(10_000, || Ok(3)), Ok(&3));
    assert_eq!(c.refresh_at(10_001, || Ok(4)), Ok(()));
    assert_eq!(c.get_data_at(10_002, || Ok(5)), Ok(&4));
    assert_eq!(c.refresh_at(10_003, || Err("down".to_string())), Err("down".to_string()));
    assert_eq!(c.get_data_at(10_004, || Ok(6)), Ok(&6));

    let mut stats: StatsStore<u8, u32> = StatsStore::new(Arc::new(0), 2024);
    assert_eq!(stats.refresh_at(0, || Ok(7)), Ok(()));
    assert_eq!(stats.get_data_at(4_999, || Ok(8)), Ok(&7));
    assert_eq!(stats.get_data_at(5_000, || Ok(9)), Ok(&9));

    let mut dash: DashboardStore<u8> = DashboardStore::new(Arc::new(0));
    let data = DashboardData { app_usage: vec![] };
    assert_eq!(dash.refresh_at(0, || Ok(data)), Ok(()));
    assert_eq!(dash.get_total_seconds(), 0);
    let _ = ThemeType::Auto.resolved_by_system();
    assert_eq!(ThemeType::Nord.resolved_by_system(), ThemeType::Nord);
}
