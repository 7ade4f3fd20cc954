use tail::aggregation::{format_period_label, DataAggregator};
use tail::chart_data::{
    CategoryColorMap, ChartData, ChartDataBuilder, ChartGroupMode, ChartTimeGranularity, ChartTimeSlot,
    StackedBarTooltip as ChartTooltip, y_axis_ticks,
};
use tail::color::{format_hex, parse_hex_components, parse_hex_rgb, Color};
use tail::duration::{
    duration_parts, format_duration, format_duration_chinese, format_duration_full, format_duration_short,
    format_hours_minutes, format_minutes, format_minutes_chinese,
};
use tail::icons::{icon_name_from_desktop_entry, IconCache};
use tail::models::{AppUsage, TimeNavigationLevel, TimeNavigationState, WindowEvent};
use tail::statistics::{app_table_rows, non_afk_total};
use tail::text::truncate_title;
use tail::stacked_bar::{create_time_slots, create_time_slots_with_offsets, StackedBarTooltip, TimeSlotData};

fn event(ts: i64, secs: i64, afk: bool) -> WindowEvent {
    WindowEvent {
        id: None,
        timestamp: ts,
        app_name: String::new(),
        window_title: String::new(),
        workspace: String::new(),
        duration_secs: secs,
        is_afk: afk,
    }
}

fn usage(name: &str, total: i64, events: Vec<WindowEvent>) -> AppUsage {
    AppUsage { app_name: name.to_string(), total_seconds: total, window_events: events }
}

fn zero_offsets(us: &[AppUsage]) -> Vec<Vec<Option<i32>>> {
    us.iter().map(|u| u.window_events.iter().map(|_| Some(0)).collect()).collect()
}

// 2024-03-15 10:30:00 UTC (a Friday) and 11:05:00; 2024-03-04 09:00 (Monday).
const FRI_1030: i64 = 1710498600;
const FRI_1105: i64 = 1710500700;
const MON_0900: i64 = 1709542800;

fn sample() -> Vec<AppUsage> {
    vec![
        usage("firefox", 700, vec![event(FRI_1030, 300, false), event(FRI_1105, 400, false)]),
        usage("kitty", 150, vec![event(FRI_1030, 100, false), event(MON_0900, 50, true)]),
        usage("", 20, vec![event(FRI_1030, 20, false)]),
    ]
}

#[test]
fn test_get_emoji() {
    let cache = IconCache::new();

    assert_eq!(cache.get_emoji("code"), "VS");
    assert_eq!(cache.get_emoji("Firefox"), "FF");
    assert_eq!(cache.get_emoji("unknown_app"), "AP");
}

#[test]
fn test_partial_match() {
    let cache = IconCache::new();

    assert_eq!(cache.get_emoji("Visual Studio Code"), "VS");
    assert_eq!(cache.get_emoji("Mozilla Firefox"), "FF");
}

#[test]
fn emoji_exact_match_wins() {
    let cache = IconCache::default();
    assert_eq!(cache.get_emoji("KITTY"), ">_");
    assert_eq!(cache.get_emoji("dev.zed.zed"), "ZD");
}

#[test]
fn test_format_duration() {
    assert_eq!(format_duration(0), "0s");
    assert_eq!(format_duration(59), "59s");
    assert_eq!(format_duration(60), "1m 0s");
    assert_eq!(format_duration(3665), "1h 1m");
}

#[test]
fn test_format_duration_full() {
    assert_eq!(format_duration_full(3665), "1h 1m 5s");
}

#[test]
fn test_format_duration_short() {
    assert_eq!(format_duration_short(3665), "1h");
    assert_eq!(format_duration_short(300), "5m");
}

#[test]
fn test_format_duration_chinese() {
    assert_eq!(format_duration_chinese(3665), "1小时1分钟");
    assert_eq!(format_duration_chinese(60), "1分钟");
}

#[test]
fn other_duration_formats() {
    assert_eq!(format_duration_full(125), "2m 5s");
    assert_eq!(format_duration_short(42), "42s");
    assert_eq!(format_duration_chinese(42), "42秒");
    assert_eq!(format_hours_minutes(7260), "2h 1m");
    assert_eq!(format_hours_minutes(59), "0m");
    assert_eq!(format_minutes(90), "1h 30m");
    assert_eq!(format_minutes(45), "45m");
    assert_eq!(format_minutes_chinese(125), "2小时5分钟");
    assert_eq!(format_duration(-59), "-59s");
}

#[test]
fn duration_parts_recombine() {
    for s in [0i64, 1, 59, 60, 3599, 3600, 3665, 86399, -3665, i64::MAX, i64::MIN] {
        let (h, m, x) = duration_parts(s);
        assert_eq!(h as i128 * 3600 + m as i128 * 60 + x as i128, s as i128);
        assert!(m.abs() < 60 && x.abs() < 60);
    }
}

#[test]
fn slot_counts() {
    assert_eq!(ChartTimeGranularity::Year.slot_count(), 12);
    assert_eq!(ChartTimeGranularity::Month.slot_count(), 6);
    assert_eq!(ChartTimeGranularity::Week.slot_count(), 7);
    assert_eq!(ChartTimeGranularity::Day.slot_count(), 24);
    assert_eq!(ChartTimeGranularity::Hour.slot_count(), 60);
}

#[test]
fn time_slot_groups_and_top() {
    let mut slot = ChartTimeSlot::new("9h".to_string(), 9);
    slot.add_group("a".to_string(), 10);
    slot.add_group("b".to_string(), 30);
    slot.add_group("a".to_string(), 5);
    slot.add_group("c".to_string(), 20);
    assert_eq!(slot.total_seconds, 65);
    assert_eq!(slot.group_durations.len(), 3);
    let top = slot.top_groups(2);
    assert_eq!(top, vec![("b".to_string(), 30), ("c".to_string(), 20)]);
    let all = slot.top_groups(10);
    assert_eq!(all.len(), 3);
    assert_eq!(all[2], ("a".to_string(), 15));
    let tooltip = ChartTooltip::new(&slot);
    assert_eq!(tooltip.rows().len(), 3);
}

#[test]
fn chart_data_totals_and_groups() {
    let mut d = ChartData::new(ChartTimeGranularity::Week, ChartGroupMode::ByApp);
    assert_eq!(d.max_seconds(), 0);
    let mut s1 = ChartTimeSlot::new("周一".to_string(), 0);
    s1.add_group("zeta".to_string(), 5);
    s1.add_group("alpha".to_string(), 7);
    let mut s2 = ChartTimeSlot::new("周二".to_string(), 1);
    s2.add_group("beta".to_string(), 40);
    s2.add_group("alpha".to_string(), 1);
    d.add_slot(s1);
    d.add_slot(s2);
    assert_eq!(d.total_seconds, 53);
    assert_eq!(d.max_seconds(), 41);
    assert_eq!(d.all_groups(), vec!["alpha".to_string(), "beta".to_string(), "zeta".to_string()]);
}

#[test]
fn builder_day_slots_by_app() {
    let us = sample();
    let offs = zero_offsets(&us);
    let d = ChartDataBuilder::new(&us).build_with_offsets(&offs);
    assert_eq!(d.time_slots.len(), 24);
    assert_eq!(d.total_seconds, 870);
    assert_eq!(d.time_slots[10].label, "10h");
    assert_eq!(d.time_slots[10].total_seconds, 400);
    assert_eq!(d.time_slots[11].total_seconds, 400);
    assert_eq!(d.time_slots[9].total_seconds, 0);
    let top = d.time_slots[10].top_groups(5);
    assert_eq!(top, vec![("firefox".to_string(), 300), ("kitty".to_string(), 100)]);
}

#[test]
fn builder_offsets_shift_hours() {
    let us = sample();
    let offs: Vec<Vec<Option<i32>>> =
        us.iter().map(|u| u.window_events.iter().map(|_| Some(3600 * 8)).collect()).collect();
    let d = ChartDataBuilder::new(&us).build_with_offsets(&offs);
    assert_eq!(d.time_slots[18].total_seconds, 400);
    assert_eq!(d.time_slots[19].total_seconds, 400);
}

#[test]
fn builder_by_category_and_range() {
    let us = sample();
    let offs = zero_offsets(&us);
    let d = ChartDataBuilder::new(&us)
        .with_group_mode(ChartGroupMode::ByCategory)
        .with_time_range(FRI_1030, FRI_1105)
        .build_with_offsets(&offs);
    assert_eq!(d.time_slots[10].group_durations, vec![("未分类".to_string(), 400)]);
    assert_eq!(d.time_slots[11].total_seconds, 0);
}

#[test]
fn builder_week_month_year_hour() {
    let us = sample();
    let offs = zero_offsets(&us);
    let w = ChartDataBuilder::new(&us).with_granularity(ChartTimeGranularity::Week).build_with_offsets(&offs);
    assert_eq!(w.time_slots[4].label, "周五");
    assert_eq!(w.time_slots[4].total_seconds, 800);
    assert_eq!(w.time_slots[0].total_seconds, 0);
    let m = ChartDataBuilder::new(&us).with_granularity(ChartTimeGranularity::Month).build_with_offsets(&offs);
    assert_eq!(m.time_slots.len(), 1);
    assert_eq!(m.time_slots[0].label, "第3周");
    assert_eq!(m.time_slots[0].index, 2);
    let y = ChartDataBuilder::new(&us).with_granularity(ChartTimeGranularity::Year).build_with_offsets(&offs);
    assert_eq!(y.time_slots[2].label, "3月");
    assert_eq!(y.time_slots[2].total_seconds, 800);
    let h = ChartDataBuilder::new(&us).with_granularity(ChartTimeGranularity::Hour).build_with_offsets(&offs);
    assert_eq!(h.time_slots[30].total_seconds, 400);
    assert_eq!(h.time_slots[5].total_seconds, 400);
    let local = ChartDataBuilder::new(&us).build();
    assert_eq!(local.time_slots.len(), 24);
    assert_eq!(local.total_seconds, 870);
}

#[test]
fn category_colors() {
    let mut map = CategoryColorMap::new();
    assert_eq!(map.get("工作"), Some(Color::from_rgb(74, 144, 226)));
    assert_eq!(map.get("未分类"), Some(Color::from_gray(150)));
    assert_eq!(map.get("other"), None);
    assert_eq!(map.other_color(), Color::from_gray(150));
    map.insert("游戏".to_string(), Color::from_rgb(1, 2, 3));
    let groups = vec!["游戏".to_string(), "x".to_string(), "y".to_string(), "开发".to_string()];
    let assigned = map.assign_colors(&groups);
    assert_eq!(assigned.len(), 4);
    assert_eq!(assigned[0], ("游戏".to_string(), Color::from_rgb(1, 2, 3)));
    assert_eq!(assigned[1], ("x".to_string(), Color::from_rgb(52, 168, 83)));
    assert_eq!(assigned[2], ("y".to_string(), Color::from_rgb(255, 205, 86)));
    assert_eq!(assigned[3], ("开发".to_string(), Color::from_rgb(52, 168, 83)));
    let twice = map.assign_colors(&["x".to_string(), "x".to_string()]);
    assert_eq!(twice, vec![("x".to_string(), Color::from_rgb(52, 168, 83))]);
}

#[test]
fn hex_colors() {
    assert_eq!(parse_hex_rgb("#4A90E2"), Some(Color::from_rgb(74, 144, 226)));
    assert_eq!(parse_hex_rgb("##4a90e2"), Some(Color::from_rgb(74, 144, 226)));
    assert_eq!(parse_hex_rgb("4A90E"), None);
    assert_eq!(parse_hex_rgb("#4A90G2"), None);
    assert_eq!(parse_hex_rgb("#+f+f+f"), Some(Color::from_rgb(15, 15, 15)));
    let c = Color { r: 1, g: 171, b: 255, a: 16 };
    let s = format_hex(c);
    assert_eq!(s, "#01abff10");
    assert_eq!(parse_hex_components(&s), Some((1, 171, 255, Some(16))));
    assert_eq!(parse_hex_components("#010203"), Some((1, 2, 3, None)));
    assert_eq!(parse_hex_components("#0102030"), None);
    assert_eq!(Color::from_rgb(1, 2, 3).to_array(), [1, 2, 3, 255]);
}

fn state(level: TimeNavigationLevel, m: Option<u32>, w: Option<u32>, d: Option<u32>) -> TimeNavigationState {
    TimeNavigationState { level, selected_year: 2024, selected_month: m, selected_week: w, selected_day: d }
}

#[test]
fn aggregation_levels() {
    let us = sample();
    let offs = zero_offsets(&us);
    let agg = DataAggregator::new(&us);
    assert!(agg.aggregate_with_offsets(&state(TimeNavigationLevel::Year, None, None, None), &offs).is_empty());

    let months = agg.aggregate_with_offsets(&TimeNavigationState::new(2024), &offs);
    assert_eq!(months.len(), 12);
    assert_eq!(months[2].label, "3月");
    assert_eq!(months[2].index, 3);
    // Away time (kitty's 50 s on Monday the 4th) counts for no period.
    assert_eq!(months[2].total_seconds, 820);
    assert_eq!(months[0].total_seconds, 0);

    let weeks = agg.aggregate_with_offsets(&state(TimeNavigationLevel::Week, Some(3), None, None), &offs);
    assert_eq!(weeks.len(), 5);
    assert_eq!(weeks[1].label, "第2周");
    assert_eq!(weeks[1].total_seconds, 0);
    assert_eq!(weeks[2].total_seconds, 820);

    let days = agg.aggregate_with_offsets(&state(TimeNavigationLevel::Day, Some(3), Some(2), None), &offs);
    assert_eq!(days.len(), 7);
    assert_eq!(days[0].label, "周一");
    assert_eq!(days[0].index, 4);
    assert_eq!(days[0].total_seconds, 0);
    assert_eq!(days[6].label, "周日");
    assert_eq!(days[6].index, 10);

    let first_week = agg.aggregate_with_offsets(&state(TimeNavigationLevel::Day, Some(3), None, None), &offs);
    assert_eq!(first_week[0].label, "周五");
    assert_eq!(first_week[0].index, 1);

    let hours = agg.aggregate_with_offsets(&state(TimeNavigationLevel::Hour, Some(3), None, Some(15)), &offs);
    assert_eq!(hours.len(), 24);
    assert_eq!(hours[10].label, "10时");
    assert_eq!(hours[10].total_seconds, 420);
    assert_eq!(hours[11].total_seconds, 400);

    let local = agg.aggregate(&TimeNavigationState::new(2024));
    assert_eq!(local.len(), 12);
}

#[test]
fn period_labels() {
    assert_eq!(format_period_label(TimeNavigationLevel::Month, "3月"), "3");
    assert_eq!(format_period_label(TimeNavigationLevel::Week, "第2周"), "W2");
    assert_eq!(format_period_label(TimeNavigationLevel::Day, "周一"), "一");
    assert_eq!(format_period_label(TimeNavigationLevel::Hour, "10时"), "10");
    assert_eq!(format_period_label(TimeNavigationLevel::Year, "2024"), "2024");
}

#[test]
fn dashboard_hours() {
    let us = sample();
    let offs = zero_offsets(&us);
    let slots = create_time_slots_with_offsets(&us, &offs);
    assert_eq!(slots.len(), 24);
    assert_eq!(slots[10].hour, 10);
    assert_eq!(slots[10].total_seconds, 400);
    assert_eq!(slots[9].total_seconds, 0);
    let tooltip = StackedBarTooltip::for_slot(&slots[10]);
    assert_eq!(tooltip.hour, 10);
    assert_eq!(tooltip.top_apps, vec![("firefox".to_string(), 300), ("kitty".to_string(), 100)]);

    let mut t = TimeSlotData::new(3);
    t.add_app("a".to_string(), 5);
    t.add_app("a".to_string(), 6);
    assert_eq!(t.total_seconds, 11);
    assert_eq!(t.app_durations, vec![("a".to_string(), 11)]);
}

#[test]
fn axis_label_slots() {
    assert_eq!(ChartTimeGranularity::Hour.label_indices(60), vec![0, 10, 20, 30, 40, 50]);
    assert_eq!(ChartTimeGranularity::Hour.label_indices(61), vec![0, 10, 20, 30, 40, 50, 60]);
    assert_eq!(ChartTimeGranularity::Day.label_indices(24), vec![0, 6, 12, 18]);
    assert_eq!(ChartTimeGranularity::Week.label_indices(7), vec![0, 1, 2, 3, 4, 5, 6]);
    assert_eq!(ChartTimeGranularity::Month.label_indices(0), Vec::<usize>::new());
}

#[test]
fn desktop_entry_icons() {
    let entry = "[Desktop Entry]\r\nName=Firefox\r\n  Icon=firefox  \r\nIcon=other\n";
    assert_eq!(icon_name_from_desktop_entry(entry), Some("firefox".to_string()));
    assert_eq!(icon_name_from_desktop_entry("Name=x\nIcon=/usr/share/x.png"), Some("/usr/share/x.png".to_string()));
    assert_eq!(icon_name_from_desktop_entry("Name=x\nIcons=y\n"), None);
    assert_eq!(icon_name_from_desktop_entry(""), None);
    assert_eq!(icon_name_from_desktop_entry("Icon="), Some(String::new()));
}

#[test]
fn clock_based_variants_run() {
    let us = sample();
    let slots = create_time_slots(&us);
    assert_eq!(slots.len(), 24);
    let total: i64 = slots.iter().map(|s| s.total_seconds).sum();
    assert_eq!(total, 800);
}

#[test]
fn charts_and_aggregates_conserve_time() {
    let us = sample();
    let offs = zero_offsets(&us);
    for g in [ChartTimeGranularity::Day, ChartTimeGranularity::Hour, ChartTimeGranularity::Week, ChartTimeGranularity::Year] {
        let d = ChartDataBuilder::new(&us).with_granularity(g).build_with_offsets(&offs);
        let sum: i64 = d.time_slots.iter().map(|s| s.total_seconds).sum();
        assert_eq!(sum, 800);
        for s in &d.time_slots {
            let groups: i64 = s.group_durations.iter().map(|(_, v)| v).sum();
            assert_eq!(groups, s.total_seconds);
        }
    }
    let agg = DataAggregator::new(&us);
    let months = agg.aggregate_with_offsets(&TimeNavigationState::new(2024), &offs);
    assert_eq!(months.iter().map(|p| p.total_seconds).sum::<i64>(), 820);
    let hours = agg.aggregate_with_offsets(
        &TimeNavigationState {
            level: TimeNavigationLevel::Hour,
            selected_year: 2024,
            selected_month: Some(3),
            selected_week: None,
            selected_day: Some(15),
        },
        &offs,
    );
    assert_eq!(hours.iter().map(|p| p.total_seconds).sum::<i64>(), 820);
}

#[test]
fn app_table_longest_first() {
    let us = vec![
        usage("kitty", 150, vec![event(FRI_1030, 100, false), event(MON_0900, 50, true)]),
        usage("firefox", 700, vec![event(FRI_1030, 300, false), event(FRI_1105, 400, false)]),
        usage("", 20, vec![event(FRI_1030, 20, false)]),
        usage("code", 100, vec![event(FRI_1105, 100, false)]),
    ];
    let rows = app_table_rows(&us);
    assert_eq!(
        rows,
        vec![("firefox".to_string(), 700), ("kitty".to_string(), 100), ("code".to_string(), 100)]
    );
    assert_eq!(non_afk_total(&us), 920);
    assert!(app_table_rows(&[]).is_empty());
    assert_eq!(non_afk_total(&[]), 0);
}

#[test]
fn long_titles_are_shortened() {
    assert_eq!(truncate_title("short title"), "short title");
    let fifty: String = "a".repeat(50);
    assert_eq!(truncate_title(&fifty), fifty);
    let long: String = "窗".repeat(51);
    let shown = truncate_title(&long);
    assert_eq!(shown.chars().count(), 50);
    assert_eq!(shown, format!("{}...", "窗".repeat(47)));
}

#[test]
fn axis_ticks_quarter_the_top() {
    assert_eq!(y_axis_ticks(0), vec![0, 15, 30, 45, 60]);
    assert_eq!(y_axis_ticks(59), vec![0, 15, 30, 45, 60]);
    assert_eq!(y_axis_ticks(3601), vec![0, 900, 1800, 2700, 3601]);
}

#[test]
fn chart_modes_agree_on_slots() {
    let us = sample();
    let offs = zero_offsets(&us);
    for g in [
        ChartTimeGranularity::Day,
        ChartTimeGranularity::Hour,
        ChartTimeGranularity::Week,
        ChartTimeGranularity::Month,
        ChartTimeGranularity::Year,
    ] {
        let x = ChartDataBuilder::new(&us).with_granularity(g).build_with_offsets(&offs);
        let y = ChartDataBuilder::new(&us)
            .with_granularity(g)
            .with_group_mode(ChartGroupMode::ByCategory)
            .build_with_offsets(&offs);
        assert_eq!(x.time_slots.len(), y.time_slots.len());
        assert_eq!(x.total_seconds, y.total_seconds);
        for (a, b) in x.time_slots.iter().zip(y.time_slots.iter()) {
            assert_eq!(a.index, b.index);
            assert_eq!(a.total_seconds, b.total_seconds);
            assert!(b.group_durations.iter().all(|(k, _)| k == "未分类"));
        }
    }
}
