use chrono::NaiveDate;
use vertigo_patterns::compute_analytics;
use vertigo_patterns::Episode;

fn ep(severity: i32, duration: Option<i32>, triggers: Option<&str>) -> Episode {
    Episode {
        id: 0,
        year: 2025,
        month: 9,
        hour: 10,
        weekday: 2,
        duration_minutes: duration,
        severity,
        triggers: triggers.map(|s| s.to_string()),
    }
}

fn ep_in(year: i32, month: u8, severity: i32) -> Episode {
    Episode {
        id: 0,
        year,
        month,
        hour: 10,
        weekday: 2,
        duration_minutes: None,
        severity,
        triggers: None,
    }
}

#[test]
fn empty_snapshot_all_zero() {
    let a = compute_analytics(&Vec::new());
    assert_eq!(a.total_episodes, 0);
    assert_eq!(a.severity_total, 0);
    assert!(a.severity_distribution.is_empty());
    assert!(a.trigger_frequency.is_empty());
    assert!(a.monthly_trends.is_empty());
    assert_eq!(a.duration_stats.duration_total, 0);
    assert_eq!(a.duration_stats.duration_count, 0);
    assert_eq!(a.duration_stats.median_minutes, 0);
    assert_eq!(a.duration_stats.max_minutes, 0);
    assert_eq!(a.duration_stats.min_minutes, 0);
}

#[test]
fn severity_histogram_counts() {
    let eps = vec![ep(3, None, None), ep(5, None, None), ep(3, None, None)];
    let a = compute_analytics(&eps);
    assert_eq!(a.total_episodes, 3);
    assert_eq!(a.severity_total, 11);
    assert_eq!(a.severity_distribution.len(), 2);
    assert_eq!(a.severity_distribution[0].severity, 3);
    assert_eq!(a.severity_distribution[0].count, 2);
    assert_eq!(a.severity_distribution[1].severity, 5);
    assert_eq!(a.severity_distribution[1].count, 1);
}

#[test]
fn trigger_histogram_is_raw() {
    // Case-preserving, no sentinel filtering, no threshold.
    let eps = vec![ep(3, None, Some("Stress, stress")), ep(2, None, Some("unknown"))];
    let a = compute_analytics(&eps);
    assert_eq!(a.trigger_frequency.len(), 3);
    assert_eq!(a.trigger_frequency[0].trigger, "Stress");
    assert_eq!(a.trigger_frequency[0].count, 1);
    assert_eq!(a.trigger_frequency[1].trigger, "stress");
    assert_eq!(a.trigger_frequency[1].count, 1);
    assert_eq!(a.trigger_frequency[2].trigger, "unknown");
    assert_eq!(a.trigger_frequency[2].count, 1);
}

#[test]
fn trigger_histogram_trims_and_drops_empty() {
    let eps = vec![ep(3, None, Some(" tea , ,coffee")), ep(2, None, Some("tea"))];
    let a = compute_analytics(&eps);
    assert_eq!(a.trigger_frequency.len(), 2);
    assert_eq!(a.trigger_frequency[0].trigger, "tea");
    assert_eq!(a.trigger_frequency[0].count, 2);
    assert_eq!(a.trigger_frequency[1].trigger, "coffee");
    assert_eq!(a.trigger_frequency[1].count, 1);
}

#[test]
fn monthly_trends_grouped() {
    let eps = vec![ep_in(2025, 9, 4), ep_in(2025, 10, 2), ep_in(2025, 9, 1)];
    let a = compute_analytics(&eps);
    assert_eq!(a.monthly_trends.len(), 2);
    assert_eq!(a.monthly_trends[0].month, "2025-09");
    assert_eq!(a.monthly_trends[0].episode_count, 2);
    assert_eq!(a.monthly_trends[0].severity_total, 5);
    assert_eq!(a.monthly_trends[1].month, "2025-10");
    assert_eq!(a.monthly_trends[1].episode_count, 1);
    assert_eq!(a.monthly_trends[1].severity_total, 2);
}

#[test]
fn month_key_pads_single_digit() {
    let eps = vec![ep_in(2024, 1, 3)];
    let a = compute_analytics(&eps);
    assert_eq!(a.monthly_trends[0].month, "2024-01");
    assert_eq!(a.monthly_trends[0].year, 2024);
    assert_eq!(a.monthly_trends[0].month_number, 1);
}

#[test]
fn month_key_handles_negative_year() {
    let eps = vec![ep_in(-44, 3, 2)];
    let a = compute_analytics(&eps);
    assert_eq!(a.monthly_trends[0].month, "-44-03");
}

#[test]
fn duration_stats_exclude_missing() {
    let eps = vec![
        ep(3, Some(10), None),
        ep(3, None, None),
        ep(3, Some(40), None),
        ep(3, Some(20), None),
        ep(3, Some(30), None),
    ];
    let a = compute_analytics(&eps);
    assert_eq!(a.duration_stats.duration_count, 4);
    assert_eq!(a.duration_stats.duration_total, 100);
    // Sorted [10, 20, 30, 40]: the len/2 index is 2, so the median is 30.
    assert_eq!(a.duration_stats.median_minutes, 30);
    assert_eq!(a.duration_stats.max_minutes, 40);
    assert_eq!(a.duration_stats.min_minutes, 10);
}

#[test]
fn duration_stats_odd_length() {
    let eps = vec![ep(3, Some(50), None), ep(3, Some(10), None), ep(3, Some(30), None)];
    let a = compute_analytics(&eps);
    assert_eq!(a.duration_stats.median_minutes, 30);
    assert_eq!(a.duration_stats.max_minutes, 50);
    assert_eq!(a.duration_stats.min_minutes, 10);
}

#[test]
fn timestamp_conversion_fills_calendar_fields() {
    // 2025-09-21 was a Sunday.
    let ts = NaiveDate::from_ymd_opt(2025, 9, 21).unwrap().and_hms_opt(7, 45, 0).unwrap();
    let e = Episode::from_timestamp(9, &ts, Some(90), 4, Some("Unknown".to_string()));
    assert_eq!(e.id, 9);
    assert_eq!(e.year, 2025);
    assert_eq!(e.month, 9);
    assert_eq!(e.hour, 7);
    assert_eq!(e.weekday, 6);
    assert_eq!(e.duration_minutes, Some(90));
    assert_eq!(e.severity, 4);
    assert_eq!(e.triggers, Some("Unknown".to_string()));
}
