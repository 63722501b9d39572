use vertigo_patterns::analyze_patterns;
use vertigo_patterns::Episode;

fn ep(severity: i32, duration: Option<i32>, triggers: Option<&str>) -> Episode {
    Episode {
        id: 0,
        year: 2025,
        month: 9,
        hour: 10,
        weekday: 2,
        duration_minutes: duration,
        severity,
        triggers: triggers.map(|s| s.to_string()),
    }
}

fn ep_at(severity: i32, hour: u8, weekday: u8) -> Episode {
    Episode {
        id: 0,
        year: 2025,
        month: 9,
        hour,
        weekday,
        duration_minutes: None,
        severity,
        triggers: None,
    }
}

#[test]
fn empty_snapshot_yields_placeholder() {
    let r = analyze_patterns(&Vec::new());
    assert!(r.common_triggers.is_empty());
    assert!(r.severity_patterns.is_empty());
    assert!(r.time_patterns.is_empty());
    assert!(r.risk_factors.is_empty());
    assert_eq!(r.recommendations, vec!["No episodes to analyze yet".to_string()]);
}

#[test]
fn analysis_is_deterministic() {
    let eps = vec![
        ep(5, Some(130), Some("stress, stress")),
        ep(4, None, Some("stress")),
        ep(1, None, Some("none")),
    ];
    let a = analyze_patterns(&eps);
    let b = analyze_patterns(&eps);
    assert_eq!(a.common_triggers, b.common_triggers);
    assert_eq!(a.severity_patterns, b.severity_patterns);
    assert_eq!(a.time_patterns, b.time_patterns);
    assert_eq!(a.risk_factors, b.risk_factors);
    assert_eq!(a.recommendations, b.recommendations);
}

#[test]
fn single_occurrence_is_noise() {
    let eps = vec![ep(3, None, Some("stress")), ep(2, None, Some("coffee"))];
    let r = analyze_patterns(&eps);
    assert!(r.common_triggers.is_empty());
}

#[test]
fn double_occurrence_is_common() {
    let eps = vec![ep(3, None, Some("stress")), ep(2, None, Some("stress"))];
    let r = analyze_patterns(&eps);
    assert_eq!(r.common_triggers, vec!["Stress".to_string()]);
}

#[test]
fn intra_record_duplicates_count() {
    let eps = vec![ep(3, None, Some("stress, stress")), ep(2, None, None)];
    let r = analyze_patterns(&eps);
    assert_eq!(r.common_triggers, vec!["Stress".to_string()]);
}

#[test]
fn normalization_folds_case_and_space() {
    let eps = vec![ep(3, None, Some(" STRESS ")), ep(2, None, Some("stress"))];
    let r = analyze_patterns(&eps);
    assert_eq!(r.common_triggers, vec!["Stress".to_string()]);
}

#[test]
fn sentinels_are_dropped() {
    let eps = vec![
        ep(3, None, Some("unknown, none")),
        ep(2, None, Some("unknown")),
        ep(2, None, Some("none,  ,")),
    ];
    let r = analyze_patterns(&eps);
    assert!(r.common_triggers.is_empty());
}

#[test]
fn triggers_ranked_and_capped_at_five() {
    let eps = vec![
        ep(3, None, Some("a, b, c, d, e, f")),
        ep(3, None, Some("a, b, c, d, e, f")),
        ep(3, None, Some("f")),
    ];
    let r = analyze_patterns(&eps);
    assert_eq!(r.common_triggers.len(), 5);
    assert_eq!(r.common_triggers[0], "F");
    assert_eq!(
        r.common_triggers,
        vec!["F".to_string(), "A".to_string(), "B".to_string(), "C".to_string(), "D".to_string()]
    );
}

#[test]
fn band_statement_moderate() {
    let eps = vec![ep(5, None, None), ep(4, None, None), ep(4, None, None)];
    let r = analyze_patterns(&eps);
    let moderate = "Episodes tend to be moderate to severe in intensity".to_string();
    let mild = "Episodes are generally mild in nature".to_string();
    assert!(r.severity_patterns.contains(&moderate));
    assert!(!r.severity_patterns.contains(&mild));
}

#[test]
fn band_statement_mild() {
    let eps = vec![ep(1, None, None), ep(2, None, None)];
    let r = analyze_patterns(&eps);
    let moderate = "Episodes tend to be moderate to severe in intensity".to_string();
    let mild = "Episodes are generally mild in nature".to_string();
    assert!(r.severity_patterns.contains(&mild));
    assert!(!r.severity_patterns.contains(&moderate));
}

#[test]
fn band_statement_neither_between() {
    // Mean 2.75 lies in [2.5, 3.0]: neither band statement appears.
    let eps = vec![ep(3, None, None), ep(3, None, None), ep(3, None, None), ep(2, None, None)];
    let r = analyze_patterns(&eps);
    let moderate = "Episodes tend to be moderate to severe in intensity".to_string();
    let mild = "Episodes are generally mild in nature".to_string();
    assert!(!r.severity_patterns.contains(&moderate));
    assert!(!r.severity_patterns.contains(&mild));
}

#[test]
fn increasing_trend_detected() {
    // Newest-first severities [5,5,5,1,1,1]: recent mean 5.0, older 1.0.
    let eps = vec![
        ep(5, None, None),
        ep(5, None, None),
        ep(5, None, None),
        ep(1, None, None),
        ep(1, None, None),
        ep(1, None, None),
    ];
    let r = analyze_patterns(&eps);
    let increasing = "Recent episodes show increasing severity trend".to_string();
    assert!(r.severity_patterns.contains(&increasing));
}

#[test]
fn decreasing_trend_detected() {
    let eps = vec![
        ep(1, None, None),
        ep(1, None, None),
        ep(1, None, None),
        ep(5, None, None),
        ep(5, None, None),
    ];
    let r = analyze_patterns(&eps);
    let decreasing = "Recent episodes show decreasing severity trend".to_string();
    assert!(r.severity_patterns.contains(&decreasing));
}

#[test]
fn no_trend_below_three_episodes() {
    let eps = vec![ep(5, None, None), ep(1, None, None)];
    let r = analyze_patterns(&eps);
    let increasing = "Recent episodes show increasing severity trend".to_string();
    let decreasing = "Recent episodes show decreasing severity trend".to_string();
    assert!(!r.severity_patterns.contains(&increasing));
    assert!(!r.severity_patterns.contains(&decreasing));
}

#[test]
fn sparse_buckets_emit_no_time_narrative() {
    // Every hour and every weekday holds exactly one episode.
    let eps = vec![ep_at(3, 8, 0), ep_at(3, 14, 2), ep_at(3, 20, 4)];
    let r = analyze_patterns(&eps);
    for line in &r.time_patterns {
        assert!(!line.starts_with("Episodes occur more frequently"));
        assert!(!line.starts_with("Higher occurrence"));
    }
}

#[test]
fn peak_hour_band_reported() {
    let eps = vec![ep_at(3, 7, 0), ep_at(3, 7, 2), ep_at(3, 20, 4)];
    let r = analyze_patterns(&eps);
    let sentence = "Episodes occur more frequently during morning (6 AM - 12 PM)".to_string();
    assert!(r.time_patterns.contains(&sentence));
}

#[test]
fn peak_weekday_reported() {
    let eps = vec![ep_at(3, 1, 6), ep_at(3, 12, 6), ep_at(3, 20, 4)];
    let r = analyze_patterns(&eps);
    let sentence = "Higher occurrence on Sundays".to_string();
    assert!(r.time_patterns.contains(&sentence));
}

#[test]
fn peak_hour_tie_goes_to_lowest_slot() {
    // Hours 7 and 20 both hold two episodes; the earlier slot wins.
    let eps = vec![ep_at(3, 20, 0), ep_at(3, 20, 1), ep_at(3, 7, 2), ep_at(3, 7, 3)];
    let r = analyze_patterns(&eps);
    let morning = "Episodes occur more frequently during morning (6 AM - 12 PM)".to_string();
    let evening = "Episodes occur more frequently during evening (6 PM - 12 AM)".to_string();
    assert!(r.time_patterns.contains(&morning));
    assert!(!r.time_patterns.contains(&evening));
}

#[test]
fn peak_hour_evening_band() {
    let eps = vec![ep_at(3, 23, 0), ep_at(3, 23, 1)];
    let r = analyze_patterns(&eps);
    let evening = "Episodes occur more frequently during evening (6 PM - 12 AM)".to_string();
    assert!(r.time_patterns.contains(&evening));
}

#[test]
fn peak_hour_early_morning_band() {
    let eps = vec![ep_at(3, 0, 0), ep_at(3, 5, 1), ep_at(3, 0, 2)];
    let r = analyze_patterns(&eps);
    let early = "Episodes occur more frequently during early morning (12 AM - 6 AM)".to_string();
    assert!(r.time_patterns.contains(&early));
}

#[test]
fn long_lasting_durations_reported() {
    let eps = vec![ep(3, Some(90), None), ep(3, Some(80), None)];
    let r = analyze_patterns(&eps);
    let long_lasting = "Episodes tend to be long-lasting (> 1 hour)".to_string();
    assert!(r.time_patterns.contains(&long_lasting));
}

#[test]
fn brief_durations_reported() {
    let eps = vec![ep(3, Some(5), None), ep(3, Some(10), None)];
    let r = analyze_patterns(&eps);
    let brief = "Episodes are typically brief (< 15 minutes)".to_string();
    assert!(r.time_patterns.contains(&brief));
}

#[test]
fn risk_rules_fire() {
    let mut eps = vec![
        ep(5, Some(121), None),
        ep(5, None, None),
        ep(4, None, None),
        ep(2, None, None),
    ];
    for _ in 0..7 {
        eps.push(ep(5, None, None));
    }
    let r = analyze_patterns(&eps);
    assert!(r.risk_factors.contains(&"High frequency of severe episodes".to_string()));
    assert!(r.risk_factors.contains(&"Recent increase in severe episodes".to_string()));
    assert!(r.risk_factors.contains(&"Episodes with extended duration (>2 hours)".to_string()));
    assert!(
        r.risk_factors.contains(
            &"High episode frequency may indicate underlying condition".to_string()
        )
    );
}

#[test]
fn risk_rules_quiet_on_calm_data() {
    let eps = vec![ep(2, Some(30), None), ep(1, None, None), ep(2, None, None)];
    let r = analyze_patterns(&eps);
    assert!(r.risk_factors.is_empty());
}

#[test]
fn recommendations_never_empty() {
    let quiet = vec![ep(3, None, None)];
    let r = analyze_patterns(&quiet);
    assert!(!r.recommendations.is_empty());
    assert_eq!(
        r.recommendations,
        vec![
            "Continue monitoring episodes and maintain consistent logging".to_string(),
            "Focus on identifying potential triggers and patterns".to_string(),
        ]
    );
}

#[test]
fn severe_mean_drives_consultation_advice() {
    let eps = vec![ep(5, None, None), ep(4, None, None), ep(4, None, None)];
    let r = analyze_patterns(&eps);
    assert!(r.recommendations.contains(
        &"Consider consulting with a healthcare provider for recurring severe episodes"
            .to_string()
    ));
    assert!(
        r.recommendations.contains(
            &"Keep a detailed symptom diary for medical appointments".to_string()
        )
    );
}

#[test]
fn mild_mean_drives_affirmation() {
    let eps = vec![ep(1, None, None), ep(2, None, None), ep(2, None, None)];
    let r = analyze_patterns(&eps);
    assert!(r.recommendations.contains(
        &"Continue current management strategies as they appear effective".to_string()
    ));
}

#[test]
fn increasing_trend_drives_monitoring_advice() {
    let eps = vec![
        ep(5, None, None),
        ep(5, None, None),
        ep(5, None, None),
        ep(1, None, None),
        ep(1, None, None),
        ep(1, None, None),
    ];
    let r = analyze_patterns(&eps);
    assert!(r.recommendations.contains(
        &"Monitor for triggers that may be causing worsening symptoms".to_string()
    ));
    assert!(r.recommendations.contains(
        &"Schedule medical evaluation for increasing severity trend".to_string()
    ));
}

#[test]
fn long_episode_drives_positioning_advice() {
    let eps = vec![ep(3, Some(61), None), ep(3, None, None)];
    let r = analyze_patterns(&eps);
    assert!(r.recommendations.contains(
        &"For long-lasting episodes, ensure safe positioning and hydration".to_string()
    ));
}

#[test]
fn scenario_three_records() {
    let eps = vec![
        ep(5, Some(130), Some("stress, stress")),
        ep(4, None, Some("stress")),
        ep(1, None, Some("none")),
    ];
    let r = analyze_patterns(&eps);
    assert_eq!(r.common_triggers, vec!["Stress".to_string()]);
    assert!(r.risk_factors.contains(&"Episodes with extended duration (>2 hours)".to_string()));
    assert!(r.recommendations.contains(
        &"Consider avoiding or managing identified common triggers".to_string()
    ));
    assert!(r.recommendations.contains(&"Pay attention to: Stress".to_string()));
}

#[test]
fn attention_lines_capped_at_three() {
    let eps = vec![
        ep(3, None, Some("a, b, c, d")),
        ep(3, None, Some("a, b, c, d")),
    ];
    let r = analyze_patterns(&eps);
    let attention: Vec<&String> =
        r.recommendations.iter().filter(|s| s.starts_with("Pay attention to: ")).collect();
    assert_eq!(attention.len(), 3);
}
