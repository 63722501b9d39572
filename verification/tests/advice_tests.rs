use vertigo_patterns::advice::{create_medical_prompt, extract_recommendations, mock_analysis};
use vertigo_patterns::analyze_patterns;
use vertigo_patterns::AnalysisRequest;
use vertigo_patterns::Episode;
use vertigo_patterns::PDFReportGenerator;

fn request(severity: Option<i32>) -> AnalysisRequest {
    AnalysisRequest {
        symptoms: "Spinning sensation".to_string(),
        triggers: Some("Standing up quickly".to_string()),
        severity,
    }
}

#[test]
fn mock_analysis_mild_band() {
    let r = mock_analysis(&request(Some(2)));
    assert_eq!(
        r.analysis,
        "Mild vertigo episode. Symptoms appear manageable. Consider rest and hydration."
    );
    assert_eq!(r.confidence_percent, 70);
    assert_eq!(r.recommendations.len(), 4);
    assert_eq!(r.recommendations[3], "Monitor for improvement");
}

#[test]
fn mock_analysis_defaults_to_moderate() {
    let r = mock_analysis(&request(None));
    assert_eq!(
        r.analysis,
        "Moderate vertigo episode. Monitor symptoms and consider identifying triggers."
    );
}

#[test]
fn mock_analysis_severe_band() {
    let r = mock_analysis(&request(Some(5)));
    assert_eq!(
        r.analysis,
        "Significant vertigo episode. Consider consulting healthcare provider if symptoms persist."
    );
    assert_eq!(r.recommendations[3], "Consider medical consultation");
}

#[test]
fn mock_analysis_out_of_range() {
    let r = mock_analysis(&request(Some(9)));
    assert_eq!(
        r.analysis,
        "Unable to assess severity. Please provide valid severity rating (1-5)."
    );
}

#[test]
fn extract_recommendations_keywords() {
    let r = extract_recommendations("Plenty of REST and water; see your doctor about triggers.");
    assert_eq!(
        r,
        vec![
            "Consider resting in a quiet environment".to_string(),
            "Maintain adequate hydration".to_string(),
            "Consider consulting a healthcare professional".to_string(),
            "Track and avoid identified triggers".to_string(),
        ]
    );
}

#[test]
fn extract_recommendations_fallback() {
    let r = extract_recommendations("Nothing of note.");
    assert_eq!(
        r,
        vec!["Monitor symptoms and seek medical advice if persistent".to_string()]
    );
}

#[test]
fn medical_prompt_embeds_fields() {
    let p = create_medical_prompt(&request(Some(4)));
    assert_eq!(
        p,
        "As a medical AI assistant, analyze this vertigo episode:\n\n\
         Symptoms: Spinning sensation\n\
         Triggers: Standing up quickly\n\
         Severity (1-5): 4\n\n\
         Please provide:\n\
         1. Brief analysis of the episode\n\
         2. Possible causes\n\
         3. Recommendations for management\n\
         4. When to seek medical attention\n\n\
         Keep response concise and medical-focused."
    );
}

#[test]
fn medical_prompt_placeholders() {
    let r = AnalysisRequest { symptoms: "Dizzy".to_string(), triggers: None, severity: None };
    let p = create_medical_prompt(&r);
    assert!(p.contains("Triggers: Not specified"));
    assert!(p.contains("Severity (1-5): 0"));
}

#[test]
fn report_sections_follow_page_order() {
    let eps = vec![
        Episode {
            id: 0,
            year: 2025,
            month: 9,
            hour: 10,
            weekday: 2,
            duration_minutes: Some(130),
            severity: 5,
            triggers: Some("stress".to_string()),
        },
        Episode {
            id: 1,
            year: 2025,
            month: 9,
            hour: 10,
            weekday: 2,
            duration_minutes: None,
            severity: 4,
            triggers: Some("stress".to_string()),
        },
    ];
    let patterns = analyze_patterns(&eps);
    let lines = PDFReportGenerator::report_sections(&patterns);
    assert_eq!(lines[0], "IDENTIFIED TRIGGERS");
    assert_eq!(lines[1], "• Stress");
    assert!(lines.contains(&"SEVERITY PATTERNS".to_string()));
    assert!(lines.contains(&"RISK FACTORS".to_string()));
    assert!(lines.contains(&"! Episodes with extended duration (>2 hours)".to_string()));
    assert!(lines.contains(&"RECOMMENDATIONS".to_string()));
    assert!(lines.contains(&"- Pay attention to: Stress".to_string()));
}

#[test]
fn report_omits_empty_sections() {
    let patterns = analyze_patterns(&Vec::new());
    let lines = PDFReportGenerator::report_sections(&patterns);
    assert!(!lines.contains(&"IDENTIFIED TRIGGERS".to_string()));
    assert!(!lines.contains(&"TIME PATTERNS".to_string()));
    assert_eq!(lines[0], "RECOMMENDATIONS");
    assert_eq!(lines[1], "- No episodes to analyze yet");
}
