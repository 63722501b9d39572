//! Episode-level advice: the deterministic fallback analysis, the
//! keyword-driven recommendation extractor, and the prompt composed for
//! an external explanatory-text source.  The external call itself lives
//! outside this crate; everything here is a pure function of the
//! request.

use vstd::prelude::*;

use vstd::string::StringExecFns;

use crate::numfmt::{dec_chars_int, format_i64};
use crate::text::{
    chars_to_string, contains_chars, contains_seq, lower_of, lowercase_str, push_sentence,
    str_to_chars, str_views,
};

verus! {

/// One episode description submitted for analysis.
pub struct AnalysisRequest {
    pub symptoms: String,
    pub triggers: Option<String>,
    pub severity: Option<i32>,
}

/// The analysis text with its recommendations.
pub struct AnalysisResponse {
    pub analysis: String,
    pub recommendations: Vec<String>,
    /// Confidence of the source, in percent.
    pub confidence_percent: u8,
}

/// The severity a request is read with: 3 when absent.
pub open spec fn request_severity(r: Option<i32>) -> int {
    match r {
        Some(s) => s as int,
        None => 3,
    }
}

pub open spec fn mock_text(sev: int) -> Seq<char> {
    if 1 <= sev <= 2 {
        "Mild vertigo episode. Symptoms appear manageable. Consider rest and hydration."@
    } else if sev == 3 {
        "Moderate vertigo episode. Monitor symptoms and consider identifying triggers."@
    } else if 4 <= sev <= 5 {
        "Significant vertigo episode. Consider consulting healthcare provider if symptoms persist."@
    } else {
        "Unable to assess severity. Please provide valid severity rating (1-5)."@
    }
}

pub open spec fn mock_recommendations(sev: int) -> Seq<Seq<char>> {
    seq![
        "Rest in a comfortable position"@,
        "Stay hydrated"@,
        "Avoid sudden movements"@,
        if sev >= 4 {
            "Consider medical consultation"@
        } else {
            "Monitor for improvement"@
        },
    ]
}

/// The deterministic fallback analysis of one episode: a severity-band
/// text, four fixed recommendations, confidence 70 percent.
pub fn mock_analysis(request: &AnalysisRequest) -> (r: AnalysisResponse)
    ensures
        r.analysis@ == mock_text(request_severity(request.severity)),
        str_views(r.recommendations@) == mock_recommendations(request_severity(request.severity)),
        r.confidence_percent == 70,
{
    let severity = match request.severity {
        Some(s) => s,
        None => 3,
    };
    let analysis = if 1 <= severity && severity <= 2 {
        String::from_str("Mild vertigo episode. Symptoms appear manageable. Consider rest and hydration.")
    } else if severity == 3 {
        String::from_str("Moderate vertigo episode. Monitor symptoms and consider identifying triggers.")
    } else if 4 <= severity && severity <= 5 {
        String::from_str("Significant vertigo episode. Consider consulting healthcare provider if symptoms persist.")
    } else {
        String::from_str("Unable to assess severity. Please provide valid severity rating (1-5).")
    };
    let mut recommendations: Vec<String> = Vec::new();
    push_sentence(&mut recommendations, "Rest in a comfortable position");
    push_sentence(&mut recommendations, "Stay hydrated");
    push_sentence(&mut recommendations, "Avoid sudden movements");
    if severity >= 4 {
        push_sentence(&mut recommendations, "Consider medical consultation");
    } else {
        push_sentence(&mut recommendations, "Monitor for improvement");
    }
    proof {
        assert(str_views(recommendations@) =~= mock_recommendations(
            request_severity(request.severity),
        ));
    }
    AnalysisResponse { analysis, recommendations, confidence_percent: 70 }
}

pub open spec fn rest_rec() -> Seq<char> {
    "Consider resting in a quiet environment"@
}

pub open spec fn hydration_rec() -> Seq<char> {
    "Maintain adequate hydration"@
}

pub open spec fn professional_rec() -> Seq<char> {
    "Consider consulting a healthcare professional"@
}

pub open spec fn track_rec() -> Seq<char> {
    "Track and avoid identified triggers"@
}

pub open spec fn persistent_rec() -> Seq<char> {
    "Monitor symptoms and seek medical advice if persistent"@
}

/// The recommendations read off an analysis text: one per keyword family
/// found in its lower-cased form, with a fixed fallback when none is.
pub open spec fn spec_extract(s: Seq<char>) -> Seq<Seq<char>> {
    let low = lower_of(s);
    let base = (if contains_seq(low, "rest"@) {
        seq![rest_rec()]
    } else {
        Seq::empty()
    }) + (if contains_seq(low, "hydration"@) || contains_seq(low, "water"@) {
        seq![hydration_rec()]
    } else {
        Seq::empty()
    }) + (if contains_seq(low, "doctor"@) || contains_seq(low, "medical"@) {
        seq![professional_rec()]
    } else {
        Seq::empty()
    }) + (if contains_seq(low, "trigger"@) {
        seq![track_rec()]
    } else {
        Seq::empty()
    });
    if base.len() == 0 {
        seq![persistent_rec()]
    } else {
        base
    }
}

/// Extracts recommendations from an analysis text, computed.
#[verifier::loop_isolation(false)]
pub fn extract_recommendations(analysis: &str) -> (r: Vec<String>)
    ensures
        str_views(r@) == spec_extract(analysis@),
        r@.len() > 0,
{
    let lowered = lowercase_str(analysis);
    let low = str_to_chars(lowered.as_str());
    let mut out: Vec<String> = Vec::new();
    if contains_chars(&low, &str_to_chars("rest")) {
        push_sentence(&mut out, "Consider resting in a quiet environment");
    }
    if contains_chars(&low, &str_to_chars("hydration")) || contains_chars(
        &low,
        &str_to_chars("water"),
    ) {
        push_sentence(&mut out, "Maintain adequate hydration");
    }
    if contains_chars(&low, &str_to_chars("doctor")) || contains_chars(
        &low,
        &str_to_chars("medical"),
    ) {
        push_sentence(&mut out, "Consider consulting a healthcare professional");
    }
    if contains_chars(&low, &str_to_chars("trigger")) {
        push_sentence(&mut out, "Track and avoid identified triggers");
    }
    if out.len() == 0 {
        push_sentence(&mut out, "Monitor symptoms and seek medical advice if persistent");
    }
    proof {
        assert(str_views(out@) =~= spec_extract(analysis@));
    }
    out
}

pub open spec fn prompt_head() -> Seq<char> {
    "As a medical AI assistant, analyze this vertigo episode:\n\nSymptoms: "@
}

pub open spec fn prompt_triggers_label() -> Seq<char> {
    "\nTriggers: "@
}

pub open spec fn prompt_severity_label() -> Seq<char> {
    "\nSeverity (1-5): "@
}

pub open spec fn prompt_tail() -> Seq<char> {
    "\n\nPlease provide:\n1. Brief analysis of the episode\n2. Possible causes\n3. Recommendations for management\n4. When to seek medical attention\n\nKeep response concise and medical-focused."@
}

pub open spec fn not_specified() -> Seq<char> {
    "Not specified"@
}

/// The prompt text for one request.
pub open spec fn spec_prompt(symptoms: Seq<char>, triggers: Option<Seq<char>>, severity: int) -> Seq<
    char,
> {
    prompt_head() + symptoms + prompt_triggers_label() + (match triggers {
        Some(t) => t,
        None => not_specified(),
    }) + prompt_severity_label() + dec_chars_int(severity) + prompt_tail()
}

/// The prompt handed to the external explanatory-text source: the
/// symptoms, the triggers (or a placeholder), and the severity (0 when
/// absent), embedded in a fixed instruction frame.
pub fn create_medical_prompt(request: &AnalysisRequest) -> (r: String)
    ensures
        r@ == spec_prompt(
            request.symptoms@,
            match request.triggers {
                Some(t) => Some(t@),
                None => None,
            },
            match request.severity {
                Some(s) => s as int,
                None => 0,
            },
        ),
{
    let mut r = String::from_str(
        "As a medical AI assistant, analyze this vertigo episode:\n\nSymptoms: ",
    );
    r.append(request.symptoms.as_str());
    r.append("\nTriggers: ");
    match &request.triggers {
        Some(t) => r.append(t.as_str()),
        None => r.append("Not specified"),
    }
    r.append("\nSeverity (1-5): ");
    let severity: i32 = match request.severity {
        Some(s) => s,
        None => 0,
    };
    let digits = format_i64(severity as i64);
    let digits_str = chars_to_string(&digits);
    r.append(digits_str.as_str());
    r.append(
        "\n\nPlease provide:\n1. Brief analysis of the episode\n2. Possible causes\n3. Recommendations for management\n4. When to seek medical attention\n\nKeep response concise and medical-focused.",
    );
    r
}

} // verus!
