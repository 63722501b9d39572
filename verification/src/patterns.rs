//! The full pattern analysis: the four analyzers and the synthesizer,
//! composed over one snapshot.

use vstd::prelude::*;

use crate::episode::{snapshot_wf, Episode};
use crate::recommend::{generate_pattern_recommendations, spec_recommendations};
use crate::risk::{identify_risk_factors, spec_risk_factors};
use crate::severity::{analyze_severity_patterns, spec_severity_patterns};
use crate::temporal::{analyze_time_patterns, spec_time_patterns};
use crate::text::{push_sentence, str_views};
use crate::triggers::{identify_common_triggers, spec_common_triggers};

verus! {

/// The analysis result: human-readable sentences, list by list.
pub struct PatternAnalysis {
    pub common_triggers: Vec<String>,
    pub severity_patterns: Vec<String>,
    pub time_patterns: Vec<String>,
    pub recommendations: Vec<String>,
    pub risk_factors: Vec<String>,
}

pub open spec fn no_episodes_msg() -> Seq<char> {
    "No episodes to analyze yet"@
}

/// The recommendation list of the full analysis: a single placeholder
/// for an empty snapshot, the synthesized list otherwise.
pub open spec fn spec_pattern_recommendations(s: Seq<Episode>) -> Seq<Seq<char>> {
    if s.len() == 0 {
        seq![no_episodes_msg()]
    } else {
        spec_recommendations(s, spec_common_triggers(s), spec_severity_patterns(s))
    }
}

/// Runs every analyzer over one snapshot.
///
/// The snapshot is the caller's contract: ordered newest-first, episodes
/// well formed.  The result is a pure function of it; an empty snapshot
/// yields empty lists and a single placeholder recommendation.
pub fn analyze_patterns(episodes: &Vec<Episode>) -> (r: PatternAnalysis)
    requires
        snapshot_wf(episodes@),
    ensures
        str_views(r.common_triggers@) == spec_common_triggers(episodes@),
        str_views(r.severity_patterns@) == spec_severity_patterns(episodes@),
        str_views(r.time_patterns@) == spec_time_patterns(episodes@),
        str_views(r.risk_factors@) == spec_risk_factors(episodes@),
        str_views(r.recommendations@) == spec_pattern_recommendations(episodes@),
        r.recommendations@.len() > 0,
{
    if episodes.len() == 0 {
        let mut recs: Vec<String> = Vec::new();
        push_sentence(&mut recs, "No episodes to analyze yet");
        let r = PatternAnalysis {
            common_triggers: Vec::new(),
            severity_patterns: Vec::new(),
            time_patterns: Vec::new(),
            recommendations: recs,
            risk_factors: Vec::new(),
        };
        proof {
            assert(str_views(r.common_triggers@) =~= spec_common_triggers(episodes@));
            assert(str_views(r.severity_patterns@) =~= spec_severity_patterns(episodes@));
            assert(str_views(r.time_patterns@) =~= spec_time_patterns(episodes@));
            assert(str_views(r.risk_factors@) =~= spec_risk_factors(episodes@));
            assert(str_views(r.recommendations@) =~= seq![no_episodes_msg()]);
        }
        return r;
    }
    let common_triggers = identify_common_triggers(episodes);
    let severity_patterns = analyze_severity_patterns(episodes);
    let time_patterns = analyze_time_patterns(episodes);
    let risk_factors = identify_risk_factors(episodes);
    let recommendations = generate_pattern_recommendations(
        episodes,
        &common_triggers,
        &severity_patterns,
    );
    PatternAnalysis { common_triggers, severity_patterns, time_patterns, recommendations, risk_factors }
}

} // verus!
