//! The recommendation synthesizer.
//!
//! Composes the trigger list and the severity narratives with its own
//! thresholds (mean above 3.5 for consultation advice, below 2.0 for
//! affirmation — deliberately distinct from the narrative bands), adds
//! trend- and duration-driven advice, and falls back to two generic
//! monitoring suggestions so the list is never empty.

use vstd::prelude::*;

use vstd::string::StringExecFns;

use crate::episode::{any_duration_over, has_duration_over, sev_sum, severity_total, Episode};
use crate::text::{contains_chars, contains_seq, push_sentence, str_to_chars, str_views};

verus! {

pub open spec fn avoid_msg() -> Seq<char> {
    "Consider avoiding or managing identified common triggers"@
}

pub open spec fn attention_prefix() -> Seq<char> {
    "Pay attention to: "@
}

pub open spec fn consult_msg() -> Seq<char> {
    "Consider consulting with a healthcare provider for recurring severe episodes"@
}

pub open spec fn diary_msg() -> Seq<char> {
    "Keep a detailed symptom diary for medical appointments"@
}

pub open spec fn continue_msg() -> Seq<char> {
    "Continue current management strategies as they appear effective"@
}

pub open spec fn monitor_triggers_msg() -> Seq<char> {
    "Monitor for triggers that may be causing worsening symptoms"@
}

pub open spec fn schedule_msg() -> Seq<char> {
    "Schedule medical evaluation for increasing severity trend"@
}

pub open spec fn positioning_msg() -> Seq<char> {
    "For long-lasting episodes, ensure safe positioning and hydration"@
}

pub open spec fn fallback_monitor_msg() -> Seq<char> {
    "Continue monitoring episodes and maintain consistent logging"@
}

pub open spec fn fallback_focus_msg() -> Seq<char> {
    "Focus on identifying potential triggers and patterns"@
}

/// The phrase whose presence in a severity narrative triggers the
/// trend-driven advice.
pub open spec fn increasing_phrase() -> Seq<char> {
    "increasing severity"@
}

/// At most the first three entries.
pub open spec fn take_up_to_3(s: Seq<Seq<char>>) -> Seq<Seq<char>> {
    if s.len() <= 3 {
        s
    } else {
        s.take(3)
    }
}

/// One "pay attention" line for each of the first three triggers.
pub open spec fn attention_lines(ts: Seq<Seq<char>>) -> Seq<Seq<char>> {
    take_up_to_3(ts).map_values(|t: Seq<char>| attention_prefix() + t)
}

/// The trigger-driven advice.
pub open spec fn trigger_seg(ts: Seq<Seq<char>>) -> Seq<Seq<char>> {
    if ts.len() > 0 {
        seq![avoid_msg()] + attention_lines(ts)
    } else {
        Seq::empty()
    }
}

/// The severity-driven advice: mean above 3.5 or below 2.0, exactly.
pub open spec fn severity_seg(s: Seq<Episode>) -> Seq<Seq<char>> {
    (if 2 * sev_sum(s) > 7 * s.len() {
        seq![consult_msg(), diary_msg()]
    } else {
        Seq::empty()
    }) + (if sev_sum(s) < 2 * s.len() {
        seq![continue_msg()]
    } else {
        Seq::empty()
    })
}

/// Some severity narrative contains the increasing-trend phrase.
pub open spec fn has_increasing(patterns: Seq<Seq<char>>) -> bool {
    exists|i: int| 0 <= i < patterns.len() && contains_seq(#[trigger] patterns[i], increasing_phrase())
}

/// The trend-driven advice.
pub open spec fn trend_seg(patterns: Seq<Seq<char>>) -> Seq<Seq<char>> {
    if has_increasing(patterns) {
        seq![monitor_triggers_msg(), schedule_msg()]
    } else {
        Seq::empty()
    }
}

/// The duration-driven advice: any episode above one hour.
pub open spec fn duration_seg(s: Seq<Episode>) -> Seq<Seq<char>> {
    if has_duration_over(s, 60) {
        seq![positioning_msg()]
    } else {
        Seq::empty()
    }
}

/// The full recommendation list for a snapshot, its ranked triggers and
/// its severity narratives; two generic suggestions when nothing else
/// applies.
pub open spec fn spec_recommendations(
    s: Seq<Episode>,
    ts: Seq<Seq<char>>,
    patterns: Seq<Seq<char>>,
) -> Seq<Seq<char>> {
    let base = trigger_seg(ts) + severity_seg(s) + trend_seg(patterns) + duration_seg(s);
    if base.len() == 0 {
        seq![fallback_monitor_msg(), fallback_focus_msg()]
    } else {
        base
    }
}

/// The recommendation list, computed.  `triggers` is the display list of
/// 4.1 and `severity_patterns` the narrative list of 4.2.
#[verifier::loop_isolation(false)]
#[verifier::rlimit(100)]
pub fn generate_pattern_recommendations(
    episodes: &Vec<Episode>,
    triggers: &Vec<String>,
    severity_patterns: &Vec<String>,
) -> (r: Vec<String>)
    ensures
        str_views(r@) == spec_recommendations(
            episodes@,
            str_views(triggers@),
            str_views(severity_patterns@),
        ),
        r@.len() > 0,
{
    let ghost ts = str_views(triggers@);
    let ghost pats = str_views(severity_patterns@);
    let mut out: Vec<String> = Vec::new();
    if triggers.len() > 0 {
        push_sentence(&mut out, "Consider avoiding or managing identified common triggers");
        let lim: usize = if triggers.len() < 3 {
            triggers.len()
        } else {
            3
        };
        proof {
            assert(ts.take(lim as int) =~= take_up_to_3(ts));
        }
        let mut j: usize = 0;
        while j < lim
            invariant
                0 <= j <= lim,
                str_views(out@) =~= seq![avoid_msg()] + take_up_to_3(ts).take(j as int).map_values(
                    |t: Seq<char>| attention_prefix() + t,
                ),
            decreases lim - j,
        {
            let mut sent = String::from_str("Pay attention to: ");
            sent.append(triggers[j].as_str());
            proof {
                assert(sent@ == attention_prefix() + ts[j as int]);
            }
            let ghost old_out = out@;
            out.push(sent);
            proof {
                let t3 = take_up_to_3(ts);
                assert(t3.take(j + 1) =~= t3.take(j as int).push(t3[j as int]));
                assert(t3.take(j + 1).map_values(|t: Seq<char>| attention_prefix() + t) =~= t3.take(
                    j as int,
                ).map_values(|t: Seq<char>| attention_prefix() + t).push(
                    attention_prefix() + t3[j as int],
                ));
                assert(str_views(out@) =~= str_views(old_out).push(attention_prefix() + ts[j as int]));
            }
            j = j + 1;
        }
        proof {
            assert(take_up_to_3(ts).take(lim as int) =~= take_up_to_3(ts));
        }
    }
    proof {
        assert(str_views(out@) =~= trigger_seg(ts));
    }
    let n_i = episodes.len() as i128;
    let sum = severity_total(episodes);
    if 2 * sum > 7 * n_i {
        push_sentence(
            &mut out,
            "Consider consulting with a healthcare provider for recurring severe episodes",
        );
        push_sentence(&mut out, "Keep a detailed symptom diary for medical appointments");
    }
    if sum < 2 * n_i {
        push_sentence(&mut out, "Continue current management strategies as they appear effective");
    }
    proof {
        assert(str_views(out@) =~= trigger_seg(ts) + severity_seg(episodes@));
    }
    let phrase = str_to_chars("increasing severity");
    let mut found = false;
    let mut k: usize = 0;
    while k < severity_patterns.len()
        invariant
            0 <= k <= severity_patterns.len(),
            found == exists|i: int|
                0 <= i < k && contains_seq(#[trigger] pats[i], increasing_phrase()),
        decreases severity_patterns.len() - k,
    {
        let sp = str_to_chars(severity_patterns[k].as_str());
        if contains_chars(&sp, &phrase) {
            found = true;
            proof {
                assert(contains_seq(pats[k as int], increasing_phrase()));
            }
        }
        k = k + 1;
    }
    if found {
        push_sentence(&mut out, "Monitor for triggers that may be causing worsening symptoms");
        push_sentence(&mut out, "Schedule medical evaluation for increasing severity trend");
    }
    proof {
        assert(found == has_increasing(pats));
        assert(str_views(out@) =~= trigger_seg(ts) + severity_seg(episodes@) + trend_seg(pats));
    }
    if any_duration_over(episodes, 60) {
        push_sentence(&mut out, "For long-lasting episodes, ensure safe positioning and hydration");
    }
    proof {
        assert(str_views(out@) =~= trigger_seg(ts) + severity_seg(episodes@) + trend_seg(pats)
            + duration_seg(episodes@));
    }
    if out.len() == 0 {
        push_sentence(&mut out, "Continue monitoring episodes and maintain consistent logging");
        push_sentence(&mut out, "Focus on identifying potential triggers and patterns");
    }
    proof {
        assert(str_views(out@) =~= spec_recommendations(episodes@, ts, pats));
    }
    out
}

} // verus!
