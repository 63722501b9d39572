//! The risk factor identifier.
//!
//! Four independent threshold rules, evaluated in a fixed order: a
//! majority of high-severity episodes, at least two high-severity
//! episodes among the three most recent, any episode longer than two
//! hours, and more than ten episodes overall.

use vstd::prelude::*;

use crate::episode::{
    any_duration_over, count_high, has_duration_over, high_severity_count, recent3, Episode,
};
use crate::text::{push_sentence, str_views};

verus! {

pub open spec fn severe_freq_msg() -> Seq<char> {
    "High frequency of severe episodes"@
}

pub open spec fn recent_severe_msg() -> Seq<char> {
    "Recent increase in severe episodes"@
}

pub open spec fn extended_duration_msg() -> Seq<char> {
    "Episodes with extended duration (>2 hours)"@
}

pub open spec fn episode_freq_msg() -> Seq<char> {
    "High episode frequency may indicate underlying condition"@
}

/// The risk statements of a snapshot, in rule order.
pub open spec fn spec_risk_factors(s: Seq<Episode>) -> Seq<Seq<char>> {
    (if 2 * count_high(s) > s.len() {
        seq![severe_freq_msg()]
    } else {
        Seq::empty()
    }) + (if count_high(recent3(s)) >= 2 {
        seq![recent_severe_msg()]
    } else {
        Seq::empty()
    }) + (if has_duration_over(s, 120) {
        seq![extended_duration_msg()]
    } else {
        Seq::empty()
    }) + (if s.len() > 10 {
        seq![episode_freq_msg()]
    } else {
        Seq::empty()
    })
}

/// The risk statements, computed.  The snapshot is assumed newest-first;
/// the recency rule reads the first three entries.
#[verifier::loop_isolation(false)]
pub fn identify_risk_factors(episodes: &Vec<Episode>) -> (r: Vec<String>)
    ensures
        str_views(r@) == spec_risk_factors(episodes@),
{
    let mut out: Vec<String> = Vec::new();
    let n = episodes.len();
    let high = high_severity_count(episodes);
    if 2 * (high as i128) > n as i128 {
        push_sentence(&mut out, "High frequency of severe episodes");
    }
    proof {
        let seg1 = if 2 * count_high(episodes@) > episodes@.len() {
            seq![severe_freq_msg()]
        } else {
            Seq::<Seq<char>>::empty()
        };
        assert(str_views(out@) =~= seg1);
    }
    let lim: usize = if n < 3 {
        n
    } else {
        3
    };
    proof {
        assert(episodes@.take(lim as int) =~= recent3(episodes@));
    }
    let mut rc: usize = 0;
    let mut i: usize = 0;
    while i < lim
        invariant
            0 <= i <= lim,
            rc == count_high(episodes@.take(lim as int).take(i as int)),
            rc <= i,
        decreases lim - i,
    {
        proof {
            let rec = episodes@.take(lim as int);
            assert(rec.take(i + 1).drop_last() =~= rec.take(i as int));
            assert(rec.take(i + 1).last() == episodes@[i as int]);
        }
        if episodes[i].severity >= 4 {
            rc = rc + 1;
        }
        i = i + 1;
    }
    proof {
        assert(episodes@.take(lim as int).take(lim as int) =~= episodes@.take(lim as int));
    }
    if rc >= 2 {
        push_sentence(&mut out, "Recent increase in severe episodes");
    }
    if any_duration_over(episodes, 120) {
        push_sentence(&mut out, "Episodes with extended duration (>2 hours)");
    }
    if n > 10 {
        push_sentence(&mut out, "High episode frequency may indicate underlying condition");
    }
    proof {
        assert(str_views(out@) =~= spec_risk_factors(episodes@));
    }
    out
}

} // verus!
