//! The temporal pattern analyzer.
//!
//! Episodes are bucketed by hour of day and by weekday (Monday first).
//! A peak bucket is reported only when its count is at least 2; ties go
//! to the lowest index.  Durations are summarized exactly: mean above 60
//! minutes is `sum > 60 * count`, mean below 15 is `sum < 15 * count`.

use vstd::prelude::*;

use vstd::string::StringExecFns;

use crate::episode::{dur_count, dur_sum, duration_totals, snapshot_wf, Episode};
use crate::text::{push_sentence, str_views};

verus! {

/// How many episodes fall in hour slot `h`.
pub open spec fn hour_count(s: Seq<Episode>, h: int) -> int
    decreases s.len(),
{
    if s.len() == 0 {
        0
    } else {
        hour_count(s.drop_last(), h) + if s.last().hour == h {
            1int
        } else {
            0int
        }
    }
}

/// How many episodes fall on weekday `d` (0 = Monday).
pub open spec fn weekday_count(s: Seq<Episode>, d: int) -> int
    decreases s.len(),
{
    if s.len() == 0 {
        0
    } else {
        weekday_count(s.drop_last(), d) + if s.last().weekday == d {
            1int
        } else {
            0int
        }
    }
}

/// The 24-slot hour histogram.
pub open spec fn hour_hist(s: Seq<Episode>) -> Seq<int> {
    Seq::new(24, |h: int| hour_count(s, h))
}

/// The 7-slot weekday histogram.
pub open spec fn weekday_hist(s: Seq<Episode>) -> Seq<int> {
    Seq::new(7, |d: int| weekday_count(s, d))
}

/// The first index holding the maximum of a non-empty count sequence.
pub open spec fn peak_slot(counts: Seq<int>) -> int
    decreases counts.len(),
{
    if counts.len() <= 1 {
        0
    } else {
        let p = peak_slot(counts.drop_last());
        if counts.last() > counts[p] {
            counts.len() - 1
        } else {
            p
        }
    }
}

pub open spec fn band_name(h: int) -> Seq<char> {
    if h < 6 {
        "early morning (12 AM - 6 AM)"@
    } else if h < 12 {
        "morning (6 AM - 12 PM)"@
    } else if h < 18 {
        "afternoon (12 PM - 6 PM)"@
    } else {
        "evening (6 PM - 12 AM)"@
    }
}

pub open spec fn hour_sentence(h: int) -> Seq<char> {
    "Episodes occur more frequently during "@ + band_name(h)
}

pub open spec fn day_name(d: int) -> Seq<char> {
    if d == 0 {
        "Monday"@
    } else if d == 1 {
        "Tuesday"@
    } else if d == 2 {
        "Wednesday"@
    } else if d == 3 {
        "Thursday"@
    } else if d == 4 {
        "Friday"@
    } else if d == 5 {
        "Saturday"@
    } else {
        "Sunday"@
    }
}

pub open spec fn day_sentence(d: int) -> Seq<char> {
    "Higher occurrence on "@ + day_name(d) + "s"@
}

pub open spec fn long_lasting_msg() -> Seq<char> {
    "Episodes tend to be long-lasting (> 1 hour)"@
}

pub open spec fn brief_msg() -> Seq<char> {
    "Episodes are typically brief (< 15 minutes)"@
}

/// The hour-of-day statement: emitted only when the peak count is at
/// least 2.
pub open spec fn hour_part(s: Seq<Episode>) -> Seq<Seq<char>> {
    let p = peak_slot(hour_hist(s));
    if hour_hist(s)[p] >= 2 {
        seq![hour_sentence(p)]
    } else {
        Seq::empty()
    }
}

/// The weekday statement: emitted only when the peak count is at least 2.
pub open spec fn day_part(s: Seq<Episode>) -> Seq<Seq<char>> {
    let p = peak_slot(weekday_hist(s));
    if weekday_hist(s)[p] >= 2 {
        seq![day_sentence(p)]
    } else {
        Seq::empty()
    }
}

/// The duration statement, over episodes that carry a duration.
pub open spec fn duration_part(s: Seq<Episode>) -> Seq<Seq<char>> {
    if dur_count(s) > 0 {
        if dur_sum(s) > 60 * dur_count(s) {
            seq![long_lasting_msg()]
        } else if dur_sum(s) < 15 * dur_count(s) {
            seq![brief_msg()]
        } else {
            Seq::empty()
        }
    } else {
        Seq::empty()
    }
}

/// The temporal narratives of a snapshot, in rule order.
pub open spec fn spec_time_patterns(s: Seq<Episode>) -> Seq<Seq<char>> {
    if s.len() == 0 {
        Seq::empty()
    } else {
        hour_part(s) + day_part(s) + duration_part(s)
    }
}

/// The temporal narratives, computed.
#[verifier::loop_isolation(false)]
pub fn analyze_time_patterns(episodes: &Vec<Episode>) -> (r: Vec<String>)
    requires
        snapshot_wf(episodes@),
    ensures
        str_views(r@) == spec_time_patterns(episodes@),
{
    let mut out: Vec<String> = Vec::new();
    let n = episodes.len();
    if n == 0 {
        proof {
            assert(str_views(out@) =~= spec_time_patterns(episodes@));
        }
        return out;
    }
    let mut hours: Vec<usize> = vec![0usize; 24];
    let mut days: Vec<usize> = vec![0usize; 7];
    let mut i: usize = 0;
    while i < n
        invariant
            0 <= i <= n,
            hours@.len() == 24,
            days@.len() == 7,
            forall|h: int| 0 <= h < 24 ==> #[trigger] hours@[h] == hour_count(
                episodes@.take(i as int),
                h,
            ),
            forall|d: int| 0 <= d < 7 ==> #[trigger] days@[d] == weekday_count(
                episodes@.take(i as int),
                d,
            ),
            forall|h: int| 0 <= h < 24 ==> #[trigger] hours@[h] <= i,
            forall|d: int| 0 <= d < 7 ==> #[trigger] days@[d] <= i,
        decreases n - i,
    {
        proof {
            assert(episodes@.take(i + 1).drop_last() =~= episodes@.take(i as int));
            assert(episodes@.take(i + 1).last() == episodes@[i as int]);
            assert(episodes@[i as int].wf());
        }
        let h = episodes[i].hour as usize;
        let c = hours[h];
        hours[h] = c + 1;
        let d = episodes[i].weekday as usize;
        let cd = days[d];
        days[d] = cd + 1;
        i = i + 1;
    }
    proof {
        assert(episodes@.take(n as int) =~= episodes@);
    }
    let ghost hh = hour_hist(episodes@);
    let ghost dh = weekday_hist(episodes@);
    proof {
        assert(forall|h: int| 0 <= h < 24 ==> #[trigger] hh[h] == hours@[h]);
        assert(forall|d: int| 0 <= d < 7 ==> #[trigger] dh[d] == days@[d]);
    }
    let mut best: usize = 0;
    let mut h: usize = 1;
    while h < 24
        invariant
            1 <= h <= 24,
            0 <= best < h,
            best as int == peak_slot(hh.take(h as int)),
        decreases 24 - h,
    {
        proof {
            assert(hh.take(h + 1).drop_last() =~= hh.take(h as int));
            assert(hh.take(h + 1).last() == hh[h as int]);
        }
        if hours[h] > hours[best] {
            best = h;
        }
        h = h + 1;
    }
    proof {
        assert(hh.take(24) =~= hh);
    }
    if hours[best] >= 2 {
        let mut sent = String::from_str("Episodes occur more frequently during ");
        let band = if best < 6 {
            "early morning (12 AM - 6 AM)"
        } else if best < 12 {
            "morning (6 AM - 12 PM)"
        } else if best < 18 {
            "afternoon (12 PM - 6 PM)"
        } else {
            "evening (6 PM - 12 AM)"
        };
        sent.append(band);
        proof {
            assert(sent@ == hour_sentence(best as int));
        }
        out.push(sent);
    }
    proof {
        assert(str_views(out@) =~= hour_part(episodes@));
    }
    let mut bestd: usize = 0;
    let mut d: usize = 1;
    while d < 7
        invariant
            1 <= d <= 7,
            0 <= bestd < d,
            bestd as int == peak_slot(dh.take(d as int)),
        decreases 7 - d,
    {
        proof {
            assert(dh.take(d + 1).drop_last() =~= dh.take(d as int));
            assert(dh.take(d + 1).last() == dh[d as int]);
        }
        if days[d] > days[bestd] {
            bestd = d;
        }
        d = d + 1;
    }
    proof {
        assert(dh.take(7) =~= dh);
    }
    if days[bestd] >= 2 {
        let mut sent = String::from_str("Higher occurrence on ");
        let day = if bestd == 0 {
            "Monday"
        } else if bestd == 1 {
            "Tuesday"
        } else if bestd == 2 {
            "Wednesday"
        } else if bestd == 3 {
            "Thursday"
        } else if bestd == 4 {
            "Friday"
        } else if bestd == 5 {
            "Saturday"
        } else {
            "Sunday"
        };
        sent.append(day);
        sent.append("s");
        proof {
            assert(sent@ == day_sentence(bestd as int));
        }
        out.push(sent);
    }
    proof {
        assert(str_views(out@) =~= hour_part(episodes@) + day_part(episodes@));
    }
    let totals = duration_totals(episodes);
    let dsum = totals.0;
    let dcount = totals.1;
    if dcount > 0 {
        if dsum > 60 * (dcount as i128) {
            push_sentence(&mut out, "Episodes tend to be long-lasting (> 1 hour)");
        } else if dsum < 15 * (dcount as i128) {
            push_sentence(&mut out, "Episodes are typically brief (< 15 minutes)");
        }
    }
    proof {
        assert(str_views(out@) =~= spec_time_patterns(episodes@));
    }
    out
}

} // verus!
