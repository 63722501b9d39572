//! Laws of the analyzers: properties that hold of every snapshot,
//! stated over the same specification functions that the executable
//! functions' contracts use.

use vstd::prelude::*;

use crate::analytics::{months, severities, snapshot_raw_tokens};
use crate::episode::{count_high, count_low, dur_count, sev_sum, Episode};
use crate::patterns::{no_episodes_msg, spec_pattern_recommendations};
use crate::risk::spec_risk_factors;
use crate::severity::{
    band_part, decreasing_msg, evaluation_msg, high_part, increasing_msg, low_part, mild_msg,
    moderate_msg, reassurance_msg, spec_severity_patterns, trend_part,
};
use crate::tally::{
    count_in, has_key, lemma_count_entry, lemma_has_key_index, lemma_sort_desc_props,
    lemma_tally_occ, occ_count, sorted_desc, tally_of,
};
use crate::temporal::{
    duration_part, hour_count, hour_hist, peak_slot, spec_time_patterns, weekday_count,
    weekday_hist,
};
use crate::triggers::{
    common_norm, keep_common, ranked_pairs, snapshot_tokens, spec_common_triggers, take_up_to_5,
};

verus! {

/// An empty snapshot yields empty analysis lists, the single placeholder
/// recommendation, and all-zero, all-empty analytics.
pub proof fn lemma_empty_snapshot()
    ensures
        spec_common_triggers(Seq::empty()) == Seq::<Seq<char>>::empty(),
        spec_severity_patterns(Seq::empty()) == Seq::<Seq<char>>::empty(),
        spec_time_patterns(Seq::empty()) == Seq::<Seq<char>>::empty(),
        spec_risk_factors(Seq::empty()) == Seq::<Seq<char>>::empty(),
        spec_pattern_recommendations(Seq::empty()) == seq![no_episodes_msg()],
        sev_sum(Seq::empty()) == 0,
        tally_of(severities(Seq::empty())) == Seq::<(int, int)>::empty(),
        tally_of(snapshot_raw_tokens(Seq::empty())) == Seq::<(Seq<char>, int)>::empty(),
        tally_of(months(Seq::empty())) == Seq::<((int, int), int)>::empty(),
        dur_count(Seq::empty()) == 0,
{
    let e = Seq::<Episode>::empty();
    assert(spec_common_triggers(e) =~= Seq::<Seq<char>>::empty());
    assert(spec_risk_factors(e) =~= Seq::<Seq<char>>::empty());
    assert(severities(e) =~= Seq::<int>::empty());
    assert(months(e) =~= Seq::<(int, int)>::empty());
}

/// Determinism of the ranking: the common-trigger list is pinned to a
/// function of the snapshot alone, so two results both meeting the
/// analyzer's contract are identical.
pub proof fn lemma_ranking_deterministic(
    eps: Seq<Episode>,
    first: Seq<Seq<char>>,
    second: Seq<Seq<char>>,
)
    requires
        first == spec_common_triggers(eps),
        second == spec_common_triggers(eps),
    ensures
        first == second,
{
}

/// A pair stored in a token histogram counts its key's occurrences.
proof fn lemma_pair_count_is_occ(toks: Seq<Seq<char>>, q: (Seq<char>, int))
    requires
        tally_of(toks).contains(q),
    ensures
        q.1 == occ_count(toks, q.0),
{
    lemma_tally_occ(toks);
    let tl = tally_of(toks);
    let w = choose|w: int| 0 <= w < tl.len() && tl[w] == q;
    lemma_count_entry(tl, w);
}

/// Membership in the cap-at-5 list implies membership in the full list.
proof fn lemma_take5_member(s: Seq<Seq<char>>, t: Seq<char>)
    requires
        take_up_to_5(s).contains(t),
    ensures
        s.contains(t),
{
    if s.len() > 5 {
        let w = choose|w: int| 0 <= w < take_up_to_5(s).len() && take_up_to_5(s)[w] == t;
        assert(s[w] == t);
    }
}

/// A token stands in `keep_common` exactly when some pair with its text
/// and a count of at least 2 stands in the ranked list.
proof fn lemma_keep_common_member(s: Seq<(Seq<char>, int)>)
    ensures
        forall|t: Seq<char>|
            #[trigger] keep_common(s).contains(t) <==> exists|q: (Seq<char>, int)|
                #[trigger] s.contains(q) && q.0 == t && q.1 >= 2,
    decreases s.len(),
{
    if s.len() == 0 {
        assert forall|t: Seq<char>| !(#[trigger] keep_common(s).contains(t)) by {}
    } else {
        let dl = s.drop_last();
        lemma_keep_common_member(dl);
        let kc = keep_common(s);
        let kcd = keep_common(dl);
        assert forall|t: Seq<char>| #[trigger] kc.contains(t) implies exists|q: (Seq<char>, int)|
            #[trigger] s.contains(q) && q.0 == t && q.1 >= 2 by {
            let w = choose|w: int| 0 <= w < kc.len() && kc[w] == t;
            if w < kcd.len() {
                assert(kcd[w] == t);
                assert(kcd.contains(t));
                let q = choose|q: (Seq<char>, int)| #[trigger] dl.contains(q) && q.0 == t && q.1
                    >= 2;
                let v = choose|v: int| 0 <= v < dl.len() && dl[v] == q;
                assert(s[v] == q);
                assert(s.contains(q));
            } else {
                assert(s.last().1 >= 2 && kc[w] == s.last().0);
                assert(s.contains(s.last())) by {
                    assert(s[s.len() - 1] == s.last());
                }
            }
        }
        assert forall|t: Seq<char>|
            exists|q: (Seq<char>, int)| #[trigger] s.contains(q) && q.0 == t && q.1
                >= 2 implies #[trigger] kc.contains(t) by {
            let q = choose|q: (Seq<char>, int)| #[trigger] s.contains(q) && q.0 == t && q.1 >= 2;
            let w = choose|w: int| 0 <= w < s.len() && s[w] == q;
            if w < s.len() - 1 {
                assert(dl[w] == q);
                assert(dl.contains(q));
                assert(kcd.contains(t));
                let v = choose|v: int| 0 <= v < kcd.len() && kcd[v] == t;
                assert(kc[v] == t);
            } else {
                assert(q == s.last());
                assert(kc.last() == t);
            }
        }
    }
}

/// A trigger occurring exactly once in the snapshot's normalized token
/// stream never stands in the common-trigger list.
pub proof fn lemma_single_occurrence_never_common(eps: Seq<Episode>, t: Seq<char>)
    requires
        occ_count(snapshot_tokens(eps), t) == 1,
    ensures
        !common_norm(eps).contains(t),
{
    let toks = snapshot_tokens(eps);
    let tl = tally_of(toks);
    let ranked = ranked_pairs(eps);
    lemma_tally_occ(toks);
    lemma_sort_desc_props(tl);
    lemma_keep_common_member(ranked);
    if common_norm(eps).contains(t) {
        lemma_take5_member(keep_common(ranked), t);
        let q = choose|q: (Seq<char>, int)| #[trigger] ranked.contains(q) && q.0 == t && q.1 >= 2;
        assert(tl.contains(q));
        lemma_pair_count_is_occ(toks, q);
        assert(q.1 == 1);
        assert(false);
    }
}

/// A trigger occurring exactly twice always stands in the common-trigger
/// list, provided at most five triggers pass the threshold (otherwise
/// the cap may cut it).
pub proof fn lemma_double_occurrence_common(eps: Seq<Episode>, t: Seq<char>)
    requires
        occ_count(snapshot_tokens(eps), t) == 2,
        keep_common(ranked_pairs(eps)).len() <= 5,
    ensures
        common_norm(eps).contains(t),
{
    let toks = snapshot_tokens(eps);
    let tl = tally_of(toks);
    let ranked = ranked_pairs(eps);
    lemma_tally_occ(toks);
    assert(has_key(tally_of(toks), t));
    lemma_has_key_index(tl, t);
    let w = choose|w: int| 0 <= w < tl.len() && (#[trigger] tl[w]).0 == t;
    lemma_count_entry(tl, w);
    assert(tl[w].1 == count_in(tl, t));
    assert(count_in(tally_of(toks), t) == occ_count(toks, t));
    assert(tl[w] == (t, 2int));
    assert(tl.contains(tl[w]));
    lemma_sort_desc_props(tl);
    assert(ranked.contains((t, 2int)));
    lemma_keep_common_member(ranked);
    assert(keep_common(ranked).contains(t));
    assert(take_up_to_5(keep_common(ranked)) == keep_common(ranked));
}

/// The pairs of the ranked list whose count passes the threshold, in
/// ranked order.
spec fn keep_pairs(s: Seq<(Seq<char>, int)>) -> Seq<(Seq<char>, int)>
    decreases s.len(),
{
    if s.len() == 0 {
        Seq::empty()
    } else {
        let rest = keep_pairs(s.drop_last());
        if s.last().1 >= 2 {
            rest.push(s.last())
        } else {
            rest
        }
    }
}

proof fn lemma_keep_pairs_keys(s: Seq<(Seq<char>, int)>)
    ensures
        keep_pairs(s).len() == keep_common(s).len(),
        forall|i: int|
            0 <= i < keep_common(s).len() ==> #[trigger] keep_common(s)[i] == keep_pairs(s)[i].0
                && keep_pairs(s)[i].1 >= 2,
    decreases s.len(),
{
    if s.len() > 0 {
        lemma_keep_pairs_keys(s.drop_last());
    }
}

proof fn lemma_keep_pairs_member(s: Seq<(Seq<char>, int)>)
    ensures
        forall|q: (Seq<char>, int)| #[trigger] keep_pairs(s).contains(q) ==> s.contains(q),
    decreases s.len(),
{
    if s.len() > 0 {
        let dl = s.drop_last();
        lemma_keep_pairs_member(dl);
        assert forall|q: (Seq<char>, int)| #[trigger] keep_pairs(s).contains(q) implies s.contains(
            q,
        ) by {
            let kp = keep_pairs(s);
            let w = choose|w: int| 0 <= w < kp.len() && kp[w] == q;
            if w < keep_pairs(dl).len() {
                assert(keep_pairs(dl)[w] == q);
                assert(keep_pairs(dl).contains(q));
                let v = choose|v: int| 0 <= v < dl.len() && dl[v] == q;
                assert(s[v] == q);
            } else {
                assert(q == s.last());
                assert(s[s.len() - 1] == q);
            }
        }
    }
}

proof fn lemma_keep_pairs_sorted(s: Seq<(Seq<char>, int)>)
    requires
        sorted_desc(s),
    ensures
        sorted_desc(keep_pairs(s)),
    decreases s.len(),
{
    if s.len() > 0 {
        let dl = s.drop_last();
        assert(sorted_desc(dl)) by {
            assert(forall|i: int| 0 <= i < dl.len() ==> #[trigger] dl[i] == s[i]);
        }
        lemma_keep_pairs_sorted(dl);
        lemma_keep_pairs_member(dl);
        let kp = keep_pairs(s);
        if s.last().1 >= 2 {
            assert forall|i: int, j: int| 0 <= i <= j < kp.len() implies (#[trigger] kp[i]).1 >= (
            #[trigger] kp[j]).1 by {
                if j == kp.len() - 1 {
                    if i < j {
                        assert(kp[i] == keep_pairs(dl)[i]);
                        assert(keep_pairs(dl).contains(kp[i]));
                        assert(dl.contains(kp[i]));
                        let v = choose|v: int| 0 <= v < dl.len() && dl[v] == kp[i];
                        assert(s[v] == kp[i]);
                        assert(s[v].1 >= s[s.len() - 1].1);
                    }
                } else {
                    assert(kp[i] == keep_pairs(dl)[i]);
                    assert(kp[j] == keep_pairs(dl)[j]);
                }
            }
        }
    }
}

/// The common-trigger list holds at most five entries, ordered by
/// non-increasing occurrence count.
pub proof fn lemma_common_triggers_ranked(eps: Seq<Episode>)
    ensures
        common_norm(eps).len() <= 5,
        forall|i: int, j: int|
            0 <= i <= j < common_norm(eps).len() ==> occ_count(
                snapshot_tokens(eps),
                #[trigger] common_norm(eps)[i],
            ) >= occ_count(snapshot_tokens(eps), #[trigger] common_norm(eps)[j]),
{
    let toks = snapshot_tokens(eps);
    let tl = tally_of(toks);
    let ranked = ranked_pairs(eps);
    let kc = keep_common(ranked);
    let kp = keep_pairs(ranked);
    let cn = common_norm(eps);
    lemma_tally_occ(toks);
    lemma_sort_desc_props(tl);
    lemma_keep_pairs_sorted(ranked);
    lemma_keep_pairs_keys(ranked);
    lemma_keep_pairs_member(ranked);
    assert forall|i: int, j: int| 0 <= i <= j < cn.len() implies occ_count(
        toks,
        #[trigger] cn[i],
    ) >= occ_count(toks, #[trigger] cn[j]) by {
        assert(cn[i] == kc[i] && cn[j] == kc[j]);
        assert(kc[i] == kp[i].0 && kc[j] == kp[j].0);
        assert(kp[i].1 >= kp[j].1);
        assert(kp.contains(kp[i]) && kp.contains(kp[j]));
        assert(ranked.contains(kp[i]) && ranked.contains(kp[j]));
        assert(tl.contains(kp[i]) && tl.contains(kp[j]));
        lemma_pair_count_is_occ(toks, kp[i]);
        lemma_pair_count_is_occ(toks, kp[j]);
    }
}

/// The six severity narratives are pairwise distinct sentences.
proof fn lemma_severity_msgs_distinct()
    ensures
        moderate_msg() != mild_msg(),
        moderate_msg() != evaluation_msg(),
        moderate_msg() != reassurance_msg(),
        moderate_msg() != increasing_msg(),
        moderate_msg() != decreasing_msg(),
        mild_msg() != evaluation_msg(),
        mild_msg() != reassurance_msg(),
        mild_msg() != increasing_msg(),
        mild_msg() != decreasing_msg(),
        evaluation_msg() != reassurance_msg(),
        evaluation_msg() != increasing_msg(),
        evaluation_msg() != decreasing_msg(),
        reassurance_msg() != increasing_msg(),
        reassurance_msg() != decreasing_msg(),
{
    reveal_strlit("Episodes tend to be moderate to severe in intensity");
    reveal_strlit("Episodes are generally mild in nature");
    reveal_strlit("Frequent high-severity episodes may indicate need for medical evaluation");
    reveal_strlit("Most episodes are mild, suggesting good overall management");
    reveal_strlit("Recent episodes show increasing severity trend");
    reveal_strlit("Recent episodes show decreasing severity trend");
    assert(moderate_msg()[0] == 'E');
    assert(mild_msg()[0] == 'E');
    assert(evaluation_msg()[0] == 'F');
    assert(reassurance_msg()[0] == 'M');
    assert(increasing_msg()[0] == 'R');
    assert(decreasing_msg()[0] == 'R');
    assert(moderate_msg()[9] == 't');
    assert(mild_msg()[9] == 'a');
}

/// An element of the severity narrative list stands in one of its four
/// segments.
proof fn lemma_severity_elem_segments(s: Seq<Episode>, x: Seq<char>)
    requires
        spec_severity_patterns(s).contains(x),
        s.len() > 0,
    ensures
        band_part(s).contains(x) || high_part(s).contains(x) || low_part(s).contains(x)
            || trend_part(s).contains(x),
{
    let a = band_part(s);
    let b = high_part(s);
    let c = low_part(s);
    let d = trend_part(s);
    let whole = a + b + c + d;
    let w = choose|w: int| 0 <= w < whole.len() && whole[w] == x;
    if w < a.len() {
        assert(a[w] == x);
    } else if w < a.len() + b.len() {
        assert(b[w - a.len()] == x);
    } else if w < a.len() + b.len() + c.len() {
        assert(c[w - a.len() - b.len()] == x);
    } else {
        assert(d[w - a.len() - b.len() - c.len()] == x);
    }
}

/// The two mean-severity band statements are mutually exclusive: no
/// snapshot's narrative list holds both.
pub proof fn lemma_band_statements_exclusive(s: Seq<Episode>)
    ensures
        !(spec_severity_patterns(s).contains(moderate_msg()) && spec_severity_patterns(
            s,
        ).contains(mild_msg())),
{
    if spec_severity_patterns(s).contains(moderate_msg()) && spec_severity_patterns(s).contains(
        mild_msg(),
    ) {
        assert(s.len() > 0);
        lemma_severity_msgs_distinct();
        lemma_severity_elem_segments(s, moderate_msg());
        lemma_severity_elem_segments(s, mild_msg());
        assert(band_part(s).contains(moderate_msg())) by {
            if high_part(s).contains(moderate_msg()) {
                assert(high_part(s)[0] == evaluation_msg());
            }
            if low_part(s).contains(moderate_msg()) {
                assert(low_part(s)[0] == reassurance_msg());
            }
            if trend_part(s).contains(moderate_msg()) {
                assert(trend_part(s)[0] == increasing_msg() || trend_part(s)[0]
                    == decreasing_msg());
            }
        }
        assert(sev_sum(s) > 3 * s.len()) by {
            if !(sev_sum(s) > 3 * s.len()) {
                if 2 * sev_sum(s) < 5 * s.len() {
                    assert(band_part(s)[0] == mild_msg());
                } else {
                    assert(band_part(s).len() == 0);
                }
            }
        }
        assert(!band_part(s).contains(mild_msg())) by {
            assert(band_part(s) == seq![moderate_msg()]);
        }
        assert(high_part(s).contains(mild_msg()) || low_part(s).contains(mild_msg())
            || trend_part(s).contains(mild_msg()));
        if high_part(s).contains(mild_msg()) {
            assert(high_part(s)[0] == evaluation_msg());
        }
        if low_part(s).contains(mild_msg()) {
            assert(low_part(s)[0] == reassurance_msg());
        }
        if trend_part(s).contains(mild_msg()) {
            assert(trend_part(s)[0] == increasing_msg() || trend_part(s)[0] == decreasing_msg());
        }
        assert(false);
    }
}

/// No trend statement is emitted for a snapshot of fewer than three
/// episodes.
pub proof fn lemma_no_trend_below_three(s: Seq<Episode>)
    requires
        s.len() < 3,
    ensures
        !spec_severity_patterns(s).contains(increasing_msg()),
        !spec_severity_patterns(s).contains(decreasing_msg()),
{
    lemma_severity_msgs_distinct();
    if spec_severity_patterns(s).contains(increasing_msg()) {
        lemma_severity_elem_segments(s, increasing_msg());
        assert(trend_part(s).len() == 0);
        if band_part(s).contains(increasing_msg()) {
            assert(band_part(s)[0] == moderate_msg() || band_part(s)[0] == mild_msg());
        }
        if high_part(s).contains(increasing_msg()) {
            assert(high_part(s)[0] == evaluation_msg());
        }
        if low_part(s).contains(increasing_msg()) {
            assert(low_part(s)[0] == reassurance_msg());
        }
        assert(false);
    }
    if spec_severity_patterns(s).contains(decreasing_msg()) {
        lemma_severity_elem_segments(s, decreasing_msg());
        assert(trend_part(s).len() == 0);
        if band_part(s).contains(decreasing_msg()) {
            assert(band_part(s)[0] == moderate_msg() || band_part(s)[0] == mild_msg());
        }
        if high_part(s).contains(decreasing_msg()) {
            assert(high_part(s)[0] == evaluation_msg());
        }
        if low_part(s).contains(decreasing_msg()) {
            assert(low_part(s)[0] == reassurance_msg());
        }
        assert(false);
    }
}

/// The peak slot is in range, carries the maximum, and is the first slot
/// to do so.
pub proof fn lemma_peak_slot_max(counts: Seq<int>)
    requires
        counts.len() >= 1,
    ensures
        0 <= peak_slot(counts) < counts.len(),
        forall|h: int| 0 <= h < counts.len() ==> #[trigger] counts[h] <= counts[peak_slot(counts)],
        forall|h: int| 0 <= h < peak_slot(counts) ==> #[trigger] counts[h] < counts[peak_slot(counts)],
    decreases counts.len(),
{
    if counts.len() > 1 {
        let dl = counts.drop_last();
        lemma_peak_slot_max(dl);
        let p = peak_slot(dl);
        assert(forall|h: int| 0 <= h < dl.len() ==> #[trigger] dl[h] == counts[h]);
        if counts.last() > dl[p] {
            assert(peak_slot(counts) == counts.len() - 1);
            assert forall|h: int| 0 <= h < counts.len() - 1 implies #[trigger] counts[h]
                < counts[counts.len() - 1] by {
                assert(dl[h] <= dl[p]);
            }
        } else {
            assert(peak_slot(counts) == p);
            assert forall|h: int| 0 <= h < counts.len() implies #[trigger] counts[h]
                <= counts[p] by {
                if h < counts.len() - 1 {
                    assert(dl[h] <= dl[p]);
                }
            }
            assert forall|h: int| 0 <= h < p implies #[trigger] counts[h] < counts[p] by {
                assert(dl[h] < dl[p]);
            }
        }
    }
}

/// When every hour bucket and every weekday bucket holds at most one
/// episode, the temporal narratives reduce to the duration statement
/// alone: no peak-time claim is made.
pub proof fn lemma_no_sparse_time_narrative(s: Seq<Episode>)
    requires
        forall|h: int| 0 <= h < 24 ==> #[trigger] hour_count(s, h) <= 1,
        forall|d: int| 0 <= d < 7 ==> #[trigger] weekday_count(s, d) <= 1,
    ensures
        spec_time_patterns(s) == duration_part(s),
{
    if s.len() == 0 {
        assert(duration_part(s) =~= Seq::<Seq<char>>::empty());
    } else {
        let hh = hour_hist(s);
        let dh = weekday_hist(s);
        lemma_peak_slot_max(hh);
        lemma_peak_slot_max(dh);
        assert(hh[peak_slot(hh)] == hour_count(s, peak_slot(hh)));
        assert(dh[peak_slot(dh)] == weekday_count(s, peak_slot(dh)));
        assert(spec_time_patterns(s) =~= duration_part(s));
    }
}

/// The recommendation list of the full analysis is never empty.
pub proof fn lemma_recommendations_never_empty(s: Seq<Episode>)
    ensures
        spec_pattern_recommendations(s).len() > 0,
{
}

} // verus!
