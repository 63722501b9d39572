//! The analytics aggregator: raw distributions over one snapshot,
//! independent of the inference layer.
//!
//! Unlike the trigger analyzer, the trigger histogram here keeps tokens
//! raw: trimmed but case-preserved, with no sentinel filtering and no
//! occurrence threshold.  Means are carried as exact sums with their
//! counts; rendering a quotient is the caller's concern.

use vstd::prelude::*;

use crate::episode::{dur_count, dur_sum, duration_totals, sev_sum, severity_total, Episode};
use crate::numfmt::{month_key, month_key_chars};
use crate::tally::{
    lemma_bump_at, lemma_bump_missing, lemma_tally_counts_range, lemma_tally_occ, tally_of,
};
use crate::text::{char_views, chars_to_string, split_commas, split_commas_exec, str_to_chars, trim_chars, trim_spec};
use crate::triggers::{tally_build, tally_views};

verus! {

/// One bar of the severity histogram.
pub struct SeverityCount {
    pub severity: i32,
    pub count: u64,
}

/// One bar of the raw trigger histogram.
pub struct TriggerCount {
    pub trigger: String,
    pub count: u64,
}

/// One month of the trend series.
pub struct MonthlyTrend {
    /// The calendar key, rendered `YYYY-MM`.
    pub month: String,
    pub year: i32,
    pub month_number: u8,
    pub episode_count: u64,
    /// Severity sum of the month; the mean is this over `episode_count`.
    pub severity_total: i128,
}

/// Statistics over the episodes that carry a duration; all zero when
/// none does.
pub struct DurationStats {
    /// Duration sum; the mean is this over `duration_count`.
    pub duration_total: i128,
    pub duration_count: u64,
    /// The `len/2` entry of the ascending sorted durations.
    pub median_minutes: i32,
    pub max_minutes: i32,
    pub min_minutes: i32,
}

/// The aggregated distributions of one snapshot.
pub struct AnalyticsData {
    pub total_episodes: u64,
    /// Severity sum; the mean severity is this over `total_episodes`.
    pub severity_total: i128,
    pub severity_distribution: Vec<SeverityCount>,
    pub trigger_frequency: Vec<TriggerCount>,
    pub monthly_trends: Vec<MonthlyTrend>,
    pub duration_stats: DurationStats,
}

/// The severities of a snapshot.
pub open spec fn severities(s: Seq<Episode>) -> Seq<int> {
    s.map_values(|e: Episode| e.severity as int)
}

/// The calendar key of one episode.
pub open spec fn ep_month(e: Episode) -> (int, int) {
    (e.year as int, e.month as int)
}

/// The calendar keys of a snapshot.
pub open spec fn months(s: Seq<Episode>) -> Seq<(int, int)> {
    s.map_values(|e: Episode| ep_month(e))
}

/// Severity sum of the episodes in month `k`.
pub open spec fn month_sev_sum(s: Seq<Episode>, k: (int, int)) -> int
    decreases s.len(),
{
    if s.len() == 0 {
        0
    } else {
        month_sev_sum(s.drop_last(), k) + if ep_month(s.last()) == k {
            s.last().severity as int
        } else {
            0
        }
    }
}

/// The raw kept pieces of a piece sequence: trimmed, non-empty.
pub open spec fn raw_kept(pieces: Seq<Seq<char>>) -> Seq<Seq<char>>
    decreases pieces.len(),
{
    if pieces.len() == 0 {
        Seq::empty()
    } else {
        let rest = raw_kept(pieces.drop_last());
        let t = trim_spec(pieces.last());
        if t.len() > 0 {
            rest.push(t)
        } else {
            rest
        }
    }
}

/// The raw kept tokens of one trigger text.
pub open spec fn raw_tokens_of(s: Seq<char>) -> Seq<Seq<char>> {
    raw_kept(split_commas(s))
}

/// All raw kept tokens of a snapshot.
pub open spec fn snapshot_raw_tokens(eps: Seq<Episode>) -> Seq<Seq<char>>
    decreases eps.len(),
{
    if eps.len() == 0 {
        Seq::empty()
    } else {
        snapshot_raw_tokens(eps.drop_last()) + match eps.last().triggers {
            Some(s) => raw_tokens_of(s@),
            None => Seq::empty(),
        }
    }
}

/// The durations of the episodes that carry one, in snapshot order.
pub open spec fn durations(s: Seq<Episode>) -> Seq<int>
    decreases s.len(),
{
    if s.len() == 0 {
        Seq::empty()
    } else {
        durations(s.drop_last()) + match s.last().duration_minutes {
            Some(d) => seq![d as int],
            None => Seq::<int>::empty(),
        }
    }
}

/// Ascending insertion, after equal values.
pub open spec fn insert_asc(x: int, s: Seq<int>) -> Seq<int>
    decreases s.len(),
{
    if s.len() == 0 {
        seq![x]
    } else if s[0] <= x {
        seq![s[0]] + insert_asc(x, s.drop_first())
    } else {
        seq![x] + s
    }
}

/// Ascending insertion sort.
pub open spec fn sort_asc(s: Seq<int>) -> Seq<int>
    decreases s.len(),
{
    if s.len() == 0 {
        s
    } else {
        insert_asc(s.last(), sort_asc(s.drop_last()))
    }
}

/// The largest value of a non-empty sequence.
pub open spec fn seq_max(s: Seq<int>) -> int
    decreases s.len(),
{
    if s.len() <= 1 {
        s[0]
    } else {
        let m = seq_max(s.drop_last());
        if s.last() > m {
            s.last()
        } else {
            m
        }
    }
}

/// The smallest value of a non-empty sequence.
pub open spec fn seq_min(s: Seq<int>) -> int
    decreases s.len(),
{
    if s.len() <= 1 {
        s[0]
    } else {
        let m = seq_min(s.drop_last());
        if s.last() < m {
            s.last()
        } else {
            m
        }
    }
}

pub open spec fn sev_interp(s: Seq<SeverityCount>) -> Seq<(int, int)> {
    s.map_values(|c: SeverityCount| (c.severity as int, c.count as int))
}

pub open spec fn trig_interp(s: Seq<TriggerCount>) -> Seq<(Seq<char>, int)> {
    s.map_values(|c: TriggerCount| (c.trigger@, c.count as int))
}

pub open spec fn month_interp(s: Seq<MonthlyTrend>) -> Seq<((int, int), int)> {
    s.map_values(|c: MonthlyTrend| ((c.year as int, c.month_number as int), c.episode_count as int))
}

/// The severity histogram, one entry per distinct severity present, in
/// first-encounter order.
#[verifier::loop_isolation(false)]
fn severity_histogram(eps: &Vec<Episode>) -> (r: Vec<SeverityCount>)
    ensures
        sev_interp(r@) == tally_of(severities(eps@)),
{
    let n = eps.len();
    let mut r: Vec<SeverityCount> = Vec::new();
    let mut i: usize = 0;
    while i < n
        invariant
            0 <= i <= n,
            sev_interp(r@) == tally_of(severities(eps@).take(i as int)),
        decreases n - i,
    {
        let ghost toks = severities(eps@);
        let ghost cs = sev_interp(r@);
        let sev = eps[i].severity;
        proof {
            assert(toks[i as int] == sev as int);
            assert(toks.take(i + 1).drop_last() =~= toks.take(i as int));
            assert(toks.take(i + 1).last() == toks[i as int]);
        }
        let mut j: usize = 0;
        while j < r.len() && r[j].severity != sev
            invariant
                0 <= j <= r.len(),
                cs == sev_interp(r@),
                forall|jj: int| 0 <= jj < j ==> (#[trigger] cs[jj]).0 != sev as int,
            decreases r.len() - j,
        {
            proof {
                assert(cs[j as int].0 == r@[j as int].severity as int);
            }
            j = j + 1;
        }
        if j < r.len() {
            proof {
                assert(cs[j as int] == (r@[j as int].severity as int, r@[j as int].count as int));
                lemma_bump_at(cs, sev as int, j as int);
                lemma_tally_counts_range(toks.take(i as int), j as int);
                assert(cs[j as int].1 <= i);
            }
            let c = r[j].count;
            r[j] = SeverityCount { severity: sev, count: c + 1 };
            proof {
                assert(sev_interp(r@) =~= cs.update(j as int, (sev as int, cs[j as int].1 + 1)));
            }
        } else {
            proof {
                assert(forall|jj: int| 0 <= jj < cs.len() ==> (#[trigger] cs[jj]).0 != sev as int);
                lemma_bump_missing(cs, sev as int);
            }
            r.push(SeverityCount { severity: sev, count: 1 });
            proof {
                assert(sev_interp(r@) =~= cs.push((sev as int, 1int)));
            }
        }
        i = i + 1;
    }
    proof {
        assert(severities(eps@).take(n as int) =~= severities(eps@));
    }
    r
}

/// The raw kept tokens of one trigger text, computed.
fn raw_tokens_exec(text: &str) -> (r: Vec<Vec<char>>)
    ensures
        char_views(r@) == raw_tokens_of(text@),
{
    let cs = str_to_chars(text);
    let pieces = split_commas_exec(&cs);
    let mut r: Vec<Vec<char>> = Vec::new();
    let mut i: usize = 0;
    while i < pieces.len()
        invariant
            0 <= i <= pieces.len(),
            char_views(pieces@) == split_commas(text@),
            char_views(r@) == raw_kept(char_views(pieces@).take(i as int)),
        decreases pieces.len() - i,
    {
        let trimmed = trim_chars(&pieces[i]);
        let ghost pv = char_views(pieces@);
        proof {
            assert(pv[i as int] == pieces@[i as int]@);
            assert(pv.take(i + 1).drop_last() =~= pv.take(i as int));
            assert(pv.take(i + 1).last() == pv[i as int]);
        }
        if trimmed.len() > 0 {
            let ghost old_r = r@;
            r.push(trimmed);
            proof {
                assert(char_views(r@) =~= char_views(old_r).push(trim_spec(pv[i as int])));
            }
        }
        i = i + 1;
    }
    proof {
        assert(char_views(pieces@).take(pieces@.len() as int) =~= char_views(pieces@));
    }
    r
}

/// All raw kept tokens of a snapshot, computed.
fn collect_raw_tokens(eps: &Vec<Episode>) -> (r: Vec<Vec<char>>)
    ensures
        char_views(r@) == snapshot_raw_tokens(eps@),
{
    let mut r: Vec<Vec<char>> = Vec::new();
    let mut i: usize = 0;
    while i < eps.len()
        invariant
            0 <= i <= eps.len(),
            char_views(r@) == snapshot_raw_tokens(eps@.take(i as int)),
        decreases eps.len() - i,
    {
        proof {
            assert(eps@.take(i + 1).drop_last() =~= eps@.take(i as int));
            assert(eps@.take(i + 1).last() == eps@[i as int]);
        }
        match &eps[i].triggers {
            Some(s) => {
                let mut toks = raw_tokens_exec(s.as_str());
                let ghost old_r = r@;
                let ghost toks0 = toks@;
                r.append(&mut toks);
                proof {
                    assert(char_views(old_r + toks0) =~= char_views(old_r) + char_views(toks0));
                }
            },
            None => {
                proof {
                    assert(snapshot_raw_tokens(eps@.take(i + 1)) =~= char_views(r@));
                }
            },
        }
        i = i + 1;
    }
    proof {
        assert(eps@.take(eps@.len() as int) =~= eps@);
    }
    r
}

/// The raw trigger histogram, in first-encounter order.
fn trigger_histogram(eps: &Vec<Episode>) -> (r: Vec<TriggerCount>)
    ensures
        trig_interp(r@) == tally_of(snapshot_raw_tokens(eps@)),
{
    let tokens = collect_raw_tokens(eps);
    let tals = tally_build(tokens);
    let ghost tv = tally_views(tals@);
    let mut r: Vec<TriggerCount> = Vec::new();
    let mut i: usize = 0;
    while i < tals.len()
        invariant
            0 <= i <= tals.len(),
            tv == tally_views(tals@),
            trig_interp(r@) == tv.take(i as int),
        decreases tals.len() - i,
    {
        let text = chars_to_string(&tals[i].text);
        let ghost old_r = r@;
        r.push(TriggerCount { trigger: text, count: tals[i].count });
        proof {
            assert(tv[i as int] == (tals@[i as int].text@, tals@[i as int].count as int));
            assert(trig_interp(r@) =~= trig_interp(old_r).push(tv[i as int]));
            assert(tv.take(i + 1) =~= tv.take(i as int).push(tv[i as int]));
        }
        i = i + 1;
    }
    proof {
        assert(tv.take(tals@.len() as int) =~= tv);
        assert(trig_interp(r@) == tally_of(snapshot_raw_tokens(eps@)));
    }
    r
}

/// The monthly trend series: per calendar month, episode count and
/// severity sum, in first-encounter order, each with its `YYYY-MM` key.
#[verifier::loop_isolation(false)]
#[verifier::rlimit(100)]
fn monthly_trends(eps: &Vec<Episode>) -> (r: Vec<MonthlyTrend>)
    ensures
        month_interp(r@) == tally_of(months(eps@)),
        forall|j: int|
            0 <= j < r@.len() ==> (#[trigger] r@[j]).severity_total == month_sev_sum(
                eps@,
                month_interp(r@)[j].0,
            ),
        forall|j: int|
            0 <= j < r@.len() ==> (#[trigger] r@[j]).month@ == month_key_chars(
                r@[j].year as int,
                r@[j].month_number as int,
            ),
{
    let n = eps.len();
    let mut r: Vec<MonthlyTrend> = Vec::new();
    let mut i: usize = 0;
    while i < n
        invariant
            0 <= i <= n,
            month_interp(r@) == tally_of(months(eps@).take(i as int)),
            forall|j: int|
                0 <= j < r@.len() ==> (#[trigger] r@[j]).severity_total == month_sev_sum(
                    eps@.take(i as int),
                    month_interp(r@)[j].0,
                ),
            forall|j: int|
                0 <= j < r@.len() ==> (#[trigger] r@[j]).month@ == month_key_chars(
                    r@[j].year as int,
                    r@[j].month_number as int,
                ),
            forall|j: int|
                0 <= j < r@.len() ==> -0x8000_0000i128 * (i as i128) <= (
                #[trigger] r@[j]).severity_total <= 0x8000_0000i128 * (i as i128),
        decreases n - i,
    {
        let ghost keys = months(eps@);
        let ghost cs = month_interp(r@);
        let y = eps[i].year;
        let m = eps[i].month;
        let sev = eps[i].severity;
        let ghost k = (y as int, m as int);
        proof {
            assert(keys[i as int] == k);
            assert(keys.take(i + 1).drop_last() =~= keys.take(i as int));
            assert(keys.take(i + 1).last() == keys[i as int]);
            assert(eps@.take(i + 1).drop_last() =~= eps@.take(i as int));
            assert(eps@.take(i + 1).last() == eps@[i as int]);
            assert(ep_month(eps@[i as int]) == k);
        }
        let mut j: usize = 0;
        while j < r.len() && !(r[j].year == y && r[j].month_number == m)
            invariant
                0 <= j <= r.len(),
                cs == month_interp(r@),
                forall|jj: int| 0 <= jj < j ==> (#[trigger] cs[jj]).0 != k,
            decreases r.len() - j,
        {
            proof {
                assert(cs[j as int].0 == (r@[j as int].year as int,
                r@[j as int].month_number as int));
            }
            j = j + 1;
        }
        if j < r.len() {
            proof {
                assert(cs[j as int] == ((r@[j as int].year as int,
                r@[j as int].month_number as int), r@[j as int].episode_count as int));
                lemma_bump_at(cs, k, j as int);
                lemma_tally_counts_range(keys.take(i as int), j as int);
                assert(cs[j as int].1 <= i);
                lemma_tally_occ(keys.take(i as int));
            }
            let t = r.remove(j);
            let nt = MonthlyTrend {
                month: t.month,
                year: t.year,
                month_number: t.month_number,
                episode_count: t.episode_count + 1,
                severity_total: t.severity_total + sev as i128,
            };
            r.insert(j, nt);
            proof {
                assert(month_interp(r@) =~= cs.update(j as int, (k, cs[j as int].1 + 1)));
                assert forall|jj: int| 0 <= jj < r@.len() implies (
                #[trigger] r@[jj]).severity_total == month_sev_sum(
                    eps@.take(i + 1),
                    month_interp(r@)[jj].0,
                ) by {
                    if jj != j {
                        assert(month_interp(r@)[jj] == cs[jj]);
                        assert(cs[jj].0 != k);
                    }
                }
            }
        } else {
            proof {
                assert(forall|jj: int| 0 <= jj < cs.len() ==> (#[trigger] cs[jj]).0 != k);
                lemma_bump_missing(cs, k);
            }
            let key_str = month_key(y, m);
            r.push(
                MonthlyTrend {
                    month: key_str,
                    year: y,
                    month_number: m,
                    episode_count: 1,
                    severity_total: sev as i128,
                },
            );
            proof {
                assert(month_interp(r@) =~= cs.push((k, 1int)));
                assert forall|jj: int| 0 <= jj < r@.len() implies (
                #[trigger] r@[jj]).severity_total == month_sev_sum(
                    eps@.take(i + 1),
                    month_interp(r@)[jj].0,
                ) by {
                    if jj < r@.len() - 1 {
                        assert(month_interp(r@)[jj] == cs[jj]);
                        assert(cs[jj].0 != k);
                    } else {
                        assert(month_interp(r@)[jj].0 == k);
                        assert(month_sev_sum(eps@.take(i as int), k) == 0) by {
                            assert(months(eps@.take(i as int)) =~= keys.take(i as int));
                            lemma_month_sum_absent(eps@.take(i as int), k, keys.take(i as int));
                        }
                    }
                }
            }
        }
        i = i + 1;
    }
    proof {
        assert(months(eps@).take(n as int) =~= months(eps@));
        assert(eps@.take(n as int) =~= eps@);
    }
    r
}

/// A month absent from the key histogram has severity sum 0.
proof fn lemma_month_sum_absent(s: Seq<Episode>, k: (int, int), keys: Seq<(int, int)>)
    requires
        keys == months(s),
        forall|jj: int| 0 <= jj < tally_of(keys).len() ==> (#[trigger] tally_of(keys)[jj]).0 != k,
    ensures
        month_sev_sum(s, k) == 0,
    decreases s.len(),
{
    lemma_tally_occ(keys);
    crate::tally::lemma_has_key_index(tally_of(keys), k);
    assert(!crate::tally::has_key(tally_of(keys), k));
    crate::tally::lemma_occ_bounds(keys, k);
    assert(crate::tally::occ_count(keys, k) == 0);
    lemma_month_sum_from_occ(s, k);
}

/// The severity sum of an unrepresented month is 0.
proof fn lemma_month_sum_from_occ(s: Seq<Episode>, k: (int, int))
    requires
        crate::tally::occ_count(months(s), k) == 0,
    ensures
        month_sev_sum(s, k) == 0,
    decreases s.len(),
{
    if s.len() > 0 {
        let keys = months(s);
        assert(keys.drop_last() =~= months(s.drop_last()));
        assert(keys.last() == ep_month(s.last()));
        crate::tally::lemma_occ_bounds(months(s.drop_last()), k);
        lemma_month_sum_from_occ(s.drop_last(), k);
    }
}

pub open spec fn dur_views(s: Seq<i32>) -> Seq<int> {
    s.map_values(|d: i32| d as int)
}

/// One snapshot's present durations, as a vector.
fn collect_durations(eps: &Vec<Episode>) -> (r: Vec<i32>)
    ensures
        dur_views(r@) == durations(eps@),
{
    let mut r: Vec<i32> = Vec::new();
    let mut i: usize = 0;
    while i < eps.len()
        invariant
            0 <= i <= eps.len(),
            dur_views(r@) == durations(eps@.take(i as int)),
        decreases eps.len() - i,
    {
        proof {
            assert(eps@.take(i + 1).drop_last() =~= eps@.take(i as int));
            assert(eps@.take(i + 1).last() == eps@[i as int]);
        }
        match eps[i].duration_minutes {
            Some(d) => {
                let ghost old_r = r@;
                r.push(d);
                proof {
                    assert(dur_views(r@) =~= dur_views(old_r).push(d as int));
                    assert(durations(eps@.take(i + 1)) =~= durations(eps@.take(i as int)).push(
                        d as int,
                    ));
                }
            },
            None => {
                proof {
                    assert(durations(eps@.take(i + 1)) =~= durations(eps@.take(i as int)));
                }
            },
        }
        i = i + 1;
    }
    proof {
        assert(eps@.take(eps@.len() as int) =~= eps@);
    }
    r
}

/// `insert_asc` lands at the first index whose value is larger.
proof fn lemma_insert_asc_at(x: int, s: Seq<int>, j: int)
    requires
        0 <= j <= s.len(),
        forall|i: int| 0 <= i < j ==> s[i] <= x,
        j < s.len() ==> s[j] > x,
    ensures
        insert_asc(x, s) == s.take(j) + seq![x] + s.skip(j),
    decreases j,
{
    if j == 0 {
        if s.len() == 0 {
            assert(seq![x] =~= s.take(0) + seq![x] + s.skip(0));
        } else {
            assert(seq![x] + s =~= s.take(0) + seq![x] + s.skip(0));
        }
    } else {
        let rest = s.drop_first();
        assert(forall|i: int| 0 <= i < rest.len() ==> #[trigger] rest[i] == s[i + 1]);
        lemma_insert_asc_at(x, rest, j - 1);
        assert(seq![s[0]] + (rest.take(j - 1) + seq![x] + rest.skip(j - 1)) =~= s.take(j) + seq![x]
            + s.skip(j));
    }
}

pub proof fn lemma_sort_asc_len(s: Seq<int>)
    ensures
        sort_asc(s).len() == s.len(),
    decreases s.len(),
{
    if s.len() > 0 {
        lemma_sort_asc_len(s.drop_last());
        lemma_insert_asc_len(s.last(), sort_asc(s.drop_last()));
    }
}

proof fn lemma_insert_asc_len(x: int, s: Seq<int>)
    ensures
        insert_asc(x, s).len() == s.len() + 1,
    decreases s.len(),
{
    if s.len() > 0 && s[0] <= x {
        lemma_insert_asc_len(x, s.drop_first());
    }
}

/// Ascending insertion sort of the duration values.
#[verifier::loop_isolation(false)]
fn sort_durations(ds: Vec<i32>) -> (r: Vec<i32>)
    ensures
        dur_views(r@) == sort_asc(dur_views(ds@)),
{
    let ghost orig = dur_views(ds@);
    let mut rest = ds;
    let mut out: Vec<i32> = Vec::new();
    while rest.len() > 0
        invariant
            dur_views(rest@) == orig.skip(orig.len() - rest@.len()),
            rest@.len() <= orig.len(),
            dur_views(out@) == sort_asc(orig.take(orig.len() - rest@.len())),
        decreases rest.len(),
    {
        let ghost i = orig.len() - rest@.len();
        let x = rest.remove(0);
        proof {
            assert(dur_views(rest@) =~= orig.skip(i + 1)) by {
                assert(forall|j: int|
                    0 <= j < rest@.len() ==> dur_views(rest@)[j] == orig.skip(i)[j + 1]);
            }
            assert(x as int == orig.skip(i)[0]);
            assert(x as int == orig[i]);
        }
        let ghost sorted = dur_views(out@);
        let mut idx: usize = 0;
        while idx < out.len() && out[idx] <= x
            invariant
                0 <= idx <= out.len(),
                sorted == dur_views(out@),
                forall|ii: int| 0 <= ii < idx ==> #[trigger] sorted[ii] <= x as int,
            decreases out.len() - idx,
        {
            proof {
                assert(sorted[idx as int] == out@[idx as int] as int);
            }
            idx = idx + 1;
        }
        proof {
            if idx < out.len() {
                assert(sorted[idx as int] == out@[idx as int] as int);
            }
            lemma_insert_asc_at(x as int, sorted, idx as int);
            assert(orig.take(i + 1).drop_last() =~= orig.take(i));
            assert(orig.take(i + 1).last() == orig[i]);
        }
        out.insert(idx, x);
        proof {
            assert(dur_views(out@) =~= sorted.take(idx as int) + seq![x as int] + sorted.skip(
                idx as int,
            ));
        }
    }
    proof {
        assert(orig.take(orig.len() as int) =~= orig);
    }
    out
}

proof fn lemma_durations_len(s: Seq<Episode>)
    ensures
        durations(s).len() == dur_count(s),
    decreases s.len(),
{
    if s.len() > 0 {
        lemma_durations_len(s.drop_last());
    }
}

/// Duration statistics: exact sum and count, the `len/2` element of the
/// sorted durations as median, and the extremes; zeros when no episode
/// carries a duration.
#[verifier::loop_isolation(false)]
fn duration_statistics(eps: &Vec<Episode>) -> (r: DurationStats)
    ensures
        r.duration_total == dur_sum(eps@),
        r.duration_count == dur_count(eps@),
        dur_count(eps@) == 0 ==> r.median_minutes == 0 && r.max_minutes == 0 && r.min_minutes
            == 0,
        dur_count(eps@) > 0 ==> r.median_minutes as int == sort_asc(durations(eps@))[dur_count(
            eps@,
        ) / 2] && r.max_minutes as int == seq_max(durations(eps@)) && r.min_minutes as int
            == seq_min(durations(eps@)),
{
    let totals = duration_totals(eps);
    let ds = collect_durations(eps);
    proof {
        lemma_durations_len(eps@);
    }
    if ds.len() == 0 {
        return DurationStats {
            duration_total: totals.0,
            duration_count: 0,
            median_minutes: 0,
            max_minutes: 0,
            min_minutes: 0,
        };
    }
    let ghost dv = dur_views(ds@);
    let mut mx = ds[0];
    let mut mn = ds[0];
    let mut i: usize = 1;
    while i < ds.len()
        invariant
            1 <= i <= ds.len(),
            mx as int == seq_max(dv.take(i as int)),
            mn as int == seq_min(dv.take(i as int)),
        decreases ds.len() - i,
    {
        proof {
            assert(dv.take(i + 1).drop_last() =~= dv.take(i as int));
            assert(dv.take(i + 1).last() == dv[i as int]);
            assert(dv[i as int] == ds@[i as int] as int);
        }
        if ds[i] > mx {
            mx = ds[i];
        }
        if ds[i] < mn {
            mn = ds[i];
        }
        i = i + 1;
    }
    proof {
        assert(dv.take(dv.len() as int) =~= dv);
    }
    let count = ds.len();
    let sorted = sort_durations(ds);
    proof {
        lemma_sort_asc_len(dv);
    }
    let median = sorted[count / 2];
    DurationStats {
        duration_total: totals.0,
        duration_count: count as u64,
        median_minutes: median,
        max_minutes: mx,
        min_minutes: mn,
    }
}

/// The aggregated analytics of one snapshot.
///
/// Every field is an exact function of the snapshot: total and severity
/// sum, the three histograms in first-encounter order, and the duration
/// statistics.  An empty snapshot yields zeros and empty lists.
pub fn compute_analytics(episodes: &Vec<Episode>) -> (r: AnalyticsData)
    ensures
        r.total_episodes == episodes@.len(),
        r.severity_total == sev_sum(episodes@),
        sev_interp(r.severity_distribution@) == tally_of(severities(episodes@)),
        trig_interp(r.trigger_frequency@) == tally_of(snapshot_raw_tokens(episodes@)),
        month_interp(r.monthly_trends@) == tally_of(months(episodes@)),
        forall|j: int|
            0 <= j < r.monthly_trends@.len() ==> (#[trigger] r.monthly_trends@[j]).severity_total
                == month_sev_sum(episodes@, month_interp(r.monthly_trends@)[j].0),
        forall|j: int|
            0 <= j < r.monthly_trends@.len() ==> (#[trigger] r.monthly_trends@[j]).month@
                == month_key_chars(
                r.monthly_trends@[j].year as int,
                r.monthly_trends@[j].month_number as int,
            ),
        r.duration_stats.duration_total == dur_sum(episodes@),
        r.duration_stats.duration_count == dur_count(episodes@),
        dur_count(episodes@) == 0 ==> r.duration_stats.median_minutes == 0
            && r.duration_stats.max_minutes == 0 && r.duration_stats.min_minutes == 0,
        dur_count(episodes@) > 0 ==> r.duration_stats.median_minutes as int == sort_asc(
            durations(episodes@),
        )[dur_count(episodes@) / 2] && r.duration_stats.max_minutes as int == seq_max(
            durations(episodes@),
        ) && r.duration_stats.min_minutes as int == seq_min(durations(episodes@)),
{
    AnalyticsData {
        total_episodes: episodes.len() as u64,
        severity_total: severity_total(episodes),
        severity_distribution: severity_histogram(episodes),
        trigger_frequency: trigger_histogram(episodes),
        monthly_trends: monthly_trends(episodes),
        duration_stats: duration_statistics(episodes),
    }
}

} // verus!
