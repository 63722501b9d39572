//! The trigger frequency analyzer.
//!
//! Each episode's trigger text is split on commas; every piece is
//! trimmed, lower-cased, and dropped when empty or a sentinel
//! (`"unknown"`, `"none"`).  The surviving tokens are counted in
//! first-encounter order, ranked by descending count (stable), reduced
//! to the tokens seen at least twice, capped at five, and re-capitalized
//! for display.

use vstd::prelude::*;

use crate::episode::Episode;
use crate::tally::{
    lemma_bump_at, lemma_bump_missing, lemma_insert_desc_at, lemma_tally_counts_range, sort_desc,
    tally_of,
};
use crate::text::{
    capitalize_chars, capitalize_spec, char_views, chars_eq, chars_eq_str, chars_to_string,
    lower_chars, lower_of, split_commas, split_commas_exec, str_to_chars, str_views, trim_chars,
    trim_spec,
};

verus! {

/// The normalized form of one comma-split piece.
pub open spec fn norm_token(t: Seq<char>) -> Seq<char> {
    lower_of(trim_spec(t))
}

/// A normalized token that counts: non-empty and not a sentinel.
pub open spec fn is_kept_norm(n: Seq<char>) -> bool {
    n.len() > 0 && n != "unknown"@ && n != "none"@
}

/// The kept normalized forms of a piece sequence, in order.
pub open spec fn kept_norms(pieces: Seq<Seq<char>>) -> Seq<Seq<char>>
    decreases pieces.len(),
{
    if pieces.len() == 0 {
        Seq::empty()
    } else {
        let rest = kept_norms(pieces.drop_last());
        let n = norm_token(pieces.last());
        if is_kept_norm(n) {
            rest.push(n)
        } else {
            rest
        }
    }
}

/// The kept normalized tokens of one trigger text.
pub open spec fn norm_tokens_of(s: Seq<char>) -> Seq<Seq<char>> {
    kept_norms(split_commas(s))
}

/// The kept normalized tokens of one episode.
pub open spec fn ep_tokens(e: Episode) -> Seq<Seq<char>> {
    match e.triggers {
        Some(s) => norm_tokens_of(s@),
        None => Seq::empty(),
    }
}

/// All kept normalized tokens of a snapshot, episode by episode.
pub open spec fn snapshot_tokens(eps: Seq<Episode>) -> Seq<Seq<char>>
    decreases eps.len(),
{
    if eps.len() == 0 {
        Seq::empty()
    } else {
        snapshot_tokens(eps.drop_last()) + ep_tokens(eps.last())
    }
}

/// The token histogram of a snapshot, ranked by descending count.
pub open spec fn ranked_pairs(eps: Seq<Episode>) -> Seq<(Seq<char>, int)> {
    sort_desc(tally_of(snapshot_tokens(eps)))
}

/// The keys of the entries with count at least 2, in ranked order.
pub open spec fn keep_common(s: Seq<(Seq<char>, int)>) -> Seq<Seq<char>>
    decreases s.len(),
{
    if s.len() == 0 {
        Seq::empty()
    } else {
        let rest = keep_common(s.drop_last());
        if s.last().1 >= 2 {
            rest.push(s.last().0)
        } else {
            rest
        }
    }
}

/// At most the first five entries.
pub open spec fn take_up_to_5(s: Seq<Seq<char>>) -> Seq<Seq<char>> {
    if s.len() <= 5 {
        s
    } else {
        s.take(5)
    }
}

/// The common triggers of a snapshot, still in normalized form.
pub open spec fn common_norm(eps: Seq<Episode>) -> Seq<Seq<char>> {
    take_up_to_5(keep_common(ranked_pairs(eps)))
}

/// The common triggers of a snapshot, capitalized for display.
pub open spec fn spec_common_triggers(eps: Seq<Episode>) -> Seq<Seq<char>> {
    common_norm(eps).map_values(|n: Seq<char>| capitalize_spec(n))
}

/// The kept normalized tokens of one trigger text, computed.
fn norm_tokens_exec(text: &str) -> (r: Vec<Vec<char>>)
    ensures
        char_views(r@) == norm_tokens_of(text@),
{
    let cs = str_to_chars(text);
    let pieces = split_commas_exec(&cs);
    let mut r: Vec<Vec<char>> = Vec::new();
    let mut i: usize = 0;
    while i < pieces.len()
        invariant
            0 <= i <= pieces.len(),
            char_views(pieces@) == split_commas(text@),
            char_views(r@) == kept_norms(char_views(pieces@).take(i as int)),
        decreases pieces.len() - i,
    {
        let trimmed = trim_chars(&pieces[i]);
        let lowered = lower_chars(&trimmed);
        let ghost pv = char_views(pieces@);
        proof {
            assert(pv[i as int] == pieces@[i as int]@);
            assert(pv.take(i + 1).drop_last() =~= pv.take(i as int));
            assert(pv.take(i + 1).last() == pv[i as int]);
        }
        let keep = lowered.len() > 0 && !chars_eq_str(&lowered, "unknown") && !chars_eq_str(
            &lowered,
            "none",
        );
        proof {
            assert(lowered@ == norm_token(pv[i as int]));
            assert(keep == is_kept_norm(norm_token(pv[i as int])));
        }
        if keep {
            let ghost old_r = r@;
            r.push(lowered);
            proof {
                assert(char_views(r@) =~= char_views(old_r).push(norm_token(pv[i as int])));
            }
        }
        i = i + 1;
    }
    proof {
        assert(char_views(pieces@).take(pieces@.len() as int) =~= char_views(pieces@));
    }
    r
}

/// All kept normalized tokens of a snapshot, computed.
fn collect_tokens(eps: &Vec<Episode>) -> (r: Vec<Vec<char>>)
    ensures
        char_views(r@) == snapshot_tokens(eps@),
{
    let mut r: Vec<Vec<char>> = Vec::new();
    let mut i: usize = 0;
    while i < eps.len()
        invariant
            0 <= i <= eps.len(),
            char_views(r@) == snapshot_tokens(eps@.take(i as int)),
        decreases eps.len() - i,
    {
        proof {
            assert(eps@.take(i + 1).drop_last() =~= eps@.take(i as int));
            assert(eps@.take(i + 1).last() == eps@[i as int]);
        }
        match &eps[i].triggers {
            Some(s) => {
                let mut toks = norm_tokens_exec(s.as_str());
                let ghost old_r = r@;
                let ghost toks0 = toks@;
                r.append(&mut toks);
                proof {
                    assert(char_views(old_r + toks0) =~= char_views(old_r) + char_views(toks0));
                }
            },
            None => {
                proof {
                    assert(snapshot_tokens(eps@.take(i + 1)) =~= char_views(r@));
                }
            },
        }
        i = i + 1;
    }
    proof {
        assert(eps@.take(eps@.len() as int) =~= eps@);
    }
    r
}

/// One histogram entry: a trigger token and how often it occurred.
pub(crate) struct TriggerTally {
    pub(crate) text: Vec<char>,
    pub(crate) count: u64,
}

pub(crate) open spec fn tally_views(s: Seq<TriggerTally>) -> Seq<(Seq<char>, int)> {
    s.map_values(|t: TriggerTally| (t.text@, t.count as int))
}

/// Counts the tokens in first-encounter order.
#[verifier::loop_isolation(false)]
pub(crate) fn tally_build(tokens: Vec<Vec<char>>) -> (r: Vec<TriggerTally>)
    ensures
        tally_views(r@) == tally_of(char_views(tokens@)),
{
    let ghost toks0 = char_views(tokens@);
    let mut rest = tokens;
    let n_all = rest.len();
    proof {
        assert(toks0.len() == n_all as int);
    }
    let mut r: Vec<TriggerTally> = Vec::new();
    while rest.len() > 0
        invariant
            char_views(rest@) == toks0.skip(toks0.len() - rest@.len()),
            rest@.len() <= toks0.len(),
            toks0.len() <= usize::MAX,
            tally_views(r@) == tally_of(toks0.take(toks0.len() - rest@.len())),
        decreases rest.len(),
    {
        let ghost i = toks0.len() - rest@.len();
        let tok = rest.remove(0);
        proof {
            assert(char_views(rest@) =~= toks0.skip(i + 1)) by {
                assert(forall|j: int|
                    0 <= j < rest@.len() ==> char_views(rest@)[j] == toks0.skip(i)[j + 1]);
            }
            assert(tok@ == toks0.skip(i)[0]);
            assert(tok@ == toks0[i]);
        }
        let ghost cs = tally_views(r@);
        let mut j: usize = 0;
        while j < r.len() && !chars_eq(&r[j].text, &tok)
            invariant
                0 <= j <= r.len(),
                cs == tally_views(r@),
                forall|jj: int| 0 <= jj < j ==> (#[trigger] cs[jj]).0 != tok@,
            decreases r.len() - j,
        {
            proof {
                assert(cs[j as int].0 == r@[j as int].text@);
            }
            j = j + 1;
        }
        let found = j < r.len();
        proof {
            if found {
                assert(cs[j as int].0 == r@[j as int].text@);
                assert(cs[j as int].0 == tok@);
            }
            assert(toks0.take(i + 1).drop_last() =~= toks0.take(i));
            assert(toks0.take(i + 1).last() == toks0[i]);
        }
        if found {
            proof {
                lemma_bump_at(cs, tok@, j as int);
                lemma_tally_counts_range(toks0.take(i), j as int);
                assert(cs[j as int] == (r@[j as int].text@, r@[j as int].count as int));
                assert(cs[j as int].1 <= i);
                assert(i < toks0.len());
            }
            let t = r.remove(j);
            let c = t.count;
            r.insert(j, TriggerTally { text: t.text, count: c + 1 });
            proof {
                assert(tally_views(r@) =~= cs.update(j as int, (tok@, cs[j as int].1 + 1)));
            }
        } else {
            proof {
                assert(forall|jj: int| 0 <= jj < cs.len() ==> (#[trigger] cs[jj]).0 != tok@);
                lemma_bump_missing(cs, tok@);
            }
            r.push(TriggerTally { text: tok, count: 1 });
            proof {
                assert(tally_views(r@) =~= cs.push((toks0[i], 1int)));
            }
        }
    }
    proof {
        assert(toks0.take(toks0.len() as int) =~= toks0);
    }
    r
}

/// Ranks the histogram by descending count; the sort is stable, so ties
/// keep their first-encounter order.
#[verifier::loop_isolation(false)]
fn rank_tallies(ts: Vec<TriggerTally>) -> (r: Vec<TriggerTally>)
    ensures
        tally_views(r@) == sort_desc(tally_views(ts@)),
{
    let ghost orig = tally_views(ts@);
    let mut rest = ts;
    let mut out: Vec<TriggerTally> = Vec::new();
    while rest.len() > 0
        invariant
            tally_views(rest@) == orig.skip(orig.len() - rest@.len()),
            rest@.len() <= orig.len(),
            tally_views(out@) == sort_desc(orig.take(orig.len() - rest@.len())),
        decreases rest.len(),
    {
        let ghost i = orig.len() - rest@.len();
        let t = rest.remove(0);
        proof {
            assert(tally_views(rest@) =~= orig.skip(i + 1)) by {
                assert(forall|j: int|
                    0 <= j < rest@.len() ==> tally_views(rest@)[j] == orig.skip(i)[j + 1]);
            }
            assert((t.text@, t.count as int) == orig.skip(i)[0]);
            assert((t.text@, t.count as int) == orig[i]);
        }
        let ghost p = (t.text@, t.count as int);
        let ghost sorted = tally_views(out@);
        let mut idx: usize = 0;
        while idx < out.len() && out[idx].count >= t.count
            invariant
                0 <= idx <= out.len(),
                sorted == tally_views(out@),
                forall|ii: int| 0 <= ii < idx ==> (#[trigger] sorted[ii]).1 >= p.1,
            decreases out.len() - idx,
        {
            proof {
                assert(sorted[idx as int] == (out@[idx as int].text@, out@[idx as int].count as int));
            }
            idx = idx + 1;
        }
        proof {
            if idx < out.len() {
                assert(sorted[idx as int].1 == out@[idx as int].count as int);
            }
            lemma_insert_desc_at(p, sorted, idx as int);
            assert(orig.take(i + 1).drop_last() =~= orig.take(i));
            assert(orig.take(i + 1).last() == orig[i]);
        }
        out.insert(idx, t);
        proof {
            assert(tally_views(out@) =~= sorted.take(idx as int) + seq![p] + sorted.skip(
                idx as int,
            ));
        }
    }
    proof {
        assert(orig.take(orig.len() as int) =~= orig);
    }
    out
}

/// `keep_common` of a prefix is a prefix of `keep_common` of the whole.
pub proof fn lemma_keep_common_prefix(s: Seq<(Seq<char>, int)>, i: int)
    requires
        0 <= i <= s.len(),
    ensures
        keep_common(s.take(i)).len() <= keep_common(s).len(),
        forall|j: int|
            0 <= j < keep_common(s.take(i)).len() ==> keep_common(s)[j] == keep_common(s.take(i))[j],
    decreases s.len() - i,
{
    if i == s.len() {
        assert(s.take(i) =~= s);
    } else {
        lemma_keep_common_prefix(s, i + 1);
        assert(s.take(i + 1).drop_last() =~= s.take(i));
        assert(s.take(i + 1).last() == s[i]);
    }
}

/// The ranked, filtered, capped and capitalized common-trigger list.
///
/// The snapshot's trigger texts are tokenized and normalized; tokens
/// occurring at least twice survive; the result is ranked by descending
/// count with ties in first-encounter order, holds at most five entries,
/// and carries each trigger with its first character upper-cased.
pub fn identify_common_triggers(episodes: &Vec<Episode>) -> (r: Vec<String>)
    ensures
        str_views(r@) == spec_common_triggers(episodes@),
        r@.len() <= 5,
{
    let tokens = collect_tokens(episodes);
    let tals = tally_build(tokens);
    let ranked = rank_tallies(tals);
    let ghost rv = tally_views(ranked@);
    proof {
        assert(rv == ranked_pairs(episodes@));
    }
    let mut out: Vec<String> = Vec::new();
    let mut i: usize = 0;
    while i < ranked.len() && out.len() < 5
        invariant
            0 <= i <= ranked.len(),
            rv == tally_views(ranked@),
            rv == ranked_pairs(episodes@),
            keep_common(rv.take(i as int)).len() == out@.len() <= 5,
            str_views(out@) == keep_common(rv.take(i as int)).map_values(
                |n: Seq<char>| capitalize_spec(n),
            ),
        decreases ranked.len() - i,
    {
        proof {
            assert(rv.take(i + 1).drop_last() =~= rv.take(i as int));
            assert(rv.take(i + 1).last() == rv[i as int]);
            assert(rv[i as int] == (ranked@[i as int].text@, ranked@[i as int].count as int));
        }
        if ranked[i].count >= 2 {
            let capd = capitalize_chars(&ranked[i].text);
            let ghost old_out = out@;
            out.push(chars_to_string(&capd));
            proof {
                assert(str_views(out@) =~= str_views(old_out).push(
                    capitalize_spec(rv[i as int].0),
                ));
                assert(keep_common(rv.take(i + 1)).map_values(|n: Seq<char>| capitalize_spec(n))
                    =~= keep_common(rv.take(i as int)).map_values(
                    |n: Seq<char>| capitalize_spec(n),
                ).push(capitalize_spec(rv[i as int].0)));
            }
        }
        i = i + 1;
    }
    proof {
        let kc_full = keep_common(rv);
        let kc_i = keep_common(rv.take(i as int));
        lemma_keep_common_prefix(rv, i as int);
        if i == ranked@.len() {
            assert(rv.take(i as int) =~= rv);
            assert(take_up_to_5(kc_full) == kc_full);
        } else {
            assert(out@.len() == 5);
            assert(kc_full.len() >= 5);
            assert(take_up_to_5(kc_full) =~= kc_i);
        }
        assert(str_views(out@) == spec_common_triggers(episodes@));
    }
    out
}

} // verus!
