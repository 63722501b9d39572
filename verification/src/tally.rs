//! Association-list histograms and a stable descending sort, in
//! specification form.
//!
//! A histogram over keys of any type is a sequence of `(key, count)`
//! pairs in first-encounter order.  [`bump`] adds one occurrence,
//! [`tally_of`] folds a whole token sequence, and [`sort_desc`] is the
//! stable insertion sort by descending count that ranks the result.

use vstd::prelude::*;

verus! {

/// The histogram with one more occurrence of `k`: the first entry with
/// key `k` is incremented, or a new entry with count 1 is appended.
pub open spec fn bump<K>(cs: Seq<(K, int)>, k: K) -> Seq<(K, int)>
    decreases cs.len(),
{
    if cs.len() == 0 {
        seq![(k, 1int)]
    } else if cs[0].0 == k {
        seq![(cs[0].0, cs[0].1 + 1)] + cs.drop_first()
    } else {
        seq![cs[0]] + bump(cs.drop_first(), k)
    }
}

/// The histogram of a token sequence, keys in first-encounter order.
pub open spec fn tally_of<K>(toks: Seq<K>) -> Seq<(K, int)>
    decreases toks.len(),
{
    if toks.len() == 0 {
        Seq::empty()
    } else {
        bump(tally_of(toks.drop_last()), toks.last())
    }
}

/// How often `k` occurs in a token sequence.
pub open spec fn occ_count<K>(toks: Seq<K>, k: K) -> int
    decreases toks.len(),
{
    if toks.len() == 0 {
        0
    } else {
        occ_count(toks.drop_last(), k) + if toks.last() == k {
            1int
        } else {
            0int
        }
    }
}

/// The count stored for `k`, or 0 when the key is absent.
pub open spec fn count_in<K>(cs: Seq<(K, int)>, k: K) -> int
    decreases cs.len(),
{
    if cs.len() == 0 {
        0
    } else if cs[0].0 == k {
        cs[0].1
    } else {
        count_in(cs.drop_first(), k)
    }
}

/// Whether the histogram holds an entry for `k`.
pub open spec fn has_key<K>(cs: Seq<(K, int)>, k: K) -> bool
    decreases cs.len(),
{
    cs.len() > 0 && (cs[0].0 == k || has_key(cs.drop_first(), k))
}

/// No two entries share a key.
pub open spec fn distinct_keys<K>(cs: Seq<(K, int)>) -> bool {
    forall|i: int, j: int| 0 <= i < j < cs.len() ==> (#[trigger] cs[i]).0 != (#[trigger] cs[j]).0
}

pub proof fn lemma_occ_bounds<K>(toks: Seq<K>, k: K)
    ensures
        0 <= occ_count(toks, k) <= toks.len(),
    decreases toks.len(),
{
    if toks.len() > 0 {
        lemma_occ_bounds(toks.drop_last(), k);
    }
}

/// One `bump` on a histogram with distinct keys: the bumped key gains
/// one, every other key keeps its count and presence.
pub proof fn lemma_bump_props<K>(cs: Seq<(K, int)>, k: K)
    requires
        distinct_keys(cs),
    ensures
        distinct_keys(bump(cs, k)),
        count_in(bump(cs, k), k) == count_in(cs, k) + 1,
        forall|k2: K| k2 != k ==> count_in(bump(cs, k), k2) == count_in(cs, k2),
        has_key(bump(cs, k), k),
        forall|k2: K| k2 != k ==> has_key(bump(cs, k), k2) == has_key(cs, k2),
    decreases cs.len(),
{
    let b = bump(cs, k);
    if cs.len() == 0 {
        assert(b == seq![(k, 1int)]);
        assert(b[0] == (k, 1int));
        assert(b.drop_first() =~= Seq::<(K, int)>::empty());
        assert forall|k2: K| k2 != k implies count_in(b, k2) == count_in(cs, k2) by {
            assert(count_in(b.drop_first(), k2) == 0);
        }
        assert forall|k2: K| k2 != k implies has_key(b, k2) == has_key(cs, k2) by {
            assert(!has_key(b.drop_first(), k2));
        }
    } else if cs[0].0 == k {
        assert(b == seq![(cs[0].0, cs[0].1 + 1)] + cs.drop_first());
        assert(b[0] == (cs[0].0, cs[0].1 + 1));
        assert(b.drop_first() =~= cs.drop_first());
        assert(count_in(b, k) == cs[0].1 + 1);
        assert forall|k2: K| k2 != k implies count_in(b, k2) == count_in(cs, k2) by {
            assert(count_in(b, k2) == count_in(b.drop_first(), k2));
            assert(count_in(cs, k2) == count_in(cs.drop_first(), k2));
        }
        assert forall|k2: K| k2 != k implies has_key(b, k2) == has_key(cs, k2) by {
            assert(has_key(b, k2) == has_key(b.drop_first(), k2));
            assert(has_key(cs, k2) == has_key(cs.drop_first(), k2));
        }
        assert(distinct_keys(b)) by {
            assert(b.len() == cs.len());
            assert(forall|i: int| 0 <= i < b.len() ==> (#[trigger] b[i]).0 == cs[i].0);
        }
    } else {
        let rest = cs.drop_first();
        assert(distinct_keys(rest)) by {
            assert(forall|i: int| 0 <= i < rest.len() ==> #[trigger] rest[i] == cs[i + 1]);
        }
        lemma_bump_props(rest, k);
        assert(b == seq![cs[0]] + bump(rest, k));
        assert(b[0] == cs[0]);
        assert(b.drop_first() =~= bump(rest, k));
        assert(count_in(b, k) == count_in(bump(rest, k), k));
        assert(count_in(cs, k) == count_in(rest, k));
        assert forall|k2: K| k2 != k implies count_in(b, k2) == count_in(cs, k2) by {
            if cs[0].0 == k2 {
                assert(count_in(b, k2) == b[0].1);
                assert(count_in(cs, k2) == cs[0].1);
            } else {
                assert(count_in(b, k2) == count_in(bump(rest, k), k2));
                assert(count_in(cs, k2) == count_in(rest, k2));
            }
        }
        assert(has_key(b, k)) by {
            assert(has_key(b.drop_first(), k));
        }
        assert forall|k2: K| k2 != k implies has_key(b, k2) == has_key(cs, k2) by {
            if cs[0].0 == k2 {
            } else {
                assert(has_key(b, k2) == has_key(bump(rest, k), k2));
                assert(has_key(cs, k2) == has_key(rest, k2));
            }
        }
        assert(distinct_keys(b)) by {
            assert(!has_key(rest, cs[0].0)) by {
                lemma_has_key_index(rest, cs[0].0);
                if has_key(rest, cs[0].0) {
                    let w = choose|w: int| 0 <= w < rest.len() && (#[trigger] rest[w]).0 == cs[0].0;
                    assert(cs[w + 1].0 == cs[0].0);
                }
            }
            assert(!has_key(bump(rest, k), cs[0].0));
            lemma_has_key_index(bump(rest, k), cs[0].0);
            assert(forall|j: int| 1 <= j < b.len() ==> #[trigger] b[j] == bump(rest, k)[j - 1]);
            assert forall|i: int, j: int| 0 <= i < j < b.len() implies (#[trigger] b[i]).0 != (
            #[trigger] b[j]).0 by {
                if i == 0 {
                    assert(b[j] == bump(rest, k)[j - 1]);
                } else {
                    assert(b[i] == bump(rest, k)[i - 1]);
                    assert(b[j] == bump(rest, k)[j - 1]);
                }
            }
        }
    }
}

/// A key is present exactly when some entry carries it.
pub proof fn lemma_has_key_index<K>(cs: Seq<(K, int)>, k: K)
    ensures
        has_key(cs, k) <==> exists|j: int| 0 <= j < cs.len() && (#[trigger] cs[j]).0 == k,
    decreases cs.len(),
{
    if cs.len() > 0 {
        lemma_has_key_index(cs.drop_first(), k);
        let rest = cs.drop_first();
        if has_key(cs, k) {
            if cs[0].0 == k {
                assert(cs[0].0 == k && 0 < cs.len());
            } else {
                let j = choose|j: int| 0 <= j < rest.len() && (#[trigger] rest[j]).0 == k;
                assert(cs[j + 1].0 == k);
            }
        } else {
            assert(forall|j: int| 1 <= j < cs.len() ==> (#[trigger] cs[j]).0 == rest[j - 1].0);
        }
    }
}

/// With distinct keys, each entry stores the count looked up for its key.
pub proof fn lemma_count_entry<K>(cs: Seq<(K, int)>, j: int)
    requires
        distinct_keys(cs),
        0 <= j < cs.len(),
    ensures
        count_in(cs, cs[j].0) == cs[j].1,
    decreases j,
{
    if j > 0 {
        let rest = cs.drop_first();
        assert(distinct_keys(rest)) by {
            assert(forall|i: int| 0 <= i < rest.len() ==> #[trigger] rest[i] == cs[i + 1]);
        }
        assert(cs[0].0 != cs[j].0);
        lemma_count_entry(rest, j - 1);
        assert(rest[j - 1] == cs[j]);
    }
}

/// The histogram of a token sequence counts exactly the occurrences.
pub proof fn lemma_tally_occ<K>(toks: Seq<K>)
    ensures
        distinct_keys(tally_of(toks)),
        forall|k: K| #[trigger] count_in(tally_of(toks), k) == occ_count(toks, k),
        forall|k: K| #[trigger] has_key(tally_of(toks), k) <==> occ_count(toks, k) >= 1,
    decreases toks.len(),
{
    if toks.len() > 0 {
        let dl = toks.drop_last();
        let last = toks.last();
        lemma_tally_occ(dl);
        lemma_bump_props(tally_of(dl), last);
        assert(tally_of(toks) == bump(tally_of(dl), last));
        assert forall|k: K| #[trigger] count_in(tally_of(toks), k) == occ_count(toks, k) by {
            if k == last {
                assert(count_in(bump(tally_of(dl), last), last) == count_in(tally_of(dl), last)
                    + 1);
            } else {
                assert(count_in(bump(tally_of(dl), last), k) == count_in(tally_of(dl), k));
            }
        }
        assert forall|k: K| #[trigger] has_key(tally_of(toks), k) <==> occ_count(toks, k)
            >= 1 by {
            if k == last {
                assert(has_key(bump(tally_of(dl), last), last));
                lemma_occ_bounds(dl, k);
            } else {
                assert(has_key(bump(tally_of(dl), last), k) == has_key(tally_of(dl), k));
            }
        }
    }
}

/// Every stored count lies between 1 and the number of tokens.
pub proof fn lemma_tally_counts_range<K>(toks: Seq<K>, j: int)
    requires
        0 <= j < tally_of(toks).len(),
    ensures
        1 <= tally_of(toks)[j].1 <= toks.len(),
{
    lemma_tally_occ(toks);
    lemma_count_entry(tally_of(toks), j);
    lemma_has_key_index(tally_of(toks), tally_of(toks)[j].0);
    lemma_occ_bounds(toks, tally_of(toks)[j].0);
}

/// `bump` when the key sits at index `j` and nowhere earlier.
pub proof fn lemma_bump_at<K>(cs: Seq<(K, int)>, k: K, j: int)
    requires
        0 <= j < cs.len(),
        cs[j].0 == k,
        forall|i: int| 0 <= i < j ==> (#[trigger] cs[i]).0 != k,
    ensures
        bump(cs, k) == cs.update(j, (k, cs[j].1 + 1)),
    decreases j,
{
    if j == 0 {
        assert(seq![(cs[0].0, cs[0].1 + 1)] + cs.drop_first() =~= cs.update(0, (k, cs[0].1 + 1)));
    } else {
        let rest = cs.drop_first();
        assert(forall|i: int| 0 <= i < j - 1 ==> (#[trigger] rest[i]).0 == cs[i + 1].0);
        lemma_bump_at(rest, k, j - 1);
        assert(rest[j - 1] == cs[j]);
        assert(seq![cs[0]] + rest.update(j - 1, (k, cs[j].1 + 1)) =~= cs.update(
            j,
            (k, cs[j].1 + 1),
        ));
    }
}

/// `bump` when the key is absent: a new entry is appended.
pub proof fn lemma_bump_missing<K>(cs: Seq<(K, int)>, k: K)
    requires
        forall|i: int| 0 <= i < cs.len() ==> (#[trigger] cs[i]).0 != k,
    ensures
        bump(cs, k) == cs.push((k, 1int)),
    decreases cs.len(),
{
    if cs.len() == 0 {
        assert(seq![(k, 1int)] =~= cs.push((k, 1int)));
    } else {
        let rest = cs.drop_first();
        assert(forall|i: int| 0 <= i < rest.len() ==> (#[trigger] rest[i]).0 == cs[i + 1].0);
        lemma_bump_missing(rest, k);
        assert(seq![cs[0]] + rest.push((k, 1int)) =~= cs.push((k, 1int)));
    }
}

/// Insertion into a descending list, after all entries with an equal or
/// higher count (so a later-arriving equal key stays behind).
pub open spec fn insert_desc<K>(p: (K, int), s: Seq<(K, int)>) -> Seq<(K, int)>
    decreases s.len(),
{
    if s.len() == 0 {
        seq![p]
    } else if s[0].1 >= p.1 {
        seq![s[0]] + insert_desc(p, s.drop_first())
    } else {
        seq![p] + s
    }
}

/// Stable insertion sort by descending count.
pub open spec fn sort_desc<K>(s: Seq<(K, int)>) -> Seq<(K, int)>
    decreases s.len(),
{
    if s.len() == 0 {
        s
    } else {
        insert_desc(s.last(), sort_desc(s.drop_last()))
    }
}

/// Counts are non-increasing.
pub open spec fn sorted_desc<K>(s: Seq<(K, int)>) -> bool {
    forall|i: int, j: int| 0 <= i <= j < s.len() ==> (#[trigger] s[i]).1 >= (#[trigger] s[j]).1
}

pub proof fn lemma_insert_desc_props<K>(p: (K, int), s: Seq<(K, int)>)
    requires
        sorted_desc(s),
    ensures
        sorted_desc(insert_desc(p, s)),
        insert_desc(p, s).len() == s.len() + 1,
        forall|q: (K, int)| #[trigger] insert_desc(p, s).contains(q) <==> (q == p || s.contains(q)),
    decreases s.len(),
{
    if s.len() == 0 {
        assert forall|q: (K, int)| #[trigger] insert_desc(p, s).contains(q) implies (q == p
            || s.contains(q)) by {
            assert(insert_desc(p, s)[0] == p);
        }
        assert(insert_desc(p, s).contains(p)) by {
            assert(insert_desc(p, s)[0] == p);
        }
    } else if s[0].1 >= p.1 {
        let rest = s.drop_first();
        assert(sorted_desc(rest)) by {
            assert(forall|i: int, j: int|
                0 <= i <= j < rest.len() ==> (#[trigger] rest[i]).1 == s[i + 1].1 && (
                #[trigger] rest[j]).1 == s[j + 1].1);
        }
        lemma_insert_desc_props(p, rest);
        let b = seq![s[0]] + insert_desc(p, rest);
        assert(forall|j: int| 1 <= j < b.len() ==> b[j] == insert_desc(p, rest)[j - 1]);
        assert(sorted_desc(b)) by {
            assert forall|j: int| 1 <= j < b.len() implies s[0].1 >= (#[trigger] b[j]).1 by {
                assert(insert_desc(p, rest).contains(b[j]));
                if b[j] == p {
                } else {
                    let w = choose|w: int| 0 <= w < rest.len() && rest[w] == b[j];
                    assert(s[w + 1] == b[j]);
                }
            }
        }
        assert forall|q: (K, int)| #[trigger] b.contains(q) implies (q == p || s.contains(q)) by {
            let w = choose|w: int| 0 <= w < b.len() && b[w] == q;
            if w == 0 {
                assert(s[0] == q);
            } else {
                assert(insert_desc(p, rest).contains(q));
                if q != p {
                    let v = choose|v: int| 0 <= v < rest.len() && rest[v] == q;
                    assert(s[v + 1] == q);
                }
            }
        }
        assert forall|q: (K, int)| (q == p || s.contains(q)) implies #[trigger] b.contains(q) by {
            if q == p {
                assert(insert_desc(p, rest).contains(p));
                let v = choose|v: int| 0 <= v < insert_desc(p, rest).len() && insert_desc(
                    p,
                    rest,
                )[v] == p;
                assert(b[v + 1] == p);
            } else {
                let w = choose|w: int| 0 <= w < s.len() && s[w] == q;
                if w == 0 {
                    assert(b[0] == q);
                } else {
                    assert(rest[w - 1] == q);
                    assert(insert_desc(p, rest).contains(q));
                    let v = choose|v: int| 0 <= v < insert_desc(p, rest).len() && insert_desc(
                        p,
                        rest,
                    )[v] == q;
                    assert(b[v + 1] == q);
                }
            }
        }
    } else {
        let b = seq![p] + s;
        assert(b[0] == p);
        assert(forall|j: int| 1 <= j < b.len() ==> b[j] == s[j - 1]);
        assert(sorted_desc(b));
        assert forall|q: (K, int)| (q == p || s.contains(q)) implies #[trigger] b.contains(q) by {
            if q == p {
                assert(b[0] == p);
            } else {
                let w = choose|w: int| 0 <= w < s.len() && s[w] == q;
                assert(b[w + 1] == q);
            }
        }
        assert forall|q: (K, int)| #[trigger] b.contains(q) implies (q == p || s.contains(q)) by {
            let w = choose|w: int| 0 <= w < b.len() && b[w] == q;
            if w > 0 {
                assert(s[w - 1] == q);
            }
        }
    }
}

pub proof fn lemma_sort_desc_props<K>(s: Seq<(K, int)>)
    ensures
        sorted_desc(sort_desc(s)),
        sort_desc(s).len() == s.len(),
        forall|q: (K, int)| #[trigger] sort_desc(s).contains(q) <==> s.contains(q),
    decreases s.len(),
{
    if s.len() > 0 {
        let dl = s.drop_last();
        lemma_sort_desc_props(dl);
        lemma_insert_desc_props(s.last(), sort_desc(dl));
        assert forall|q: (K, int)| #[trigger] sort_desc(s).contains(q) implies s.contains(q) by {
            if q == s.last() {
                assert(s[s.len() - 1] == q);
            } else {
                assert(dl.contains(q));
                let w = choose|w: int| 0 <= w < dl.len() && dl[w] == q;
                assert(s[w] == q);
            }
        }
        assert forall|q: (K, int)| s.contains(q) implies #[trigger] sort_desc(s).contains(q) by {
            let w = choose|w: int| 0 <= w < s.len() && s[w] == q;
            if w == s.len() - 1 {
                assert(q == s.last());
            } else {
                assert(dl[w] == q);
            }
        }
    }
}

/// `insert_desc` lands at the first index whose count is smaller.
pub proof fn lemma_insert_desc_at<K>(p: (K, int), s: Seq<(K, int)>, j: int)
    requires
        0 <= j <= s.len(),
        forall|i: int| 0 <= i < j ==> (#[trigger] s[i]).1 >= p.1,
        j < s.len() ==> s[j].1 < p.1,
    ensures
        insert_desc(p, s) == s.take(j) + seq![p] + s.skip(j),
    decreases j,
{
    if j == 0 {
        if s.len() == 0 {
            assert(seq![p] =~= s.take(0) + seq![p] + s.skip(0));
        } else {
            assert(s[0].1 < p.1);
            assert(seq![p] + s =~= s.take(0) + seq![p] + s.skip(0));
        }
    } else {
        assert(s[0].1 >= p.1);
        let rest = s.drop_first();
        assert(forall|i: int| 0 <= i < rest.len() ==> #[trigger] rest[i] == s[i + 1]);
        lemma_insert_desc_at(p, rest, j - 1);
        assert(seq![s[0]] + (rest.take(j - 1) + seq![p] + rest.skip(j - 1)) =~= s.take(j) + seq![p]
            + s.skip(j));
    }
}

} // verus!
