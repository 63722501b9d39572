//! The severity pattern analyzer.
//!
//! All mean comparisons are carried out exactly over integer sums: for a
//! snapshot of `n` episodes with severity sum `s`, "mean above 3.0" is
//! `s > 3n`, "mean below 2.5" is `2s < 5n`, and the trend comparison of
//! the recent window against the remainder is cleared of denominators the
//! same way.

use vstd::prelude::*;

use crate::episode::{
    count_high, count_low, high_severity_count, low_severity_count, sev_sum, severity_total,
    Episode,
};
use crate::text::{push_sentence, str_views};

verus! {

pub open spec fn moderate_msg() -> Seq<char> {
    "Episodes tend to be moderate to severe in intensity"@
}

pub open spec fn mild_msg() -> Seq<char> {
    "Episodes are generally mild in nature"@
}

pub open spec fn evaluation_msg() -> Seq<char> {
    "Frequent high-severity episodes may indicate need for medical evaluation"@
}

pub open spec fn reassurance_msg() -> Seq<char> {
    "Most episodes are mild, suggesting good overall management"@
}

pub open spec fn increasing_msg() -> Seq<char> {
    "Recent episodes show increasing severity trend"@
}

pub open spec fn decreasing_msg() -> Seq<char> {
    "Recent episodes show decreasing severity trend"@
}

/// The mean-severity band statement: "moderate to severe" above mean 3.0,
/// "generally mild" below mean 2.5, nothing in between.
pub open spec fn band_part(s: Seq<Episode>) -> Seq<Seq<char>> {
    if sev_sum(s) > 3 * s.len() {
        seq![moderate_msg()]
    } else if 2 * sev_sum(s) < 5 * s.len() {
        seq![mild_msg()]
    } else {
        Seq::empty()
    }
}

/// More than a third of the episodes are high-severity.
pub open spec fn high_part(s: Seq<Episode>) -> Seq<Seq<char>> {
    if 3 * count_high(s) > s.len() {
        seq![evaluation_msg()]
    } else {
        Seq::empty()
    }
}

/// More than two thirds of the episodes are low-severity.
pub open spec fn low_part(s: Seq<Episode>) -> Seq<Seq<char>> {
    if 3 * count_low(s) > 2 * s.len() {
        seq![reassurance_msg()]
    } else {
        Seq::empty()
    }
}

/// The trend statement: with at least three episodes, the mean of the
/// three newest is compared against the mean of the rest (denominator 1
/// when the rest is empty); a gap of more than 0.5 in either direction is
/// reported.
pub open spec fn trend_part(s: Seq<Episode>) -> Seq<Seq<char>> {
    if s.len() >= 3 {
        let rsum = sev_sum(s.take(3));
        let m: int = if s.len() - 3 >= 1 {
            s.len() - 3
        } else {
            1
        };
        let osum = sev_sum(s.skip(3));
        if 2 * m * rsum > 6 * osum + 3 * m {
            seq![increasing_msg()]
        } else if 2 * m * rsum < 6 * osum - 3 * m {
            seq![decreasing_msg()]
        } else {
            Seq::empty()
        }
    } else {
        Seq::empty()
    }
}

/// The severity narratives of a snapshot, in rule order.
pub open spec fn spec_severity_patterns(s: Seq<Episode>) -> Seq<Seq<char>> {
    if s.len() == 0 {
        Seq::empty()
    } else {
        band_part(s) + high_part(s) + low_part(s) + trend_part(s)
    }
}

/// The severity narratives, computed.  The snapshot is assumed
/// newest-first; the trend rule reads the first three entries as the
/// recent window.
#[verifier::loop_isolation(false)]
pub fn analyze_severity_patterns(episodes: &Vec<Episode>) -> (r: Vec<String>)
    ensures
        str_views(r@) == spec_severity_patterns(episodes@),
{
    let mut out: Vec<String> = Vec::new();
    let n = episodes.len();
    if n == 0 {
        proof {
            assert(str_views(out@) =~= spec_severity_patterns(episodes@));
        }
        return out;
    }
    let sum = severity_total(episodes);
    let high = high_severity_count(episodes);
    let low = low_severity_count(episodes);
    let n_i = n as i128;
    if sum > 3 * n_i {
        push_sentence(&mut out, "Episodes tend to be moderate to severe in intensity");
    } else if 2 * sum < 5 * n_i {
        push_sentence(&mut out, "Episodes are generally mild in nature");
    }
    proof {
        assert(str_views(out@) =~= band_part(episodes@));
    }
    if 3 * (high as i128) > n_i {
        push_sentence(&mut out, "Frequent high-severity episodes may indicate need for medical evaluation");
    }
    proof {
        assert(str_views(out@) =~= band_part(episodes@) + high_part(episodes@));
    }
    if 3 * (low as i128) > 2 * n_i {
        push_sentence(&mut out, "Most episodes are mild, suggesting good overall management");
    }
    proof {
        assert(str_views(out@) =~= band_part(episodes@) + high_part(episodes@) + low_part(
            episodes@,
        ));
    }
    if n >= 3 {
        let ghost rec = episodes@.take(3);
        let mut rsum: i128 = 0;
        let mut i: usize = 0;
        while i < 3
            invariant
                0 <= i <= 3,
                rsum == sev_sum(rec.take(i as int)),
                -0x8000_0000i128 * (i as i128) <= rsum <= 0x8000_0000i128 * (i as i128),
            decreases 3 - i,
        {
            proof {
                assert(rec.take(i + 1).drop_last() =~= rec.take(i as int));
                assert(rec.take(i + 1).last() == episodes@[i as int]);
            }
            rsum = rsum + episodes[i].severity as i128;
            i = i + 1;
        }
        proof {
            assert(rec.take(3) =~= rec);
        }
        let ghost older = episodes@.skip(3);
        let mut osum: i128 = 0;
        let mut j: usize = 3;
        while j < n
            invariant
                3 <= j <= n,
                osum == sev_sum(older.take(j - 3)),
                -0x8000_0000i128 * ((j - 3) as i128) <= osum <= 0x8000_0000i128 * ((j - 3) as i128),
            decreases n - j,
        {
            proof {
                assert(older.take(j - 3 + 1).drop_last() =~= older.take(j - 3));
                assert(older.take(j - 3 + 1).last() == episodes@[j as int]);
            }
            osum = osum + episodes[j].severity as i128;
            j = j + 1;
        }
        proof {
            assert(older.take(older.len() as int) =~= older);
        }
        let m_i: i128 = if n - 3 >= 1 {
            (n - 3) as i128
        } else {
            1
        };
        proof {
            assert(1 <= m_i);
            assert(m_i <= 0x1_0000_0000_0000_0000i128);
            assert(-0x1_8000_0000i128 <= rsum <= 0x1_8000_0000i128);
            assert((2 * m_i) * rsum <= 0x10000000000000000000000000i128 && (2 * m_i) * rsum
                >= -0x10000000000000000000000000i128) by (nonlinear_arith)
                requires
                    1 <= m_i <= 0x1_0000_0000_0000_0000i128,
                    -0x1_8000_0000i128 <= rsum <= 0x1_8000_0000i128,
            ;
        }
        let lhs = 2 * m_i * rsum;
        if lhs > 6 * osum + 3 * m_i {
            push_sentence(&mut out, "Recent episodes show increasing severity trend");
        } else if lhs < 6 * osum - 3 * m_i {
            push_sentence(&mut out, "Recent episodes show decreasing severity trend");
        }
    }
    proof {
        assert(str_views(out@) =~= spec_severity_patterns(episodes@));
    }
    out
}

} // verus!
