//! The episode record and the numeric summaries that the analyzers share.

use chrono::{Datelike, Timelike};
use vstd::prelude::*;

verus! {

/// One logged occurrence of the tracked condition.
///
/// The calendar/clock position of the episode is held as plain values
/// (`year`, `month`, `hour`, `weekday`) so that every analyzer is a pure
/// function of data the verifier can see.  [`Episode::from_timestamp`]
/// fills those fields from a `chrono` timestamp.
#[derive(Debug)]
pub struct Episode {
    pub id: i32,
    pub year: i32,
    /// Month number, 1 to 12.
    pub month: u8,
    /// Hour of day, 0 to 23.
    pub hour: u8,
    /// Day of week, 0 (Monday) to 6 (Sunday).
    pub weekday: u8,
    pub duration_minutes: Option<i32>,
    pub severity: i32,
    pub triggers: Option<String>,
}

impl Episode {
    /// The calendar/clock fields hold what a real timestamp can produce.
    pub open spec fn wf(self) -> bool {
        &&& 1 <= self.month <= 12
        &&& self.hour < 24
        &&& self.weekday < 7
    }
}

/// Every episode of the snapshot is well formed.
pub open spec fn snapshot_wf(s: Seq<Episode>) -> bool {
    forall|i: int| 0 <= i < s.len() ==> #[trigger] s[i].wf()
}

#[verifier::external_type_specification]
#[verifier::external_body]
pub struct ExNaiveDateTime(chrono::NaiveDateTime);

#[verifier::external_type_specification]
#[verifier::external_body]
pub struct ExWeekday(chrono::Weekday);

/// Relies on chrono's `Timelike::hour` for `NaiveDateTime`, documented to
/// return the hour number from 0 to 23.
#[verifier::external_body]
fn hour_of(ts: &chrono::NaiveDateTime) -> (h: u32)
    ensures
        h < 24,
{
    ts.hour()
}

/// Relies on chrono's `Datelike::month` for `NaiveDateTime`, documented to
/// return the month number from 1 to 12.
#[verifier::external_body]
fn month_of(ts: &chrono::NaiveDateTime) -> (m: u32)
    ensures
        1 <= m <= 12,
{
    ts.month()
}

/// Relies on chrono's `Datelike::year` for `NaiveDateTime`.
#[verifier::external_body]
fn year_of(ts: &chrono::NaiveDateTime) -> i32 {
    ts.year()
}

/// Relies on chrono's `Datelike::weekday` for `NaiveDateTime`.
#[verifier::external_body]
fn weekday_of(ts: &chrono::NaiveDateTime) -> chrono::Weekday {
    ts.weekday()
}

/// Relies on chrono's `Weekday::number_from_monday`, documented to return
/// 1 (Monday) to 7 (Sunday).
#[verifier::external_body]
fn weekday_number_from_monday(d: chrono::Weekday) -> (n: u32)
    ensures
        1 <= n <= 7,
{
    d.number_from_monday()
}

impl Episode {
    /// Builds a well-formed episode from a `chrono` timestamp and the
    /// remaining record fields.
    pub fn from_timestamp(
        id: i32,
        ts: &chrono::NaiveDateTime,
        duration_minutes: Option<i32>,
        severity: i32,
        triggers: Option<String>,
    ) -> (e: Episode)
        ensures
            e.wf(),
            e.id == id,
            e.duration_minutes == duration_minutes,
            e.severity == severity,
            e.triggers == triggers,
    {
        let hour = hour_of(ts);
        let month = month_of(ts);
        let weekday = weekday_number_from_monday(weekday_of(ts));
        Episode {
            id,
            year: year_of(ts),
            month: month as u8,
            hour: hour as u8,
            weekday: (weekday - 1) as u8,
            duration_minutes,
            severity,
            triggers,
        }
    }
}

/// Sum of the severities of a snapshot.
pub open spec fn sev_sum(s: Seq<Episode>) -> int
    decreases s.len(),
{
    if s.len() == 0 {
        0
    } else {
        sev_sum(s.drop_last()) + s.last().severity
    }
}

/// Number of episodes with severity at least 4.
pub open spec fn count_high(s: Seq<Episode>) -> int
    decreases s.len(),
{
    if s.len() == 0 {
        0
    } else {
        count_high(s.drop_last()) + if s.last().severity >= 4 { 1int } else { 0int }
    }
}

/// Number of episodes with severity at most 2.
pub open spec fn count_low(s: Seq<Episode>) -> int
    decreases s.len(),
{
    if s.len() == 0 {
        0
    } else {
        count_low(s.drop_last()) + if s.last().severity <= 2 { 1int } else { 0int }
    }
}

/// Sum of the durations of the episodes that carry one.
pub open spec fn dur_sum(s: Seq<Episode>) -> int
    decreases s.len(),
{
    if s.len() == 0 {
        0
    } else {
        dur_sum(s.drop_last()) + match s.last().duration_minutes {
            Some(d) => d as int,
            None => 0,
        }
    }
}

/// Number of episodes that carry a duration.
pub open spec fn dur_count(s: Seq<Episode>) -> int
    decreases s.len(),
{
    if s.len() == 0 {
        0
    } else {
        dur_count(s.drop_last()) + match s.last().duration_minutes {
            Some(_) => 1int,
            None => 0int,
        }
    }
}

/// Some episode carries a duration strictly above `limit`.
pub open spec fn has_duration_over(s: Seq<Episode>, limit: int) -> bool {
    exists|i: int|
        0 <= i < s.len() && match #[trigger] s[i].duration_minutes {
            Some(d) => d > limit,
            None => false,
        }
}

/// The most recent window: the first three episodes of a newest-first
/// snapshot, or the whole snapshot when it is shorter.
pub open spec fn recent3(s: Seq<Episode>) -> Seq<Episode> {
    if s.len() >= 3 {
        s.take(3)
    } else {
        s
    }
}

/// Severity total of a snapshot, computed.
pub fn severity_total(eps: &Vec<Episode>) -> (t: i128)
    ensures
        t == sev_sum(eps@),
        -0x8000_0000i128 * (eps@.len() as i128) <= t <= 0x8000_0000i128 * (eps@.len() as i128),
{
    let mut t: i128 = 0;
    let mut i: usize = 0;
    while i < eps.len()
        invariant
            0 <= i <= eps.len(),
            t == sev_sum(eps@.take(i as int)),
            -0x8000_0000i128 * (i as i128) <= t <= 0x8000_0000i128 * (i as i128),
        decreases eps.len() - i,
    {
        let s = eps[i].severity;
        proof {
            assert(eps@.take(i + 1).drop_last() =~= eps@.take(i as int));
            assert(eps@.take(i + 1).last() == eps@[i as int]);
        }
        t = t + s as i128;
        i = i + 1;
    }
    proof {
        assert(eps@.take(eps@.len() as int) =~= eps@);
    }
    t
}

/// Number of episodes with severity at least 4, computed.
pub fn high_severity_count(eps: &Vec<Episode>) -> (c: usize)
    ensures
        c == count_high(eps@),
{
    let mut c: usize = 0;
    let mut i: usize = 0;
    while i < eps.len()
        invariant
            0 <= i <= eps.len(),
            c == count_high(eps@.take(i as int)),
            c <= i,
        decreases eps.len() - i,
    {
        proof {
            assert(eps@.take(i + 1).drop_last() =~= eps@.take(i as int));
            assert(eps@.take(i + 1).last() == eps@[i as int]);
        }
        if eps[i].severity >= 4 {
            c = c + 1;
        }
        i = i + 1;
    }
    proof {
        assert(eps@.take(eps@.len() as int) =~= eps@);
    }
    c
}

/// Number of episodes with severity at most 2, computed.
pub fn low_severity_count(eps: &Vec<Episode>) -> (c: usize)
    ensures
        c == count_low(eps@),
{
    let mut c: usize = 0;
    let mut i: usize = 0;
    while i < eps.len()
        invariant
            0 <= i <= eps.len(),
            c == count_low(eps@.take(i as int)),
            c <= i,
        decreases eps.len() - i,
    {
        proof {
            assert(eps@.take(i + 1).drop_last() =~= eps@.take(i as int));
            assert(eps@.take(i + 1).last() == eps@[i as int]);
        }
        if eps[i].severity <= 2 {
            c = c + 1;
        }
        i = i + 1;
    }
    proof {
        assert(eps@.take(eps@.len() as int) =~= eps@);
    }
    c
}

/// Duration total and count over the episodes that carry a duration.
pub fn duration_totals(eps: &Vec<Episode>) -> (r: (i128, usize))
    ensures
        r.0 == dur_sum(eps@),
        r.1 == dur_count(eps@),
{
    let mut t: i128 = 0;
    let mut c: usize = 0;
    let mut i: usize = 0;
    while i < eps.len()
        invariant
            0 <= i <= eps.len(),
            t == dur_sum(eps@.take(i as int)),
            c == dur_count(eps@.take(i as int)),
            c <= i,
            -0x8000_0000i128 * (i as i128) <= t <= 0x8000_0000i128 * (i as i128),
        decreases eps.len() - i,
    {
        proof {
            assert(eps@.take(i + 1).drop_last() =~= eps@.take(i as int));
            assert(eps@.take(i + 1).last() == eps@[i as int]);
        }
        match eps[i].duration_minutes {
            Some(d) => {
                t = t + d as i128;
                c = c + 1;
            },
            None => {},
        }
        i = i + 1;
    }
    proof {
        assert(eps@.take(eps@.len() as int) =~= eps@);
    }
    (t, c)
}

/// Whether some episode's duration is strictly above `limit`, computed.
pub fn any_duration_over(eps: &Vec<Episode>, limit: i32) -> (b: bool)
    ensures
        b == has_duration_over(eps@, limit as int),
{
    let mut i: usize = 0;
    let mut found = false;
    while i < eps.len()
        invariant
            0 <= i <= eps.len(),
            found == has_duration_over(eps@.take(i as int), limit as int),
        decreases eps.len() - i,
    {
        match eps[i].duration_minutes {
            Some(d) => {
                if d > limit {
                    found = true;
                }
            },
            None => {},
        }
        proof {
            let pre = eps@.take(i as int);
            let post = eps@.take(i + 1);
            assert(forall|j: int| 0 <= j < pre.len() ==> pre[j] == post[j]);
            assert(post[i as int] == eps@[i as int]);
        }
        i = i + 1;
    }
    proof {
        assert(eps@.take(eps@.len() as int) =~= eps@);
    }
    found
}

} // verus!
