//! The textual body of the medical report.
//!
//! The report's pattern sections — which lists appear, their headers,
//! the per-line markers, and the cap on printed recommendations — are
//! composed here as verified text; page layout and rendering are the
//! caller's concern.

use vstd::prelude::*;

use vstd::string::StringExecFns;

use crate::patterns::PatternAnalysis;
use crate::text::str_views;

verus! {

pub struct PDFReportGenerator;

/// A report section: a header line, then one marked line per item;
/// nothing when the list is empty.
pub open spec fn section_spec(header: Seq<char>, marker: Seq<char>, items: Seq<Seq<char>>) -> Seq<
    Seq<char>,
> {
    if items.len() > 0 {
        seq![header] + items.map_values(|s: Seq<char>| marker + s)
    } else {
        Seq::empty()
    }
}

/// At most the first eight entries.
pub open spec fn take_up_to_8(s: Seq<Seq<char>>) -> Seq<Seq<char>> {
    if s.len() <= 8 {
        s
    } else {
        s.take(8)
    }
}

/// The pattern sections of the report, in page order.
pub open spec fn spec_report_sections(
    triggers: Seq<Seq<char>>,
    severity: Seq<Seq<char>>,
    time: Seq<Seq<char>>,
    risks: Seq<Seq<char>>,
    recommendations: Seq<Seq<char>>,
) -> Seq<Seq<char>> {
    section_spec("IDENTIFIED TRIGGERS"@, "• "@, triggers) + section_spec(
        "SEVERITY PATTERNS"@,
        "• "@,
        severity,
    ) + section_spec("TIME PATTERNS"@, "• "@, time) + section_spec("RISK FACTORS"@, "! "@, risks)
        + section_spec("RECOMMENDATIONS"@, "- "@, take_up_to_8(recommendations))
}

/// Appends one section: header, then each item behind its marker.
#[verifier::loop_isolation(false)]
fn push_section(out: &mut Vec<String>, header: &str, marker: &str, items: &Vec<String>)
    ensures
        str_views(final(out)@) == str_views(old(out)@) + section_spec(
            header@,
            marker@,
            str_views(items@),
        ),
{
    let ghost iv = str_views(items@);
    if items.len() == 0 {
        proof {
            assert(str_views(out@) =~= str_views(out@) + section_spec(header@, marker@, iv));
        }
        return ;
    }
    let ghost base = str_views(out@);
    out.push(String::from_str(header));
    proof {
        assert(str_views(out@) =~= base.push(header@));
    }
    let mut i: usize = 0;
    while i < items.len()
        invariant
            0 <= i <= items.len(),
            str_views(out@) =~= base.push(header@) + iv.take(i as int).map_values(
                |s: Seq<char>| marker@ + s,
            ),
        decreases items.len() - i,
    {
        let mut line = String::from_str(marker);
        line.append(items[i].as_str());
        proof {
            assert(line@ == marker@ + iv[i as int]);
        }
        let ghost old_out = out@;
        out.push(line);
        proof {
            assert(iv.take(i + 1) =~= iv.take(i as int).push(iv[i as int]));
            assert(iv.take(i + 1).map_values(|s: Seq<char>| marker@ + s) =~= iv.take(
                i as int,
            ).map_values(|s: Seq<char>| marker@ + s).push(marker@ + iv[i as int]));
            assert(str_views(out@) =~= str_views(old_out).push(marker@ + iv[i as int]));
        }
        i = i + 1;
    }
    proof {
        assert(iv.take(iv.len() as int) =~= iv);
        assert(base.push(header@) + iv.map_values(|s: Seq<char>| marker@ + s) =~= base + (seq![
            header@,
        ] + iv.map_values(|s: Seq<char>| marker@ + s)));
    }
}

impl PDFReportGenerator {
    /// The report's pattern sections for one analysis result.
    pub fn report_sections(patterns: &PatternAnalysis) -> (r: Vec<String>)
        ensures
            str_views(r@) == spec_report_sections(
                str_views(patterns.common_triggers@),
                str_views(patterns.severity_patterns@),
                str_views(patterns.time_patterns@),
                str_views(patterns.risk_factors@),
                str_views(patterns.recommendations@),
            ),
    {
        let mut out: Vec<String> = Vec::new();
        push_section(&mut out, "IDENTIFIED TRIGGERS", "• ", &patterns.common_triggers);
        push_section(&mut out, "SEVERITY PATTERNS", "• ", &patterns.severity_patterns);
        push_section(&mut out, "TIME PATTERNS", "• ", &patterns.time_patterns);
        push_section(&mut out, "RISK FACTORS", "! ", &patterns.risk_factors);
        let lim: usize = if patterns.recommendations.len() < 8 {
            patterns.recommendations.len()
        } else {
            8
        };
        let mut recs8: Vec<String> = Vec::new();
        let mut j: usize = 0;
        while j < lim
            invariant
                0 <= j <= lim,
                lim <= patterns.recommendations@.len(),
                recs8@.len() == j,
                str_views(recs8@) =~= str_views(patterns.recommendations@).take(lim as int).take(
                    j as int,
                ),
            decreases lim - j,
        {
            let ghost rv = str_views(patterns.recommendations@).take(lim as int);
            let ghost old_r = recs8@;
            recs8.push(String::from_str(patterns.recommendations[j].as_str()));
            proof {
                assert(recs8@[j as int]@ == patterns.recommendations@[j as int]@);
                assert(str_views(recs8@) =~= str_views(old_r).push(rv[j as int]));
                assert(rv.take(j + 1) =~= rv.take(j as int).push(rv[j as int]));
            }
            j = j + 1;
        }
        proof {
            let rv = str_views(patterns.recommendations@);
            assert(rv.take(lim as int).take(lim as int) =~= rv.take(lim as int));
            assert(rv.take(lim as int) =~= take_up_to_8(rv));
        }
        push_section(&mut out, "RECOMMENDATIONS", "- ", &recs8);
        out
    }
}

} // verus!
