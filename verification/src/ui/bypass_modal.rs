//! The tamper checklist of the audit window and the jumps it offers.
use vstd::prelude::*;

use crate::antiforensics::clusters::first_n;
use crate::antiforensics::journal_tamper::{findings_view, FindingView, TamperFinding};
use crate::text::{contains_chars, contains_seq, push_char, push_signed_decimal, signed_dec, str_chars, strs_view};

verus! {

/// What the user asked for in the audit window.
pub enum BypassModalAction {
    NoAction,
    JumpToUsn(i64),
}

/// Titles of the checklist rows.
pub open spec fn checklist_titles() -> Seq<Seq<char>> {
    strs_view(seq!["Journal Deletion / Recreation", "USN Gap & Discontinuity Analysis", "Timestomping Analysis", "Rapid Deletion Bursts", "Prefetch Wiping"])
}

/// Descriptions of the checklist rows.
pub open spec fn checklist_descriptions() -> Seq<Seq<char>> {
    strs_view(seq!["Audits USN cursor resets, tiny journal allocations, and deletion artifacts.", "Scans for non-contiguous USN jumps and zero-stomped sectors.", "Verifies nanosecond zeroing and $STANDARD_INFORMATION vs $FILE_NAME deltas.", "Detects automated trace scrubbing (>5 deletes within 3 seconds).", "Audits deleted prefetch files for game executables and forensic tools."])
}

/// Number of checklist rows.
pub const CHECKLIST_LEN: usize = 5;

/// Title and description of the `i`-th checklist row.
pub fn checklist_item(i: usize) -> (r: (&'static str, &'static str))
    requires
        i < CHECKLIST_LEN,
    ensures
        r.0@ == checklist_titles()[i as int],
        r.1@ == checklist_descriptions()[i as int],
{
    let titles: [&'static str; 5] = ["Journal Deletion / Recreation", "USN Gap & Discontinuity Analysis", "Timestomping Analysis", "Rapid Deletion Bursts", "Prefetch Wiping"];
    let descs: [&'static str; 5] = ["Audits USN cursor resets, tiny journal allocations, and deletion artifacts.", "Scans for non-contiguous USN jumps and zero-stomped sectors.", "Verifies nanosecond zeroing and $STANDARD_INFORMATION vs $FILE_NAME deltas.", "Detects automated trace scrubbing (>5 deletes within 3 seconds).", "Audits deleted prefetch files for game executables and forensic tools."];
    (titles[i], descs[i])
}

/// Whether a finding's title and a checklist title name the same check: either
/// holds the other.
pub open spec fn title_matches(finding_title: Seq<char>, row: Seq<char>) -> bool {
    contains_seq(finding_title, row) || contains_seq(row, finding_title)
}

/// Index of the first finding that matches the checklist row titled `row`.
pub open spec fn first_match(fs: Seq<FindingView>, row: Seq<char>, i: int) -> Option<int>
    decreases fs.len() - i,
{
    if i < 0 || i >= fs.len() {
        None
    } else if title_matches(fs[i].title, row) {
        Some(i)
    } else {
        first_match(fs, row, i + 1)
    }
}

/// The index of the first finding whose title holds, or is held in, the row title.
pub fn checklist_match(findings: &Vec<TamperFinding>, row: &str) -> (r: Option<usize>)
    ensures
        match r {
            Some(i) => first_match(findings_view(findings@), row@, 0) == Some(i as int),
            None => first_match(findings_view(findings@), row@, 0) is None,
        },
{
    let row_chars = str_chars(row);
    let ghost fs = findings_view(findings@);
    let mut i: usize = 0;
    while i < findings.len()
        invariant
            i <= findings@.len(),
            fs == findings_view(findings@),
            row_chars@ == row@,
            first_match(fs, row@, 0) == first_match(fs, row@, i as int),
        decreases findings@.len() - i,
    {
        let title = str_chars(findings[i].title.as_str());
        if contains_chars(title.as_slice(), row_chars.as_slice()) || contains_chars(
            row_chars.as_slice(),
            title.as_slice(),
        ) {
            return Some(i);
        }
        i = i + 1;
    }
    None
}

/// The search text that jumps to an update number: "#" and the number.
pub fn usn_jump_query(usn: i64) -> (r: String)
    ensures
        r@ == seq!['#'] + signed_dec(usn as int),
{
    let mut s = String::new();
    push_char(&mut s, '#');
    push_signed_decimal(&mut s, usn);
    assert(s@ =~= seq!['#'] + signed_dec(usn as int));
    s
}

/// Number of evidence numbers a finding offers as jumps.
pub const EVIDENCE_JUMPS: usize = 8;

/// The evidence numbers a finding offers as jumps, the first eight, and how many
/// further numbers it holds.
pub fn evidence_jumps(finding: &TamperFinding) -> (r: (Vec<i64>, usize))
    ensures
        r.0@ == first_n(finding.evidence@, 8),
        r.1 == if finding.evidence@.len() > 8 {
            finding.evidence@.len() - 8
        } else {
            0
        },
{
    let n = finding.evidence.len();
    let mut jumps: Vec<i64> = Vec::new();
    let mut i: usize = 0;
    while i < n && i < EVIDENCE_JUMPS
        invariant
            n == finding.evidence@.len(),
            i <= n,
            i <= EVIDENCE_JUMPS,
            jumps@ == finding.evidence@.take(i as int),
        decreases n - i,
    {
        jumps.push(finding.evidence[i]);
        i = i + 1;
        assert(jumps@ =~= finding.evidence@.take(i as int));
    }
    assert(first_n(finding.evidence@, 8) =~= finding.evidence@.take(i as int));
    let more = if n > EVIDENCE_JUMPS {
        n - EVIDENCE_JUMPS
    } else {
        0
    };
    (jumps, more)
}

} // verus!
