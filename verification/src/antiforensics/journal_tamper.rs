//! Severity-rated findings, and checks of the journal's own metadata.
use vstd::prelude::*;

use crate::journal::UsnJournalData;
use crate::text::{dec, push_decimal, push_signed_decimal, signed_dec};

verus! {

/// How strongly a finding indicates tampering.
#[derive(Clone, Copy, Debug, PartialEq, Eq, Structural)]
pub enum TamperSeverity {
    Clean,
    Suspicious,
    Critical,
}

/// One detected anti-forensic indicator, with the update sequence numbers of up to
/// twenty records that evidence it.
#[derive(Debug)]
pub struct TamperFinding {
    pub severity: TamperSeverity,
    pub title: String,
    pub description: String,
    pub evidence: Vec<i64>,
}

/// Mathematical model of a [`TamperFinding`].
pub struct FindingView {
    pub severity: TamperSeverity,
    pub title: Seq<char>,
    pub description: Seq<char>,
    pub evidence: Seq<i64>,
}

impl View for TamperFinding {
    type V = FindingView;

    open spec fn view(&self) -> FindingView {
        FindingView {
            severity: self.severity,
            title: self.title@,
            description: self.description@,
            evidence: self.evidence@,
        }
    }
}

impl Clone for TamperFinding {
    /// A copy with the same severity, texts and evidence.
    fn clone(&self) -> (r: Self)
        ensures
            r@ == self@,
    {
        TamperFinding {
            severity: self.severity,
            title: self.title.clone(),
            description: self.description.clone(),
            evidence: vstd::slice::slice_to_vec(self.evidence.as_slice()),
        }
    }
}

/// The models of a list of findings.
pub open spec fn findings_view(v: Seq<TamperFinding>) -> Seq<FindingView> {
    v.map_values(|f: TamperFinding| f@)
}

/// A finding with no evidence list.
pub open spec fn bare_finding(severity: TamperSeverity, title: Seq<char>, description: Seq<char>) -> FindingView {
    FindingView { severity, title, description, evidence: seq![] }
}

pub open spec fn small_journal_finding(journal: UsnJournalData) -> FindingView {
    bare_finding(
        TamperSeverity::Critical,
        "Abnormally Small USN Journal Allocation"@,
        "USN Journal maximum size is set to "@ + dec((journal.maximum_size) as nat) + " bytes (< 2MB). This is a known technique to force rapid journal truncation and destroy execution history."@,
    )
}

pub open spec fn recreated_journal_finding(record_count: usize) -> FindingView {
    bare_finding(
        TamperSeverity::Suspicious,
        "USN Journal Freshly Recreated or Purged"@,
        "LowestValidUsn is 0 with only "@ + dec((record_count) as nat) + " entries. The journal may have been recently cleared via 'fsutil usn deletejournal'."@,
    )
}

pub open spec fn cursor_inversion_finding(journal: UsnJournalData) -> FindingView {
    bare_finding(
        TamperSeverity::Critical,
        "USN Cursor Inversion Anomaly"@,
        "NextUsn ("@ + signed_dec((journal.next_usn) as int) + ") is lower than FirstUsn ("@ + signed_dec((journal.first_usn) as int) + "). Indicates direct sector tampering or journal stream corruption."@,
    )
}

/// Findings on the journal's metadata, in order: a maximum size below 2 MiB (and not 0);
/// a lowest valid number of 0 with a positive next number and fewer than 1000 records;
/// a next number below the first number.
pub open spec fn journal_tamper_findings(journal: UsnJournalData, record_count: usize) -> Seq<FindingView> {
    (if journal.maximum_size > 0 && journal.maximum_size < 2 * 1024 * 1024 {
        seq![small_journal_finding(journal)]
    } else {
        seq![]
    }) + (if journal.lowest_valid_usn == 0 && journal.next_usn > 0 && record_count < 1000 {
        seq![recreated_journal_finding(record_count)]
    } else {
        seq![]
    }) + (if journal.next_usn < journal.first_usn {
        seq![cursor_inversion_finding(journal)]
    } else {
        seq![]
    })
}

/// Checks the journal's metadata for signs of truncation, recreation or corruption.
pub fn check_journal_tampering(journal: &UsnJournalData, record_count: usize) -> (r: Vec<TamperFinding>)
    ensures
        findings_view(r@) == journal_tamper_findings(*journal, record_count),
{
    let mut findings: Vec<TamperFinding> = Vec::new();
    let ghost mut expected: Seq<FindingView> = seq![];
    if journal.maximum_size > 0 && journal.maximum_size < 2 * 1024 * 1024 {
        let mut d = String::from_str("USN Journal maximum size is set to ");
        push_decimal(&mut d, journal.maximum_size);
        d.append(" bytes (< 2MB). This is a known technique to force rapid journal truncation and destroy execution history.");
        findings.push(TamperFinding {
            severity: TamperSeverity::Critical,
            title: String::from_str("Abnormally Small USN Journal Allocation"),
            description: d,
            evidence: Vec::new(),
        });
        proof {
            expected = expected.push(small_journal_finding(*journal));
        }
    }
    assert(findings_view(findings@) =~= expected);
    if journal.lowest_valid_usn == 0 && journal.next_usn > 0 && record_count < 1000 {
        let mut d = String::from_str("LowestValidUsn is 0 with only ");
        push_decimal(&mut d, record_count as u64);
        d.append(" entries. The journal may have been recently cleared via 'fsutil usn deletejournal'.");
        findings.push(TamperFinding {
            severity: TamperSeverity::Suspicious,
            title: String::from_str("USN Journal Freshly Recreated or Purged"),
            description: d,
            evidence: Vec::new(),
        });
        proof {
            expected = expected.push(recreated_journal_finding(record_count));
        }
    }
    assert(findings_view(findings@) =~= expected);
    if journal.next_usn < journal.first_usn {
        let mut d = String::from_str("NextUsn (");
        push_signed_decimal(&mut d, journal.next_usn);
        d.append(") is lower than FirstUsn (");
        push_signed_decimal(&mut d, journal.first_usn);
        d.append("). Indicates direct sector tampering or journal stream corruption.");
        findings.push(TamperFinding {
            severity: TamperSeverity::Critical,
            title: String::from_str("USN Cursor Inversion Anomaly"),
            description: d,
            evidence: Vec::new(),
        });
        proof {
            expected = expected.push(cursor_inversion_finding(*journal));
        }
    }
    assert(findings_view(findings@) =~= expected);
    assert(expected =~= journal_tamper_findings(*journal, record_count));
    findings
}

} // verus!
