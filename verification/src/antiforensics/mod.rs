//! Anti-forensics detection over parsed journal records and master file table entries.

pub mod burst_detector;
pub mod clusters;
pub mod evasion;
pub mod gap_analysis;
pub mod journal_tamper;
pub mod prefetch_audit;
pub mod signature_audit;
pub mod timestomp;

use std::collections::HashMap;
use std::collections::HashSet;
use vstd::prelude::*;

use crate::antiforensics::burst_detector::{deletion_burst_findings, detect_deletion_bursts};
use crate::antiforensics::evasion::{detect_evasion_techniques, evasion_findings};
use crate::antiforensics::gap_analysis::{analyze_usn_gaps, gap_findings, gaps_representable};
use crate::antiforensics::journal_tamper::{
    check_journal_tampering, findings_view, journal_tamper_findings, FindingView, TamperFinding,
    TamperSeverity,
};
use crate::antiforensics::prefetch_audit::{audit_prefetch_tampering, prefetch_findings};
use crate::antiforensics::signature_audit::{audit_signature_changes, signature_findings};
use crate::antiforensics::timestomp::{analyze_timestomping, timestomp_findings};
use crate::journal::UsnJournalData;
use crate::mft::MftNode;
use crate::usn_record::UsnRecord;

verus! {

broadcast use vstd::std_specs::hash::group_hash_axioms;

/// Overall verdict of an audit.
#[derive(Clone, Copy, Debug, PartialEq, Eq, Structural)]
pub enum OverallRisk {
    Clean,
    Suspicious,
    CriticalTampering,
}

impl OverallRisk {
    /// The badge text of a verdict.
    pub open spec fn label(self) -> Seq<char> {
        match self {
            OverallRisk::Clean => "[CLEAN]"@,
            OverallRisk::Suspicious => "[SUSPICIOUS]"@,
            OverallRisk::CriticalTampering => "[CRITICAL TAMPERING DETECTED]"@,
        }
    }

    /// The badge text of the verdict.
    pub fn as_str(&self) -> (s: &'static str)
        ensures
            s@ == self.label(),
    {
        match self {
            OverallRisk::Clean => "[CLEAN]",
            OverallRisk::Suspicious => "[SUSPICIOUS]",
            OverallRisk::CriticalTampering => "[CRITICAL TAMPERING DETECTED]",
        }
    }
}

impl Default for OverallRisk {
    fn default() -> (r: Self)
        ensures
            r == OverallRisk::Clean,
    {
        OverallRisk::Clean
    }
}

/// Everything the audit found.
#[derive(Debug)]
pub struct AntiForensicsReport {
    pub overall_risk: OverallRisk,
    pub critical_count: usize,
    pub suspicious_count: usize,
    pub findings: Vec<TamperFinding>,
    pub evidence_usns: HashSet<i64>,
}

/// A copy of a set of update numbers.
fn copy_i64_set(s: &HashSet<i64>) -> (r: HashSet<i64>)
    ensures
        r@ == s@,
{
    let mut out: HashSet<i64> = HashSet::new();
    let ghost mut seen: Seq<i64> = Seq::empty();
    for x in it: s.iter()
        invariant
            it.seq().unref().to_set() == s@,
            seen == it.seq().unref().take(it.index() as int),
            out@ == seen.to_set(),
        ensures
            seen == it.seq().unref(),
    {
        proof {
            let q = it.seq().unref();
            assert(q.take(it.index() + 1) =~= seen.push(*x));
            assert forall|u: i64| seen.push(*x).contains(u) <==> seen.to_set().insert(*x).contains(u) by {
                if seen.push(*x).contains(u) {
                    let k = choose|k: int| 0 <= k < seen.push(*x).len() && seen.push(*x)[k] == u;
                    if k < seen.len() {
                        assert(seen.contains(u));
                    }
                }
                if seen.contains(u) {
                    let k = choose|k: int| 0 <= k < seen.len() && seen[k] == u;
                    assert(seen.push(*x)[k] == u);
                }
                if u == *x {
                    assert(seen.push(*x)[seen.len() as int] == u);
                }
            }
            assert(seen.push(*x).to_set() =~= seen.to_set().insert(*x));
            seen = seen.push(*x);
        }
        out.insert(*x);
    }
    out
}

impl Clone for AntiForensicsReport {
    /// A copy with the same rating, counts, findings and evidence.
    fn clone(&self) -> (r: Self)
        ensures
            r.overall_risk == self.overall_risk,
            r.critical_count == self.critical_count,
            r.suspicious_count == self.suspicious_count,
            findings_view(r.findings@) == findings_view(self.findings@),
            r.evidence_usns@ == self.evidence_usns@,
    {
        let mut findings: Vec<TamperFinding> = Vec::new();
        let mut i: usize = 0;
        while i < self.findings.len()
            invariant
                i <= self.findings@.len(),
                findings@.len() == i,
                forall|k: int| 0 <= k < i ==> (#[trigger] findings@[k])@ == self.findings@[k]@,
            decreases self.findings@.len() - i,
        {
            findings.push(self.findings[i].clone());
            i = i + 1;
        }
        assert(findings_view(findings@) =~= findings_view(self.findings@));
        AntiForensicsReport {
            overall_risk: self.overall_risk,
            critical_count: self.critical_count,
            suspicious_count: self.suspicious_count,
            findings,
            evidence_usns: copy_i64_set(&self.evidence_usns),
        }
    }
}

impl Default for AntiForensicsReport {
    fn default() -> (r: Self)
        ensures
            r.overall_risk == OverallRisk::Clean,
            r.critical_count == 0,
            r.suspicious_count == 0,
            r.findings@.len() == 0,
            r.evidence_usns@ == Set::<i64>::empty(),
    {
        AntiForensicsReport {
            overall_risk: OverallRisk::Clean,
            critical_count: 0,
            suspicious_count: 0,
            findings: Vec::new(),
            evidence_usns: HashSet::new(),
        }
    }
}

/// All findings of the audit, check after check.
pub open spec fn audit_findings(
    journal: UsnJournalData,
    rs: Seq<UsnRecord>,
    nodes: Map<u64, MftNode>,
) -> Seq<FindingView> {
    journal_tamper_findings(journal, rs.len() as usize) + gap_findings(rs) + timestomp_findings(
        rs,
        nodes,
    ) + deletion_burst_findings(rs) + prefetch_findings(rs) + evasion_findings(rs)
        + signature_findings(rs)
}

/// Number of findings of the given severity.
pub open spec fn severity_count(fs: Seq<FindingView>, s: TamperSeverity) -> nat
    decreases fs.len(),
{
    if fs.len() == 0 {
        0
    } else {
        severity_count(fs.drop_last(), s) + if fs.last().severity == s {
            1nat
        } else {
            0nat
        }
    }
}

/// Every update number that some finding gives as evidence.
pub open spec fn evidence_set(fs: Seq<FindingView>) -> Set<i64>
    decreases fs.len(),
{
    if fs.len() == 0 {
        Set::empty()
    } else {
        evidence_set(fs.drop_last()).union(fs.last().evidence.to_set())
    }
}

/// The overall rating of a list of findings: `CriticalTampering` if one of them is
/// critical, otherwise `Suspicious` if one is suspicious, otherwise `Clean`.
pub open spec fn overall_risk_of(fs: Seq<FindingView>) -> OverallRisk {
    if severity_count(fs, TamperSeverity::Critical) > 0 {
        OverallRisk::CriticalTampering
    } else if severity_count(fs, TamperSeverity::Suspicious) > 0 {
        OverallRisk::Suspicious
    } else {
        OverallRisk::Clean
    }
}

proof fn lemma_to_set_step(ev: Seq<i64>, j: int)
    requires
        0 <= j < ev.len(),
    ensures
        ev.take(j + 1).to_set() == ev.take(j).to_set().insert(ev[j]),
{
    assert forall|u: i64| ev.take(j + 1).to_set().contains(u) <==> ev.take(j).to_set().insert(
        ev[j],
    ).contains(u) by {
        if ev.take(j + 1).contains(u) {
            let k = choose|k: int| 0 <= k < j + 1 && #[trigger] ev.take(j + 1)[k] == u;
            if k < j {
                assert(ev.take(j)[k] == u);
            }
        }
        if ev.take(j).contains(u) {
            let k = choose|k: int| 0 <= k < j && #[trigger] ev.take(j)[k] == u;
            assert(ev.take(j + 1)[k] == u);
        }
        if u == ev[j] {
            assert(ev.take(j + 1)[j] == u);
        }
    }
    assert(ev.take(j + 1).to_set() =~= ev.take(j).to_set().insert(ev[j]));
}

/// The findings of every check, check after check.
fn collect_findings(
    journal: &UsnJournalData,
    records: &[UsnRecord],
    mft_nodes: &HashMap<u64, MftNode>,
) -> (r: Vec<TamperFinding>)
    requires
        gaps_representable(records@),
    ensures
        findings_view(r@) == audit_findings(*journal, records@, mft_nodes@),
{
    let mut all_findings = check_journal_tampering(journal, records.len());
    let mut gap_report = analyze_usn_gaps(records);
    all_findings.append(&mut gap_report.findings);
    let mut f = analyze_timestomping(records, mft_nodes);
    all_findings.append(&mut f);
    let mut f = detect_deletion_bursts(records);
    all_findings.append(&mut f);
    let mut f = audit_prefetch_tampering(records);
    all_findings.append(&mut f);
    let mut f = detect_evasion_techniques(records);
    all_findings.append(&mut f);
    let mut f = audit_signature_changes(records);
    all_findings.append(&mut f);
    assert(findings_view(all_findings@) =~= audit_findings(*journal, records@, mft_nodes@));
    all_findings
}

/// Rates a list of findings: counts by severity, the evidence, and the verdict.
pub fn summarize_findings(all_findings: Vec<TamperFinding>) -> (r: AntiForensicsReport)
    ensures
        r.findings@ == all_findings@,
        r.critical_count == severity_count(findings_view(r.findings@), TamperSeverity::Critical),
        r.suspicious_count == severity_count(
            findings_view(r.findings@),
            TamperSeverity::Suspicious,
        ),
        r.evidence_usns@ == evidence_set(findings_view(r.findings@)),
        r.overall_risk == overall_risk_of(findings_view(r.findings@)),
{
    let ghost fs = findings_view(all_findings@);
    let mut critical_count: usize = 0;
    let mut suspicious_count: usize = 0;
    let mut evidence_usns: HashSet<i64> = HashSet::new();
    let mut i: usize = 0;
    while i < all_findings.len()
        invariant
            i <= all_findings@.len(),
            fs == findings_view(all_findings@),
            critical_count == severity_count(fs.take(i as int), TamperSeverity::Critical),
            suspicious_count == severity_count(fs.take(i as int), TamperSeverity::Suspicious),
            critical_count <= i,
            suspicious_count <= i,
            evidence_usns@ == evidence_set(fs.take(i as int)),
        decreases all_findings@.len() - i,
    {
        let f = &all_findings[i];
        proof {
            assert(fs.take(i + 1).drop_last() =~= fs.take(i as int));
            assert(fs.take(i + 1).last() == f@);
        }
        match f.severity {
            TamperSeverity::Critical => critical_count = critical_count + 1,
            TamperSeverity::Suspicious => suspicious_count = suspicious_count + 1,
            TamperSeverity::Clean => {},
        }
        let ghost base = evidence_usns@;
        let mut j: usize = 0;
        assert(f.evidence@.take(0).to_set() =~= Set::<i64>::empty());
        while j < f.evidence.len()
            invariant
                j <= f.evidence@.len(),
                evidence_usns@ == base.union(f.evidence@.take(j as int).to_set()),
            decreases f.evidence@.len() - j,
        {
            evidence_usns.insert(f.evidence[j]);
            proof {
                lemma_to_set_step(f.evidence@, j as int);
                assert(base.union(f.evidence@.take(j + 1).to_set()) =~= base.union(
                    f.evidence@.take(j as int).to_set(),
                ).insert(f.evidence@[j as int]));
            }
            j = j + 1;
        }
        assert(f.evidence@.take(f.evidence@.len() as int) =~= f.evidence@);
        i = i + 1;
    }
    assert(fs.take(fs.len() as int) =~= fs);
    let overall_risk = if critical_count > 0 {
        OverallRisk::CriticalTampering
    } else if suspicious_count > 0 {
        OverallRisk::Suspicious
    } else {
        OverallRisk::Clean
    };
    AntiForensicsReport {
        overall_risk,
        critical_count,
        suspicious_count,
        findings: all_findings,
        evidence_usns,
    }
}

/// Runs every check over the journal metadata, the records and the master file table
/// entries, and rates the result.
pub fn run_antiforensics_audit(
    journal: &UsnJournalData,
    records: &[UsnRecord],
    mft_nodes: &HashMap<u64, MftNode>,
) -> (r: AntiForensicsReport)
    requires
        gaps_representable(records@),
    ensures
        findings_view(r.findings@) == audit_findings(*journal, records@, mft_nodes@),
        r.critical_count == severity_count(findings_view(r.findings@), TamperSeverity::Critical),
        r.suspicious_count == severity_count(
            findings_view(r.findings@),
            TamperSeverity::Suspicious,
        ),
        r.evidence_usns@ == evidence_set(findings_view(r.findings@)),
        r.overall_risk == overall_risk_of(findings_view(r.findings@)),
{
    let all_findings = collect_findings(journal, records, mft_nodes);
    summarize_findings(all_findings)
}

} // verus!
