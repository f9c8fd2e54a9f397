//! The report export: the selected records with the scan summary and the verdict.
use vstd::prelude::*;

use crate::antiforensics::AntiForensicsReport;
use crate::reporting::selected_records;
use crate::usn_record::UsnRecord;
use crate::worker::ScanStats;

verus! {

broadcast use vstd::string::group_string_axioms;

/// Everything the report export holds.
pub struct FullForensicExport<'a> {
    pub exported_at: String,
    pub total_records_exported: usize,
    pub risk_assessment: String,
    pub critical_count: usize,
    pub suspicious_count: usize,
    pub stats: &'a ScanStats,
    pub records: Vec<&'a UsnRecord>,
}

/// Assembles the report export made at `exported_at`: the records named by
/// `indices` (positions past the end skipped), their number, the verdict's badge
/// text, the counts of critical and suspicious findings, and the scan summary.
pub fn build_forensic_export<'a>(
    exported_at: String,
    records: &'a [UsnRecord],
    indices: &[usize],
    report: &AntiForensicsReport,
    stats: &'a ScanStats,
) -> (e: FullForensicExport<'a>)
    ensures
        e.exported_at@ == exported_at@,
        e.records@.len() == selected_records(records@, indices@).len(),
        forall|k: int|
            0 <= k < e.records@.len() ==> *#[trigger] e.records@[k] == selected_records(
                records@,
                indices@,
            )[k],
        e.total_records_exported == e.records@.len(),
        e.risk_assessment@ == report.overall_risk.label(),
        e.critical_count == report.critical_count,
        e.suspicious_count == report.suspicious_count,
        *e.stats == *stats,
{
    let mut selected: Vec<&'a UsnRecord> = Vec::new();
    let mut j: usize = 0;
    while j < indices.len()
        invariant
            j <= indices@.len(),
            selected@.len() == selected_records(records@, indices@.take(j as int)).len(),
            forall|k: int|
                0 <= k < selected@.len() ==> *#[trigger] selected@[k] == selected_records(
                    records@,
                    indices@.take(j as int),
                )[k],
        decreases indices@.len() - j,
    {
        assert(indices@.take(j + 1).drop_last() =~= indices@.take(j as int));
        let idx = indices[j];
        if idx < records.len() {
            selected.push(&records[idx]);
        }
        j = j + 1;
    }
    assert(indices@.take(j as int) =~= indices@);
    let total = selected.len();
    FullForensicExport {
        exported_at,
        total_records_exported: total,
        risk_assessment: String::from_str(report.overall_risk.as_str()),
        critical_count: report.critical_count,
        suspicious_count: report.suspicious_count,
        stats,
        records: selected,
    }
}

} // verus!
