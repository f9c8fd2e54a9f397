//! Discontinuities in the sequence of update numbers.
use vstd::prelude::*;

use crate::antiforensics::clusters::{first_n, first_twenty};
use crate::antiforensics::journal_tamper::{findings_view, FindingView, TamperFinding, TamperSeverity};
use crate::text::{dec, push_decimal, push_signed_decimal, signed_dec};
use crate::usn_record::UsnRecord;

verus! {

/// Summary of the gaps between consecutive records.
pub struct GapReport {
    pub total_gaps: usize,
    pub max_gap_bytes: i64,
    pub findings: Vec<TamperFinding>,
    pub gap_usns: Vec<i64>,
}

/// Record length rounded up to a multiple of eight, as records are laid out.
pub open spec fn aligned_length(len: u32) -> int {
    ((len + 7) / 8) * 8
}

/// Update number at which the record after `rs[i]` is expected.
pub open spec fn expected_next_usn(rs: Seq<UsnRecord>, i: int) -> int {
    rs[i].usn + aligned_length(rs[i].record_length)
}

/// Whether the record after `rs[i]` starts beyond where it is expected.
pub open spec fn is_gap(rs: Seq<UsnRecord>, i: int) -> bool {
    rs[i + 1].usn > expected_next_usn(rs, i)
}

/// Size in bytes of the gap after `rs[i]`.
pub open spec fn gap_size(rs: Seq<UsnRecord>, i: int) -> int {
    rs[i + 1].usn - expected_next_usn(rs, i)
}

/// Number of consecutive pairs of records.
pub open spec fn gap_pairs(rs: Seq<UsnRecord>) -> int {
    if rs.len() < 2 {
        0
    } else {
        rs.len() - 1
    }
}

/// Number of gaps after the first `k` records.
pub open spec fn gap_count(rs: Seq<UsnRecord>, k: int) -> nat
    decreases k,
{
    if k <= 0 {
        0
    } else {
        gap_count(rs, k - 1) + if is_gap(rs, k - 1) {
            1nat
        } else {
            0nat
        }
    }
}

/// Largest gap after the first `k` records (0 when there is none).
pub open spec fn max_gap(rs: Seq<UsnRecord>, k: int) -> int
    decreases k,
{
    if k <= 0 {
        0
    } else if is_gap(rs, k - 1) && gap_size(rs, k - 1) > max_gap(rs, k - 1) {
        gap_size(rs, k - 1)
    } else {
        max_gap(rs, k - 1)
    }
}

/// Update numbers of the records among the first `k` followed by a gap of more than 64 KiB.
pub open spec fn large_gap_usns(rs: Seq<UsnRecord>, k: int) -> Seq<i64>
    decreases k,
{
    if k <= 0 {
        seq![]
    } else if is_gap(rs, k - 1) && gap_size(rs, k - 1) > 64 * 1024 {
        large_gap_usns(rs, k - 1).push(rs[k - 1].usn)
    } else {
        large_gap_usns(rs, k - 1)
    }
}

/// Whether the expected positions and the gaps of `rs` are 64-bit numbers, as the
/// computation needs.
pub open spec fn gaps_representable(rs: Seq<UsnRecord>) -> bool {
    forall|i: int|
        0 <= i < rs.len() - 1 ==> i64::MIN <= #[trigger] expected_next_usn(rs, i) <= i64::MAX
            && (is_gap(rs, i) ==> gap_size(rs, i) <= i64::MAX)
}

/// The findings of `analyze_usn_gaps`: one when some gap exceeds 64 KiB, critical when
/// the largest gap exceeds 10 MiB.
pub open spec fn gap_findings(rs: Seq<UsnRecord>) -> Seq<FindingView> {
    let large = large_gap_usns(rs, gap_pairs(rs));
    if large.len() > 0 {
        seq![
            FindingView {
                severity: if max_gap(rs, gap_pairs(rs)) > 10 * 1024 * 1024 {
                    TamperSeverity::Critical
                } else {
                    TamperSeverity::Suspicious
                },
                title: "USN Sequence Discontinuity Gaps Detected"@,
                description: "Discovered "@ + dec((gap_count(rs, gap_pairs(rs))) as nat) + " non-contiguous USN sequence jumps with max gap size of "@ + signed_dec((max_gap(rs, gap_pairs(rs))) as int) + " bytes. Indicates selective record zeroing or journal truncation."@,
                evidence: first_n(large, 20),
            },
        ]
    } else {
        seq![]
    }
}

proof fn lemma_max_gap_bounds(rs: Seq<UsnRecord>, k: int)
    requires
        gaps_representable(rs),
        k <= rs.len() - 1,
    ensures
        0 <= max_gap(rs, k) <= i64::MAX,
    decreases k,
{
    if k > 0 {
        lemma_max_gap_bounds(rs, k - 1);
        assert(i64::MIN <= expected_next_usn(rs, k - 1) <= i64::MAX);
    }
}

/// Finds the places where a record does not start where the previous one ends
/// (its update number rounded up to eight bytes past the previous one).
pub fn analyze_usn_gaps(records: &[UsnRecord]) -> (r: GapReport)
    requires
        gaps_representable(records@),
    ensures
        r.total_gaps == gap_count(records@, gap_pairs(records@)),
        r.max_gap_bytes == max_gap(records@, gap_pairs(records@)),
        r.gap_usns@ == large_gap_usns(records@, gap_pairs(records@)),
        findings_view(r.findings@) == gap_findings(records@),
{
    let ghost rs = records@;
    let mut findings: Vec<TamperFinding> = Vec::new();
    let mut gap_usns: Vec<i64> = Vec::new();
    let mut total_gaps: usize = 0;
    let mut max_gap_bytes: i64 = 0;
    if records.len() < 2 {
        assert(findings_view(findings@) =~= gap_findings(rs));
        return GapReport { total_gaps: 0, max_gap_bytes: 0, findings, gap_usns };
    }
    let pairs = records.len() - 1;
    let mut i: usize = 0;
    while i < pairs
        invariant
            rs == records@,
            pairs == rs.len() - 1,
            gaps_representable(rs),
            i <= pairs,
            total_gaps == gap_count(rs, i as int),
            total_gaps <= i,
            max_gap_bytes == max_gap(rs, i as int),
            gap_usns@ == large_gap_usns(rs, i as int),
        decreases pairs - i,
    {
        let current = &records[i];
        let next = &records[i + 1];
        proof {
            assert(i64::MIN <= expected_next_usn(rs, i as int) <= i64::MAX);
            lemma_max_gap_bounds(rs, i as int);
        }
        let aligned: i128 = ((current.record_length as i128 + 7) / 8) * 8;
        let expected: i128 = current.usn as i128 + aligned;
        if next.usn as i128 > expected {
            let gap: i64 = (next.usn as i128 - expected) as i64;
            total_gaps = total_gaps + 1;
            if gap > max_gap_bytes {
                max_gap_bytes = gap;
            }
            if gap > 64 * 1024 {
                gap_usns.push(current.usn);
            }
        }
        i = i + 1;
    }
    let ghost large = large_gap_usns(rs, gap_pairs(rs));
    if gap_usns.len() > 0 {
        let severity = if max_gap_bytes > 10 * 1024 * 1024 {
            TamperSeverity::Critical
        } else {
            TamperSeverity::Suspicious
        };
        let mut d = String::from_str("Discovered ");
        push_decimal(&mut d, total_gaps as u64);
        d.append(" non-contiguous USN sequence jumps with max gap size of ");
        push_signed_decimal(&mut d, max_gap_bytes);
        d.append(" bytes. Indicates selective record zeroing or journal truncation.");
        findings.push(TamperFinding {
            severity,
            title: String::from_str("USN Sequence Discontinuity Gaps Detected"),
            description: d,
            evidence: first_twenty(&gap_usns),
        });
    }
    assert(findings_view(findings@) =~= gap_findings(rs));
    GapReport { total_gaps, max_gap_bytes, findings, gap_usns }
}

proof fn lemma_max_gap_is_max(rs: Seq<UsnRecord>, k: int)
    requires
        0 <= k <= rs.len() - 1,
    ensures
        max_gap(rs, k) >= 0,
        forall|i: int|
            0 <= i < k && rs[i + 1].usn > rs[i].usn + ((rs[i].record_length + 7) / 8) * 8
                ==> #[trigger] max_gap(rs, k) >= rs[i + 1].usn - rs[i].usn - ((rs[i].record_length
                + 7) / 8) * 8,
        max_gap(rs, k) == 0 || exists|i: int|
            0 <= i < k && rs[i + 1].usn > rs[i].usn + ((rs[i].record_length + 7) / 8) * 8
                && max_gap(rs, k) == #[trigger] rs[i + 1].usn - rs[i].usn - ((rs[i].record_length
                + 7) / 8) * 8,
    decreases k,
{
    if k > 0 {
        lemma_max_gap_is_max(rs, k - 1);
        if max_gap(rs, k) != max_gap(rs, k - 1) {
            let i = k - 1;
            assert(rs[i + 1].usn > rs[i].usn + ((rs[i].record_length + 7) / 8) * 8);
        }
    }
}

/// Law: the reported largest gap is at least the size of every gap between
/// consecutive records (the next update number beyond the previous record's rounded
/// up end), and is the size of one of them, or 0 when there is no gap. A gap of more
/// than 10 MiB makes the finding critical.
pub proof fn law_max_gap_is_the_largest_gap(rs: Seq<UsnRecord>)
    ensures
        max_gap(rs, gap_pairs(rs)) >= 0,
        forall|i: int|
            0 <= i < rs.len() - 1 && rs[i + 1].usn > rs[i].usn + ((rs[i].record_length + 7) / 8) * 8
                ==> #[trigger] max_gap(rs, gap_pairs(rs)) >= rs[i + 1].usn - rs[i].usn - ((
            rs[i].record_length + 7) / 8) * 8,
        max_gap(rs, gap_pairs(rs)) == 0 || exists|i: int|
            0 <= i < rs.len() - 1 && rs[i + 1].usn > rs[i].usn + ((rs[i].record_length + 7) / 8)
                * 8 && max_gap(rs, gap_pairs(rs)) == #[trigger] rs[i + 1].usn - rs[i].usn - ((
            rs[i].record_length + 7) / 8) * 8,
        (exists|i: int|
            0 <= i < rs.len() - 1 && #[trigger] rs[i + 1].usn - rs[i].usn - ((rs[i].record_length
                + 7) / 8) * 8 > 10 * 1024 * 1024) ==> gap_findings(rs).len() == 1
            && gap_findings(rs)[0].severity == TamperSeverity::Critical,
{
    if rs.len() >= 2 {
        lemma_max_gap_is_max(rs, rs.len() - 1);
        if exists|i: int|
            0 <= i < rs.len() - 1 && #[trigger] rs[i + 1].usn - rs[i].usn - ((rs[i].record_length
                + 7) / 8) * 8 > 10 * 1024 * 1024 {
            let i = choose|i: int|
                0 <= i < rs.len() - 1 && #[trigger] rs[i + 1].usn - rs[i].usn - ((
                    rs[i].record_length + 7) / 8) * 8 > 10 * 1024 * 1024;
            lemma_large_gap_listed(rs, rs.len() - 1, i);
            assert(max_gap(rs, gap_pairs(rs)) >= rs[i + 1].usn - rs[i].usn - ((rs[i].record_length
                + 7) / 8) * 8);
        }
    }
}

proof fn lemma_large_gap_listed(rs: Seq<UsnRecord>, k: int, i: int)
    requires
        0 <= i < k <= rs.len() - 1,
        rs[i + 1].usn - rs[i].usn - ((rs[i].record_length + 7) / 8) * 8 > 64 * 1024,
    ensures
        large_gap_usns(rs, k).len() > 0,
    decreases k,
{
    if i < k - 1 {
        lemma_large_gap_listed(rs, k - 1, i);
    }
}

} // verus!
