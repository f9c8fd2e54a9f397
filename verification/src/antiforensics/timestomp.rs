//! Timestamp manipulation visible in master file table entries.
use std::collections::HashMap;
use std::collections::HashSet;
use vstd::prelude::*;

use crate::antiforensics::clusters::{first_n, first_twenty};
use crate::antiforensics::journal_tamper::{findings_view, FindingView, TamperFinding, TamperSeverity};
use crate::mft::MftNode;
use crate::text::{
    contains_any, contains_any_of, dec, ends_with_any, ends_with_any_of, lower, lower_chars,
    pattern_list, patterns_view, push_decimal, strs_view,
};
use crate::usn_record::UsnRecord;

verus! {

broadcast use vstd::std_specs::hash::group_hash_axioms;

/// System folders whose files are not audited.
pub open spec fn timestomp_ignored_paths() -> Seq<Seq<char>> {
    strs_view(seq!["\\program files", "\\windows\\winsxs", "\\windows\\servicing", "\\windows\\system32", "\\windows\\microsoft.net"])
}

/// Extensions of audited executables and scripts.
pub open spec fn timestomp_exts() -> Seq<Seq<char>> {
    strs_view(seq![".exe", ".dll", ".sys", ".bat", ".ps1", ".jar", ".vbs"])
}

/// User folders.
pub open spec fn timestomp_user_paths() -> Seq<Seq<char>> {
    strs_view(seq!["\\temp\\", "\\appdata\\", "\\desktop\\", "\\downloads\\"])
}

/// An executable outside the system folders.
pub open spec fn is_timestomp_candidate(r: UsnRecord) -> bool {
    !contains_any(lower(r.full_path@), timestomp_ignored_paths()) && ends_with_any(
        lower(r.file_name@),
        timestomp_exts(),
    )
}

/// A positive $STANDARD_INFORMATION creation time with no fraction of a second.
pub open spec fn has_zero_nanos(m: MftNode) -> bool {
    m.si_created > 0 && m.si_created % 10_000_000 == 0
}

/// A zero-fraction $STANDARD_INFORMATION creation time more than a day before the
/// $FILE_NAME creation time, for a file in a user folder.
pub open spec fn is_backdated(r: UsnRecord, m: MftNode) -> bool {
    &&& m.si_created > 0
    &&& m.fn_created > 0
    &&& m.fn_created - m.si_created > 86400 * 10_000_000
    &&& contains_any(lower(r.full_path@), timestomp_user_paths())
    &&& m.si_created % 10_000_000 == 0
}

/// State after auditing the records of `rs`: update numbers with zeroed fractions,
/// update numbers of backdated files, and the entries audited so far (each entry is
/// audited at its first candidate record only).
pub open spec fn timestomp_scan(rs: Seq<UsnRecord>, nodes: Map<u64, MftNode>) -> (Seq<i64>, Seq<i64>, Set<u64>)
    decreases rs.len(),
{
    if rs.len() == 0 {
        (seq![], seq![], Set::empty())
    } else {
        let (z, d, c) = timestomp_scan(rs.drop_last(), nodes);
        let r = rs.last();
        if is_timestomp_candidate(r) && nodes.contains_key(r.file_ref_number) && !c.contains(
            r.file_ref_number,
        ) {
            let m = nodes[r.file_ref_number];
            (
                if has_zero_nanos(m) {
                    z.push(r.usn)
                } else {
                    z
                },
                if is_backdated(r, m) {
                    d.push(r.usn)
                } else {
                    d
                },
                c.insert(r.file_ref_number),
            )
        } else {
            (z, d, c)
        }
    }
}

/// The findings of `analyze_timestomping`, in order: zeroed fractions (suspicious),
/// then backdated files (critical), each when there is any.
pub open spec fn timestomp_findings(rs: Seq<UsnRecord>, nodes: Map<u64, MftNode>) -> Seq<FindingView> {
    let (zero, backdated, _) = timestomp_scan(rs, nodes);
    (if zero.len() > 0 {
        seq![
            FindingView {
                severity: TamperSeverity::Suspicious,
                title: "Nanosecond Zeroing Timestomp Pattern"@,
                description: "Identified "@ + dec((zero.len()) as nat) + " executable files with exactly zeroed fractional seconds (FILETIME % 10_000_000 == 0) in $STANDARD_INFORMATION, characteristic of Win32 SetFileTime timestamp manipulation."@,
                evidence: first_n(zero, 20),
            },
        ]
    } else {
        seq![]
    }) + (if backdated.len() > 0 {
        seq![
            FindingView {
                severity: TamperSeverity::Critical,
                title: "$STANDARD_INFO vs $FILE_NAME Timestamp Divergence"@,
                description: "Detected "@ + dec((backdated.len()) as nat) + " suspicious executable files in user folders with backdated $STANDARD_INFORMATION timestamps and zeroed subsecond precision."@,
                evidence: first_n(backdated, 20),
            },
        ]
    } else {
        seq![]
    })
}

/// Audits executables against their master file table entries for creation times
/// with zeroed fractions of a second and for $STANDARD_INFORMATION times backdated
/// by more than a day.
pub fn analyze_timestomping(records: &[UsnRecord], mft_nodes: &HashMap<u64, MftNode>) -> (r: Vec<
    TamperFinding,
>)
    ensures
        findings_view(r@) == timestomp_findings(records@, mft_nodes@),
{
    let exts = pattern_list(&[".exe", ".dll", ".sys", ".bat", ".ps1", ".jar", ".vbs"]);
    let ignored = pattern_list(&["\\program files", "\\windows\\winsxs", "\\windows\\servicing", "\\windows\\system32", "\\windows\\microsoft.net"]);
    let user = pattern_list(&["\\temp\\", "\\appdata\\", "\\desktop\\", "\\downloads\\"]);
    let mut zero_nano_usns: Vec<i64> = Vec::new();
    let mut si_fn_delta_usns: Vec<i64> = Vec::new();
    let mut checked: HashSet<u64> = HashSet::new();
    let mut i: usize = 0;
    while i < records.len()
        invariant
            i <= records@.len(),
            patterns_view(exts@) == timestomp_exts(),
            patterns_view(ignored@) == timestomp_ignored_paths(),
            patterns_view(user@) == timestomp_user_paths(),
            timestomp_scan(records@.take(i as int), mft_nodes@) == (
                zero_nano_usns@,
                si_fn_delta_usns@,
                checked@,
            ),
        decreases records@.len() - i,
    {
        let r = &records[i];
        proof {
            assert(records@.take(i + 1).drop_last() =~= records@.take(i as int));
            assert(records@.take(i + 1).last() == *r);
        }
        let lower_path = lower_chars(r.full_path.as_str());
        if !contains_any_of(lower_path.as_slice(), &ignored) {
            let lower_name = lower_chars(r.file_name.as_str());
            if ends_with_any_of(lower_name.as_slice(), &exts) {
                match mft_nodes.get(&r.file_ref_number) {
                    Some(mft) => {
                        if checked.insert(r.file_ref_number) {
                            if mft.si_created > 0 && mft.si_created % 10_000_000 == 0 {
                                zero_nano_usns.push(r.usn);
                            }
                            if mft.si_created > 0 && mft.fn_created > 0 {
                                let delta = mft.fn_created - mft.si_created;
                                let is_zero_nano = mft.si_created % 10_000_000 == 0;
                                let is_user_path = contains_any_of(lower_path.as_slice(), &user);
                                if delta > 86400 * 10_000_000 && is_user_path && is_zero_nano {
                                    si_fn_delta_usns.push(r.usn);
                                }
                            }
                        }
                    },
                    None => {},
                }
            }
        }
        i = i + 1;
    }
    assert(records@.take(records@.len() as int) =~= records@);
    let ghost zero = timestomp_scan(records@, mft_nodes@).0;
    let ghost backdated = timestomp_scan(records@, mft_nodes@).1;
    let mut findings: Vec<TamperFinding> = Vec::new();
    if zero_nano_usns.len() > 0 {
        let mut d = String::from_str("Identified ");
        push_decimal(&mut d, zero_nano_usns.len() as u64);
        d.append(" executable files with exactly zeroed fractional seconds (FILETIME % 10_000_000 == 0) in $STANDARD_INFORMATION, characteristic of Win32 SetFileTime timestamp manipulation.");
        findings.push(TamperFinding {
            severity: TamperSeverity::Suspicious,
            title: String::from_str("Nanosecond Zeroing Timestomp Pattern"),
            description: d,
            evidence: first_twenty(&zero_nano_usns),
        });
    }
    if si_fn_delta_usns.len() > 0 {
        let mut d = String::from_str("Detected ");
        push_decimal(&mut d, si_fn_delta_usns.len() as u64);
        d.append(" suspicious executable files in user folders with backdated $STANDARD_INFORMATION timestamps and zeroed subsecond precision.");
        findings.push(TamperFinding {
            severity: TamperSeverity::Critical,
            title: String::from_str("$STANDARD_INFO vs $FILE_NAME Timestamp Divergence"),
            description: d,
            evidence: first_twenty(&si_fn_delta_usns),
        });
    }
    assert(findings_view(findings@) =~= timestomp_findings(records@, mft_nodes@));
    findings
}

/// Record `rs[i]` has update number `u`, lies in a user folder (its lower-cased path
/// holds \temp\, \appdata\, \desktop\ or \downloads\), and its table entry's
/// $STANDARD_INFORMATION creation time is more than a day before its $FILE_NAME one.
pub open spec fn backdated_in_user_folder(
    rs: Seq<UsnRecord>,
    nodes: Map<u64, MftNode>,
    i: int,
    u: i64,
) -> bool {
    &&& 0 <= i < rs.len()
    &&& rs[i].usn == u
    &&& exists|k: int|
        0 <= k < 4 && #[trigger] crate::text::contains_seq(
            lower(rs[i].full_path@),
            timestomp_user_paths()[k],
        )
    &&& nodes.contains_key(rs[i].file_ref_number)
    &&& nodes[rs[i].file_ref_number].fn_created - nodes[rs[i].file_ref_number].si_created > 86400
        * 10_000_000
}

proof fn lemma_backdated_from_user_folder(rs: Seq<UsnRecord>, nodes: Map<u64, MftNode>, j: int) -> (i: int)
    requires
        0 <= j < timestomp_scan(rs, nodes).1.len(),
    ensures
        backdated_in_user_folder(rs, nodes, i, timestomp_scan(rs, nodes).1[j]),
    decreases rs.len(),
{
    let prev = rs.drop_last();
    let d0 = timestomp_scan(prev, nodes).1;
    let d = timestomp_scan(rs, nodes).1;
    if j < d0.len() {
        assert(d[j] == d0[j]);
        let i = lemma_backdated_from_user_folder(prev, nodes, j);
        assert(rs[i] == prev[i]);
        i
    } else {
        let i = rs.len() - 1;
        assert(rs[i] == rs.last());
        let r = rs.last();
        let m = nodes[r.file_ref_number];
        assert(is_backdated(r, m));
        let k = choose|k: int|
            0 <= k < timestomp_user_paths().len() && #[trigger] crate::text::contains_seq(
                lower(r.full_path@),
                timestomp_user_paths()[k],
            );
        assert(crate::text::contains_seq(lower(rs[i].full_path@), timestomp_user_paths()[k]));
        i
    }
}

/// Law: every update number that the critical backdating finding cites belongs to a
/// record in a user folder (\temp\, \appdata\, \desktop\ or \downloads\) whose
/// table entry shows $STANDARD_INFORMATION created more than a day before $FILE_NAME;
/// a file outside those folders is never reported as backdated.
pub proof fn law_backdating_needs_user_folder(
    rs: Seq<UsnRecord>,
    nodes: Map<u64, MftNode>,
    f: int,
    e: int,
) -> (i: int)
    requires
        0 <= f < timestomp_findings(rs, nodes).len(),
        timestomp_findings(rs, nodes)[f].severity == TamperSeverity::Critical,
        0 <= e < timestomp_findings(rs, nodes)[f].evidence.len(),
    ensures
        backdated_in_user_folder(rs, nodes, i, timestomp_findings(rs, nodes)[f].evidence[e]),
{
    let d = timestomp_scan(rs, nodes).1;
    let fs = timestomp_findings(rs, nodes);
    assert(d.len() > 0);
    assert(fs[f].evidence == first_n(d, 20));
    assert(fs[f].evidence[e] == d[e]);
    lemma_backdated_from_user_folder(rs, nodes, e)
}

} // verus!
