//! Attribute masking and timestamp stomping of executables in user folders.
use vstd::prelude::*;

use crate::antiforensics::clusters::{
    at_least, filter_windows, first_n, first_twenty, flatten_usns, group_into_windows,
    long_window_usns, select_events, select_usns, sort_by_time, sort_events_by_time,
    time_windows, windows_view, Event,
};
use crate::antiforensics::journal_tamper::{findings_view, FindingView, TamperFinding, TamperSeverity};
use crate::text::{
    contains_any, contains_any_of, dec, ends_with_any, ends_with_any_of, lower, lower_chars,
    pattern_list, patterns_view, push_decimal, strs_view,
};
use crate::usn_record::{UsnRecord, USN_REASON_BASIC_INFO_CHANGE};

verus! {

/// User folders in which executables are audited.
pub open spec fn signature_user_paths() -> Seq<Seq<char>> {
    strs_view(seq!["\\temp\\", "\\appdata\\", "\\desktop\\", "\\downloads\\"])
}

/// Developer tool folders that are not audited.
pub open spec fn signature_dev_paths() -> Seq<Seq<char>> {
    strs_view(seq!["\\target\\", "\\cargo\\", "\\.cargo\\", "\\.rustup\\", "\\node_modules\\", "\\.git\\", "\\pip\\cache\\", "\\npm-cache\\", "\\nuget\\", "\\microsoft\\visualstudio\\"])
}

/// Executable extensions.
pub open spec fn signature_exec_exts() -> Seq<Seq<char>> {
    strs_view(seq![".exe", ".dll", ".sys", ".bat", ".ps1", ".jar", ".asi"])
}

/// An executable (by its lower-cased name) in a user folder outside developer folders.
pub open spec fn is_audited_executable(r: UsnRecord) -> bool {
    &&& contains_any(lower(r.full_path@), signature_user_paths())
    &&& !contains_any(lower(r.full_path@), signature_dev_paths())
    &&& ends_with_any(lower(r.file_name@), signature_exec_exts())
}

/// An audited executable with both the hidden and the system attribute.
pub open spec fn is_attribute_masked() -> spec_fn(UsnRecord) -> bool {
    |r: UsnRecord| is_audited_executable(r) && r.file_attributes & 0x06 == 0x06
}

/// An audited executable whose only change is a basic information change
/// (no data overwrite, extension or truncation).
pub open spec fn is_isolated_basic_info_change() -> spec_fn(UsnRecord) -> bool {
    |r: UsnRecord|
        is_audited_executable(r) && r.reason & USN_REASON_BASIC_INFO_CHANGE != 0 && r.reason
            & 0x0000_0007 == 0
}

/// Windows of three seconds holding at least eight isolated basic information changes.
pub open spec fn stomping_bursts(rs: Seq<UsnRecord>) -> Seq<Seq<Event>> {
    filter_windows(
        time_windows(sort_by_time(select_events(rs, is_isolated_basic_info_change())), 30_000_000),
        at_least(8),
    )
}

/// The findings of `audit_signature_changes`, in order: masked executables (critical),
/// then stomping bursts (suspicious), each when there is any.
pub open spec fn signature_findings(rs: Seq<UsnRecord>) -> Seq<FindingView> {
    let masking = select_usns(rs, is_attribute_masked());
    let bursts = stomping_bursts(rs);
    (if masking.len() > 0 {
        seq![
            FindingView {
                severity: TamperSeverity::Critical,
                title: "Super-Hidden (System+Hidden) Executable Attribute Masking"@,
                description: "Discovered "@ + dec((masking.len()) as nat) + " executable files with both Hidden and System attributes applied in user directories. High-confidence technique to evade manual inspection."@,
                evidence: first_n(masking, 20),
            },
        ]
    } else {
        seq![]
    }) + (if bursts.len() > 0 {
        seq![
            FindingView {
                severity: TamperSeverity::Suspicious,
                title: "Rapid Automated Timestamp / Attribute Stomping Bursts"@,
                description: "Detected "@ + dec((bursts.len()) as nat) + " bursts of isolated Basic Info Changes on executables within 3-second windows (totaling "@ + dec((flatten_usns(bursts).len()) as nat) + " events). Characteristic of batch timestomping scripts."@,
                evidence: first_n(flatten_usns(bursts), 20),
            },
        ]
    } else {
        seq![]
    })
}

/// Audits executables in user folders for hidden+system attribute masking and for
/// bursts of eight or more isolated basic information changes within three seconds.
pub fn audit_signature_changes(records: &[UsnRecord]) -> (r: Vec<TamperFinding>)
    ensures
        findings_view(r@) == signature_findings(records@),
{
    let user = pattern_list(&["\\temp\\", "\\appdata\\", "\\desktop\\", "\\downloads\\"]);
    let dev = pattern_list(&["\\target\\", "\\cargo\\", "\\.cargo\\", "\\.rustup\\", "\\node_modules\\", "\\.git\\", "\\pip\\cache\\", "\\npm-cache\\", "\\nuget\\", "\\microsoft\\visualstudio\\"]);
    let exts = pattern_list(&[".exe", ".dll", ".sys", ".bat", ".ps1", ".jar", ".asi"]);
    let mut masking_usns: Vec<i64> = Vec::new();
    let mut events: Vec<Event> = Vec::new();
    let mut i: usize = 0;
    while i < records.len()
        invariant
            i <= records@.len(),
            patterns_view(user@) == signature_user_paths(),
            patterns_view(dev@) == signature_dev_paths(),
            patterns_view(exts@) == signature_exec_exts(),
            masking_usns@ == select_usns(records@.take(i as int), is_attribute_masked()),
            events@ == select_events(records@.take(i as int), is_isolated_basic_info_change()),
        decreases records@.len() - i,
    {
        let r = &records[i];
        proof {
            assert(records@.take(i + 1).drop_last() =~= records@.take(i as int));
            assert(records@.take(i + 1).last() == *r);
        }
        let lower_path = lower_chars(r.full_path.as_str());
        if contains_any_of(lower_path.as_slice(), &user) && !contains_any_of(
            lower_path.as_slice(),
            &dev,
        ) {
            let lower_name = lower_chars(r.file_name.as_str());
            if ends_with_any_of(lower_name.as_slice(), &exts) {
                if r.file_attributes & 0x06 == 0x06 {
                    masking_usns.push(r.usn);
                }
                if r.reason & USN_REASON_BASIC_INFO_CHANGE != 0 && r.reason & 0x0000_0007 == 0 {
                    events.push((r.timestamp_raw, r.usn, false));
                }
            }
        }
        i = i + 1;
    }
    assert(records@.take(records@.len() as int) =~= records@);
    let mut findings: Vec<TamperFinding> = Vec::new();
    let ghost masking = select_usns(records@, is_attribute_masked());
    if masking_usns.len() > 0 {
        let mut d = String::from_str("Discovered ");
        push_decimal(&mut d, masking_usns.len() as u64);
        d.append(" executable files with both Hidden and System attributes applied in user directories. High-confidence technique to evade manual inspection.");
        findings.push(TamperFinding {
            severity: TamperSeverity::Critical,
            title: String::from_str("Super-Hidden (System+Hidden) Executable Attribute Masking"),
            description: d,
            evidence: first_twenty(&masking_usns),
        });
    }
    let sorted = sort_events_by_time(events);
    let cs = group_into_windows(&sorted, 30_000_000);
    let (burst_count, burst_usns) = long_window_usns(&cs, 8);
    let ghost bursts = stomping_bursts(records@);
    assert(bursts == filter_windows(windows_view(cs@), at_least(8)));
    if burst_count > 0 {
        let mut d = String::from_str("Detected ");
        push_decimal(&mut d, burst_count as u64);
        d.append(" bursts of isolated Basic Info Changes on executables within 3-second windows (totaling ");
        push_decimal(&mut d, burst_usns.len() as u64);
        d.append(" events). Characteristic of batch timestomping scripts.");
        findings.push(TamperFinding {
            severity: TamperSeverity::Suspicious,
            title: String::from_str("Rapid Automated Timestamp / Attribute Stomping Bursts"),
            description: d,
            evidence: first_twenty(&burst_usns),
        });
    }
    assert(findings_view(findings@) =~= signature_findings(records@));
    findings
}

} // verus!
