//! Bursts of deletions in sensitive user folders.
use vstd::prelude::*;

use crate::antiforensics::clusters::{
    append_usns, count_flagged, count_flagged_events, filter_windows, first_n, first_twenty,
    flatten_usns, group_into_windows, lemma_filter_windows_step, sort_by_time,
    sort_events_by_time, time_windows, windows_view, Event,
};
use crate::antiforensics::journal_tamper::{findings_view, FindingView, TamperFinding, TamperSeverity};
use crate::text::{
    contains_any, contains_any_of, dec, ends_with_any, ends_with_any_of, lower, lower_chars,
    pattern_list, push_decimal, strs_view,
};
use crate::usn_record::{UsnRecord, USN_REASON_FILE_DELETE};

verus! {

/// Folders in which deletions count towards a burst.
pub open spec fn burst_sensitive_folders() -> Seq<Seq<char>> {
    strs_view(seq!["\\temp\\", "\\appdata\\", "\\desktop\\", "\\downloads\\", "\\windows\\prefetch\\"])
}

/// Cache and build folders whose deletions are ignored.
pub open spec fn burst_cache_paths() -> Seq<Seq<char>> {
    strs_view(seq!["\\cache", "\\code cache", "\\gpucache", "\\service worker", "\\indexeddb", "\\crashpad", "\\shadercache", "\\thumbnails", "\\google\\chrome", "\\microsoft\\edge", "\\mozilla\\firefox", "\\bravebrowser", "\\discord\\", "\\spotify\\", "\\node_modules", "\\target\\", "\\cargo\\"])
}

/// Extensions of executables, scripts and prefetch files.
pub open spec fn burst_high_risk_exts() -> Seq<Seq<char>> {
    strs_view(seq![".exe", ".dll", ".sys", ".bat", ".ps1", ".cmd", ".vbs", ".jar", ".asi", ".pf"])
}

/// A deletion with a positive timestamp, in a sensitive folder and outside caches.
pub open spec fn is_burst_deletion(r: UsnRecord) -> bool {
    let p = lower(r.full_path@);
    &&& r.reason & USN_REASON_FILE_DELETE != 0
    &&& r.timestamp_raw > 0
    &&& !contains_any(p, burst_cache_paths())
    &&& contains_any(p, burst_sensitive_folders())
}

/// The deletion events of `rs` in record order: time, update number, and whether the
/// path ends with a high-risk extension.
pub open spec fn burst_events(rs: Seq<UsnRecord>) -> Seq<Event>
    decreases rs.len(),
{
    if rs.len() == 0 {
        seq![]
    } else if is_burst_deletion(rs.last()) {
        burst_events(rs.drop_last()).push(
            (
                rs.last().timestamp_raw,
                rs.last().usn,
                ends_with_any(lower(rs.last().full_path@), burst_high_risk_exts()),
            ),
        )
    } else {
        burst_events(rs.drop_last())
    }
}

/// Deletion events grouped into 3-second windows (30,000,000 ticks of 100 ns).
pub open spec fn deletion_windows(rs: Seq<UsnRecord>) -> Seq<Seq<Event>> {
    time_windows(sort_by_time(burst_events(rs)), 30_000_000)
}

/// A window with at least three high-risk deletions.
pub open spec fn high_risk_burst() -> spec_fn(Seq<Event>) -> bool {
    |c: Seq<Event>| count_flagged(c) >= 3
}

/// A window with fewer than three high-risk deletions but at least 25 deletions.
pub open spec fn mass_burst() -> spec_fn(Seq<Event>) -> bool {
    |c: Seq<Event>| count_flagged(c) < 3 && c.len() >= 25
}

/// The findings of `detect_deletion_bursts`: a critical one when some window is a
/// high-risk burst, then a suspicious one when some window is a mass burst.
pub open spec fn deletion_burst_findings(rs: Seq<UsnRecord>) -> Seq<FindingView> {
    let cs = deletion_windows(rs);
    (if filter_windows(cs, high_risk_burst()).len() > 0 {
        seq![
            FindingView {
                severity: TamperSeverity::Critical,
                title: "Rapid Executable or Prefetch Deletion Bursts"@,
                description: "Detected "@ + dec((filter_windows(cs, high_risk_burst()).len()) as nat) + " rapid deletion bursts targeting executables, scripts, or prefetch files (totaling "@ + dec((flatten_usns(filter_windows(cs, high_risk_burst())).len()) as nat) + " files) within 3-second windows in sensitive locations."@,
                evidence: first_n(flatten_usns(filter_windows(cs, high_risk_burst())), 20),
            },
        ]
    } else {
        seq![]
    }) + (if filter_windows(cs, mass_burst()).len() > 0 {
        seq![
            FindingView {
                severity: TamperSeverity::Suspicious,
                title: "Mass User File Deletion Bursts"@,
                description: "Detected "@ + dec((filter_windows(cs, mass_burst()).len()) as nat) + " mass deletion bursts (totaling "@ + dec((flatten_usns(filter_windows(cs, mass_burst())).len()) as nat) + " non-cache files) within 3-second windows in user folders."@,
                evidence: first_n(flatten_usns(filter_windows(cs, mass_burst())), 20),
            },
        ]
    } else {
        seq![]
    })
}

/// Detects rapid bursts of file deletions in user folders: windows of three seconds
/// holding three or more executables, scripts or prefetch files, or 25 or more files.
pub fn detect_deletion_bursts(records: &[UsnRecord]) -> (r: Vec<TamperFinding>)
    ensures
        findings_view(r@) == deletion_burst_findings(records@),
{
    let sensitive = pattern_list(&["\\temp\\", "\\appdata\\", "\\desktop\\", "\\downloads\\", "\\windows\\prefetch\\"]);
    let cache = pattern_list(&["\\cache", "\\code cache", "\\gpucache", "\\service worker", "\\indexeddb", "\\crashpad", "\\shadercache", "\\thumbnails", "\\google\\chrome", "\\microsoft\\edge", "\\mozilla\\firefox", "\\bravebrowser", "\\discord\\", "\\spotify\\", "\\node_modules", "\\target\\", "\\cargo\\"]);
    let exts = pattern_list(&[".exe", ".dll", ".sys", ".bat", ".ps1", ".cmd", ".vbs", ".jar", ".asi", ".pf"]);
    let mut events: Vec<Event> = Vec::new();
    let mut i: usize = 0;
    while i < records.len()
        invariant
            i <= records@.len(),
            events@ == burst_events(records@.take(i as int)),
            crate::text::patterns_view(sensitive@) == burst_sensitive_folders(),
            crate::text::patterns_view(cache@) == burst_cache_paths(),
            crate::text::patterns_view(exts@) == burst_high_risk_exts(),
        decreases records@.len() - i,
    {
        let r = &records[i];
        proof {
            assert(records@.take(i + 1).drop_last() =~= records@.take(i as int));
            assert(records@.take(i + 1).last() == *r);
        }
        if r.reason & USN_REASON_FILE_DELETE != 0 && r.timestamp_raw > 0 {
            let lower_path = lower_chars(r.full_path.as_str());
            if !contains_any_of(lower_path.as_slice(), &cache) && contains_any_of(
                lower_path.as_slice(),
                &sensitive,
            ) {
                let high = ends_with_any_of(lower_path.as_slice(), &exts);
                events.push((r.timestamp_raw, r.usn, high));
            }
        }
        i = i + 1;
    }
    assert(records@.take(records@.len() as int) =~= records@);
    let sorted = sort_events_by_time(events);
    let cs = group_into_windows(&sorted, 30_000_000);
    let ghost csv = windows_view(cs@);
    let mut high_count: usize = 0;
    let mut high_usns: Vec<i64> = Vec::new();
    let mut general_count: usize = 0;
    let mut general_usns: Vec<i64> = Vec::new();
    let mut k: usize = 0;
    while k < cs.len()
        invariant
            k <= cs@.len(),
            csv == windows_view(cs@),
            high_count == filter_windows(csv.take(k as int), high_risk_burst()).len(),
            high_usns@ == flatten_usns(filter_windows(csv.take(k as int), high_risk_burst())),
            general_count == filter_windows(csv.take(k as int), mass_burst()).len(),
            general_usns@ == flatten_usns(filter_windows(csv.take(k as int), mass_burst())),
            high_count <= k,
            general_count <= k,
        decreases cs@.len() - k,
    {
        let c = &cs[k];
        proof {
            lemma_filter_windows_step(csv, k as int, high_risk_burst());
            lemma_filter_windows_step(csv, k as int, mass_burst());
            assert(csv[k as int] == c@);
        }
        let n = count_flagged_events(c);
        if n >= 3 {
            high_count = high_count + 1;
            append_usns(&mut high_usns, c);
        } else if c.len() >= 25 {
            general_count = general_count + 1;
            append_usns(&mut general_usns, c);
        }
        k = k + 1;
    }
    assert(csv.take(cs@.len() as int) =~= csv);
    let mut findings: Vec<TamperFinding> = Vec::new();
    let ghost cs_spec = deletion_windows(records@);
    assert(cs_spec == csv);
    if high_count > 0 {
        let mut d = String::from_str("Detected ");
        push_decimal(&mut d, high_count as u64);
        d.append(" rapid deletion bursts targeting executables, scripts, or prefetch files (totaling ");
        push_decimal(&mut d, high_usns.len() as u64);
        d.append(" files) within 3-second windows in sensitive locations.");
        findings.push(TamperFinding {
            severity: TamperSeverity::Critical,
            title: String::from_str("Rapid Executable or Prefetch Deletion Bursts"),
            description: d,
            evidence: first_twenty(&high_usns),
        });
    }
    let ghost part1 = findings_view(findings@);
    if general_count > 0 {
        let mut d = String::from_str("Detected ");
        push_decimal(&mut d, general_count as u64);
        d.append(" mass deletion bursts (totaling ");
        push_decimal(&mut d, general_usns.len() as u64);
        d.append(" non-cache files) within 3-second windows in user folders.");
        findings.push(TamperFinding {
            severity: TamperSeverity::Suspicious,
            title: String::from_str("Mass User File Deletion Bursts"),
            description: d,
            evidence: first_twenty(&general_usns),
        });
    }
    assert(findings_view(findings@) =~= deletion_burst_findings(records@));
    findings
}

} // verus!
