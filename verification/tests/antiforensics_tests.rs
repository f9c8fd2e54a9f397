use std::collections::HashMap;

use journal_trace::antiforensics::burst_detector::detect_deletion_bursts;
use journal_trace::antiforensics::evasion::detect_evasion_techniques;
use journal_trace::antiforensics::gap_analysis::analyze_usn_gaps;
use journal_trace::antiforensics::journal_tamper::{check_journal_tampering, TamperSeverity};
use journal_trace::antiforensics::prefetch_audit::audit_prefetch_tampering;
use journal_trace::antiforensics::signature_audit::audit_signature_changes;
use journal_trace::antiforensics::timestomp::analyze_timestomping;
use journal_trace::antiforensics::{run_antiforensics_audit, OverallRisk};
use journal_trace::journal::UsnJournalData;
use journal_trace::mft::MftNode;
use journal_trace::usn_record::{
    UsnRecord, USN_REASON_BASIC_INFO_CHANGE, USN_REASON_FILE_DELETE, USN_REASON_RENAME_NEW_NAME,
    USN_REASON_STREAM_CHANGE,
};

const T0: i64 = 133_000_000_000_000_000;

fn rec(usn: i64, ts: i64, reason: u32, name: &str, path: &str) -> UsnRecord {
    UsnRecord {
        id: 0,
        record_length: 80,
        major_version: 2,
        minor_version: 0,
        file_ref_number: 41,
        file_ref_seq: 1,
        parent_file_ref_number: 40,
        parent_file_ref_seq: 1,
        usn,
        timestamp_raw: ts,
        timestamp_formatted: String::new(),
        reason,
        reason_str: String::new(),
        source_info: 0,
        security_id: 0,
        file_attributes: 0x20,
        file_name: name.to_string(),
        full_path: path.to_string(),
        is_ghost: false,
        is_stomp: false,
    }
}

fn journal(max_size: u64, lowest: i64, first: i64, next: i64) -> UsnJournalData {
    UsnJournalData {
        usn_journal_id: 1,
        first_usn: first,
        next_usn: next,
        lowest_valid_usn: lowest,
        max_usn: i64::MAX,
        maximum_size: max_size,
        allocation_delta: 0,
    }
}

#[test]
fn journal_metadata_checks() {
    let f = check_journal_tampering(&journal(1_048_576, 0, 5, 1), 5);
    assert_eq!(f.len(), 3);
    assert_eq!(f[0].severity, TamperSeverity::Critical);
    assert_eq!(f[0].title, "Abnormally Small USN Journal Allocation");
    assert_eq!(
        f[0].description,
        "USN Journal maximum size is set to 1048576 bytes (< 2MB). This is a known technique to force rapid journal truncation and destroy execution history."
    );
    assert_eq!(f[1].severity, TamperSeverity::Suspicious);
    assert_eq!(f[1].title, "USN Journal Freshly Recreated or Purged");
    assert_eq!(
        f[1].description,
        "LowestValidUsn is 0 with only 5 entries. The journal may have been recently cleared via 'fsutil usn deletejournal'."
    );
    assert_eq!(f[2].title, "USN Cursor Inversion Anomaly");
    assert_eq!(
        f[2].description,
        "NextUsn (1) is lower than FirstUsn (5). Indicates direct sector tampering or journal stream corruption."
    );
    assert!(check_journal_tampering(&journal(64 << 20, 4096, 0, 1 << 20), 5000).is_empty());
}

#[test]
fn gaps_between_update_numbers() {
    let recs = vec![
        rec(0, T0, 0, "a", "a"),
        rec(80, T0, 0, "b", "b"),
        rec(80 + 80 + 70_000, T0, 0, "c", "c"),
        rec(80 + 80 + 70_000 + 100, T0, 0, "d", "d"),
    ];
    let g = analyze_usn_gaps(&recs);
    assert_eq!(g.total_gaps, 2);
    assert_eq!(g.max_gap_bytes, 70_000);
    assert_eq!(g.gap_usns, vec![80]);
    assert_eq!(g.findings.len(), 1);
    assert_eq!(g.findings[0].severity, TamperSeverity::Suspicious);
    assert_eq!(g.findings[0].title, "USN Sequence Discontinuity Gaps Detected");
    assert_eq!(g.findings[0].evidence, vec![80]);
    let big = vec![rec(0, T0, 0, "a", "a"), rec(20_000_000, T0, 0, "b", "b")];
    assert_eq!(analyze_usn_gaps(&big).findings[0].severity, TamperSeverity::Critical);
    let none = analyze_usn_gaps(&recs[..1]);
    assert_eq!(none.total_gaps, 0);
    assert!(none.findings.is_empty());
}

fn node(si_created: i64, fn_created: i64) -> MftNode {
    MftNode {
        entry: 41,
        sequence: 1,
        parent_entry: 40,
        parent_sequence: 1,
        name: "tool.exe".to_string(),
        is_dir: false,
        si_created,
        si_modified: si_created,
        fn_created,
        fn_modified: fn_created,
    }
}

#[test]
fn timestomping_patterns() {
    let mut nodes = HashMap::new();
    nodes.insert(41u64, node(T0, T0 + 2 * 86_400 * 10_000_000));
    let recs = vec![
        rec(10, T0, 0, "tool.exe", "C:\\Users\\x\\Downloads\\tool.exe"),
        rec(11, T0, 0, "tool.exe", "C:\\Users\\x\\Downloads\\tool.exe"),
    ];
    let f = analyze_timestomping(&recs, &nodes);
    assert_eq!(f.len(), 2);
    assert_eq!(f[0].severity, TamperSeverity::Suspicious);
    assert_eq!(f[0].title, "Nanosecond Zeroing Timestomp Pattern");
    assert_eq!(f[0].evidence, vec![10]);
    assert_eq!(f[1].severity, TamperSeverity::Critical);
    assert_eq!(f[1].title, "$STANDARD_INFO vs $FILE_NAME Timestamp Divergence");
    let mut plain = HashMap::new();
    plain.insert(41u64, node(T0 + 1, T0 + 1));
    assert!(analyze_timestomping(&recs, &plain).is_empty());
    let system = vec![rec(12, T0, 0, "tool.exe", "C:\\Windows\\System32\\tool.exe")];
    assert!(analyze_timestomping(&system, &nodes).is_empty());
}

#[test]
fn rapid_executable_deletions_are_critical() {
    let recs: Vec<UsnRecord> = (0..3)
        .map(|k| rec(100 + k, T0 + k * 10_000_000, USN_REASON_FILE_DELETE, "x.exe", "C:\\Users\\x\\AppData\\Local\\Temp\\x.exe"))
        .collect();
    let f = detect_deletion_bursts(&recs);
    assert_eq!(f.len(), 1);
    assert_eq!(f[0].severity, TamperSeverity::Critical);
    assert_eq!(f[0].title, "Rapid Executable or Prefetch Deletion Bursts");
    assert_eq!(
        f[0].description,
        "Detected 1 rapid deletion bursts targeting executables, scripts, or prefetch files (totaling 3 files) within 3-second windows in sensitive locations."
    );
    assert_eq!(f[0].evidence, vec![100, 101, 102]);
    let spread: Vec<UsnRecord> = (0..3)
        .map(|k| rec(100 + k, T0 + k * 40_000_000, USN_REASON_FILE_DELETE, "x.exe", "C:\\Temp\\x.exe"))
        .collect();
    assert!(detect_deletion_bursts(&spread).is_empty());
    let cache: Vec<UsnRecord> = (0..3)
        .map(|k| rec(100 + k, T0, USN_REASON_FILE_DELETE, "x.exe", "C:\\Temp\\Cache\\x.exe"))
        .collect();
    assert!(detect_deletion_bursts(&cache).is_empty());
}

#[test]
fn mass_deletions_are_suspicious() {
    let recs: Vec<UsnRecord> = (0..25)
        .map(|k| rec(k, T0 + k, USN_REASON_FILE_DELETE, "a.txt", "C:\\Users\\x\\Desktop\\a.txt"))
        .collect();
    let f = detect_deletion_bursts(&recs);
    assert_eq!(f.len(), 1);
    assert_eq!(f[0].severity, TamperSeverity::Suspicious);
    assert_eq!(f[0].title, "Mass User File Deletion Bursts");
    assert_eq!(f[0].evidence.len(), 20);
}

#[test]
fn prefetch_deletions() {
    let cleaner = vec![rec(7, T0, USN_REASON_FILE_DELETE, "CCLEANER.EXE-1234ABCD.pf", "C:\\Windows\\Prefetch\\x")];
    let f = audit_prefetch_tampering(&cleaner);
    assert_eq!(f.len(), 1);
    assert_eq!(f[0].severity, TamperSeverity::Critical);
    assert_eq!(f[0].title, "Anti-Forensic Cleaner Prefetch Deletion Detected");
    assert_eq!(f[0].evidence, vec![7]);
    let games: Vec<UsnRecord> = (0..5)
        .map(|k| rec(k, T0, USN_REASON_FILE_DELETE, "CS2.EXE-00000000.pf", "p"))
        .collect();
    let f = audit_prefetch_tampering(&games);
    assert_eq!(f.len(), 1);
    assert_eq!(f[0].severity, TamperSeverity::Suspicious);
    assert_eq!(f[0].title, "Selective Game Prefetch Deletion");
    assert_eq!(f[0].description, "Identified 5 deleted game prefetch (.pf) files.");
    let many: Vec<UsnRecord> = (0..50)
        .map(|k| rec(k, T0 + k, USN_REASON_FILE_DELETE, "NOTEPAD.EXE-1.pf", "p"))
        .collect();
    let f = audit_prefetch_tampering(&many);
    assert_eq!(f.len(), 1);
    assert_eq!(f[0].title, "Rapid Prefetch Deletion Burst");
}

#[test]
fn attribute_masking_and_stomping() {
    let mut hidden = rec(9, T0, 0, "svc.exe", "C:\\Users\\x\\Downloads\\svc.exe");
    hidden.file_attributes = 0x06;
    let f = audit_signature_changes(&[hidden]);
    assert_eq!(f.len(), 1);
    assert_eq!(f[0].severity, TamperSeverity::Critical);
    assert_eq!(f[0].title, "Super-Hidden (System+Hidden) Executable Attribute Masking");
    let stomps: Vec<UsnRecord> = (0..8)
        .map(|k| rec(k, T0 + k, USN_REASON_BASIC_INFO_CHANGE, "a.dll", "C:\\Temp\\a.dll"))
        .collect();
    let f = audit_signature_changes(&stomps);
    assert_eq!(f.len(), 1);
    assert_eq!(f[0].title, "Rapid Automated Timestamp / Attribute Stomping Bursts");
    let dev: Vec<UsnRecord> = (0..8)
        .map(|k| rec(k, T0 + k, USN_REASON_BASIC_INFO_CHANGE, "a.dll", "C:\\Temp\\target\\a.dll"))
        .collect();
    assert!(audit_signature_changes(&dev).is_empty());
}

#[test]
fn evasion_techniques() {
    let recs = vec![
        rec(1, T0, 0, "readme.txt:payload.exe", "p"),
        rec(2, T0, USN_REASON_FILE_DELETE, "setup.exe:Zone.Identifier", "p"),
        rec(3, T0, USN_REASON_RENAME_NEW_NAME, "Loader.PNG", "p"),
        rec(4, T0, USN_REASON_STREAM_CHANGE, "doc.txt:hidden", "p"),
        rec(5, T0, USN_REASON_STREAM_CHANGE, "doc.txt:favicon", "p"),
    ];
    let f = detect_evasion_techniques(&recs);
    assert_eq!(f.len(), 3);
    assert_eq!(f[0].title, "Executable Alternate Data Stream (ADS) Concealment");
    assert_eq!(f[0].evidence, vec![1, 4]);
    assert_eq!(f[1].severity, TamperSeverity::Suspicious);
    assert_eq!(f[1].title, "Mark of the Web (Zone.Identifier) Stripping");
    assert_eq!(f[1].evidence, vec![2]);
    assert_eq!(f[2].title, "Extension Spoofing Rename Pattern");
    assert_eq!(f[2].evidence, vec![3]);
}

#[test]
fn audit_rates_the_findings() {
    let nodes = HashMap::new();
    let clean = run_antiforensics_audit(&journal(64 << 20, 4096, 0, 1 << 20), &[], &nodes);
    assert_eq!(clean.overall_risk, OverallRisk::Clean);
    assert_eq!(clean.overall_risk.as_str(), "[CLEAN]");
    assert!(clean.findings.is_empty());
    let recs = vec![rec(4, T0, USN_REASON_FILE_DELETE, "x.exe:Zone.Identifier", "p")];
    let sus = run_antiforensics_audit(&journal(64 << 20, 4096, 0, 1 << 20), &recs, &nodes);
    assert_eq!(sus.overall_risk, OverallRisk::Suspicious);
    assert_eq!(sus.suspicious_count, 1);
    assert_eq!(sus.critical_count, 0);
    assert!(sus.evidence_usns.contains(&4));
    let crit = run_antiforensics_audit(&journal(1024, 4096, 0, 1 << 20), &recs, &nodes);
    assert_eq!(crit.overall_risk, OverallRisk::CriticalTampering);
    assert_eq!(crit.overall_risk.as_str(), "[CRITICAL TAMPERING DETECTED]");
    assert_eq!(crit.critical_count, 1);
    assert_eq!(crit.findings.len(), 2);
}

#[test]
fn reports_clone_and_default() {
    let nodes = HashMap::new();
    let recs = vec![rec(4, T0, USN_REASON_FILE_DELETE, "x.exe:Zone.Identifier", "p")];
    let rep = run_antiforensics_audit(&journal(1024, 4096, 0, 1 << 20), &recs, &nodes);
    let copy = rep.clone();
    assert_eq!(copy.overall_risk, rep.overall_risk);
    assert_eq!(copy.findings.len(), 2);
    assert_eq!(copy.evidence_usns, rep.evidence_usns);
    let d = journal_trace::antiforensics::AntiForensicsReport::default();
    assert_eq!(d.overall_risk, OverallRisk::Clean);
    assert_eq!(OverallRisk::default(), OverallRisk::Clean);
}
