//! Alternate data stream concealment, mark-of-the-web stripping and extension spoofing.
use vstd::prelude::*;

use crate::antiforensics::clusters::{first_n, first_twenty, select_usns};
use crate::antiforensics::journal_tamper::{findings_view, FindingView, TamperFinding, TamperSeverity};
use crate::text::{
    contains_any, contains_any_of, contains_chars, contains_seq, dec, ends_with_any,
    ends_with_any_of, lower, lower_chars, pattern_list, patterns_view, push_decimal, str_chars,
    strs_view,
};
use crate::usn_record::{
    UsnRecord, USN_REASON_FILE_DELETE, USN_REASON_RENAME_NEW_NAME, USN_REASON_STREAM_CHANGE,
};

verus! {

/// Extensions of executable stream payloads.
pub open spec fn stream_exec_exts() -> Seq<Seq<char>> {
    strs_view(seq![".exe", ".dll", ".sys", ".jar", ".ps1", ".bat", ".vbs"])
}

/// Extensions of innocent-looking files.
pub open spec fn innocent_exts() -> Seq<Seq<char>> {
    strs_view(seq![".png", ".jpg", ".txt", ".tmp", ".dat", ".log", ".ico"])
}

/// Stream names that Windows and common applications create.
pub open spec fn whitelisted_streams() -> Seq<Seq<char>> {
    strs_view(seq![":zone.identifier", ":summaryinformation", ":documentcatalog", ":$data", ":favicon", ":syncstatus", ":wmpinfo"])
}

/// Words of cheat and loader binaries.
pub open spec fn suspicious_words() -> Seq<Seq<char>> {
    strs_view(seq!["loader", "inject", "cheat", "bypass"])
}

/// Deletion of a Zone.Identifier stream.
pub open spec fn is_zone_strip(r: UsnRecord) -> bool {
    contains_seq(lower(r.file_name@), ":zone.identifier"@) && r.reason & USN_REASON_FILE_DELETE != 0
}

/// A named stream (a ':' in the name, when not a Zone.Identifier deletion) that either
/// ends with an executable extension, or is changed and not a well-known stream.
pub open spec fn is_concealing_stream() -> spec_fn(UsnRecord) -> bool {
    |r: UsnRecord|
        {
            let n = lower(r.file_name@);
            &&& !is_zone_strip(r)
            &&& contains_seq(n, ":"@)
            &&& (ends_with_any(n, stream_exec_exts()) || (!contains_any(n, whitelisted_streams())
                && r.reason & USN_REASON_STREAM_CHANGE != 0))
        }
}

/// Zone.Identifier deletions.
pub open spec fn is_zone_identifier_strip() -> spec_fn(UsnRecord) -> bool {
    |r: UsnRecord| is_zone_strip(r)
}

/// A rename to an innocent extension of a file whose name holds a suspicious word.
pub open spec fn is_spoofing_rename() -> spec_fn(UsnRecord) -> bool {
    |r: UsnRecord|
        r.reason & USN_REASON_RENAME_NEW_NAME != 0 && ends_with_any(lower(r.file_name@), innocent_exts())
            && contains_any(lower(r.file_name@), suspicious_words())
}

/// The findings of `detect_evasion_techniques`, in order: stream concealment (critical),
/// Zone.Identifier stripping (suspicious), extension spoofing (critical), each when any.
pub open spec fn evasion_findings(rs: Seq<UsnRecord>) -> Seq<FindingView> {
    let ads = select_usns(rs, is_concealing_stream());
    let zone = select_usns(rs, is_zone_identifier_strip());
    let spoof = select_usns(rs, is_spoofing_rename());
    (if ads.len() > 0 {
        seq![
            FindingView {
                severity: TamperSeverity::Critical,
                title: "Executable Alternate Data Stream (ADS) Concealment"@,
                description: "Identified "@ + dec((ads.len()) as nat) + " events involving executable payloads or hidden data streams inside NTFS Alternate Data Streams."@,
                evidence: first_n(ads, 20),
            },
        ]
    } else {
        seq![]
    }) + (if zone.len() > 0 {
        seq![
            FindingView {
                severity: TamperSeverity::Suspicious,
                title: "Mark of the Web (Zone.Identifier) Stripping"@,
                description: "Discovered "@ + dec((zone.len()) as nat) + " events where Zone.Identifier streams were deleted, indicating deliberate unblocking of downloaded files."@,
                evidence: first_n(zone, 20),
            },
        ]
    } else {
        seq![]
    }) + (if spoof.len() > 0 {
        seq![
            FindingView {
                severity: TamperSeverity::Critical,
                title: "Extension Spoofing Rename Pattern"@,
                description: "Identified "@ + dec((spoof.len()) as nat) + " files renamed to innocent document/image extensions matching suspicious binary naming signatures."@,
                evidence: first_n(spoof, 20),
            },
        ]
    } else {
        seq![]
    })
}

/// Detects executable payloads hidden in alternate data streams, stripped
/// Zone.Identifier streams, and suspicious binaries renamed to innocent extensions.
pub fn detect_evasion_techniques(records: &[UsnRecord]) -> (r: Vec<TamperFinding>)
    ensures
        findings_view(r@) == evasion_findings(records@),
{
    let exec_exts = pattern_list(&[".exe", ".dll", ".sys", ".jar", ".ps1", ".bat", ".vbs"]);
    let innocent = pattern_list(&[".png", ".jpg", ".txt", ".tmp", ".dat", ".log", ".ico"]);
    let white = pattern_list(&[":zone.identifier", ":summaryinformation", ":documentcatalog", ":$data", ":favicon", ":syncstatus", ":wmpinfo"]);
    let words = pattern_list(&["loader", "inject", "cheat", "bypass"]);
    let zone_id = str_chars(":zone.identifier");
    let colon = str_chars(":");
    let mut ads_usns: Vec<i64> = Vec::new();
    let mut zone_usns: Vec<i64> = Vec::new();
    let mut spoof_usns: Vec<i64> = Vec::new();
    let mut i: usize = 0;
    while i < records.len()
        invariant
            i <= records@.len(),
            patterns_view(exec_exts@) == stream_exec_exts(),
            patterns_view(innocent@) == innocent_exts(),
            patterns_view(white@) == whitelisted_streams(),
            patterns_view(words@) == suspicious_words(),
            zone_id@ == ":zone.identifier"@,
            colon@ == ":"@,
            ads_usns@ == select_usns(records@.take(i as int), is_concealing_stream()),
            zone_usns@ == select_usns(records@.take(i as int), is_zone_identifier_strip()),
            spoof_usns@ == select_usns(records@.take(i as int), is_spoofing_rename()),
        decreases records@.len() - i,
    {
        let r = &records[i];
        proof {
            assert(records@.take(i + 1).drop_last() =~= records@.take(i as int));
            assert(records@.take(i + 1).last() == *r);
        }
        let lower_name = lower_chars(r.file_name.as_str());
        let n = lower_name.as_slice();
        if contains_chars(n, zone_id.as_slice()) && r.reason & USN_REASON_FILE_DELETE != 0 {
            zone_usns.push(r.usn);
        } else if contains_chars(n, colon.as_slice()) {
            let is_exec_stream = ends_with_any_of(n, &exec_exts);
            if is_exec_stream {
                ads_usns.push(r.usn);
            } else if !contains_any_of(n, &white) && r.reason & USN_REASON_STREAM_CHANGE != 0 {
                ads_usns.push(r.usn);
            }
        }
        if r.reason & USN_REASON_RENAME_NEW_NAME != 0 {
            if ends_with_any_of(n, &innocent) && contains_any_of(n, &words) {
                spoof_usns.push(r.usn);
            }
        }
        i = i + 1;
    }
    assert(records@.take(records@.len() as int) =~= records@);
    let ghost ads = select_usns(records@, is_concealing_stream());
    let ghost zone = select_usns(records@, is_zone_identifier_strip());
    let ghost spoof = select_usns(records@, is_spoofing_rename());
    let mut findings: Vec<TamperFinding> = Vec::new();
    if ads_usns.len() > 0 {
        let mut d = String::from_str("Identified ");
        push_decimal(&mut d, ads_usns.len() as u64);
        d.append(" events involving executable payloads or hidden data streams inside NTFS Alternate Data Streams.");
        findings.push(TamperFinding {
            severity: TamperSeverity::Critical,
            title: String::from_str("Executable Alternate Data Stream (ADS) Concealment"),
            description: d,
            evidence: first_twenty(&ads_usns),
        });
    }
    if zone_usns.len() > 0 {
        let mut d = String::from_str("Discovered ");
        push_decimal(&mut d, zone_usns.len() as u64);
        d.append(" events where Zone.Identifier streams were deleted, indicating deliberate unblocking of downloaded files.");
        findings.push(TamperFinding {
            severity: TamperSeverity::Suspicious,
            title: String::from_str("Mark of the Web (Zone.Identifier) Stripping"),
            description: d,
            evidence: first_twenty(&zone_usns),
        });
    }
    if spoof_usns.len() > 0 {
        let mut d = String::from_str("Identified ");
        push_decimal(&mut d, spoof_usns.len() as u64);
        d.append(" files renamed to innocent document/image extensions matching suspicious binary naming signatures.");
        findings.push(TamperFinding {
            severity: TamperSeverity::Critical,
            title: String::from_str("Extension Spoofing Rename Pattern"),
            description: d,
            evidence: first_twenty(&spoof_usns),
        });
    }
    assert(findings_view(findings@) =~= evasion_findings(records@));
    findings
}

} // verus!
