//! Deleted prefetch files of cleaning tools and games, and prefetch wiping bursts.
use vstd::prelude::*;

use crate::antiforensics::clusters::{
    at_least, filter_windows, first_n, first_twenty, flatten_usns, group_into_windows,
    long_window_usns, sort_by_time, sort_events_by_time, time_windows, windows_view, Event,
};
use crate::antiforensics::journal_tamper::{findings_view, FindingView, TamperFinding, TamperSeverity};
use crate::text::{
    dec, ends_with_chars, ends_with_seq, lower, lower_chars, pattern_list, patterns_view,
    push_decimal, starts_with_any, starts_with_any_of, strs_view,
};
use crate::usn_record::{UsnRecord, USN_REASON_FILE_DELETE};

verus! {

/// Prefetch name prefixes of competitive game executables.
pub open spec fn game_prefixes() -> Seq<Seq<char>> {
    strs_view(seq!["javaw.exe-", "minecraft.exe-", "cs2.exe-", "csgo.exe-", "valorant.exe-", "fortniteclient", "robloxplayer", "r5apex.exe-", "fivem.exe-", "fivem_"])
}

/// Prefetch name prefixes of trace-cleaning tools.
pub open spec fn cleaner_prefixes() -> Seq<Seq<char>> {
    strs_view(seq!["bleachbit.exe-", "ccleaner.exe-", "privazer.exe-", "fsutil.exe-", "srumutil.exe-", "usndelete.exe-"])
}

/// A deletion, with a positive timestamp, of a file whose lower-cased name ends in ".pf".
pub open spec fn is_pf_deletion(r: UsnRecord) -> bool {
    &&& r.reason & USN_REASON_FILE_DELETE != 0
    &&& r.timestamp_raw > 0
    &&& ends_with_seq(lower(r.file_name@), ".pf"@)
}

/// Kind of a record for the prefetch audit: 1 for a deleted cleaner prefetch file,
/// 2 for a deleted game prefetch file, 3 for another deleted prefetch file, else 0.
pub open spec fn pf_kind(r: UsnRecord) -> int {
    if !is_pf_deletion(r) {
        0
    } else if starts_with_any(lower(r.file_name@), cleaner_prefixes()) {
        1
    } else if starts_with_any(lower(r.file_name@), game_prefixes()) {
        2
    } else {
        3
    }
}

/// Update sequence numbers of the records of `rs` of the given kind, in order.
pub open spec fn pf_usns(rs: Seq<UsnRecord>, kind: int) -> Seq<i64>
    decreases rs.len(),
{
    if rs.len() == 0 {
        seq![]
    } else if pf_kind(rs.last()) == kind {
        pf_usns(rs.drop_last(), kind).push(rs.last().usn)
    } else {
        pf_usns(rs.drop_last(), kind)
    }
}

/// Events (time, update number) of other deleted prefetch files, in order.
pub open spec fn pf_events(rs: Seq<UsnRecord>) -> Seq<Event>
    decreases rs.len(),
{
    if rs.len() == 0 {
        seq![]
    } else if pf_kind(rs.last()) == 3 {
        pf_events(rs.drop_last()).push((rs.last().timestamp_raw, rs.last().usn, false))
    } else {
        pf_events(rs.drop_last())
    }
}

/// Windows of five seconds (50,000,000 ticks) holding at least 50 other prefetch deletions.
pub open spec fn pf_bursts(rs: Seq<UsnRecord>) -> Seq<Seq<Event>> {
    filter_windows(time_windows(sort_by_time(pf_events(rs)), 50_000_000), at_least(50))
}

/// The findings of `audit_prefetch_tampering`, in order: cleaner prefetch deletions
/// (critical, when any); game prefetch deletions (critical from 20 on, suspicious from
/// 5 on); prefetch deletion bursts (suspicious, when any).
pub open spec fn prefetch_findings(rs: Seq<UsnRecord>) -> Seq<FindingView> {
    let cleaner = pf_usns(rs, 1);
    let game = pf_usns(rs, 2);
    let bursts = pf_bursts(rs);
    (if cleaner.len() > 0 {
        seq![
            FindingView {
                severity: TamperSeverity::Critical,
                title: "Anti-Forensic Cleaner Prefetch Deletion Detected"@,
                description: "Discovered "@ + dec((cleaner.len()) as nat) + " deleted prefetch (.pf) files matching anti-forensic cleaning tools."@,
                evidence: first_n(cleaner, 20),
            },
        ]
    } else {
        seq![]
    }) + (if game.len() >= 20 {
        seq![
            FindingView {
                severity: TamperSeverity::Critical,
                title: "Competitive Game Prefetch Wiping Detected"@,
                description: "Discovered "@ + dec((game.len()) as nat) + " deleted prefetch (.pf) files matching competitive game binaries."@,
                evidence: first_n(game, 20),
            },
        ]
    } else if game.len() >= 5 {
        seq![
            FindingView {
                severity: TamperSeverity::Suspicious,
                title: "Selective Game Prefetch Deletion"@,
                description: "Identified "@ + dec((game.len()) as nat) + " deleted game prefetch (.pf) files."@,
                evidence: first_n(game, 20),
            },
        ]
    } else {
        seq![]
    }) + (if bursts.len() > 0 {
        seq![
            FindingView {
                severity: TamperSeverity::Suspicious,
                title: "Rapid Prefetch Deletion Burst"@,
                description: "Detected rapid deletion burst of "@ + dec((flatten_usns(bursts).len()) as nat) + " prefetch files within 5-second windows (suggestive of disk cleanup or trace wiping)."@,
                evidence: first_n(flatten_usns(bursts), 20),
            },
        ]
    } else {
        seq![]
    })
}

/// Audits deleted prefetch files: those of trace cleaners, those of competitive games,
/// and bursts of 50 or more other prefetch deletions within five seconds.
pub fn audit_prefetch_tampering(records: &[UsnRecord]) -> (r: Vec<TamperFinding>)
    ensures
        findings_view(r@) == prefetch_findings(records@),
{
    let games = pattern_list(&["javaw.exe-", "minecraft.exe-", "cs2.exe-", "csgo.exe-", "valorant.exe-", "fortniteclient", "robloxplayer", "r5apex.exe-", "fivem.exe-", "fivem_"]);
    let cleaners = pattern_list(&["bleachbit.exe-", "ccleaner.exe-", "privazer.exe-", "fsutil.exe-", "srumutil.exe-", "usndelete.exe-"]);
    let pf: Vec<char> = crate::text::str_chars(".pf");
    let mut cleaner_usns: Vec<i64> = Vec::new();
    let mut game_usns: Vec<i64> = Vec::new();
    let mut events: Vec<Event> = Vec::new();
    let mut i: usize = 0;
    while i < records.len()
        invariant
            i <= records@.len(),
            patterns_view(games@) == game_prefixes(),
            patterns_view(cleaners@) == cleaner_prefixes(),
            pf@ == ".pf"@,
            cleaner_usns@ == pf_usns(records@.take(i as int), 1),
            game_usns@ == pf_usns(records@.take(i as int), 2),
            events@ == pf_events(records@.take(i as int)),
        decreases records@.len() - i,
    {
        let r = &records[i];
        proof {
            assert(records@.take(i + 1).drop_last() =~= records@.take(i as int));
            assert(records@.take(i + 1).last() == *r);
        }
        if r.reason & USN_REASON_FILE_DELETE != 0 && r.timestamp_raw > 0 {
            let lower_name = lower_chars(r.file_name.as_str());
            if ends_with_chars(lower_name.as_slice(), pf.as_slice()) {
                if starts_with_any_of(lower_name.as_slice(), &cleaners) {
                    cleaner_usns.push(r.usn);
                } else if starts_with_any_of(lower_name.as_slice(), &games) {
                    game_usns.push(r.usn);
                } else {
                    events.push((r.timestamp_raw, r.usn, false));
                }
            }
        }
        i = i + 1;
    }
    assert(records@.take(records@.len() as int) =~= records@);
    let mut findings: Vec<TamperFinding> = Vec::new();
    let ghost cleaner = pf_usns(records@, 1);
    let ghost game = pf_usns(records@, 2);
    if cleaner_usns.len() > 0 {
        let mut d = String::from_str("Discovered ");
        push_decimal(&mut d, cleaner_usns.len() as u64);
        d.append(" deleted prefetch (.pf) files matching anti-forensic cleaning tools.");
        findings.push(TamperFinding {
            severity: TamperSeverity::Critical,
            title: String::from_str("Anti-Forensic Cleaner Prefetch Deletion Detected"),
            description: d,
            evidence: first_twenty(&cleaner_usns),
        });
    }
    if game_usns.len() >= 20 {
        let mut d = String::from_str("Discovered ");
        push_decimal(&mut d, game_usns.len() as u64);
        d.append(" deleted prefetch (.pf) files matching competitive game binaries.");
        findings.push(TamperFinding {
            severity: TamperSeverity::Critical,
            title: String::from_str("Competitive Game Prefetch Wiping Detected"),
            description: d,
            evidence: first_twenty(&game_usns),
        });
    } else if game_usns.len() >= 5 {
        let mut d = String::from_str("Identified ");
        push_decimal(&mut d, game_usns.len() as u64);
        d.append(" deleted game prefetch (.pf) files.");
        findings.push(TamperFinding {
            severity: TamperSeverity::Suspicious,
            title: String::from_str("Selective Game Prefetch Deletion"),
            description: d,
            evidence: first_twenty(&game_usns),
        });
    }
    let sorted = sort_events_by_time(events);
    let cs = group_into_windows(&sorted, 50_000_000);
    let (burst_count, burst_usns) = long_window_usns(&cs, 50);
    let ghost bursts = pf_bursts(records@);
    assert(bursts == filter_windows(windows_view(cs@), at_least(50)));
    if burst_count > 0 {
        let mut d = String::from_str("Detected rapid deletion burst of ");
        push_decimal(&mut d, burst_usns.len() as u64);
        d.append(" prefetch files within 5-second windows (suggestive of disk cleanup or trace wiping).");
        findings.push(TamperFinding {
            severity: TamperSeverity::Suspicious,
            title: String::from_str("Rapid Prefetch Deletion Burst"),
            description: d,
            evidence: first_twenty(&burst_usns),
        });
    }
    assert(findings_view(findings@) =~= prefetch_findings(records@));
    findings
}

} // verus!
