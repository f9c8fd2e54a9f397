//! The decisions of the background scan: how a journal read buffer is cut into
//! records, when the read loop stops, and the summary of a finished scan.
use std::collections::{HashMap, HashSet};
use vstd::prelude::*;
use vstd::slice::slice_subrange;

use crate::antiforensics::gap_analysis::{expected_next_usn, gap_size, gaps_representable, is_gap};
use crate::antiforensics::journal_tamper::{findings_view, TamperSeverity};
use crate::antiforensics::{
    audit_findings, evidence_set, overall_risk_of, run_antiforensics_audit, severity_count,
    AntiForensicsReport,
};
use crate::journal::UsnJournalData;
use crate::mft::MftNode;
use crate::rewind::{add_links, resolved_path, sort_histories, with_path, RewindResolver};
use crate::text::upper_char;

use crate::usn_record::{
    filetime_to_formatted_local, local_text_ok, parse_usn_record, parse_usn_result,
    usn_record_len, usn_record_parses, UsnRecord,
};

verus! {

broadcast use {vstd::string::group_string_axioms, vstd::std_specs::hash::group_hash_axioms};

/// Summary of a finished journal scan.
#[derive(Clone, Debug)]
pub struct ScanStats {
    pub oldest_timestamp_raw: i64,
    pub oldest_timestamp_formatted: String,
    pub total_entries: usize,
    pub file_count: usize,
    pub dir_count: usize,
}

impl Default for ScanStats {
    /// The summary before any scan: zeros and an empty text.
    fn default() -> (r: Self)
        ensures
            r.oldest_timestamp_raw == 0,
            r.oldest_timestamp_formatted@ == Seq::<char>::empty(),
            r.total_entries == 0,
            r.file_count == 0,
            r.dir_count == 0,
    {
        ScanStats {
            oldest_timestamp_raw: 0,
            oldest_timestamp_formatted: String::new(),
            total_entries: 0,
            file_count: 0,
            dir_count: 0,
        }
    }
}

/// What the user asks the background scan to do.
pub enum WorkerCommand {
    StartScan { drive_letter: char },
    StartCarve { drive_letter: char },
    Cancel,
}

/// The earliest positive timestamp among the records (`i64::MAX` when there is none).
pub open spec fn oldest_positive(rs: Seq<UsnRecord>) -> i64
    decreases rs.len(),
{
    if rs.len() == 0 {
        i64::MAX
    } else {
        let o = oldest_positive(rs.drop_last());
        let t = rs.last().timestamp_raw;
        if t > 0 && t < o {
            t
        } else {
            o
        }
    }
}

/// A record of a directory (attribute bit 0x10).
pub open spec fn is_dir_record(r: UsnRecord) -> bool {
    (r.file_attributes & 0x10) != 0
}

/// Number of directory records.
pub open spec fn dir_records(rs: Seq<UsnRecord>) -> nat
    decreases rs.len(),
{
    if rs.len() == 0 {
        0
    } else {
        dir_records(rs.drop_last()) + if is_dir_record(rs.last()) {
            1nat
        } else {
            0nat
        }
    }
}

proof fn lemma_dir_records_bound(rs: Seq<UsnRecord>)
    ensures
        dir_records(rs) <= rs.len(),
    decreases rs.len(),
{
    if rs.len() > 0 {
        lemma_dir_records_bound(rs.drop_last());
    }
}

/// Summarises the records of a scan: the earliest positive timestamp and its local
/// time text ("N/A" when there is none), the number of records, of directories
/// (attribute 0x10) and of the other entries.
pub fn compute_scan_stats(records: &[UsnRecord]) -> (r: ScanStats)
    ensures
        r.oldest_timestamp_raw == oldest_positive(records@),
        r.oldest_timestamp_raw == i64::MAX ==> r.oldest_timestamp_formatted@ == "N/A"@,
        r.oldest_timestamp_raw != i64::MAX ==> local_text_ok(
            r.oldest_timestamp_raw,
            r.oldest_timestamp_formatted@,
        ),
        r.total_entries == records@.len(),
        r.dir_count == dir_records(records@),
        r.file_count == records@.len() - dir_records(records@),
        r.file_count + r.dir_count == r.total_entries,
{
    let mut oldest: i64 = i64::MAX;
    let mut files: usize = 0;
    let mut dirs: usize = 0;
    let mut i: usize = 0;
    while i < records.len()
        invariant
            i <= records@.len(),
            oldest == oldest_positive(records@.take(i as int)),
            dirs == dir_records(records@.take(i as int)),
            files + dirs == i,
        decreases records@.len() - i,
    {
        let r = &records[i];
        assert(records@.take(i + 1).drop_last() =~= records@.take(i as int));
        if r.timestamp_raw > 0 && r.timestamp_raw < oldest {
            oldest = r.timestamp_raw;
        }
        if (r.file_attributes & 0x10) != 0 {
            dirs = dirs + 1;
        } else {
            files = files + 1;
        }
        i = i + 1;
    }
    assert(records@.take(i as int) =~= records@);
    proof {
        lemma_dir_records_bound(records@);
    }
    let formatted = if oldest != i64::MAX {
        filetime_to_formatted_local(oldest)
    } else {
        String::from_str("N/A")
    };
    ScanStats {
        oldest_timestamp_raw: oldest,
        oldest_timestamp_formatted: formatted,
        total_entries: records.len(),
        file_count: files,
        dir_count: dirs,
    }
}

/// `x` rounded up to a multiple of 8.
pub open spec fn align8(x: int) -> int {
    if x % 8 == 0 {
        x
    } else {
        x + (8 - x % 8)
    }
}

/// Offsets of the records that the scan reads from the journal bytes `b`, starting
/// at `off`: while 8 bytes remain and a record parses there, its offset, then the
/// next one at the end of the record rounded up to 8.
pub open spec fn chunk_offsets(b: Seq<u8>, off: int) -> Seq<int>
    decreases b.len() + 8 - off,
{
    if off < 0 || off + 8 > b.len() || !usn_record_parses(b.subrange(off, b.len() as int)) {
        Seq::empty()
    } else {
        seq![off] + chunk_offsets(b, align8(off + usn_record_len(b.subrange(off, b.len() as int))))
    }
}

/// The record that `parse_usn_record` gives for the bytes `b` and the number `id`.
pub open spec fn record_parsed_from(b: Seq<u8>, id: int, rec: UsnRecord) -> bool {
    0 <= id <= usize::MAX && parse_usn_result(b, id as usize, Some((rec, usn_record_len(b) as usize)))
}

/// The records of a journal read buffer: the first `bytes_read` bytes, after the
/// 8-byte cursor, cut as [`chunk_offsets`] says; the `k`-th record is numbered
/// `first_id + k`.
pub fn parse_usn_chunk(buf: &[u8], bytes_read: usize, first_id: usize) -> (r: Vec<UsnRecord>)
    requires
        bytes_read <= buf@.len(),
        first_id + chunk_offsets(buf@.take(bytes_read as int), 8).len() <= usize::MAX,
    ensures
        ({
            let b = buf@.take(bytes_read as int);
            let offs = chunk_offsets(b, 8);
            &&& r@.len() == offs.len()
            &&& forall|k: int|
                0 <= k < r@.len() ==> record_parsed_from(
                    b.subrange(offs[k], b.len() as int),
                    first_id + k,
                    #[trigger] r@[k],
                )
        }),
{
    let ghost b = buf@.take(bytes_read as int);
    let ghost offs = chunk_offsets(b, 8);
    let mut r: Vec<UsnRecord> = Vec::new();
    let mut offset: usize = 8;
    let mut rec_id: usize = first_id;
    let ghost mut done: Seq<int> = Seq::empty();
    while offset <= bytes_read && bytes_read - offset >= 8
        invariant
            bytes_read <= buf@.len(),
            b == buf@.take(bytes_read as int),
            offs == chunk_offsets(b, 8),
            first_id + offs.len() <= usize::MAX,
            8 <= offset,
            offs == done + chunk_offsets(b, offset as int),
            r@.len() == done.len(),
            rec_id == first_id + r@.len(),
            forall|k: int|
                0 <= k < r@.len() ==> record_parsed_from(
                    b.subrange(done[k], b.len() as int),
                    first_id + k,
                    #[trigger] r@[k],
                ),
        decreases bytes_read - offset,
    {
        let sub = slice_subrange(buf, offset, bytes_read);
        let ghost bs = b.subrange(offset as int, b.len() as int);
        assert(sub@ =~= bs);
        match parse_usn_record(sub, rec_id) {
            Some((rec, rec_len)) => {
                let ghost next_off = align8(offset + rec_len);
                assert(chunk_offsets(b, offset as int) == seq![offset as int] + chunk_offsets(
                    b,
                    next_off,
                ));
                proof {
                    assert(offs == (done + seq![offset as int]) + chunk_offsets(b, next_off));
                    done = done.push(offset as int);
                }
                r.push(rec);
                rec_id = rec_id + 1;
                let next: usize = offset + rec_len;
                let rem: usize = next % 8;
                if rem != 0 {
                    let pad: usize = 8 - rem;
                    if bytes_read - next < pad {
                        assert(chunk_offsets(b, next_off) =~= Seq::<int>::empty());
                        assert(chunk_offsets(b, bytes_read as int) =~= Seq::<int>::empty());
                        offset = bytes_read;
                    } else {
                        offset = next + pad;
                    }
                } else {
                    offset = next;
                }
            },
            None => {
                assert(chunk_offsets(b, offset as int) =~= Seq::<int>::empty());
                assert(done =~= offs);
                return r;
            },
        }
    }
    assert(chunk_offsets(b, offset as int) =~= Seq::<int>::empty());
    assert(done =~= offs);
    r
}

/// What the read loop does with the answer to one read.
#[derive(Clone, Copy, Debug, PartialEq, Eq, Structural)]
pub enum ChunkStep {
    /// Nothing new came back: stop reading.
    Stop,
    /// Parse the records, then stop: the journal's end has been reached.
    ParseThenStop,
    /// Parse the records and read on from the returned cursor.
    ParseThenContinue,
}

/// The step after a read from `current_usn` that returned the cursor `next_usn` and
/// `bytes_read` bytes, for a journal that ends at `end_usn`.
pub open spec fn chunk_step(current_usn: i64, end_usn: i64, next_usn: i64, bytes_read: usize) -> ChunkStep {
    if bytes_read <= 8 || next_usn <= current_usn {
        ChunkStep::Stop
    } else if next_usn >= end_usn {
        ChunkStep::ParseThenStop
    } else {
        ChunkStep::ParseThenContinue
    }
}

/// Decides the step after a read (see [`chunk_step`]).
pub fn next_chunk_step(current_usn: i64, end_usn: i64, next_usn: i64, bytes_read: usize) -> (s: ChunkStep)
    ensures
        s == chunk_step(current_usn, end_usn, next_usn, bytes_read),
{
    if bytes_read <= 8 || next_usn <= current_usn {
        ChunkStep::Stop
    } else if next_usn >= end_usn {
        ChunkStep::ParseThenStop
    } else {
        ChunkStep::ParseThenContinue
    }
}

/// Number of clusters that a carve of unallocated space scans: the volume's
/// clusters, at most 300,000.
pub open spec fn carve_limit(total_sectors: u64, sectors_per_cluster: u32) -> u64 {
    let per = if sectors_per_cluster == 0 {
        1
    } else {
        sectors_per_cluster as int
    };
    let clusters = total_sectors as int / per;
    if clusters < 300_000 {
        clusters as u64
    } else {
        300_000
    }
}

/// The number of clusters a carve scans (see [`carve_limit`]).
pub fn carve_scan_limit(total_sectors: u64, sectors_per_cluster: u32) -> (n: u64)
    ensures
        n == carve_limit(total_sectors, sectors_per_cluster),
{
    let per: u64 = if sectors_per_cluster == 0 {
        1
    } else {
        sectors_per_cluster as u64
    };
    let clusters = total_sectors / per;
    if clusters < 300_000 {
        clusters
    } else {
        300_000
    }
}

/// Everything a finished journal scan hands to the window.
pub struct ScanOutcome {
    pub records: Vec<UsnRecord>,
    pub report: AntiForensicsReport,
    pub stats: ScanStats,
}

/// The path of `r` once every record of `rs` is indexed for `drive_letter`.
pub open spec fn scan_path(
    drive_letter: char,
    nodes: Map<u64, MftNode>,
    rs: Seq<UsnRecord>,
    r: UsnRecord,
) -> Seq<char> {
    resolved_path(upper_char(drive_letter), sort_histories(add_links(Map::empty(), rs)), nodes, r@)
}

/// The work after the last read of a journal scan: the records get their paths as of
/// their own update numbers, the audit runs over them and the master file table
/// entries, and the scan is summarised.
pub fn finish_journal_scan(
    drive_letter: char,
    mft_nodes: HashMap<u64, MftNode>,
    journal: &UsnJournalData,
    raw_records: Vec<UsnRecord>,
) -> (r: ScanOutcome)
    requires
        gaps_representable(raw_records@),
    ensures
        r.records@.len() == raw_records@.len(),
        forall|i: int|
            0 <= i < raw_records@.len() ==> (#[trigger] r.records@[i])@ == with_path(
                raw_records@[i]@,
                scan_path(drive_letter, mft_nodes@, raw_records@, raw_records@[i]),
            ),
        findings_view(r.report.findings@) == audit_findings(*journal, r.records@, mft_nodes@),
        r.report.critical_count == severity_count(
            findings_view(r.report.findings@),
            TamperSeverity::Critical,
        ),
        r.report.suspicious_count == severity_count(
            findings_view(r.report.findings@),
            TamperSeverity::Suspicious,
        ),
        r.report.evidence_usns@ == evidence_set(findings_view(r.report.findings@)),
        r.report.overall_risk == overall_risk_of(findings_view(r.report.findings@)),
        r.stats.oldest_timestamp_raw == oldest_positive(r.records@),
        r.stats.oldest_timestamp_raw == i64::MAX ==> r.stats.oldest_timestamp_formatted@ == "N/A"@,
        r.stats.oldest_timestamp_raw != i64::MAX ==> local_text_ok(
            r.stats.oldest_timestamp_raw,
            r.stats.oldest_timestamp_formatted@,
        ),
        r.stats.total_entries == r.records@.len(),
        r.stats.dir_count == dir_records(r.records@),
        r.stats.file_count == r.records@.len() - dir_records(r.records@),
{
    let mut records = raw_records;
    let mut resolver = RewindResolver::new(drive_letter, mft_nodes);
    assert(crate::rewind::history_view(resolver.usn_history@) =~= Map::empty());
    resolver.index_records(&records);
    resolver.resolve_all_paths(records.as_mut_slice());
    proof {
        assert forall|i: int|
            0 <= i < records@.len() - 1 implies i64::MIN <= #[trigger] expected_next_usn(
            records@,
            i,
        ) <= i64::MAX && (is_gap(records@, i) ==> gap_size(records@, i) <= i64::MAX) by {
            assert(records@[i]@ == with_path(raw_records@[i]@, resolver.path_of(raw_records@[i]@)));
            assert(records@[i + 1]@ == with_path(
                raw_records@[i + 1]@,
                resolver.path_of(raw_records@[i + 1]@),
            ));
            assert(expected_next_usn(records@, i) == expected_next_usn(raw_records@, i));
        }
    }
    let report = run_antiforensics_audit(journal, records.as_slice(), &resolver.mft_nodes);
    let stats = compute_scan_stats(records.as_slice());
    ScanOutcome { records, report, stats }
}

/// The update numbers of the records of `rs`.
pub open spec fn usns_of(rs: Seq<UsnRecord>) -> Set<i64> {
    Set::new(|u: i64| exists|i: int| 0 <= i < rs.len() && #[trigger] rs[i].usn == u)
}

/// Adds the update numbers of freshly read records to those the worker knows, so that
/// a later carve of unallocated space leaves them out.
pub fn remember_usns(known: &mut HashSet<i64>, records: &[UsnRecord])
    ensures
        final(known)@ == old(known)@.union(usns_of(records@)),
{
    let mut i: usize = 0;
    while i < records.len()
        invariant
            i <= records@.len(),
            known@ == old(known)@.union(usns_of(records@.take(i as int))),
        decreases records@.len() - i,
    {
        known.insert(records[i].usn);
        proof {
            let t = records@.take(i + 1);
            assert forall|u: i64| usns_of(t).contains(u) <==> usns_of(records@.take(i as int)).insert(
                records@[i as int].usn,
            ).contains(u) by {
                if usns_of(t).contains(u) {
                    let k = choose|k: int| 0 <= k < t.len() && #[trigger] t[k].usn == u;
                    if k < i {
                        assert(records@.take(i as int)[k].usn == u);
                    }
                }
                if usns_of(records@.take(i as int)).contains(u) {
                    let k = choose|k: int|
                        0 <= k < records@.take(i as int).len() && #[trigger] records@.take(
                            i as int,
                        )[k].usn == u;
                    assert(t[k].usn == u);
                }
                if u == records@[i as int].usn {
                    assert(t[i as int].usn == u);
                }
            }
            assert(known@ =~= old(known)@.union(usns_of(t)));
        }
        i = i + 1;
    }
    assert(records@.take(i as int) =~= records@);
}

} // verus!
