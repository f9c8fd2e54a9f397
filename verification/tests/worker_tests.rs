use journal_trace::usn_record::{UsnRecord, FILETIME_TO_UNIX_OFFSET};
use std::collections::HashMap;

use journal_trace::antiforensics::OverallRisk;
use journal_trace::journal::UsnJournalData;
use journal_trace::worker::{
    carve_scan_limit, finish_journal_scan, compute_scan_stats, next_chunk_step, parse_usn_chunk, ChunkStep, ScanStats,
};

fn put_u16(b: &mut [u8], off: usize, v: u16) {
    b[off..off + 2].copy_from_slice(&v.to_le_bytes());
}
fn put_u32(b: &mut [u8], off: usize, v: u32) {
    b[off..off + 4].copy_from_slice(&v.to_le_bytes());
}
fn put_u64(b: &mut [u8], off: usize, v: u64) {
    b[off..off + 8].copy_from_slice(&v.to_le_bytes());
}

/// A version 2 record of `len` bytes with a one-letter name.
fn v2(len: usize, usn: i64, name: char) -> Vec<u8> {
    let mut b = vec![0u8; len];
    put_u32(&mut b, 0, len as u32);
    put_u16(&mut b, 4, 2);
    put_u64(&mut b, 8, 40);
    put_u64(&mut b, 16, 5);
    put_u64(&mut b, 24, usn as u64);
    put_u32(&mut b, 40, 0x100);
    put_u16(&mut b, 56, 2);
    put_u16(&mut b, 58, 60);
    put_u16(&mut b, 60, name as u16);
    b
}

fn rec(id: usize, ts: i64, attrs: u32) -> UsnRecord {
    UsnRecord {
        id,
        record_length: 0,
        major_version: 2,
        minor_version: 0,
        file_ref_number: 0,
        file_ref_seq: 0,
        parent_file_ref_number: 0,
        parent_file_ref_seq: 0,
        usn: id as i64,
        timestamp_raw: ts,
        timestamp_formatted: String::new(),
        reason: 0,
        reason_str: String::new(),
        source_info: 0,
        security_id: 0,
        file_attributes: attrs,
        file_name: String::new(),
        full_path: String::new(),
        is_ghost: false,
        is_stomp: false,
    }
}

#[test]
fn chunk_is_cut_after_the_cursor_on_eight_byte_boundaries() {
    let mut buf = vec![0u8; 8];
    put_u64(&mut buf, 0, 5000);
    buf.extend(v2(64, 10, 'a'));
    // A record whose length is not a multiple of 8: the next one starts rounded up.
    let mut second = v2(66, 20, 'b');
    second.extend([0u8; 6]);
    buf.extend(second);
    buf.extend(v2(64, 30, 'c'));
    let recs = parse_usn_chunk(&buf, buf.len(), 40);
    assert_eq!(recs.len(), 3);
    assert_eq!(recs.iter().map(|r| r.usn).collect::<Vec<_>>(), vec![10, 20, 30]);
    assert_eq!(recs.iter().map(|r| r.id).collect::<Vec<_>>(), vec![40, 41, 42]);
    assert_eq!(recs[2].file_name, "c");
}

#[test]
fn chunk_stops_at_first_unparsable_record_or_byte_count() {
    let mut buf = vec![0u8; 8];
    buf.extend(v2(64, 10, 'a'));
    buf.extend([0u8; 16]);
    buf.extend(v2(64, 30, 'c'));
    assert_eq!(parse_usn_chunk(&buf, buf.len(), 0).len(), 1);
    let mut two = vec![0u8; 8];
    two.extend(v2(64, 10, 'a'));
    two.extend(v2(64, 20, 'b'));
    assert_eq!(parse_usn_chunk(&two, 8 + 64, 0).len(), 1);
    assert_eq!(parse_usn_chunk(&two, 8, 0).len(), 0);
}

#[test]
fn read_loop_steps() {
    assert_eq!(next_chunk_step(100, 500, 200, 8), ChunkStep::Stop);
    assert_eq!(next_chunk_step(100, 500, 100, 4096), ChunkStep::Stop);
    assert_eq!(next_chunk_step(100, 500, 200, 4096), ChunkStep::ParseThenContinue);
    assert_eq!(next_chunk_step(100, 500, 500, 4096), ChunkStep::ParseThenStop);
}

#[test]
fn carve_limit_is_clusters_capped() {
    assert_eq!(carve_scan_limit(8_000, 8), 1_000);
    assert_eq!(carve_scan_limit(8_000, 0), 8_000);
    assert_eq!(carve_scan_limit(100_000_000, 8), 300_000);
}

#[test]
fn scan_summary_counts_and_oldest_time() {
    let records = vec![
        rec(0, 0, 0x10),
        rec(1, FILETIME_TO_UNIX_OFFSET - 5, 0x20),
        rec(2, FILETIME_TO_UNIX_OFFSET + 50, 0x30),
        rec(3, -4, 0),
    ];
    let s = compute_scan_stats(&records);
    assert_eq!(s.oldest_timestamp_raw, FILETIME_TO_UNIX_OFFSET - 5);
    assert_eq!(s.oldest_timestamp_formatted, "1970-01-01 00:00:00");
    assert_eq!(s.total_entries, 4);
    assert_eq!(s.dir_count, 2);
    assert_eq!(s.file_count, 2);
    assert_eq!(s.file_count + s.dir_count, s.total_entries);
}

#[test]
fn scan_summary_without_times() {
    let s = compute_scan_stats(&[rec(0, 0, 0)]);
    assert_eq!(s.oldest_timestamp_raw, i64::MAX);
    assert_eq!(s.oldest_timestamp_formatted, "N/A");
    let d = ScanStats::default();
    assert_eq!(d.oldest_timestamp_raw, 0);
    assert_eq!(d.oldest_timestamp_formatted, "");
    assert_eq!(d.total_entries, 0);
}

#[test]
fn finishing_a_scan_resolves_paths_audits_and_summarises() {
    let mut folder = rec(0, 0, 0x10);
    folder.file_ref_number = 40;
    folder.parent_file_ref_number = 5;
    folder.reason = 0x100;
    folder.file_name = "Games".to_string();
    folder.record_length = 80;
    let mut file = rec(1, 0, 0x20);
    file.usn = 80;
    file.file_ref_number = 41;
    file.parent_file_ref_number = 40;
    file.reason = 0x100;
    file.file_name = "a.exe".to_string();
    file.record_length = 80;
    let journal = UsnJournalData {
        usn_journal_id: 1,
        first_usn: 0,
        next_usn: 160,
        lowest_valid_usn: 0,
        max_usn: i64::MAX,
        maximum_size: 64 << 20,
        allocation_delta: 0,
    };
    let out = finish_journal_scan('c', HashMap::new(), &journal, vec![folder, file]);
    assert_eq!(out.records[0].full_path, "C:\\Games");
    assert_eq!(out.records[1].full_path, "C:\\Games\\a.exe");
    assert_eq!(out.report.overall_risk, OverallRisk::Suspicious);
    assert_eq!(out.report.findings[0].title, "USN Journal Freshly Recreated or Purged");
    assert_eq!(out.stats.total_entries, 2);
    assert_eq!(out.stats.dir_count, 1);
    assert_eq!(out.stats.file_count, 1);
}
