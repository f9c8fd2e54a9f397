use std::collections::HashMap;

use journal_trace::mft::{
    apply_mft_fixup, decode_runlist, extract_mft_runs, parse_mft_record, try_decode_runlist,
};
use journal_trace::mft_stream::{
    chunk_is_streamable, mft_read_plan, mft_runs_from_record_zero, record_zero_is_readable,
    stream_mft_chunk,
};

fn put_u16(b: &mut [u8], off: usize, v: u16) {
    b[off..off + 2].copy_from_slice(&v.to_le_bytes());
}
fn put_u32(b: &mut [u8], off: usize, v: u32) {
    b[off..off + 4].copy_from_slice(&v.to_le_bytes());
}
fn put_u64(b: &mut [u8], off: usize, v: u64) {
    b[off..off + 8].copy_from_slice(&v.to_le_bytes());
}

const SI_CREATED: i64 = 132_000_000_000_000_000;

/// A 1024-byte record (before fixup) with $STANDARD_INFORMATION and a Win32
/// $FILE_NAME, or a non-resident $DATA attribute with `runs` when given.
fn record(name: &str, parent: u64, dir: bool, runs: Option<&[u8]>) -> Vec<u8> {
    let mut b = vec![0u8; 1024];
    b[0..4].copy_from_slice(b"FILE");
    put_u16(&mut b, 4, 48);
    put_u16(&mut b, 6, 3);
    put_u16(&mut b, 16, 7);
    put_u16(&mut b, 20, 56);
    put_u16(&mut b, 22, if dir { 0x03 } else { 0x01 });
    let mut off = 56;
    // $STANDARD_INFORMATION
    put_u32(&mut b, off, 0x10);
    put_u32(&mut b, off + 4, 0x60);
    put_u16(&mut b, off + 20, 24);
    put_u64(&mut b, off + 24, SI_CREATED as u64);
    put_u64(&mut b, off + 32, (SI_CREATED + 5) as u64);
    off += 0x60;
    // $FILE_NAME
    let units: Vec<u16> = name.encode_utf16().collect();
    let fn_len = (24 + 66 + units.len() * 2 + 7) / 8 * 8;
    put_u32(&mut b, off, 0x30);
    put_u32(&mut b, off + 4, fn_len as u32);
    put_u16(&mut b, off + 20, 24);
    let vs = off + 24;
    put_u64(&mut b, vs, (1u64 << 48) | parent);
    put_u64(&mut b, vs + 8, (SI_CREATED + 100) as u64);
    put_u64(&mut b, vs + 16, (SI_CREATED + 200) as u64);
    b[vs + 64] = units.len() as u8;
    b[vs + 65] = 1;
    for (k, u) in units.iter().enumerate() {
        put_u16(&mut b, vs + 66 + 2 * k, *u);
    }
    off += fn_len;
    if let Some(r) = runs {
        put_u32(&mut b, off, 0x80);
        put_u32(&mut b, off + 4, 0x48);
        b[off + 8] = 1;
        put_u16(&mut b, off + 32, 0x40);
        b[off + 0x40..off + 0x40 + r.len()].copy_from_slice(r);
        off += 0x48;
    }
    put_u32(&mut b, off, 0xFFFF_FFFF);
    // Update sequence: check value 0x0A0B at both sector ends, originals in the array.
    let tail1 = [b[510], b[511]];
    let tail2 = [b[1022], b[1023]];
    put_u16(&mut b, 48, 0x0A0B);
    b[50] = tail1[0];
    b[51] = tail1[1];
    b[52] = tail2[0];
    b[53] = tail2[1];
    put_u16(&mut b, 510, 0x0A0B);
    put_u16(&mut b, 1022, 0x0A0B);
    b
}

#[test]
fn fixup_restores_sector_ends() {
    let mut b = record("a.txt", 5, false, None);
    b[50] = 0x11;
    b[51] = 0x22;
    b[52] = 0x33;
    b[53] = 0x44;
    assert!(apply_mft_fixup(&mut b));
    assert_eq!(&b[510..512], &[0x11, 0x22]);
    assert_eq!(&b[1022..1024], &[0x33, 0x44]);
}

#[test]
fn fixup_refuses_torn_records() {
    let mut b = record("a.txt", 5, false, None);
    put_u16(&mut b, 1022, 0x9999);
    let before = b.clone();
    assert!(!apply_mft_fixup(&mut b));
    assert_eq!(b, before);
    let mut short = vec![0u8; 100];
    assert!(!apply_mft_fixup(&mut short));
}

#[test]
fn record_names_parent_and_times() {
    let mut b = record("Games", 5, true, None);
    assert!(apply_mft_fixup(&mut b));
    let n = parse_mft_record(&b, 40).expect("named entry");
    assert_eq!(n.entry, 40);
    assert_eq!(n.sequence, 7);
    assert_eq!(n.parent_entry, 5);
    assert_eq!(n.parent_sequence, 1);
    assert_eq!(n.name, "Games");
    assert!(n.is_dir);
    assert_eq!(n.si_created, SI_CREATED);
    assert_eq!(n.si_modified, SI_CREATED + 5);
    assert_eq!(n.fn_created, SI_CREATED + 100);
    assert_eq!(n.fn_modified, SI_CREATED + 200);
    assert!(parse_mft_record(&[0u8; 40], 1).is_none());
}

#[test]
fn runlists_decode_with_signed_offsets() {
    let runs = decode_runlist(&[0x21, 0x18, 0x34, 0x56, 0x11, 0x08, 0xFF, 0x00]);
    assert_eq!(runs.len(), 2);
    assert_eq!((runs[0].start_lcn, runs[0].cluster_count), (0x5634, 0x18));
    assert_eq!((runs[1].start_lcn, runs[1].cluster_count), (0x5633, 8));
    assert!(decode_runlist(&[0x00]).is_empty());
    assert!(try_decode_runlist(&[0x09, 1, 2, 3, 4, 5, 6, 7, 8, 9]).is_none());
}

#[test]
fn record_zero_gives_the_table_runs() {
    let mut b = record("$MFT", 5, false, Some(&[0x21, 0x40, 0x00, 0x10, 0x00]));
    assert!(record_zero_is_readable(&b));
    let runs = mft_runs_from_record_zero(&b, 999);
    assert_eq!(runs.len(), 1);
    assert_eq!((runs[0].start_lcn, runs[0].cluster_count), (0x1000, 0x40));
    assert!(apply_mft_fixup(&mut b));
    let direct = extract_mft_runs(&b).expect("runs");
    assert_eq!(direct[0].start_lcn, 0x1000);
    let without = record("$MFT", 5, false, None);
    let fallback = mft_runs_from_record_zero(&without, 786_432);
    assert_eq!(fallback.len(), 1);
    assert_eq!((fallback[0].start_lcn, fallback[0].cluster_count), (786_432, 8192));
}

#[test]
fn read_plan_caps_and_rounds_up() {
    assert_eq!(mft_read_plan(1_000_000, 0, 262_144), (262_144, 262_144));
    assert_eq!(mft_read_plan(1_000, 0, 262_144), (1_000, 1_024));
    assert_eq!(mft_read_plan(4_096, 3_584, 262_144), (512, 512));
}

#[test]
fn chunk_stream_stores_entries_and_stops_at_limit() {
    let mut chunk = record("Games", 5, true, None);
    chunk.extend(record("a.exe", 0, false, None));
    let mut torn = record("b.exe", 0, false, None);
    put_u16(&mut torn, 510, 0x1234);
    chunk.extend(torn);
    assert!(chunk_is_streamable(&chunk, chunk.len(), 1024, 40, None));
    let mut nodes = HashMap::new();
    let (count, stopped) = stream_mft_chunk(&chunk, chunk.len(), 1024, 40, None, &mut nodes);
    assert_eq!((count, stopped), (43, false));
    assert_eq!(nodes.len(), 2);
    assert_eq!(nodes[&40].name, "Games");
    assert_eq!(nodes[&41].name, "a.exe");
    let mut limited = HashMap::new();
    let (count, stopped) = stream_mft_chunk(&chunk, chunk.len(), 1024, 40, Some(41), &mut limited);
    assert_eq!((count, stopped), (41, true));
    assert_eq!(limited.len(), 1);
}
