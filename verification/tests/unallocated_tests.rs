use std::collections::HashSet;

use journal_trace::unallocated::{carve_usn_records_from_buffer, is_control_char};
use journal_trace::usn_record::UsnRecord;
use journal_trace::worker::remember_usns;

fn put_u16(b: &mut [u8], off: usize, v: u16) {
    b[off..off + 2].copy_from_slice(&v.to_le_bytes());
}
fn put_u32(b: &mut [u8], off: usize, v: u32) {
    b[off..off + 4].copy_from_slice(&v.to_le_bytes());
}
fn put_u64(b: &mut [u8], off: usize, v: u64) {
    b[off..off + 8].copy_from_slice(&v.to_le_bytes());
}

/// A plausible version 2 record of 72 bytes named "ab".
fn plausible(usn: i64, ts: i64, reason: u32) -> Vec<u8> {
    let mut b = vec![0u8; 72];
    put_u32(&mut b, 0, 72);
    put_u16(&mut b, 4, 2);
    put_u64(&mut b, 8, 30);
    put_u64(&mut b, 16, 5);
    put_u64(&mut b, 24, usn as u64);
    put_u64(&mut b, 32, ts as u64);
    put_u32(&mut b, 40, reason);
    put_u16(&mut b, 56, 4);
    put_u16(&mut b, 58, 60);
    put_u16(&mut b, 60, 'a' as u16);
    put_u16(&mut b, 62, 'b' as u16);
    b
}

const TS: i64 = 133_000_000_000_000_000;

#[test]
fn carving_finds_unknown_plausible_records() {
    let mut buf = vec![0u8; 16];
    buf.extend(plausible(500, TS, 0x200));
    buf.extend(vec![0u8; 8]);
    buf.extend(plausible(600, TS, 0x100));
    buf.extend(plausible(700, 0, 0x100));
    buf.extend(plausible(800, TS, 0x0200_0000));
    buf.extend(vec![0u8; 64]);
    let mut known = HashSet::new();
    known.insert(600i64);
    let found = carve_usn_records_from_buffer(&buf, 900_000, &known);
    assert_eq!(found.len(), 1);
    let r = &found[0];
    assert_eq!(r.usn, 500);
    assert_eq!(r.id, 900_000);
    assert!(r.is_ghost);
    assert_eq!(r.file_name, "ab");
    assert_eq!(r.reason_str, "File Deleted");
    for rec in &found {
        assert!(!known.contains(&rec.usn));
    }
    let none = carve_usn_records_from_buffer(&buf, 0, &[500i64, 600].into_iter().collect());
    assert!(none.is_empty());
}

#[test]
fn control_characters() {
    assert!(is_control_char('\u{0}'));
    assert!(is_control_char('\u{7F}'));
    assert!(is_control_char('\u{9F}'));
    assert!(!is_control_char('a'));
}

#[test]
fn known_update_numbers_only_filter_the_carve() {
    let mut buf = vec![0u8; 8];
    buf.extend(plausible(500, TS, 0x200));
    buf.extend(plausible(600, TS, 0x100));
    buf.extend(plausible(700, TS, 0x100));
    let all = carve_usn_records_from_buffer(&buf, 0, &HashSet::new());
    assert_eq!(all.iter().map(|r| r.usn).collect::<Vec<_>>(), vec![500, 600, 700]);
    let known: HashSet<i64> = [600i64, 42].into_iter().collect();
    let some = carve_usn_records_from_buffer(&buf, 0, &known);
    assert_eq!(some.iter().map(|r| r.usn).collect::<Vec<_>>(), vec![500, 700]);
    assert_eq!(some.iter().map(|r| r.id).collect::<Vec<_>>(), vec![0, 1]);
}

#[test]
fn scanned_usns_are_left_out_of_a_later_carve() {
    let mut buf = vec![0u8; 8];
    buf.extend(plausible(500, TS, 0x200));
    buf.extend(plausible(600, TS, 0x100));
    let scanned: Vec<UsnRecord> = carve_usn_records_from_buffer(&buf, 0, &HashSet::new())
        .into_iter()
        .filter(|r| r.usn == 600)
        .collect();
    let mut known = HashSet::new();
    known.insert(1i64);
    remember_usns(&mut known, &scanned);
    assert_eq!(known.len(), 2);
    let carved = carve_usn_records_from_buffer(&buf, 5, &known);
    assert_eq!(carved.len(), 1);
    assert_eq!(carved[0].usn, 500);
    assert!(carved.iter().all(|r| r.is_ghost));
}
