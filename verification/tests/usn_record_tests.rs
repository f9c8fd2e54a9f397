use journal_trace::usn_record::{
    decode_utf16_le, filetime_to_formatted_local, filetime_to_unix_parts, format_reasons,
    parse_usn_record, reason_flag_at, reason_name_at, FILETIME_TO_UNIX_OFFSET, REASON_COUNT,
    USN_REASON_CLOSE, USN_REASON_FILE_CREATE, USN_REASON_FILE_DELETE,
};

fn put_u16(b: &mut Vec<u8>, off: usize, v: u16) {
    b[off..off + 2].copy_from_slice(&v.to_le_bytes());
}
fn put_u32(b: &mut Vec<u8>, off: usize, v: u32) {
    b[off..off + 4].copy_from_slice(&v.to_le_bytes());
}
fn put_u64(b: &mut Vec<u8>, off: usize, v: u64) {
    b[off..off + 8].copy_from_slice(&v.to_le_bytes());
}

/// A version 2 record with the given fields and name.
fn v2_record(file_ref: u64, parent_ref: u64, usn: i64, ts: i64, reason: u32, attrs: u32, name: &str) -> Vec<u8> {
    let units: Vec<u16> = name.encode_utf16().collect();
    let name_len = units.len() * 2;
    let len = (60 + name_len + 7) / 8 * 8;
    let mut b = vec![0u8; len];
    put_u32(&mut b, 0, len as u32);
    put_u16(&mut b, 4, 2);
    put_u16(&mut b, 6, 0);
    put_u64(&mut b, 8, file_ref);
    put_u64(&mut b, 16, parent_ref);
    put_u64(&mut b, 24, usn as u64);
    put_u64(&mut b, 32, ts as u64);
    put_u32(&mut b, 40, reason);
    put_u32(&mut b, 44, 7);
    put_u32(&mut b, 48, 9);
    put_u32(&mut b, 52, attrs);
    put_u16(&mut b, 56, name_len as u16);
    put_u16(&mut b, 58, 60);
    for (k, u) in units.iter().enumerate() {
        put_u16(&mut b, 60 + 2 * k, *u);
    }
    b
}

#[test]
fn parses_version_two_record() {
    let raw_ref: u64 = (3u64 << 48) | 0x1234;
    let parent: u64 = (1u64 << 48) | 5;
    let b = v2_record(raw_ref, parent, 4096, 0, USN_REASON_FILE_CREATE | USN_REASON_CLOSE, 0x20, "a.txt");
    let (rec, len) = parse_usn_record(&b, 17).expect("record parses");
    assert_eq!(len, b.len());
    assert_eq!(rec.id, 17);
    assert_eq!(rec.record_length as usize, b.len());
    assert_eq!(rec.major_version, 2);
    assert_eq!(rec.file_ref_number, 0x1234);
    assert_eq!(rec.file_ref_seq, 3);
    assert_eq!(rec.parent_file_ref_number, 5);
    assert_eq!(rec.parent_file_ref_seq, 1);
    assert_eq!(rec.usn, 4096);
    assert_eq!(rec.reason_str, "File Created, Close");
    assert_eq!(rec.source_info, 7);
    assert_eq!(rec.security_id, 9);
    assert_eq!(rec.file_attributes, 0x20);
    assert_eq!(rec.file_name, "a.txt");
    assert_eq!(rec.full_path, "a.txt");
    assert_eq!(rec.timestamp_formatted, "1970-01-01 00:00:00");
    assert!(!rec.is_ghost);
    assert!(!rec.is_stomp);
}

#[test]
fn parses_version_four_record_without_name() {
    let mut b = vec![0u8; 40];
    put_u32(&mut b, 0, 40);
    put_u16(&mut b, 4, 4);
    put_u64(&mut b, 8, 77);
    put_u64(&mut b, 16, 5);
    put_u64(&mut b, 24, 999);
    put_u32(&mut b, 32, USN_REASON_FILE_DELETE);
    let (rec, len) = parse_usn_record(&b, 0).expect("record parses");
    assert_eq!(len, 40);
    assert_eq!(rec.usn, 999);
    assert_eq!(rec.timestamp_raw, 0);
    assert_eq!(rec.timestamp_formatted, "N/A");
    assert_eq!(rec.reason_str, "File Deleted");
    assert_eq!(rec.file_name, "");
}

#[test]
fn rejects_truncated_and_unknown_records() {
    assert!(parse_usn_record(&[0u8; 4], 0).is_none());
    let b = v2_record(1, 5, 1, 0, 0, 0, "x");
    assert!(parse_usn_record(&b[..b.len() - 8], 0).is_none());
    let mut other = b.clone();
    put_u16(&mut other, 4, 5);
    assert!(parse_usn_record(&other, 0).is_none());
    let mut short_len = b.clone();
    put_u32(&mut short_len, 0, 4);
    assert!(parse_usn_record(&short_len, 0).is_none());
    let mut bad_name = b.clone();
    put_u16(&mut bad_name, 56, 200);
    assert!(parse_usn_record(&bad_name, 0).is_none());
}

#[test]
fn reason_text_lists_flags_in_table_order() {
    assert_eq!(format_reasons(0), "None");
    assert_eq!(format_reasons(USN_REASON_CLOSE | USN_REASON_FILE_CREATE), "File Created, Close");
    assert_eq!(format_reasons(0x0000_0008), "None");
    let mut all = 0u32;
    for i in 0..REASON_COUNT {
        all |= reason_flag_at(i);
    }
    assert_eq!(format_reasons(all).split(", ").count(), 24);
    assert_eq!(reason_name_at(0), "Data Overwrite");
    assert_eq!(reason_name_at(23), "Close");
}

#[test]
fn filetimes_at_or_before_epoch_read_as_epoch() {
    assert_eq!(filetime_to_formatted_local(0), "1970-01-01 00:00:00");
    assert_eq!(filetime_to_formatted_local(FILETIME_TO_UNIX_OFFSET), "1970-01-01 00:00:00");
    assert_eq!(filetime_to_unix_parts(FILETIME_TO_UNIX_OFFSET), None);
}

#[test]
fn filetimes_after_epoch_split_into_seconds_and_nanos() {
    let ft = FILETIME_TO_UNIX_OFFSET + 15_000_000;
    assert_eq!(filetime_to_unix_parts(ft), Some((1, 500_000_000)));
    let text = filetime_to_formatted_local(FILETIME_TO_UNIX_OFFSET + 10_000_000 * 86_400 * 400);
    assert_eq!(text.len(), 19);
    assert!(text.starts_with("1971-"));
    assert_eq!(&text[4..5], "-");
    assert_eq!(&text[7..8], "-");
    assert_eq!(&text[10..11], " ");
    assert_eq!(&text[13..14], ":");
    assert_eq!(&text[16..17], ":");
    assert!(text.chars().enumerate().all(|(i, c)| [4, 7, 10, 13, 16].contains(&i) || c.is_ascii_digit()));
}

#[test]
fn utf16_names_decode_lossily() {
    let mut b = Vec::new();
    for u in "hé".encode_utf16() {
        b.extend_from_slice(&u.to_le_bytes());
    }
    assert_eq!(decode_utf16_le(&b, 0, b.len()), "hé");
    let lone = 0xD800u16.to_le_bytes();
    assert_eq!(decode_utf16_le(&lone, 0, 2), "\u{FFFD}");
    let pair: Vec<u8> = [0xD83Du16, 0xDE00u16].iter().flat_map(|u| u.to_le_bytes()).collect();
    assert_eq!(decode_utf16_le(&pair, 0, 4), "\u{1F600}");
}

#[test]
fn bytes_past_the_record_are_not_read() {
    let b = v2_record(7, 5, 64, 0, USN_REASON_FILE_CREATE, 0x20, "f.bin");
    let (plain, n) = parse_usn_record(&b, 3).expect("record parses");
    let mut longer = b.clone();
    longer.extend_from_slice(&[0xAB; 40]);
    let (ext, m) = parse_usn_record(&longer, 3).expect("record parses");
    assert_eq!(n, m);
    assert_eq!(plain, ext);
    let (cut, k) = parse_usn_record(&longer[..n], 3).expect("record parses");
    assert_eq!(k, n);
    assert_eq!(cut, plain);
}

#[test]
fn local_time_is_within_a_day_of_utc() {
    // 2020-01-01 00:00:00 UTC.
    let secs: i64 = 1_577_836_800;
    let text = filetime_to_formatted_local(FILETIME_TO_UNIX_OFFSET + secs * 10_000_000);
    assert!(text.starts_with("2019-12-31 ") || text.starts_with("2020-01-01 "));
}
