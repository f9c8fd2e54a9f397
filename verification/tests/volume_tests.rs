use journal_trace::journal::{
    query_journal_error, read_journal_error, usn_read_outcome, usn_read_request,
};
use journal_trace::volume::{
    boot_read_error, check_read_length, check_sector_alignment, open_volume_error,
    parse_boot_sector, read_error, seek_error, volume_path,
};

fn boot(spc: u8, cpr: u8) -> Vec<u8> {
    let mut b = vec![0u8; 512];
    b[3..7].copy_from_slice(b"NTFS");
    b[0x0B..0x0D].copy_from_slice(&512u16.to_le_bytes());
    b[0x0D] = spc;
    b[0x28..0x30].copy_from_slice(&1_000_000u64.to_le_bytes());
    b[0x30..0x38].copy_from_slice(&786_432u64.to_le_bytes());
    b[0x40] = cpr;
    b
}

#[test]
fn boot_sector_geometry() {
    let info = parse_boot_sector(&boot(8, 0xF6)).expect("valid boot sector");
    assert_eq!(info.bytes_per_sector, 512);
    assert_eq!(info.sectors_per_cluster, 8);
    assert_eq!(info.cluster_size, 4096);
    assert_eq!(info.total_sectors, 1_000_000);
    assert_eq!(info.mft_start_lcn, 786_432);
    assert_eq!(info.clusters_per_mft_record, -10);
    assert_eq!(info.mft_record_size, 1024);
    let pos = parse_boot_sector(&boot(8, 2)).expect("valid boot sector");
    assert_eq!(pos.mft_record_size, 8192);
}

#[test]
fn boot_sector_errors() {
    let e = parse_boot_sector(&[0u8; 100]).err().expect("too small");
    assert_eq!(e.message, "Sector buffer too small for boot record");
    let mut b = boot(8, 0xF6);
    b[3] = b'X';
    let e = parse_boot_sector(&b).err().expect("not NTFS");
    assert_eq!(e.message, "Target volume is not a valid NTFS filesystem");
}

#[test]
fn device_path_upper_cases_the_letter() {
    assert_eq!(volume_path('c'), "\\\\.\\C:");
    assert_eq!(volume_path('D'), "\\\\.\\D:");
}

#[test]
fn unbuffered_reads_must_be_sector_aligned() {
    assert!(check_sector_alignment(4096, 1024, 512).is_ok());
    let e = check_sector_alignment(100, 512, 512).err().expect("unaligned offset");
    assert_eq!(e.message, "Unaligned sector read requested on unbuffered volume handle");
    assert!(check_sector_alignment(0, 513, 512).is_err());
    assert!(check_sector_alignment(0, 0, 0).is_ok());
    assert!(check_sector_alignment(512, 0, 0).is_err());
}

#[test]
fn error_messages_carry_codes_in_hex() {
    assert_eq!(
        open_volume_error("\\\\.\\C:", 0x80070005).message,
        "Failed to open raw volume handle for \\\\.\\C:: error code 0x80070005"
    );
    assert_eq!(boot_read_error("\\\\.\\C:").message, "Failed to read boot sector for \\\\.\\C:");
    assert_eq!(seek_error(4096, 0x1F).message, "Seek failure at offset 4096: 0x0000001F");
    assert_eq!(read_error(0, 0xABCDEF01).message, "Read error at offset 0: 0xABCDEF01");
    assert!(check_read_length(512, 512).is_ok());
    assert_eq!(check_read_length(512, 100).err().unwrap().message, "Short read: expected 512 bytes, got 100");
    assert_eq!(
        query_journal_error('C', 0x80070490).message,
        "FSCTL_QUERY_USN_JOURNAL failed on drive C: 0x80070490"
    );
    assert_eq!(read_journal_error(5).message, "FSCTL_READ_USN_JOURNAL failed: 0x00000005");
}

#[test]
fn journal_read_request_and_outcome() {
    let q = usn_read_request(77, 9, 4096).ok().expect("large enough buffer");
    assert_eq!(q.start_usn, 77);
    assert_eq!(q.reason_mask, 0xFFFF_FFFF);
    assert_eq!(q.return_only_on_close, 0);
    assert_eq!(q.timeout, 0);
    assert_eq!(q.bytes_to_wait_for, 0);
    assert_eq!(q.usn_journal_id, 9);
    let e = usn_read_request(77, 9, 4).err().expect("too small");
    assert_eq!(e.message, "USN read buffer must be at least 8 bytes");
    let mut buf = vec![0u8; 64];
    buf[0..8].copy_from_slice(&123_456i64.to_le_bytes());
    assert_eq!(usn_read_outcome(77, &buf, 4), (77, 0));
    assert_eq!(usn_read_outcome(77, &buf, 64), (123_456, 64));
}
