//! Journal metadata as returned by the volume, and the layout of journal read buffers.
use vstd::prelude::*;

use crate::bytes::{le_i64, read_i64};
use crate::text::{hex8_string, hex_digits, push_char, push_str_chars};
use crate::volume::VolumeError;

verus! {

broadcast use vstd::string::group_string_axioms;

/// Control code that queries the journal metadata.
pub const FSCTL_QUERY_USN_JOURNAL: u32 = 0x000900F4;

/// Control code that reads journal records.
pub const FSCTL_READ_USN_JOURNAL: u32 = 0x000900BB;

/// Journal metadata (`USN_JOURNAL_DATA_V0`).
#[derive(Debug, Clone, Copy, Default)]
pub struct UsnJournalData {
    pub usn_journal_id: u64,
    pub first_usn: i64,
    pub next_usn: i64,
    pub lowest_valid_usn: i64,
    pub max_usn: i64,
    pub maximum_size: u64,
    pub allocation_delta: u64,
}

/// Parameters of a journal read request (`READ_USN_JOURNAL_DATA_V0`).
#[derive(Debug, Clone, Copy, Default)]
pub struct ReadUsnJournalData {
    pub start_usn: i64,
    pub reason_mask: u32,
    pub return_only_on_close: u32,
    pub timeout: u64,
    pub bytes_to_wait_for: u64,
    pub usn_journal_id: u64,
}

/// The request that reads every record of journal `journal_id` from `start_usn` into
/// a buffer of `buf_len` bytes; an error when the buffer cannot hold the 8-byte cursor.
pub fn usn_read_request(start_usn: i64, journal_id: u64, buf_len: usize) -> (r: Result<
    ReadUsnJournalData,
    VolumeError,
>)
    ensures
        r is Err <==> buf_len < 8,
        r matches Err(e) ==> e.message@ == "USN read buffer must be at least 8 bytes"@,
        r matches Ok(q) ==> q.start_usn == start_usn && q.reason_mask == 0xFFFF_FFFFu32
            && q.return_only_on_close == 0 && q.timeout == 0 && q.bytes_to_wait_for == 0
            && q.usn_journal_id == journal_id,
{
    if buf_len < 8 {
        return Err(VolumeError { message: String::from_str("USN read buffer must be at least 8 bytes") });
    }
    Ok(
        ReadUsnJournalData {
            start_usn,
            reason_mask: 0xFFFF_FFFF,
            return_only_on_close: 0,
            timeout: 0,
            bytes_to_wait_for: 0,
            usn_journal_id: journal_id,
        },
    )
}

/// The cursor and byte count of a journal read that returned `returned_size` bytes
/// into `buf`: with fewer than 8 bytes, the start cursor and nothing; else the next
/// cursor held in the first 8 bytes, and the byte count.
pub fn usn_read_outcome(start_usn: i64, buf: &[u8], returned_size: usize) -> (r: (i64, usize))
    requires
        buf@.len() >= 8,
    ensures
        returned_size < 8 ==> r == (start_usn, 0usize),
        returned_size >= 8 ==> r == (le_i64(buf@, 0), returned_size),
{
    if returned_size < 8 {
        return (start_usn, 0);
    }
    (read_i64(buf, 0), returned_size)
}

/// The error of a failed journal metadata query on `drive_letter` with error code
/// `code`: "FSCTL_QUERY_USN_JOURNAL failed on drive X: 0x" and the code as eight
/// hexadecimal digits.
pub fn query_journal_error(drive_letter: char, code: u32) -> (e: VolumeError)
    ensures
        e.message@ == "FSCTL_QUERY_USN_JOURNAL failed on drive "@ + seq![drive_letter] + ": 0x"@
            + hex_digits(code as nat, 8),
{
    let mut s = String::from_str("FSCTL_QUERY_USN_JOURNAL failed on drive ");
    push_char(&mut s, drive_letter);
    push_str_chars(&mut s, ": 0x");
    let h = hex8_string(code);
    push_str_chars(&mut s, h.as_str());
    VolumeError { message: s }
}

/// The error of a failed journal read with error code `code`:
/// "FSCTL_READ_USN_JOURNAL failed: 0x" and the code as eight hexadecimal digits.
pub fn read_journal_error(code: u32) -> (e: VolumeError)
    ensures
        e.message@ == "FSCTL_READ_USN_JOURNAL failed: 0x"@ + hex_digits(code as nat, 8),
{
    let mut s = String::from_str("FSCTL_READ_USN_JOURNAL failed: 0x");
    let h = hex8_string(code);
    push_str_chars(&mut s, h.as_str());
    VolumeError { message: s }
}

} // verus!
