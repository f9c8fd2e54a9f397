//! USN change journal reason flags and the binary layout of journal records.
use vstd::prelude::*;
use chrono::TimeZone;

use crate::bytes::{le_i64, le_u16, le_u32, le_u48, read_i64, read_u16, read_u32, read_u48};
use crate::text::push_char;

verus! {

broadcast use vstd::string::group_string_axioms;


pub const USN_REASON_DATA_OVERWRITE: u32 = 0x00000001;
pub const USN_REASON_DATA_EXTEND: u32 = 0x00000002;
pub const USN_REASON_DATA_TRUNCATION: u32 = 0x00000004;
pub const USN_REASON_NAMED_DATA_OVERWRITE: u32 = 0x00000010;
pub const USN_REASON_NAMED_DATA_EXTEND: u32 = 0x00000020;
pub const USN_REASON_NAMED_DATA_TRUNCATION: u32 = 0x00000040;
pub const USN_REASON_FILE_CREATE: u32 = 0x00000100;
pub const USN_REASON_FILE_DELETE: u32 = 0x00000200;
pub const USN_REASON_EA_CHANGE: u32 = 0x00000400;
pub const USN_REASON_SECURITY_CHANGE: u32 = 0x00000800;
pub const USN_REASON_RENAME_OLD_NAME: u32 = 0x00001000;
pub const USN_REASON_RENAME_NEW_NAME: u32 = 0x00002000;
pub const USN_REASON_INDEXABLE_CHANGE: u32 = 0x00004000;
pub const USN_REASON_BASIC_INFO_CHANGE: u32 = 0x00008000;
pub const USN_REASON_HARD_LINK_CHANGE: u32 = 0x00010000;
pub const USN_REASON_COMPRESSION_CHANGE: u32 = 0x00020000;
pub const USN_REASON_ENCRYPTION_CHANGE: u32 = 0x00040000;
pub const USN_REASON_OBJECT_ID_CHANGE: u32 = 0x00080000;
pub const USN_REASON_REPARSE_POINT_CHANGE: u32 = 0x00100000;
pub const USN_REASON_STREAM_CHANGE: u32 = 0x00200000;
pub const USN_REASON_TRANSACTED_CHANGE: u32 = 0x00400000;
pub const USN_REASON_INTEGRITY_CHANGE: u32 = 0x00800000;
pub const USN_REASON_DESIRED_STORAGE_CLASS: u32 = 0x01000000;
pub const USN_REASON_CLOSE: u32 = 0x80000000;

/// Number of reason flags that the journal defines.
pub const REASON_COUNT: usize = 24;

/// The `i`-th reason flag, in the order in which reasons are listed.
pub open spec fn reason_flag(i: int) -> u32 {
    if i == 0 {
        USN_REASON_DATA_OVERWRITE
    } else if i == 1 {
        USN_REASON_DATA_EXTEND
    } else if i == 2 {
        USN_REASON_DATA_TRUNCATION
    } else if i == 3 {
        USN_REASON_NAMED_DATA_OVERWRITE
    } else if i == 4 {
        USN_REASON_NAMED_DATA_EXTEND
    } else if i == 5 {
        USN_REASON_NAMED_DATA_TRUNCATION
    } else if i == 6 {
        USN_REASON_FILE_CREATE
    } else if i == 7 {
        USN_REASON_FILE_DELETE
    } else if i == 8 {
        USN_REASON_EA_CHANGE
    } else if i == 9 {
        USN_REASON_SECURITY_CHANGE
    } else if i == 10 {
        USN_REASON_RENAME_OLD_NAME
    } else if i == 11 {
        USN_REASON_RENAME_NEW_NAME
    } else if i == 12 {
        USN_REASON_INDEXABLE_CHANGE
    } else if i == 13 {
        USN_REASON_BASIC_INFO_CHANGE
    } else if i == 14 {
        USN_REASON_HARD_LINK_CHANGE
    } else if i == 15 {
        USN_REASON_COMPRESSION_CHANGE
    } else if i == 16 {
        USN_REASON_ENCRYPTION_CHANGE
    } else if i == 17 {
        USN_REASON_OBJECT_ID_CHANGE
    } else if i == 18 {
        USN_REASON_REPARSE_POINT_CHANGE
    } else if i == 19 {
        USN_REASON_STREAM_CHANGE
    } else if i == 20 {
        USN_REASON_TRANSACTED_CHANGE
    } else if i == 21 {
        USN_REASON_INTEGRITY_CHANGE
    } else if i == 22 {
        USN_REASON_DESIRED_STORAGE_CLASS
    } else {
        USN_REASON_CLOSE
    }
}

/// The display name of the `i`-th reason flag.
pub open spec fn reason_name(i: int) -> Seq<char> {
    if i == 0 {
        "Data Overwrite"@
    } else if i == 1 {
        "Data Extend"@
    } else if i == 2 {
        "Data Truncation"@
    } else if i == 3 {
        "Named Data Overwrite"@
    } else if i == 4 {
        "Named Data Extend"@
    } else if i == 5 {
        "Named Data Truncation"@
    } else if i == 6 {
        "File Created"@
    } else if i == 7 {
        "File Deleted"@
    } else if i == 8 {
        "EA Change"@
    } else if i == 9 {
        "Security Change"@
    } else if i == 10 {
        "Rename Old Name"@
    } else if i == 11 {
        "Rename New Name"@
    } else if i == 12 {
        "Indexable Change"@
    } else if i == 13 {
        "Basic Info Change"@
    } else if i == 14 {
        "Hard Link Change"@
    } else if i == 15 {
        "Compression Change"@
    } else if i == 16 {
        "Encryption Change"@
    } else if i == 17 {
        "Object ID Change"@
    } else if i == 18 {
        "Reparse Point Change"@
    } else if i == 19 {
        "Stream Change"@
    } else if i == 20 {
        "Transacted Change"@
    } else if i == 21 {
        "Integrity Change"@
    } else if i == 22 {
        "Desired Storage Class"@
    } else {
        "Close"@
    }
}

/// The `i`-th reason flag.
pub fn reason_flag_at(i: usize) -> (f: u32)
    requires
        i < REASON_COUNT,
    ensures
        f == reason_flag(i as int),
{
    if i == 0 {
        USN_REASON_DATA_OVERWRITE
    } else if i == 1 {
        USN_REASON_DATA_EXTEND
    } else if i == 2 {
        USN_REASON_DATA_TRUNCATION
    } else if i == 3 {
        USN_REASON_NAMED_DATA_OVERWRITE
    } else if i == 4 {
        USN_REASON_NAMED_DATA_EXTEND
    } else if i == 5 {
        USN_REASON_NAMED_DATA_TRUNCATION
    } else if i == 6 {
        USN_REASON_FILE_CREATE
    } else if i == 7 {
        USN_REASON_FILE_DELETE
    } else if i == 8 {
        USN_REASON_EA_CHANGE
    } else if i == 9 {
        USN_REASON_SECURITY_CHANGE
    } else if i == 10 {
        USN_REASON_RENAME_OLD_NAME
    } else if i == 11 {
        USN_REASON_RENAME_NEW_NAME
    } else if i == 12 {
        USN_REASON_INDEXABLE_CHANGE
    } else if i == 13 {
        USN_REASON_BASIC_INFO_CHANGE
    } else if i == 14 {
        USN_REASON_HARD_LINK_CHANGE
    } else if i == 15 {
        USN_REASON_COMPRESSION_CHANGE
    } else if i == 16 {
        USN_REASON_ENCRYPTION_CHANGE
    } else if i == 17 {
        USN_REASON_OBJECT_ID_CHANGE
    } else if i == 18 {
        USN_REASON_REPARSE_POINT_CHANGE
    } else if i == 19 {
        USN_REASON_STREAM_CHANGE
    } else if i == 20 {
        USN_REASON_TRANSACTED_CHANGE
    } else if i == 21 {
        USN_REASON_INTEGRITY_CHANGE
    } else if i == 22 {
        USN_REASON_DESIRED_STORAGE_CLASS
    } else {
        USN_REASON_CLOSE
    }
}

/// The display name of the `i`-th reason flag.
pub fn reason_name_at(i: usize) -> (n: &'static str)
    requires
        i < REASON_COUNT,
    ensures
        n@ == reason_name(i as int),
{
    if i == 0 {
        "Data Overwrite"
    } else if i == 1 {
        "Data Extend"
    } else if i == 2 {
        "Data Truncation"
    } else if i == 3 {
        "Named Data Overwrite"
    } else if i == 4 {
        "Named Data Extend"
    } else if i == 5 {
        "Named Data Truncation"
    } else if i == 6 {
        "File Created"
    } else if i == 7 {
        "File Deleted"
    } else if i == 8 {
        "EA Change"
    } else if i == 9 {
        "Security Change"
    } else if i == 10 {
        "Rename Old Name"
    } else if i == 11 {
        "Rename New Name"
    } else if i == 12 {
        "Indexable Change"
    } else if i == 13 {
        "Basic Info Change"
    } else if i == 14 {
        "Hard Link Change"
    } else if i == 15 {
        "Compression Change"
    } else if i == 16 {
        "Encryption Change"
    } else if i == 17 {
        "Object ID Change"
    } else if i == 18 {
        "Reparse Point Change"
    } else if i == 19 {
        "Stream Change"
    } else if i == 20 {
        "Transacted Change"
    } else if i == 21 {
        "Integrity Change"
    } else if i == 22 {
        "Desired Storage Class"
    } else {
        "Close"
    }
}

/// Names of the reasons among the first `k` that `reason` carries, in list order.
pub open spec fn reason_parts(reason: u32, k: int) -> Seq<Seq<char>>
    decreases k,
{
    if k <= 0 {
        seq![]
    } else if reason & reason_flag(k - 1) != 0 {
        reason_parts(reason, k - 1).push(reason_name(k - 1))
    } else {
        reason_parts(reason, k - 1)
    }
}

/// `parts` joined with `sep` between consecutive parts.
pub open spec fn join(parts: Seq<Seq<char>>, sep: Seq<char>) -> Seq<char>
    decreases parts.len(),
{
    if parts.len() == 0 {
        seq![]
    } else if parts.len() == 1 {
        parts[0]
    } else {
        join(parts.drop_last(), sep) + sep + parts.last()
    }
}

/// The text of a reason mask: the names of its flags joined by ", ", or "None".
pub open spec fn reasons_text(reason: u32) -> Seq<char> {
    let parts = reason_parts(reason, REASON_COUNT as int);
    if parts.len() == 0 {
        "None"@
    } else {
        join(parts, ", "@)
    }
}

pub proof fn lemma_join_push(parts: Seq<Seq<char>>, x: Seq<char>, sep: Seq<char>)
    requires
        parts.len() > 0,
    ensures
        join(parts.push(x), sep) == join(parts, sep) + sep + x,
{
    assert(parts.push(x).drop_last() =~= parts);
}

/// The character sequences of a list of strings.
pub open spec fn strings_view(v: Seq<String>) -> Seq<Seq<char>> {
    v.map_values(|s: String| s@)
}

/// The strings of `parts` joined with `sep` between consecutive parts.
pub fn join_strings(parts: &Vec<String>, sep: &str) -> (r: String)
    ensures
        r@ == join(strings_view(parts@), sep@),
{
    let ghost pv = strings_view(parts@);
    let mut out = String::new();
    let mut i: usize = 0;
    while i < parts.len()
        invariant
            i <= parts@.len(),
            pv == strings_view(parts@),
            out@ == join(pv.take(i as int), sep@),
        decreases parts@.len() - i,
    {
        proof {
            if i > 0 {
                lemma_join_push(pv.take(i as int), pv[i as int], sep@);
            }
            assert(pv.take(i + 1) =~= pv.take(i as int).push(pv[i as int]));
        }
        if i > 0 {
            out.append(sep);
        }
        out.append(parts[i].as_str());
        i = i + 1;
    }
    assert(pv.take(pv.len() as int) =~= pv);
    out
}

/// Names of the reason flags set in `reason`, joined by ", "; "None" when no listed flag is set.
pub fn format_reasons(reason: u32) -> (r: String)
    ensures
        r@ == reasons_text(reason),
{
    let mut out = String::new();
    let mut any = false;
    let mut i: usize = 0;
    while i < REASON_COUNT
        invariant
            i <= REASON_COUNT,
            any == (reason_parts(reason, i as int).len() > 0),
            any ==> out@ == join(reason_parts(reason, i as int), ", "@),
            !any ==> out@ == Seq::<char>::empty(),
        decreases REASON_COUNT - i,
    {
        let flag = reason_flag_at(i);
        if reason & flag != 0 {
            let name = reason_name_at(i);
            proof {
                if any {
                    lemma_join_push(reason_parts(reason, i as int), reason_name(i as int), ", "@);
                } else {
                    assert(reason_parts(reason, i as int).push(reason_name(i as int)).len() == 1);
                }
            }
            if any {
                out.append(", ");
            }
            out.append(name);
            any = true;
        }
        i = i + 1;
    }
    if !any {
        return String::from_str("None");
    }
    out
}


/// Character for a Unicode scalar value (`char::from_u32`): `Some` exactly for
/// values outside the surrogate range and at most 0x10FFFF.
#[verifier::external_body]
fn char_from_scalar(x: u32) -> (r: Option<char>)
    ensures
        (x <= 0xD7FF || (0xE000 <= x && x <= 0x10FFFF)) ==> r == Some(x as char),
        !(x <= 0xD7FF || (0xE000 <= x && x <= 0x10FFFF)) ==> r is None,
{
    char::from_u32(x)
}

/// The UTF-16 code units held in little-endian byte pairs; a trailing odd byte is ignored.
pub open spec fn utf16_units(b: Seq<u8>) -> Seq<u16> {
    Seq::new((b.len() / 2) as nat, |k: int| le_u16(b, 2 * k))
}

/// Lossy UTF-16 decoding: surrogate pairs become one character, and every
/// unpaired surrogate becomes U+FFFD.
pub open spec fn decode_utf16(u: Seq<u16>) -> Seq<char>
    decreases u.len(),
{
    if u.len() == 0 {
        seq![]
    } else if u[0] < 0xD800 || u[0] > 0xDFFF {
        seq![u[0] as char] + decode_utf16(u.skip(1))
    } else if u[0] <= 0xDBFF && u.len() >= 2 && 0xDC00 <= u[1] && u[1] <= 0xDFFF {
        seq![(0x10000 + (u[0] - 0xD800) * 0x400 + (u[1] - 0xDC00)) as char] + decode_utf16(
            u.skip(2),
        )
    } else {
        seq!['\u{FFFD}'] + decode_utf16(u.skip(1))
    }
}

/// Decodes `len` bytes at `off` as UTF-16LE, replacing unpaired surrogates with U+FFFD.
pub fn decode_utf16_le(b: &[u8], off: usize, len: usize) -> (r: String)
    requires
        off + len <= b@.len(),
    ensures
        r@ == decode_utf16(utf16_units(b@.subrange(off as int, off + len))),
{
    let ghost sub = b@.subrange(off as int, off + len);
    let ghost units = utf16_units(sub);
    let n = len / 2;
    let mut out = String::new();
    let mut k: usize = 0;
    assert(units.skip(0) =~= units);
    while k < n
        invariant
            n == len / 2,
            off + len <= b@.len(),
            off + len <= b.len(),
            sub == b@.subrange(off as int, off + len),
            units == utf16_units(sub),
            units.len() == n,
            k <= n,
            decode_utf16(units) == out@ + decode_utf16(units.skip(k as int)),
        decreases n - k,
    {
        let lo = b[off + 2 * k] as u32 + 256 * (b[off + 2 * k + 1] as u32);
        assert(lo == units[k as int]);
        let ghost rest = units.skip(k as int);
        assert(rest[0] == units[k as int]);
        if lo < 0xD800 || lo > 0xDFFF {
            let c = char_from_scalar(lo);
            push_char(&mut out, c.unwrap());
            assert(rest.skip(1) =~= units.skip(k + 1));
            k = k + 1;
        } else if lo <= 0xDBFF && k + 1 < n {
            let hi = b[off + 2 * k + 2] as u32 + 256 * (b[off + 2 * k + 3] as u32);
            assert(hi == units[k + 1]);
            assert(rest[1] == units[k + 1]);
            if 0xDC00 <= hi && hi <= 0xDFFF {
                let x = 0x10000 + (lo - 0xD800) * 0x400 + (hi - 0xDC00);
                let c = char_from_scalar(x);
                push_char(&mut out, c.unwrap());
                assert(rest.skip(2) =~= units.skip(k + 2));
                k = k + 2;
            } else {
                push_char(&mut out, '\u{FFFD}');
                assert(rest.skip(1) =~= units.skip(k + 1));
                k = k + 1;
            }
        } else {
            push_char(&mut out, '\u{FFFD}');
            assert(rest.skip(1) =~= units.skip(k + 1));
            k = k + 1;
        }
    }
    assert(units.skip(n as int) =~= Seq::<u16>::empty());
    out
}

/// FILETIME (100 ns ticks since 1601) of the Unix epoch.
pub const FILETIME_TO_UNIX_OFFSET: i64 = 116_444_736_000_000_000;

/// Text shown for a time at or before the Unix epoch.
pub open spec fn epoch_text() -> Seq<char> {
    "1970-01-01 00:00:00"@
}

/// Whether `t` reads "YYYY-MM-DD HH:MM:SS": 19 characters, dashes at 4 and 7, a space
/// at 10, colons at 13 and 16, and decimal digits elsewhere.
pub open spec fn stamp_shape(t: Seq<char>) -> bool {
    &&& t.len() == 19
    &&& forall|i: int|
        0 <= i < 19 ==> if i == 4 || i == 7 {
            #[trigger] t[i] == '-'
        } else if i == 10 {
            t[i] == ' '
        } else if i == 13 || i == 16 {
            t[i] == ':'
        } else {
            '0' <= t[i] && t[i] <= '9'
        }
}

/// The value of the decimal digit character `c`.
pub open spec fn digit_value(c: char) -> int {
    (c as u32) - 48
}

/// The number written by the two digits of `t` at `i`.
pub open spec fn two_digits(t: Seq<char>, i: int) -> int {
    digit_value(t[i]) * 10 + digit_value(t[i + 1])
}

/// Days from 1970-01-01 to the date `y`-`m`-`d` of the proleptic Gregorian calendar.
pub open spec fn days_from_civil(y: int, m: int, d: int) -> int {
    let yy = if m <= 2 {
        y - 1
    } else {
        y
    };
    let era = yy / 400;
    let yoe = yy - era * 400;
    let mp = if m > 2 {
        m - 3
    } else {
        m + 9
    };
    let doy = (153 * mp + 2) / 5 + d - 1;
    let doe = yoe * 365 + yoe / 4 - yoe / 100 + doy;
    era * 146_097 + doe - 719_468
}

/// The time that a "YYYY-MM-DD HH:MM:SS" text reads, as seconds since
/// 1970-01-01 00:00:00.
#[verifier::opaque]
pub open spec fn stamp_secs(t: Seq<char>) -> int {
    let y = two_digits(t, 0) * 100 + two_digits(t, 2);
    days_from_civil(y, two_digits(t, 5), two_digits(t, 8)) * 86_400 + two_digits(t, 11) * 3600
        + two_digits(t, 14) * 60 + two_digits(t, 17)
}

/// Seconds after the Unix epoch below which every local time zone still shows a
/// four-digit year (two days before the year 10000).
pub const STAMP_SECS_LIMIT: i64 = 253_402_128_000;

/// What holds of the local time text of a FILETIME whatever the machine's time zone:
/// the epoch text at or before the epoch; up to the year 9999 the
/// "YYYY-MM-DD HH:MM:SS" shape, and after the epoch a time that differs from the
/// FILETIME's own (UTC) second by less than a day, the largest offset a time zone has.
pub open spec fn local_text_ok(filetime: i64, text: Seq<char>) -> bool {
    &&& filetime <= FILETIME_TO_UNIX_OFFSET ==> text == epoch_text()
    &&& unix_secs(filetime) < STAMP_SECS_LIMIT ==> stamp_shape(text)
    &&& FILETIME_TO_UNIX_OFFSET < filetime && unix_secs(filetime) < STAMP_SECS_LIMIT ==> -86_400
        < stamp_secs(text) - unix_secs(filetime) < 86_400
}

proof fn lemma_epoch_text_shape()
    ensures
        stamp_shape(epoch_text()),
{
    reveal_strlit("1970-01-01 00:00:00");
    let t = epoch_text();
    assert(t =~= seq!['1', '9', '7', '0', '-', '0', '1', '-', '0', '1', ' ', '0', '0', ':', '0', '0', ':', '0', '0']);
}

/// Whole seconds since the Unix epoch of a FILETIME after the epoch.
pub open spec fn unix_secs(filetime: i64) -> int {
    (filetime - FILETIME_TO_UNIX_OFFSET) / 10_000_000
}

/// Nanoseconds within the second of a FILETIME after the epoch.
pub open spec fn unix_nanos(filetime: i64) -> int {
    ((filetime - FILETIME_TO_UNIX_OFFSET) % 10_000_000) * 100
}

/// chrono's `Local.timestamp_opt(secs, nsecs)` formatted as "%Y-%m-%d %H:%M:%S".
/// The exact date and time depend on the machine's time zone and are left unsaid. The
/// contract claims that the call yields a time for every second within about 250,000
/// years of the epoch, and that up to two days before the year 10000 the text has the
/// documented shape of the format (a four-digit year and two-digit fields) and reads a
/// time less than a day away from `secs`: chrono builds every local offset with
/// `FixedOffset::east_opt`, which only accepts offsets shorter than a day.
#[verifier::external_body]
fn local_time_text(secs: i64, nsecs: u32) -> (r: Option<String>)
    ensures
        0 <= secs < 8_000_000_000_000 && nsecs < 1_000_000_000 ==> r is Some,
        0 <= secs < STAMP_SECS_LIMIT && nsecs < 1_000_000_000 ==> r is Some && stamp_shape(
            r->0@,
        ) && -86_400 < stamp_secs(r->0@) - secs < 86_400,
{
    match chrono::Local.timestamp_opt(secs, nsecs) {
        chrono::LocalResult::Single(dt) => Some(dt.format("%Y-%m-%d %H:%M:%S").to_string()),
        chrono::LocalResult::Ambiguous(dt, _) => Some(dt.format("%Y-%m-%d %H:%M:%S").to_string()),
        chrono::LocalResult::None => None,
    }
}

/// Local date and time of a FILETIME as "YYYY-MM-DD HH:MM:SS"; times at or before
/// the Unix epoch give "1970-01-01 00:00:00".
pub fn filetime_to_formatted_local(filetime: i64) -> (r: String)
    ensures
        local_text_ok(filetime, r@),
{
    proof {
        lemma_epoch_text_shape();
    }
    match filetime_to_unix_parts(filetime) {
        None => String::from_str("1970-01-01 00:00:00"),
        Some((secs, nsecs)) => match local_time_text(secs, nsecs) {
            Some(s) => s,
            None => String::from_str("1970-01-01 00:00:00"),
        },
    }
}

/// Seconds and nanoseconds since the Unix epoch of a FILETIME, or `None` at or
/// before the epoch.
pub fn filetime_to_unix_parts(filetime: i64) -> (r: Option<(i64, u32)>)
    ensures
        r is None <==> filetime <= FILETIME_TO_UNIX_OFFSET,
        r matches Some((secs, nsecs)) ==> secs == unix_secs(filetime) && nsecs == unix_nanos(
            filetime,
        ) && 0 <= secs < 1_000_000_000_000 && nsecs < 1_000_000_000,
{
    if filetime <= FILETIME_TO_UNIX_OFFSET {
        return None;
    }
    let diff = filetime - FILETIME_TO_UNIX_OFFSET;
    let secs = diff / 10_000_000;
    let nsecs = ((diff % 10_000_000) * 100) as u32;
    Some((secs, nsecs))
}


/// One entry of the USN change journal, as parsed from disk and enriched with
/// its reconstructed path.
#[derive(Clone, Debug, PartialEq, Eq)]
pub struct UsnRecord {
    pub id: usize,
    pub record_length: u32,
    pub major_version: u16,
    pub minor_version: u16,
    pub file_ref_number: u64,
    pub file_ref_seq: u16,
    pub parent_file_ref_number: u64,
    pub parent_file_ref_seq: u16,
    pub usn: i64,
    pub timestamp_raw: i64,
    pub timestamp_formatted: String,
    pub reason: u32,
    pub reason_str: String,
    pub source_info: u32,
    pub security_id: u32,
    pub file_attributes: u32,
    pub file_name: String,
    pub full_path: String,
    pub is_ghost: bool,
    pub is_stomp: bool,
}

/// Mathematical model of a [`UsnRecord`]: its fields, with texts as character sequences.
pub struct UsnRecordView {
    pub id: usize,
    pub record_length: u32,
    pub major_version: u16,
    pub minor_version: u16,
    pub file_ref_number: u64,
    pub file_ref_seq: u16,
    pub parent_file_ref_number: u64,
    pub parent_file_ref_seq: u16,
    pub usn: i64,
    pub timestamp_raw: i64,
    pub timestamp_formatted: Seq<char>,
    pub reason: u32,
    pub reason_str: Seq<char>,
    pub source_info: u32,
    pub security_id: u32,
    pub file_attributes: u32,
    pub file_name: Seq<char>,
    pub full_path: Seq<char>,
    pub is_ghost: bool,
    pub is_stomp: bool,
}

impl View for UsnRecord {
    type V = UsnRecordView;

    open spec fn view(&self) -> UsnRecordView {
        UsnRecordView {
            id: self.id,
            record_length: self.record_length,
            major_version: self.major_version,
            minor_version: self.minor_version,
            file_ref_number: self.file_ref_number,
            file_ref_seq: self.file_ref_seq,
            parent_file_ref_number: self.parent_file_ref_number,
            parent_file_ref_seq: self.parent_file_ref_seq,
            usn: self.usn,
            timestamp_raw: self.timestamp_raw,
            timestamp_formatted: self.timestamp_formatted@,
            reason: self.reason,
            reason_str: self.reason_str@,
            source_info: self.source_info,
            security_id: self.security_id,
            file_attributes: self.file_attributes,
            file_name: self.file_name@,
            full_path: self.full_path@,
            is_ghost: self.is_ghost,
            is_stomp: self.is_stomp,
        }
    }
}

/// Declared length of the record at the start of `b`.
pub open spec fn usn_record_len(b: Seq<u8>) -> int {
    le_u32(b, 0) as int
}

/// Whether the name of a version 2 (`u == 24`) or version 3 (`u == 40`) record,
/// whose length and offset fields follow the update number at `u`, lies within the record.
pub open spec fn usn_name_fits(b: Seq<u8>, u: int) -> bool {
    le_u16(b, u + 34) + le_u16(b, u + 32) <= usn_record_len(b)
}

/// Whether `b` starts with a journal record that can be parsed: a length of at least
/// 8 bytes that fits in `b`, and a major version of 2 (at least 60 bytes), 3 (at least
/// 76 bytes) or 4 (at least 40 bytes), whose file name lies within the record.
pub open spec fn usn_record_parses(b: Seq<u8>) -> bool {
    &&& b.len() >= 8
    &&& 8 <= usn_record_len(b) <= b.len()
    &&& {
        let major = le_u16(b, 4);
        ||| major == 2 && usn_record_len(b) >= 60 && usn_name_fits(b, 24)
        ||| major == 3 && usn_record_len(b) >= 76 && usn_name_fits(b, 40)
        ||| major == 4 && usn_record_len(b) >= 40
    }
}

/// The file name of a version 2 or 3 record whose update number is at `u`.
pub open spec fn usn_name(b: Seq<u8>, u: int) -> Seq<char> {
    let len = le_u16(b, u + 32) as int;
    let off = le_u16(b, u + 34) as int;
    decode_utf16(utf16_units(b.subrange(off, off + len)))
}

/// The record parsed from a version 2 (`p == 16`, `u == 24`) or version 3 (`p == 24`,
/// `u == 40`) layout, whose parent reference is at `p` and update number at `u`,
/// with `stamp` as the local time text.
pub open spec fn usn_full_view(b: Seq<u8>, id: usize, stamp: Seq<char>, p: int, u: int) -> UsnRecordView {
    UsnRecordView {
        id,
        record_length: le_u32(b, 0),
        major_version: le_u16(b, 4),
        minor_version: le_u16(b, 6),
        file_ref_number: le_u48(b, 8),
        file_ref_seq: le_u16(b, 14),
        parent_file_ref_number: le_u48(b, p),
        parent_file_ref_seq: le_u16(b, p + 6),
        usn: le_i64(b, u),
        timestamp_raw: le_i64(b, u + 8),
        timestamp_formatted: stamp,
        reason: le_u32(b, u + 16),
        reason_str: reasons_text(le_u32(b, u + 16)),
        source_info: le_u32(b, u + 20),
        security_id: le_u32(b, u + 24),
        file_attributes: le_u32(b, u + 28),
        file_name: usn_name(b, u),
        full_path: usn_name(b, u),
        is_ghost: false,
        is_stomp: false,
    }
}

/// The record parsed from a version 4 layout (no time, attributes or name).
pub open spec fn usn_v4_view(b: Seq<u8>, id: usize) -> UsnRecordView {
    UsnRecordView {
        id,
        record_length: le_u32(b, 0),
        major_version: le_u16(b, 4),
        minor_version: le_u16(b, 6),
        file_ref_number: le_u48(b, 8),
        file_ref_seq: le_u16(b, 14),
        parent_file_ref_number: le_u48(b, 16),
        parent_file_ref_seq: le_u16(b, 22),
        usn: le_i64(b, 24),
        timestamp_raw: 0,
        timestamp_formatted: "N/A"@,
        reason: le_u32(b, 32),
        reason_str: reasons_text(le_u32(b, 32)),
        source_info: 0,
        security_id: 0,
        file_attributes: 0,
        file_name: seq![],
        full_path: seq![],
        is_ghost: false,
        is_stomp: false,
    }
}

/// The record at the start of `b` (which must parse), given the local time text
/// `stamp` of its timestamp.
pub open spec fn usn_record_view(b: Seq<u8>, id: usize, stamp: Seq<char>) -> UsnRecordView {
    let major = le_u16(b, 4);
    if major == 2 {
        usn_full_view(b, id, stamp, 16, 24)
    } else if major == 3 {
        usn_full_view(b, id, stamp, 24, 40)
    } else {
        usn_v4_view(b, id)
    }
}

/// What `parse_usn_record` returns for `b` and `id`: `None` when the record does not
/// parse, else the record and its length in bytes. The local time text of versions 2
/// and 3 depends on the machine's time zone; only `local_text_ok` is known of it.
pub open spec fn parse_usn_result(b: Seq<u8>, id: usize, r: Option<(UsnRecord, usize)>) -> bool {
    match r {
        None => !usn_record_parses(b),
        Some((rec, n)) => {
            &&& usn_record_parses(b)
            &&& n == usn_record_len(b)
            &&& rec@ == usn_record_view(b, id, rec.timestamp_formatted@)
            &&& (rec.major_version == 2 || rec.major_version == 3) ==> local_text_ok(
                rec.timestamp_raw,
                rec.timestamp_formatted@,
            )
        },
    }
}

fn parse_full_record(buf: &[u8], id: usize, p: usize, u: usize) -> (r: Option<
    (UsnRecord, usize),
>)
    requires
        buf@.len() >= 8,
        8 <= usn_record_len(buf@) <= buf@.len(),
        (p == 16 && u == 24 && le_u16(buf@, 4) == 2 && usn_record_len(buf@) >= 60) || (p == 24
            && u == 40 && le_u16(buf@, 4) == 3 && usn_record_len(buf@) >= 76),
    ensures
        parse_usn_result(buf@, id, r),
{
    let record_len = read_u32(buf, 0) as usize;
    let name_len = read_u16(buf, u + 32) as usize;
    let name_off = read_u16(buf, u + 34) as usize;
    if name_off > record_len || name_off + name_len > record_len {
        return None;
    }
    let file_name = decode_utf16_le(buf, name_off, name_len);
    let timestamp_raw = read_i64(buf, u + 8);
    let reason = read_u32(buf, u + 16);
    let rec = UsnRecord {
        id,
        record_length: read_u32(buf, 0),
        major_version: read_u16(buf, 4),
        minor_version: read_u16(buf, 6),
        file_ref_number: read_u48(buf, 8),
        file_ref_seq: read_u16(buf, 14),
        parent_file_ref_number: read_u48(buf, p),
        parent_file_ref_seq: read_u16(buf, p + 6),
        usn: read_i64(buf, u),
        timestamp_raw,
        timestamp_formatted: filetime_to_formatted_local(timestamp_raw),
        reason,
        reason_str: format_reasons(reason),
        source_info: read_u32(buf, u + 20),
        security_id: read_u32(buf, u + 24),
        file_attributes: read_u32(buf, u + 28),
        file_name: file_name.clone(),
        full_path: file_name,
        is_ghost: false,
        is_stomp: false,
    };
    Some((rec, record_len))
}

/// Parses the journal record at the start of `buf` (versions 2, 3 and 4), returning it
/// with its length in bytes; `None` when the record is truncated, of another version,
/// or names a file outside itself.
pub fn parse_usn_record(buf: &[u8], id: usize) -> (r: Option<(UsnRecord, usize)>)
    ensures
        parse_usn_result(buf@, id, r),
{
    if buf.len() < 8 {
        return None;
    }
    let record_len = read_u32(buf, 0) as usize;
    if record_len < 8 || record_len > buf.len() {
        return None;
    }
    let major_version = read_u16(buf, 4);
    if major_version == 2 {
        if record_len < 60 {
            return None;
        }
        parse_full_record(buf, id, 16, 24)
    } else if major_version == 3 {
        if record_len < 76 {
            return None;
        }
        parse_full_record(buf, id, 24, 40)
    } else if major_version == 4 {
        if record_len < 40 {
            return None;
        }
        let reason = read_u32(buf, 32);
        let rec = UsnRecord {
            id,
            record_length: read_u32(buf, 0),
            major_version,
            minor_version: read_u16(buf, 6),
            file_ref_number: read_u48(buf, 8),
            file_ref_seq: read_u16(buf, 14),
            parent_file_ref_number: read_u48(buf, 16),
            parent_file_ref_seq: read_u16(buf, 22),
            usn: read_i64(buf, 24),
            timestamp_raw: 0,
            timestamp_formatted: String::from_str("N/A"),
            reason,
            reason_str: format_reasons(reason),
            source_info: 0,
            security_id: 0,
            file_attributes: 0,
            file_name: String::new(),
            full_path: String::new(),
            is_ghost: false,
            is_stomp: false,
        };
        Some((rec, record_len))
    } else {
        None
    }
}

proof fn lemma_same_record(b: Seq<u8>, c: Seq<u8>, id: usize, stamp: Seq<char>)
    requires
        usn_record_parses(b),
        usn_record_len(b) <= c.len(),
        forall|k: int| 0 <= k < usn_record_len(b) ==> #[trigger] c[k] == b[k],
    ensures
        usn_record_parses(c),
        usn_record_len(c) == usn_record_len(b),
        usn_record_view(c, id, stamp) == usn_record_view(b, id, stamp),
{
    let n = usn_record_len(b);
    assert(c[0] == b[0] && c[1] == b[1] && c[2] == b[2] && c[3] == b[3]);
    assert(usn_record_len(c) == n);
    assert(le_u16(c, 4) == le_u16(b, 4) && le_u16(c, 6) == le_u16(b, 6));
    let major = le_u16(b, 4);
    if major == 2 || major == 3 {
        let u: int = if major == 2 {
            24
        } else {
            40
        };
        let p: int = if major == 2 {
            16
        } else {
            24
        };
        assert forall|k: int| 8 <= k < u + 36 implies #[trigger] c[k] == b[k] by {}
        assert(le_u16(c, u + 32) == le_u16(b, u + 32));
        assert(le_u16(c, u + 34) == le_u16(b, u + 34));
        let len = le_u16(b, u + 32) as int;
        let off = le_u16(b, u + 34) as int;
        assert(c.subrange(off, off + len) =~= b.subrange(off, off + len));
        assert(usn_name(c, u) == usn_name(b, u));
        assert(usn_full_view(c, id, stamp, p, u) == usn_full_view(b, id, stamp, p, u));
    } else {
        assert forall|k: int| 8 <= k < 40 implies #[trigger] c[k] == b[k] by {}
        assert(usn_v4_view(c, id) == usn_v4_view(b, id));
    }
}

/// Law: a record is read from its own bytes only. Once the record at the start of
/// `b` parses, its first `usn_record_len(b)` bytes parse to the same record, and so
/// does `b` followed by any further bytes.
pub proof fn law_parse_reads_only_the_record(b: Seq<u8>, extra: Seq<u8>, id: usize, stamp: Seq<char>)
    requires
        usn_record_parses(b),
    ensures
        usn_record_parses(b.take(usn_record_len(b))),
        usn_record_len(b.take(usn_record_len(b))) == usn_record_len(b),
        usn_record_view(b.take(usn_record_len(b)), id, stamp) == usn_record_view(b, id, stamp),
        usn_record_parses(b + extra),
        usn_record_len(b + extra) == usn_record_len(b),
        usn_record_view(b + extra, id, stamp) == usn_record_view(b, id, stamp),
        forall|r: Option<(UsnRecord, usize)>|
            r is Some ==> (#[trigger] parse_usn_result(b + extra, id, r) <==> parse_usn_result(
                b,
                id,
                r,
            )),
        forall|r: Option<(UsnRecord, usize)>|
            r is Some ==> (#[trigger] parse_usn_result(b.take(usn_record_len(b)), id, r)
                <==> parse_usn_result(b, id, r)),
{
    assert forall|r: Option<(UsnRecord, usize)>| r is Some implies (#[trigger] parse_usn_result(
        b + extra,
        id,
        r,
    ) <==> parse_usn_result(b, id, r)) by {
        let pair = r->0;
        let rec = pair.0;
        lemma_same_record(b, b + extra, id, rec.timestamp_formatted@);
    }
    assert forall|r: Option<(UsnRecord, usize)>| r is Some implies (#[trigger] parse_usn_result(
        b.take(usn_record_len(b)),
        id,
        r,
    ) <==> parse_usn_result(b, id, r)) by {
        let pair = r->0;
        let rec = pair.0;
        lemma_same_record(b, b.take(usn_record_len(b)), id, rec.timestamp_formatted@);
    }
    lemma_same_record(b, b.take(usn_record_len(b)), id, stamp);
    lemma_same_record(b, b + extra, id, stamp);
}

} // verus!
