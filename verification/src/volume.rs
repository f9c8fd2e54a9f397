//! The NTFS boot sector, and the checks and messages of raw volume access.
use vstd::prelude::*;

use crate::bytes::{le_u16, le_u64, read_u16, read_u64};
use crate::text::{
    dec, hex8_string, hex_digits, push_char, push_decimal, push_str_chars, to_upper_char, upper_char,
};

verus! {

broadcast use vstd::string::group_string_axioms;

/// An error of volume access, with a message for the user.
#[derive(Debug, Clone)]
pub struct VolumeError {
    pub message: String,
}

/// Geometry of an NTFS volume, read from its boot sector.
#[derive(Debug, Clone)]
pub struct BootSectorInfo {
    pub bytes_per_sector: u32,
    pub sectors_per_cluster: u32,
    pub cluster_size: u32,
    pub total_sectors: u64,
    pub mft_start_lcn: u64,
    pub clusters_per_mft_record: i8,
    pub mft_record_size: u32,
}

/// Whether bytes 3 to 6 of `b` hold the file system name "NTFS".
pub open spec fn has_ntfs_name(b: Seq<u8>) -> bool {
    b[3] == 0x4E && b[4] == 0x54 && b[5] == 0x46 && b[6] == 0x53
}

/// The clusters-per-record field (byte 0x40) as a signed number.
pub open spec fn mft_record_field(b: Seq<u8>) -> int {
    if b[0x40] >= 128 {
        b[0x40] - 256
    } else {
        b[0x40] as int
    }
}

/// Whether a boot sector can be read: the record size field, when negative, is an
/// exponent below 32.
pub open spec fn boot_sector_readable(b: Seq<u8>) -> bool {
    b.len() < 512 || !has_ntfs_name(b) || mft_record_field(b) > -32
}

/// 2 to the power `n`.
pub open spec fn pow2(n: nat) -> nat
    decreases n,
{
    if n == 0 {
        1
    } else {
        2 * pow2((n - 1) as nat)
    }
}

/// What `parse_boot_sector` returns for a readable boot sector `b`: an error for a
/// sector shorter than 512 bytes or not named "NTFS"; else the geometry, where a
/// non-negative record field counts clusters per record and a negative one is the
/// negated base-2 logarithm of the record size in bytes.
pub open spec fn boot_sector_result(b: Seq<u8>, r: Result<BootSectorInfo, VolumeError>) -> bool {
    match r {
        Err(e) => if b.len() < 512 {
            e.message@ == "Sector buffer too small for boot record"@
        } else {
            !has_ntfs_name(b) && e.message@ == "Target volume is not a valid NTFS filesystem"@
        },
        Ok(info) => {
            &&& b.len() >= 512
            &&& has_ntfs_name(b)
            &&& info.bytes_per_sector == le_u16(b, 0x0B)
            &&& info.sectors_per_cluster == b[0x0D]
            &&& info.cluster_size == le_u16(b, 0x0B) * b[0x0D]
            &&& info.total_sectors == le_u64(b, 0x28)
            &&& info.mft_start_lcn == le_u64(b, 0x30)
            &&& info.clusters_per_mft_record == mft_record_field(b)
            &&& info.mft_record_size == if mft_record_field(b) >= 0 {
                mft_record_field(b) * (le_u16(b, 0x0B) * b[0x0D])
            } else {
                pow2((-mft_record_field(b)) as nat) as int
            }
        },
    }
}

/// Reads the geometry of an NTFS volume from its first sector.
pub fn parse_boot_sector(buf: &[u8]) -> (r: Result<BootSectorInfo, VolumeError>)
    requires
        boot_sector_readable(buf@),
    ensures
        boot_sector_result(buf@, r),
{
    if buf.len() < 512 {
        return Err(VolumeError { message: String::from_str("Sector buffer too small for boot record") });
    }
    if !(buf[3] == 0x4E && buf[4] == 0x54 && buf[5] == 0x46 && buf[6] == 0x53) {
        return Err(
            VolumeError { message: String::from_str("Target volume is not a valid NTFS filesystem") },
        );
    }
    let bytes_per_sector = read_u16(buf, 0x0B) as u32;
    let sectors_per_cluster = buf[0x0D] as u32;
    assert(bytes_per_sector * sectors_per_cluster <= 65535 * 255) by (nonlinear_arith)
        requires
            bytes_per_sector <= 65535,
            sectors_per_cluster <= 255,
    ;
    let cluster_size = bytes_per_sector * sectors_per_cluster;
    let total_sectors = read_u64(buf, 0x28);
    let mft_start_lcn = read_u64(buf, 0x30);
    let raw = buf[0x40];
    let clusters_per_mft_record: i8 = if raw >= 128 {
        (raw as i16 - 256) as i8
    } else {
        raw as i8
    };
    let mft_record_size: u32 = if clusters_per_mft_record >= 0 {
        assert((clusters_per_mft_record as u32) * cluster_size <= 127 * (65535 * 255)) by (nonlinear_arith)
            requires
                0 <= clusters_per_mft_record <= 127,
                cluster_size <= 65535 * 255,
        ;
        (clusters_per_mft_record as u32) * cluster_size
    } else {
        let e: u32 = (-(clusters_per_mft_record as i32)) as u32;
        let mut v: u32 = 1;
        let mut k: u32 = 0;
        while k < e
            invariant
                k <= e,
                e < 32,
                v == pow2(k as nat),
                v <= 0x8000_0000,
                k < 32 ==> v <= pow2(k as nat),
            decreases e - k,
        {
            proof {
                lemma_pow2_bound((k + 1) as nat);
            }
            v = v * 2;
            k = k + 1;
        }
        v
    };
    Ok(
        BootSectorInfo {
            bytes_per_sector,
            sectors_per_cluster,
            cluster_size,
            total_sectors,
            mft_start_lcn,
            clusters_per_mft_record,
            mft_record_size,
        },
    )
}

proof fn lemma_pow2_bound(k: nat)
    requires
        k <= 31,
    ensures
        pow2(k) <= 0x8000_0000,
    decreases 31 - k,
{
    if k == 31 {
        reveal_with_fuel(pow2, 32);
        assert(pow2(31) == 0x8000_0000);
    } else {
        lemma_pow2_bound(k + 1);
    }
}

/// The device path of a drive: `\\.\` and the upper-cased letter and a colon.
pub fn volume_path(drive_letter: char) -> (p: String)
    ensures
        p@ == seq!['\\', '\\', '.', '\\', upper_char(drive_letter), ':'],
{
    let mut p = String::new();
    push_char(&mut p, '\\');
    push_char(&mut p, '\\');
    push_char(&mut p, '.');
    push_char(&mut p, '\\');
    push_char(&mut p, to_upper_char(drive_letter));
    push_char(&mut p, ':');
    p
}

/// `x` is a multiple of `m` (`u64::is_multiple_of`: only 0 is a multiple of 0).
pub open spec fn is_multiple(x: int, m: int) -> bool {
    if m == 0 {
        x == 0
    } else {
        x % m == 0
    }
}

/// Unbuffered reads must start and end on sector boundaries: an error unless the
/// offset and the length are multiples of the sector size.
pub fn check_sector_alignment(offset: u64, len: usize, bytes_per_sector: u32) -> (r: Result<
    (),
    VolumeError,
>)
    ensures
        r is Ok <==> is_multiple(offset as int, bytes_per_sector as int) && is_multiple(
            len as int,
            bytes_per_sector as int,
        ),
        r matches Err(e) ==> e.message@
            == "Unaligned sector read requested on unbuffered volume handle"@,
{
    let sector: u64 = bytes_per_sector as u64;
    let offset_ok = if sector == 0 {
        offset == 0
    } else {
        offset % sector == 0
    };
    let len_ok = if sector == 0 {
        len == 0
    } else {
        (len as u64) % sector == 0
    };
    if !offset_ok || !len_ok {
        return Err(
            VolumeError {
                message: String::from_str("Unaligned sector read requested on unbuffered volume handle"),
            },
        );
    }
    Ok(())
}

/// `prefix`, then `": 0x"` and `code` as eight hexadecimal digits.
fn coded_message(prefix: String, code: u32) -> (s: String)
    ensures
        s@ == prefix@ + ": 0x"@ + hex_digits(code as nat, 8),
{
    let mut s = prefix;
    push_str_chars(&mut s, ": 0x");
    let h = hex8_string(code);
    push_str_chars(&mut s, h.as_str());
    s
}

/// The error of a volume that cannot be opened: "Failed to open raw volume handle for
/// PATH: error code 0x" and the code as eight hexadecimal digits.
pub fn open_volume_error(path: &str, code: u32) -> (e: VolumeError)
    ensures
        e.message@ == "Failed to open raw volume handle for "@ + path@ + ": error code 0x"@
            + hex_digits(code as nat, 8),
{
    let mut s = String::from_str("Failed to open raw volume handle for ");
    push_str_chars(&mut s, path);
    push_str_chars(&mut s, ": error code 0x");
    let h = hex8_string(code);
    push_str_chars(&mut s, h.as_str());
    VolumeError { message: s }
}

/// The error of a boot sector that cannot be read: "Failed to read boot sector for PATH".
pub fn boot_read_error(path: &str) -> (e: VolumeError)
    ensures
        e.message@ == "Failed to read boot sector for "@ + path@,
{
    let mut s = String::from_str("Failed to read boot sector for ");
    push_str_chars(&mut s, path);
    VolumeError { message: s }
}

/// The error of a failed seek: "Seek failure at offset N: 0x" and the code.
pub fn seek_error(offset: u64, code: u32) -> (e: VolumeError)
    ensures
        e.message@ == "Seek failure at offset "@ + dec(offset as nat) + ": 0x"@ + hex_digits(
            code as nat,
            8,
        ),
{
    let mut s = String::from_str("Seek failure at offset ");
    push_decimal(&mut s, offset);
    VolumeError { message: coded_message(s, code) }
}

/// The error of a failed read: "Read error at offset N: 0x" and the code.
pub fn read_error(offset: u64, code: u32) -> (e: VolumeError)
    ensures
        e.message@ == "Read error at offset "@ + dec(offset as nat) + ": 0x"@ + hex_digits(
            code as nat,
            8,
        ),
{
    let mut s = String::from_str("Read error at offset ");
    push_decimal(&mut s, offset);
    VolumeError { message: coded_message(s, code) }
}

/// A read of `expected` bytes that returned `got` bytes: an error "Short read:
/// expected E bytes, got G" unless all came back.
pub fn check_read_length(expected: usize, got: u32) -> (r: Result<(), VolumeError>)
    ensures
        r is Ok <==> got as int == expected as int,
        r matches Err(e) ==> e.message@ == "Short read: expected "@ + dec(expected as nat)
            + " bytes, got "@ + dec(got as nat),
{
    if got as u64 == expected as u64 {
        return Ok(());
    }
    let mut s = String::from_str("Short read: expected ");
    push_decimal(&mut s, expected as u64);
    push_str_chars(&mut s, " bytes, got ");
    push_decimal(&mut s, got as u64);
    Err(VolumeError { message: s })
}

} // verus!
