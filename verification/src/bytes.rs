//! Little-endian integer fields of on-disk structures.
use vstd::prelude::*;

verus! {

/// Unsigned 16-bit little-endian value at `o`.
pub open spec fn le_u16(b: Seq<u8>, o: int) -> u16 {
    (b[o] + 256 * b[o + 1]) as u16
}

/// Unsigned 32-bit little-endian value at `o`.
pub open spec fn le_u32(b: Seq<u8>, o: int) -> u32 {
    (b[o] + 0x100 * b[o + 1] + 0x1_0000 * b[o + 2] + 0x100_0000 * b[o + 3]) as u32
}

/// Unsigned 48-bit little-endian value at `o` (an NTFS file reference number).
pub open spec fn le_u48(b: Seq<u8>, o: int) -> u64 {
    (b[o] + 0x100 * b[o + 1] + 0x1_0000 * b[o + 2] + 0x100_0000 * b[o + 3] + 0x1_0000_0000 * b[o
        + 4] + 0x100_0000_0000 * b[o + 5]) as u64
}

/// Unsigned 64-bit little-endian value at `o`.
pub open spec fn le_u64(b: Seq<u8>, o: int) -> u64 {
    (le_u48(b, o) + 0x1_0000_0000_0000 * b[o + 6] + 0x100_0000_0000_0000 * b[o + 7]) as u64
}

/// Signed (two's complement) 64-bit little-endian value at `o`.
pub open spec fn le_i64(b: Seq<u8>, o: int) -> i64 {
    le_u64(b, o) as i64
}

pub fn read_u16(b: &[u8], o: usize) -> (r: u16)
    requires
        o + 2 <= b@.len(),
    ensures
        r == le_u16(b@, o as int),
{
    (b[o] as u16) + 256 * (b[o + 1] as u16)
}

pub fn read_u32(b: &[u8], o: usize) -> (r: u32)
    requires
        o + 4 <= b@.len(),
    ensures
        r == le_u32(b@, o as int),
{
    (b[o] as u32) + 0x100 * (b[o + 1] as u32) + 0x1_0000 * (b[o + 2] as u32) + 0x100_0000 * (b[o
        + 3] as u32)
}

pub fn read_u48(b: &[u8], o: usize) -> (r: u64)
    requires
        o + 6 <= b@.len(),
    ensures
        r == le_u48(b@, o as int),
{
    (b[o] as u64) + 0x100 * (b[o + 1] as u64) + 0x1_0000 * (b[o + 2] as u64) + 0x100_0000 * (b[o
        + 3] as u64) + 0x1_0000_0000 * (b[o + 4] as u64) + 0x100_0000_0000 * (b[o + 5] as u64)
}

pub fn read_u64(b: &[u8], o: usize) -> (r: u64)
    requires
        o + 8 <= b@.len(),
    ensures
        r == le_u64(b@, o as int),
{
    let n = b.len();
    assert(o + 8 <= n);
    read_u48(b, o) + 0x1_0000_0000_0000 * (b[o + 6] as u64) + 0x100_0000_0000_0000 * (b[o
        + 7] as u64)
}

pub fn read_i64(b: &[u8], o: usize) -> (r: i64)
    requires
        o + 8 <= b@.len(),
    ensures
        r == le_i64(b@, o as int),
{
    read_u64(b, o) as i64
}

} // verus!
