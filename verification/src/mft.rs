//! Master file table records: update sequence fixups, attribute walking and data runs.
use vstd::prelude::*;
use vstd::slice::{slice_subrange, SliceAdditionalExecFns};

use crate::bytes::{le_i64, le_u16, le_u32, le_u48, read_i64, read_u16, read_u32, read_u48};
use crate::usn_record::{decode_utf16, decode_utf16_le, utf16_units};

verus! {

/// The name, parent and timestamps of one master file table entry.
#[derive(Clone, Debug)]
pub struct MftNode {
    pub entry: u64,
    pub sequence: u16,
    pub parent_entry: u64,
    pub parent_sequence: u16,
    pub name: String,
    pub is_dir: bool,
    pub si_created: i64,
    pub si_modified: i64,
    pub fn_created: i64,
    pub fn_modified: i64,
}

/// A contiguous run of clusters of a non-resident attribute.
#[derive(Clone, Debug)]
pub struct ClusterRun {
    pub start_lcn: i64,
    pub cluster_count: u64,
}


/// Whether `b` starts with the record signature "FILE".
pub open spec fn has_file_magic(b: Seq<u8>) -> bool {
    b.len() >= 4 && b[0] == 0x46 && b[1] == 0x49 && b[2] == 0x4C && b[3] == 0x45
}

/// Offset of the update sequence array.
pub open spec fn usa_offset(b: Seq<u8>) -> int {
    le_u16(b, 4) as int
}

/// Number of entries of the update sequence array (the check value and one per sector).
pub open spec fn usa_count(b: Seq<u8>) -> int {
    le_u16(b, 6) as int
}

/// Number of 512-byte sectors that the fixup restores.
pub open spec fn fixup_sectors(b: Seq<u8>) -> int {
    let n = usa_count(b) - 1;
    if n <= b.len() / 512 {
        n
    } else {
        (b.len() / 512) as int
    }
}

/// Whether the fixup applies: a record of at least 512 bytes signed "FILE", an update
/// sequence array of at least two entries within the record, and every covered sector
/// ending with the check value.
pub open spec fn fixup_valid(b: Seq<u8>) -> bool {
    &&& b.len() >= 512
    &&& has_file_magic(b)
    &&& usa_offset(b) + usa_count(b) * 2 <= b.len()
    &&& usa_count(b) >= 2
    &&& forall|i: int|
        0 <= i < fixup_sectors(b) ==> #[trigger] le_u16(b, (i + 1) * 512 - 2) == le_u16(
            b,
            usa_offset(b),
        )
}

/// `b` after restoring the last two bytes of the first `k` sectors from the update
/// sequence array at `usa`, one byte at a time.
pub open spec fn fixup_applied(b: Seq<u8>, usa: int, k: int) -> Seq<u8>
    decreases k,
{
    if k <= 0 {
        b
    } else {
        let prev = fixup_applied(b, usa, k - 1);
        let end = k * 512;
        let f = usa + 2 + (k - 1) * 2;
        let p1 = prev.update(end - 2, prev[f]);
        p1.update(end - 1, p1[f + 1])
    }
}

proof fn lemma_fixup_applied_len(b: Seq<u8>, usa: int, k: int)
    requires
        k * 512 <= b.len(),
    ensures
        fixup_applied(b, usa, k).len() == b.len(),
    decreases k,
{
    if k > 0 {
        lemma_fixup_applied_len(b, usa, k - 1);
    }
}

/// Applies the update sequence fixup of a master file table record in place: when it
/// is valid, the last two bytes of each sector are restored and `true` is returned;
/// otherwise the record is left as it was and `false` is returned.
pub fn apply_mft_fixup(record: &mut [u8]) -> (ok: bool)
    ensures
        ok == fixup_valid(old(record)@),
        ok ==> final(record)@ == fixup_applied(
            old(record)@,
            usa_offset(old(record)@),
            fixup_sectors(old(record)@),
        ),
        !ok ==> final(record)@ == old(record)@,
{
    let len = record.len();
    if len < 512 || !(record[0] == 0x46 && record[1] == 0x49 && record[2] == 0x4C && record[3]
        == 0x45) {
        return false;
    }
    let usa = read_u16(record, 4) as usize;
    let count = read_u16(record, 6) as usize;
    if usa + count * 2 > len || count < 2 {
        return false;
    }
    let check_val = read_u16(record, usa);
    let sector_count = count - 1;
    let ghost orig = record@;
    let n = if sector_count <= len / 512 {
        sector_count
    } else {
        len / 512
    };
    assert(n == fixup_sectors(orig));
    let mut i: usize = 0;
    while i < n
        invariant
            record@ == orig,
            len == orig.len(),
            len == record.len(),
            n == fixup_sectors(orig),
            n <= len / 512,
            check_val == le_u16(orig, usa as int),
            usa == usa_offset(orig),
            i <= n,
            forall|j: int| 0 <= j < i ==> #[trigger] le_u16(orig, (j + 1) * 512 - 2) == check_val,
        decreases n - i,
    {
        let sector_end = (i + 1) * 512;
        let actual = read_u16(record, sector_end - 2);
        if actual != check_val {
            return false;
        }
        i = i + 1;
    }
    let mut i: usize = 0;
    while i < n
        invariant
            n == fixup_sectors(orig),
            len == orig.len(),
            len == record.len(),
            len >= 512,
            n <= len / 512,
            usa == usa_offset(orig),
            usa + count * 2 <= len,
            n == count - 1 || n == len / 512,
            n <= count - 1,
            i <= n,
            record@ == fixup_applied(orig, usa as int, i as int),
        decreases n - i,
    {
        let sector_end = (i + 1) * 512;
        let fixup_offset = usa + 2 + i * 2;
        let ghost prev = record@;
        proof {
            lemma_fixup_applied_len(orig, usa as int, i as int);
        }
        let v0 = record[fixup_offset];
        record.set(sector_end - 2, v0);
        let v1 = record[fixup_offset + 1];
        record.set(sector_end - 1, v1);
        i = i + 1;
    }
    true
}


/// 256 to the power `n`.
pub open spec fn pow256(n: nat) -> nat
    decreases n,
{
    if n == 0 {
        1
    } else {
        256 * pow256((n - 1) as nat)
    }
}

/// Unsigned little-endian value of the `n` bytes at `start`.
pub open spec fn le_uint(b: Seq<u8>, start: int, n: nat) -> nat
    decreases n,
{
    if n == 0 {
        0
    } else {
        le_uint(b, start, (n - 1) as nat) + (b[start + n - 1] as nat) * pow256((n - 1) as nat)
    }
}

/// Two's complement value of the `n` bytes at `start`.
pub open spec fn le_signed(b: Seq<u8>, start: int, n: nat) -> int {
    let v = le_uint(b, start, n);
    if n > 0 && v >= pow256(n) / 2 {
        v - pow256(n)
    } else {
        v as int
    }
}

proof fn lemma_pow256_pos(n: nat)
    ensures
        pow256(n) >= 1,
    decreases n,
{
    if n > 0 {
        lemma_pow256_pos((n - 1) as nat);
    }
}

proof fn lemma_pow256_small(i: nat)
    requires
        i <= 8,
    ensures
        i <= 7 ==> pow256(i) <= 0x100_0000_0000_0000,
        pow256(i) <= 0x1_0000_0000_0000_0000,
        i == 8 ==> pow256(i) == 0x1_0000_0000_0000_0000,
{
    reveal_with_fuel(pow256, 9);
    assert(pow256(8) == 0x1_0000_0000_0000_0000);
}

proof fn lemma_le_uint_bound(b: Seq<u8>, start: int, n: nat)
    ensures
        le_uint(b, start, n) < pow256(n),
    decreases n,
{
    if n > 0 {
        lemma_le_uint_bound(b, start, (n - 1) as nat);
        let v = le_uint(b, start, (n - 1) as nat);
        let p = pow256((n - 1) as nat);
        let x = b[start + n - 1];
        assert(v + x * p < 256 * p) by (nonlinear_arith)
            requires
                v < p,
                x <= 255,
        ;
    }
}

/// The data runs encoded from `cursor` on, the previous run starting at cluster
/// `lcn`: each run header gives the byte lengths of a cluster count and of a signed
/// offset from the previous run's start; a zero header or a header whose fields do
/// not fit ends the list. `None` when a field is longer than eight bytes, an
/// eight-byte offset is negative, or a start cluster leaves the 64-bit range.
pub open spec fn runlist_from(d: Seq<u8>, cursor: int, lcn: int) -> Option<Seq<(i64, u64)>>
    decreases d.len() - cursor,
{
    if cursor < 0 || cursor >= d.len() || d[cursor] == 0 {
        Some(seq![])
    } else {
        let cl = (d[cursor] % 16) as nat;
        let ol = (d[cursor] / 16) as nat;
        let next = cursor + 1 + cl + ol;
        if next > d.len() {
            Some(seq![])
        } else if cl > 8 || ol > 8 || (ol == 8 && le_uint(d, cursor + 1 + cl, 8) >= pow256(8) / 2) {
            None
        } else {
            let nl = if ol > 0 {
                lcn + le_signed(d, cursor + 1 + cl, ol)
            } else {
                lcn
            };
            if nl < i64::MIN || nl > i64::MAX {
                None
            } else {
                match runlist_from(d, next, nl) {
                    Some(rest) => Some(seq![(nl as i64, le_uint(d, cursor + 1, cl) as u64)] + rest),
                    None => None,
                }
            }
        }
    }
}

/// The data runs of a runlist (see [`runlist_from`]).
pub open spec fn runlist(d: Seq<u8>) -> Option<Seq<(i64, u64)>> {
    runlist_from(d, 0, 0)
}

/// The start cluster and cluster count of each run.
pub open spec fn runs_view(v: Seq<ClusterRun>) -> Seq<(i64, u64)> {
    v.map_values(|r: ClusterRun| (r.start_lcn, r.cluster_count))
}

/// Unsigned little-endian value of `n` bytes, and 256 to the power `n`.
fn read_le_uint(d: &[u8], start: usize, n: usize) -> (r: (u128, u128))
    requires
        n <= 8,
        start + n <= d@.len(),
    ensures
        r.0 == le_uint(d@, start as int, n as nat),
        r.1 == pow256(n as nat),
        r.0 < r.1,
        r.1 <= 0x1_0000_0000_0000_0000,
{
    let mut acc: u128 = 0;
    let mut p: u128 = 1;
    let mut i: usize = 0;
    while i < n
        invariant
            i <= n,
            n <= 8,
            start + n <= d@.len(),
            start + n <= d.len(),
            acc == le_uint(d@, start as int, i as nat),
            p == pow256(i as nat),
            acc < p,
            p <= pow256(i as nat),
            i <= 8 ==> p <= 0x1_0000_0000_0000_0000,
            p == pow256(i as nat),
        decreases n - i,
    {
        proof {
            lemma_le_uint_bound(d@, start as int, (i + 1) as nat);
            assert(pow256((i + 1) as nat) == 256 * pow256(i as nat));
            assert(i < 8);
            lemma_pow256_small(i as nat);
            lemma_pow256_small((i + 1) as nat);
        }
        let x = d[start + i] as u128;
        acc = acc + x * p;
        p = p * 256;
        i = i + 1;
    }
    (acc, p)
}


/// The runs of a runlist, or `None` where [`runlist`] is `None`.
pub fn try_decode_runlist(data: &[u8]) -> (r: Option<Vec<ClusterRun>>)
    ensures
        match r {
            Some(v) => runlist(data@) == Some(runs_view(v@)),
            None => runlist(data@) is None,
        },
{
    let ghost d = data@;
    let mut runs: Vec<ClusterRun> = Vec::new();
    let mut cursor: usize = 0;
    let mut current_lcn: i64 = 0;
    while cursor < data.len()
        invariant
            d == data@,
            cursor <= d.len(),
            runlist(d) == match runlist_from(d, cursor as int, current_lcn as int) {
                Some(rest) => Some(runs_view(runs@) + rest),
                None => None::<Seq<(i64, u64)>>,
            },
        decreases d.len() - cursor,
    {
        let header = data[cursor];
        if header == 0 {
            assert(runs_view(runs@) + Seq::<(i64, u64)>::empty() =~= runs_view(runs@));
            return Some(runs);
        }
        let count_len = (header % 16) as usize;
        let offset_len = (header / 16) as usize;
        let start = cursor + 1;
        if count_len + offset_len > data.len() - start {
            assert(runs_view(runs@) + Seq::<(i64, u64)>::empty() =~= runs_view(runs@));
            return Some(runs);
        }
        if count_len > 8 || offset_len > 8 {
            return None;
        }
        let (count_val, _) = read_le_uint(data, start, count_len);
        let mut next_lcn: i64 = current_lcn;
        if offset_len > 0 {
            let (v, p) = read_le_uint(data, start + count_len, offset_len);
            if offset_len == 8 && v >= p / 2 {
                proof {
                    lemma_pow256_small(8);
                }
                return None;
            }
            let off: i128 = if v >= p / 2 {
                v as i128 - p as i128
            } else {
                v as i128
            };
            let nl: i128 = current_lcn as i128 + off;
            if nl < i64::MIN as i128 || nl > i64::MAX as i128 {
                return None;
            }
            next_lcn = nl as i64;
        }
        proof {
            lemma_le_uint_bound(d, start as int, count_len as nat);
            lemma_pow256_small(count_len as nat);
        }
        let ghost prev_runs = runs_view(runs@);
        runs.push(ClusterRun { start_lcn: next_lcn, cluster_count: count_val as u64 });
        proof {
            assert(runs_view(runs@) =~= prev_runs.push((next_lcn, count_val as u64)));
            match runlist_from(d, (start + count_len + offset_len) as int, next_lcn as int) {
                Some(rest) => {
                    assert(prev_runs + (seq![(next_lcn, count_val as u64)] + rest) =~= runs_view(
                        runs@,
                    ) + rest);
                },
                None => {},
            }
        }
        cursor = start + count_len + offset_len;
        current_lcn = next_lcn;
    }
    proof {
        assert(runlist_from(d, cursor as int, current_lcn as int) == Some(Seq::<(i64, u64)>::empty()));
        assert(runs_view(runs@) + Seq::<(i64, u64)>::empty() =~= runs_view(runs@));
    }
    Some(runs)
}

/// Whether the runlist decodes (see [`runlist`]).
pub fn runlist_decodes(data: &[u8]) -> (b: bool)
    ensures
        b == runlist(data@) is Some,
{
    try_decode_runlist(data).is_some()
}

/// Decodes the data runs of a non-resident attribute: each run's start cluster
/// (relative offsets accumulated) and cluster count, up to a zero header or a header
/// whose fields run past the data.
pub fn decode_runlist(data: &[u8]) -> (r: Vec<ClusterRun>)
    requires
        runlist(data@) is Some,
    ensures
        runlist(data@) == Some(runs_view(r@)),
{
    match try_decode_runlist(data) {
        Some(v) => v,
        None => Vec::new(),
    }
}


/// Mathematical model of an [`MftNode`].
pub struct MftNodeView {
    pub entry: u64,
    pub sequence: u16,
    pub parent_entry: u64,
    pub parent_sequence: u16,
    pub name: Seq<char>,
    pub is_dir: bool,
    pub si_created: i64,
    pub si_modified: i64,
    pub fn_created: i64,
    pub fn_modified: i64,
}

impl View for MftNode {
    type V = MftNodeView;

    open spec fn view(&self) -> MftNodeView {
        MftNodeView {
            entry: self.entry,
            sequence: self.sequence,
            parent_entry: self.parent_entry,
            parent_sequence: self.parent_sequence,
            name: self.name@,
            is_dir: self.is_dir,
            si_created: self.si_created,
            si_modified: self.si_modified,
            fn_created: self.fn_created,
            fn_modified: self.fn_modified,
        }
    }
}

/// What the attribute walk of a record has gathered: the $STANDARD_INFORMATION times
/// and the chosen $FILE_NAME (name, parent, times and namespace).
pub struct MftScan {
    pub si_created: i64,
    pub si_modified: i64,
    pub name: Seq<char>,
    pub parent: u64,
    pub parent_seq: u16,
    pub fn_created: i64,
    pub fn_modified: i64,
    pub ns: u8,
}

/// The walk's state before the first attribute.
pub open spec fn mft_scan_start() -> MftScan {
    MftScan {
        si_created: 0,
        si_modified: 0,
        name: seq![],
        parent: 0,
        parent_seq: 0,
        fn_created: 0,
        fn_modified: 0,
        ns: 255,
    }
}

/// Whether a $FILE_NAME of namespace `ns` replaces the one chosen so far (of namespace
/// `cur`): Win32 (1) and Win32+DOS (3) names always do, POSIX (0) names unless a
/// POSIX name is chosen, DOS (2) names only over unknown namespaces, others only
/// when no name is chosen.
pub open spec fn name_preferred(ns: u8, cur: u8, cur_empty: bool) -> bool {
    if ns == 1 || ns == 3 {
        true
    } else if ns == 0 {
        cur > 0
    } else if ns == 2 {
        cur > 2
    } else {
        cur_empty
    }
}

/// The walk's state after the resident attribute at `off`.
pub open spec fn attr_step(rec: Seq<u8>, off: int, st: MftScan) -> MftScan {
    let t = le_u32(rec, off);
    let resident = rec[off + 8] == 0;
    if t == 0x10 && resident {
        if off + 22 <= rec.len() {
            let vs = off + le_u16(rec, off + 20);
            if vs + 32 <= rec.len() {
                MftScan { si_created: le_i64(rec, vs), si_modified: le_i64(rec, vs + 8), ..st }
            } else {
                st
            }
        } else {
            st
        }
    } else if t == 0x30 && resident && off + 22 <= rec.len() {
        let vs = off + le_u16(rec, off + 20);
        if vs + 66 <= rec.len() {
            let name_len = rec[vs + 64] as int;
            let ns = rec[vs + 65];
            if vs + 66 + name_len * 2 <= rec.len() {
                let name = decode_utf16(utf16_units(rec.subrange(vs + 66, vs + 66 + name_len * 2)));
                if name_preferred(ns, st.ns, st.name.len() == 0) || st.name.len() == 0 {
                    MftScan {
                        name,
                        parent: le_u48(rec, vs),
                        parent_seq: le_u16(rec, vs + 6),
                        fn_created: le_i64(rec, vs + 8),
                        fn_modified: le_i64(rec, vs + 16),
                        ns,
                        ..st
                    }
                } else {
                    st
                }
            } else {
                st
            }
        } else {
            st
        }
    } else {
        st
    }
}

/// The attribute walk from `off`: it ends at the end marker 0xFFFFFFFF, at an
/// attribute of length 0 or running past the record, or when no attribute header
/// fits. `None` when an attribute's header is cut short by the record's end.
pub open spec fn mft_scan(rec: Seq<u8>, off: int, st: MftScan) -> Option<MftScan>
    decreases rec.len() - off,
{
    if off < 0 || off + 8 > rec.len() || le_u32(rec, off) == 0xFFFF_FFFF {
        Some(st)
    } else {
        let len = le_u32(rec, off + 4) as int;
        if len == 0 || off + len > rec.len() {
            Some(st)
        } else if off + 8 >= rec.len() {
            None
        } else {
            mft_scan(rec, off + len, attr_step(rec, off, st))
        }
    }
}

/// Whether `parse_mft_record` can read `rec` without running past it.
pub open spec fn mft_record_readable(rec: Seq<u8>) -> bool {
    rec.len() < 48 || !has_file_magic(rec) || mft_scan(rec, le_u16(rec, 20) as int, mft_scan_start()) is Some
}

/// The entry that a record describes: `None` when the record is shorter than 48 bytes,
/// not signed "FILE", or has no (non-empty) file name.
pub open spec fn mft_node_of(rec: Seq<u8>, entry: u64) -> Option<MftNodeView> {
    if rec.len() < 48 || !has_file_magic(rec) {
        None
    } else {
        match mft_scan(rec, le_u16(rec, 20) as int, mft_scan_start()) {
            Some(st) => if st.name.len() == 0 {
                None
            } else {
                Some(
                    MftNodeView {
                        entry,
                        sequence: le_u16(rec, 16),
                        parent_entry: st.parent,
                        parent_sequence: st.parent_seq,
                        name: st.name,
                        is_dir: le_u16(rec, 22) & 0x02 != 0,
                        si_created: st.si_created,
                        si_modified: st.si_modified,
                        fn_created: st.fn_created,
                        fn_modified: st.fn_modified,
                    },
                )
            },
            None => None,
        }
    }
}

proof fn lemma_decode_utf16_empty(u: Seq<u16>)
    ensures
        (decode_utf16(u).len() == 0) == (u.len() == 0),
{
    if u.len() > 0 {
        assert(decode_utf16(u).len() > 0);
    }
}

/// Walks the attributes of a record; `Err` where the walk would run past the record.
fn scan_mft_attributes(record: &[u8], start: usize) -> (r: Result<
    (i64, i64, String, bool, u64, u16, i64, i64, u8),
    (),
>)
    ensures
        match r {
            Ok((si_c, si_m, name, empty, parent, pseq, fn_c, fn_m, ns)) => mft_scan(
                record@,
                start as int,
                mft_scan_start(),
            ) == Some(
                MftScan {
                    si_created: si_c,
                    si_modified: si_m,
                    name: name@,
                    parent,
                    parent_seq: pseq,
                    fn_created: fn_c,
                    fn_modified: fn_m,
                    ns,
                },
            ) && empty == (name@.len() == 0),
            Err(_) => mft_scan(record@, start as int, mft_scan_start()) is None,
        },
{
    let ghost rec = record@;
    let len = record.len();
    let mut attr_offset = start;
    let mut si_created: i64 = 0;
    let mut si_modified: i64 = 0;
    let mut fn_name = String::new();
    let mut name_empty = true;
    let mut fn_parent: u64 = 0;
    let mut fn_parent_seq: u16 = 0;
    let mut fn_created: i64 = 0;
    let mut fn_modified: i64 = 0;
    let mut preferred_ns: u8 = 255;
    while attr_offset <= len && 8 <= len - attr_offset
        invariant
            rec == record@,
            len == rec.len(),
            name_empty == (fn_name@.len() == 0),
            mft_scan(rec, start as int, mft_scan_start()) == mft_scan(
                rec,
                attr_offset as int,
                MftScan {
                    si_created,
                    si_modified,
                    name: fn_name@,
                    parent: fn_parent,
                    parent_seq: fn_parent_seq,
                    fn_created,
                    fn_modified,
                    ns: preferred_ns,
                },
            ),
        decreases len - attr_offset,
    {
        let ghost st = MftScan {
            si_created,
            si_modified,
            name: fn_name@,
            parent: fn_parent,
            parent_seq: fn_parent_seq,
            fn_created,
            fn_modified,
            ns: preferred_ns,
        };
        let attr_type = read_u32(record, attr_offset);
        if attr_type == 0xFFFF_FFFF {
            return Ok((si_created, si_modified, fn_name, name_empty, fn_parent, fn_parent_seq, fn_created, fn_modified, preferred_ns));
        }
        let attr_len = read_u32(record, attr_offset + 4) as usize;
        if attr_len == 0 || attr_len > len - attr_offset {
            return Ok((si_created, si_modified, fn_name, name_empty, fn_parent, fn_parent_seq, fn_created, fn_modified, preferred_ns));
        }
        if attr_offset + 8 >= len {
            return Err(());
        }
        let non_resident = record[attr_offset + 8];
        if attr_type == 0x10 && non_resident == 0 {
            if 22 <= len - attr_offset {
                let val_offset = read_u16(record, attr_offset + 20) as usize;
                if val_offset <= len - attr_offset && 32 <= len - attr_offset - val_offset {
                    let val_start = attr_offset + val_offset;
                    si_created = read_i64(record, val_start);
                    si_modified = read_i64(record, val_start + 8);
                }
            }
        } else if attr_type == 0x30 && non_resident == 0 && 22 <= len - attr_offset {
            let val_offset = read_u16(record, attr_offset + 20) as usize;
            if val_offset <= len - attr_offset && 66 <= len - attr_offset - val_offset {
                let val_start = attr_offset + val_offset;
                let name_len = record[val_start + 64] as usize;
                let namespace = record[val_start + 65];
                if name_len * 2 <= len - val_start - 66 {
                    let should_use = if namespace == 1 || namespace == 3 {
                        true
                    } else if namespace == 0 {
                        preferred_ns > 0
                    } else if namespace == 2 {
                        preferred_ns > 2
                    } else {
                        name_empty
                    };
                    if should_use || name_empty {
                        let decoded = decode_utf16_le(record, val_start + 66, name_len * 2);
                        proof {
                            lemma_decode_utf16_empty(
                                utf16_units(rec.subrange(val_start + 66, val_start + 66 + name_len * 2)),
                            );
                        }
                        fn_name = decoded;
                        name_empty = name_len == 0;
                        fn_parent = read_u48(record, val_start);
                        fn_parent_seq = read_u16(record, val_start + 6);
                        fn_created = read_i64(record, val_start + 8);
                        fn_modified = read_i64(record, val_start + 16);
                        preferred_ns = namespace;
                    }
                }
            }
        }
        proof {
            assert(attr_step(rec, attr_offset as int, st) == MftScan {
                si_created,
                si_modified,
                name: fn_name@,
                parent: fn_parent,
                parent_seq: fn_parent_seq,
                fn_created,
                fn_modified,
                ns: preferred_ns,
            });
        }
        attr_offset = attr_offset + attr_len;
    }
    Ok((si_created, si_modified, fn_name, name_empty, fn_parent, fn_parent_seq, fn_created, fn_modified, preferred_ns))
}

/// Whether `parse_mft_record` can read the record (see [`mft_record_readable`]).
pub fn mft_record_is_readable(record: &[u8]) -> (b: bool)
    ensures
        b == mft_record_readable(record@),
{
    if record.len() < 48 || !(record[0] == 0x46 && record[1] == 0x49 && record[2] == 0x4C
        && record[3] == 0x45) {
        return true;
    }
    let start = read_u16(record, 20) as usize;
    scan_mft_attributes(record, start).is_ok()
}

/// Parses a (fixed-up) master file table record: its sequence number and directory
/// flag, the $STANDARD_INFORMATION creation and modification times, and the preferred
/// $FILE_NAME (name, parent reference and times). `None` for records that are too
/// short, unsigned, or without a file name.
pub fn parse_mft_record(record: &[u8], entry_idx: u64) -> (r: Option<MftNode>)
    requires
        mft_record_readable(record@),
    ensures
        match r {
            Some(node) => mft_node_of(record@, entry_idx) == Some(node@),
            None => mft_node_of(record@, entry_idx) is None,
        },
{
    if record.len() < 48 || !(record[0] == 0x46 && record[1] == 0x49 && record[2] == 0x4C
        && record[3] == 0x45) {
        return None;
    }
    let seq = read_u16(record, 16);
    let flags = read_u16(record, 22);
    let is_dir = flags & 0x02 != 0;
    let start = read_u16(record, 20) as usize;
    match scan_mft_attributes(record, start) {
        Ok((si_created, si_modified, name, empty, parent, parent_seq, fn_created, fn_modified, _)) => {
            if empty {
                return None;
            }
            Some(
                MftNode {
                    entry: entry_idx,
                    sequence: seq,
                    parent_entry: parent,
                    parent_sequence: parent_seq,
                    name,
                    is_dir,
                    si_created,
                    si_modified,
                    fn_created,
                    fn_modified,
                },
            )
        },
        Err(_) => None,
    }
}


/// Search of the attributes from `off` for the non-resident $DATA attribute:
/// `Some(Some(s))` when its runlist starts at `s` within the record, `Some(None)` when
/// the walk ends without one, `None` when an attribute header is cut short by the
/// record's end.
pub open spec fn data_runs_search(rec: Seq<u8>, off: int) -> Option<Option<int>>
    decreases rec.len() - off,
{
    if off < 0 || off + 8 > rec.len() || le_u32(rec, off) == 0xFFFF_FFFF {
        Some(None)
    } else {
        let len = le_u32(rec, off + 4) as int;
        if len == 0 || off + len > rec.len() {
            Some(None)
        } else if off + 8 >= rec.len() {
            None
        } else if le_u32(rec, off) == 0x80 && rec[off + 8] == 1 {
            if off + 34 > rec.len() {
                None
            } else if off + le_u16(rec, off + 32) < rec.len() {
                Some(Some(off + le_u16(rec, off + 32)))
            } else {
                data_runs_search(rec, off + len)
            }
        } else {
            data_runs_search(rec, off + len)
        }
    }
}

/// Whether `extract_mft_runs` can read the record and decode the runlist it finds.
pub open spec fn mft_runs_readable(rec: Seq<u8>) -> bool {
    rec.len() < 48 || !has_file_magic(rec) || match data_runs_search(rec, le_u16(rec, 20) as int) {
        Some(Some(s)) => runlist(rec.subrange(s, rec.len() as int)) is Some,
        Some(None) => true,
        None => false,
    }
}

/// The data runs of record zero: those of its non-resident $DATA attribute, or
/// `None` when the record is too short, unsigned, or has none.
pub open spec fn mft_runs_of(rec: Seq<u8>) -> Option<Seq<(i64, u64)>> {
    if rec.len() < 48 || !has_file_magic(rec) {
        None
    } else {
        match data_runs_search(rec, le_u16(rec, 20) as int) {
            Some(Some(s)) => runlist(rec.subrange(s, rec.len() as int)),
            _ => None,
        }
    }
}

/// Finds the runlist of the non-resident $DATA attribute; `Err` where the search
/// would run past the record.
fn find_data_runs(record: &[u8], start: usize) -> (r: Result<Option<usize>, ()>)
    ensures
        match r {
            Ok(Some(s)) => data_runs_search(record@, start as int) == Some(Some(s as int)) && s < record@.len(),
            Ok(None) => data_runs_search(record@, start as int) == Some(None::<int>),
            Err(_) => data_runs_search(record@, start as int) is None,
        },
{
    let len = record.len();
    let mut attr_offset = start;
    while attr_offset <= len && 8 <= len - attr_offset
        invariant
            len == record@.len(),
            data_runs_search(record@, start as int) == data_runs_search(record@, attr_offset as int),
        decreases len - attr_offset,
    {
        let attr_type = read_u32(record, attr_offset);
        if attr_type == 0xFFFF_FFFF {
            return Ok(None);
        }
        let attr_len = read_u32(record, attr_offset + 4) as usize;
        if attr_len == 0 || attr_len > len - attr_offset {
            return Ok(None);
        }
        if attr_offset + 8 >= len {
            return Err(());
        }
        let non_resident = record[attr_offset + 8];
        if attr_type == 0x80 && non_resident == 1 {
            if 34 > len - attr_offset {
                return Err(());
            }
            let runlist_offset = read_u16(record, attr_offset + 32) as usize;
            if runlist_offset < len - attr_offset {
                return Ok(Some(attr_offset + runlist_offset));
            }
        }
        attr_offset = attr_offset + attr_len;
    }
    Ok(None)
}

/// Whether `extract_mft_runs` can read the record (see [`mft_runs_readable`]).
pub fn mft_runs_are_readable(record_zero: &[u8]) -> (b: bool)
    ensures
        b == mft_runs_readable(record_zero@),
{
    if record_zero.len() < 48 || !(record_zero[0] == 0x46 && record_zero[1] == 0x49
        && record_zero[2] == 0x4C && record_zero[3] == 0x45) {
        return true;
    }
    let start = read_u16(record_zero, 20) as usize;
    match find_data_runs(record_zero, start) {
        Ok(Some(s)) => runlist_decodes(slice_subrange(record_zero, s, record_zero.len())),
        Ok(None) => true,
        Err(_) => false,
    }
}

/// The data runs of the master file table itself, read from its record zero.
pub fn extract_mft_runs(record_zero: &[u8]) -> (r: Option<Vec<ClusterRun>>)
    requires
        mft_runs_readable(record_zero@),
    ensures
        match r {
            Some(v) => mft_runs_of(record_zero@) == Some(runs_view(v@)),
            None => mft_runs_of(record_zero@) is None,
        },
{
    if record_zero.len() < 48 || !(record_zero[0] == 0x46 && record_zero[1] == 0x49
        && record_zero[2] == 0x4C && record_zero[3] == 0x45) {
        return None;
    }
    let start = read_u16(record_zero, 20) as usize;
    match find_data_runs(record_zero, start) {
        Ok(Some(s)) => Some(decode_runlist(slice_subrange(record_zero, s, record_zero.len()))),
        _ => None,
    }
}

/// Law: once the walk has chosen a POSIX (0) or Win32 (1) name, a DOS (namespace 2)
/// $FILE_NAME attribute never replaces it: the chosen name and namespace stay.
pub proof fn law_dos_name_never_replaces_long_name(rec: Seq<u8>, off: int, st: MftScan)
    requires
        st.name.len() > 0,
        st.ns == 0 || st.ns == 1,
        rec[off + le_u16(rec, off + 20) + 65] == 2,
    ensures
        attr_step(rec, off, st).name == st.name,
        attr_step(rec, off, st).ns == st.ns,
{
}

/// Law: a resident $FILE_NAME attribute of namespace Win32 (1) or Win32+DOS (3) whose
/// name lies within the record always becomes the chosen name, whatever was chosen
/// before (a DOS short name included).
pub proof fn law_long_name_always_chosen(rec: Seq<u8>, off: int, st: MftScan)
    requires
        le_u32(rec, off) == 0x30,
        rec[off + 8] == 0,
        off + 22 <= rec.len(),
        off + le_u16(rec, off + 20) + 66 + 2 * rec[off + le_u16(rec, off + 20) + 64] <= rec.len(),
        rec[off + le_u16(rec, off + 20) + 65] == 1 || rec[off + le_u16(rec, off + 20) + 65] == 3,
    ensures
        ({
            let vs = off + le_u16(rec, off + 20);
            let n = rec[vs + 64] as int;
            &&& attr_step(rec, off, st).name == decode_utf16(
                utf16_units(rec.subrange(vs + 66, vs + 66 + n * 2)),
            )
            &&& attr_step(rec, off, st).ns == rec[vs + 65]
            &&& attr_step(rec, off, st).parent == le_u48(rec, vs)
        }),
{
}

} // verus!
