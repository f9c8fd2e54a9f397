//! Carving of journal records left in unallocated clusters.
use std::collections::HashSet;
use vstd::prelude::*;
use vstd::slice::slice_subrange;
use vstd::string::StrSliceExecFns;

use crate::bytes::{le_u16, le_u32, read_u16, read_u32};
use crate::usn_record::{
    local_text_ok, parse_usn_record, usn_record_parses, usn_record_view, UsnRecord,
    UsnRecordView,
};

verus! {

broadcast use vstd::std_specs::hash::group_hash_axioms;

/// Whether `c` is a control character (general category Cc).
pub open spec fn is_control(c: char) -> bool {
    (c as u32) <= 0x1F || (0x7F <= (c as u32) && (c as u32) <= 0x9F)
}

/// Whether `c` is a control character (general category Cc).
pub fn is_control_char(c: char) -> (b: bool)
    ensures
        b == is_control(c),
{
    let x = c as u32;
    x <= 0x1F || (0x7F <= x && x <= 0x9F)
}

/// Smallest and largest plausible record lengths.
pub const MIN_CARVED_LEN: usize = 60;

pub const MAX_CARVED_LEN: usize = 1024;

/// Length field of the candidate record at `off`.
pub open spec fn carved_len(buf: Seq<u8>, off: int) -> int {
    le_u32(buf, off) as int
}

/// The bytes of the candidate record at `off`.
pub open spec fn carved_bytes(buf: Seq<u8>, off: int) -> Seq<u8> {
    buf.subrange(off, off + carved_len(buf, off))
}

/// Whether the bytes at `off` hold a version 2 or 3 record (minor version 0) of 60 to
/// 1024 bytes that lies within `buf` and parses.
pub open spec fn is_record_candidate(buf: Seq<u8>, off: int) -> bool {
    let major = le_u16(buf, off + 4);
    &&& major == 2 || major == 3
    &&& le_u16(buf, off + 6) == 0
    &&& MIN_CARVED_LEN <= carved_len(buf, off) <= MAX_CARVED_LEN
    &&& off + carved_len(buf, off) <= buf.len()
    &&& usn_record_parses(carved_bytes(buf, off))
}

/// Whether a parsed record is plausible: a reason with only known flags, a time between
/// 1981 and 2076 (FILETIME 1.2e17 to 1.5e17, exclusive), and a non-empty name without
/// control characters.
pub open spec fn is_plausible(v: UsnRecordView) -> bool {
    &&& v.reason != 0
    &&& v.reason & !0x81FF_FFFFu32 == 0
    &&& 120_000_000_000_000_000 < v.timestamp_raw < 150_000_000_000_000_000
    &&& v.file_name.len() > 0
    &&& forall|i: int| 0 <= i < v.file_name.len() ==> !is_control(#[trigger] v.file_name[i])
}

/// Whether a plausible record stands at `off` (its fields do not depend on the id or
/// the local time text given to the parse).
pub open spec fn is_carved_at(buf: Seq<u8>, off: int) -> bool {
    is_record_candidate(buf, off) && is_plausible(usn_record_view(carved_bytes(buf, off), 0, seq![]))
}

/// Offsets of the plausible records from `off` on that are not already known: the
/// scan moves in steps of eight bytes and skips over each plausible record.
pub open spec fn carve_offsets(buf: Seq<u8>, off: int, known: Set<i64>) -> Seq<int>
    decreases buf.len() - off,
{
    if off < 0 || off + MIN_CARVED_LEN > buf.len() {
        seq![]
    } else if off % 8 != 0 {
        carve_offsets(buf, off + 8 - off % 8, known)
    } else if is_carved_at(buf, off) {
        let usn = usn_record_view(carved_bytes(buf, off), 0, seq![]).usn;
        (if known.contains(usn) {
            seq![]
        } else {
            seq![off]
        }) + carve_offsets(buf, off + carved_len(buf, off), known)
    } else {
        carve_offsets(buf, off + 8, known)
    }
}

/// The `i`-th carved record, given the local time text `stamp` of its timestamp.
pub open spec fn carved_record(buf: Seq<u8>, off: int, id: usize, stamp: Seq<char>) -> UsnRecordView {
    UsnRecordView { is_ghost: true, ..usn_record_view(carved_bytes(buf, off), id, stamp) }
}

proof fn lemma_view_independent(b: Seq<u8>, id: usize, stamp: Seq<char>)
    requires
        usn_record_parses(b),
    ensures
        usn_record_view(b, id, stamp).reason == usn_record_view(b, 0, seq![]).reason,
        usn_record_view(b, id, stamp).timestamp_raw == usn_record_view(b, 0, seq![]).timestamp_raw,
        usn_record_view(b, id, stamp).file_name == usn_record_view(b, 0, seq![]).file_name,
        usn_record_view(b, id, stamp).usn == usn_record_view(b, 0, seq![]).usn,
{
}

/// Whether the characters of `s` include no control character.
fn no_control_chars(s: &str) -> (b: bool)
    ensures
        b == forall|i: int| 0 <= i < s@.len() ==> !is_control(#[trigger] s@[i]),
{
    let mut ok = true;
    for c in it: s.chars()
        invariant
            it.seq() == s@,
            ok == forall|i: int| 0 <= i < it.index() ==> !is_control(#[trigger] it.seq()[i]),
    {
        if is_control_char(c) {
            ok = false;
        }
    }
    ok
}

/// Scans a raw buffer for journal records that are plausible and not among the known
/// update numbers; they are returned marked as ghosts, numbered from `base_id` on.
#[verifier::rlimit(40)]
pub fn carve_usn_records_from_buffer(buf: &[u8], base_id: usize, known_usns: &HashSet<i64>) -> (r: Vec<UsnRecord>)
    requires
        base_id + carve_offsets(buf@, 0, known_usns@).len() <= usize::MAX,
    ensures
        carved_from(buf@, base_id as int, known_usns@, r@),
        r@.len() == carve_offsets(buf@, 0, known_usns@).len(),
        forall|i: int|
            0 <= i < r@.len() ==> (#[trigger] r@[i])@ == carved_record(
                buf@,
                carve_offsets(buf@, 0, known_usns@)[i],
                (base_id + i) as usize,
                r@[i].timestamp_formatted@,
            ) && local_text_ok(r@[i].timestamp_raw, r@[i].timestamp_formatted@),
{
    let ghost b = buf@;
    let ghost all = carve_offsets(b, 0, known_usns@);
    let len = buf.len();
    let mut carved: Vec<UsnRecord> = Vec::new();
    let mut offset: usize = 0;
    let mut current_id = base_id;
    let ghost mut offs: Seq<int> = seq![];
    assert(all =~= offs + carve_offsets(b, 0, known_usns@));
    while offset <= len && MIN_CARVED_LEN <= len - offset
        invariant
            b == buf@,
            len == b.len(),
            all == carve_offsets(b, 0, known_usns@),
            base_id + all.len() <= usize::MAX,
            current_id == base_id + carved@.len(),
            offs.len() == carved@.len(),
            all == offs + carve_offsets(b, offset as int, known_usns@),
            forall|i: int|
                0 <= i < carved@.len() ==> (#[trigger] carved@[i])@ == carved_record(
                    b,
                    offs[i],
                    (base_id + i) as usize,
                    carved@[i].timestamp_formatted@,
                ) && local_text_ok(carved@[i].timestamp_raw, carved@[i].timestamp_formatted@),
        decreases len - offset,
    {
        if offset % 8 != 0 {
            let next = offset + 8 - offset % 8;
            assert(carve_offsets(b, offset as int, known_usns@) == carve_offsets(b, next as int, known_usns@));
            if next > len || MIN_CARVED_LEN > len - next {
                assert(carve_offsets(b, next as int, known_usns@) == Seq::<int>::empty());
                assert(carve_offsets(b, len as int, known_usns@) == Seq::<int>::empty());
                offset = len;
                continue;
            }
            offset = next;
        }
        let ghost here = offset as int;
        let ghost rest = carve_offsets(b, here, known_usns@);
        assert(all == offs + rest);
        let record_len = read_u32(buf, offset) as usize;
        let major = read_u16(buf, offset + 4);
        let minor = read_u16(buf, offset + 6);
        let mut advanced = false;
        if (major == 2 || major == 3) && minor == 0 && MIN_CARVED_LEN <= record_len
            && record_len <= MAX_CARVED_LEN && record_len <= len - offset {
            let sub = slice_subrange(buf, offset, offset + record_len);
            assert(sub@ == carved_bytes(b, offset as int));
            match parse_usn_record(sub, current_id) {
                Some((mut record, _)) => {
                    proof {
                        lemma_view_independent(sub@, current_id, record.timestamp_formatted@);
                    }
                    let valid_reason = record.reason != 0 && record.reason & !0x81FF_FFFFu32 == 0;
                    let valid_time = record.timestamp_raw > 120_000_000_000_000_000
                        && record.timestamp_raw < 150_000_000_000_000_000;
                    let valid_name = record.file_name.as_str().unicode_len() > 0
                        && no_control_chars(record.file_name.as_str());
                    if valid_reason && valid_time && valid_name {
                        assert(is_carved_at(b, offset as int));
                        assert(rest == (if known_usns@.contains(record.usn) {
                            Seq::<int>::empty()
                        } else {
                            seq![here]
                        }) + carve_offsets(b, here + record_len, known_usns@));
                        if !known_usns.contains(&record.usn) {
                            record.is_ghost = true;
                            proof {
                                offs = offs.push(offset as int);
                                assert(all =~= offs + carve_offsets(b, here + record_len, known_usns@));
                            }
                            carved.push(record);
                            current_id = current_id + 1;
                        } else {
                            assert(all =~= offs + carve_offsets(b, here + record_len, known_usns@));
                        }
                        offset = offset + record_len;
                        advanced = true;
                    }
                },
                None => {},
            }
        }
        if !advanced {
            assert(!is_carved_at(b, here));
            assert(rest == carve_offsets(b, here + 8, known_usns@));
            offset = offset + 8;
        }
    }
    assert(carve_offsets(b, offset as int, known_usns@) == Seq::<int>::empty());
    assert(all =~= offs);
    carved
}

proof fn lemma_carve_offsets_new(buf: Seq<u8>, off: int, known: Set<i64>, k: int)
    requires
        0 <= k < carve_offsets(buf, off, known).len(),
    ensures
        ({
            let o = carve_offsets(buf, off, known)[k];
            &&& is_carved_at(buf, o)
            &&& !known.contains(usn_record_view(carved_bytes(buf, o), 0, seq![]).usn)
        }),
    decreases buf.len() - off,
{
    if off < 0 || off + MIN_CARVED_LEN > buf.len() {
    } else if off % 8 != 0 {
        lemma_carve_offsets_new(buf, off + 8 - off % 8, known, k);
    } else if is_carved_at(buf, off) {
        let usn = usn_record_view(carved_bytes(buf, off), 0, seq![]).usn;
        let head: Seq<int> = if known.contains(usn) {
            seq![]
        } else {
            seq![off]
        };
        let rest = carve_offsets(buf, off + carved_len(buf, off), known);
        assert(carve_offsets(buf, off, known) == head + rest);
        if k >= head.len() {
            lemma_carve_offsets_new(buf, off + carved_len(buf, off), known, k - head.len());
            assert(carve_offsets(buf, off, known)[k] == rest[k - head.len()]);
        }
    } else {
        lemma_carve_offsets_new(buf, off + 8, known, k);
    }
}

/// Law: every record carved from unallocated space is marked as a ghost, is
/// plausible, and carries an update number that was not already known.
pub proof fn law_carved_records_are_new_ghosts(
    buf: Seq<u8>,
    known: Set<i64>,
    k: int,
    id: usize,
    stamp: Seq<char>,
)
    requires
        0 <= k < carve_offsets(buf, 0, known).len(),
    ensures
        ({
            let v = carved_record(buf, carve_offsets(buf, 0, known)[k], id, stamp);
            &&& v.is_ghost
            &&& is_plausible(v)
            &&& !known.contains(v.usn)
        }),
{
    let o = carve_offsets(buf, 0, known)[k];
    lemma_carve_offsets_new(buf, 0, known, k);
    lemma_view_independent(carved_bytes(buf, o), id, stamp);
}

/// The update number of the candidate record at `off`.
pub open spec fn carved_usn(buf: Seq<u8>, off: int) -> i64 {
    usn_record_view(carved_bytes(buf, off), 0, seq![]).usn
}

/// The offsets of `offs` whose record carries an update number outside `known`, in order.
pub open spec fn unknown_offsets(buf: Seq<u8>, offs: Seq<int>, known: Set<i64>) -> Seq<int>
    decreases offs.len(),
{
    if offs.len() == 0 {
        seq![]
    } else {
        (if known.contains(carved_usn(buf, offs[0])) {
            seq![]
        } else {
            seq![offs[0]]
        }) + unknown_offsets(buf, offs.drop_first(), known)
    }
}

/// Law: the known update numbers only filter the carve. The scan visits the same
/// offsets whatever is known, and keeps, in order, those whose record is not known.
pub proof fn law_known_usns_only_filter(buf: Seq<u8>, off: int, known: Set<i64>)
    ensures
        carve_offsets(buf, off, known) == unknown_offsets(
            buf,
            carve_offsets(buf, off, Set::empty()),
            known,
        ),
    decreases buf.len() - off,
{
    if off < 0 || off + MIN_CARVED_LEN > buf.len() {
    } else if off % 8 != 0 {
        law_known_usns_only_filter(buf, off + 8 - off % 8, known);
    } else if is_carved_at(buf, off) {
        let next = off + carved_len(buf, off);
        law_known_usns_only_filter(buf, next, known);
        let all = carve_offsets(buf, off, Set::empty());
        let rest = carve_offsets(buf, next, Set::empty());
        assert(all == seq![off] + rest);
        assert(all.drop_first() =~= rest);
        assert(all[0] == off);
    } else {
        law_known_usns_only_filter(buf, off + 8, known);
    }
}

/// What a call of [`carve_usn_records_from_buffer`] on `buf`, numbering from
/// `base_id` and knowing `known`, returns: one record for each carved offset, each the
/// ghost record read there (with its own local time text).
pub open spec fn carved_from(buf: Seq<u8>, base_id: int, known: Set<i64>, r: Seq<UsnRecord>) -> bool {
    &&& r.len() == carve_offsets(buf, 0, known).len()
    &&& forall|i: int|
        0 <= i < r.len() ==> (#[trigger] r[i])@ == carved_record(
            buf,
            carve_offsets(buf, 0, known)[i],
            (base_id + i) as usize,
            r[i].timestamp_formatted@,
        )
}

/// A record with its number and local time text set aside.
pub open spec fn strip(v: UsnRecordView) -> UsnRecordView {
    UsnRecordView { id: 0, timestamp_formatted: seq![], ..v }
}

/// The records of `r`, numbers and local time texts set aside.
pub open spec fn stripped(r: Seq<UsnRecord>) -> Seq<UsnRecordView> {
    r.map_values(|x: UsnRecord| strip(x@))
}

/// The records of `vs` whose update number is not in `known`, in order.
pub open spec fn without_known(vs: Seq<UsnRecordView>, known: Set<i64>) -> Seq<UsnRecordView>
    decreases vs.len(),
{
    if vs.len() == 0 {
        seq![]
    } else {
        (if known.contains(vs[0].usn) {
            seq![]
        } else {
            seq![vs[0]]
        }) + without_known(vs.drop_first(), known)
    }
}

/// The stripped ghost record read at `off`.
pub open spec fn carved_strip(buf: Seq<u8>, off: int) -> UsnRecordView {
    strip(carved_record(buf, off, 0, seq![]))
}

proof fn lemma_carved_strip(buf: Seq<u8>, off: int, id: usize, stamp: Seq<char>)
    ensures
        strip(carved_record(buf, off, id, stamp)) == carved_strip(buf, off),
        carved_strip(buf, off).usn == carved_usn(buf, off),
{
}

proof fn lemma_unknown_offsets_map(buf: Seq<u8>, offs: Seq<int>, known: Set<i64>)
    ensures
        unknown_offsets(buf, offs, known).map_values(|o: int| carved_strip(buf, o))
            == without_known(offs.map_values(|o: int| carved_strip(buf, o)), known),
    decreases offs.len(),
{
    let f = |o: int| carved_strip(buf, o);
    if offs.len() > 0 {
        lemma_unknown_offsets_map(buf, offs.drop_first(), known);
        lemma_carved_strip(buf, offs[0], 0, seq![]);
        let m = offs.map_values(f);
        assert(m.drop_first() =~= offs.drop_first().map_values(f));
        assert(m[0] == carved_strip(buf, offs[0]));
        let head: Seq<int> = if known.contains(carved_usn(buf, offs[0])) {
            seq![]
        } else {
            seq![offs[0]]
        };
        let rest = unknown_offsets(buf, offs.drop_first(), known);
        assert((head + rest).map_values(f) =~= head.map_values(f) + rest.map_values(f));
    } else {
        assert(unknown_offsets(buf, offs, known).map_values(f) =~= Seq::<UsnRecordView>::empty());
    }
}

proof fn lemma_stripped_carve(buf: Seq<u8>, base_id: int, known: Set<i64>, r: Seq<UsnRecord>)
    requires
        carved_from(buf, base_id, known, r),
    ensures
        stripped(r) == carve_offsets(buf, 0, known).map_values(|o: int| carved_strip(buf, o)),
{
    let offs = carve_offsets(buf, 0, known);
    assert forall|i: int| 0 <= i < r.len() implies #[trigger] stripped(r)[i] == carved_strip(
        buf,
        offs[i],
    ) by {
        lemma_carved_strip(buf, offs[i], (base_id + i) as usize, r[i].timestamp_formatted@);
    }
    assert(stripped(r) =~= offs.map_values(|o: int| carved_strip(buf, o)));
}

/// Law: whatever the numbering, the records carved knowing `known` are, numbers and
/// local time texts aside, the records carved knowing nothing with those whose update
/// number is in `known` removed, in the same order.
pub proof fn law_known_set_filters_records(
    buf: Seq<u8>,
    base0: int,
    base1: int,
    known: Set<i64>,
    r0: Seq<UsnRecord>,
    r1: Seq<UsnRecord>,
)
    requires
        carved_from(buf, base0, Set::empty(), r0),
        carved_from(buf, base1, known, r1),
    ensures
        stripped(r1) == without_known(stripped(r0), known),
{
    lemma_stripped_carve(buf, base0, Set::empty(), r0);
    lemma_stripped_carve(buf, base1, known, r1);
    law_known_usns_only_filter(buf, 0, known);
    lemma_unknown_offsets_map(buf, carve_offsets(buf, 0, Set::empty()), known);
}

/// Law: a carve that knows every update number of `scanned` returns none of them,
/// and every record it returns is a ghost.
pub proof fn law_carve_skips_scanned_usns(
    buf: Seq<u8>,
    base_id: int,
    known: Set<i64>,
    scanned: Set<i64>,
    r: Seq<UsnRecord>,
)
    requires
        carved_from(buf, base_id, known, r),
        scanned.subset_of(known),
    ensures
        forall|i: int| 0 <= i < r.len() ==> (#[trigger] r[i]).is_ghost && !scanned.contains(r[i].usn),
{
    assert forall|i: int| 0 <= i < r.len() implies (#[trigger] r[i]).is_ghost && !scanned.contains(
        r[i].usn,
    ) by {
        law_carved_records_are_new_ghosts(buf, known, i, (base_id + i) as usize, r[i].timestamp_formatted@);
    }
}

/// Law: the control characters that disqualify a carved name are exactly the C0
/// controls U+0000..U+001F and DEL with the C1 controls U+007F..U+009F (Unicode
/// category Cc); printable ASCII and every character from U+00A0 on, accented letters
/// included, are not control characters.
pub proof fn law_control_chars_are_c0_and_c1(c: char)
    ensures
        is_control(c) <==> ((c as u32) < 0x20 || (0x7F <= (c as u32) && (c as u32) < 0xA0)),
        (0x20 <= (c as u32) < 0x7F || (c as u32) >= 0xA0) ==> !is_control(c),
{
}

/// Law: a parsed record with a known non-zero reason, a time between 1981 and 2076 and
/// a non-empty name made of printable characters (ASCII from U+0020 to U+007E, or any
/// character from U+00A0 on, such as 'é') is plausible, so a non-ASCII name never
/// keeps a record from being carved.
pub proof fn law_printable_names_are_plausible(v: UsnRecordView)
    requires
        v.reason != 0,
        v.reason & !0x81FF_FFFFu32 == 0,
        120_000_000_000_000_000 < v.timestamp_raw < 150_000_000_000_000_000,
        v.file_name.len() > 0,
        forall|i: int|
            0 <= i < v.file_name.len() ==> (0x20 <= (#[trigger] v.file_name[i] as u32) < 0x7F || (
            v.file_name[i] as u32) >= 0xA0),
    ensures
        is_plausible(v),
{
}

} // verus!
