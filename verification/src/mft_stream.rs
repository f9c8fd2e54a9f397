//! Streaming the master file table: where it lies, how much to read at a time, and
//! the entries that each buffer of records yields.
use std::collections::HashMap;
use vstd::prelude::*;
use vstd::slice::{slice_subrange, slice_to_vec};

use crate::mft::{
    apply_mft_fixup, extract_mft_runs, fixup_applied, fixup_sectors, fixup_valid, mft_node_of,
    mft_record_is_readable, mft_record_readable, mft_runs_are_readable, mft_runs_of, mft_runs_readable, parse_mft_record, runs_view, usa_offset,
    ClusterRun, MftNode, MftNodeView,
};

verus! {

broadcast use vstd::std_specs::hash::group_hash_axioms;

/// The runs of the table: those of record zero once fixed up, or else 8192 clusters
/// from the start cluster that the boot sector gives.
pub fn mft_runs_from_record_zero(record_zero: &[u8], mft_start_lcn: u64) -> (r: Vec<ClusterRun>)
    requires
        mft_runs_readable(fixed_record(record_zero@)),
    ensures
        match mft_runs_of(fixed_record(record_zero@)) {
            Some(runs) => runs_view(r@) == runs,
            None => runs_view(r@) == seq![(mft_start_lcn as i64, 8192u64)],
        },
{
    let mut fixed = slice_to_vec(record_zero);
    let _ = apply_mft_fixup(fixed.as_mut_slice());
    assert(fixed@ == fixed_record(record_zero@));
    match extract_mft_runs(fixed.as_slice()) {
        Some(runs) => runs,
        None => {
            let mut v: Vec<ClusterRun> = Vec::new();
            v.push(ClusterRun { start_lcn: mft_start_lcn as i64, cluster_count: 8192 });
            assert(runs_view(v@) =~= seq![(mft_start_lcn as i64, 8192u64)]);
            v
        },
    }
}

/// Whether the fixed-up record zero can be searched for its data runs.
pub fn record_zero_is_readable(record_zero: &[u8]) -> (b: bool)
    ensures
        b == mft_runs_readable(fixed_record(record_zero@)),
{
    let mut fixed = slice_to_vec(record_zero);
    let _ = apply_mft_fixup(fixed.as_mut_slice());
    mft_runs_are_readable(fixed.as_slice())
}

/// `x` rounded up to a multiple of 512.
pub open spec fn round_up_512(x: int) -> int {
    if x % 512 == 0 {
        x
    } else {
        x + (512 - x % 512)
    }
}

/// How much of a run to read next: the rest of the run, at most one buffer, and that
/// length rounded up to whole sectors.
pub fn mft_read_plan(run_bytes: u64, offset_in_run: u64, chunk_bytes: usize) -> (r: (usize, usize))
    requires
        offset_in_run < run_bytes,
        chunk_bytes + 512 <= usize::MAX,
    ensures
        r.0 == if run_bytes - offset_in_run < chunk_bytes {
            run_bytes - offset_in_run
        } else {
            chunk_bytes as int
        },
        r.1 == round_up_512(r.0 as int),
{
    let rest: u64 = run_bytes - offset_in_run;
    let to_read: usize = if rest < chunk_bytes as u64 {
        rest as usize
    } else {
        chunk_bytes
    };
    let rem = to_read % 512;
    let aligned = if rem == 0 {
        to_read
    } else {
        to_read + (512 - rem)
    };
    (to_read, aligned)
}

/// A record after its fixup, when the fixup holds.
pub open spec fn fixed_record(rec: Seq<u8>) -> Seq<u8> {
    if fixup_valid(rec) {
        fixup_applied(rec, usa_offset(rec), fixup_sectors(rec))
    } else {
        rec
    }
}

/// The entry that a streamed record yields: none when its fixup fails.
pub open spec fn streamed_node(rec: Seq<u8>, entry: u64) -> Option<MftNodeView> {
    if fixup_valid(rec) {
        mft_node_of(fixed_record(rec), entry)
    } else {
        None
    }
}

/// `nodes` with the entry that the record `rec`, numbered `entry`, yields.
pub open spec fn streamed_into(nodes: Map<u64, MftNodeView>, rec: Seq<u8>, entry: u64) -> Map<
    u64,
    MftNodeView,
> {
    match streamed_node(rec, entry) {
        Some(n) => nodes.insert(n.entry, n),
        None => nodes,
    }
}

/// Stores the entry that the record `rec`, numbered `entry`, yields (its fixup is
/// applied to a copy).
fn stream_record(rec: &[u8], entry: u64, nodes: &mut HashMap<u64, MftNode>)
    requires
        fixup_valid(rec@) ==> mft_record_readable(fixed_record(rec@)),
    ensures
        node_views(final(nodes)@) == streamed_into(node_views(old(nodes)@), rec@, entry),
{
    let mut buf = slice_to_vec(rec);
    let ok = apply_mft_fixup(buf.as_mut_slice());
    if ok {
        assert(buf@ == fixed_record(rec@));
        match parse_mft_record(buf.as_slice(), entry) {
            Some(node) => {
                let ghost before = node_views(nodes@);
                let ghost nv = node@;
                nodes.insert(node.entry, node);
                assert(node_views(nodes@) =~= before.insert(nv.entry, nv));
            },
            None => {},
        }
    }
}

/// The entries, the count of records seen and whether the count reached `max`, after
/// streaming the records of `rs` bytes from `cursor` up to `to_read`, numbered from
/// `total`.
pub open spec fn stream_chunk(
    chunk: Seq<u8>,
    cursor: int,
    to_read: int,
    rs: int,
    total: int,
    max: Option<usize>,
    nodes: Map<u64, MftNodeView>,
) -> (Map<u64, MftNodeView>, int, bool)
    decreases to_read - cursor,
{
    if rs <= 0 || cursor < 0 || cursor + rs > to_read {
        (nodes, total, false)
    } else {
        let nodes2 = streamed_into(nodes, chunk.subrange(cursor, cursor + rs), total as u64);
        if max matches Some(m) && total + 1 >= m {
            (nodes2, total + 1, true)
        } else {
            stream_chunk(chunk, cursor + rs, to_read, rs, total + 1, max, nodes2)
        }
    }
}

/// Every record that the stream walks, once fixed up, can be walked attribute by
/// attribute.
pub open spec fn chunk_readable(
    chunk: Seq<u8>,
    cursor: int,
    to_read: int,
    rs: int,
    total: int,
    max: Option<usize>,
) -> bool
    decreases to_read - cursor,
{
    if rs <= 0 || cursor < 0 || cursor + rs > to_read {
        true
    } else {
        let rec = chunk.subrange(cursor, cursor + rs);
        &&& (fixup_valid(rec) ==> mft_record_readable(fixed_record(rec)))
        &&& ((max matches Some(m) && total + 1 >= m) || chunk_readable(
            chunk,
            cursor + rs,
            to_read,
            rs,
            total + 1,
            max,
        ))
    }
}

/// The views of the entries of a map.
pub open spec fn node_views(m: Map<u64, MftNode>) -> Map<u64, MftNodeView> {
    m.map_values(|n: MftNode| n@)
}

proof fn lemma_stream_total_grows(
    chunk: Seq<u8>,
    cursor: int,
    to_read: int,
    rs: int,
    total: int,
    max: Option<usize>,
    nodes: Map<u64, MftNodeView>,
)
    ensures
        stream_chunk(chunk, cursor, to_read, rs, total, max, nodes).1 >= total,
    decreases to_read - cursor,
{
    if !(rs <= 0 || cursor < 0 || cursor + rs > to_read) {
        let nodes2 = streamed_into(nodes, chunk.subrange(cursor, cursor + rs), total as u64);
        lemma_stream_total_grows(chunk, cursor + rs, to_read, rs, total + 1, max, nodes2);
    }
}

/// Streams the records of `record_size` bytes held in `chunk[..to_read]`, numbering
/// them from `total`: each record whose fixup holds and that describes an entry is
/// stored under its entry number. Stops early once `max` records have been counted.
/// Returns the new count and whether it reached `max`.
pub fn stream_mft_chunk(
    chunk: &[u8],
    to_read: usize,
    record_size: usize,
    total: usize,
    max: Option<usize>,
    nodes: &mut HashMap<u64, MftNode>,
) -> (r: (usize, bool))
    requires
        to_read <= chunk@.len(),
        record_size > 0,
        chunk_readable(chunk@, 0, to_read as int, record_size as int, total as int, max),
        stream_chunk(
            chunk@,
            0,
            to_read as int,
            record_size as int,
            total as int,
            max,
            node_views(old(nodes)@),
        ).1 <= usize::MAX,
    ensures
        ({
            let s = stream_chunk(
                chunk@,
                0,
                to_read as int,
                record_size as int,
                total as int,
                max,
                node_views(old(nodes)@),
            );
            &&& node_views(final(nodes)@) == s.0
            &&& r.0 == s.1
            &&& r.1 == s.2
        }),
{
    let ghost goal = stream_chunk(
        chunk@,
        0,
        to_read as int,
        record_size as int,
        total as int,
        max,
        node_views(nodes@),
    );
    let mut cursor: usize = 0;
    let mut count: usize = total;
    while cursor <= to_read && to_read - cursor >= record_size
        invariant
            to_read <= chunk@.len(),
            record_size > 0,
            cursor <= to_read,
            chunk_readable(chunk@, cursor as int, to_read as int, record_size as int, count as int, max),
            goal == stream_chunk(
                chunk@,
                cursor as int,
                to_read as int,
                record_size as int,
                count as int,
                max,
                node_views(nodes@),
            ),
            goal.1 <= usize::MAX,
            goal == stream_chunk(
                chunk@,
                0,
                to_read as int,
                record_size as int,
                total as int,
                max,
                node_views(old(nodes)@),
            ),
        decreases to_read - cursor,
    {
        let rec = slice_subrange(chunk, cursor, cursor + record_size);
        let ghost recv = chunk@.subrange(cursor as int, cursor + record_size);
        let ghost before = node_views(nodes@);
        stream_record(rec, count as u64, nodes);
        proof {
            let nodes2 = streamed_into(before, recv, count as u64);
            assert(goal == if max matches Some(m) && count + 1 >= m {
                (nodes2, count + 1, true)
            } else {
                stream_chunk(
                    chunk@,
                    cursor + record_size,
                    to_read as int,
                    record_size as int,
                    count + 1,
                    max,
                    nodes2,
                )
            });
            lemma_stream_total_grows(
                chunk@,
                cursor + record_size,
                to_read as int,
                record_size as int,
                count + 1,
                max,
                nodes2,
            );
        }
        count = count + 1;
        cursor = cursor + record_size;
        match max {
            Some(m) => {
                if count >= m {
                    return (count, true);
                }
            },
            None => {},
        }
    }
    (count, false)
}

/// Whether every record that [`stream_mft_chunk`] would walk can be walked (see
/// [`chunk_readable`]); a record whose attribute walk leaves it cannot.
pub fn chunk_is_streamable(
    chunk: &[u8],
    to_read: usize,
    record_size: usize,
    total: usize,
    max: Option<usize>,
) -> (b: bool)
    requires
        to_read <= chunk@.len(),
        record_size > 0,
    ensures
        b == chunk_readable(chunk@, 0, to_read as int, record_size as int, total as int, max),
{
    let mut cursor: usize = 0;
    let mut count: u128 = total as u128;
    while cursor <= to_read && to_read - cursor >= record_size
        invariant
            to_read <= chunk@.len(),
            record_size > 0,
            cursor <= to_read,
            count <= total + cursor,
            chunk_readable(chunk@, 0, to_read as int, record_size as int, total as int, max)
                == chunk_readable(
                chunk@,
                cursor as int,
                to_read as int,
                record_size as int,
                count as int,
                max,
            ),
        decreases to_read - cursor,
    {
        let rec = slice_subrange(chunk, cursor, cursor + record_size);
        let mut buf = slice_to_vec(rec);
        let ok = apply_mft_fixup(buf.as_mut_slice());
        if ok {
            assert(buf@ == fixed_record(rec@));
            if !mft_record_is_readable(buf.as_slice()) {
                return false;
            }
        }
        count = count + 1;
        cursor = cursor + record_size;
        match max {
            Some(m) => {
                if count >= m as u128 {
                    return true;
                }
            },
            None => {},
        }
    }
    true
}

} // verus!
