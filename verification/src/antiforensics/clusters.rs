//! Time-ordered event clustering shared by the burst detectors, and the finding type.
use vstd::prelude::*;

use crate::usn_record::UsnRecord;

verus! {

/// A journal event reduced to its timestamp, its update sequence number and one flag.
pub type Event = (i64, i64, bool);

/// `s` with `e` placed after every event whose time is not later than its own.
pub open spec fn insert_by_time(s: Seq<Event>, e: Event) -> Seq<Event>
    decreases s.len(),
{
    if s.len() == 0 {
        seq![e]
    } else if s.last().0 <= e.0 {
        s.push(e)
    } else {
        insert_by_time(s.drop_last(), e).push(s.last())
    }
}

/// Stable sort of events by timestamp: events with equal times keep their order.
pub open spec fn sort_by_time(s: Seq<Event>) -> Seq<Event>
    decreases s.len(),
{
    if s.len() == 0 {
        s
    } else {
        insert_by_time(sort_by_time(s.drop_last()), s.last())
    }
}

/// Splits time-ordered events into windows: a window opens at an event and takes
/// every following event at most `w` ticks after the event that opened it.
pub open spec fn time_windows(s: Seq<Event>, w: int) -> Seq<Seq<Event>>
    decreases s.len(),
{
    if s.len() == 0 {
        seq![]
    } else {
        let prev = time_windows(s.drop_last(), w);
        let e = s.last();
        if prev.len() > 0 && e.0 - prev.last()[0].0 <= w {
            prev.update(prev.len() - 1, prev.last().push(e))
        } else {
            prev.push(seq![e])
        }
    }
}

/// The update sequence numbers of all events of `cs`, window after window.
pub open spec fn flatten_usns(cs: Seq<Seq<Event>>) -> Seq<i64>
    decreases cs.len(),
{
    if cs.len() == 0 {
        seq![]
    } else {
        flatten_usns(cs.drop_last()) + cs.last().map_values(|e: Event| e.1)
    }
}

/// The windows of `cs` that satisfy `keep`, in order.
pub open spec fn filter_windows(cs: Seq<Seq<Event>>, keep: spec_fn(Seq<Event>) -> bool) -> Seq<
    Seq<Event>,
>
    decreases cs.len(),
{
    if cs.len() == 0 {
        seq![]
    } else if keep(cs.last()) {
        filter_windows(cs.drop_last(), keep).push(cs.last())
    } else {
        filter_windows(cs.drop_last(), keep)
    }
}

/// Number of events of `s` whose flag is set.
pub open spec fn count_flagged(s: Seq<Event>) -> nat
    decreases s.len(),
{
    if s.len() == 0 {
        0
    } else {
        count_flagged(s.drop_last()) + if s.last().2 {
            1nat
        } else {
            0nat
        }
    }
}

/// The first `n` elements of `s` (all of them when `s` is shorter).
pub open spec fn first_n<T>(s: Seq<T>, n: nat) -> Seq<T> {
    if s.len() <= n {
        s
    } else {
        s.take(n as int)
    }
}

/// Sequences held by a list of event vectors.
pub open spec fn windows_view(cs: Seq<Vec<Event>>) -> Seq<Seq<Event>> {
    cs.map_values(|c: Vec<Event>| c@)
}

proof fn lemma_insert_scan(s: Seq<Event>, e: Event, p: int)
    requires
        0 <= p < s.len(),
        s[p].0 > e.0,
    ensures
        insert_by_time(s.take(p + 1), e) == insert_by_time(s.take(p), e).push(s[p]),
{
    assert(s.take(p + 1).drop_last() =~= s.take(p));
}

/// The events sorted by timestamp, stably.
pub fn sort_events_by_time(v: Vec<Event>) -> (r: Vec<Event>)
    ensures
        r@ == sort_by_time(v@),
{
    let mut out: Vec<Event> = Vec::new();
    let mut i: usize = 0;
    while i < v.len()
        invariant
            i <= v@.len(),
            out@ == sort_by_time(v@.take(i as int)),
        decreases v@.len() - i,
    {
        let e = v[i];
        let mut p: usize = out.len();
        let ghost s = out@;
        assert(s.take(s.len() as int) =~= s);
        while p > 0 && out[p - 1].0 > e.0
            invariant
                out@ == s,
                p <= s.len(),
                insert_by_time(s, e) == insert_by_time(s.take(p as int), e) + s.skip(p as int),
            decreases p,
        {
            proof {
                lemma_insert_scan(s, e, p - 1);
                assert(s.skip(p - 1) =~= seq![s[p - 1]] + s.skip(p as int));
                assert(insert_by_time(s.take(p - 1), e).push(s[p - 1]) + s.skip(p as int)
                    =~= insert_by_time(s.take(p - 1), e) + s.skip(p - 1));
            }
            p = p - 1;
        }
        proof {
            if p == 0 {
                assert(s.take(0) =~= Seq::<Event>::empty());
            } else {
                assert(s.take(p as int).last() == s[p - 1]);
            }
            assert(insert_by_time(s.take(p as int), e) =~= s.take(p as int).push(e));
            assert(s.take(p as int).push(e) + s.skip(p as int) =~= s.insert(p as int, e));
            assert(v@.take(i + 1).drop_last() =~= v@.take(i as int));
        }
        out.insert(p, e);
        i = i + 1;
    }
    assert(v@.take(v@.len() as int) =~= v@);
    out
}


/// Groups time-ordered events into windows of at most `w` ticks after each window's
/// first event.
pub fn group_into_windows(s: &Vec<Event>, w: i64) -> (r: Vec<Vec<Event>>)
    ensures
        windows_view(r@) == time_windows(s@, w as int),
{
    let mut closed: Vec<Vec<Event>> = Vec::new();
    let mut current: Vec<Event> = Vec::new();
    let mut start: i64 = 0;
    let mut i: usize = 0;
    while i < s.len()
        invariant
            i <= s@.len(),
            time_windows(s@.take(i as int), w as int) == if current@.len() == 0 {
                windows_view(closed@)
            } else {
                windows_view(closed@).push(current@)
            },
            current@.len() > 0 ==> current@[0].0 == start,
            i > 0 ==> current@.len() > 0,
            i == 0 ==> closed@.len() == 0 && current@.len() == 0,
        decreases s@.len() - i,
    {
        let e = s[i];
        let ghost prev = time_windows(s@.take(i as int), w as int);
        proof {
            assert(s@.take(i + 1).drop_last() =~= s@.take(i as int));
            assert(s@.take(i + 1).last() == e);
        }
        if current.len() == 0 {
            start = e.0;
            current.push(e);
            proof {
                assert(closed@.len() == 0);
                assert(windows_view(closed@) =~= Seq::<Seq<Event>>::empty());
                assert(prev.len() == 0);
                assert(current@ =~= seq![e]);
                assert(prev.push(seq![e]) =~= windows_view(closed@).push(current@));
            }
        } else if (e.0 as i128) - (start as i128) <= (w as i128) {
            let ghost old_current = current@;
            current.push(e);
            proof {
                assert(prev.last() == old_current);
                assert(prev.last()[0].0 == start);
                assert(prev.update(prev.len() - 1, prev.last().push(e)) =~= windows_view(
                    closed@,
                ).push(current@));
            }
        } else {
            let ghost old_current = current@;
            assert(prev.last()[0].0 == start);
            closed.push(current);
            current = Vec::new();
            current.push(e);
            start = e.0;
            proof {
                assert(prev.last() == old_current);
                assert(current@ =~= seq![e]);
                assert(windows_view(closed@) =~= prev);
                assert(windows_view(closed@).push(current@) =~= prev.push(seq![e]));
            }
        }
        i = i + 1;
    }
    assert(s@.take(s@.len() as int) =~= s@);
    if current.len() > 0 {
        let ghost before = windows_view(closed@);
        closed.push(current);
        assert(windows_view(closed@) =~= before.push(current@));
    }
    closed
}

/// Appends the update sequence numbers of the events of `c`.
pub fn append_usns(dst: &mut Vec<i64>, c: &Vec<Event>)
    ensures
        final(dst)@ == old(dst)@ + c@.map_values(|e: Event| e.1),
{
    let ghost base = dst@;
    let mut j: usize = 0;
    while j < c.len()
        invariant
            j <= c@.len(),
            dst@ == base + c@.take(j as int).map_values(|e: Event| e.1),
        decreases c@.len() - j,
    {
        dst.push(c[j].1);
        proof {
            assert(c@.take(j + 1).map_values(|e: Event| e.1) =~= c@.take(j as int).map_values(
                |e: Event| e.1,
            ).push(c@[j as int].1));
        }
        j = j + 1;
    }
    assert(c@.take(c@.len() as int) =~= c@);
}

/// One step of `filter_windows` and `flatten_usns` over a growing prefix.
pub proof fn lemma_filter_windows_step(cs: Seq<Seq<Event>>, k: int, keep: spec_fn(Seq<Event>) -> bool)
    requires
        0 <= k < cs.len(),
    ensures
        filter_windows(cs.take(k + 1), keep) == if keep(cs[k]) {
            filter_windows(cs.take(k), keep).push(cs[k])
        } else {
            filter_windows(cs.take(k), keep)
        },
        flatten_usns(filter_windows(cs.take(k + 1), keep)) == if keep(cs[k]) {
            flatten_usns(filter_windows(cs.take(k), keep)) + cs[k].map_values(|e: Event| e.1)
        } else {
            flatten_usns(filter_windows(cs.take(k), keep))
        },
{
    assert(cs.take(k + 1).drop_last() =~= cs.take(k));
    assert(cs.take(k + 1).last() == cs[k]);
    if keep(cs[k]) {
        assert(filter_windows(cs.take(k), keep).push(cs[k]).drop_last() =~= filter_windows(
            cs.take(k),
            keep,
        ));
    }
}

/// The update sequence numbers of all events, window after window.
pub fn window_usns(cs: &Vec<Vec<Event>>) -> (r: Vec<i64>)
    ensures
        r@ == flatten_usns(windows_view(cs@)),
{
    let mut r: Vec<i64> = Vec::new();
    let mut k: usize = 0;
    while k < cs.len()
        invariant
            k <= cs@.len(),
            r@ == flatten_usns(windows_view(cs@).take(k as int)),
        decreases cs@.len() - k,
    {
        let c = &cs[k];
        append_usns(&mut r, c);
        proof {
            assert(windows_view(cs@).take(k + 1).drop_last() =~= windows_view(cs@).take(k as int));
            assert(windows_view(cs@).take(k + 1).last() == c@);
        }
        k = k + 1;
    }
    assert(windows_view(cs@).take(cs@.len() as int) =~= windows_view(cs@));
    r
}

/// Number of events whose flag is set.
pub fn count_flagged_events(c: &Vec<Event>) -> (n: usize)
    ensures
        n == count_flagged(c@),
{
    let mut n: usize = 0;
    let mut j: usize = 0;
    while j < c.len()
        invariant
            j <= c@.len(),
            n == count_flagged(c@.take(j as int)),
            n <= j,
        decreases c@.len() - j,
    {
        assert(c@.take(j + 1).drop_last() =~= c@.take(j as int));
        if c[j].2 {
            n = n + 1;
        }
        j = j + 1;
    }
    assert(c@.take(c@.len() as int) =~= c@);
    n
}

/// The first twenty numbers of `v` (all of them when there are fewer).
pub fn first_twenty(v: &Vec<i64>) -> (r: Vec<i64>)
    ensures
        r@ == first_n(v@, 20),
{
    let mut r: Vec<i64> = Vec::new();
    let mut j: usize = 0;
    while j < v.len() && j < 20
        invariant
            j <= v@.len(),
            j <= 20,
            r@ == v@.take(j as int),
        decreases v@.len() - j,
    {
        r.push(v[j]);
        assert(v@.take(j + 1) =~= v@.take(j as int).push(v@[j as int]));
        j = j + 1;
    }
    assert(v@.len() <= 20 ==> v@.take(v@.len() as int) =~= v@);
    r
}


/// Windows holding at least `m` events.
pub open spec fn at_least(m: nat) -> spec_fn(Seq<Event>) -> bool {
    |c: Seq<Event>| c.len() >= m
}

/// How many windows hold at least `m` events, and their update sequence numbers.
pub fn long_window_usns(cs: &Vec<Vec<Event>>, m: usize) -> (r: (usize, Vec<i64>))
    ensures
        r.0 == filter_windows(windows_view(cs@), at_least(m as nat)).len(),
        r.1@ == flatten_usns(filter_windows(windows_view(cs@), at_least(m as nat))),
{
    let ghost csv = windows_view(cs@);
    let mut count: usize = 0;
    let mut usns: Vec<i64> = Vec::new();
    let mut k: usize = 0;
    while k < cs.len()
        invariant
            k <= cs@.len(),
            csv == windows_view(cs@),
            count == filter_windows(csv.take(k as int), at_least(m as nat)).len(),
            usns@ == flatten_usns(filter_windows(csv.take(k as int), at_least(m as nat))),
            count <= k,
        decreases cs@.len() - k,
    {
        let c = &cs[k];
        proof {
            lemma_filter_windows_step(csv, k as int, at_least(m as nat));
            assert(csv[k as int] == c@);
        }
        if c.len() >= m {
            count = count + 1;
            append_usns(&mut usns, c);
        }
        k = k + 1;
    }
    assert(csv.take(cs@.len() as int) =~= csv);
    (count, usns)
}


/// Update sequence numbers of the records of `rs` that satisfy `keep`, in order.
pub open spec fn select_usns(rs: Seq<UsnRecord>, keep: spec_fn(UsnRecord) -> bool) -> Seq<i64>
    decreases rs.len(),
{
    if rs.len() == 0 {
        seq![]
    } else if keep(rs.last()) {
        select_usns(rs.drop_last(), keep).push(rs.last().usn)
    } else {
        select_usns(rs.drop_last(), keep)
    }
}

/// Events (time, update number, unflagged) of the records of `rs` that satisfy `keep`.
pub open spec fn select_events(rs: Seq<UsnRecord>, keep: spec_fn(UsnRecord) -> bool) -> Seq<Event>
    decreases rs.len(),
{
    if rs.len() == 0 {
        seq![]
    } else if keep(rs.last()) {
        select_events(rs.drop_last(), keep).push((rs.last().timestamp_raw, rs.last().usn, false))
    } else {
        select_events(rs.drop_last(), keep)
    }
}

/// Events in nondecreasing order of time.
pub open spec fn time_sorted(s: Seq<Event>) -> bool {
    forall|i: int, j: int| 0 <= i <= j < s.len() ==> s[i].0 <= s[j].0
}

proof fn lemma_insert_by_time(s: Seq<Event>, e: Event)
    requires
        time_sorted(s),
    ensures
        time_sorted(insert_by_time(s, e)),
        insert_by_time(s, e).to_multiset() == s.to_multiset().insert(e),
    decreases s.len(),
{
    broadcast use vstd::seq_lib::group_to_multiset_ensures;

    if s.len() == 0 {
        assert(seq![e] =~= s.push(e));
    } else if s.last().0 <= e.0 {
    } else {
        let t = s.drop_last();
        lemma_insert_by_time(t, e);
        let ins = insert_by_time(t, e);
        let r = ins.push(s.last());
        assert(s =~= t.push(s.last()));
        assert forall|i: int| 0 <= i < ins.len() implies ins[i].0 <= s.last().0 by {
            assert(ins.to_multiset().count(ins[i]) > 0);
            if ins[i] != e {
                assert(t.to_multiset().count(ins[i]) > 0);
                assert(t.contains(ins[i]));
                let j = choose|j: int| 0 <= j < t.len() && t[j] == ins[i];
                assert(s[j] == t[j]);
            }
        }
        assert forall|i: int, j: int| 0 <= i <= j < r.len() implies r[i].0 <= r[j].0 by {
            if j < ins.len() {
                assert(r[i] == ins[i] && r[j] == ins[j]);
            } else if i < ins.len() {
                assert(r[i] == ins[i]);
            }
        }
        assert(r.to_multiset() =~= s.to_multiset().insert(e));
    }
}

/// Law: sorting events by time puts them in nondecreasing order of time and keeps
/// exactly the same events.
pub proof fn law_sort_by_time_orders_events(s: Seq<Event>)
    ensures
        time_sorted(sort_by_time(s)),
        sort_by_time(s).to_multiset() == s.to_multiset(),
    decreases s.len(),
{
    broadcast use vstd::seq_lib::group_to_multiset_ensures;

    if s.len() == 0 {
        assert(sort_by_time(s).to_multiset() =~= s.to_multiset());
    } else {
        law_sort_by_time_orders_events(s.drop_last());
        lemma_insert_by_time(sort_by_time(s.drop_last()), s.last());
        assert(s =~= s.drop_last().push(s.last()));
    }
}

} // verus!
