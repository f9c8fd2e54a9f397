//! Path reconstruction that follows each file's parent links as they stood at the
//! time of each journal record, falling back to the master file table.
use std::collections::HashMap;
use vstd::prelude::*;
use vstd::string::StrSliceExecFns;

use crate::mft::MftNode;
use crate::text::{dec, push_char, push_decimal, to_upper_char, upper_char};
use crate::usn_record::{
    join, join_strings, strings_view, UsnRecord, UsnRecordView, USN_REASON_FILE_CREATE, USN_REASON_RENAME_NEW_NAME,
    USN_REASON_RENAME_OLD_NAME,
};

verus! {

broadcast use vstd::std_specs::hash::group_hash_axioms;

/// A name and parent that a file had from the record with update number `usn` on.
#[derive(Clone, Debug)]
pub struct HistoricalLink {
    pub usn: i64,
    pub name: String,
    pub parent_entry: u64,
}

/// Mathematical model of a [`HistoricalLink`].
pub struct LinkView {
    pub usn: i64,
    pub name: Seq<char>,
    pub parent_entry: u64,
}

impl View for HistoricalLink {
    type V = LinkView;

    open spec fn view(&self) -> LinkView {
        LinkView { usn: self.usn, name: self.name@, parent_entry: self.parent_entry }
    }
}

/// The models of a list of links.
pub open spec fn links_view(v: Seq<HistoricalLink>) -> Seq<LinkView> {
    v.map_values(|l: HistoricalLink| l@)
}

/// The link history of each entry, as sequences of link models.
pub open spec fn history_view(m: Map<u64, Vec<HistoricalLink>>) -> Map<u64, Seq<LinkView>> {
    Map::new(|k: u64| m.dom().contains(k), |k: u64| links_view(m[k]@))
}

/// Resolves the paths of journal records against a drive's master file table and the
/// link history that the records themselves show.
pub struct RewindResolver {
    pub drive_letter: char,
    pub mft_nodes: HashMap<u64, MftNode>,
    pub usn_history: HashMap<u64, Vec<HistoricalLink>>,
}

/// `s` with `e` placed after every link whose update number is not greater than its own.
pub open spec fn insert_by_usn(s: Seq<LinkView>, e: LinkView) -> Seq<LinkView>
    decreases s.len(),
{
    if s.len() == 0 {
        seq![e]
    } else if s.last().usn <= e.usn {
        s.push(e)
    } else {
        insert_by_usn(s.drop_last(), e).push(s.last())
    }
}

/// Stable sort of links by update number.
pub open spec fn sort_by_usn(s: Seq<LinkView>) -> Seq<LinkView>
    decreases s.len(),
{
    if s.len() == 0 {
        s
    } else {
        insert_by_usn(sort_by_usn(s.drop_last()), s.last())
    }
}

/// Whether a record contributes a link: a creation or rename, or any record with a name.
pub open spec fn is_link_record(r: UsnRecord) -> bool {
    r.reason & (USN_REASON_FILE_CREATE | USN_REASON_RENAME_NEW_NAME | USN_REASON_RENAME_OLD_NAME) != 0
        || r.file_name@.len() > 0
}

/// The history after one record: its link is appended to its entry's history unless
/// the last link there has the same name and parent.
pub open spec fn add_link(h: Map<u64, Seq<LinkView>>, r: UsnRecord) -> Map<u64, Seq<LinkView>> {
    if !is_link_record(r) {
        h
    } else {
        let k = r.file_ref_number;
        let links = if h.contains_key(k) {
            h[k]
        } else {
            seq![]
        };
        if links.len() > 0 && links.last().name == r.file_name@ && links.last().parent_entry
            == r.parent_file_ref_number {
            h
        } else {
            h.insert(
                k,
                links.push(
                    LinkView { usn: r.usn, name: r.file_name@, parent_entry: r.parent_file_ref_number },
                ),
            )
        }
    }
}

/// The history after the records of `rs`, in order.
pub open spec fn add_links(h: Map<u64, Seq<LinkView>>, rs: Seq<UsnRecord>) -> Map<u64, Seq<LinkView>>
    decreases rs.len(),
{
    if rs.len() == 0 {
        h
    } else {
        add_link(add_links(h, rs.drop_last()), rs.last())
    }
}

/// Every history sorted by update number.
pub open spec fn sort_histories(h: Map<u64, Seq<LinkView>>) -> Map<u64, Seq<LinkView>> {
    Map::new(|k: u64| h.contains_key(k), |k: u64| sort_by_usn(h[k]))
}

/// Index of the first link from `i` on whose update number exceeds `t`.
pub open spec fn first_after(links: Seq<LinkView>, t: i64, i: int) -> int
    decreases links.len() - i,
{
    if i < 0 || i >= links.len() || links[i].usn > t {
        i
    } else {
        first_after(links, t, i + 1)
    }
}

/// The name and parent of `entry` as of update number `t`: the last link of its
/// leading run of links not after `t` (the first link when there is none), else its
/// master file table entry, else `None`.
pub open spec fn link_at(
    history: Map<u64, Seq<LinkView>>,
    nodes: Map<u64, MftNode>,
    entry: u64,
    t: i64,
) -> Option<(Seq<char>, u64)> {
    if history.contains_key(entry) && history[entry].len() > 0 {
        let links = history[entry];
        let p = first_after(links, t, 0);
        if p > 0 {
            Some((links[p - 1].name, links[p - 1].parent_entry))
        } else {
            Some((links[0].name, links[0].parent_entry))
        }
    } else if nodes.contains_key(entry) {
        Some((nodes[entry].name@, nodes[entry].parent_entry))
    } else {
        None
    }
}

/// Path components above a record, innermost first, found by following parents from
/// `cur` until the root (entry 5), entry 0, a repeated entry, 32 steps, or an entry
/// with no known link (shown as "$Orphan_<entry>"). Empty names and "." are skipped.
pub open spec fn walk_parents(
    history: Map<u64, Seq<LinkView>>,
    nodes: Map<u64, MftNode>,
    cur: u64,
    t: i64,
    visited: Seq<u64>,
) -> Seq<Seq<char>>
    decreases 32 - visited.len(),
{
    if cur == 5 || cur == 0 || visited.len() >= 32 || visited.contains(cur) {
        seq![]
    } else {
        match link_at(history, nodes, cur, t) {
            Some((name, next)) => (if name.len() > 0 && name != "."@ {
                seq![name]
            } else {
                seq![]
            }) + walk_parents(history, nodes, next, t, visited.push(cur)),
            None => seq!["$Orphan_"@ + dec(cur as nat)],
        }
    }
}

/// The full path of a record: the drive, ":\", then the components from the
/// outermost folder down to the record's own name, joined by "\".
pub open spec fn resolved_path(
    drive: char,
    history: Map<u64, Seq<LinkView>>,
    nodes: Map<u64, MftNode>,
    r: UsnRecordView,
) -> Seq<char> {
    let own = if r.file_name.len() > 0 {
        seq![r.file_name]
    } else {
        seq![]
    };
    let comps = own + walk_parents(history, nodes, r.parent_file_ref_number, r.usn, seq![]);
    seq![drive] + ":\\"@ + join(comps.reverse(), "\\"@)
}

impl RewindResolver {
    /// The resolved path of a record under this resolver.
    pub open spec fn path_of(&self, r: UsnRecordView) -> Seq<char> {
        resolved_path(self.drive_letter, history_view(self.usn_history@), self.mft_nodes@, r)
    }

    /// A resolver for a drive (its letter upper-cased) with an empty link history.
    pub fn new(drive_letter: char, mft_nodes: HashMap<u64, MftNode>) -> (r: Self)
        ensures
            r.drive_letter == upper_char(drive_letter),
            r.mft_nodes@ == mft_nodes@,
            r.usn_history@ == Map::<u64, Vec<HistoricalLink>>::empty(),
    {
        RewindResolver {
            drive_letter: to_upper_char(drive_letter),
            mft_nodes,
            usn_history: HashMap::new(),
        }
    }
}


/// A copy of a link.
fn copy_link(l: &HistoricalLink) -> (r: HistoricalLink)
    ensures
        r@ == l@,
{
    HistoricalLink { usn: l.usn, name: l.name.clone(), parent_entry: l.parent_entry }
}

proof fn lemma_insert_scan(s: Seq<LinkView>, e: LinkView, p: int)
    requires
        0 <= p < s.len(),
        s[p].usn > e.usn,
    ensures
        insert_by_usn(s.take(p + 1), e) == insert_by_usn(s.take(p), e).push(s[p]),
{
    assert(s.take(p + 1).drop_last() =~= s.take(p));
}

/// The links sorted by update number, stably.
fn sort_links_by_usn(v: &Vec<HistoricalLink>) -> (r: Vec<HistoricalLink>)
    ensures
        links_view(r@) == sort_by_usn(links_view(v@)),
{
    let ghost lv = links_view(v@);
    let mut out: Vec<HistoricalLink> = Vec::new();
    let mut i: usize = 0;
    while i < v.len()
        invariant
            i <= v@.len(),
            lv == links_view(v@),
            links_view(out@) == sort_by_usn(lv.take(i as int)),
        decreases v@.len() - i,
    {
        let e = copy_link(&v[i]);
        let ghost ev = e@;
        let ghost s = links_view(out@);
        let mut p: usize = out.len();
        assert(s.take(s.len() as int) =~= s);
        while p > 0 && out[p - 1].usn > e.usn
            invariant
                links_view(out@) == s,
                p <= s.len(),
                ev == e@,
                insert_by_usn(s, ev) == insert_by_usn(s.take(p as int), ev) + s.skip(p as int),
            decreases p,
        {
            proof {
                assert(s[p - 1].usn == out@[p - 1].usn);
                lemma_insert_scan(s, ev, p - 1);
                assert(s.skip(p - 1) =~= seq![s[p - 1]] + s.skip(p as int));
                assert(insert_by_usn(s.take(p - 1), ev).push(s[p - 1]) + s.skip(p as int)
                    =~= insert_by_usn(s.take(p - 1), ev) + s.skip(p - 1));
            }
            p = p - 1;
        }
        proof {
            if p == 0 {
                assert(s.take(0) =~= Seq::<LinkView>::empty());
            } else {
                assert(s.take(p as int).last() == s[p - 1]);
                assert(s[p - 1].usn == out@[p - 1].usn);
            }
            assert(insert_by_usn(s.take(p as int), ev) =~= s.take(p as int).push(ev));
            assert(s.take(p as int).push(ev) + s.skip(p as int) =~= s.insert(p as int, ev));
            assert(lv.take(i + 1).drop_last() =~= lv.take(i as int));
            assert(lv.take(i + 1).last() == ev);
        }
        out.insert(p, e);
        proof {
            assert(links_view(out@) =~= s.insert(p as int, ev));
        }
        i = i + 1;
    }
    assert(lv.take(lv.len() as int) =~= lv);
    out
}

impl RewindResolver {
    /// Records the link (name and parent) that each record shows, then sorts each
    /// entry's links by update number.
    pub fn index_records(&mut self, records: &[UsnRecord])
        ensures
            final(self).drive_letter == old(self).drive_letter,
            final(self).mft_nodes@ == old(self).mft_nodes@,
            history_view(final(self).usn_history@) == sort_histories(
                add_links(history_view(old(self).usn_history@), records@),
            ),
    {
        let ghost h0 = history_view(self.usn_history@);
        let mut i: usize = 0;
        while i < records.len()
            invariant
                i <= records@.len(),
                self.drive_letter == old(self).drive_letter,
                self.mft_nodes@ == old(self).mft_nodes@,
                h0 == history_view(old(self).usn_history@),
                history_view(self.usn_history@) == add_links(h0, records@.take(i as int)),
            decreases records@.len() - i,
        {
            let r = &records[i];
            proof {
                assert(records@.take(i + 1).drop_last() =~= records@.take(i as int));
                assert(records@.take(i + 1).last() == *r);
            }
            let ghost h = history_view(self.usn_history@);
            let is_link_event = r.reason & (USN_REASON_FILE_CREATE | USN_REASON_RENAME_NEW_NAME
                | USN_REASON_RENAME_OLD_NAME) != 0;
            if is_link_event || r.file_name.as_str().unicode_len() > 0 {
                let k = r.file_ref_number;
                let mut links = match self.usn_history.remove(&k) {
                    Some(v) => v,
                    None => Vec::new(),
                };
                proof {
                    if h.contains_key(k) {
                        assert(links_view(links@) == h[k]);
                    } else {
                        assert(links_view(links@) =~= Seq::<LinkView>::empty());
                    }
                }
                let n = links.len();
                let is_duplicate = n > 0 && links[n - 1].name == r.file_name
                    && links[n - 1].parent_entry == r.parent_file_ref_number;
                if !is_duplicate {
                    let ghost before = links_view(links@);
                    links.push(
                        HistoricalLink {
                            usn: r.usn,
                            name: r.file_name.clone(),
                            parent_entry: r.parent_file_ref_number,
                        },
                    );
                    proof {
                        assert(links_view(links@) =~= before.push(
                            LinkView { usn: r.usn, name: r.file_name@, parent_entry: r.parent_file_ref_number },
                        ));
                    }
                }
                let ghost mid = self.usn_history@;
                self.usn_history.insert(k, links);
                proof {
                    assert(history_view(self.usn_history@) =~= add_link(h, *r));
                }
            }
            i = i + 1;
        }
        assert(records@.take(records@.len() as int) =~= records@);
        let ghost unsorted = history_view(self.usn_history@);
        let mut keys: Vec<u64> = Vec::new();
        assert(Seq::<u64>::empty().to_set() =~= Set::<u64>::empty());
        for k in it: self.usn_history.keys()
            invariant
                keys@ == it.seq().take(it.index() as int).map_values(|x: &u64| *x),
                it.seq().unref().to_set() == self.usn_history@.dom(),
                it.seq().unref().no_duplicates(),
                it.seq().len() == self.usn_history@.dom().len(),
                keys@.len() == it.seq().len() ==> keys@.to_set() == self.usn_history@.dom()
                    && keys@.no_duplicates(),
        {
            keys.push(*k);
            proof {
                assert(it.seq().take(it.index() + 1).map_values(|x: &u64| *x) =~= it.seq().take(
                    it.index() as int,
                ).map_values(|x: &u64| *x).push(*k));
                assert(keys@.len() == it.seq().len() ==> keys@ =~= it.seq().unref());
            }
        }
        assert(keys@.to_set() =~= self.usn_history@.dom());
        let ghost dom = self.usn_history@.dom();
        let mut j: usize = 0;
        while j < keys.len()
            invariant
                j <= keys@.len(),
                keys@.to_set() == dom,
                keys@.no_duplicates(),
                self.usn_history@.dom() == dom,
                unsorted.dom() == dom,
                self.drive_letter == old(self).drive_letter,
                self.mft_nodes@ == old(self).mft_nodes@,
                unsorted == add_links(h0, records@),
                h0 == history_view(old(self).usn_history@),
                forall|k: u64|
                    #![trigger history_view(self.usn_history@)[k]]
                    dom.contains(k) ==> history_view(self.usn_history@)[k] == if keys@.take(
                        j as int,
                    ).contains(k) {
                        sort_by_usn(unsorted[k])
                    } else {
                        unsorted[k]
                    },
            decreases keys@.len() - j,
        {
            let k = keys[j];
            proof {
                assert(keys@.contains(k));
                assert(dom.contains(k));
                assert(!keys@.take(j as int).contains(k));
            }
            let ghost before = self.usn_history@;
            assert(history_view(self.usn_history@)[k] == unsorted[k]);
            assert(history_view(before)[k] == links_view(before[k]@));
            match self.usn_history.remove(&k) {
                Some(v) => {
                    assert(v == before[k]);
                    let sorted = sort_links_by_usn(&v);
                    self.usn_history.insert(k, sorted);
                    assert(history_view(self.usn_history@)[k] == sort_by_usn(unsorted[k]));
                },
                None => {},
            }
            proof {
                assert(self.usn_history@.dom() =~= dom);
                assert forall|x: u64|
                    #![trigger history_view(self.usn_history@)[x]]
                    dom.contains(x) implies history_view(self.usn_history@)[x] == if keys@.take(
                        j + 1,
                    ).contains(x) {
                        sort_by_usn(unsorted[x])
                    } else {
                        unsorted[x]
                    } by {
                    if x == k {
                        assert(keys@.take(j + 1)[j as int] == k);
                    } else {
                        assert(history_view(before)[x] == history_view(self.usn_history@)[x]);
                        if keys@.take(j + 1).contains(x) {
                            let q = choose|q: int| 0 <= q < j + 1 && #[trigger] keys@.take(j + 1)[q] == x;
                            assert(q < j);
                            assert(keys@.take(j as int)[q] == x);
                        }
                        if keys@.take(j as int).contains(x) {
                            let q = choose|q: int| 0 <= q < j && #[trigger] keys@.take(j as int)[q] == x;
                            assert(keys@.take(j + 1)[q] == x);
                        }
                    }
                }
            }
            j = j + 1;
        }
        proof {
            assert(keys@.take(keys@.len() as int) =~= keys@);
            assert(history_view(self.usn_history@) =~= sort_histories(unsorted));
        }
    }
}


/// Whether `x` occurs in `v`.
fn contains_entry(v: &Vec<u64>, x: u64) -> (b: bool)
    ensures
        b == v@.contains(x),
{
    let mut i: usize = 0;
    while i < v.len()
        invariant
            i <= v@.len(),
            forall|j: int| 0 <= j < i ==> v@[j] != x,
        decreases v@.len() - i,
    {
        if v[i] == x {
            assert(v@[i as int] == x);
            return true;
        }
        i = i + 1;
    }
    false
}

impl RewindResolver {
    /// The name and parent of an entry as of update number `target_usn` (see [`link_at`]).
    pub fn find_parent_link_at_usn(&self, entry: u64, target_usn: i64) -> (r: Option<(String, u64)>)
        ensures
            match r {
                Some((name, parent)) => link_at(
                    history_view(self.usn_history@),
                    self.mft_nodes@,
                    entry,
                    target_usn,
                ) == Some((name@, parent)),
                None => link_at(history_view(self.usn_history@), self.mft_nodes@, entry, target_usn)
                    is None,
            },
    {
        let ghost h = history_view(self.usn_history@);
        match self.usn_history.get(&entry) {
            Some(links) => {
                let ghost lv = links_view(links@);
                assert(h[entry] == lv);
                let mut p: usize = 0;
                while p < links.len() && links[p].usn <= target_usn
                    invariant
                        p <= links@.len(),
                        lv == links_view(links@),
                        first_after(lv, target_usn, 0) == first_after(lv, target_usn, p as int),
                    decreases links@.len() - p,
                {
                    p = p + 1;
                }
                if p > 0 {
                    return Some((links[p - 1].name.clone(), links[p - 1].parent_entry));
                }
                if links.len() > 0 {
                    return Some((links[0].name.clone(), links[0].parent_entry));
                }
            },
            None => {},
        }
        match self.mft_nodes.get(&entry) {
            Some(node) => Some((node.name.clone(), node.parent_entry)),
            None => None,
        }
    }

    /// The full path of a record as of its own update number (see [`resolved_path`]).
    pub fn resolve_path(&self, r: &UsnRecord) -> (p: String)
        ensures
            p@ == self.path_of(r@),
    {
        let ghost h = history_view(self.usn_history@);
        let ghost nodes = self.mft_nodes@;
        let mut comps: Vec<String> = Vec::new();
        if r.file_name.as_str().unicode_len() > 0 {
            comps.push(r.file_name.clone());
        }
        let ghost own = strings_view(comps@);
        assert(own =~= if r.file_name@.len() > 0 {
            seq![r.file_name@]
        } else {
            Seq::<Seq<char>>::empty()
        });
        let mut current_parent = r.parent_file_ref_number;
        let mut visited: Vec<u64> = Vec::new();
        let mut stop = false;
        let dot = String::from_str(".");
        let ghost full = own + walk_parents(h, nodes, r.parent_file_ref_number, r.usn, seq![]);
        while !stop && current_parent != 5 && current_parent != 0 && visited.len() < 32
            invariant
                h == history_view(self.usn_history@),
                nodes == self.mft_nodes@,
                dot@ == "."@,
                visited@.len() <= 32,
                full == strings_view(comps@) + if stop {
                    Seq::<Seq<char>>::empty()
                } else {
                    walk_parents(h, nodes, current_parent, r.usn, visited@)
                },
            decreases 32 - visited@.len(), if stop { 0int } else { 1int },
        {
            let ghost before = strings_view(comps@);
            if contains_entry(&visited, current_parent) {
                stop = true;
                assert(before + Seq::<Seq<char>>::empty() =~= before);
            } else {
                let ghost vis = visited@;
                visited.push(current_parent);
                match self.find_parent_link_at_usn(current_parent, r.usn) {
                    Some((parent_name, next_parent)) => {
                        let keep = parent_name.as_str().unicode_len() > 0 && !(parent_name == dot);
                        if keep {
                            comps.push(parent_name);
                        }
                        proof {
                            if keep {
                                assert(strings_view(comps@) =~= before.push(parent_name@));
                                assert(before + (seq![parent_name@] + walk_parents(h, nodes, next_parent, r.usn, vis.push(current_parent)))
                                    =~= strings_view(comps@) + walk_parents(h, nodes, next_parent, r.usn, vis.push(current_parent)));
                            } else {
                                assert(strings_view(comps@) == before);
                                assert(before + (Seq::<Seq<char>>::empty() + walk_parents(h, nodes, next_parent, r.usn, vis.push(current_parent)))
                                    =~= strings_view(comps@) + walk_parents(h, nodes, next_parent, r.usn, vis.push(current_parent)));
                            }
                        }
                        current_parent = next_parent;
                    },
                    None => {
                        let mut orphan = String::from_str("$Orphan_");
                        push_decimal(&mut orphan, current_parent);
                        comps.push(orphan);
                        stop = true;
                        proof {
                            assert(strings_view(comps@) =~= before.push("$Orphan_"@ + dec(current_parent as nat)));
                            assert(strings_view(comps@) + Seq::<Seq<char>>::empty() =~= before + seq!["$Orphan_"@ + dec(current_parent as nat)]);
                        }
                    },
                }
            }
        }
        proof {
            if !stop {
                assert(walk_parents(h, nodes, current_parent, r.usn, visited@) == Seq::<Seq<char>>::empty());
            }
            assert(full =~= strings_view(comps@));
        }
        let mut rev: Vec<String> = Vec::new();
        let mut k: usize = comps.len();
        while k > 0
            invariant
                k <= comps@.len(),
                strings_view(rev@) == strings_view(comps@).skip(k as int).reverse(),
            decreases k,
        {
            k = k - 1;
            let ghost before = strings_view(rev@);
            let ghost cv = strings_view(comps@);
            rev.push(comps[k].clone());
            assert forall|i: int| 0 <= i < before.len() implies before[i] == cv.skip(k as int).reverse()[i] by {
                assert(before[i] == cv.skip(k + 1).reverse()[i]);
                assert(cv.skip(k + 1).reverse()[i] == cv.skip(k + 1)[cv.len() - k - 2 - i]);
                assert(cv.skip(k as int).reverse()[i] == cv.skip(k as int)[cv.len() - k - 1 - i]);
            }
            assert(strings_view(rev@) =~= before.push(cv[k as int]));
            assert(before.len() == cv.len() - k - 1);
            assert(cv.skip(k as int).reverse()[before.len() as int] == cv.skip(k as int)[0]);
            assert(strings_view(rev@) =~= cv.skip(k as int).reverse());
        }
        assert(strings_view(comps@).skip(0) =~= strings_view(comps@));
        let joined = join_strings(&rev, "\\");
        let mut out = String::new();
        push_char(&mut out, self.drive_letter);
        out.append(":\\");
        out.append(joined.as_str());
        assert(out@ =~= seq![self.drive_letter] + ":\\"@ + join(full.reverse(), "\\"@));
        out
    }
}


/// `r` with its full path replaced.
pub open spec fn with_path(r: UsnRecordView, p: Seq<char>) -> UsnRecordView {
    UsnRecordView { full_path: p, ..r }
}

impl RewindResolver {
    /// Sets the full path of every record to its resolved path.
    pub fn resolve_all_paths(&self, records: &mut [UsnRecord])
        ensures
            final(records)@.len() == old(records)@.len(),
            forall|i: int|
                0 <= i < old(records)@.len() ==> (#[trigger] final(records)@[i])@ == with_path(
                    old(records)@[i]@,
                    self.path_of(old(records)@[i]@),
                ),
    {
        let n = records.len();
        let mut i: usize = 0;
        while i < n
            invariant
                n == old(records)@.len(),
                records@.len() == n,
                i <= n,
                forall|j: int|
                    0 <= j < i ==> (#[trigger] records@[j])@ == with_path(
                        old(records)@[j]@,
                        self.path_of(old(records)@[j]@),
                    ),
                forall|j: int| i <= j < n ==> #[trigger] records@[j] == old(records)@[j],
            decreases n - i,
        {
            let p = self.resolve_path(&records[i]);
            records[i].full_path = p;
            i = i + 1;
        }
    }
}

/// Law: every resolved path starts at the root of the resolver's drive: the letter,
/// a colon and a backslash.
pub proof fn law_paths_start_at_drive_root(
    drive: char,
    history: Map<u64, Seq<LinkView>>,
    nodes: Map<u64, MftNode>,
    r: UsnRecordView,
)
    ensures
        resolved_path(drive, history, nodes, r).len() >= 3,
        resolved_path(drive, history, nodes, r).take(3) == seq![drive, ':', '\\'],
{
    reveal_strlit(":\\");
    let p = resolved_path(drive, history, nodes, r);
    assert(p.take(3) =~= seq![drive, ':', '\\']);
}

/// Links in nondecreasing order of update number.
pub open spec fn usn_sorted(s: Seq<LinkView>) -> bool {
    forall|i: int, j: int| 0 <= i <= j < s.len() ==> s[i].usn <= s[j].usn
}

proof fn lemma_insert_by_usn(s: Seq<LinkView>, e: LinkView)
    requires
        usn_sorted(s),
    ensures
        usn_sorted(insert_by_usn(s, e)),
        insert_by_usn(s, e).len() == s.len() + 1,
        forall|i: int|
            0 <= i < insert_by_usn(s, e).len() ==> #[trigger] insert_by_usn(s, e)[i] == e || s.contains(
                insert_by_usn(s, e)[i],
            ),
    decreases s.len(),
{
    if s.len() == 0 {
    } else if s.last().usn <= e.usn {
        let r = s.push(e);
        assert forall|i: int| 0 <= i < r.len() implies #[trigger] r[i] == e || s.contains(r[i]) by {
            if i < s.len() {
                assert(r[i] == s[i]);
            }
        }
    } else {
        let t = s.drop_last();
        assert(usn_sorted(t));
        lemma_insert_by_usn(t, e);
        let ins = insert_by_usn(t, e);
        let r = ins.push(s.last());
        assert forall|i: int| 0 <= i < ins.len() implies ins[i].usn <= s.last().usn by {
            if ins[i] != e {
                let j = choose|j: int| 0 <= j < t.len() && t[j] == ins[i];
                assert(s[j] == t[j]);
            }
        }
        assert forall|i: int, j: int| 0 <= i <= j < r.len() implies r[i].usn <= r[j].usn by {
            if j < ins.len() {
                assert(r[i] == ins[i] && r[j] == ins[j]);
            } else if i < ins.len() {
                assert(r[i] == ins[i]);
            }
        }
        assert forall|i: int| 0 <= i < r.len() implies #[trigger] r[i] == e || s.contains(r[i]) by {
            if i < ins.len() {
                assert(r[i] == ins[i]);
                if ins[i] != e {
                    let j = choose|j: int| 0 <= j < t.len() && t[j] == ins[i];
                    assert(s[j] == t[j]);
                }
            } else {
                assert(s[s.len() - 1] == s.last());
            }
        }
    }
}

proof fn lemma_sort_by_usn_sorted(s: Seq<LinkView>)
    ensures
        usn_sorted(sort_by_usn(s)),
    decreases s.len(),
{
    if s.len() > 0 {
        lemma_sort_by_usn_sorted(s.drop_last());
        lemma_insert_by_usn(sort_by_usn(s.drop_last()), s.last());
    }
}

proof fn lemma_first_after_in_sorted(links: Seq<LinkView>, t: i64, k: int, i: int)
    requires
        usn_sorted(links),
        0 <= i <= k + 1,
        0 <= k < links.len(),
        links[k].usn <= t,
        k + 1 == links.len() || t < links[k + 1].usn,
    ensures
        first_after(links, t, i) == k + 1,
    decreases links.len() - i,
{
    if i <= k {
        assert(links[i].usn <= links[k].usn);
        lemma_first_after_in_sorted(links, t, k, i + 1);
    }
}

/// Law: once the records are indexed, an entry whose history holds links at several
/// update numbers is named, at update number `t`, by its last link not after `t`:
/// a reused or renamed entry resolves to the name and folder it had at that time.
pub proof fn law_rewind_names_at_time(
    history: Map<u64, Seq<LinkView>>,
    nodes: Map<u64, MftNode>,
    entry: u64,
    t: i64,
    k: int,
)
    requires
        history.contains_key(entry),
        0 <= k < sort_by_usn(history[entry]).len(),
        sort_by_usn(history[entry])[k].usn <= t,
        k + 1 == sort_by_usn(history[entry]).len() || t < sort_by_usn(history[entry])[k + 1].usn,
    ensures
        link_at(sort_histories(history), nodes, entry, t) == Some(
            (
                sort_by_usn(history[entry])[k].name,
                sort_by_usn(history[entry])[k].parent_entry,
            ),
        ),
{
    let links = sort_by_usn(history[entry]);
    lemma_sort_by_usn_sorted(history[entry]);
    assert(sort_histories(history)[entry] == links);
    lemma_first_after_in_sorted(links, t, k, 0);
}

/// Law: indexing a record that creates, renames or names an entry appends a link
/// (its update number, name and parent) to that entry's history exactly when the name
/// or the parent differs from the entry's last link, so a move to another folder
/// under the same name is recorded; otherwise, and for any other record, the history
/// is unchanged. Other entries are never touched.
pub proof fn law_index_adds_link_on_rename_or_move(h: Map<u64, Seq<LinkView>>, r: UsnRecord)
    ensures
        ({
            let k = r.file_ref_number;
            let before = if h.contains_key(k) {
                h[k]
            } else {
                seq![]
            };
            let names = (r.reason & (USN_REASON_FILE_CREATE | USN_REASON_RENAME_NEW_NAME
                | USN_REASON_RENAME_OLD_NAME)) != 0 || r.file_name@.len() > 0;
            let differs = before.len() == 0 || before.last().name != r.file_name@
                || before.last().parent_entry != r.parent_file_ref_number;
            &&& names && differs ==> add_link(h, r).contains_key(k) && add_link(h, r)[k]
                == before.push(
                LinkView { usn: r.usn, name: r.file_name@, parent_entry: r.parent_file_ref_number },
            )
            &&& !(names && differs) ==> add_link(h, r) == h
            &&& forall|j: u64|
                j != k ==> (#[trigger] add_link(h, r).contains_key(j) == h.contains_key(j) && (
                h.contains_key(j) ==> add_link(h, r)[j] == h[j]))
        }),
{
}

} // verus!
