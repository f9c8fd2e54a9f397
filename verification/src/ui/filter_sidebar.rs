//! The set of reason flags that the record list shows.
use std::collections::HashSet;
use vstd::prelude::*;

use crate::search::{lower_vec, trim_chars, trimmed};
use crate::text::{contains_chars, contains_seq, lower, lower_chars, str_chars};
use crate::usn_record::{
    reason_flag, reason_flag_at, reason_name, reason_name_at, REASON_COUNT, USN_REASON_BASIC_INFO_CHANGE,
    USN_REASON_FILE_CREATE, USN_REASON_FILE_DELETE, USN_REASON_RENAME_NEW_NAME,
};

verus! {

broadcast use vstd::std_specs::hash::group_hash_axioms;

/// The reason filter: a search text over reason names and the enabled reason flags.
#[derive(Debug)]
pub struct FilterState {
    pub reason_query: String,
    pub enabled_reasons: HashSet<u32>,
}

/// The 24 listed reason flags.
pub open spec fn listed_flags() -> Set<u32> {
    Set::new(|f: u32| exists|i: int| 0 <= i < REASON_COUNT && #[trigger] reason_flag(i) == f)
}

/// The flags of the "PC Check" preset: creation, deletion, rename to a new name and
/// basic information change.
pub open spec fn pc_check_flags() -> Set<u32> {
    set![USN_REASON_FILE_CREATE, USN_REASON_FILE_DELETE, USN_REASON_RENAME_NEW_NAME, USN_REASON_BASIC_INFO_CHANGE]
}

/// Whether a record with reason mask `reason` passes a filter enabling `enabled`:
/// never with no flag enabled, always with 24 flags enabled, else when it carries an
/// enabled flag.
pub open spec fn reason_allowed(enabled: Set<u32>, reason: u32) -> bool {
    if enabled.len() == 0 {
        false
    } else if enabled.len() == 24 {
        true
    } else {
        exists|f: u32| enabled.contains(f) && #[trigger] (reason & f) != 0
    }
}

proof fn lemma_listed_flags_prefix(i: int)
    requires
        0 <= i <= REASON_COUNT,
    ensures
        Seq::new(i as nat, |k: int| reason_flag(k)).to_set() == Set::new(
            |f: u32| exists|k: int| 0 <= k < i && #[trigger] reason_flag(k) == f,
        ),
{
    let s = Seq::new(i as nat, |k: int| reason_flag(k));
    assert forall|f: u32| s.to_set().contains(f) <==> (exists|k: int| 0 <= k < i && #[trigger] reason_flag(k) == f) by {
        if s.contains(f) {
            let k = choose|k: int| 0 <= k < s.len() && s[k] == f;
            assert(reason_flag(k) == f);
        }
        if exists|k: int| 0 <= k < i && #[trigger] reason_flag(k) == f {
            let k = choose|k: int| 0 <= k < i && #[trigger] reason_flag(k) == f;
            assert(s[k] == f);
        }
    }
    assert(s.to_set() =~= Set::new(|f: u32| exists|k: int| 0 <= k < i && #[trigger] reason_flag(k) == f));
}

proof fn lemma_listed_flags_len()
    ensures
        listed_flags().len() == 24,
        listed_flags().finite(),
{
    let s = Seq::new(24, |k: int| reason_flag(k));
    lemma_listed_flags_prefix(24);
    assert(s.no_duplicates()) by {
        assert forall|a: int, b: int| 0 <= a < s.len() && 0 <= b < s.len() && a != b implies s[a] != s[b] by {
            assert(reason_flag(a) != reason_flag(b));
        }
    }
    s.unique_seq_to_set();
    assert(s.to_set() =~= listed_flags());
}

/// A copy of a set of flags.
fn copy_u32_set(s: &HashSet<u32>) -> (r: HashSet<u32>)
    ensures
        r@ == s@,
{
    let mut out: HashSet<u32> = HashSet::new();
    let ghost mut seen: Seq<u32> = Seq::empty();
    for x in it: s.iter()
        invariant
            it.seq().unref().to_set() == s@,
            seen == it.seq().unref().take(it.index() as int),
            out@ == seen.to_set(),
        ensures
            seen == it.seq().unref(),
    {
        proof {
            let q = it.seq().unref();
            assert(q.take(it.index() + 1) =~= seen.push(*x));
            assert(seen.push(*x).to_set() =~= seen.to_set().insert(*x)) by {
                broadcast use vstd::seq_lib::group_to_multiset_ensures;
                assert forall|u: u32| seen.push(*x).contains(u) <==> seen.to_set().insert(*x).contains(u) by {
                    if seen.push(*x).contains(u) {
                        let k = choose|k: int| 0 <= k < seen.push(*x).len() && seen.push(*x)[k] == u;
                        if k < seen.len() { assert(seen.contains(u)); }
                    }
                    if seen.contains(u) {
                        let k = choose|k: int| 0 <= k < seen.len() && seen[k] == u;
                        assert(seen.push(*x)[k] == u);
                    }
                    if u == *x { assert(seen.push(*x)[seen.len() as int] == u); }
                }
            }
            seen = seen.push(*x);
        }
        out.insert(*x);
    }
    assert(seen.to_set() == s@);
    out
}

impl Clone for FilterState {
    /// A copy with the same search text and flags.
    fn clone(&self) -> (r: Self)
        ensures
            r.reason_query@ == self.reason_query@,
            r.enabled_reasons@ == self.enabled_reasons@,
    {
        FilterState {
            reason_query: self.reason_query.clone(),
            enabled_reasons: copy_u32_set(&self.enabled_reasons),
        }
    }
}

impl Default for FilterState {
    /// A filter with an empty search text and every listed flag enabled.
    fn default() -> (r: Self)
        ensures
            r.reason_query@ == Seq::<char>::empty(),
            r.enabled_reasons@ == listed_flags(),
    {
        let mut set: HashSet<u32> = HashSet::with_capacity(24);
        let mut i: usize = 0;
        while i < REASON_COUNT
            invariant
                i <= REASON_COUNT,
                set@ == Set::new(|f: u32| exists|k: int| 0 <= k < i && #[trigger] reason_flag(k) == f),
            decreases REASON_COUNT - i,
        {
            let f = reason_flag_at(i);
            set.insert(f);
            proof {
                assert(reason_flag(i as int) == f);
                assert(set@ =~= Set::new(|g: u32| exists|k: int| 0 <= k < i + 1 && #[trigger] reason_flag(k) == g));
            }
            i = i + 1;
        }
        FilterState { reason_query: String::new(), enabled_reasons: set }
    }
}

impl FilterState {
    /// Whether records with reason mask `reason` pass the filter (see [`reason_allowed`]).
    pub fn is_reason_allowed(&self, reason: u32) -> (b: bool)
        ensures
            b == reason_allowed(self.enabled_reasons@, reason),
    {
        if self.enabled_reasons.is_empty() {
            proof {
                assert(self.enabled_reasons@ =~= Set::<u32>::empty());
            }
            return false;
        }
        if self.enabled_reasons.len() == 24 {
            return true;
        }
        for flag in it: self.enabled_reasons.iter()
            invariant
                it.seq().unref().to_set() == self.enabled_reasons@,
                self.enabled_reasons@.len() != 0,
                self.enabled_reasons@.len() != 24,
                forall|f: u32|
                    self.enabled_reasons@.contains(f) && #[trigger] (reason & f) != 0 ==> exists|k: int|
                        it.index() <= k < it.seq().len() && *it.seq()[k] == f,
        {
            if reason & *flag != 0 {
                proof {
                    assert(it.seq().unref()[it.index() as int] == *flag);
                    assert(it.seq().unref().contains(*flag));
                }
                return true;
            }
        }
        false
    }
}


impl FilterState {
    /// Enables every listed flag (flags outside the list stay as they are).
    pub fn select_all(&mut self)
        ensures
            final(self).enabled_reasons@ == old(self).enabled_reasons@.union(listed_flags()),
            final(self).reason_query == old(self).reason_query,
    {
        let ghost s0 = self.enabled_reasons@;
        let mut i: usize = 0;
        while i < REASON_COUNT
            invariant
                i <= REASON_COUNT,
                self.reason_query == old(self).reason_query,
                s0 == old(self).enabled_reasons@,
                self.enabled_reasons@ == s0.union(
                    Set::new(|f: u32| exists|k: int| 0 <= k < i && #[trigger] reason_flag(k) == f),
                ),
            decreases REASON_COUNT - i,
        {
            let f = reason_flag_at(i);
            self.enabled_reasons.insert(f);
            proof {
                assert(reason_flag(i as int) == f);
                assert(self.enabled_reasons@ =~= s0.union(
                    Set::new(|g: u32| exists|k: int| 0 <= k < i + 1 && #[trigger] reason_flag(k) == g),
                ));
            }
            i = i + 1;
        }
        assert(Set::new(|f: u32| exists|k: int| 0 <= k < REASON_COUNT && #[trigger] reason_flag(k) == f) =~= listed_flags());
    }

    /// Disables every flag.
    pub fn deselect_all(&mut self)
        ensures
            final(self).enabled_reasons@ == Set::<u32>::empty(),
            final(self).reason_query == old(self).reason_query,
    {
        self.enabled_reasons.clear();
    }

    /// Enables exactly the listed flags that were disabled.
    pub fn invert_selection(&mut self)
        ensures
            final(self).enabled_reasons@ == listed_flags().difference(old(self).enabled_reasons@),
            final(self).reason_query == old(self).reason_query,
    {
        let mut inverted: HashSet<u32> = HashSet::with_capacity(24);
        let mut i: usize = 0;
        while i < REASON_COUNT
            invariant
                i <= REASON_COUNT,
                inverted@ == Set::new(
                    |f: u32|
                        (exists|k: int| 0 <= k < i && #[trigger] reason_flag(k) == f)
                            && !self.enabled_reasons@.contains(f),
                ),
            decreases REASON_COUNT - i,
        {
            let f = reason_flag_at(i);
            if !self.enabled_reasons.contains(&f) {
                inverted.insert(f);
            }
            proof {
                assert(reason_flag(i as int) == f);
                assert(inverted@ =~= Set::new(
                    |g: u32|
                        (exists|k: int| 0 <= k < i + 1 && #[trigger] reason_flag(k) == g)
                            && !self.enabled_reasons@.contains(g),
                ));
            }
            i = i + 1;
        }
        assert(inverted@ =~= listed_flags().difference(self.enabled_reasons@));
        self.enabled_reasons = inverted;
    }

    /// Enables exactly the "PC Check" flags.
    pub fn apply_pc_check_preset(&mut self)
        ensures
            final(self).enabled_reasons@ == pc_check_flags(),
            final(self).reason_query == old(self).reason_query,
    {
        self.enabled_reasons.clear();
        self.enabled_reasons.insert(USN_REASON_FILE_CREATE);
        self.enabled_reasons.insert(USN_REASON_FILE_DELETE);
        self.enabled_reasons.insert(USN_REASON_RENAME_NEW_NAME);
        self.enabled_reasons.insert(USN_REASON_BASIC_INFO_CHANGE);
        assert(self.enabled_reasons@ =~= pc_check_flags());
    }
}

/// Whether the reason at position `k` of the list is shown for the search text
/// `query`: always for a blank text, else when its name, lower-cased, holds the
/// trimmed and lower-cased text.
pub open spec fn reason_shown(query: Seq<char>, k: int) -> bool {
    let q = lower(trimmed(query));
    q.len() == 0 || contains_seq(lower(reason_name(k)), q)
}

/// The positions of the shown reasons among the first `n` of the list, in order.
pub open spec fn shown_prefix(query: Seq<char>, n: int) -> Seq<usize>
    decreases n,
{
    if n <= 0 {
        Seq::empty()
    } else if reason_shown(query, n - 1) {
        shown_prefix(query, n - 1).push((n - 1) as usize)
    } else {
        shown_prefix(query, n - 1)
    }
}

impl FilterState {
    /// The positions, in the list of 24 reasons, of the reasons the sidebar shows for
    /// its search text (see [`reason_shown`]).
    pub fn shown_reasons(&self) -> (r: Vec<usize>)
        ensures
            r@ == shown_prefix(self.reason_query@, REASON_COUNT as int),
    {
        let raw = str_chars(self.reason_query.as_str());
        let trimmed_query = trim_chars(raw.as_slice());
        let q = lower_vec(trimmed_query.as_slice());
        let mut r: Vec<usize> = Vec::new();
        let mut i: usize = 0;
        while i < REASON_COUNT
            invariant
                i <= REASON_COUNT,
                q@ == lower(trimmed(self.reason_query@)),
                r@ == shown_prefix(self.reason_query@, i as int),
            decreases REASON_COUNT - i,
        {
            let shown = if q.len() == 0 {
                true
            } else {
                let name = lower_chars(reason_name_at(i));
                contains_chars(name.as_slice(), q.as_slice())
            };
            if shown {
                r.push(i);
            }
            i = i + 1;
        }
        r
    }

    /// Ticks (`on`) or unticks a reason flag in the sidebar.
    pub fn set_reason_enabled(&mut self, flag: u32, on: bool)
        ensures
            final(self).enabled_reasons@ == if on {
                old(self).enabled_reasons@.insert(flag)
            } else {
                old(self).enabled_reasons@.remove(flag)
            },
            final(self).reason_query == old(self).reason_query,
    {
        if on {
            self.enabled_reasons.insert(flag);
        } else {
            self.enabled_reasons.remove(&flag);
        }
    }
}

/// With only listed flags enabled, selecting all enables exactly the listed flags,
/// and every reason mask passes.
pub proof fn law_select_all_allows_everything(enabled: Set<u32>, reason: u32)
    requires
        enabled.subset_of(listed_flags()),
    ensures
        enabled.union(listed_flags()) == listed_flags(),
        reason_allowed(enabled.union(listed_flags()), reason),
{
    lemma_listed_flags_len();
    assert(enabled.union(listed_flags()) =~= listed_flags());
}

/// With no flag enabled, no reason mask passes.
pub proof fn law_deselect_all_allows_nothing(reason: u32)
    ensures
        !reason_allowed(Set::<u32>::empty(), reason),
{
}

/// Inverting twice restores a selection of listed flags.
pub proof fn law_invert_twice_restores(enabled: Set<u32>)
    requires
        enabled.subset_of(listed_flags()),
    ensures
        listed_flags().difference(listed_flags().difference(enabled)) == enabled,
{
    assert(listed_flags().difference(listed_flags().difference(enabled)) =~= enabled);
}

/// Under the "PC Check" preset, a reason mask passes exactly when it carries a
/// creation, deletion, rename-to-new-name or basic information change.
pub proof fn law_pc_check_preset(reason: u32)
    ensures
        reason_allowed(pc_check_flags(), reason) == ((reason & USN_REASON_FILE_CREATE) != 0 || (
        reason & USN_REASON_FILE_DELETE) != 0 || (reason & USN_REASON_RENAME_NEW_NAME) != 0 || (
        reason & USN_REASON_BASIC_INFO_CHANGE) != 0),
{
    let s = pc_check_flags();
    assert(s.len() == 4) by {
        assert(s =~= Set::<u32>::empty().insert(USN_REASON_FILE_CREATE).insert(USN_REASON_FILE_DELETE).insert(
            USN_REASON_RENAME_NEW_NAME,
        ).insert(USN_REASON_BASIC_INFO_CHANGE));
    }
    if (reason & USN_REASON_FILE_CREATE) != 0 {
        assert(s.contains(USN_REASON_FILE_CREATE));
    }
    if (reason & USN_REASON_FILE_DELETE) != 0 {
        assert(s.contains(USN_REASON_FILE_DELETE));
    }
    if (reason & USN_REASON_RENAME_NEW_NAME) != 0 {
        assert(s.contains(USN_REASON_RENAME_NEW_NAME));
    }
    if (reason & USN_REASON_BASIC_INFO_CHANGE) != 0 {
        assert(s.contains(USN_REASON_BASIC_INFO_CHANGE));
    }
}

} // verus!
