//! The registry of threads currently due for execution.

use vstd::prelude::*;
use crate::assoc::{
    assoc_map, distinct_keys, lemma_assoc_contains, lemma_assoc_dom_len, lemma_assoc_index,
    lemma_assoc_push, lemma_assoc_remove, lemma_assoc_update,
};
use crate::backoff::{backoff_elapsed, spec_backoff_threshold, window_elapsed};
use crate::types::ExecutableThreadMetadata;

verus! {

/// A thread is eligible when its backoff threshold has passed and, for a
/// worker outside an active pool, the thread has additionally gone
/// unexecuted for the whole timeout window.
pub open spec fn spec_is_eligible(
    m: ExecutableThreadMetadata,
    slot: u64,
    absent: bool,
    window: u64,
) -> bool {
    &&& slot >= spec_backoff_threshold(m.due_slot, m.simulation_failures)
    &&& (absent ==> slot > m.due_slot + window)
}

/// A failure count one past `max_failures`: the metadata of a thread that
/// the next prune will drop.
pub open spec fn spec_over_failed(m: ExecutableThreadMetadata, max_failures: u32) -> bool {
    m.simulation_failures > max_failures
}

/// The due-thread map with every over-failed record removed.
pub open spec fn spec_pruned(
    m: Map<u64, ExecutableThreadMetadata>,
    max_failures: u32,
) -> Map<u64, ExecutableThreadMetadata> {
    Map::new(
        |k: u64| m.contains_key(k) && !spec_over_failed(m[k], max_failures),
        |k: u64| m[k],
    )
}

/// The eligible `(thread, due_slot)` pairs of an association sequence, in
/// entry order.
pub open spec fn eligible_list(
    s: Seq<(u64, ExecutableThreadMetadata)>,
    slot: u64,
    absent: bool,
    window: u64,
) -> Seq<(u64, u64)>
    decreases s.len(),
{
    if s.len() == 0 {
        Seq::empty()
    } else {
        let rest = eligible_list(s.drop_last(), slot, absent, window);
        if spec_is_eligible(s.last().1, slot, absent, window) {
            rest.push((s.last().0, s.last().1.due_slot))
        } else {
            rest
        }
    }
}

/// Under distinct keys the eligible list holds exactly one pair per eligible
/// thread of the denoted map.
pub proof fn lemma_eligible_list_props(
    s: Seq<(u64, ExecutableThreadMetadata)>,
    slot: u64,
    absent: bool,
    window: u64,
)
    requires
        distinct_keys(s),
    ensures
        forall|k: u64, d: u64| #![trigger eligible_list(s, slot, absent, window).contains((k, d))]
            eligible_list(s, slot, absent, window).contains((k, d)) <==> {
                &&& assoc_map(s).contains_key(k)
                &&& assoc_map(s)[k].due_slot == d
                &&& spec_is_eligible(assoc_map(s)[k], slot, absent, window)
            },
        eligible_list(s, slot, absent, window).no_duplicates(),
    decreases s.len(),
{
    if s.len() > 0 {
        let rest = s.drop_last();
        let el = eligible_list(s, slot, absent, window);
        let el_rest = eligible_list(rest, slot, absent, window);
        assert(forall|j: int| 0 <= j < rest.len() ==> rest[j] == s[j]);
        lemma_eligible_list_props(rest, slot, absent, window);
        lemma_assoc_contains(rest, s.last().0);
        assert(!assoc_map(rest).contains_key(s.last().0));
        lemma_assoc_index(s, s.len() - 1);
        assert forall|k: u64|
            assoc_map(rest).contains_key(k) implies #[trigger] assoc_map(s).contains_key(k)
            && assoc_map(s)[k] == assoc_map(rest)[k] by {
            lemma_assoc_contains(rest, k);
            let i = choose|i: int| 0 <= i < rest.len() && rest[i].0 == k;
            lemma_assoc_index(rest, i);
            lemma_assoc_index(s, i);
        }
        if spec_is_eligible(s.last().1, slot, absent, window) {
            let x = (s.last().0, s.last().1.due_slot);
            assert(el == el_rest.push(x));
            assert forall|k: u64, d: u64| #![trigger el.contains((k, d))]
                el.contains((k, d)) <==> {
                    &&& assoc_map(s).contains_key(k)
                    &&& assoc_map(s)[k].due_slot == d
                    &&& spec_is_eligible(assoc_map(s)[k], slot, absent, window)
                } by {
                if el.contains((k, d)) {
                    let i = choose|i: int| 0 <= i < el.len() && el[i] == (k, d);
                    if i < el_rest.len() {
                        assert(el_rest.contains((k, d)));
                    } else {
                        assert(el[i] == x);
                    }
                }
                if assoc_map(s).contains_key(k) && assoc_map(s)[k].due_slot == d
                    && spec_is_eligible(assoc_map(s)[k], slot, absent, window) {
                    if k == s.last().0 {
                        assert(el[el.len() - 1] == (k, d));
                    } else {
                        assert(assoc_map(rest).contains_key(k) && assoc_map(rest)[k]
                            == assoc_map(s)[k]) by {
                            lemma_assoc_contains(s, k);
                            let i = choose|i: int| 0 <= i < s.len() && s[i].0 == k;
                            assert(i != s.len() - 1);
                            assert(i < rest.len());
                            assert(rest[i].0 == k);
                            lemma_assoc_contains(rest, k);
                            lemma_assoc_index(rest, i);
                            lemma_assoc_index(s, i);
                        }
                        assert(el_rest.contains((k, d)));
                        let i = choose|i: int| 0 <= i < el_rest.len() && el_rest[i] == (k, d);
                        assert(el[i] == (k, d));
                    }
                }
            }
            assert(!el_rest.contains(x));
            assert forall|p: int, q: int| 0 <= p < q < el.len() implies el[p] != el[q] by {
                if q < el.len() - 1 {
                    assert(el[p] == el_rest[p] && el[q] == el_rest[q]);
                } else {
                    assert(el[p] == el_rest[p]);
                    assert(el_rest.contains(el_rest[p]));
                }
            }
        } else {
            assert(el == el_rest);
            assert forall|k: u64, d: u64| #![trigger el.contains((k, d))]
                el.contains((k, d)) <==> {
                    &&& assoc_map(s).contains_key(k)
                    &&& assoc_map(s)[k].due_slot == d
                    &&& spec_is_eligible(assoc_map(s)[k], slot, absent, window)
                } by {
                if assoc_map(s).contains_key(k) && assoc_map(s)[k].due_slot == d
                    && spec_is_eligible(assoc_map(s)[k], slot, absent, window) {
                    if k == s.last().0 {
                        assert(assoc_map(s)[k] == s.last().1);
                        assert(false);
                    } else {
                        lemma_assoc_contains(s, k);
                        let i = choose|i: int| 0 <= i < s.len() && s[i].0 == k;
                        lemma_assoc_index(s, i);
                        assert(i != s.len() - 1);
                        assert(i < rest.len());
                        assert(rest[i].0 == k);
                        lemma_assoc_contains(rest, k);
                        lemma_assoc_index(rest, i);
                        assert(el_rest.contains((k, d)));
                    }
                }
            }
        }
    }
}

/// In-memory registry of candidate threads and their retry metadata, owned
/// by the control loop alone. Entries are kept as a vector with pairwise
/// distinct keys; contracts speak about the map it denotes.
#[derive(Debug)]
pub struct ThreadStore {
    entries: Vec<(u64, ExecutableThreadMetadata)>,
}

impl View for ThreadStore {
    type V = Map<u64, ExecutableThreadMetadata>;

    closed spec fn view(&self) -> Map<u64, ExecutableThreadMetadata> {
        assoc_map(self.entries@)
    }
}

impl ThreadStore {
    /// The store's keys are pairwise distinct.
    pub closed spec fn wf(&self) -> bool {
        distinct_keys(self.entries@)
    }

    /// An empty registry.
    pub fn new() -> (r: ThreadStore)
        ensures
            r.wf(),
            r@ == Map::<u64, ExecutableThreadMetadata>::empty(),
    {
        ThreadStore { entries: Vec::new() }
    }

    /// How many threads are tracked.
    pub fn len(&self) -> (r: usize)
        requires
            self.wf(),
        ensures
            r == self@.dom().len(),
            self@.dom().finite(),
    {
        proof {
            lemma_assoc_dom_len(self.entries@);
        }
        self.entries.len()
    }

    /// The index holding a key, if any.
    fn index_of(&self, k: u64) -> (r: Option<usize>)
        ensures
            match r {
                Some(i) => i < self.entries@.len() && self.entries@[i as int].0 == k,
                None => forall|i: int| 0 <= i < self.entries@.len() ==> self.entries@[i].0 != k,
            },
    {
        let mut i: usize = 0;
        while i < self.entries.len()
            invariant
                i <= self.entries@.len(),
                forall|j: int| 0 <= j < i ==> self.entries@[j].0 != k,
            decreases self.entries@.len() - i,
        {
            if self.entries[i].0 == k {
                return Some(i);
            }
            i += 1;
        }
        None
    }

    /// Whether a thread is tracked.
    pub fn contains_key(&self, k: u64) -> (r: bool)
        ensures
            r == self@.dom().contains(k),
    {
        proof {
            lemma_assoc_contains(self.entries@, k);
        }
        self.index_of(k).is_some()
    }

    /// The retry metadata of a tracked thread.
    pub fn get(&self, k: u64) -> (r: Option<ExecutableThreadMetadata>)
        requires
            self.wf(),
        ensures
            match r {
                Some(m) => self@.dom().contains(k) && m == self@[k],
                None => !self@.dom().contains(k),
            },
    {
        proof {
            lemma_assoc_contains(self.entries@, k);
        }
        match self.index_of(k) {
            Some(i) => {
                proof {
                    lemma_assoc_index(self.entries@, i as int);
                }
                Some(self.entries[i].1)
            },
            None => None,
        }
    }

    /// Track a thread that is not yet tracked.
    pub fn insert_fresh(&mut self, k: u64, m: ExecutableThreadMetadata)
        requires
            old(self).wf(),
            !old(self)@.dom().contains(k),
        ensures
            final(self).wf(),
            final(self)@ == old(self)@.insert(k, m),
    {
        proof {
            lemma_assoc_contains(self.entries@, k);
            lemma_assoc_push(self.entries@, k, m);
        }
        self.entries.push((k, m));
    }

    /// Stop tracking a thread, returning its metadata if it was tracked.
    pub fn remove_key(&mut self, k: u64) -> (r: Option<ExecutableThreadMetadata>)
        requires
            old(self).wf(),
        ensures
            final(self).wf(),
            final(self)@ == old(self)@.remove(k),
            match r {
                Some(m) => old(self)@.dom().contains(k) && m == old(self)@[k],
                None => !old(self)@.dom().contains(k),
            },
    {
        proof {
            lemma_assoc_contains(self.entries@, k);
        }
        match self.index_of(k) {
            Some(i) => {
                proof {
                    lemma_assoc_index(self.entries@, i as int);
                    lemma_assoc_remove(self.entries@, i as int);
                    assert forall|p: int, q: int|
                        0 <= p < q < self.entries@.remove(i as int).len() implies self.entries@.remove(
                        i as int,
                    )[p].0 != self.entries@.remove(i as int)[q].0 by {
                        let s = self.entries@;
                        let pp = if p < i { p } else { p + 1 };
                        let qq = if q < i { q } else { q + 1 };
                        assert(s.remove(i as int)[p] == s[pp]);
                        assert(s.remove(i as int)[q] == s[qq]);
                    }
                }
                let (_, m) = self.entries.remove(i);
                Some(m)
            },
            None => {
                proof {
                    assert(old(self)@.remove(k) =~= old(self)@);
                }
                None
            },
        }
    }

    /// Drop every thread whose failure count crossed `max_failures`,
    /// returning how many were dropped.
    pub fn prune(&mut self, max_failures: u32) -> (dropped: usize)
        requires
            old(self).wf(),
        ensures
            final(self).wf(),
            final(self)@ == spec_pruned(old(self)@, max_failures),
            old(self)@.dom().finite(),
            final(self)@.dom().finite(),
            old(self)@.dom().len() == final(self)@.dom().len() + dropped,
    {
        let ghost s0 = self.entries@;
        let mut keep: Vec<(u64, ExecutableThreadMetadata)> = Vec::new();
        let mut dropped: usize = 0;
        let mut i: usize = 0;
        proof {
            assert(s0.take(0) =~= Seq::<(u64, ExecutableThreadMetadata)>::empty());
            assert(assoc_map(keep@) =~= spec_pruned(assoc_map(s0.take(0)), max_failures));
        }
        while i < self.entries.len()
            invariant
                distinct_keys(s0),
                self.entries@ == s0,
                i <= s0.len(),
                keep@.len() + dropped == i,
                distinct_keys(keep@),
                forall|p: int| #![trigger keep@[p]]
                    0 <= p < keep@.len() ==> assoc_map(s0.take(i as int)).dom().contains(
                        keep@[p].0,
                    ),
                assoc_map(keep@) == spec_pruned(assoc_map(s0.take(i as int)), max_failures),
            decreases s0.len() - i,
        {
            let (k, m) = self.entries[i];
            proof {
                assert(forall|j: int| 0 <= j < i ==> s0.take(i as int)[j] == s0[j]);
                lemma_assoc_contains(s0.take(i as int), k);
                assert(!assoc_map(s0.take(i as int)).contains_key(k));
                assert(s0.take(i as int + 1).drop_last() =~= s0.take(i as int));
                assert(s0.take(i as int + 1).last() == s0[i as int]);
                assert(assoc_map(s0.take(i as int + 1)) == assoc_map(s0.take(i as int)).insert(
                    k,
                    m,
                ));
            }
            if m.simulation_failures > max_failures {
                dropped += 1;
                proof {
                    assert(assoc_map(keep@) =~= spec_pruned(
                        assoc_map(s0.take(i as int + 1)),
                        max_failures,
                    ));
                }
            } else {
                proof {
                    assert(forall|p: int| 0 <= p < keep@.len() ==> #[trigger] keep@[p].0 != k);
                    lemma_assoc_push(keep@, k, m);
                }
                keep.push((k, m));
                proof {
                    assert(assoc_map(keep@) =~= spec_pruned(
                        assoc_map(s0.take(i as int + 1)),
                        max_failures,
                    ));
                }
            }
            i += 1;
        }
        proof {
            assert(s0.take(s0.len() as int) =~= s0);
            lemma_assoc_dom_len(s0);
            lemma_assoc_dom_len(keep@);
        }
        self.entries = keep;
        dropped
    }

    /// The `(thread, due_slot)` pairs eligible at `slot`, under backoff and,
    /// when the worker is absent from an active pool, the timeout window.
    pub fn eligible_threads(&self, slot: u64, absent: bool, window: u64) -> (r: Vec<(u64, u64)>)
        requires
            self.wf(),
        ensures
            forall|k: u64, d: u64| #![trigger r@.contains((k, d))]
                r@.contains((k, d)) <==> {
                    &&& self@.contains_key(k)
                    &&& self@[k].due_slot == d
                    &&& spec_is_eligible(self@[k], slot, absent, window)
                },
            r@.no_duplicates(),
    {
        let mut r: Vec<(u64, u64)> = Vec::new();
        let mut i: usize = 0;
        proof {
            assert(self.entries@.take(0) =~= Seq::<(u64, ExecutableThreadMetadata)>::empty());
            assert(r@ =~= eligible_list(self.entries@.take(0), slot, absent, window));
        }
        while i < self.entries.len()
            invariant
                self.wf(),
                i <= self.entries@.len(),
                r@ == eligible_list(self.entries@.take(i as int), slot, absent, window),
            decreases self.entries@.len() - i,
        {
            let (k, m) = self.entries[i];
            let eligible = backoff_elapsed(&m, slot) && (!absent || window_elapsed(
                m.due_slot,
                slot,
                window,
            ));
            proof {
                assert(self.entries@.take(i as int + 1).drop_last() =~= self.entries@.take(
                    i as int,
                ));
                assert(self.entries@.take(i as int + 1).last() == self.entries@[i as int]);
            }
            if eligible {
                r.push((k, m.due_slot));
            }
            i += 1;
        }
        proof {
            assert(self.entries@.take(self.entries@.len() as int) =~= self.entries@);
            lemma_eligible_list_props(self.entries@, slot, absent, window);
        }
        r
    }

    /// Overwrite the metadata of a tracked thread.
    pub fn set_value(&mut self, k: u64, m: ExecutableThreadMetadata)
        requires
            old(self).wf(),
            old(self)@.dom().contains(k),
        ensures
            final(self).wf(),
            final(self)@ == old(self)@.insert(k, m),
    {
        proof {
            lemma_assoc_contains(self.entries@, k);
        }
        match self.index_of(k) {
            Some(i) => {
                proof {
                    lemma_assoc_update(self.entries@, i as int, m);
                    let s = self.entries@;
                    let t = s.update(i as int, (k, m));
                    assert forall|p: int, q: int| 0 <= p < q < t.len() implies t[p].0 != t[q].0 by {
                        assert(t[p].0 == s[p].0);
                        assert(t[q].0 == s[q].0);
                    }
                }
                self.entries[i] = (k, m);
            },
            None => {
                proof {
                    assert(false);
                }
            },
        }
    }
}

} // verus!
