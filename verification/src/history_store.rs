//! The registry of submitted transactions awaiting finality.

use vstd::prelude::*;
use crate::assoc::{
    assoc_map, distinct_keys, lemma_assoc_contains, lemma_assoc_dom_len, lemma_assoc_index,
    lemma_assoc_push, lemma_assoc_remove,
};
use crate::backoff::window_elapsed;
use crate::types::{CheckableTransaction, TransactionMetadata};

verus! {

/// A submission is checkable once the confirmation period has fully passed
/// since it was sent: finality is queried only from the next slot on.
pub open spec fn spec_is_checkable(m: TransactionMetadata, slot: u64, period: u64) -> bool {
    slot > m.sent_slot + period
}

/// The checkable submissions of an association sequence, in entry order.
pub open spec fn checkable_list(
    s: Seq<(u64, TransactionMetadata)>,
    slot: u64,
    period: u64,
) -> Seq<CheckableTransaction>
    decreases s.len(),
{
    if s.len() == 0 {
        Seq::empty()
    } else {
        let rest = checkable_list(s.drop_last(), slot, period);
        if spec_is_checkable(s.last().1, slot, period) {
            rest.push(
                CheckableTransaction {
                    due_slot: s.last().1.due_slot,
                    thread_pubkey: s.last().0,
                    signature: s.last().1.signature,
                },
            )
        } else {
            rest
        }
    }
}

/// Under distinct keys the checkable list holds exactly one record per
/// checkable submission of the denoted map.
pub proof fn lemma_checkable_list_props(s: Seq<(u64, TransactionMetadata)>, slot: u64, period: u64)
    requires
        distinct_keys(s),
    ensures
        forall|c: CheckableTransaction| #![trigger checkable_list(s, slot, period).contains(c)]
            checkable_list(s, slot, period).contains(c) <==> {
                &&& assoc_map(s).contains_key(c.thread_pubkey)
                &&& assoc_map(s)[c.thread_pubkey].due_slot == c.due_slot
                &&& assoc_map(s)[c.thread_pubkey].signature == c.signature
                &&& spec_is_checkable(assoc_map(s)[c.thread_pubkey], slot, period)
            },
        checkable_list(s, slot, period).no_duplicates(),
    decreases s.len(),
{
    if s.len() > 0 {
        let rest = s.drop_last();
        let cl = checkable_list(s, slot, period);
        let cl_rest = checkable_list(rest, slot, period);
        assert(forall|j: int| 0 <= j < rest.len() ==> rest[j] == s[j]);
        lemma_checkable_list_props(rest, slot, period);
        lemma_assoc_contains(rest, s.last().0);
        assert(!assoc_map(rest).contains_key(s.last().0));
        lemma_assoc_index(s, s.len() - 1);
        assert forall|k: u64|
            assoc_map(rest).contains_key(k) implies #[trigger] assoc_map(s).contains_key(k)
            && assoc_map(s)[k] == assoc_map(rest)[k] by {
            lemma_assoc_contains(rest, k);
            let i = choose|i: int| 0 <= i < rest.len() && rest[i].0 == k;
            lemma_assoc_index(rest, i);
            lemma_assoc_index(s, i);
        }
        if spec_is_checkable(s.last().1, slot, period) {
            let x = CheckableTransaction {
                due_slot: s.last().1.due_slot,
                thread_pubkey: s.last().0,
                signature: s.last().1.signature,
            };
            assert(cl == cl_rest.push(x));
            assert forall|c: CheckableTransaction| #![trigger cl.contains(c)]
                cl.contains(c) <==> {
                    &&& assoc_map(s).contains_key(c.thread_pubkey)
                    &&& assoc_map(s)[c.thread_pubkey].due_slot == c.due_slot
                    &&& assoc_map(s)[c.thread_pubkey].signature == c.signature
                    &&& spec_is_checkable(assoc_map(s)[c.thread_pubkey], slot, period)
                } by {
                if cl.contains(c) {
                    let i = choose|i: int| 0 <= i < cl.len() && cl[i] == c;
                    if i < cl_rest.len() {
                        assert(cl_rest.contains(c));
                    } else {
                        assert(cl[i] == x);
                    }
                }
                if assoc_map(s).contains_key(c.thread_pubkey)
                    && assoc_map(s)[c.thread_pubkey].due_slot == c.due_slot
                    && assoc_map(s)[c.thread_pubkey].signature == c.signature
                    && spec_is_checkable(assoc_map(s)[c.thread_pubkey], slot, period) {
                    if c.thread_pubkey == s.last().0 {
                        assert(cl[cl.len() - 1] == c);
                    } else {
                        assert(assoc_map(rest).contains_key(c.thread_pubkey)
                            && assoc_map(rest)[c.thread_pubkey] == assoc_map(s)[c.thread_pubkey])
                            by {
                            lemma_assoc_contains(s, c.thread_pubkey);
                            let i = choose|i: int|
                                0 <= i < s.len() && s[i].0 == c.thread_pubkey;
                            assert(i != s.len() - 1);
                            assert(i < rest.len());
                            assert(rest[i].0 == c.thread_pubkey);
                            lemma_assoc_contains(rest, c.thread_pubkey);
                            lemma_assoc_index(rest, i);
                            lemma_assoc_index(s, i);
                        }
                        assert(cl_rest.contains(c));
                        let i = choose|i: int| 0 <= i < cl_rest.len() && cl_rest[i] == c;
                        assert(cl[i] == c);
                    }
                }
            }
            assert(!cl_rest.contains(x));
            assert forall|p: int, q: int| 0 <= p < q < cl.len() implies cl[p] != cl[q] by {
                if q < cl.len() - 1 {
                    assert(cl[p] == cl_rest[p] && cl[q] == cl_rest[q]);
                } else {
                    assert(cl[p] == cl_rest[p]);
                    assert(cl_rest.contains(cl_rest[p]));
                }
            }
        } else {
            assert(cl == cl_rest);
            assert forall|c: CheckableTransaction| #![trigger cl.contains(c)]
                cl.contains(c) <==> {
                    &&& assoc_map(s).contains_key(c.thread_pubkey)
                    &&& assoc_map(s)[c.thread_pubkey].due_slot == c.due_slot
                    &&& assoc_map(s)[c.thread_pubkey].signature == c.signature
                    &&& spec_is_checkable(assoc_map(s)[c.thread_pubkey], slot, period)
                } by {
                if assoc_map(s).contains_key(c.thread_pubkey)
                    && assoc_map(s)[c.thread_pubkey].due_slot == c.due_slot
                    && assoc_map(s)[c.thread_pubkey].signature == c.signature
                    && spec_is_checkable(assoc_map(s)[c.thread_pubkey], slot, period) {
                    if c.thread_pubkey == s.last().0 {
                        assert(assoc_map(s)[c.thread_pubkey] == s.last().1);
                        assert(false);
                    } else {
                        lemma_assoc_contains(s, c.thread_pubkey);
                        let i = choose|i: int| 0 <= i < s.len() && s[i].0 == c.thread_pubkey;
                        lemma_assoc_index(s, i);
                        assert(i != s.len() - 1);
                        assert(i < rest.len());
                        assert(rest[i].0 == c.thread_pubkey);
                        lemma_assoc_contains(rest, c.thread_pubkey);
                        lemma_assoc_index(rest, i);
                        assert(cl_rest.contains(c));
                    }
                }
            }
        }
    }
}

/// In-memory registry of in-flight submissions, owned by the control loop
/// alone. Entries are kept as a vector with pairwise distinct keys;
/// contracts speak about the map it denotes.
#[derive(Debug)]
pub struct HistoryStore {
    entries: Vec<(u64, TransactionMetadata)>,
}

impl View for HistoryStore {
    type V = Map<u64, TransactionMetadata>;

    closed spec fn view(&self) -> Map<u64, TransactionMetadata> {
        assoc_map(self.entries@)
    }
}

impl HistoryStore {
    /// The store's keys are pairwise distinct.
    pub closed spec fn wf(&self) -> bool {
        distinct_keys(self.entries@)
    }

    /// An empty registry.
    pub fn new() -> (r: HistoryStore)
        ensures
            r.wf(),
            r@ == Map::<u64, TransactionMetadata>::empty(),
    {
        HistoryStore { entries: Vec::new() }
    }

    /// How many submissions are tracked.
    pub fn len(&self) -> (r: usize)
        requires
            self.wf(),
        ensures
            r == self@.dom().len(),
            self@.dom().finite(),
    {
        proof {
            lemma_assoc_dom_len(self.entries@);
        }
        self.entries.len()
    }

    /// The index holding a key, if any.
    fn index_of(&self, k: u64) -> (r: Option<usize>)
        ensures
            match r {
                Some(i) => i < self.entries@.len() && self.entries@[i as int].0 == k,
                None => forall|i: int| 0 <= i < self.entries@.len() ==> self.entries@[i].0 != k,
            },
    {
        let mut i: usize = 0;
        while i < self.entries.len()
            invariant
                i <= self.entries@.len(),
                forall|j: int| 0 <= j < i ==> self.entries@[j].0 != k,
            decreases self.entries@.len() - i,
        {
            if self.entries[i].0 == k {
                return Some(i);
            }
            i += 1;
        }
        None
    }

    /// Whether a thread has a submission in flight.
    pub fn contains_key(&self, k: u64) -> (r: bool)
        ensures
            r == self@.dom().contains(k),
    {
        proof {
            lemma_assoc_contains(self.entries@, k);
        }
        self.index_of(k).is_some()
    }

    /// The tracked submission of a thread.
    pub fn get(&self, k: u64) -> (r: Option<TransactionMetadata>)
        requires
            self.wf(),
        ensures
            match r {
                Some(m) => self@.dom().contains(k) && m == self@[k],
                None => !self@.dom().contains(k),
            },
    {
        proof {
            lemma_assoc_contains(self.entries@, k);
        }
        match self.index_of(k) {
            Some(i) => {
                proof {
                    lemma_assoc_index(self.entries@, i as int);
                }
                Some(self.entries[i].1)
            },
            None => None,
        }
    }

    /// Track a submission for a thread that has none in flight.
    pub fn insert_fresh(&mut self, k: u64, m: TransactionMetadata)
        requires
            old(self).wf(),
            !old(self)@.dom().contains(k),
        ensures
            final(self).wf(),
            final(self)@ == old(self)@.insert(k, m),
    {
        proof {
            lemma_assoc_contains(self.entries@, k);
            lemma_assoc_push(self.entries@, k, m);
        }
        self.entries.push((k, m));
    }

    /// Stop tracking a thread's submission, returning it if there was one.
    pub fn remove_key(&mut self, k: u64) -> (r: Option<TransactionMetadata>)
        requires
            old(self).wf(),
        ensures
            final(self).wf(),
            final(self)@ == old(self)@.remove(k),
            match r {
                Some(m) => old(self)@.dom().contains(k) && m == old(self)@[k],
                None => !old(self)@.dom().contains(k),
            },
    {
        proof {
            lemma_assoc_contains(self.entries@, k);
        }
        match self.index_of(k) {
            Some(i) => {
                proof {
                    lemma_assoc_index(self.entries@, i as int);
                    lemma_assoc_remove(self.entries@, i as int);
                    assert forall|p: int, q: int|
                        0 <= p < q < self.entries@.remove(i as int).len() implies self.entries@.remove(
                        i as int,
                    )[p].0 != self.entries@.remove(i as int)[q].0 by {
                        let s = self.entries@;
                        let pp = if p < i { p } else { p + 1 };
                        let qq = if q < i { q } else { q + 1 };
                        assert(s.remove(i as int)[p] == s[pp]);
                        assert(s.remove(i as int)[q] == s[qq]);
                    }
                }
                let (_, m) = self.entries.remove(i);
                Some(m)
            },
            None => {
                proof {
                    assert(old(self)@.remove(k) =~= old(self)@);
                }
                None
            },
        }
    }

    /// The submissions whose confirmation period has passed at `slot` and
    /// whose finality should therefore be queried.
    pub fn checkable_transactions(&self, slot: u64, period: u64) -> (r: Vec<CheckableTransaction>)
        requires
            self.wf(),
        ensures
            forall|c: CheckableTransaction| #![trigger r@.contains(c)]
                r@.contains(c) <==> {
                    &&& self@.contains_key(c.thread_pubkey)
                    &&& self@[c.thread_pubkey].due_slot == c.due_slot
                    &&& self@[c.thread_pubkey].signature == c.signature
                    &&& spec_is_checkable(self@[c.thread_pubkey], slot, period)
                },
            r@.no_duplicates(),
    {
        let mut r: Vec<CheckableTransaction> = Vec::new();
        let mut i: usize = 0;
        proof {
            assert(self.entries@.take(0) =~= Seq::<(u64, TransactionMetadata)>::empty());
            assert(r@ =~= checkable_list(self.entries@.take(0), slot, period));
        }
        while i < self.entries.len()
            invariant
                self.wf(),
                i <= self.entries@.len(),
                r@ == checkable_list(self.entries@.take(i as int), slot, period),
            decreases self.entries@.len() - i,
        {
            let (k, m) = self.entries[i];
            let checkable = window_elapsed(m.sent_slot, slot, period);
            proof {
                assert(self.entries@.take(i as int + 1).drop_last() =~= self.entries@.take(
                    i as int,
                ));
                assert(self.entries@.take(i as int + 1).last() == self.entries@[i as int]);
            }
            if checkable {
                r.push(
                    CheckableTransaction { due_slot: m.due_slot, thread_pubkey: k, signature: m.signature },
                );
            }
            i += 1;
        }
        proof {
            assert(self.entries@.take(self.entries@.len() as int) =~= self.entries@);
            lemma_checkable_list_props(self.entries@, slot, period);
        }
        r
    }
}

} // verus!
