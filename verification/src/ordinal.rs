//! Ordinals and ordered ordinal sets.
//!
//! An ordinal names one admissible value of a schedule's time unit (a second,
//! an hour, a month). A set of ordinals is kept as a strictly increasing
//! vector, so iteration order is the numeric order, as schedule expansion
//! requires.

use vstd::prelude::*;

verus! {

/// A strictly increasing sequence: sorted with no repeats.
pub open spec fn sorted_strict(s: Seq<u32>) -> bool {
    forall|i: int, j: int| 0 <= i < j < s.len() ==> s[i] < s[j]
}

/// The ordinals `lo..=hi` in increasing order; empty when `lo > hi`.
pub open spec fn spec_range_seq(lo: u32, hi: u32) -> Seq<u32> {
    Seq::new(
        if lo <= hi {
            (hi - lo + 1) as nat
        } else {
            0
        },
        |i: int| (lo + i) as u32,
    )
}

/// Every element lies in `min..=max`.
pub open spec fn within_bounds(s: Seq<u32>, min: u32, max: u32) -> bool {
    forall|i: int| 0 <= i < s.len() ==> min <= #[trigger] s[i] <= max
}

/// A strictly increasing sequence bounded by `min..=max` has at most
/// `max - min + 1` elements.
pub proof fn lemma_sorted_bounds_len(s: Seq<u32>, min: u32, max: u32)
    requires
        sorted_strict(s),
        within_bounds(s, min, max),
        min <= max,
    ensures
        s.len() <= max - min + 1,
    decreases s.len(),
{
    if s.len() > 1 {
        let tail = s.skip(1);
        assert(forall|i: int| 0 <= i < tail.len() ==> tail[i] == s[i + 1]);
        assert(s[0] >= min);
        assert forall|i: int| 0 <= i < tail.len() implies (min + 1) as u32 <= #[trigger] tail[i]
            <= max by {
            assert(s[0] < s[i + 1]);
        }
        assert(s[1] <= max && s[1] >= min + 1);
        lemma_sorted_bounds_len(tail, (min + 1) as u32, max);
    }
}

/// Every `step`-th element of a sequence, starting with the first.
pub open spec fn spec_stepped(s: Seq<u32>, step: nat) -> Seq<u32>
    recommends
        step >= 1,
    decreases s.len(),
    when step >= 1
{
    if s.len() == 0 {
        Seq::empty()
    } else if s.len() <= step {
        seq![s[0]]
    } else {
        seq![s[0]] + spec_stepped(s.skip(step as int), step)
    }
}

/// Stepping keeps a strictly increasing sequence strictly increasing, and
/// keeps its first element.
pub proof fn lemma_stepped_sorted(s: Seq<u32>, step: nat)
    requires
        sorted_strict(s),
        step >= 1,
    ensures
        sorted_strict(spec_stepped(s, step)),
        spec_stepped(s, step).len() > 0 ==> s.len() > 0 && spec_stepped(s, step)[0] == s[0],
        s.len() > 0 ==> spec_stepped(s, step).len() > 0,
    decreases s.len(),
{
    if s.len() == 0 || s.len() <= step {
    } else {
        let tail = s.skip(step as int);
        assert(forall|i: int| 0 <= i < tail.len() ==> tail[i] == s[i + step]);
        lemma_stepped_sorted(tail, step);
        let r = spec_stepped(s, step);
        let rt = spec_stepped(tail, step);
        assert(r == seq![s[0]] + rt);
        assert(r[0] == s[0]);
        assert forall|i: int, j: int| 0 <= i < j < r.len() implies r[i] < r[j] by {
            assert(r[j] == rt[j - 1]);
            if i == 0 {
                assert(rt[0] == tail[0]);
                if j - 1 > 0 {
                    assert(rt[0] < rt[j - 1]);
                }
                assert(s[0] < tail[0]);
            } else {
                assert(r[i] == rt[i - 1]);
            }
        }
    }
}

/// An ordered set of ordinals: the admissible values of one time unit in a
/// schedule. Held as a strictly increasing vector; the view is the sequence
/// of members in increasing order.
#[derive(Debug, Clone, PartialEq, Eq)]
pub struct OrdinalSet {
    items: Vec<u32>,
}

impl View for OrdinalSet {
    type V = Seq<u32>;

    closed spec fn view(&self) -> Seq<u32> {
        self.items@
    }
}

impl OrdinalSet {
    /// The members are strictly increasing.
    pub open spec fn wf(&self) -> bool {
        sorted_strict(self@)
    }

    /// The empty set.
    pub fn new() -> (r: OrdinalSet)
        ensures
            r.wf(),
            r@ == Seq::<u32>::empty(),
    {
        OrdinalSet { items: Vec::new() }
    }

    /// How many ordinals the set holds.
    pub fn len(&self) -> (r: usize)
        ensures
            r == self@.len(),
    {
        self.items.len()
    }

    /// Whether the set is empty.
    pub fn is_empty(&self) -> (r: bool)
        ensures
            r == (self@.len() == 0),
    {
        self.items.len() == 0
    }

    /// The member at a position, in increasing order.
    pub fn ordinal_at(&self, i: usize) -> (r: u32)
        requires
            i < self@.len(),
        ensures
            r == self@[i as int],
    {
        self.items[i]
    }

    /// Whether an ordinal is a member.
    pub fn contains(&self, ordinal: u32) -> (r: bool)
        ensures
            r == self@.contains(ordinal),
    {
        let mut i: usize = 0;
        while i < self.items.len()
            invariant
                i <= self.items@.len(),
                forall|j: int| 0 <= j < i ==> self.items@[j] != ordinal,
            decreases self.items@.len() - i,
        {
            if self.items[i] == ordinal {
                return true;
            }
            i += 1;
        }
        false
    }

    /// The set holding exactly one ordinal.
    pub fn singleton(ordinal: u32) -> (r: OrdinalSet)
        ensures
            r.wf(),
            r@ == seq![ordinal],
    {
        let mut items: Vec<u32> = Vec::new();
        items.push(ordinal);
        proof {
            assert(items@ =~= seq![ordinal]);
        }
        OrdinalSet { items }
    }

    /// The set of every ordinal in `lo..=hi`; empty when `lo > hi`.
    pub fn from_range(lo: u32, hi: u32) -> (r: OrdinalSet)
        ensures
            r.wf(),
            r@ == spec_range_seq(lo, hi),
    {
        let mut items: Vec<u32> = Vec::new();
        if lo <= hi {
            let mut next: u32 = lo;
            while next < hi
                invariant
                    lo <= next <= hi,
                    items@.len() == next - lo,
                    forall|j: int| 0 <= j < items@.len() ==> items@[j] == lo + j,
                decreases hi - next,
            {
                items.push(next);
                next += 1;
            }
            items.push(next);
        }
        proof {
            assert(items@ =~= spec_range_seq(lo, hi));
        }
        OrdinalSet { items }
    }

    /// Insert an ordinal, keeping the order; a present ordinal stays single.
    pub fn insert(&mut self, ordinal: u32)
        requires
            old(self).wf(),
        ensures
            final(self).wf(),
            forall|x: u32| #![trigger final(self)@.contains(x)]
                final(self)@.contains(x) == (old(self)@.contains(x) || x == ordinal),
    {
        let mut i: usize = 0;
        while i < self.items.len() && self.items[i] < ordinal
            invariant
                self == old(self),
                i <= self.items@.len(),
                forall|j: int| 0 <= j < i ==> self.items@[j] < ordinal,
            decreases self.items@.len() - i,
        {
            i += 1;
        }
        if i < self.items.len() && self.items[i] == ordinal {
            proof {
                assert(self@.contains(ordinal));
            }
            return ;
        }
        proof {
            assert(forall|j: int| i <= j < self.items@.len() ==> self.items@[j] > ordinal);
        }
        self.items.insert(i, ordinal);
        proof {
            let s0 = old(self).items@;
            let s1 = self.items@;
            assert(s1 == s0.insert(i as int, ordinal));
            assert(forall|j: int| 0 <= j < i ==> s1[j] == s0[j]);
            assert(s1[i as int] == ordinal);
            assert(forall|j: int| i < j < s1.len() ==> s1[j] == s0[j - 1]);
            assert forall|p: int, q: int| 0 <= p < q < s1.len() implies s1[p] < s1[q] by {}
            assert forall|x: u32| #[trigger]
                s1.contains(x) == (s0.contains(x) || x == ordinal) by {
                if s1.contains(x) {
                    let j = choose|j: int| 0 <= j < s1.len() && s1[j] == x;
                    if j < i {
                        assert(s0[j] == x);
                        assert(s0.contains(x));
                    } else if j == i {
                    } else {
                        assert(s0[j - 1] == x);
                        assert(s0.contains(x));
                    }
                }
                if s0.contains(x) {
                    let j = choose|j: int| 0 <= j < s0.len() && s0[j] == x;
                    if j < i {
                        assert(s1[j] == x);
                    } else {
                        assert(s1[j + 1] == x);
                    }
                }
                if x == ordinal {
                    assert(s1[i as int] == x);
                }
            }
        }
    }

    /// An owned copy of the set.
    pub fn duplicate(&self) -> (r: OrdinalSet)
        ensures
            r@ == self@,
            r.wf() == self.wf(),
    {
        let mut items: Vec<u32> = Vec::new();
        let mut i: usize = 0;
        while i < self.items.len()
            invariant
                i <= self.items@.len(),
                items@ == self.items@.take(i as int),
            decreases self.items@.len() - i,
        {
            items.push(self.items[i]);
            proof {
                assert(self.items@.take(i as int + 1) =~= self.items@.take(i as int).push(
                    self.items@[i as int],
                ));
            }
            i += 1;
        }
        proof {
            assert(self.items@.take(self.items@.len() as int) =~= self.items@);
        }
        OrdinalSet { items }
    }

    /// Every `step`-th member, starting with the smallest.
    pub fn step_by(&self, step: u32) -> (r: OrdinalSet)
        requires
            self.wf(),
            step >= 1,
        ensures
            r.wf(),
            r@ == spec_stepped(self@, step as nat),
    {
        let mut items: Vec<u32> = Vec::new();
        let st = step as usize;
        let mut i: usize = 0;
        proof {
            assert(self.items@.skip(0) =~= self.items@);
        }
        while i < self.items.len()
            invariant
                self.wf(),
                st == step,
                step >= 1,
                i <= self.items@.len(),
                spec_stepped(self.items@, step as nat) == items@ + spec_stepped(
                    self.items@.skip(i as int),
                    step as nat,
                ),
            decreases self.items@.len() - i,
        {
            let ghost suf = self.items@.skip(i as int);
            let ghost items0 = items@;
            items.push(self.items[i]);
            let next: usize = if self.items.len() - i <= st {
                self.items.len()
            } else {
                i + st
            };
            proof {
                assert(suf.len() == self.items@.len() - i);
                assert(suf[0] == self.items@[i as int]);
                if suf.len() <= step {
                    assert(spec_stepped(suf, step as nat) == seq![suf[0]]);
                    assert(self.items@.skip(next as int) =~= Seq::<u32>::empty());
                    assert(spec_stepped(self.items@.skip(next as int), step as nat)
                        =~= Seq::<u32>::empty());
                } else {
                    assert(spec_stepped(suf, step as nat) == seq![suf[0]] + spec_stepped(
                        suf.skip(st as int),
                        step as nat,
                    ));
                    assert(suf.skip(st as int) =~= self.items@.skip(next as int));
                }
                assert(items@ =~= items0 + seq![suf[0]]);
                assert(items@ + spec_stepped(self.items@.skip(next as int), step as nat)
                    =~= items0 + spec_stepped(suf, step as nat));
            }
            i = next;
        }
        proof {
            assert(self.items@.skip(i as int) =~= Seq::<u32>::empty());
            assert(spec_stepped(self.items@.skip(i as int), step as nat) =~= Seq::<u32>::empty());
            assert(items@ =~= items@ + Seq::<u32>::empty());
            lemma_stepped_sorted(self.items@, step as nat);
        }
        OrdinalSet { items }
    }
}

} // verus!
