//! Association sequences denoting finite maps.
//!
//! The engine's stores hold their entries in vectors of key/value pairs with
//! pairwise-distinct keys; contracts speak about the map such a vector denotes.

use vstd::prelude::*;

verus! {

/// The finite map denoted by an association sequence. Later entries win,
/// though every store in this crate keeps its keys distinct, so the order
/// never matters.
pub open spec fn assoc_map<V>(s: Seq<(u64, V)>) -> Map<u64, V>
    decreases s.len(),
{
    if s.len() == 0 {
        Map::empty()
    } else {
        assoc_map(s.drop_last()).insert(s.last().0, s.last().1)
    }
}

/// All keys of the association sequence are pairwise distinct.
pub open spec fn distinct_keys<V>(s: Seq<(u64, V)>) -> bool {
    forall|i: int, j: int| 0 <= i < j < s.len() ==> s[i].0 != s[j].0
}

/// A key is in the denoted map exactly when some entry carries it.
pub proof fn lemma_assoc_contains<V>(s: Seq<(u64, V)>, k: u64)
    ensures
        assoc_map(s).contains_key(k) <==> exists|i: int| 0 <= i < s.len() && s[i].0 == k,
    decreases s.len(),
{
    if s.len() > 0 {
        lemma_assoc_contains(s.drop_last(), k);
        if s.last().0 == k {
            assert(s[s.len() - 1].0 == k);
        } else if assoc_map(s).contains_key(k) {
            let i = choose|i: int| 0 <= i < s.drop_last().len() && s.drop_last()[i].0 == k;
            assert(s[i].0 == k);
        } else if exists|i: int| 0 <= i < s.len() && s[i].0 == k {
            let i = choose|i: int| 0 <= i < s.len() && s[i].0 == k;
            assert(s.drop_last()[i].0 == k);
        }
    }
}

/// Under distinct keys, each entry gives the value the denoted map assigns
/// to its key.
pub proof fn lemma_assoc_index<V>(s: Seq<(u64, V)>, i: int)
    requires
        distinct_keys(s),
        0 <= i < s.len(),
    ensures
        assoc_map(s).contains_key(s[i].0),
        assoc_map(s)[s[i].0] == s[i].1,
    decreases s.len(),
{
    if i == s.len() - 1 {
    } else {
        assert(s.drop_last()[i] == s[i]);
        lemma_assoc_index(s.drop_last(), i);
        assert(s.last().0 != s[i].0);
    }
}

/// Appending an entry inserts its key into the denoted map.
pub proof fn lemma_assoc_push<V>(s: Seq<(u64, V)>, k: u64, v: V)
    ensures
        assoc_map(s.push((k, v))) == assoc_map(s).insert(k, v),
{
    assert(s.push((k, v)).drop_last() =~= s);
    assert(s.push((k, v)).last() == (k, v));
}

/// Removing the entry at an index removes its key from the denoted map.
pub proof fn lemma_assoc_remove<V>(s: Seq<(u64, V)>, i: int)
    requires
        distinct_keys(s),
        0 <= i < s.len(),
    ensures
        assoc_map(s.remove(i)) == assoc_map(s).remove(s[i].0),
    decreases s.len(),
{
    if i == s.len() - 1 {
        assert(s.remove(i) =~= s.drop_last());
        lemma_assoc_contains(s.drop_last(), s[i].0);
        assert(forall|j: int| 0 <= j < s.drop_last().len() ==> s.drop_last()[j] == s[j]);
        assert(!assoc_map(s.drop_last()).contains_key(s[i].0));
        assert(assoc_map(s).remove(s[i].0) =~= assoc_map(s.drop_last()));
    } else {
        assert(s.remove(i).drop_last() =~= s.drop_last().remove(i));
        assert(s.remove(i).last() == s.last());
        assert(forall|j: int| 0 <= j < s.drop_last().len() ==> s.drop_last()[j] == s[j]);
        lemma_assoc_remove(s.drop_last(), i);
        assert(assoc_map(s.remove(i)) == assoc_map(s.drop_last()).remove(s[i].0).insert(
            s.last().0,
            s.last().1,
        ));
        assert(s.last().0 != s[i].0);
        assert(assoc_map(s.drop_last()).remove(s[i].0).insert(s.last().0, s.last().1)
            =~= assoc_map(s.drop_last()).insert(s.last().0, s.last().1).remove(s[i].0));
    }
}

/// Overwriting the value at an index re-inserts its key with the new value.
pub proof fn lemma_assoc_update<V>(s: Seq<(u64, V)>, i: int, v: V)
    requires
        distinct_keys(s),
        0 <= i < s.len(),
    ensures
        assoc_map(s.update(i, (s[i].0, v))) == assoc_map(s).insert(s[i].0, v),
    decreases s.len(),
{
    if i == s.len() - 1 {
        assert(s.update(i, (s[i].0, v)).drop_last() =~= s.drop_last());
        assert(assoc_map(s.update(i, (s[i].0, v)))
            == assoc_map(s.drop_last()).insert(s[i].0, v));
        assert(assoc_map(s.drop_last()).insert(s[i].0, v)
            =~= assoc_map(s).insert(s[i].0, v));
    } else {
        assert(s.update(i, (s[i].0, v)).drop_last() =~= s.drop_last().update(i, (s[i].0, v)));
        assert(s.update(i, (s[i].0, v)).last() == s.last());
        assert(forall|j: int| 0 <= j < s.drop_last().len() ==> s.drop_last()[j] == s[j]);
        lemma_assoc_update(s.drop_last(), i, v);
        assert(s.last().0 != s[i].0);
        assert(assoc_map(s.drop_last()).insert(s[i].0, v).insert(s.last().0, s.last().1)
            =~= assoc_map(s.drop_last()).insert(s.last().0, s.last().1).insert(s[i].0, v));
    }
}

/// Under distinct keys, the denoted map has exactly one key per entry.
pub proof fn lemma_assoc_dom_len<V>(s: Seq<(u64, V)>)
    requires
        distinct_keys(s),
    ensures
        assoc_map(s).dom().finite(),
        assoc_map(s).dom().len() == s.len(),
    decreases s.len(),
{
    if s.len() > 0 {
        assert(forall|j: int| 0 <= j < s.drop_last().len() ==> s.drop_last()[j] == s[j]);
        lemma_assoc_dom_len(s.drop_last());
        lemma_assoc_contains(s.drop_last(), s.last().0);
        assert(!assoc_map(s.drop_last()).contains_key(s.last().0));
        assert(assoc_map(s).dom() =~= assoc_map(s.drop_last()).dom().insert(s.last().0));
    }
}

} // verus!
