//! Association lists read as maps.
//!
//! The ledgers keep their keyed records in vectors whose keys are pairwise
//! distinct. This module gives such a vector its meaning, the map from each
//! key to the record beside it, and proves how pushing, replacing and
//! removing an entry changes that map.

use vstd::prelude::*;

verus! {

/// The map that sends each of `keys` to the value at the same position of
/// `vals`.
pub open spec fn assoc<K, V>(keys: Seq<K>, vals: Seq<V>) -> Map<K, V> {
    Map::new(|k: K| keys.contains(k), |k: K| vals[keys.index_of(k)])
}

/// With distinct keys, the key at position `i` maps to the value at `i`.
pub proof fn lemma_assoc_at<K, V>(keys: Seq<K>, vals: Seq<V>, i: int)
    requires
        keys.no_duplicates(),
        keys.len() == vals.len(),
        0 <= i < keys.len(),
    ensures
        assoc(keys, vals).contains_key(keys[i]),
        assoc(keys, vals)[keys[i]] == vals[i],
        keys.index_of(keys[i]) == i,
{
    assert(keys.contains(keys[i]));
    let j = keys.index_of(keys[i]);
    assert(0 <= j < keys.len() && keys[j] == keys[i]);
}

/// A key that occurs nowhere is not in the map.
pub proof fn lemma_assoc_absent<K, V>(keys: Seq<K>, vals: Seq<V>, k: K)
    requires
        forall|i: int| 0 <= i < keys.len() ==> keys[i] != k,
    ensures
        !assoc(keys, vals).contains_key(k),
{
    if keys.contains(k) {
        let i = choose|i: int| 0 <= i < keys.len() && keys[i] == k;
        assert(keys[i] != k);
    }
}

/// Appending an entry under a fresh key inserts it into the map.
pub proof fn lemma_assoc_push<K, V>(keys: Seq<K>, vals: Seq<V>, k: K, v: V)
    requires
        keys.no_duplicates(),
        keys.len() == vals.len(),
        !keys.contains(k),
    ensures
        keys.push(k).no_duplicates(),
        assoc(keys.push(k), vals.push(v)) == assoc(keys, vals).insert(k, v),
{
    let keys2 = keys.push(k);
    let vals2 = vals.push(v);
    assert forall|i: int, j: int| 0 <= i < keys2.len() && 0 <= j < keys2.len() && i != j implies keys2[i] != keys2[j] by {
        if i < keys.len() && j < keys.len() {
        } else if i < keys.len() {
            assert(keys.contains(keys[i]));
        } else {
            assert(keys.contains(keys[j]));
        }
    }
    assert forall|q: K| assoc(keys2, vals2).contains_key(q) <==> #[trigger] assoc(keys, vals).insert(k, v).contains_key(q) by {
        if keys2.contains(q) {
            let i = choose|i: int| 0 <= i < keys2.len() && keys2[i] == q;
            if i < keys.len() {
                assert(keys[i] == q);
                assert(keys.contains(q));
            }
        }
        if keys.contains(q) {
            let i = choose|i: int| 0 <= i < keys.len() && keys[i] == q;
            assert(keys2[i] == q);
        }
        if q == k {
            assert(keys2[keys.len() as int] == k);
        }
    }
    assert forall|q: K| assoc(keys2, vals2).contains_key(q) implies #[trigger] assoc(keys2, vals2)[q] == assoc(keys, vals).insert(k, v)[q] by {
        let i = keys2.index_of(q);
        assert(0 <= i < keys2.len() && keys2[i] == q);
        if q == k {
            lemma_assoc_at(keys2, vals2, keys.len() as int);
        } else {
            assert(i < keys.len());
            lemma_assoc_at(keys, vals, i);
        }
    }
    assert(assoc(keys2, vals2) =~= assoc(keys, vals).insert(k, v));
}

/// Replacing the value at position `i` replaces what its key maps to.
pub proof fn lemma_assoc_update<K, V>(keys: Seq<K>, vals: Seq<V>, i: int, v: V)
    requires
        keys.no_duplicates(),
        keys.len() == vals.len(),
        0 <= i < keys.len(),
    ensures
        assoc(keys, vals.update(i, v)) == assoc(keys, vals).insert(keys[i], v),
{
    let vals2 = vals.update(i, v);
    assert(keys.contains(keys[i]));
    assert forall|q: K| assoc(keys, vals2).contains_key(q) implies #[trigger] assoc(keys, vals2)[q] == assoc(keys, vals).insert(keys[i], v)[q] by {
        let j = keys.index_of(q);
        assert(0 <= j < keys.len() && keys[j] == q);
        lemma_assoc_at(keys, vals, i);
    }
    assert(assoc(keys, vals2) =~= assoc(keys, vals).insert(keys[i], v));
}

/// Removing the entry at position `i` removes its key from the map.
pub proof fn lemma_assoc_remove<K, V>(keys: Seq<K>, vals: Seq<V>, i: int)
    requires
        keys.no_duplicates(),
        keys.len() == vals.len(),
        0 <= i < keys.len(),
    ensures
        keys.remove(i).no_duplicates(),
        assoc(keys.remove(i), vals.remove(i)) == assoc(keys, vals).remove(keys[i]),
{
    let keys2 = keys.remove(i);
    let vals2 = vals.remove(i);
    assert forall|a: int, b: int| 0 <= a < keys2.len() && 0 <= b < keys2.len() && a != b implies keys2[a] != keys2[b] by {
        let a0 = if a < i { a } else { a + 1 };
        let b0 = if b < i { b } else { b + 1 };
        assert(keys2[a] == keys[a0] && keys2[b] == keys[b0]);
    }
    assert forall|q: K| assoc(keys2, vals2).contains_key(q) <==> #[trigger] assoc(keys, vals).remove(keys[i]).contains_key(q) by {
        if keys2.contains(q) {
            let a = choose|a: int| 0 <= a < keys2.len() && keys2[a] == q;
            let a0 = if a < i { a } else { a + 1 };
            assert(keys[a0] == q);
            assert(keys.contains(q));
        }
        if keys.contains(q) && q != keys[i] {
            let a0 = choose|a: int| 0 <= a < keys.len() && keys[a] == q;
            let a = if a0 < i { a0 } else { a0 - 1 };
            assert(keys2[a] == q);
        }
    }
    assert forall|q: K| assoc(keys2, vals2).contains_key(q) implies #[trigger] assoc(keys2, vals2)[q] == assoc(keys, vals).remove(keys[i])[q] by {
        let a = keys2.index_of(q);
        assert(0 <= a < keys2.len() && keys2[a] == q);
        let a0 = if a < i { a } else { a + 1 };
        assert(keys[a0] == q);
        lemma_assoc_at(keys, vals, a0);
        assert(vals2[a] == vals[a0]);
    }
    assert(assoc(keys2, vals2) =~= assoc(keys, vals).remove(keys[i]));
}

/// A record that is found by a key.
pub trait Keyed {
    /// The mathematical value of the key.
    type Key;

    /// The key of this record.
    spec fn key(&self) -> Self::Key;

    /// Whether this record and `other` have the same key.
    fn same_key(&self, other: &Self) -> (same: bool)
        ensures
            same == (self.key() == other.key()),
    ;
}

/// The keys of `records`, in their order.
pub open spec fn keys_of<T: Keyed>(records: Seq<T>) -> Seq<T::Key> {
    Seq::new(records.len(), |i: int| records[i].key())
}

/// Whether no two of `records` have the same key.
pub fn keys_distinct<T: Keyed>(records: &Vec<T>) -> (distinct: bool)
    ensures
        distinct == keys_of(records@).no_duplicates(),
{
    let mut j: usize = 0;
    while j < records.len()
        invariant
            j <= records.len(),
            forall|a: int, b: int| 0 <= a < b < j ==> keys_of(records@)[a] != keys_of(records@)[b],
        decreases records.len() - j,
    {
        let mut i: usize = 0;
        while i < j
            invariant
                i <= j < records.len(),
                forall|a: int| 0 <= a < i ==> keys_of(records@)[a] != keys_of(records@)[j as int],
            decreases j - i,
        {
            if records[i].same_key(&records[j]) {
                assert(keys_of(records@)[i as int] == keys_of(records@)[j as int]);
                return false;
            }
            i += 1;
        }
        j += 1;
    }
    assert forall|a: int, b: int|
        0 <= a < keys_of(records@).len() && 0 <= b < keys_of(records@).len() && a != b implies keys_of(
        records@,
    )[a] != keys_of(records@)[b] by {
        if a < b {
        } else {
            assert(keys_of(records@)[b] != keys_of(records@)[a]);
        }
    }
    true
}

} // verus!
