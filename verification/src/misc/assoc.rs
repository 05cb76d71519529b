//! Keyed lists read as maps.
//!
//! The tree, its leaves and the replacement table all keep their entries in
//! a list in which no key occurs twice. The functions here say which map
//! such a list stands for, and how the map changes when the list does.

use vstd::prelude::*;

verus! {

/// The map that sends each key of `keys` to the value at the same position
/// of `vals`.
pub open spec fn assoc_map<K, V>(keys: Seq<K>, vals: Seq<V>) -> Map<K, V> {
    Map::new(|k: K| keys.contains(k), |k: K| vals[keys.index_of(k)])
}

/// In a list without repeated keys, a key is found at its own position.
pub proof fn lemma_assoc_lookup<K, V>(keys: Seq<K>, vals: Seq<V>, i: int)
    requires
        keys.no_duplicates(),
        0 <= i < keys.len(),
    ensures
        keys.index_of(keys[i]) == i,
        assoc_map(keys, vals).contains_key(keys[i]),
        assoc_map(keys, vals)[keys[i]] == vals[i],
{
    assert(keys.contains(keys[i]));
    let j = keys.index_of(keys[i]);
    assert(0 <= j < keys.len() && keys[j] == keys[i]);
}

/// The keys of the map are exactly the keys of the list, so there are
/// finitely many.
pub proof fn lemma_assoc_domain<K, V>(keys: Seq<K>, vals: Seq<V>)
    ensures
        assoc_map(keys, vals).dom() == keys.to_set(),
        assoc_map(keys, vals).dom().finite(),
{
    assert(assoc_map(keys, vals).dom() =~= keys.to_set());
    vstd::seq_lib::seq_to_set_is_finite(keys);
}

/// Appending an entry under a new key inserts it into the map.
pub proof fn lemma_assoc_push<K, V>(keys: Seq<K>, vals: Seq<V>, k: K, v: V)
    requires
        keys.no_duplicates(),
        keys.len() == vals.len(),
        !keys.contains(k),
    ensures
        keys.push(k).no_duplicates(),
        assoc_map(keys.push(k), vals.push(v)) == assoc_map(keys, vals).insert(k, v),
{
    let keys2 = keys.push(k);
    let vals2 = vals.push(v);
    assert forall|i: int, j: int| 0 <= i < keys2.len() && 0 <= j < keys2.len() && i != j implies keys2[i] != keys2[j] by {
        if i < keys.len() && j < keys.len() {
        } else if i < keys.len() {
            assert(keys.contains(keys[i]));
        } else if j < keys.len() {
            assert(keys.contains(keys[j]));
        }
    }
    assert forall|x: K| #[trigger] keys2.contains(x) <==> (keys.contains(x) || x == k) by {
        if keys.contains(x) {
            let i = keys.index_of(x);
            assert(keys2[i] == x);
        }
        if x == k {
            assert(keys2[keys.len() as int] == k);
        }
    }
    assert forall|x: K| keys2.contains(x) implies #[trigger] assoc_map(keys2, vals2)[x] == assoc_map(
        keys,
        vals,
    ).insert(k, v)[x] by {
        let i = keys2.index_of(x);
        lemma_assoc_lookup(keys2, vals2, i);
        if i < keys.len() {
            lemma_assoc_lookup(keys, vals, i);
        }
    }
    assert(assoc_map(keys2, vals2) =~= assoc_map(keys, vals).insert(k, v));
}

/// Replacing the value at a position sets the map at that position's key.
pub proof fn lemma_assoc_update<K, V>(keys: Seq<K>, vals: Seq<V>, i: int, v: V)
    requires
        keys.no_duplicates(),
        keys.len() == vals.len(),
        0 <= i < keys.len(),
    ensures
        assoc_map(keys, vals.update(i, v)) == assoc_map(keys, vals).insert(keys[i], v),
{
    let vals2 = vals.update(i, v);
    assert(keys.contains(keys[i]));
    assert forall|x: K| keys.contains(x) implies #[trigger] assoc_map(keys, vals2)[x] == assoc_map(
        keys,
        vals,
    ).insert(keys[i], v)[x] by {
        let j = keys.index_of(x);
        lemma_assoc_lookup(keys, vals2, j);
        lemma_assoc_lookup(keys, vals, j);
    }
    assert(assoc_map(keys, vals2) =~= assoc_map(keys, vals).insert(keys[i], v));
}

} // verus!
