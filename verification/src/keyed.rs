//! Abstraction of a sequence of rows with pairwise-distinct keys into a
//! map from key to row, and the lemmas that relate row updates to map
//! insertions.

use vstd::prelude::*;

verus! {

/// The map that a sequence of rows denotes: each row under its key, later
/// rows shadowing earlier ones with the same key.
pub open spec fn keyed_map<K, V>(s: Seq<V>, key: spec_fn(V) -> K) -> Map<K, V>
    decreases s.len(),
{
    if s.len() == 0 {
        Map::empty()
    } else {
        keyed_map(s.drop_last(), key).insert(key(s.last()), s.last())
    }
}

/// No two rows of the sequence share a key.
pub open spec fn unique_keys<K, V>(s: Seq<V>, key: spec_fn(V) -> K) -> bool {
    forall|i: int, j: int| 0 <= i < j < s.len() ==> key(s[i]) != key(s[j])
}

/// A key is in the denoted map exactly when some row carries it.
pub proof fn lemma_keyed_map_contains<K, V>(s: Seq<V>, key: spec_fn(V) -> K, k: K)
    ensures
        keyed_map(s, key).dom().contains(k) <==> exists|i: int|
            0 <= i < s.len() && key(s[i]) == k,
    decreases s.len(),
{
    if s.len() > 0 {
        lemma_keyed_map_contains(s.drop_last(), key, k);
        if keyed_map(s, key).dom().contains(k) {
            if key(s.last()) == k {
                assert(key(s[s.len() - 1]) == k);
            } else {
                let i = choose|i: int| 0 <= i < s.drop_last().len() && key(s.drop_last()[i]) == k;
                assert(key(s[i]) == k);
            }
        }
        if exists|i: int| 0 <= i < s.len() && key(s[i]) == k {
            let i = choose|i: int| 0 <= i < s.len() && key(s[i]) == k;
            if i < s.len() - 1 {
                assert(key(s.drop_last()[i]) == k);
            }
        }
    }
}

/// Under distinct keys, each row is the map's value at its key.
pub proof fn lemma_keyed_map_index<K, V>(s: Seq<V>, key: spec_fn(V) -> K, i: int)
    requires
        unique_keys(s, key),
        0 <= i < s.len(),
    ensures
        keyed_map(s, key).dom().contains(key(s[i])),
        keyed_map(s, key)[key(s[i])] == s[i],
    decreases s.len(),
{
    if i == s.len() - 1 {
    } else {
        assert(unique_keys(s.drop_last(), key));
        assert(s.drop_last()[i] == s[i]);
        lemma_keyed_map_index(s.drop_last(), key, i);
        assert(key(s[i]) != key(s.last()));
    }
}

/// Under distinct keys, the map has exactly one entry per row.
pub proof fn lemma_keyed_map_len<K, V>(s: Seq<V>, key: spec_fn(V) -> K)
    requires
        unique_keys(s, key),
    ensures
        keyed_map(s, key).dom().finite(),
        keyed_map(s, key).len() == s.len(),
    decreases s.len(),
{
    broadcast use vstd::set::group_set_axioms;

    if s.len() > 0 {
        assert(unique_keys(s.drop_last(), key));
        lemma_keyed_map_len(s.drop_last(), key);
        lemma_keyed_map_contains(s.drop_last(), key, key(s.last()));
        assert forall|i: int| 0 <= i < s.drop_last().len() implies key(s.drop_last()[i]) != key(
            s.last(),
        ) by {
            assert(s.drop_last()[i] == s[i]);
            assert(key(s[i]) != key(s[s.len() - 1]));
        }
        assert(!keyed_map(s.drop_last(), key).dom().contains(key(s.last())));
    }
}

/// Replacing row `i` by a row with the same key denotes inserting that row
/// at that key.
pub proof fn lemma_keyed_map_update<K, V>(s: Seq<V>, key: spec_fn(V) -> K, i: int, v: V)
    requires
        unique_keys(s, key),
        0 <= i < s.len(),
        key(v) == key(s[i]),
    ensures
        unique_keys(s.update(i, v), key),
        keyed_map(s.update(i, v), key) == keyed_map(s, key).insert(key(v), v),
    decreases s.len(),
{
    let t = s.update(i, v);
    assert forall|p: int, q: int| 0 <= p < q < t.len() implies key(t[p]) != key(t[q]) by {
        assert(key(t[p]) == if p == i { key(s[i]) } else { key(s[p]) });
        assert(key(t[q]) == if q == i { key(s[i]) } else { key(s[q]) });
    }
    if i == s.len() - 1 {
        assert(t.drop_last() =~= s.drop_last());
        assert(keyed_map(t, key) == keyed_map(s.drop_last(), key).insert(key(v), v));
        assert(keyed_map(s, key).insert(key(v), v) =~= keyed_map(s.drop_last(), key).insert(
            key(v),
            v,
        ));
    } else {
        assert(unique_keys(s.drop_last(), key));
        assert(s.drop_last()[i] == s[i]);
        lemma_keyed_map_update(s.drop_last(), key, i, v);
        assert(t.drop_last() =~= s.drop_last().update(i, v));
        assert(t.last() == s.last());
        assert(key(s[i]) != key(s[s.len() - 1]));
        assert(keyed_map(t, key) == keyed_map(s.drop_last(), key).insert(key(v), v).insert(
            key(s.last()),
            s.last(),
        ));
        assert(keyed_map(s.drop_last(), key).insert(key(v), v).insert(key(s.last()), s.last())
            =~= keyed_map(s.drop_last(), key).insert(key(s.last()), s.last()).insert(key(v), v));
    }
}

/// Appending a row with a fresh key denotes inserting it at that key.
pub proof fn lemma_keyed_map_push<K, V>(s: Seq<V>, key: spec_fn(V) -> K, v: V)
    requires
        unique_keys(s, key),
        forall|i: int| 0 <= i < s.len() ==> key(s[i]) != key(v),
    ensures
        unique_keys(s.push(v), key),
        keyed_map(s.push(v), key) == keyed_map(s, key).insert(key(v), v),
{
    let t = s.push(v);
    assert forall|p: int, q: int| 0 <= p < q < t.len() implies key(t[p]) != key(t[q]) by {
        if q == s.len() {
            assert(t[p] == s[p]);
        } else {
            assert(t[p] == s[p] && t[q] == s[q]);
        }
    }
    assert(t.drop_last() =~= s);
    assert(t.last() == v);
}

} // verus!
