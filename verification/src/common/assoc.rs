//! Association lists: a sequence of entries with unique keys, read as a map.

use vstd::prelude::*;

verus! {

/// No two entries share a key.
pub open spec fn keys_unique<T, K>(s: Seq<T>, key: spec_fn(T) -> K) -> bool {
    forall|i: int, j: int| 0 <= i < s.len() && 0 <= j < s.len() && i != j ==> key(s[i]) != key(s[j])
}

/// Whether some entry has key `k`.
pub open spec fn has_key<T, K>(s: Seq<T>, key: spec_fn(T) -> K, k: K) -> bool {
    exists|i: int| 0 <= i < s.len() && key(s[i]) == k
}

/// The map the entries hold: each key to the value of its entry.
pub open spec fn assoc_map<T, K, V>(s: Seq<T>, key: spec_fn(T) -> K, val: spec_fn(T) -> V) -> Map<K, V> {
    Map::new(
        |k: K| has_key(s, key, k),
        |k: K| val(s[choose|i: int| 0 <= i < s.len() && key(s[i]) == k]),
    )
}

/// The entry at `i` is what the map holds under its key.
pub proof fn lemma_assoc_index<T, K, V>(s: Seq<T>, key: spec_fn(T) -> K, val: spec_fn(T) -> V, i: int)
    requires
        keys_unique(s, key),
        0 <= i < s.len(),
    ensures
        assoc_map(s, key, val).contains_key(key(s[i])),
        assoc_map(s, key, val)[key(s[i])] == val(s[i]),
{
    let k = key(s[i]);
    assert(has_key(s, key, k));
    let j = choose|j: int| 0 <= j < s.len() && key(s[j]) == k;
    assert(j == i);
}

/// Appending an entry under a new key inserts it into the map.
pub proof fn lemma_assoc_push<T, K, V>(s: Seq<T>, key: spec_fn(T) -> K, val: spec_fn(T) -> V, e: T)
    requires
        keys_unique(s, key),
        !has_key(s, key, key(e)),
    ensures
        keys_unique(s.push(e), key),
        assoc_map(s.push(e), key, val) == assoc_map(s, key, val).insert(key(e), val(e)),
{
    let t = s.push(e);
    assert forall|i: int, j: int| 0 <= i < t.len() && 0 <= j < t.len() && i != j implies key(t[i]) != key(t[j]) by {
        if i < s.len() && j == s.len() {
            assert(t[i] == s[i]);
        } else if j < s.len() && i == s.len() {
            assert(t[j] == s[j]);
        } else if i < s.len() && j < s.len() {
            assert(t[i] == s[i] && t[j] == s[j]);
        }
    }
    let m = assoc_map(s, key, val).insert(key(e), val(e));
    assert forall|k: K| #[trigger] assoc_map(t, key, val).contains_key(k) <==> m.contains_key(k) by {
        if has_key(s, key, k) {
            let i = choose|i: int| 0 <= i < s.len() && key(s[i]) == k;
            assert(t[i] == s[i]);
        }
        if has_key(t, key, k) {
            let i = choose|i: int| 0 <= i < t.len() && key(t[i]) == k;
            if i < s.len() {
                assert(t[i] == s[i]);
            }
        }
        if k == key(e) {
            assert(t[s.len() as int] == e);
        }
    }
    assert forall|k: K| #[trigger] assoc_map(t, key, val).contains_key(k) implies assoc_map(t, key, val)[k]
        == m[k] by {
        let i = choose|i: int| 0 <= i < t.len() && key(t[i]) == k;
        lemma_assoc_index(t, key, val, i);
        if i < s.len() {
            assert(t[i] == s[i]);
            lemma_assoc_index(s, key, val, i);
        }
    }
    assert(assoc_map(t, key, val) =~= m);
}

/// Replacing an entry by one with the same key updates the map.
pub proof fn lemma_assoc_update<T, K, V>(s: Seq<T>, key: spec_fn(T) -> K, val: spec_fn(T) -> V, j: int, e: T)
    requires
        keys_unique(s, key),
        0 <= j < s.len(),
        key(e) == key(s[j]),
    ensures
        keys_unique(s.update(j, e), key),
        assoc_map(s.update(j, e), key, val) == assoc_map(s, key, val).insert(key(e), val(e)),
{
    let t = s.update(j, e);
    assert forall|a: int, b: int| 0 <= a < t.len() && 0 <= b < t.len() && a != b implies key(t[a]) != key(t[b]) by {
        assert(key(t[a]) == key(s[a]));
        assert(key(t[b]) == key(s[b]));
    }
    let m = assoc_map(s, key, val).insert(key(e), val(e));
    assert forall|k: K| #[trigger] assoc_map(t, key, val).contains_key(k) <==> m.contains_key(k) by {
        if has_key(s, key, k) {
            let i = choose|i: int| 0 <= i < s.len() && key(s[i]) == k;
            assert(key(t[i]) == key(s[i]));
        }
        if has_key(t, key, k) {
            let i = choose|i: int| 0 <= i < t.len() && key(t[i]) == k;
            assert(key(t[i]) == key(s[i]));
        }
        if k == key(e) {
            assert(key(t[j]) == k);
        }
    }
    assert forall|k: K| #[trigger] assoc_map(t, key, val).contains_key(k) implies assoc_map(t, key, val)[k]
        == m[k] by {
        let i = choose|i: int| 0 <= i < t.len() && key(t[i]) == k;
        lemma_assoc_index(t, key, val, i);
        if i != j {
            assert(t[i] == s[i]);
            lemma_assoc_index(s, key, val, i);
        }
    }
    assert(assoc_map(t, key, val) =~= m);
}

/// Removing the entry at `j` removes its key from the map.
pub proof fn lemma_assoc_remove<T, K, V>(s: Seq<T>, key: spec_fn(T) -> K, val: spec_fn(T) -> V, j: int)
    requires
        keys_unique(s, key),
        0 <= j < s.len(),
    ensures
        keys_unique(s.remove(j), key),
        assoc_map(s.remove(j), key, val) == assoc_map(s, key, val).remove(key(s[j])),
{
    let t = s.remove(j);
    let kj = key(s[j]);
    assert forall|a: int| 0 <= a < t.len() implies #[trigger] t[a] == s[if a < j { a } else { a + 1 }] by {}
    assert forall|a: int, b: int| 0 <= a < t.len() && 0 <= b < t.len() && a != b implies key(t[a]) != key(t[b]) by {
        let a1 = if a < j { a } else { a + 1 };
        let b1 = if b < j { b } else { b + 1 };
        assert(t[a] == s[a1]);
        assert(t[b] == s[b1]);
    }
    let m = assoc_map(s, key, val).remove(kj);
    assert forall|k: K| #[trigger] assoc_map(t, key, val).contains_key(k) <==> m.contains_key(k) by {
        if has_key(s, key, k) && k != kj {
            let i = choose|i: int| 0 <= i < s.len() && key(s[i]) == k;
            assert(i != j);
            let i1 = if i < j { i } else { i - 1 };
            assert(t[i1] == s[i]);
        }
        if has_key(t, key, k) {
            let i = choose|i: int| 0 <= i < t.len() && key(t[i]) == k;
            let i1 = if i < j { i } else { i + 1 };
            assert(t[i] == s[i1]);
            assert(i1 != j);
        }
    }
    assert forall|k: K| #[trigger] assoc_map(t, key, val).contains_key(k) implies assoc_map(t, key, val)[k]
        == m[k] by {
        let i = choose|i: int| 0 <= i < t.len() && key(t[i]) == k;
        let i1 = if i < j { i } else { i + 1 };
        assert(t[i] == s[i1]);
        lemma_assoc_index(t, key, val, i);
        lemma_assoc_index(s, key, val, i1);
    }
    assert(assoc_map(t, key, val) =~= m);
}

/// A key none of the entries has is not in the map.
pub proof fn lemma_assoc_absent<T, K, V>(s: Seq<T>, key: spec_fn(T) -> K, val: spec_fn(T) -> V, k: K)
    requires
        forall|i: int| 0 <= i < s.len() ==> key(s[i]) != k,
    ensures
        !assoc_map(s, key, val).contains_key(k),
{
}

} // verus!
