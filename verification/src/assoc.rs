//! Association lists modelled as maps.
//!
//! The engine keys documents, cursors and version-vector entries by strings.
//! Each such collection is stored as a `Vec` whose entries carry their own
//! key, with the keys kept pairwise distinct; its mathematical model is the
//! `Map` built here. The lemmas relate the `Vec`-level operations (update an
//! entry in place, push a fresh entry) to `Map::insert`.

use vstd::prelude::*;

verus! {

/// No two entries of `s` carry the same key.
pub open spec fn keys_unique<V>(s: Seq<V>, key: spec_fn(V) -> Seq<char>) -> bool {
    forall|i: int, j: int|
        0 <= i < s.len() && 0 <= j < s.len() && i != j ==> key(s[i]) != key(s[j])
}

/// Some entry of `s` carries the key `k`.
pub open spec fn has_key<V>(s: Seq<V>, key: spec_fn(V) -> Seq<char>, k: Seq<char>) -> bool {
    exists|i: int| 0 <= i < s.len() && key(s[i]) == k
}

/// The map an association list denotes; on duplicate keys the later entry wins.
pub open spec fn assoc_map<V>(s: Seq<V>, key: spec_fn(V) -> Seq<char>) -> Map<Seq<char>, V>
    decreases s.len(),
{
    if s.len() == 0 {
        Map::empty()
    } else {
        assoc_map(s.drop_last(), key).insert(key(s.last()), s.last())
    }
}

/// The map's domain is exactly the set of keys carried by entries.
pub proof fn lemma_assoc_map_dom<V>(s: Seq<V>, key: spec_fn(V) -> Seq<char>)
    ensures
        forall|k: Seq<char>|
            #[trigger] assoc_map(s, key).dom().contains(k) <==> has_key(s, key, k),
    decreases s.len(),
{
    if s.len() > 0 {
        let s0 = s.drop_last();
        lemma_assoc_map_dom(s0, key);
        assert forall|k: Seq<char>|
            #[trigger] assoc_map(s, key).dom().contains(k) <==> has_key(s, key, k) by {
            if assoc_map(s, key).dom().contains(k) {
                if k == key(s.last()) {
                    assert(key(s[s.len() - 1]) == k);
                } else {
                    assert(assoc_map(s0, key).dom().contains(k));
                    assert(has_key(s0, key, k));
                    let i = choose|i: int| 0 <= i < s0.len() && key(s0[i]) == k;
                    assert(s0[i] == s[i]);
                    assert(key(s[i]) == k);
                }
            }
            if has_key(s, key, k) {
                let i = choose|i: int| 0 <= i < s.len() && key(s[i]) == k;
                if i < s.len() - 1 {
                    assert(key(s0[i]) == k);
                    assert(assoc_map(s0, key).dom().contains(k));
                }
            }
        }
    }
}

/// With keys unique, the entry carrying key `key(s[i])` is the map's value there.
pub proof fn lemma_assoc_map_index<V>(s: Seq<V>, key: spec_fn(V) -> Seq<char>, i: int)
    requires
        keys_unique(s, key),
        0 <= i < s.len(),
    ensures
        assoc_map(s, key).dom().contains(key(s[i])),
        assoc_map(s, key)[key(s[i])] == s[i],
    decreases s.len(),
{
    let s0 = s.drop_last();
    if i == s.len() - 1 {
    } else {
        assert(keys_unique(s0, key));
        assert(s0[i] == s[i]);
        lemma_assoc_map_index(s0, key, i);
        assert(key(s[i]) != key(s[s.len() - 1]));
    }
}

/// Replacing entry `i` by a value with the same key is `Map::insert` on the model.
pub proof fn lemma_assoc_map_update<V>(s: Seq<V>, key: spec_fn(V) -> Seq<char>, i: int, v: V)
    requires
        keys_unique(s, key),
        0 <= i < s.len(),
        key(v) == key(s[i]),
    ensures
        keys_unique(s.update(i, v), key),
        assoc_map(s.update(i, v), key) == assoc_map(s, key).insert(key(v), v),
    decreases s.len(),
{
    let su = s.update(i, v);
    let s0 = s.drop_last();
    assert forall|p: int, q: int|
        0 <= p < su.len() && 0 <= q < su.len() && p != q implies key(su[p]) != key(su[q]) by {
        assert(key(su[p]) == key(s[p]) && key(su[q]) == key(s[q]));
    }
    if i == s.len() - 1 {
        assert(su.drop_last() =~= s0);
        assert(su.last() == v);
        assert(assoc_map(su, key) == assoc_map(s0, key).insert(key(v), v));
        assert(assoc_map(s0, key).insert(key(s.last()), s.last()).insert(key(v), v)
            =~= assoc_map(s0, key).insert(key(v), v));
    } else {
        assert(keys_unique(s0, key));
        assert(s0[i] == s[i]);
        lemma_assoc_map_update(s0, key, i, v);
        assert(su.drop_last() =~= s0.update(i, v));
        assert(su.last() == s.last());
        assert(key(v) != key(s.last()));
        assert(assoc_map(su, key)
            == assoc_map(s0, key).insert(key(v), v).insert(key(s.last()), s.last()));
        assert(assoc_map(s0, key).insert(key(v), v).insert(key(s.last()), s.last())
            =~= assoc_map(s0, key).insert(key(s.last()), s.last()).insert(key(v), v));
    }
}

/// Appending an entry is `Map::insert` on the model; a fresh key keeps keys unique.
pub proof fn lemma_assoc_map_push<V>(s: Seq<V>, key: spec_fn(V) -> Seq<char>, v: V)
    ensures
        assoc_map(s.push(v), key) == assoc_map(s, key).insert(key(v), v),
        keys_unique(s, key) && !has_key(s, key, key(v)) ==> keys_unique(s.push(v), key),
{
    let sp = s.push(v);
    assert(sp.drop_last() =~= s);
    assert(sp.last() == v);
    if keys_unique(s, key) && !has_key(s, key, key(v)) {
        assert forall|p: int, q: int|
            0 <= p < sp.len() && 0 <= q < sp.len() && p != q implies key(sp[p]) != key(sp[q]) by {
            if p < s.len() && q < s.len() {
                assert(key(sp[p]) == key(s[p]) && key(sp[q]) == key(s[q]));
            } else if p == s.len() {
                assert(key(sp[q]) == key(s[q]));
            } else {
                assert(key(sp[p]) == key(s[p]));
            }
        }
    }
}

} // verus!
