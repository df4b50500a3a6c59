//! A mathematical model of an insertion-ordered map: a sequence of key-value
//! pairs in which no key occurs twice.
//!
//! Inserting under a new key appends the pair; inserting under a present key
//! replaces the value where the key stands. Removing a key moves the last pair
//! into the freed place.

use vstd::prelude::*;

verus! {

/// No key occurs at two places of `s`.
pub open spec fn distinct_keys<K, V>(s: Seq<(K, V)>) -> bool {
    forall|i: int, j: int| 0 <= i < j < s.len() ==> (#[trigger] s[i]).0 != (#[trigger] s[j]).0
}

/// Some pair of `s` has the key `k`.
pub open spec fn has_key<K, V>(s: Seq<(K, V)>, k: K) -> bool {
    exists|i: int| 0 <= i < s.len() && (#[trigger] s[i]).0 == k
}

/// A place of `s` at which `k` stands, where `has_key(s, k)`.
pub open spec fn key_index<K, V>(s: Seq<(K, V)>, k: K) -> int {
    choose|i: int| 0 <= i < s.len() && (#[trigger] s[i]).0 == k
}

/// The value stored under `k`, if any.
pub open spec fn lookup<K, V>(s: Seq<(K, V)>, k: K) -> Option<V> {
    if has_key(s, k) {
        Some(s[key_index(s, k)].1)
    } else {
        None
    }
}

/// The map after `v` is stored under `k`.
pub open spec fn inserted<K, V>(s: Seq<(K, V)>, k: K, v: V) -> Seq<(K, V)> {
    if has_key(s, k) {
        s.update(key_index(s, k), (k, v))
    } else {
        s.push((k, v))
    }
}

/// The map after `k` is removed: the last pair takes the freed place.
pub open spec fn swap_removed<K, V>(s: Seq<(K, V)>, k: K) -> Seq<(K, V)> {
    if has_key(s, k) {
        s.update(key_index(s, k), s.last()).drop_last()
    } else {
        s
    }
}

/// In a map without repeated keys the place of a key is the only one that holds it.
pub proof fn lemma_key_index_unique<K, V>(s: Seq<(K, V)>, k: K, i: int)
    requires
        distinct_keys(s),
        0 <= i < s.len(),
        s[i].0 == k,
    ensures
        has_key(s, k),
        key_index(s, k) == i,
        lookup(s, k) == Some(s[i].1),
{
    let j = key_index(s, k);
    assert(0 <= j < s.len() && s[j].0 == k);
    if j != i {
        if j < i {
            assert(s[j].0 != s[i].0);
        } else {
            assert(s[i].0 != s[j].0);
        }
    }
}

/// Storing a value keeps the keys distinct, and afterwards the key is present
/// with that value while every other key is as before.
pub proof fn lemma_inserted<K, V>(s: Seq<(K, V)>, k: K, v: V)
    requires
        distinct_keys(s),
    ensures
        distinct_keys(inserted(s, k, v)),
        lookup(inserted(s, k, v), k) == Some(v),
        forall|other: K| other != k ==> lookup(inserted(s, k, v), other) == lookup(s, other),
        forall|other: K| other != k ==> has_key(inserted(s, k, v), other) == has_key(s, other),
        has_key(inserted(s, k, v), k),
{
    let t = inserted(s, k, v);
    if has_key(s, k) {
        let i = key_index(s, k);
        assert(t.len() == s.len());
        assert forall|a: int, b: int| 0 <= a < b < t.len() implies (#[trigger] t[a]).0 != (
        #[trigger] t[b]).0 by {
            assert(t[a].0 == s[a].0);
            assert(t[b].0 == s[b].0);
        }
        assert(t[i].0 == k);
        lemma_key_index_unique(t, k, i);
        assert forall|other: K| other != k implies lookup(t, other) == lookup(s, other)
            && has_key(t, other) == has_key(s, other) by {
            if has_key(s, other) {
                let j = key_index(s, other);
                assert(t[j] == s[j]);
                lemma_key_index_unique(t, other, j);
            } else if has_key(t, other) {
                let j = key_index(t, other);
                assert(s[j].0 == other);
            }
        }
    } else {
        assert forall|a: int, b: int| 0 <= a < b < t.len() implies (#[trigger] t[a]).0 != (
        #[trigger] t[b]).0 by {
            if b == s.len() {
                assert(t[a] == s[a]);
                assert(s[a].0 != k);
            } else {
                assert(t[a] == s[a]);
                assert(t[b] == s[b]);
            }
        }
        assert(t[s.len() as int].0 == k);
        lemma_key_index_unique(t, k, s.len() as int);
        assert forall|other: K| other != k implies lookup(t, other) == lookup(s, other)
            && has_key(t, other) == has_key(s, other) by {
            if has_key(s, other) {
                let j = key_index(s, other);
                assert(t[j] == s[j]);
                lemma_key_index_unique(t, other, j);
            } else if has_key(t, other) {
                let j = key_index(t, other);
                assert(j < s.len());
                assert(s[j].0 == other);
            }
        }
    }
}

/// Removing a key keeps the keys distinct, and afterwards the key is absent
/// while every other key is as before.
pub proof fn lemma_swap_removed<K, V>(s: Seq<(K, V)>, k: K)
    requires
        distinct_keys(s),
    ensures
        distinct_keys(swap_removed(s, k)),
        !has_key(swap_removed(s, k), k),
        lookup(swap_removed(s, k), k) == None::<V>,
        forall|other: K| other != k ==> lookup(swap_removed(s, k), other) == lookup(s, other),
        forall|other: K| other != k ==> has_key(swap_removed(s, k), other) == has_key(s, other),
{
    let t = swap_removed(s, k);
    if has_key(s, k) {
        let i = key_index(s, k);
        let n = s.len() - 1;
        assert(t.len() == n);
        // Each place of `t` comes from one place of `s`: its own, or the last.
        assert forall|a: int| 0 <= a < n implies #[trigger] t[a] == (if a == i {
            s[n]
        } else {
            s[a]
        }) by {}
        assert forall|a: int, b: int| 0 <= a < b < t.len() implies (#[trigger] t[a]).0 != (
        #[trigger] t[b]).0 by {
            let sa = if a == i { n } else { a };
            let sb = if b == i { n } else { b };
            assert(t[a] == s[sa]);
            assert(t[b] == s[sb]);
            if sa < sb {
                assert(s[sa].0 != s[sb].0);
            } else {
                assert(s[sb].0 != s[sa].0);
            }
        }
        if has_key(t, k) {
            let j = key_index(t, k);
            let sj = if j == i { n } else { j };
            assert(t[j] == s[sj]);
            lemma_key_index_unique(s, k, sj);
        }
        assert forall|other: K| other != k implies lookup(t, other) == lookup(s, other)
            && has_key(t, other) == has_key(s, other) by {
            if has_key(s, other) {
                let j = key_index(s, other);
                let tj = if j == n { i } else { j };
                assert(j != i);
                assert(t[tj] == s[j]);
                lemma_key_index_unique(t, other, tj);
            } else if has_key(t, other) {
                let j = key_index(t, other);
                let sj = if j == i { n } else { j };
                assert(t[j] == s[sj]);
                assert(s[sj].0 == other);
            }
        }
    }
}

/// The finite map from each key of `s` to its value.
pub open spec fn to_map<K, V>(s: Seq<(K, V)>) -> Map<K, V> {
    Map::new(|k: K| has_key(s, k), |k: K| s[key_index(s, k)].1)
}

/// Read as a finite map, storing is `Map::insert` and removing is `Map::remove`.
pub proof fn lemma_to_map<K, V>(s: Seq<(K, V)>, k: K, v: V)
    requires
        distinct_keys(s),
    ensures
        to_map(inserted(s, k, v)) == to_map(s).insert(k, v),
        to_map(swap_removed(s, k)) == to_map(s).remove(k),
        to_map(Seq::<(K, V)>::empty()) == Map::<K, V>::empty(),
{
    lemma_inserted(s, k, v);
    lemma_swap_removed(s, k);
    assert(to_map(inserted(s, k, v)) =~= to_map(s).insert(k, v)) by {
        assert forall|x: K| #[trigger] to_map(inserted(s, k, v)).contains_key(x) implies to_map(
            inserted(s, k, v),
        )[x] == to_map(s).insert(k, v)[x] by {
            if x != k {
                assert(lookup(inserted(s, k, v), x) == lookup(s, x));
            } else {
                assert(lookup(inserted(s, k, v), k) == Some(v));
            }
        }
    }
    assert(to_map(swap_removed(s, k)) =~= to_map(s).remove(k)) by {
        assert forall|x: K| #[trigger] to_map(swap_removed(s, k)).contains_key(x) implies to_map(
            swap_removed(s, k),
        )[x] == to_map(s).remove(k)[x] by {
            assert(lookup(swap_removed(s, k), x) == lookup(s, x));
        }
    }
    assert(to_map(Seq::<(K, V)>::empty()) =~= Map::<K, V>::empty());
}

/// The map with `f` applied to each value.
pub open spec fn with_values<K, V, W>(s: Seq<(K, V)>, f: spec_fn(V) -> W) -> Seq<(K, W)> {
    Seq::new(s.len(), |i: int| (s[i].0, f(s[i].1)))
}

/// Applying a function to the values commutes with looking up, storing and
/// removing.
pub proof fn lemma_with_values<K, V, W>(s: Seq<(K, V)>, f: spec_fn(V) -> W, k: K, v: V)
    requires
        distinct_keys(s),
    ensures
        distinct_keys(with_values(s, f)),
        has_key(with_values(s, f), k) == has_key(s, k),
        lookup(with_values(s, f), k) == match lookup(s, k) {
            Some(found) => Some(f(found)),
            None => None,
        },
        with_values(inserted(s, k, v), f) == inserted(with_values(s, f), k, f(v)),
        with_values(swap_removed(s, k), f) == swap_removed(with_values(s, f), k),
{
    let t = with_values(s, f);
    assert forall|i: int| 0 <= i < t.len() implies (#[trigger] t[i]).0 == s[i].0 by {}
    if has_key(s, k) {
        let i = key_index(s, k);
        assert(t[i].0 == k);
        lemma_key_index_unique(t, k, i);
    } else if has_key(t, k) {
        let i = key_index(t, k);
        assert(s[i].0 == k);
    }
    assert(with_values(inserted(s, k, v), f) =~= inserted(t, k, f(v)));
    assert(with_values(swap_removed(s, k), f) =~= swap_removed(t, k));
}

} // verus!
