//! Association sequences: ordered key/value pairs with unique keys.
//!
//! Component storage and the action scheduler keep their entries in insertion
//! order, so their mathematical model is a sequence of pairs rather than a
//! bare map. The spec functions here define lookup, keyed removal and keyed
//! upsert over such sequences, and the lemmas relate them to positional
//! reasoning about the underlying vectors.

use vstd::prelude::*;

verus! {

/// The value bound to key `k`, taking the latest binding when a key occurs twice.
pub open spec fn lookup<K, V>(s: Seq<(K, V)>, k: K) -> Option<V>
    decreases s.len(),
{
    if s.len() == 0 {
        None
    } else if s.last().0 == k {
        Some(s.last().1)
    } else {
        lookup(s.drop_last(), k)
    }
}

/// Every key occurs at most once.
pub open spec fn unique_keys<K, V>(s: Seq<(K, V)>) -> bool
    decreases s.len(),
{
    if s.len() == 0 {
        true
    } else {
        unique_keys(s.drop_last()) && lookup(s.drop_last(), s.last().0) is None
    }
}

/// The sequence with every binding of `k` removed, other bindings kept in order.
pub open spec fn kremove<K, V>(s: Seq<(K, V)>, k: K) -> Seq<(K, V)>
    decreases s.len(),
{
    if s.len() == 0 {
        Seq::empty()
    } else if s.last().0 == k {
        kremove(s.drop_last(), k)
    } else {
        kremove(s.drop_last(), k).push(s.last())
    }
}

/// Rebind `k` to `v`: the old binding is dropped and the new one appended.
pub open spec fn kupsert<K, V>(s: Seq<(K, V)>, k: K, v: V) -> Seq<(K, V)> {
    kremove(s, k).push((k, v))
}

/// The map an association sequence denotes.
pub open spec fn map_of<K, V>(s: Seq<(K, V)>) -> Map<K, V> {
    Map::new(|k: K| lookup(s, k) is Some, |k: K| lookup(s, k).unwrap())
}

/// A binding found at any position is the binding `lookup` yields.
pub proof fn lemma_lookup_index<K, V>(s: Seq<(K, V)>, i: int)
    requires
        unique_keys(s),
        0 <= i < s.len(),
    ensures
        lookup(s, s[i].0) == Some(s[i].1),
    decreases s.len(),
{
    if i < s.len() - 1 {
        lemma_lookup_index(s.drop_last(), i);
        assert(s.drop_last()[i] == s[i]);
        if s.last().0 == s[i].0 {
            assert(lookup(s.drop_last(), s.last().0) is Some);
        }
    }
}

/// The binding at the last position holding `k` is the binding `lookup` yields.
pub proof fn lemma_lookup_last_index<K, V>(s: Seq<(K, V)>, i: int)
    requires
        0 <= i < s.len(),
        forall|j: int| i < j < s.len() ==> s[j].0 != s[i].0,
    ensures
        lookup(s, s[i].0) == Some(s[i].1),
    decreases s.len(),
{
    if i < s.len() - 1 {
        assert(forall|j: int|
            i < j < s.drop_last().len() ==> s.drop_last()[j].0 != s.drop_last()[i].0);
        lemma_lookup_last_index(s.drop_last(), i);
        assert(s.drop_last()[i] == s[i]);
    }
}

/// A binding `lookup` yields stands at some position.
pub proof fn lemma_lookup_member<K, V>(s: Seq<(K, V)>, k: K, v: V)
    requires
        lookup(s, k) == Some(v),
    ensures
        exists|i: int| 0 <= i < s.len() && s[i] == (k, v),
    decreases s.len(),
{
    if s.last().0 == k {
        assert(s[s.len() - 1] == (k, v));
    } else {
        lemma_lookup_member(s.drop_last(), k, v);
        let i = choose|i: int| 0 <= i < s.drop_last().len() && s.drop_last()[i] == (k, v);
        assert(s[i] == (k, v));
    }
}

/// A key at no position is a key `lookup` misses.
pub proof fn lemma_lookup_not_found<K, V>(s: Seq<(K, V)>, k: K)
    requires
        forall|i: int| 0 <= i < s.len() ==> s[i].0 != k,
    ensures
        lookup(s, k) is None,
    decreases s.len(),
{
    if s.len() > 0 {
        assert(forall|i: int| 0 <= i < s.drop_last().len() ==> s.drop_last()[i] == s[i]);
        lemma_lookup_not_found(s.drop_last(), k);
    }
}

/// Removing a key removes exactly that key's binding.
pub proof fn lemma_kremove_lookup<K, V>(s: Seq<(K, V)>, k: K, k2: K)
    ensures
        lookup(kremove(s, k), k2) == if k2 == k {
            None::<V>
        } else {
            lookup(s, k2)
        },
    decreases s.len(),
{
    if s.len() > 0 {
        lemma_kremove_lookup(s.drop_last(), k, k2);
        if s.last().0 != k {
            let t = kremove(s.drop_last(), k).push(s.last());
            assert(t.drop_last() =~= kremove(s.drop_last(), k));
        }
    }
}

/// Keyed removal preserves key uniqueness.
pub proof fn lemma_kremove_unique<K, V>(s: Seq<(K, V)>, k: K)
    requires
        unique_keys(s),
    ensures
        unique_keys(kremove(s, k)),
    decreases s.len(),
{
    if s.len() > 0 {
        lemma_kremove_unique(s.drop_last(), k);
        if s.last().0 != k {
            lemma_kremove_lookup(s.drop_last(), k, s.last().0);
            let t = kremove(s.drop_last(), k).push(s.last());
            assert(t.drop_last() =~= kremove(s.drop_last(), k));
        }
    }
}

/// Upserting binds exactly the given key and keeps the rest.
pub proof fn lemma_kupsert_lookup<K, V>(s: Seq<(K, V)>, k: K, v: V, k2: K)
    ensures
        lookup(kupsert(s, k, v), k2) == if k2 == k {
            Some(v)
        } else {
            lookup(s, k2)
        },
{
    let t = kremove(s, k).push((k, v));
    assert(t.drop_last() =~= kremove(s, k));
    lemma_kremove_lookup(s, k, k2);
}

/// Upserting preserves key uniqueness.
pub proof fn lemma_kupsert_unique<K, V>(s: Seq<(K, V)>, k: K, v: V)
    requires
        unique_keys(s),
    ensures
        unique_keys(kupsert(s, k, v)),
{
    lemma_kremove_unique(s, k);
    lemma_kremove_lookup(s, k, k);
    let t = kremove(s, k).push((k, v));
    assert(t.drop_last() =~= kremove(s, k));
}

/// Whether `lookup` hits depends on the keys alone.
pub proof fn lemma_lookup_same_keys<K, V>(s: Seq<(K, V)>, t: Seq<(K, V)>, k: K)
    requires
        s.len() == t.len(),
        forall|j: int| 0 <= j < s.len() ==> (#[trigger] s[j]).0 == t[j].0,
    ensures
        (lookup(s, k) is Some) == (lookup(t, k) is Some),
    decreases s.len(),
{
    if s.len() > 0 {
        assert(s[s.len() - 1].0 == t[t.len() - 1].0);
        assert(forall|j: int|
            0 <= j < s.drop_last().len() ==> (#[trigger] s.drop_last()[j]).0
                == t.drop_last()[j].0);
        lemma_lookup_same_keys(s.drop_last(), t.drop_last(), k);
    }
}

/// Key uniqueness depends on the keys alone.
pub proof fn lemma_unique_same_keys<K, V>(s: Seq<(K, V)>, t: Seq<(K, V)>)
    requires
        unique_keys(s),
        s.len() == t.len(),
        forall|j: int| 0 <= j < s.len() ==> (#[trigger] s[j]).0 == t[j].0,
    ensures
        unique_keys(t),
    decreases s.len(),
{
    if s.len() > 0 {
        assert(forall|j: int|
            0 <= j < s.drop_last().len() ==> (#[trigger] s.drop_last()[j]).0
                == t.drop_last()[j].0);
        lemma_unique_same_keys(s.drop_last(), t.drop_last());
        lemma_lookup_same_keys(s.drop_last(), t.drop_last(), t.last().0);
        assert(s[s.len() - 1].0 == t[t.len() - 1].0);
    }
}

/// Removing any position preserves key uniqueness.
pub proof fn lemma_remove_unique<K, V>(s: Seq<(K, V)>, i: int)
    requires
        unique_keys(s),
        0 <= i < s.len(),
    ensures
        unique_keys(s.remove(i)),
{
    lemma_kremove_at(s, i);
    lemma_kremove_unique(s, s[i].0);
    assert(unique_keys(kremove(s, s[i].0)));
    lemma_unique_same_keys(kremove(s, s[i].0), s.remove(i));
}

/// Removing an absent key changes nothing.
pub proof fn lemma_kremove_absent<K, V>(s: Seq<(K, V)>, k: K)
    requires
        lookup(s, k) is None,
    ensures
        kremove(s, k) =~= s,
    decreases s.len(),
{
    if s.len() > 0 {
        lemma_kremove_absent(s.drop_last(), k);
    }
}

/// With unique keys, removing the key found at position `i` is removing position `i`.
pub proof fn lemma_kremove_at<K, V>(s: Seq<(K, V)>, i: int)
    requires
        unique_keys(s),
        0 <= i < s.len(),
    ensures
        kremove(s, s[i].0) =~= s.remove(i),
    decreases s.len(),
{
    let k = s[i].0;
    if i == s.len() - 1 {
        lemma_kremove_absent(s.drop_last(), k);
        assert(s.remove(i) =~= s.drop_last());
    } else {
        lemma_lookup_index(s.drop_last(), i);
        assert(s.drop_last()[i] == s[i]);
        if s.last().0 == k {
            assert(lookup(s.drop_last(), s.last().0) is Some);
        }
        lemma_kremove_at(s.drop_last(), i);
        assert(kremove(s, k) =~= s.drop_last().remove(i).push(s.last()));
        assert(s.drop_last().remove(i).push(s.last()) =~= s.remove(i));
    }
}

} // verus!
