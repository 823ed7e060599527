//! Association lists: tables kept as sequences of (key, value) pairs, where the first
//! pair with a key is the one that counts. Writing a key updates that pair in place, or
//! appends one when the key is new.

use vstd::prelude::*;

verus! {

/// The index of the first pair at or after `i` whose key is `k`.
pub open spec fn first_from<K, V>(s: Seq<(K, V)>, k: K, i: int) -> Option<int>
    decreases s.len() - i,
{
    if i < 0 || i >= s.len() {
        None
    } else if s[i].0 == k {
        Some(i)
    } else {
        first_from(s, k, i + 1)
    }
}

/// The value the table holds for `k`.
pub open spec fn lookup<K, V>(s: Seq<(K, V)>, k: K) -> Option<V> {
    match first_from(s, k, 0) {
        Some(i) => Some(s[i].1),
        None => None,
    }
}

/// The table with `k` set to `v`.
pub open spec fn upsert<K, V>(s: Seq<(K, V)>, k: K, v: V) -> Seq<(K, V)> {
    match first_from(s, k, 0) {
        Some(i) => s.update(i, (k, v)),
        None => s.push((k, v)),
    }
}

/// The table with `k` set to `v` unless it already holds `k`.
pub open spec fn insert_absent<K, V>(s: Seq<(K, V)>, k: K, v: V) -> Seq<(K, V)> {
    if first_from(s, k, 0) is Some {
        s
    } else {
        s.push((k, v))
    }
}

/// What `first_from` finds: the least index at or after `i` with key `k`.
pub proof fn lemma_first_from<K, V>(s: Seq<(K, V)>, k: K, i: int)
    requires
        0 <= i,
    ensures
        match first_from(s, k, i) {
            Some(j) => i <= j < s.len() && s[j].0 == k && forall|m: int| i <= m < j ==> s[m].0 != k,
            None => forall|m: int| i <= m < s.len() ==> s[m].0 != k,
        },
    decreases s.len() - i,
{
    if i < s.len() && s[i].0 != k {
        lemma_first_from(s, k, i + 1);
    }
}

/// `first_from` is determined by where the key occurs.
pub proof fn lemma_first_from_is<K, V>(s: Seq<(K, V)>, k: K, i: int, j: Option<int>)
    requires
        0 <= i,
        match j {
            Some(j) => i <= j < s.len() && s[j].0 == k && forall|m: int| i <= m < j ==> s[m].0 != k,
            None => forall|m: int| i <= m < s.len() ==> s[m].0 != k,
        },
    ensures
        first_from(s, k, i) == j,
    decreases s.len() - i,
{
    lemma_first_from(s, k, i);
    if i < s.len() && s[i].0 != k {
        lemma_first_from_is(s, k, i + 1, j);
    }
}

/// Two tables with the same keys in the same places find the same index.
pub proof fn lemma_first_from_same_keys<K, V, W>(s: Seq<(K, V)>, t: Seq<(K, W)>, k: K, i: int)
    requires
        s.len() == t.len(),
        forall|m: int| 0 <= m < s.len() ==> s[m].0 == t[m].0,
    ensures
        first_from(s, k, i) == first_from(t, k, i),
    decreases s.len() - i,
{
    if 0 <= i < s.len() && s[i].0 != k {
        lemma_first_from_same_keys(s, t, k, i + 1);
    }
}

/// A read after a write: the written key gives the written value, every other key what
/// it gave before.
pub proof fn lemma_lookup_upsert<K, V>(s: Seq<(K, V)>, k: K, v: V, k2: K)
    ensures
        lookup(upsert(s, k, v), k2) == (if k2 == k { Some(v) } else { lookup(s, k2) }),
{
    let t = upsert(s, k, v);
    lemma_first_from(s, k, 0);
    lemma_first_from(s, k2, 0);
    match first_from(s, k, 0) {
        Some(i) => {
            if k2 == k {
                lemma_first_from_is(t, k2, 0, Some(i));
            } else {
                lemma_first_from_is(t, k2, 0, first_from(s, k2, 0));
            }
        },
        None => {
            if k2 == k {
                lemma_first_from_is(t, k2, 0, Some(s.len() as int));
            } else {
                lemma_first_from_is(t, k2, 0, first_from(s, k2, 0));
            }
        },
    }
}

/// A write of an absent key: it reads back, every other key is unchanged; a present key
/// keeps its value.
pub proof fn lemma_lookup_insert_absent<K, V>(s: Seq<(K, V)>, k: K, v: V, k2: K)
    ensures
        lookup(insert_absent(s, k, v), k2) == (if k2 == k && lookup(s, k) is None {
            Some(v)
        } else {
            lookup(s, k2)
        }),
{
    if first_from(s, k, 0) is None {
        lemma_lookup_upsert(s, k, v, k2);
    }
}

/// Writing a key never shortens a table, and adds a pair only for a new key.
pub proof fn lemma_upsert_len<K, V>(s: Seq<(K, V)>, k: K, v: V)
    ensures
        upsert(s, k, v).len() == s.len() + (if lookup(s, k) is Some { 0int } else { 1int }),
{
    lemma_first_from(s, k, 0);
}

} // verus!
