//! The insertion-ordered map of the `indexmap` crate, as the library's
//! contracts see it: a sequence of key/value entries in insertion order with
//! pairwise distinct keys.
use indexmap::IndexMap;
use vstd::prelude::*;

verus! {

/// `indexmap::IndexMap`, known to Verus as an opaque type.
#[verifier::external_type_specification]
#[verifier::external_body]
#[verifier::reject_recursive_types(K)]
#[verifier::reject_recursive_types(V)]
#[verifier::reject_recursive_types(S)]
pub struct ExIndexMap<K, V, S>(IndexMap<K, V, S>);

/// No key occurs twice among the entries.
pub open spec fn keys_distinct<K, V>(entries: Seq<(K, V)>) -> bool {
    forall|i: int, j: int|
        0 <= i < entries.len() && 0 <= j < entries.len() && i != j ==> #[trigger] entries[i].0
            != #[trigger] entries[j].0
}

/// The keys of the entries, in order.
pub open spec fn keys_of<K, V>(entries: Seq<(K, V)>) -> Seq<K> {
    entries.map_values(|e: (K, V)| e.0)
}

/// Some entry has key `k`.
pub open spec fn has_key<K, V>(entries: Seq<(K, V)>, k: K) -> bool {
    exists|i: int| 0 <= i < entries.len() && #[trigger] entries[i].0 == k
}

/// The entries after inserting `v` under `k`: the value of an existing entry
/// for `k` is replaced in place, otherwise the entry is appended last.
pub open spec fn insert_entry<K, V>(entries: Seq<(K, V)>, k: K, v: V) -> Seq<(K, V)> {
    if has_key(entries, k) {
        let i = choose|i: int| 0 <= i < entries.len() && #[trigger] entries[i].0 == k;
        entries.update(i, (k, v))
    } else {
        entries.push((k, v))
    }
}

/// The value stored under `k`, if any.
pub open spec fn value_of<K, V>(entries: Seq<(K, V)>, k: K) -> Option<V> {
    if has_key(entries, k) {
        let i = choose|i: int| 0 <= i < entries.len() && #[trigger] entries[i].0 == k;
        Some(entries[i].1)
    } else {
        None
    }
}

/// With distinct keys, the entry holding `k` is the one at index `i`.
pub proof fn lemma_key_index<K, V>(entries: Seq<(K, V)>, k: K, i: int)
    requires
        keys_distinct(entries),
        0 <= i < entries.len(),
        entries[i].0 == k,
    ensures
        has_key(entries, k),
        (choose|j: int| 0 <= j < entries.len() && #[trigger] entries[j].0 == k) == i,
        value_of(entries, k) == Some(entries[i].1),
        insert_entry(entries, k, entries[i].1) == entries,
{
    assert(entries[i].0 == k);
    let j = choose|j: int| 0 <= j < entries.len() && #[trigger] entries[j].0 == k;
    assert(j == i);
    assert(entries.update(i, (k, entries[i].1)) =~= entries);
}

/// Inserting keeps the keys distinct.
pub proof fn lemma_insert_keeps_distinct<K, V>(entries: Seq<(K, V)>, k: K, v: V)
    requires
        keys_distinct(entries),
    ensures
        keys_distinct(insert_entry(entries, k, v)),
        has_key(insert_entry(entries, k, v), k),
        value_of(insert_entry(entries, k, v), k) == Some(v),
        forall|x: K| x != k ==> has_key(insert_entry(entries, k, v), x) == has_key(entries, x),
        forall|x: K| x != k ==> value_of(insert_entry(entries, k, v), x) == value_of(entries, x),
{
    let r = insert_entry(entries, k, v);
    if has_key(entries, k) {
        let i = choose|i: int| 0 <= i < entries.len() && #[trigger] entries[i].0 == k;
        assert(r[i].0 == k);
        assert forall|a: int, b: int|
            0 <= a < r.len() && 0 <= b < r.len() && a != b implies #[trigger] r[a].0
            != #[trigger] r[b].0 by {
            assert(r[a].0 == entries[a].0);
            assert(r[b].0 == entries[b].0);
        }
        lemma_key_index(r, k, i);
        assert forall|x: K| x != k implies has_key(r, x) == has_key(entries, x) by {
            if has_key(entries, x) {
                let p = choose|p: int| 0 <= p < entries.len() && #[trigger] entries[p].0 == x;
                assert(r[p].0 == x);
            }
            if has_key(r, x) {
                let p = choose|p: int| 0 <= p < r.len() && #[trigger] r[p].0 == x;
                assert(entries[p].0 == x);
            }
        }
        assert forall|x: K| x != k implies value_of(r, x) == value_of(entries, x) by {
            if has_key(entries, x) {
                let p = choose|p: int| 0 <= p < entries.len() && #[trigger] entries[p].0 == x;
                assert(r[p].0 == x);
                lemma_key_index(entries, x, p);
                lemma_key_index(r, x, p);
            }
        }
    } else {
        assert(r[entries.len() as int].0 == k);
        assert forall|a: int, b: int|
            0 <= a < r.len() && 0 <= b < r.len() && a != b implies #[trigger] r[a].0
            != #[trigger] r[b].0 by {
            if a < entries.len() && b < entries.len() {
            } else if a < entries.len() {
                assert(entries[a].0 != k);
            } else if b < entries.len() {
                assert(entries[b].0 != k);
            }
        }
        lemma_key_index(r, k, entries.len() as int);
        assert forall|x: K| x != k implies has_key(r, x) == has_key(entries, x) by {
            if has_key(entries, x) {
                let p = choose|p: int| 0 <= p < entries.len() && #[trigger] entries[p].0 == x;
                assert(r[p].0 == x);
            }
            if has_key(r, x) {
                let p = choose|p: int| 0 <= p < r.len() && #[trigger] r[p].0 == x;
                assert(entries[p].0 == x);
            }
        }
        assert forall|x: K| x != k implies value_of(r, x) == value_of(entries, x) by {
            if has_key(entries, x) {
                let p = choose|p: int| 0 <= p < entries.len() && #[trigger] entries[p].0 == x;
                assert(r[p].0 == x);
                lemma_key_index(entries, x, p);
                lemma_key_index(r, x, p);
            }
        }
    }
}

/// The values grouped by key: one group per key in the order keys first
/// occur, each holding that key's values in their original order
/// (`entry(k).or_default().push(v)` for every pair in turn).
pub open spec fn group_by_key<K, V>(pairs: Seq<(K, V)>) -> Seq<(K, Seq<V>)>
    decreases pairs.len(),
{
    if pairs.len() == 0 {
        Seq::empty()
    } else {
        let prev = group_by_key(pairs.drop_last());
        let k = pairs.last().0;
        let v = pairs.last().1;
        if has_key(prev, k) {
            let i = choose|i: int| 0 <= i < prev.len() && #[trigger] prev[i].0 == k;
            prev.update(i, (k, prev[i].1.push(v)))
        } else {
            prev.push((k, seq![v]))
        }
    }
}

/// The groups have distinct keys and none of them is empty.
pub proof fn lemma_group_by_key<K, V>(pairs: Seq<(K, V)>)
    ensures
        keys_distinct(group_by_key(pairs)),
        forall|i: int| 0 <= i < group_by_key(pairs).len() ==> #[trigger] group_by_key(pairs)[i].1.len() > 0,
    decreases pairs.len(),
{
    if pairs.len() > 0 {
        let prev = group_by_key(pairs.drop_last());
        lemma_group_by_key(pairs.drop_last());
        let k = pairs.last().0;
        let v = pairs.last().1;
        let r = group_by_key(pairs);
        if has_key(prev, k) {
            let i = choose|i: int| 0 <= i < prev.len() && #[trigger] prev[i].0 == k;
            assert(r == prev.update(i, (k, prev[i].1.push(v))));
            assert forall|a: int, b: int|
                0 <= a < r.len() && 0 <= b < r.len() && a != b implies #[trigger] r[a].0
                != #[trigger] r[b].0 by {
                assert(r[a].0 == prev[a].0);
                assert(r[b].0 == prev[b].0);
            }
            assert forall|j: int| 0 <= j < r.len() implies #[trigger] r[j].1.len() > 0 by {
                if j != i {
                    assert(r[j] == prev[j]);
                }
            }
        } else {
            assert(r == prev.push((k, seq![v])));
            assert forall|a: int, b: int|
                0 <= a < r.len() && 0 <= b < r.len() && a != b implies #[trigger] r[a].0
                != #[trigger] r[b].0 by {
                if a < prev.len() && b < prev.len() {
                } else if a < prev.len() {
                    assert(prev[a].0 != k);
                } else if b < prev.len() {
                    assert(prev[b].0 != k);
                }
            }
            assert forall|j: int| 0 <= j < r.len() implies #[trigger] r[j].1.len() > 0 by {
                if j < prev.len() {
                    assert(r[j] == prev[j]);
                }
            }
        }
    }
}

/// The values of the pairs with key `k`, in their original order.
pub open spec fn values_with_key<K, V>(pairs: Seq<(K, V)>, k: K) -> Seq<V> {
    pairs.filter(|p: (K, V)| p.0 == k).map_values(|p: (K, V)| p.1)
}

/// Grouping keeps every pair exactly once: each group holds, in order, the
/// values of exactly the pairs with its key, and every key of the pairs has a
/// group.
pub proof fn lemma_group_by_key_keeps_pairs<K, V>(pairs: Seq<(K, V)>)
    ensures
        forall|i: int|
            0 <= i < group_by_key(pairs).len() ==> #[trigger] group_by_key(pairs)[i].1
                == values_with_key(pairs, group_by_key(pairs)[i].0),
        forall|j: int| 0 <= j < pairs.len() ==> has_key(group_by_key(pairs), #[trigger] pairs[j].0),
    decreases pairs.len(),
{
    if pairs.len() > 0 {
        let rest = pairs.drop_last();
        let prev = group_by_key(rest);
        lemma_group_by_key_keeps_pairs(rest);
        lemma_group_by_key(rest);
        let k = pairs.last().0;
        let v = pairs.last().1;
        let r = group_by_key(pairs);
        assert(rest.push(pairs.last()) =~= pairs);
        assert forall|key: K| #[trigger] values_with_key(pairs, key) == if key == k {
            values_with_key(rest, key).push(v)
        } else {
            values_with_key(rest, key)
        } by {
            rest.lemma_filter_push(pairs.last(), |p: (K, V)| p.0 == key);
            if key == k {
                assert(rest.filter(|p: (K, V)| p.0 == key).push(pairs.last()).map_values(
                    |p: (K, V)| p.1,
                ) =~= rest.filter(|p: (K, V)| p.0 == key).map_values(|p: (K, V)| p.1).push(v));
            }
        }
        if has_key(prev, k) {
            let i = choose|i: int| 0 <= i < prev.len() && #[trigger] prev[i].0 == k;
            assert(r == prev.update(i, (k, prev[i].1.push(v))));
            assert forall|g: int| 0 <= g < r.len() implies #[trigger] r[g].1 == values_with_key(
                pairs,
                r[g].0,
            ) by {
                if g != i {
                    assert(r[g] == prev[g]);
                    assert(prev[g].0 != k);
                }
            }
            assert forall|j: int| 0 <= j < pairs.len() implies has_key(r, #[trigger] pairs[j].0) by {
                if j < rest.len() {
                    assert(rest[j] == pairs[j]);
                    let g = choose|g: int| 0 <= g < prev.len() && #[trigger] prev[g].0 == rest[j].0;
                    assert(r[g].0 == prev[g].0);
                } else {
                    assert(r[i].0 == k);
                }
            }
        } else {
            assert(r == prev.push((k, seq![v])));
            assert(values_with_key(rest, k) =~= Seq::<V>::empty()) by {
                assert forall|j: int| 0 <= j < rest.len() implies #[trigger] rest[j].0 != k by {
                    if rest[j].0 == k {
                        assert(has_key(prev, rest[j].0));
                    }
                }
                rest.lemma_all_neg_filter_empty(|p: (K, V)| p.0 == k);
            }
            assert(values_with_key(pairs, k) =~= seq![v]);
            assert forall|g: int| 0 <= g < r.len() implies #[trigger] r[g].1 == values_with_key(
                pairs,
                r[g].0,
            ) by {
                if g < prev.len() {
                    assert(r[g] == prev[g]);
                    assert(prev[g].0 != k);
                }
            }
            assert forall|j: int| 0 <= j < pairs.len() implies has_key(r, #[trigger] pairs[j].0) by {
                if j < rest.len() {
                    assert(rest[j] == pairs[j]);
                    let g = choose|g: int| 0 <= g < prev.len() && #[trigger] prev[g].0 == rest[j].0;
                    assert(r[g].0 == prev[g].0);
                } else {
                    assert(r[prev.len() as int].0 == k);
                }
            }
        }
    }
}

/// The entries' keys are in order by `le`: an earlier entry's key is `le`
/// any later entry's key.
pub open spec fn keys_in_order<K, V>(entries: Seq<(K, V)>, le: spec_fn(K, K) -> bool) -> bool {
    forall|i: int, j: int| 0 <= i < j < entries.len() ==> le(#[trigger] entries[i].0, #[trigger] entries[j].0)
}

/// The elements are in order by `le`.
pub open spec fn in_order<V>(s: Seq<V>, le: spec_fn(V, V) -> bool) -> bool {
    forall|i: int, j: int| 0 <= i < j < s.len() ==> le(#[trigger] s[i], #[trigger] s[j])
}

/// Among the pairs with equal keys, the values are in order by `le`.
pub open spec fn values_in_order_per_key<K, V>(pairs: Seq<(K, V)>, le: spec_fn(V, V) -> bool) -> bool {
    forall|i: int, j: int|
        0 <= i < j < pairs.len() && pairs[i].0 == pairs[j].0 ==> le(#[trigger] pairs[i].1, #[trigger] pairs[j].1)
}

/// The values with key `key` of the pairs, after one more pair.
pub proof fn lemma_values_with_key_push<K, V>(pairs: Seq<(K, V)>, p: (K, V), key: K)
    ensures
        values_with_key(pairs.push(p), key) == if p.0 == key {
            values_with_key(pairs, key).push(p.1)
        } else {
            values_with_key(pairs, key)
        },
{
    pairs.lemma_filter_push(p, |q: (K, V)| q.0 == key);
    if p.0 == key {
        assert(pairs.filter(|q: (K, V)| q.0 == key).push(p).map_values(|q: (K, V)| q.1)
            =~= pairs.filter(|q: (K, V)| q.0 == key).map_values(|q: (K, V)| q.1).push(p.1));
    }
}

/// Grouping pairs whose keys are in order gives groups whose keys are in the
/// same order, each the key of some pair.
pub proof fn lemma_group_keys_in_order<K, V>(pairs: Seq<(K, V)>, le: spec_fn(K, K) -> bool)
    requires
        keys_in_order(pairs, le),
    ensures
        keys_in_order(group_by_key(pairs), le),
        forall|g: int| 0 <= g < group_by_key(pairs).len() ==> has_key(pairs, #[trigger] group_by_key(pairs)[g].0),
    decreases pairs.len(),
{
    if pairs.len() > 0 {
        let n = pairs.len() - 1;
        let rest = pairs.drop_last();
        assert(keys_in_order(rest, le)) by {
            assert forall|i: int, j: int| 0 <= i < j < rest.len() implies le(
                #[trigger] rest[i].0,
                #[trigger] rest[j].0,
            ) by {
                assert(rest[i] == pairs[i] && rest[j] == pairs[j]);
            }
        }
        lemma_group_keys_in_order(rest, le);
        let prev = group_by_key(rest);
        let k = pairs.last().0;
        let v = pairs.last().1;
        let r = group_by_key(pairs);
        assert forall|g: int| 0 <= g < prev.len() implies le(#[trigger] prev[g].0, k) && has_key(
            pairs,
            prev[g].0,
        ) by {
            let m = choose|m: int| 0 <= m < rest.len() && #[trigger] rest[m].0 == prev[g].0;
            assert(pairs[m] == rest[m]);
            assert(le(pairs[m].0, pairs[n].0));
        }
        if has_key(prev, k) {
            let i = choose|i: int| 0 <= i < prev.len() && #[trigger] prev[i].0 == k;
            assert(r == prev.update(i, (k, prev[i].1.push(v))));
            assert forall|a: int, b: int| 0 <= a < b < r.len() implies le(
                #[trigger] r[a].0,
                #[trigger] r[b].0,
            ) by {
                assert(r[a].0 == prev[a].0 && r[b].0 == prev[b].0);
            }
            assert forall|g: int| 0 <= g < r.len() implies has_key(pairs, #[trigger] r[g].0) by {
                assert(r[g].0 == prev[g].0);
            }
        } else {
            assert(r == prev.push((k, seq![v])));
            assert forall|a: int, b: int| 0 <= a < b < r.len() implies le(
                #[trigger] r[a].0,
                #[trigger] r[b].0,
            ) by {
                if b < prev.len() {
                    assert(r[a] == prev[a] && r[b] == prev[b]);
                } else {
                    assert(r[a] == prev[a]);
                    assert(r[b].0 == k);
                }
            }
            assert forall|g: int| 0 <= g < r.len() implies has_key(pairs, #[trigger] r[g].0) by {
                if g < prev.len() {
                    assert(r[g] == prev[g]);
                } else {
                    assert(pairs[n].0 == k);
                }
            }
        }
    }
}

/// When the values of pairs with equal keys are in order, the values with
/// any one key are in order.
pub proof fn lemma_values_with_key_in_order<K, V>(pairs: Seq<(K, V)>, key: K, le: spec_fn(V, V) -> bool)
    requires
        values_in_order_per_key(pairs, le),
    ensures
        in_order(values_with_key(pairs, key), le),
    decreases pairs.len(),
{
    if pairs.len() > 0 {
        let n = pairs.len() - 1;
        let rest = pairs.drop_last();
        let last = pairs.last();
        assert(values_in_order_per_key(rest, le)) by {
            assert forall|i: int, j: int| 0 <= i < j < rest.len() && rest[i].0 == rest[j].0 implies le(
                #[trigger] rest[i].1,
                #[trigger] rest[j].1,
            ) by {
                assert(rest[i] == pairs[i] && rest[j] == pairs[j]);
            }
        }
        lemma_values_with_key_in_order(rest, key, le);
        assert(rest.push(last) =~= pairs);
        lemma_values_with_key_push(rest, last, key);
        if last.0 == key {
            let before = values_with_key(rest, key);
            let f = rest.filter(|q: (K, V)| q.0 == key);
            let after = before.push(last.1);
            assert forall|a: int, b: int| 0 <= a < b < after.len() implies le(
                #[trigger] after[a],
                #[trigger] after[b],
            ) by {
                if b < before.len() {
                    assert(after[a] == before[a] && after[b] == before[b]);
                } else {
                    assert(after[a] == f[a].1);
                    rest.lemma_filter_pred(|q: (K, V)| q.0 == key, a);
                    assert(f.contains(f[a]));
                    rest.lemma_filter_contains_rev(|q: (K, V)| q.0 == key, f[a]);
                    let m = choose|m: int| 0 <= m < rest.len() && rest[m] == f[a];
                    assert(pairs[m] == rest[m]);
                    assert(pairs[m].0 == pairs[n].0);
                    assert(le(pairs[m].1, pairs[n].1));
                }
            }
        }
    }
}

} // verus!
