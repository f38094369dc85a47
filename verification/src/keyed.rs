//! Association lists: a sequence of keys without repetition beside a sequence of
//! values, read as a finite map. The tables of this crate store their rows in a
//! `Vec` and describe themselves through the map defined here.

use vstd::prelude::*;

verus! {

/// The map that sends `keys[i]` to `vals[i]`.
pub open spec fn keyed_map<V>(keys: Seq<u64>, vals: Seq<V>) -> Map<u64, V> {
    Map::new(|k: u64| keys.contains(k), |k: u64| vals[keys.index_of(k)])
}

/// The row stored at position `i` is the one the map holds for `keys[i]`.
pub proof fn lemma_keyed_at<V>(keys: Seq<u64>, vals: Seq<V>, i: int)
    requires
        keys.no_duplicates(),
        keys.len() == vals.len(),
        0 <= i < keys.len(),
    ensures
        keyed_map(keys, vals).contains_key(keys[i]),
        keyed_map(keys, vals)[keys[i]] == vals[i],
{
    assert(keys.contains(keys[i]));
    let j = keys.index_of(keys[i]);
    assert(0 <= j < keys.len() && keys[j] == keys[i]);
}

/// The map of no rows is empty.
pub proof fn lemma_keyed_empty<V>(keys: Seq<u64>, vals: Seq<V>)
    requires
        keys.len() == 0,
    ensures
        keyed_map(keys, vals) == Map::<u64, V>::empty(),
{
    assert(keyed_map(keys, vals) =~= Map::<u64, V>::empty());
}

/// Appending a row under a fresh key inserts it into the map.
pub proof fn lemma_keyed_push<V>(keys: Seq<u64>, vals: Seq<V>, k: u64, v: V)
    requires
        keys.no_duplicates(),
        keys.len() == vals.len(),
        !keys.contains(k),
    ensures
        keys.push(k).no_duplicates(),
        keyed_map(keys.push(k), vals.push(v)) == keyed_map(keys, vals).insert(k, v),
{
    let keys2 = keys.push(k);
    let vals2 = vals.push(v);
    assert(keys2.no_duplicates()) by {
        assert forall|i: int, j: int|
            0 <= i < keys2.len() && 0 <= j < keys2.len() && i != j implies keys2[i] != keys2[j] by {
            if i < keys.len() {
                assert(keys.contains(keys[i]));
            }
            if j < keys.len() {
                assert(keys.contains(keys[j]));
            }
        }
    }
    assert forall|x: u64| #[trigger]
        keyed_map(keys2, vals2).contains_key(x) == keyed_map(keys, vals).insert(
            k,
            v,
        ).contains_key(x) by {
        if keys2.contains(x) {
            let i = keys2.index_of(x);
            if i < keys.len() {
                assert(keys[i] == x);
            }
        }
        if keys.contains(x) {
            let i = keys.index_of(x);
            assert(keys2[i] == x);
        }
        if x == k {
            assert(keys2[keys.len() as int] == k);
        }
    }
    assert forall|x: u64| #[trigger]
        keyed_map(keys2, vals2).contains_key(x) implies keyed_map(keys2, vals2)[x] == keyed_map(
        keys,
        vals,
    ).insert(k, v)[x] by {
        let i = keys2.index_of(x);
        lemma_keyed_at(keys2, vals2, i);
        if i < keys.len() {
            assert(keys[i] == x);
            lemma_keyed_at(keys, vals, i);
        }
    }
    assert(keyed_map(keys2, vals2) =~= keyed_map(keys, vals).insert(k, v));
}

/// Replacing the value of the row at position `i` replaces it in the map.
pub proof fn lemma_keyed_update<V>(keys: Seq<u64>, vals: Seq<V>, i: int, v: V)
    requires
        keys.no_duplicates(),
        keys.len() == vals.len(),
        0 <= i < keys.len(),
    ensures
        keyed_map(keys, vals.update(i, v)) == keyed_map(keys, vals).insert(keys[i], v),
{
    let vals2 = vals.update(i, v);
    assert(keys.contains(keys[i]));
    assert forall|x: u64| #[trigger]
        keyed_map(keys, vals2).contains_key(x) implies keyed_map(keys, vals2)[x] == keyed_map(
        keys,
        vals,
    ).insert(keys[i], v)[x] by {
        let j = keys.index_of(x);
        lemma_keyed_at(keys, vals2, j);
        lemma_keyed_at(keys, vals, j);
    }
    assert(keyed_map(keys, vals2) =~= keyed_map(keys, vals).insert(keys[i], v));
}

/// Deleting the row at position `i` removes its key from the map.
pub proof fn lemma_keyed_remove<V>(keys: Seq<u64>, vals: Seq<V>, i: int)
    requires
        keys.no_duplicates(),
        keys.len() == vals.len(),
        0 <= i < keys.len(),
    ensures
        keys.remove(i).no_duplicates(),
        keyed_map(keys.remove(i), vals.remove(i)) == keyed_map(keys, vals).remove(keys[i]),
{
    let keys2 = keys.remove(i);
    let vals2 = vals.remove(i);
    assert(keys2.no_duplicates());
    assert forall|x: u64| #[trigger]
        keyed_map(keys2, vals2).contains_key(x) == keyed_map(keys, vals).remove(
            keys[i],
        ).contains_key(x) by {
        if keys2.contains(x) {
            let j = keys2.index_of(x);
            if j < i {
                assert(keys[j] == x);
            } else {
                assert(keys[j + 1] == x);
            }
        }
        if keys.contains(x) && x != keys[i] {
            let j = keys.index_of(x);
            if j < i {
                assert(keys2[j] == x);
            } else {
                assert(keys2[j - 1] == x);
            }
        }
    }
    assert forall|x: u64| #[trigger]
        keyed_map(keys2, vals2).contains_key(x) implies keyed_map(keys2, vals2)[x] == keyed_map(
        keys,
        vals,
    ).remove(keys[i])[x] by {
        let j = keys2.index_of(x);
        lemma_keyed_at(keys2, vals2, j);
        if j < i {
            lemma_keyed_at(keys, vals, j);
        } else {
            lemma_keyed_at(keys, vals, j + 1);
        }
    }
    assert(keyed_map(keys2, vals2) =~= keyed_map(keys, vals).remove(keys[i]));
}

/// Changing every value by `f` while keeping the keys maps the values of the map.
pub proof fn lemma_keyed_map_values<V>(
    keys: Seq<u64>,
    vals: Seq<V>,
    vals2: Seq<V>,
    f: spec_fn(V) -> V,
)
    requires
        keys.no_duplicates(),
        keys.len() == vals.len(),
        vals2.len() == vals.len(),
        forall|i: int| 0 <= i < vals.len() ==> vals2[i] == f(vals[i]),
    ensures
        keyed_map(keys, vals2) == keyed_map(keys, vals).map_values(f),
{
    assert forall|x: u64| #[trigger]
        keyed_map(keys, vals2).contains_key(x) implies keyed_map(keys, vals2)[x] == keyed_map(
        keys,
        vals,
    ).map_values(f)[x] by {
        let j = keys.index_of(x);
        lemma_keyed_at(keys, vals2, j);
        lemma_keyed_at(keys, vals, j);
    }
    assert(keyed_map(keys, vals2) =~= keyed_map(keys, vals).map_values(f));
}

/// The keys of the rows whose value satisfies `p`, in row order.
pub open spec fn select_keys<V>(keys: Seq<u64>, vals: Seq<V>, p: spec_fn(V) -> bool) -> Seq<u64>
    decreases keys.len(),
{
    if keys.len() == 0 || vals.len() != keys.len() {
        Seq::empty()
    } else {
        let rest = select_keys(keys.drop_last(), vals.drop_last(), p);
        if p(vals.last()) {
            rest.push(keys.last())
        } else {
            rest
        }
    }
}

/// Selecting among the first `i + 1` rows extends the selection among the first `i`.
pub proof fn lemma_select_step<V>(keys: Seq<u64>, vals: Seq<V>, p: spec_fn(V) -> bool, i: int)
    requires
        keys.len() == vals.len(),
        0 <= i < keys.len(),
    ensures
        select_keys(keys.take(i + 1), vals.take(i + 1), p) == (if p(vals[i]) {
            select_keys(keys.take(i), vals.take(i), p).push(keys[i])
        } else {
            select_keys(keys.take(i), vals.take(i), p)
        }),
{
    assert(keys.take(i + 1).drop_last() =~= keys.take(i));
    assert(vals.take(i + 1).drop_last() =~= vals.take(i));
}

/// `list` names, once each, exactly the keys of `m` whose value satisfies `p`.
pub open spec fn lists_keys_where<V>(list: Seq<u64>, m: Map<u64, V>, p: spec_fn(V) -> bool)
    -> bool {
    &&& list.no_duplicates()
    &&& forall|k: u64| #[trigger] list.contains(k) <==> m.contains_key(k) && p(m[k])
}

/// The selection lists exactly the keys whose value satisfies `p`.
pub proof fn lemma_select_keys<V>(keys: Seq<u64>, vals: Seq<V>, p: spec_fn(V) -> bool)
    requires
        keys.no_duplicates(),
        keys.len() == vals.len(),
    ensures
        lists_keys_where(select_keys(keys, vals, p), keyed_map(keys, vals), p),
    decreases keys.len(),
{
    let sel = select_keys(keys, vals, p);
    let m = keyed_map(keys, vals);
    if keys.len() == 0 {
        assert forall|k: u64| #[trigger] sel.contains(k) <==> m.contains_key(k) && p(m[k]) by {}
    } else {
        let n = keys.len() - 1;
        let keys0 = keys.drop_last();
        let vals0 = vals.drop_last();
        let rest = select_keys(keys0, vals0, p);
        lemma_select_keys(keys0, vals0, p);
        let m0 = keyed_map(keys0, vals0);
        assert(!keys0.contains(keys[n])) by {
            if keys0.contains(keys[n]) {
                let j = keys0.index_of(keys[n]);
                assert(keys[j] == keys[n]);
            }
        }
        assert(keys0.push(keys[n]) =~= keys);
        assert(vals0.push(vals[n]) =~= vals);
        lemma_keyed_push(keys0, vals0, keys[n], vals[n]);
        assert(m == m0.insert(keys[n], vals[n]));
        assert(!rest.contains(keys[n]));
        assert forall|k: u64| #[trigger] sel.contains(k) <==> m.contains_key(k) && p(m[k]) by {
            if sel.contains(k) {
                let j = sel.index_of(k);
                if j < rest.len() {
                    assert(rest[j] == k);
                    assert(rest.contains(k));
                }
            }
            if m.contains_key(k) && p(m[k]) {
                if k == keys[n] {
                    assert(sel[rest.len() as int] == k);
                } else {
                    assert(rest.contains(k));
                    let j = rest.index_of(k);
                    assert(sel[j] == k);
                }
            }
        }
        assert(sel.no_duplicates()) by {
            assert forall|a: int, b: int|
                0 <= a < sel.len() && 0 <= b < sel.len() && a != b implies sel[a] != sel[b] by {
                if a < rest.len() {
                    assert(rest.contains(rest[a]));
                }
                if b < rest.len() {
                    assert(rest.contains(rest[b]));
                }
            }
        }
    }
}

} // verus!
