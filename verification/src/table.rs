//! Keyed tables kept as parallel sequences of keys and values, and the map
//! that such a table stands for.

use vstd::prelude::*;

verus! {

/// No key occurs twice.
pub open spec fn distinct<K>(keys: Seq<K>) -> bool {
    forall|i: int, j: int| 0 <= i < j < keys.len() ==> keys[i] != keys[j]
}

/// A place at which `key` occurs among `keys`.
pub open spec fn index_of<K>(keys: Seq<K>, key: K) -> int {
    choose|i: int| 0 <= i < keys.len() && keys[i] == key
}

/// The map from each key to the value at its place.
pub open spec fn as_map<K, V>(keys: Seq<K>, values: Seq<V>) -> Map<K, V> {
    Map::new(|key: K| keys.contains(key), |key: K| values[index_of(keys, key)])
}

/// In a table without repeated keys, the key at a place maps to the value at
/// that place.
pub proof fn lemma_as_map_at<K, V>(keys: Seq<K>, values: Seq<V>, i: int)
    requires
        distinct(keys),
        keys.len() == values.len(),
        0 <= i < keys.len(),
    ensures
        as_map(keys, values).contains_key(keys[i]),
        as_map(keys, values)[keys[i]] == values[i],
{
    assert(keys.contains(keys[i]));
    let j = index_of(keys, keys[i]);
    assert(j == i);
}

/// A key that occurs nowhere is not in the map.
pub proof fn lemma_as_map_absent<K, V>(keys: Seq<K>, values: Seq<V>, key: K)
    requires
        forall|i: int| 0 <= i < keys.len() ==> keys[i] != key,
    ensures
        !as_map(keys, values).contains_key(key),
{
}

/// Appending a new key inserts it.
pub proof fn lemma_as_map_push<K, V>(keys: Seq<K>, values: Seq<V>, key: K, value: V)
    requires
        distinct(keys),
        keys.len() == values.len(),
        !keys.contains(key),
    ensures
        distinct(keys.push(key)),
        as_map(keys.push(key), values.push(value)) =~= as_map(keys, values).insert(key, value),
{
    let keys2 = keys.push(key);
    let values2 = values.push(value);
    assert forall|k: K| #[trigger] as_map(keys2, values2).contains_key(k) <==> as_map(
        keys,
        values,
    ).insert(key, value).contains_key(k) by {
        if keys.contains(k) {
            let i = index_of(keys, k);
            assert(keys2[i] == k);
        }
        if k == key {
            assert(keys2[keys.len() as int] == k);
        }
    }
    assert forall|k: K| #[trigger] as_map(keys2, values2).contains_key(k) implies as_map(
        keys2,
        values2,
    )[k] == as_map(keys, values).insert(key, value)[k] by {
        let i = index_of(keys2, k);
        lemma_as_map_at(keys2, values2, i);
        if i < keys.len() {
            assert(keys[i] == k);
            lemma_as_map_at(keys, values, i);
        }
    }
}

/// Replacing the value at a place overwrites the entry of the key there.
pub proof fn lemma_as_map_update<K, V>(keys: Seq<K>, values: Seq<V>, i: int, value: V)
    requires
        distinct(keys),
        keys.len() == values.len(),
        0 <= i < keys.len(),
    ensures
        as_map(keys, values.update(i, value)) =~= as_map(keys, values).insert(keys[i], value),
{
    let values2 = values.update(i, value);
    assert(keys.contains(keys[i]));
    assert forall|k: K| #[trigger] as_map(keys, values2).contains_key(k) implies as_map(
        keys,
        values2,
    )[k] == as_map(keys, values).insert(keys[i], value)[k] by {
        let j = index_of(keys, k);
        lemma_as_map_at(keys, values2, j);
        lemma_as_map_at(keys, values, j);
    }
}

/// Dropping a place removes the key there.
pub proof fn lemma_as_map_remove<K, V>(keys: Seq<K>, values: Seq<V>, i: int)
    requires
        distinct(keys),
        keys.len() == values.len(),
        0 <= i < keys.len(),
    ensures
        distinct(keys.remove(i)),
        as_map(keys.remove(i), values.remove(i)) =~= as_map(keys, values).remove(keys[i]),
{
    let keys2 = keys.remove(i);
    let values2 = values.remove(i);
    assert forall|a: int, b: int| 0 <= a < b < keys2.len() implies keys2[a] != keys2[b] by {
        let a0 = if a < i { a } else { a + 1 };
        let b0 = if b < i { b } else { b + 1 };
        assert(keys2[a] == keys[a0]);
        assert(keys2[b] == keys[b0]);
    }
    assert forall|k: K| #[trigger] as_map(keys2, values2).contains_key(k) <==> as_map(
        keys,
        values,
    ).remove(keys[i]).contains_key(k) by {
        if keys2.contains(k) {
            let a = index_of(keys2, k);
            let a0 = if a < i { a } else { a + 1 };
            assert(keys[a0] == k);
        }
        if keys.contains(k) && k != keys[i] {
            let j = index_of(keys, k);
            let j2 = if j < i { j } else { j - 1 };
            assert(keys2[j2] == k);
        }
    }
    assert forall|k: K| #[trigger] as_map(keys2, values2).contains_key(k) implies as_map(
        keys2,
        values2,
    )[k] == as_map(keys, values).remove(keys[i])[k] by {
        let a = index_of(keys2, k);
        let a0 = if a < i { a } else { a + 1 };
        lemma_as_map_at(keys2, values2, a);
        assert(keys[a0] == k);
        lemma_as_map_at(keys, values, a0);
    }
}

/// The entries of a map whose keys satisfy `keep`.
pub open spec fn restricted<K, V>(entries: Map<K, V>, keep: spec_fn(K) -> bool) -> Map<K, V> {
    Map::new(|key: K| entries.contains_key(key) && keep(key), |key: K| entries[key])
}

/// What holds while a table is filtered from its end: `kept_keys` and
/// `kept_values` hold, without repetition, exactly the entries at the places
/// from `from` on whose keys satisfy `keep`.
pub open spec fn filtered_from<K, V>(
    keys: Seq<K>,
    values: Seq<V>,
    keep: spec_fn(K) -> bool,
    from: int,
    kept_keys: Seq<K>,
    kept_values: Seq<V>,
) -> bool {
    &&& kept_keys.len() == kept_values.len()
    &&& distinct(kept_keys)
    &&& forall|a: int|
        0 <= a < kept_keys.len() ==> keep(#[trigger] kept_keys[a]) && exists|j: int|
            from <= j < keys.len() && #[trigger] keys[j] == kept_keys[a] && values[j]
                == kept_values[a]
    &&& forall|j: int|
        from <= j < keys.len() && keep(#[trigger] keys[j]) ==> kept_keys.contains(keys[j])
}

/// Filtering starts with nothing kept.
pub proof fn lemma_filter_start<K, V>(keys: Seq<K>, values: Seq<V>, keep: spec_fn(K) -> bool)
    ensures
        filtered_from(keys, values, keep, keys.len() as int, Seq::<K>::empty(), Seq::<V>::empty()),
{
}

/// An entry whose key satisfies `keep` is appended to what is kept.
pub proof fn lemma_filter_keep<K, V>(
    keys: Seq<K>,
    values: Seq<V>,
    keep: spec_fn(K) -> bool,
    from: int,
    kept_keys: Seq<K>,
    kept_values: Seq<V>,
)
    requires
        distinct(keys),
        keys.len() == values.len(),
        0 < from <= keys.len(),
        keep(keys[from - 1]),
        filtered_from(keys, values, keep, from, kept_keys, kept_values),
    ensures
        filtered_from(
            keys,
            values,
            keep,
            from - 1,
            kept_keys.push(keys[from - 1]),
            kept_values.push(values[from - 1]),
        ),
{
    let key = keys[from - 1];
    let keys2 = kept_keys.push(key);
    let values2 = kept_values.push(values[from - 1]);
    assert forall|a: int, b: int| 0 <= a < b < keys2.len() implies keys2[a] != keys2[b] by {
        if b == kept_keys.len() {
            let j = choose|j: int|
                from <= j < keys.len() && #[trigger] keys[j] == kept_keys[a] && values[j]
                    == kept_values[a];
            assert(keys[j] != keys[from - 1]);
        }
    }
    assert forall|a: int| 0 <= a < keys2.len() implies keep(#[trigger] keys2[a]) && exists|j: int|
        from - 1 <= j < keys.len() && #[trigger] keys[j] == keys2[a] && values[j] == values2[a] by {
        if a < kept_keys.len() {
            let j = choose|j: int|
                from <= j < keys.len() && #[trigger] keys[j] == kept_keys[a] && values[j]
                    == kept_values[a];
            assert(from - 1 <= j < keys.len() && keys[j] == keys2[a] && values[j] == values2[a]);
        } else {
            assert(keys[from - 1] == keys2[a] && values[from - 1] == values2[a]);
        }
    }
    assert forall|j: int| from - 1 <= j < keys.len() && keep(#[trigger] keys[j]) implies keys2.contains(
        keys[j],
    ) by {
        if j == from - 1 {
            assert(keys2[kept_keys.len() as int] == keys[j]);
        } else {
            assert(kept_keys.contains(keys[j]));
            let a = choose|a: int| 0 <= a < kept_keys.len() && kept_keys[a] == keys[j];
            assert(keys2[a] == keys[j]);
        }
    }
}

/// An entry whose key fails `keep` is passed over.
pub proof fn lemma_filter_skip<K, V>(
    keys: Seq<K>,
    values: Seq<V>,
    keep: spec_fn(K) -> bool,
    from: int,
    kept_keys: Seq<K>,
    kept_values: Seq<V>,
)
    requires
        0 < from <= keys.len(),
        !keep(keys[from - 1]),
        filtered_from(keys, values, keep, from, kept_keys, kept_values),
    ensures
        filtered_from(keys, values, keep, from - 1, kept_keys, kept_values),
{
    assert forall|a: int| 0 <= a < kept_keys.len() implies keep(#[trigger] kept_keys[a])
        && exists|j: int|
        from - 1 <= j < keys.len() && #[trigger] keys[j] == kept_keys[a] && values[j]
            == kept_values[a] by {
        let j = choose|j: int|
            from <= j < keys.len() && #[trigger] keys[j] == kept_keys[a] && values[j]
                == kept_values[a];
        assert(from - 1 <= j < keys.len() && keys[j] == kept_keys[a] && values[j] == kept_values[a]);
    }
}

/// Once every place was visited, what is kept is the table restricted to
/// the keys that satisfy `keep`.
pub proof fn lemma_filter_done<K, V>(
    keys: Seq<K>,
    values: Seq<V>,
    keep: spec_fn(K) -> bool,
    kept_keys: Seq<K>,
    kept_values: Seq<V>,
)
    requires
        distinct(keys),
        keys.len() == values.len(),
        filtered_from(keys, values, keep, 0, kept_keys, kept_values),
    ensures
        as_map(kept_keys, kept_values) =~= restricted(as_map(keys, values), keep),
{
    let kept = as_map(kept_keys, kept_values);
    let all = as_map(keys, values);
    assert forall|k: K| #[trigger] kept.contains_key(k) <==> restricted(all, keep).contains_key(
        k,
    ) by {
        if kept_keys.contains(k) {
            let a = index_of(kept_keys, k);
            let j = choose|j: int|
                0 <= j < keys.len() && #[trigger] keys[j] == kept_keys[a] && values[j]
                    == kept_values[a];
            assert(keys.contains(k));
        }
        if keys.contains(k) && keep(k) {
            let j = index_of(keys, k);
            assert(keep(keys[j]));
        }
    }
    assert forall|k: K| #[trigger] kept.contains_key(k) implies kept[k] == restricted(all, keep)[k] by {
        let a = index_of(kept_keys, k);
        lemma_as_map_at(kept_keys, kept_values, a);
        let j = choose|j: int|
            0 <= j < keys.len() && #[trigger] keys[j] == kept_keys[a] && values[j]
                == kept_values[a];
        lemma_as_map_at(keys, values, j);
    }
}

} // verus!
