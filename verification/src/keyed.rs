//! Tables kept as a sequence of keys beside a sequence of values, and the
//! map that such a table stands for when no key occurs twice.

use vstd::prelude::*;

verus! {

/// The map from each key to the value at the key's position.
pub open spec fn map_of<K, V>(keys: Seq<K>, vals: Seq<V>) -> Map<K, V> {
    Map::new(|k: K| keys.contains(k), |k: K| vals[keys.index_of(k)])
}

/// With no key twice, the map holds the value at `i` under the key at `i`.
pub proof fn lemma_map_at<K, V>(keys: Seq<K>, vals: Seq<V>, i: int)
    requires
        keys.no_duplicates(),
        keys.len() == vals.len(),
        0 <= i < keys.len(),
    ensures
        map_of(keys, vals).contains_key(keys[i]),
        map_of(keys, vals)[keys[i]] == vals[i],
        keys.index_of(keys[i]) == i,
{
    assert(keys.contains(keys[i]));
}

/// Appending a key that is not yet there inserts it into the map.
pub proof fn lemma_map_push<K, V>(keys: Seq<K>, vals: Seq<V>, k: K, v: V)
    requires
        keys.no_duplicates(),
        keys.len() == vals.len(),
        !keys.contains(k),
    ensures
        keys.push(k).no_duplicates(),
        map_of(keys.push(k), vals.push(v)) == map_of(keys, vals).insert(k, v),
{
    let keys2 = keys.push(k);
    let vals2 = vals.push(v);
    assert(keys2.no_duplicates()) by {
        assert forall|a: int, b: int| 0 <= a < keys2.len() && 0 <= b < keys2.len() && a != b implies keys2[a] != keys2[b] by {
            if a < keys.len() {
                assert(keys2[a] == keys[a]);
            }
            if b < keys.len() {
                assert(keys2[b] == keys[b]);
            }
        }
    }
    let m1 = map_of(keys2, vals2);
    let m2 = map_of(keys, vals).insert(k, v);
    assert forall|x: K| m1.contains_key(x) == m2.contains_key(x) by {
        if keys2.contains(x) {
            let i = keys2.index_of(x);
            if i < keys.len() {
                assert(keys[i] == x);
            }
        }
        if keys.contains(x) {
            let i = keys.index_of(x);
            assert(keys2[i] == x);
        }
        if x == k {
            assert(keys2[keys.len() as int] == k);
        }
    }
    assert forall|x: K| m1.contains_key(x) implies m1[x] == m2[x] by {
        let i = keys2.index_of(x);
        lemma_map_at(keys2, vals2, i);
        if i < keys.len() {
            assert(keys2[i] == keys[i]);
            lemma_map_at(keys, vals, i);
        }
    }
    assert(m1 =~= m2);
}

/// Taking the entry at `i` out removes its key from the map.
pub proof fn lemma_map_remove<K, V>(keys: Seq<K>, vals: Seq<V>, i: int)
    requires
        keys.no_duplicates(),
        keys.len() == vals.len(),
        0 <= i < keys.len(),
    ensures
        keys.remove(i).no_duplicates(),
        !keys.remove(i).contains(keys[i]),
        map_of(keys.remove(i), vals.remove(i)) == map_of(keys, vals).remove(keys[i]),
{
    let keys2 = keys.remove(i);
    let vals2 = vals.remove(i);
    assert forall|a: int| 0 <= a < keys2.len() implies #[trigger] keys2[a] == keys[if a < i {
        a
    } else {
        a + 1
    }] by {}
    assert forall|a: int| 0 <= a < vals2.len() implies #[trigger] vals2[a] == vals[if a < i {
        a
    } else {
        a + 1
    }] by {}
    assert(keys2.no_duplicates()) by {
        assert forall|a: int, b: int| 0 <= a < keys2.len() && 0 <= b < keys2.len() && a != b implies keys2[a] != keys2[b] by {
            let a2 = if a < i {
                a
            } else {
                a + 1
            };
            let b2 = if b < i {
                b
            } else {
                b + 1
            };
            assert(keys2[a] == keys[a2] && keys2[b] == keys[b2]);
        }
    }
    assert(!keys2.contains(keys[i])) by {
        if keys2.contains(keys[i]) {
            let a = keys2.index_of(keys[i]);
            let a2 = if a < i {
                a
            } else {
                a + 1
            };
            assert(keys2[a] == keys[a2]);
        }
    }
    let m1 = map_of(keys2, vals2);
    let m2 = map_of(keys, vals).remove(keys[i]);
    assert forall|x: K| m1.contains_key(x) == m2.contains_key(x) by {
        if keys2.contains(x) {
            let a = keys2.index_of(x);
            let a2 = if a < i {
                a
            } else {
                a + 1
            };
            assert(keys2[a] == keys[a2]);
            assert(keys.contains(x));
        }
        if keys.contains(x) && x != keys[i] {
            let a = keys.index_of(x);
            let a2 = if a < i {
                a
            } else {
                a - 1
            };
            assert(keys2[a2] == keys[a]);
            assert(keys2.contains(x));
        }
    }
    assert forall|x: K| m1.contains_key(x) implies m1[x] == m2[x] by {
        let a = keys2.index_of(x);
        let a2 = if a < i {
            a
        } else {
            a + 1
        };
        assert(keys2[a] == keys[a2]);
        assert(vals2[a] == vals[a2]);
        lemma_map_at(keys, vals, a2);
    }
    assert(m1 =~= m2);
}

/// With no key twice, the map has as many keys as the table has entries.
pub proof fn lemma_map_len<K, V>(keys: Seq<K>, vals: Seq<V>)
    requires
        keys.no_duplicates(),
        keys.len() == vals.len(),
    ensures
        map_of(keys, vals).dom().finite(),
        map_of(keys, vals).dom().len() == keys.len(),
    decreases keys.len(),
{
    if keys.len() == 0 {
        assert(map_of(keys, vals).dom() =~= Set::<K>::empty());
    } else {
        let k0 = keys.drop_last();
        let v0 = vals.drop_last();
        assert(keys == k0.push(keys.last()));
        assert(vals == v0.push(vals.last()));
        assert forall|a: int| 0 <= a < k0.len() implies #[trigger] k0[a] == keys[a] by {}
        assert(k0.no_duplicates());
        assert(!k0.contains(keys.last())) by {
            if k0.contains(keys.last()) {
                let a = k0.index_of(keys.last());
                assert(k0[a] == keys[a]);
            }
        }
        lemma_map_len(k0, v0);
        lemma_map_push(k0, v0, keys.last(), vals.last());
        assert(map_of(keys, vals).dom() =~= map_of(k0, v0).dom().insert(keys.last()));
    }
}

} // verus!
