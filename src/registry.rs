use vstd::prelude::*;

verus! {

/// The map from key to entry that a list of entries stands for (a later entry wins).
pub open spec fn keyed<K, T>(s: Seq<T>, key: spec_fn(T) -> K) -> Map<K, T>
    decreases s.len(),
{
    if s.len() == 0 {
        Map::empty()
    } else {
        keyed(s.drop_last(), key).insert(key(s.last()), s.last())
    }
}

/// No two entries share a key.
pub open spec fn unique_keys<K, T>(s: Seq<T>, key: spec_fn(T) -> K) -> bool {
    forall|i: int, j: int| 0 <= i < j < s.len() ==> key(s[i]) != key(s[j])
}

pub proof fn lemma_keyed_contains<K, T>(s: Seq<T>, key: spec_fn(T) -> K, k: K)
    ensures
        keyed(s, key).contains_key(k) <==> exists|i: int| 0 <= i < s.len() && key(s[i]) == k,
    decreases s.len(),
{
    if s.len() > 0 {
        let p = s.drop_last();
        lemma_keyed_contains(p, key, k);
        if keyed(s, key).contains_key(k) {
            if key(s.last()) == k {
                assert(key(s[s.len() - 1]) == k);
            } else {
                let i = choose|i: int| 0 <= i < p.len() && key(p[i]) == k;
                assert(s[i] == p[i]);
            }
        }
        if exists|i: int| 0 <= i < s.len() && key(s[i]) == k {
            let i = choose|i: int| 0 <= i < s.len() && key(s[i]) == k;
            if i < s.len() - 1 {
                assert(p[i] == s[i]);
            }
        }
    }
}

pub proof fn lemma_keyed_index<K, T>(s: Seq<T>, key: spec_fn(T) -> K, i: int)
    requires
        unique_keys(s, key),
        0 <= i < s.len(),
    ensures
        keyed(s, key).contains_key(key(s[i])),
        keyed(s, key)[key(s[i])] == s[i],
    decreases s.len(),
{
    if i < s.len() - 1 {
        let p = s.drop_last();
        assert(unique_keys(p, key)) by {
            assert forall|a: int, b: int| 0 <= a < b < p.len() implies key(p[a]) != key(p[b]) by {
                assert(p[a] == s[a] && p[b] == s[b]);
            }
        }
        assert(p[i] == s[i]);
        lemma_keyed_index(p, key, i);
        assert(key(s[i]) != key(s[s.len() - 1]));
    }
}

pub proof fn lemma_keyed_absent<K, T>(s: Seq<T>, key: spec_fn(T) -> K, k: K)
    requires
        forall|i: int| 0 <= i < s.len() ==> key(s[i]) != k,
    ensures
        !keyed(s, key).contains_key(k),
{
    lemma_keyed_contains(s, key, k);
}

pub proof fn lemma_keyed_push<K, T>(s: Seq<T>, key: spec_fn(T) -> K, x: T)
    requires
        unique_keys(s, key),
        forall|i: int| 0 <= i < s.len() ==> key(s[i]) != key(x),
    ensures
        keyed(s.push(x), key) == keyed(s, key).insert(key(x), x),
        unique_keys(s.push(x), key),
{
    assert(s.push(x).drop_last() =~= s);
    let t = s.push(x);
    assert forall|a: int, b: int| 0 <= a < b < t.len() implies key(t[a]) != key(t[b]) by {
        if b == s.len() {
            assert(t[a] == s[a]);
        } else {
            assert(t[a] == s[a] && t[b] == s[b]);
        }
    }
}

pub proof fn lemma_keyed_remove<K, T>(s: Seq<T>, key: spec_fn(T) -> K, i: int)
    requires
        unique_keys(s, key),
        0 <= i < s.len(),
    ensures
        keyed(s.remove(i), key) == keyed(s, key).remove(key(s[i])),
        unique_keys(s.remove(i), key),
    decreases s.len(),
{
    let t = s.remove(i);
    assert forall|a: int, b: int| 0 <= a < b < t.len() implies key(t[a]) != key(t[b]) by {
        let a2 = if a < i { a } else { a + 1 };
        let b2 = if b < i { b } else { b + 1 };
        assert(t[a] == s[a2] && t[b] == s[b2]);
    }
    let p = s.drop_last();
    assert(unique_keys(p, key)) by {
        assert forall|a: int, b: int| 0 <= a < b < p.len() implies key(p[a]) != key(p[b]) by {
            assert(p[a] == s[a] && p[b] == s[b]);
        }
    }
    if i == s.len() - 1 {
        assert(t =~= p);
        assert forall|j: int| 0 <= j < p.len() implies key(p[j]) != key(s[i]) by {
            assert(p[j] == s[j]);
        }
        lemma_keyed_absent(p, key, key(s[i]));
        assert(keyed(s, key).remove(key(s[i])) =~= keyed(p, key));
    } else {
        lemma_keyed_remove(p, key, i);
        assert(t.drop_last() =~= p.remove(i));
        assert(t.last() == s.last());
        assert(key(s.last()) != key(s[i]));
        assert(keyed(t, key) =~= keyed(s, key).remove(key(s[i])));
    }
}

pub proof fn lemma_keyed_update<K, T>(s: Seq<T>, key: spec_fn(T) -> K, i: int, y: T)
    requires
        unique_keys(s, key),
        0 <= i < s.len(),
        key(y) == key(s[i]),
    ensures
        keyed(s.update(i, y), key) == keyed(s, key).insert(key(y), y),
        unique_keys(s.update(i, y), key),
    decreases s.len(),
{
    let t = s.update(i, y);
    assert forall|a: int, b: int| 0 <= a < b < t.len() implies key(t[a]) != key(t[b]) by {
        assert(key(t[a]) == key(s[a]) && key(t[b]) == key(s[b]));
    }
    let p = s.drop_last();
    assert(unique_keys(p, key)) by {
        assert forall|a: int, b: int| 0 <= a < b < p.len() implies key(p[a]) != key(p[b]) by {
            assert(p[a] == s[a] && p[b] == s[b]);
        }
    }
    if i == s.len() - 1 {
        assert(t.drop_last() =~= p);
        assert(keyed(t, key) =~= keyed(s, key).insert(key(y), y));
    } else {
        lemma_keyed_update(p, key, i, y);
        assert(t.drop_last() =~= p.update(i, y));
        assert(key(s.last()) != key(s[i]));
        assert(keyed(t, key) =~= keyed(s, key).insert(key(y), y));
    }
}

} // verus!
