//! The mathematical reading of a vector of key/value pairs, and the facts
//! the pool's indices rely on. Every index in this crate is a `Vec` of
//! pairs with unique keys; its contract speaks about `map_of` that vector.
use vstd::prelude::*;

verus! {

/// The map read off a sequence of key/value pairs; later pairs win.
pub open spec fn map_of<K, V>(s: Seq<(K, V)>) -> Map<K, V>
    decreases s.len(),
{
    if s.len() == 0 {
        Map::empty()
    } else {
        map_of(s.drop_last()).insert(s.last().0, s.last().1)
    }
}

/// No key occurs twice.
pub open spec fn keys_unique<K, V>(s: Seq<(K, V)>) -> bool {
    forall|i: int, j: int| 0 <= i < j < s.len() ==> (#[trigger] s[i]).0 != (#[trigger] s[j]).0
}

/// Some pair carries this key.
pub open spec fn has_key<K, V>(s: Seq<(K, V)>, k: K) -> bool {
    exists|i: int| 0 <= i < s.len() && (#[trigger] s[i]).0 == k
}

/// With unique keys, `map_of` is exactly the pairing the sequence lists.
pub proof fn lemma_map_of_is<K, V>(s: Seq<(K, V)>)
    requires
        keys_unique(s),
    ensures
        forall|k: K| #[trigger] map_of(s).dom().contains(k) <==> has_key(s, k),
        forall|i: int|
            0 <= i < s.len() ==> map_of(s).dom().contains((#[trigger] s[i]).0) && map_of(s)[s[i].0]
                == s[i].1,
    decreases s.len(),
{
    if s.len() > 0 {
        let t = s.drop_last();
        let last = s.last();
        assert(keys_unique(t)) by {
            assert(forall|i: int| 0 <= i < t.len() ==> t[i] == s[i]);
        }
        lemma_map_of_is(t);
        assert forall|k: K| #[trigger] map_of(s).dom().contains(k) implies has_key(s, k) by {
            if k == last.0 {
                assert((s[s.len() - 1]).0 == k);
            } else {
                assert(map_of(t).dom().contains(k));
                let i = choose|i: int| 0 <= i < t.len() && (#[trigger] t[i]).0 == k;
                assert((s[i]).0 == k);
            }
        }
        assert forall|k: K| has_key(s, k) implies #[trigger] map_of(s).dom().contains(k) by {
            let i = choose|i: int| 0 <= i < s.len() && (#[trigger] s[i]).0 == k;
            if i == s.len() - 1 {
                assert(k == last.0);
            } else {
                assert((t[i]).0 == k);
                assert(has_key(t, k));
            }
        }
        assert forall|i: int| 0 <= i < s.len() implies map_of(s).dom().contains(
            (#[trigger] s[i]).0,
        ) && map_of(s)[s[i].0] == s[i].1 by {
            if i < s.len() - 1 {
                assert(t[i] == s[i]);
                assert(s[i].0 != last.0);
                assert(map_of(s)[s[i].0] == map_of(t)[t[i].0]);
            }
        }
    }
}

/// Appending a pair with a fresh key keeps the keys unique and inserts it
/// into the map.
pub proof fn lemma_map_of_push<K, V>(s: Seq<(K, V)>, p: (K, V))
    requires
        keys_unique(s),
        !has_key(s, p.0),
    ensures
        keys_unique(s.push(p)),
        map_of(s.push(p)) == map_of(s).insert(p.0, p.1),
        forall|k: K| #[trigger] has_key(s.push(p), k) <==> (has_key(s, k) || k == p.0),
{
    let t = s.push(p);
    assert forall|i: int, j: int| 0 <= i < j < t.len() implies (#[trigger] t[i]).0 != (
    #[trigger] t[j]).0 by {
        if j == t.len() - 1 {
            assert(t[i] == s[i]);
            assert(!((s[i]).0 == p.0));
        } else {
            assert(t[i] == s[i] && t[j] == s[j]);
        }
    }
    assert(t.drop_last() =~= s);
    assert(map_of(t) == map_of(s).insert(p.0, p.1));
    assert forall|k: K| #[trigger] has_key(t, k) implies (has_key(s, k) || k == p.0) by {
        let i = choose|i: int| 0 <= i < t.len() && (#[trigger] t[i]).0 == k;
        if i < s.len() {
            assert((s[i]).0 == k);
        }
    }
    assert forall|k: K| (has_key(s, k) || k == p.0) implies #[trigger] has_key(t, k) by {
        if k == p.0 {
            assert((t[t.len() - 1]).0 == k);
        } else {
            let i = choose|i: int| 0 <= i < s.len() && (#[trigger] s[i]).0 == k;
            assert((t[i]).0 == k);
        }
    }
}

/// Inserting a pair with a fresh key at any position keeps the keys unique
/// and inserts it into the map.
pub proof fn lemma_map_of_insert_at<K, V>(s: Seq<(K, V)>, i: int, p: (K, V))
    requires
        keys_unique(s),
        !has_key(s, p.0),
        0 <= i <= s.len(),
    ensures
        keys_unique(s.insert(i, p)),
        map_of(s.insert(i, p)) == map_of(s).insert(p.0, p.1),
{
    let t = s.insert(i, p);
    assert forall|a: int, b: int| 0 <= a < b < t.len() implies (#[trigger] t[a]).0 != (
    #[trigger] t[b]).0 by {
        if a == i {
            assert(t[b] == s[b - 1]);
            assert(has_key(s, s[b - 1].0)) by {
                assert((s[b - 1]).0 == s[b - 1].0);
            }
        } else if b == i {
            assert(t[a] == s[a]);
            assert(has_key(s, s[a].0)) by {
                assert((s[a]).0 == s[a].0);
            }
        } else {
            let a2: int = if a < i { a } else { a - 1 };
            let b2: int = if b < i { b } else { b - 1 };
            assert(t[a] == s[a2] && t[b] == s[b2]);
        }
    }
    lemma_map_of_is(s);
    lemma_map_of_is(t);
    assert forall|k: K| #[trigger] map_of(t).dom().contains(k) implies map_of(s).insert(
        p.0,
        p.1,
    ).dom().contains(k) && map_of(t)[k] == map_of(s).insert(p.0, p.1)[k] by {
        let j = choose|j: int| 0 <= j < t.len() && (#[trigger] t[j]).0 == k;
        if j == i {
            assert(map_of(t)[k] == p.1);
        } else {
            let j2: int = if j < i { j } else { j - 1 };
            assert(t[j] == s[j2]);
            assert((s[j2]).0 == k);
            assert(k != p.0);
            assert(map_of(t)[k] == s[j2].1);
            assert(map_of(s)[k] == s[j2].1);
        }
    }
    assert forall|k: K| #[trigger] map_of(s).insert(p.0, p.1).dom().contains(k) implies map_of(
        t,
    ).dom().contains(k) by {
        if k == p.0 {
            assert((t[i]).0 == k);
        } else {
            let j = choose|j: int| 0 <= j < s.len() && (#[trigger] s[j]).0 == k;
            let j2: int = if j < i { j } else { j + 1 };
            assert(t[j2] == s[j]);
            assert((t[j2]).0 == k);
        }
    }
    assert(map_of(t) =~= map_of(s).insert(p.0, p.1));
}

/// Removing the pair at `i` keeps the keys unique and removes its key from
/// the map.
pub proof fn lemma_map_of_remove_at<K, V>(s: Seq<(K, V)>, i: int)
    requires
        keys_unique(s),
        0 <= i < s.len(),
    ensures
        keys_unique(s.remove(i)),
        !has_key(s.remove(i), s[i].0),
        map_of(s.remove(i)) == map_of(s).remove(s[i].0),
{
    let t = s.remove(i);
    let k0 = s[i].0;
    assert forall|a: int, b: int| 0 <= a < b < t.len() implies (#[trigger] t[a]).0 != (
    #[trigger] t[b]).0 by {
        let a2: int = if a < i { a } else { a + 1 };
        let b2: int = if b < i { b } else { b + 1 };
        assert(t[a] == s[a2] && t[b] == s[b2]);
    }
    assert forall|j: int| 0 <= j < t.len() implies (#[trigger] t[j]).0 != k0 by {
        let j2: int = if j < i { j } else { j + 1 };
        assert(t[j] == s[j2]);
    }
    lemma_map_of_is(s);
    lemma_map_of_is(t);
    assert forall|k: K| #[trigger] map_of(t).dom().contains(k) implies map_of(s).remove(
        k0,
    ).dom().contains(k) && map_of(t)[k] == map_of(s).remove(k0)[k] by {
        let j = choose|j: int| 0 <= j < t.len() && (#[trigger] t[j]).0 == k;
        let j2: int = if j < i { j } else { j + 1 };
        assert(t[j] == s[j2]);
        assert((s[j2]).0 == k);
        assert(map_of(t)[k] == t[j].1);
        assert(map_of(s)[k] == s[j2].1);
    }
    assert forall|k: K| #[trigger] map_of(s).remove(k0).dom().contains(k) implies map_of(
        t,
    ).dom().contains(k) by {
        let j = choose|j: int| 0 <= j < s.len() && (#[trigger] s[j]).0 == k;
        assert(j != i);
        let j2: int = if j < i { j } else { j - 1 };
        assert(t[j2] == s[j]);
        assert((t[j2]).0 == k);
    }
    assert(map_of(t) =~= map_of(s).remove(k0));
}

/// Overwriting the value at `i`, key kept, updates the map at that key.
pub proof fn lemma_map_of_update_at<K, V>(s: Seq<(K, V)>, i: int, v: V)
    requires
        keys_unique(s),
        0 <= i < s.len(),
    ensures
        keys_unique(s.update(i, (s[i].0, v))),
        map_of(s.update(i, (s[i].0, v))) == map_of(s).insert(s[i].0, v),
        forall|k: K| #[trigger] has_key(s.update(i, (s[i].0, v)), k) <==> has_key(s, k),
{
    let t = s.update(i, (s[i].0, v));
    assert forall|a: int, b: int| 0 <= a < b < t.len() implies (#[trigger] t[a]).0 != (
    #[trigger] t[b]).0 by {
        assert((t[a]).0 == (s[a]).0 && (t[b]).0 == (s[b]).0);
    }
    lemma_map_of_is(s);
    lemma_map_of_is(t);
    assert forall|k: K| #[trigger] map_of(t).dom().contains(k) implies map_of(s).insert(
        s[i].0,
        v,
    ).dom().contains(k) && map_of(t)[k] == map_of(s).insert(s[i].0, v)[k] by {
        let j = choose|j: int| 0 <= j < t.len() && (#[trigger] t[j]).0 == k;
        assert((s[j]).0 == k);
        if j == i {
            assert(map_of(t)[k] == v);
        } else {
            assert(k != s[i].0);
            assert(map_of(t)[k] == t[j].1);
            assert(t[j] == s[j]);
        }
    }
    assert forall|k: K| #[trigger] map_of(s).insert(s[i].0, v).dom().contains(k) implies map_of(
        t,
    ).dom().contains(k) by {
        if k == s[i].0 {
            assert((t[i]).0 == k);
        } else {
            let j = choose|j: int| 0 <= j < s.len() && (#[trigger] s[j]).0 == k;
            assert((t[j]).0 == k);
        }
    }
    assert(map_of(t) =~= map_of(s).insert(s[i].0, v));
    assert forall|k: K| #[trigger] has_key(t, k) implies has_key(s, k) by {
        let j = choose|j: int| 0 <= j < t.len() && (#[trigger] t[j]).0 == k;
        assert((s[j]).0 == k);
    }
    assert forall|k: K| has_key(s, k) implies #[trigger] has_key(t, k) by {
        let j = choose|j: int| 0 <= j < s.len() && (#[trigger] s[j]).0 == k;
        assert((t[j]).0 == k);
    }
}

} // verus!
