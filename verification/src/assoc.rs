//! Sequences of pairs read as maps: the first item of a pair is its key, the
//! second what is filed under it.

use vstd::prelude::*;

verus! {

/// No two pairs of `s` have the same key.
pub open spec fn unique_keys<K, V>(s: Seq<(K, V)>) -> bool {
    forall|i: int, j: int|
        0 <= i < s.len() && 0 <= j < s.len() && (#[trigger] s[i]).0 == (#[trigger] s[j]).0 ==> i == j
}

/// The map that the pairs spell out. Where a key occurs once, it maps to what
/// its pair holds.
pub open spec fn map_of<K, V>(s: Seq<(K, V)>) -> Map<K, V> {
    Map::new(
        |k: K| exists|i: int| 0 <= i < s.len() && (#[trigger] s[i]).0 == k,
        |k: K| s[choose|i: int| 0 <= i < s.len() && (#[trigger] s[i]).0 == k].1,
    )
}

/// The map that results from filing the pairs one after another, a later pair
/// replacing an earlier one with its key.
pub open spec fn filed<K, V>(s: Seq<(K, V)>) -> Map<K, V>
    decreases s.len(),
{
    if s.len() == 0 {
        Map::empty()
    } else {
        filed(s.drop_last()).insert(s.last().0, s.last().1)
    }
}

/// Where keys are unique, the map holds what each pair holds under its key,
/// and nothing else.
pub proof fn lemma_map_of<K, V>(s: Seq<(K, V)>)
    requires
        unique_keys(s),
    ensures
        forall|i: int|
            0 <= i < s.len() ==> map_of(s).contains_key((#[trigger] s[i]).0) && map_of(s)[s[i].0]
                == s[i].1,
        forall|k: K| #[trigger]
            map_of(s).contains_key(k) ==> exists|i: int| 0 <= i < s.len() && (#[trigger] s[i]).0 == k,
{
    assert forall|i: int| 0 <= i < s.len() implies map_of(s).contains_key((#[trigger] s[i]).0)
        && map_of(s)[s[i].0] == s[i].1 by {
        let k = s[i].0;
        let c = choose|c: int| 0 <= c < s.len() && (#[trigger] s[c]).0 == k;
        assert(s[c].0 == s[i].0);
    }
}

/// Nothing spells out the empty map.
pub proof fn lemma_map_of_empty<K, V>()
    ensures
        unique_keys(Seq::<(K, V)>::empty()),
        map_of(Seq::<(K, V)>::empty()) == Map::<K, V>::empty(),
{
    assert(map_of(Seq::<(K, V)>::empty()) =~= Map::<K, V>::empty());
}

/// Replacing the pair at `i` by one with the same key updates the map at
/// that key.
pub proof fn lemma_replaced<K, V>(s: Seq<(K, V)>, i: int, r: (K, V))
    requires
        unique_keys(s),
        0 <= i < s.len(),
        s[i].0 == r.0,
    ensures
        unique_keys(s.update(i, r)),
        map_of(s.update(i, r)) == map_of(s).insert(r.0, r.1),
{
    let t = s.update(i, r);
    assert forall|a: int, b: int|
        0 <= a < t.len() && 0 <= b < t.len() && (#[trigger] t[a]).0 == (#[trigger] t[b]).0 implies a
        == b by {
        assert(t[a].0 == s[a].0 && t[b].0 == s[b].0);
    }
    lemma_map_of(s);
    lemma_map_of(t);
    let m = map_of(s).insert(r.0, r.1);
    assert forall|k: K| map_of(t).contains_key(k) <==> m.contains_key(k) by {
        if map_of(t).contains_key(k) {
            let j = choose|j: int| 0 <= j < t.len() && (#[trigger] t[j]).0 == k;
            assert(s[j].0 == k);
        }
        if m.contains_key(k) && k != r.0 {
            let j = choose|j: int| 0 <= j < s.len() && (#[trigger] s[j]).0 == k;
            assert(t[j].0 == k);
        }
        if k == r.0 {
            assert(t[i].0 == k);
        }
    }
    assert forall|k: K| map_of(t).contains_key(k) implies map_of(t)[k] == m[k] by {
        let j = choose|j: int| 0 <= j < t.len() && (#[trigger] t[j]).0 == k;
        if j != i {
            assert(t[j] == s[j]);
            assert(s[j].0 == k);
        }
    }
    assert(map_of(t) =~= m);
}

/// Adding a pair with a new key at the end adds it to the map.
pub proof fn lemma_added<K, V>(s: Seq<(K, V)>, r: (K, V))
    requires
        unique_keys(s),
        forall|j: int| 0 <= j < s.len() ==> (#[trigger] s[j]).0 != r.0,
    ensures
        unique_keys(s.push(r)),
        map_of(s.push(r)) == map_of(s).insert(r.0, r.1),
{
    let t = s.push(r);
    let n = s.len() as int;
    assert forall|a: int, b: int|
        0 <= a < t.len() && 0 <= b < t.len() && (#[trigger] t[a]).0 == (#[trigger] t[b]).0 implies a
        == b by {
        if a < n {
            assert(t[a] == s[a]);
        }
        if b < n {
            assert(t[b] == s[b]);
        }
    }
    lemma_map_of(s);
    lemma_map_of(t);
    let m = map_of(s).insert(r.0, r.1);
    assert forall|k: K| map_of(t).contains_key(k) <==> m.contains_key(k) by {
        if map_of(t).contains_key(k) {
            let j = choose|j: int| 0 <= j < t.len() && (#[trigger] t[j]).0 == k;
            if j < n {
                assert(s[j].0 == k);
            }
        }
        if m.contains_key(k) && k != r.0 {
            let j = choose|j: int| 0 <= j < s.len() && (#[trigger] s[j]).0 == k;
            assert(t[j].0 == k);
        }
        if k == r.0 {
            assert(t[n].0 == k);
        }
    }
    assert forall|k: K| map_of(t).contains_key(k) implies map_of(t)[k] == m[k] by {
        let j = choose|j: int| 0 <= j < t.len() && (#[trigger] t[j]).0 == k;
        if j < n {
            assert(t[j] == s[j]);
            assert(s[j].0 == k);
        }
    }
    assert(map_of(t) =~= m);
}

/// Filing pairs with unique keys one after another gives the map that they
/// spell out.
pub proof fn lemma_filed_unique<K, V>(s: Seq<(K, V)>)
    requires
        unique_keys(s),
    ensures
        filed(s) == map_of(s),
    decreases s.len(),
{
    if s.len() == 0 {
        lemma_map_of_empty::<K, V>();
        assert(s =~= Seq::<(K, V)>::empty());
    } else {
        let t = s.drop_last();
        assert forall|a: int, b: int|
            0 <= a < t.len() && 0 <= b < t.len() && (#[trigger] t[a]).0 == (#[trigger] t[b]).0 implies a
            == b by {
            assert(t[a] == s[a] && t[b] == s[b]);
        }
        lemma_filed_unique(t);
        assert forall|j: int| 0 <= j < t.len() implies (#[trigger] t[j]).0 != s.last().0 by {
            assert(t[j] == s[j]);
        }
        lemma_added(t, s.last());
        assert(t.push(s.last()) =~= s);
    }
}

} // verus!
