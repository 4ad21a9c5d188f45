//! Sequences of key-value pairs read as finite maps.

use vstd::prelude::*;

verus! {

/// No two pairs share a key.
pub open spec fn distinct_keys<K, V>(s: Seq<(K, V)>) -> bool {
    forall|i: int, j: int| 0 <= i < j < s.len() ==> s[i].0 != s[j].0
}

/// The map that the pairs `s` stand for. Where a key occurs twice, the later
/// pair counts.
pub open spec fn pairs_map<K, V>(s: Seq<(K, V)>) -> Map<K, V>
    decreases s.len(),
{
    if s.len() == 0 {
        Map::empty()
    } else {
        pairs_map(s.drop_last()).insert(s.last().0, s.last().1)
    }
}

/// A key is mapped exactly when a pair carries it.
pub proof fn lemma_pairs_dom<K, V>(s: Seq<(K, V)>, key: K)
    ensures
        pairs_map(s).contains_key(key) <==> exists|i: int|
            0 <= i < s.len() && (#[trigger] s[i]).0 == key,
    decreases s.len(),
{
    if s.len() > 0 {
        let p = s.drop_last();
        lemma_pairs_dom(p, key);
        if pairs_map(s).contains_key(key) {
            if s.last().0 == key {
                assert(s[s.len() - 1].0 == key);
            } else {
                let i = choose|i: int| 0 <= i < p.len() && (#[trigger] p[i]).0 == key;
                assert(s[i].0 == key);
            }
        }
        if exists|i: int| 0 <= i < s.len() && (#[trigger] s[i]).0 == key {
            let i = choose|i: int| 0 <= i < s.len() && (#[trigger] s[i]).0 == key;
            if i < p.len() {
                assert(p[i].0 == key);
            }
        }
    }
}

/// A prefix of pairs with distinct keys has distinct keys.
pub proof fn lemma_distinct_prefix<K, V>(s: Seq<(K, V)>)
    requires
        distinct_keys(s),
        s.len() > 0,
    ensures
        distinct_keys(s.drop_last()),
{
    let p = s.drop_last();
    assert forall|a: int, b: int| 0 <= a < b < p.len() implies p[a].0 != p[b].0 by {
        assert(p[a] == s[a] && p[b] == s[b]);
    }
}

/// Where keys are distinct, each pair's key is mapped to that pair's value.
pub proof fn lemma_pairs_value<K, V>(s: Seq<(K, V)>, i: int)
    requires
        distinct_keys(s),
        0 <= i < s.len(),
    ensures
        pairs_map(s).contains_key(s[i].0),
        pairs_map(s)[s[i].0] == s[i].1,
    decreases s.len(),
{
    let p = s.drop_last();
    if i < p.len() {
        lemma_distinct_prefix(s);
        lemma_pairs_value(p, i);
        assert(p[i] == s[i]);
        assert(s[i].0 != s[s.len() - 1].0);
    }
}

/// Where keys are distinct, there are as many mapped keys as pairs.
pub proof fn lemma_pairs_len<K, V>(s: Seq<(K, V)>)
    requires
        distinct_keys(s),
    ensures
        pairs_map(s).dom().finite(),
        pairs_map(s).dom().len() == s.len(),
    decreases s.len(),
{
    if s.len() > 0 {
        let p = s.drop_last();
        lemma_distinct_prefix(s);
        lemma_pairs_len(p);
        lemma_pairs_dom(p, s.last().0);
        if pairs_map(p).contains_key(s.last().0) {
            let i = choose|i: int| 0 <= i < p.len() && (#[trigger] p[i]).0 == s.last().0;
            assert(p[i] == s[i]);
            assert(s[i].0 != s[s.len() - 1].0);
        }
        assert(pairs_map(s).dom() =~= pairs_map(p).dom().insert(s.last().0));
    }
}

/// A pair with a new key can be added at the end.
pub proof fn lemma_pairs_push<K, V>(s: Seq<(K, V)>, key: K, value: V)
    requires
        distinct_keys(s),
        !pairs_map(s).contains_key(key),
    ensures
        distinct_keys(s.push((key, value))),
        pairs_map(s.push((key, value))) == pairs_map(s).insert(key, value),
{
    let t = s.push((key, value));
    assert(t.drop_last() =~= s);
    lemma_pairs_dom(s, key);
    assert forall|a: int, b: int| 0 <= a < b < t.len() implies t[a].0 != t[b].0 by {
        assert(t[a] == s[a]);
        if b < s.len() {
            assert(t[b] == s[b]);
        }
    }
}

/// Replacing the value of the pair at `i` replaces what its key maps to.
pub proof fn lemma_pairs_update<K, V>(s: Seq<(K, V)>, i: int, value: V)
    requires
        distinct_keys(s),
        0 <= i < s.len(),
    ensures
        distinct_keys(s.update(i, (s[i].0, value))),
        pairs_map(s.update(i, (s[i].0, value))) == pairs_map(s).insert(s[i].0, value),
{
    let t = s.update(i, (s[i].0, value));
    assert forall|a: int, b: int| 0 <= a < b < t.len() implies t[a].0 != t[b].0 by {
        assert(t[a].0 == s[a].0 && t[b].0 == s[b].0);
    }
    let goal = pairs_map(s).insert(s[i].0, value);
    assert forall|k: K| pairs_map(t).contains_key(k) <==> goal.contains_key(k) by {
        lemma_pairs_dom(s, k);
        lemma_pairs_dom(t, k);
        if pairs_map(t).contains_key(k) {
            let j = choose|j: int| 0 <= j < t.len() && (#[trigger] t[j]).0 == k;
            assert(s[j].0 == k);
        }
        if pairs_map(s).contains_key(k) {
            let j = choose|j: int| 0 <= j < s.len() && (#[trigger] s[j]).0 == k;
            assert(t[j].0 == k);
        }
        if k == s[i].0 {
            assert(t[i].0 == k);
        }
    }
    assert forall|k: K| pairs_map(t).contains_key(k) implies pairs_map(t)[k] == goal[k] by {
        lemma_pairs_dom(t, k);
        let j = choose|j: int| 0 <= j < t.len() && (#[trigger] t[j]).0 == k;
        lemma_pairs_value(t, j);
        lemma_pairs_value(s, j);
    }
    assert(pairs_map(t) =~= goal);
}

/// Taking out the pair at `i` unmaps its key.
pub proof fn lemma_pairs_remove<K, V>(s: Seq<(K, V)>, i: int)
    requires
        distinct_keys(s),
        0 <= i < s.len(),
    ensures
        distinct_keys(s.remove(i)),
        pairs_map(s.remove(i)) == pairs_map(s).remove(s[i].0),
{
    let t = s.remove(i);
    assert forall|a: int, b: int| 0 <= a < b < t.len() implies t[a].0 != t[b].0 by {
        let a0 = if a < i { a } else { a + 1 };
        let b0 = if b < i { b } else { b + 1 };
        assert(t[a] == s[a0] && t[b] == s[b0]);
    }
    let goal = pairs_map(s).remove(s[i].0);
    assert forall|k: K| pairs_map(t).contains_key(k) <==> goal.contains_key(k) by {
        lemma_pairs_dom(s, k);
        lemma_pairs_dom(t, k);
        if pairs_map(t).contains_key(k) {
            let j = choose|j: int| 0 <= j < t.len() && (#[trigger] t[j]).0 == k;
            let j0 = if j < i { j } else { j + 1 };
            assert(s[j0].0 == k);
        }
        if goal.contains_key(k) {
            let j = choose|j: int| 0 <= j < s.len() && (#[trigger] s[j]).0 == k;
            let j1 = if j < i { j } else { j - 1 };
            assert(t[j1].0 == k);
        }
    }
    assert forall|k: K| pairs_map(t).contains_key(k) implies pairs_map(t)[k] == goal[k] by {
        lemma_pairs_dom(t, k);
        let j = choose|j: int| 0 <= j < t.len() && (#[trigger] t[j]).0 == k;
        let j0 = if j < i { j } else { j + 1 };
        lemma_pairs_value(t, j);
        lemma_pairs_value(s, j0);
    }
    assert(pairs_map(t) =~= goal);
}

} // verus!
