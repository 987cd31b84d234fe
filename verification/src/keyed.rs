//! A sequence of key/value pairs with distinct keys, read as a map.
use vstd::prelude::*;

verus! {

/// No key occurs twice.
pub open spec fn keys_distinct<K, V>(s: Seq<(K, V)>) -> bool {
    forall|i: int, j: int| 0 <= i < s.len() && 0 <= j < s.len() && i != j ==> s[i].0 != s[j].0
}

/// The key `k` occurs in `s`.
pub open spec fn has_key<K, V>(s: Seq<(K, V)>, k: K) -> bool {
    exists|i: int| 0 <= i < s.len() && s[i].0 == k
}

/// The map that a sequence of pairs denotes (a later pair wins over an earlier one).
pub open spec fn to_map<K, V>(s: Seq<(K, V)>) -> Map<K, V>
    decreases s.len(),
{
    if s.len() == 0 {
        Map::empty()
    } else {
        to_map(s.drop_last()).insert(s.last().0, s.last().1)
    }
}

/// The entries of `m` whose value satisfies `keep`.
pub open spec fn map_keep<K, V>(m: Map<K, V>, keep: spec_fn(V) -> bool) -> Map<K, V> {
    Map::new(|k: K| m.contains_key(k) && keep(m[k]), |k: K| m[k])
}

pub proof fn lemma_to_map_dom<K, V>(s: Seq<(K, V)>, k: K)
    ensures
        to_map(s).contains_key(k) <==> has_key(s, k),
    decreases s.len(),
{
    if s.len() > 0 {
        let p = s.drop_last();
        lemma_to_map_dom(p, k);
        if has_key(p, k) {
            let i = choose|i: int| 0 <= i < p.len() && p[i].0 == k;
            assert(s[i].0 == k);
        }
        if has_key(s, k) && s.last().0 != k {
            let i = choose|i: int| 0 <= i < s.len() && s[i].0 == k;
            assert(i < s.len() - 1);
            assert(p[i].0 == k);
        }
    }
}

pub proof fn lemma_to_map_index<K, V>(s: Seq<(K, V)>, i: int)
    requires
        keys_distinct(s),
        0 <= i < s.len(),
    ensures
        to_map(s).contains_key(s[i].0),
        to_map(s)[s[i].0] == s[i].1,
    decreases s.len(),
{
    let p = s.drop_last();
    if i < s.len() - 1 {
        assert(keys_distinct(p));
        assert(p[i] == s[i]);
        lemma_to_map_index(p, i);
        assert(s.last().0 != s[i].0);
    }
}

pub proof fn lemma_to_map_push<K, V>(s: Seq<(K, V)>, k: K, v: V)
    ensures
        to_map(s.push((k, v))) == to_map(s).insert(k, v),
        keys_distinct(s) && !has_key(s, k) ==> keys_distinct(s.push((k, v))),
{
    assert(s.push((k, v)).drop_last() == s);
    if keys_distinct(s) && !has_key(s, k) {
        let t = s.push((k, v));
        assert forall|i: int, j: int| 0 <= i < t.len() && 0 <= j < t.len() && i != j implies t[i].0
            != t[j].0 by {
            if i < s.len() && j < s.len() {
                assert(t[i] == s[i] && t[j] == s[j]);
            } else if i < s.len() {
                assert(t[i] == s[i]);
            } else {
                assert(t[j] == s[j]);
            }
        }
    }
}

pub proof fn lemma_to_map_update<K, V>(s: Seq<(K, V)>, i: int, v: V)
    requires
        keys_distinct(s),
        0 <= i < s.len(),
    ensures
        keys_distinct(s.update(i, (s[i].0, v))),
        to_map(s.update(i, (s[i].0, v))) == to_map(s).insert(s[i].0, v),
    decreases s.len(),
{
    let t = s.update(i, (s[i].0, v));
    assert forall|a: int, b: int| 0 <= a < t.len() && 0 <= b < t.len() && a != b implies t[a].0
        != t[b].0 by {
        assert(t[a].0 == s[a].0 && t[b].0 == s[b].0);
    }
    let p = s.drop_last();
    if i == s.len() - 1 {
        assert(t.drop_last() =~= p);
        assert(to_map(t) =~= to_map(s).insert(s[i].0, v));
    } else {
        assert(keys_distinct(p));
        lemma_to_map_update(p, i, v);
        assert(t.drop_last() =~= p.update(i, (p[i].0, v)));
        assert(s.last().0 != s[i].0);
        assert(to_map(t) =~= to_map(s).insert(s[i].0, v));
    }
}

pub proof fn lemma_to_map_remove<K, V>(s: Seq<(K, V)>, i: int)
    requires
        keys_distinct(s),
        0 <= i < s.len(),
    ensures
        keys_distinct(s.remove(i)),
        to_map(s.remove(i)) == to_map(s).remove(s[i].0),
    decreases s.len(),
{
    let t = s.remove(i);
    assert forall|a: int, b: int| 0 <= a < t.len() && 0 <= b < t.len() && a != b implies t[a].0
        != t[b].0 by {
        let a2 = if a < i { a } else { a + 1 };
        let b2 = if b < i { b } else { b + 1 };
        assert(t[a] == s[a2] && t[b] == s[b2]);
    }
    let p = s.drop_last();
    if i == s.len() - 1 {
        assert(t =~= p);
        lemma_to_map_dom(p, s[i].0);
        assert forall|j: int| 0 <= j < p.len() implies p[j].0 != s[i].0 by {
            assert(p[j] == s[j]);
        }
        assert(!to_map(p).contains_key(s[i].0));
        assert(to_map(t) =~= to_map(s).remove(s[i].0));
    } else {
        assert(keys_distinct(p));
        lemma_to_map_remove(p, i);
        assert(t.drop_last() =~= p.remove(i));
        assert(t.last() == s.last());
        assert(s.last().0 != s[i].0);
        assert(to_map(t) =~= to_map(s).remove(s[i].0));
    }
}

pub proof fn lemma_to_map_keep_step<K, V>(s: Seq<(K, V)>, kept: Seq<(K, V)>, i: int, keep: spec_fn(V) -> bool)
    requires
        keys_distinct(s),
        0 <= i < s.len(),
        keys_distinct(kept),
        forall|j: int| 0 <= j < kept.len() ==> has_key(s.take(i), #[trigger] kept[j].0),
        to_map(kept) == map_keep(to_map(s.take(i)), keep),
    ensures
        keep(s[i].1) ==> keys_distinct(kept.push(s[i])),
        keep(s[i].1) ==> to_map(kept.push(s[i])) == map_keep(to_map(s.take(i + 1)), keep),
        !keep(s[i].1) ==> to_map(kept) == map_keep(to_map(s.take(i + 1)), keep),
        forall|j: int| 0 <= j < kept.len() ==> has_key(s.take(i + 1), #[trigger] kept[j].0),
{
    let pre = s.take(i);
    let nxt = s.take(i + 1);
    assert(nxt.drop_last() =~= pre);
    assert(nxt.last() == s[i]);
    assert(!has_key(pre, s[i].0)) by {
        if has_key(pre, s[i].0) {
            let j = choose|j: int| 0 <= j < pre.len() && pre[j].0 == s[i].0;
            assert(pre[j] == s[j]);
        }
    }
    assert forall|j: int| 0 <= j < kept.len() implies has_key(nxt, #[trigger] kept[j].0) by {
        let w = choose|w: int| 0 <= w < pre.len() && pre[w].0 == kept[j].0;
        assert(nxt[w] == pre[w]);
    }
    lemma_to_map_dom(pre, s[i].0);
    if keep(s[i].1) {
        assert(!has_key(kept, s[i].0)) by {
            if has_key(kept, s[i].0) {
                let j = choose|j: int| 0 <= j < kept.len() && kept[j].0 == s[i].0;
                assert(has_key(pre, kept[j].0));
            }
        }
        lemma_to_map_push(kept, s[i].0, s[i].1);
        assert(to_map(kept.push(s[i])) =~= map_keep(to_map(nxt), keep));
    } else {
        assert(to_map(kept) =~= map_keep(to_map(nxt), keep));
    }
}

/// The value paired with the first occurrence of `k` in `s`.
pub open spec fn lookup<K, V>(s: Seq<(K, V)>, k: K) -> Option<V>
    decreases s.len(),
{
    if s.len() == 0 {
        None
    } else if s[0].0 == k {
        Some(s[0].1)
    } else {
        lookup(s.drop_first(), k)
    }
}

pub proof fn lemma_lookup<K, V>(s: Seq<(K, V)>, k: K, i: int)
    requires
        0 <= i <= s.len(),
        forall|j: int| 0 <= j < i ==> s[j].0 != k,
    ensures
        i < s.len() && s[i].0 == k ==> lookup(s, k) == Some(s[i].1),
        i == s.len() ==> lookup(s, k) is None,
    decreases i,
{
    if i > 0 {
        lemma_lookup(s.drop_first(), k, i - 1);
    }
}

} // verus!
