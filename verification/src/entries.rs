//! Lists of key-value pairs in which no key occurs twice, read as maps.

use vstd::prelude::*;

verus! {

pub open spec fn distinct_keys<K, V>(s: Seq<(K, V)>) -> bool {
    forall|i: int, j: int| 0 <= i < j < s.len() ==> s[i].0 != s[j].0
}

pub open spec fn has_key<K, V>(s: Seq<(K, V)>, k: K) -> bool {
    exists|i: int| 0 <= i < s.len() && (#[trigger] s[i]).0 == k
}

pub open spec fn position_of<K, V>(s: Seq<(K, V)>, k: K) -> int {
    choose|i: int| 0 <= i < s.len() && (#[trigger] s[i]).0 == k
}

/// The map that a list of pairs stands for.
pub open spec fn as_map<K, V>(s: Seq<(K, V)>) -> Map<K, V> {
    Map::new(|k: K| has_key(s, k), |k: K| s[position_of(s, k)].1)
}

/// Each pair of the list is an entry of the map.
pub proof fn lemma_entry<K, V>(s: Seq<(K, V)>, i: int)
    requires
        distinct_keys(s),
        0 <= i < s.len(),
    ensures
        has_key(s, s[i].0),
        position_of(s, s[i].0) == i,
        as_map(s).contains_key(s[i].0),
        as_map(s)[s[i].0] == s[i].1,
{
    assert(has_key(s, s[i].0));
    let p = position_of(s, s[i].0);
    if p < i {
        assert(s[p].0 != s[i].0);
    } else if i < p {
        assert(s[i].0 != s[p].0);
    }
}

/// A key that no pair carries is not in the map.
pub proof fn lemma_absent<K, V>(s: Seq<(K, V)>, k: K)
    requires
        forall|i: int| 0 <= i < s.len() ==> (#[trigger] s[i]).0 != k,
    ensures
        !has_key(s, k),
        !as_map(s).contains_key(k),
{
}

pub proof fn lemma_empty<K, V>()
    ensures
        distinct_keys(Seq::<(K, V)>::empty()),
        as_map(Seq::<(K, V)>::empty()) == Map::<K, V>::empty(),
{
    assert(as_map(Seq::<(K, V)>::empty()) =~= Map::<K, V>::empty());
}

/// Appending a pair under a new key inserts it.
pub proof fn lemma_push<K, V>(s: Seq<(K, V)>, k: K, v: V)
    requires
        distinct_keys(s),
        !has_key(s, k),
    ensures
        distinct_keys(s.push((k, v))),
        as_map(s.push((k, v))) == as_map(s).insert(k, v),
{
    let t = s.push((k, v));
    assert(distinct_keys(t)) by {
        assert forall|i: int, j: int| 0 <= i < j < t.len() implies t[i].0 != t[j].0 by {
            if j == s.len() {
                assert(s[i].0 != k);
            } else {
                assert(s[i].0 != s[j].0);
            }
        }
    }
    assert forall|x: K| as_map(t).contains_key(x) == as_map(s).insert(k, v).contains_key(x) by {
        if has_key(s, x) {
            let p = position_of(s, x);
            assert(t[p].0 == x);
        }
        if x == k {
            assert(t[s.len() as int].0 == k);
        }
        if has_key(t, x) && x != k {
            let p = position_of(t, x);
            assert(s[p].0 == x);
        }
    }
    assert forall|x: K| as_map(t).contains_key(x) implies as_map(t)[x] == as_map(s).insert(
        k,
        v,
    )[x] by {
        let p = position_of(t, x);
        lemma_entry(t, p);
        if p < s.len() {
            lemma_entry(s, p);
        }
    }
    assert(as_map(t) =~= as_map(s).insert(k, v));
}

/// Replacing the value of a pair replaces the entry.
pub proof fn lemma_update<K, V>(s: Seq<(K, V)>, i: int, v: V)
    requires
        distinct_keys(s),
        0 <= i < s.len(),
    ensures
        distinct_keys(s.update(i, (s[i].0, v))),
        as_map(s.update(i, (s[i].0, v))) == as_map(s).insert(s[i].0, v),
{
    let k = s[i].0;
    let t = s.update(i, (k, v));
    assert(distinct_keys(t)) by {
        assert forall|a: int, b: int| 0 <= a < b < t.len() implies t[a].0 != t[b].0 by {
            assert(s[a].0 != s[b].0);
        }
    }
    assert forall|x: K| as_map(t).contains_key(x) == as_map(s).insert(k, v).contains_key(x) by {
        if has_key(s, x) {
            let p = position_of(s, x);
            assert(t[p].0 == x);
        }
        if x == k {
            assert(t[i].0 == k);
        }
        if has_key(t, x) {
            let p = position_of(t, x);
            assert(s[p].0 == x);
        }
    }
    assert forall|x: K| as_map(t).contains_key(x) implies as_map(t)[x] == as_map(s).insert(
        k,
        v,
    )[x] by {
        let p = position_of(t, x);
        lemma_entry(t, p);
        lemma_entry(s, p);
    }
    assert(as_map(t) =~= as_map(s).insert(k, v));
}

/// Taking a pair out removes its entry.
pub proof fn lemma_remove<K, V>(s: Seq<(K, V)>, i: int)
    requires
        distinct_keys(s),
        0 <= i < s.len(),
    ensures
        distinct_keys(s.remove(i)),
        as_map(s.remove(i)) == as_map(s).remove(s[i].0),
{
    let k = s[i].0;
    let t = s.remove(i);
    assert(distinct_keys(t)) by {
        assert forall|a: int, b: int| 0 <= a < b < t.len() implies t[a].0 != t[b].0 by {
            let a0 = if a < i { a } else { a + 1 };
            let b0 = if b < i { b } else { b + 1 };
            assert(s[a0].0 != s[b0].0);
        }
    }
    assert forall|x: K| as_map(t).contains_key(x) == as_map(s).remove(k).contains_key(x) by {
        if has_key(s, x) && x != k {
            let p = position_of(s, x);
            let q = if p < i { p } else { p - 1 };
            assert(t[q].0 == x);
        }
        if has_key(t, x) {
            let q = position_of(t, x);
            let p = if q < i { q } else { q + 1 };
            assert(s[p].0 == x);
            if x == k {
                lemma_entry(s, i);
                lemma_entry(s, p);
            }
        }
    }
    assert forall|x: K| as_map(t).contains_key(x) implies as_map(t)[x] == as_map(s).remove(
        k,
    )[x] by {
        let q = position_of(t, x);
        let p = if q < i { q } else { q + 1 };
        lemma_entry(t, q);
        lemma_entry(s, p);
    }
    assert(as_map(t) =~= as_map(s).remove(k));
}

/// The map has as many entries as the list has pairs.
pub proof fn lemma_count<K, V>(s: Seq<(K, V)>)
    requires
        distinct_keys(s),
    ensures
        as_map(s).dom().finite(),
        as_map(s).dom().len() == s.len(),
    decreases s.len(),
{
    if s.len() == 0 {
        assert(s =~= Seq::<(K, V)>::empty());
        lemma_empty::<K, V>();
    } else {
        let last = s.len() - 1;
        let head = s.remove(last);
        lemma_remove(s, last);
        lemma_count(head);
        lemma_entry(s, last);
        assert(as_map(s) =~= as_map(head).insert(s[last].0, s[last].1));
        assert(as_map(s).dom() =~= as_map(head).dom().insert(s[last].0));
    }
}

} // verus!
