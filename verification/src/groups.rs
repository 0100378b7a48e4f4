//! Lists of values keyed by identifier, and lists kept in order of a key.

use vstd::prelude::*;

verus! {

/// The position of the entry with the given key (the last one, if several),
/// or -1.
pub open spec fn find_group<V>(groups: Seq<(Seq<char>, V)>, key: Seq<char>) -> int
    decreases groups.len(),
{
    if groups.len() == 0 {
        -1
    } else if groups.last().0 == key {
        groups.len() - 1
    } else {
        find_group(groups.drop_last(), key)
    }
}

pub proof fn lemma_find_group<V>(groups: Seq<(Seq<char>, V)>, key: Seq<char>)
    ensures
        -1 <= find_group(groups, key) < groups.len(),
        find_group(groups, key) >= 0 ==> groups[find_group(groups, key)].0 == key,
        find_group(groups, key) == -1 ==> forall|i: int| 0 <= i < groups.len() ==> groups[i].0 != key,
    decreases groups.len(),
{
    if groups.len() > 0 {
        lemma_find_group(groups.drop_last(), key);
        if find_group(groups, key) == -1 {
            assert forall|i: int| 0 <= i < groups.len() implies groups[i].0 != key by {
                if i < groups.len() - 1 {
                    assert(groups[i] == groups.drop_last()[i]);
                }
            }
        }
    }
}

/// `s` with `x` inserted after the last item whose key is at most `x`'s
/// (at the front, if there is none).
pub open spec fn insert_by<T>(s: Seq<T>, x: T, key: spec_fn(T) -> int) -> Seq<T>
    decreases s.len(),
{
    if s.len() == 0 {
        seq![x]
    } else if key(s.last()) <= key(x) {
        s.push(x)
    } else {
        insert_by(s.drop_last(), x, key).push(s.last())
    }
}

/// `s` sorted by the key, items with equal keys keeping their order.
pub open spec fn sort_by<T>(s: Seq<T>, key: spec_fn(T) -> int) -> Seq<T>
    decreases s.len(),
{
    if s.len() == 0 {
        s
    } else {
        insert_by(sort_by(s.drop_last(), key), s.last(), key)
    }
}

/// Inserting `x` lands it just after the last item whose key is at most its
/// own.
pub proof fn lemma_insert_by<T>(s: Seq<T>, x: T, key: spec_fn(T) -> int, j: int)
    requires
        0 <= j <= s.len(),
        forall|k: int| j <= k < s.len() ==> key(#[trigger] s[k]) > key(x),
        j == 0 || key(s[j - 1]) <= key(x),
    ensures
        insert_by(s, x, key) == s.take(j).push(x) + s.skip(j),
    decreases s.len(),
{
    if s.len() == 0 {
        assert(s.take(j).push(x) + s.skip(j) =~= seq![x]);
    } else if j == s.len() {
        assert(s.take(j) =~= s);
        assert(s.take(j).push(x) + s.skip(j) =~= s.push(x));
    } else {
        assert(key(s[s.len() - 1]) > key(x));
        let d = s.drop_last();
        assert forall|k: int| j <= k < d.len() implies key(#[trigger] d[k]) > key(x) by {
            assert(d[k] == s[k]);
        }
        if j > 0 {
            assert(d[j - 1] == s[j - 1]);
        }
        lemma_insert_by(d, x, key, j);
        assert(d.take(j) =~= s.take(j));
        assert((d.take(j).push(x) + d.skip(j)).push(s.last()) =~= s.take(j).push(x) + s.skip(j));
    }
}

/// Where `insert_by` puts `x`: just after the last item whose key is at most
/// its own.
pub open spec fn insert_pos<T>(s: Seq<T>, x: T, key: spec_fn(T) -> int) -> int
    decreases s.len(),
{
    if s.len() == 0 {
        0
    } else if key(s.last()) <= key(x) {
        s.len() as int
    } else {
        insert_pos(s.drop_last(), x, key)
    }
}

proof fn lemma_insert_pos<T>(s: Seq<T>, x: T, key: spec_fn(T) -> int)
    ensures
        0 <= insert_pos(s, x, key) <= s.len(),
        forall|k: int| insert_pos(s, x, key) <= k < s.len() ==> key(#[trigger] s[k]) > key(x),
        insert_pos(s, x, key) == 0 || key(s[insert_pos(s, x, key) - 1]) <= key(x),
    decreases s.len(),
{
    if s.len() > 0 && key(s.last()) > key(x) {
        let d = s.drop_last();
        lemma_insert_pos(d, x, key);
        let p = insert_pos(d, x, key);
        assert forall|k: int| p <= k < s.len() implies key(#[trigger] s[k]) > key(x) by {
            if k < d.len() {
                assert(s[k] == d[k]);
            }
        }
        if p > 0 {
            assert(s[p - 1] == d[p - 1]);
        }
    }
}

/// Sorting keeps the items, and puts them in order of the key.
pub proof fn lemma_sort_by_sorted<T>(s: Seq<T>, key: spec_fn(T) -> int)
    ensures
        sort_by(s, key).len() == s.len(),
        sort_by(s, key).to_multiset() == s.to_multiset(),
        forall|a: int, b: int| 0 <= a < b < s.len() ==> key(#[trigger] sort_by(s, key)[a]) <= key(#[trigger] sort_by(s, key)[b]),
    decreases s.len(),
{
    if s.len() > 0 {
        let d = s.drop_last();
        let x = s.last();
        lemma_sort_by_sorted(d, key);
        let q = sort_by(d, key);
        lemma_insert_pos(q, x, key);
        let p = insert_pos(q, x, key);
        lemma_insert_by(q, x, key, p);
        let r = sort_by(s, key);
        assert(r == q.take(p).push(x) + q.skip(p));
        assert(r =~= q.insert(p, x));
        vstd::seq_lib::to_multiset_insert(q, p, x);
        vstd::seq_lib::to_multiset_insert(d, d.len() as int, x);
        assert(d.insert(d.len() as int, x) =~= s);
        assert forall|a: int, b: int| 0 <= a < b < s.len() implies key(#[trigger] r[a]) <= key(#[trigger] r[b]) by {
            if b < p {
                assert(r[a] == q[a] && r[b] == q[b]);
            } else if b == p {
                assert(r[b] == x);
                assert(r[a] == q[a]);
                assert(key(q[a]) <= key(q[p - 1]));
            } else if a < p {
                assert(r[a] == q[a] && r[b] == q[b - 1]);
                assert(key(q[a]) <= key(q[b - 1]));
            } else if a == p {
                assert(r[a] == x && r[b] == q[b - 1]);
            } else {
                assert(r[a] == q[a - 1] && r[b] == q[b - 1]);
            }
        }
    }
}

/// The map that a list of keyed entries stands for: a later entry wins over
/// an earlier one with the same key.
pub open spec fn entries_map<V>(e: Seq<(Seq<char>, V)>) -> Map<Seq<char>, V>
    decreases e.len(),
{
    if e.len() == 0 {
        Map::empty()
    } else {
        entries_map(e.drop_last()).insert(e.last().0, e.last().1)
    }
}

/// No two entries have the same key.
pub open spec fn keys_unique<V>(e: Seq<(Seq<char>, V)>) -> bool {
    forall|i: int, j: int| 0 <= i < j < e.len() ==> (#[trigger] e[i]).0 != (#[trigger] e[j]).0
}

/// A key is in the map exactly when an entry has it, and maps to the value
/// of the last such entry.
pub proof fn lemma_entries_map<V>(e: Seq<(Seq<char>, V)>, key: Seq<char>)
    ensures
        entries_map(e).contains_key(key) == (find_group(e, key) >= 0),
        find_group(e, key) >= 0 ==> entries_map(e)[key] == e[find_group(e, key)].1,
    decreases e.len(),
{
    if e.len() > 0 {
        lemma_entries_map(e.drop_last(), key);
        lemma_find_group(e.drop_last(), key);
        let f = find_group(e.drop_last(), key);
        if f >= 0 {
            assert(e[f] == e.drop_last()[f]);
        }
    }
}

/// Where two lists have the same keys in the same places, a key is found at
/// the same place in both.
pub proof fn lemma_find_group_same_keys<V>(e1: Seq<(Seq<char>, V)>, e2: Seq<(Seq<char>, V)>, key: Seq<char>)
    requires
        e1.len() == e2.len(),
        forall|i: int| 0 <= i < e1.len() ==> (#[trigger] e1[i]).0 == e2[i].0,
    ensures
        find_group(e1, key) == find_group(e2, key),
    decreases e1.len(),
{
    if e1.len() > 0 {
        let d1 = e1.drop_last();
        let d2 = e2.drop_last();
        assert forall|i: int| 0 <= i < d1.len() implies (#[trigger] d1[i]).0 == d2[i].0 by {
            assert(d1[i] == e1[i]);
            assert(d2[i] == e2[i]);
        }
        assert(e1.last().0 == e2.last().0) by {
            assert(e1[e1.len() - 1].0 == e2[e1.len() - 1].0);
        }
        lemma_find_group_same_keys(d1, d2, key);
    }
}

/// Giving the found entry of a key a new value updates the map at that key.
pub proof fn lemma_entries_map_update<V>(e: Seq<(Seq<char>, V)>, key: Seq<char>, v: V)
    requires
        find_group(e, key) >= 0,
    ensures
        entries_map(e.update(find_group(e, key), (key, v))) == entries_map(e).insert(key, v),
{
    let k = find_group(e, key);
    let u = e.update(k, (key, v));
    lemma_find_group(e, key);
    assert forall|key2: Seq<char>| #[trigger] entries_map(u).contains_key(key2) == entries_map(e).insert(key, v).contains_key(key2)
        && (entries_map(u).contains_key(key2) ==> entries_map(u)[key2] == entries_map(e).insert(key, v)[key2]) by {
        assert forall|i: int| 0 <= i < u.len() implies (#[trigger] u[i]).0 == e[i].0 by {}
        lemma_find_group_same_keys(u, e, key2);
        lemma_entries_map(u, key2);
        lemma_entries_map(e, key2);
        lemma_find_group(e, key2);
    }
    assert(entries_map(u) =~= entries_map(e).insert(key, v));
}

/// Adding an entry with a new key adds that key to the map.
pub proof fn lemma_entries_map_push<V>(e: Seq<(Seq<char>, V)>, key: Seq<char>, v: V)
    ensures
        entries_map(e.push((key, v))) == entries_map(e).insert(key, v),
{
    assert(e.push((key, v)).drop_last() =~= e);
}

/// Taking out the entry of a key, where keys are unique, takes the key out of
/// the map and keeps the keys unique.
pub proof fn lemma_entries_map_remove<V>(e: Seq<(Seq<char>, V)>, key: Seq<char>)
    requires
        keys_unique(e),
        find_group(e, key) >= 0,
    ensures
        entries_map(e.remove(find_group(e, key))) == entries_map(e).remove(key),
        keys_unique(e.remove(find_group(e, key))),
{
    let k = find_group(e, key);
    let r = e.remove(k);
    lemma_find_group(e, key);
    assert forall|i: int, j: int| 0 <= i < j < r.len() implies (#[trigger] r[i]).0 != (#[trigger] r[j]).0 by {
        let ii = if i < k { i } else { i + 1 };
        let jj = if j < k { j } else { j + 1 };
        assert(r[i] == e[ii]);
        assert(r[j] == e[jj]);
    }
    assert forall|key2: Seq<char>| #[trigger] entries_map(r).contains_key(key2) == entries_map(e).remove(key).contains_key(key2)
        && (entries_map(r).contains_key(key2) ==> entries_map(r)[key2] == entries_map(e).remove(key)[key2]) by {
        lemma_entries_map(r, key2);
        lemma_entries_map(e, key2);
        lemma_find_group(r, key2);
        lemma_find_group(e, key2);
        let fr = find_group(r, key2);
        let fe = find_group(e, key2);
        if fr >= 0 {
            let ii = if fr < k { fr } else { fr + 1 };
            assert(r[fr] == e[ii]);
            assert(e[ii].0 == key2);
            assert(ii != k);
            assert(fe >= 0);
            if fe != ii {
                if fe < ii {
                    assert(e[fe].0 != e[ii].0);
                } else {
                    assert(e[ii].0 != e[fe].0);
                }
            }
        } else if fe >= 0 && key2 != key {
            assert(fe != k);
            let m = if fe < k { fe } else { fe - 1 };
            assert(r[m] == e[fe]);
            assert(r[m].0 == key2);
        }
        if key2 == key && fr >= 0 {
            let ii = if fr < k { fr } else { fr + 1 };
            assert(r[fr] == e[ii]);
            if ii < k {
                assert(e[ii].0 != e[k].0);
            } else {
                assert(e[k].0 != e[ii].0);
            }
        }
    }
    assert(entries_map(r) =~= entries_map(e).remove(key));
}

} // verus!
