//! Association lists: sequences of key/value pairs with distinct keys,
//! read as finite maps. The room keeps its peers and its message queues in
//! vectors of this shape.

use vstd::prelude::*;

verus! {

/// No key occurs twice.
pub open spec fn distinct_keys<K, W>(s: Seq<(K, W)>) -> bool {
    forall|i: int, j: int|
        0 <= i < s.len() && 0 <= j < s.len() && i != j ==> #[trigger] s[i].0 != #[trigger] s[j].0
}

/// The key occurs in the list.
pub open spec fn has_key<K, W>(s: Seq<(K, W)>, k: K) -> bool {
    exists|i: int| 0 <= i < s.len() && #[trigger] s[i].0 == k
}

/// The map that the list stands for.
pub open spec fn assoc_map<K, W>(s: Seq<(K, W)>) -> Map<K, W> {
    Map::new(
        |k: K| has_key(s, k),
        |k: K| s[choose|i: int| 0 <= i < s.len() && #[trigger] s[i].0 == k].1,
    )
}

/// The keys of the list, in order.
pub open spec fn assoc_keys<K, W>(s: Seq<(K, W)>) -> Seq<K> {
    s.map_values(|e: (K, W)| e.0)
}

/// An entry of a list with distinct keys is what the map holds at its key.
pub proof fn lemma_assoc_index<K, W>(s: Seq<(K, W)>, i: int)
    requires
        distinct_keys(s),
        0 <= i < s.len(),
    ensures
        assoc_map(s).contains_key(s[i].0),
        assoc_map(s)[s[i].0] == s[i].1,
{
    assert(has_key(s, s[i].0));
    let j = choose|j: int| 0 <= j < s.len() && #[trigger] s[j].0 == s[i].0;
    assert(j == i);
}

/// Appending a fresh key inserts it into the map.
pub proof fn lemma_assoc_push<K, W>(s: Seq<(K, W)>, k: K, w: W)
    requires
        distinct_keys(s),
        !has_key(s, k),
    ensures
        distinct_keys(s.push((k, w))),
        assoc_map(s.push((k, w))) =~= assoc_map(s).insert(k, w),
{
    let t = s.push((k, w));
    assert forall|i: int, j: int|
        0 <= i < t.len() && 0 <= j < t.len() && i != j implies #[trigger] t[i].0
        != #[trigger] t[j].0 by {
        if i < s.len() && j < s.len() {
            assert(t[i] == s[i] && t[j] == s[j]);
        } else if i < s.len() {
            assert(t[i] == s[i]);
        } else {
            assert(t[j] == s[j]);
        }
    }
    assert forall|x: K| #[trigger] has_key(t, x) <==> has_key(s, x) || x == k by {
        if has_key(s, x) {
            let i = choose|i: int| 0 <= i < s.len() && #[trigger] s[i].0 == x;
            assert(t[i] == s[i]);
        }
        if x == k {
            assert(t[s.len() as int].0 == k);
        }
        if has_key(t, x) && x != k {
            let i = choose|i: int| 0 <= i < t.len() && #[trigger] t[i].0 == x;
            assert(i < s.len());
            assert(s[i] == t[i]);
        }
    }
    assert forall|x: K| #[trigger] assoc_map(t).contains_key(x) implies assoc_map(t)[x]
        == assoc_map(s).insert(k, w)[x] by {
        let i = choose|i: int| 0 <= i < t.len() && #[trigger] t[i].0 == x;
        lemma_assoc_index(t, i);
        if i < s.len() {
            assert(s[i] == t[i]);
            lemma_assoc_index(s, i);
        }
    }
}

/// Replacing the value of an entry updates the map at its key.
pub proof fn lemma_assoc_update<K, W>(s: Seq<(K, W)>, i: int, w: W)
    requires
        distinct_keys(s),
        0 <= i < s.len(),
    ensures
        distinct_keys(s.update(i, (s[i].0, w))),
        assoc_map(s.update(i, (s[i].0, w))) =~= assoc_map(s).insert(s[i].0, w),
{
    let t = s.update(i, (s[i].0, w));
    assert forall|a: int, b: int|
        0 <= a < t.len() && 0 <= b < t.len() && a != b implies #[trigger] t[a].0
        != #[trigger] t[b].0 by {
        assert(t[a].0 == s[a].0 && t[b].0 == s[b].0);
    }
    assert forall|x: K| #[trigger] has_key(t, x) <==> has_key(s, x) by {
        if has_key(s, x) {
            let j = choose|j: int| 0 <= j < s.len() && #[trigger] s[j].0 == x;
            assert(t[j].0 == x);
        }
        if has_key(t, x) {
            let j = choose|j: int| 0 <= j < t.len() && #[trigger] t[j].0 == x;
            assert(s[j].0 == x);
        }
    }
    assert forall|x: K| #[trigger] assoc_map(t).contains_key(x) implies assoc_map(t)[x]
        == assoc_map(s).insert(s[i].0, w)[x] by {
        let j = choose|j: int| 0 <= j < t.len() && #[trigger] t[j].0 == x;
        lemma_assoc_index(t, j);
        if j != i {
            lemma_assoc_index(s, j);
        }
    }
}

/// Removing an entry removes its key from the map.
pub proof fn lemma_assoc_remove<K, W>(s: Seq<(K, W)>, i: int)
    requires
        distinct_keys(s),
        0 <= i < s.len(),
    ensures
        distinct_keys(s.remove(i)),
        assoc_map(s.remove(i)) =~= assoc_map(s).remove(s[i].0),
{
    let t = s.remove(i);
    assert forall|a: int, b: int|
        0 <= a < t.len() && 0 <= b < t.len() && a != b implies #[trigger] t[a].0
        != #[trigger] t[b].0 by {
        let a2 = if a < i { a } else { a + 1 };
        let b2 = if b < i { b } else { b + 1 };
        assert(t[a] == s[a2] && t[b] == s[b2]);
    }
    assert forall|x: K| #[trigger] has_key(t, x) <==> has_key(s, x) && x != s[i].0 by {
        if has_key(s, x) && x != s[i].0 {
            let j = choose|j: int| 0 <= j < s.len() && #[trigger] s[j].0 == x;
            if j < i {
                assert(t[j] == s[j]);
            } else {
                assert(j != i);
                assert(t[j - 1] == s[j]);
            }
        }
        if has_key(t, x) {
            let j = choose|j: int| 0 <= j < t.len() && #[trigger] t[j].0 == x;
            let j2 = if j < i { j } else { j + 1 };
            assert(t[j] == s[j2]);
        }
    }
    assert forall|x: K| #[trigger] assoc_map(t).contains_key(x) implies assoc_map(t)[x]
        == assoc_map(s).remove(s[i].0)[x] by {
        let j = choose|j: int| 0 <= j < t.len() && #[trigger] t[j].0 == x;
        lemma_assoc_index(t, j);
        let j2 = if j < i { j } else { j + 1 };
        assert(t[j] == s[j2]);
        lemma_assoc_index(s, j2);
    }
}

/// The keys of a list with distinct keys have no duplicates and are the
/// domain of its map; the domain has as many elements as the list.
pub proof fn lemma_assoc_keys<K, W>(s: Seq<(K, W)>)
    requires
        distinct_keys(s),
    ensures
        assoc_keys(s).no_duplicates(),
        assoc_keys(s).len() == s.len(),
        forall|k: K| #[trigger] assoc_keys(s).contains(k) <==> assoc_map(s).contains_key(k),
        assoc_map(s).dom().finite(),
        assoc_map(s).dom().len() == s.len(),
    decreases s.len(),
{
    let ks = assoc_keys(s);
    assert forall|k: K| #[trigger] ks.contains(k) <==> assoc_map(s).contains_key(k) by {
        if ks.contains(k) {
            let i = choose|i: int| 0 <= i < ks.len() && ks[i] == k;
            assert(s[i].0 == k);
        }
        if assoc_map(s).contains_key(k) {
            let i = choose|i: int| 0 <= i < s.len() && #[trigger] s[i].0 == k;
            assert(ks[i] == k);
        }
    }
    if s.len() == 0 {
        assert(assoc_map(s).dom() =~= Set::<K>::empty());
    } else {
        let last = (s.len() - 1) as int;
        let p = s.remove(last);
        lemma_assoc_remove(s, last);
        lemma_assoc_keys(p);
        assert(assoc_map(s).dom() =~= assoc_map(p).dom().insert(s[last].0));
        lemma_assoc_index(s, last);
        assert(!assoc_map(p).dom().contains(s[last].0));
    }
}

/// Appending an element that a duplicate-free sequence lacks keeps it
/// free of duplicates, and adds just that element.
pub proof fn lemma_push_fresh<A>(s: Seq<A>, x: A)
    requires
        s.no_duplicates(),
        !s.contains(x),
    ensures
        s.push(x).no_duplicates(),
        forall|t: A| #[trigger] s.push(x).contains(t) <==> s.contains(t) || t == x,
{
    let p = s.push(x);
    assert forall|a: int, b: int| 0 <= a < p.len() && 0 <= b < p.len() && a != b implies p[a]
        != p[b] by {
        if a < s.len() && b < s.len() {
            assert(p[a] == s[a] && p[b] == s[b]);
        } else if a < s.len() {
            assert(p[a] == s[a]);
            assert(s.contains(p[a]));
        } else {
            assert(p[b] == s[b]);
            assert(s.contains(p[b]));
        }
    }
    assert forall|t: A| #[trigger] p.contains(t) <==> s.contains(t) || t == x by {
        if p.contains(t) && t != x {
            let y = choose|y: int| 0 <= y < p.len() && p[y] == t;
            assert(y < s.len());
            assert(s[y] == t);
        }
        if s.contains(t) {
            let y = choose|y: int| 0 <= y < s.len() && s[y] == t;
            assert(p[y] == t);
        }
        if t == x {
            assert(p[s.len() as int] == x);
        }
    }
}

/// One step of a walk over a duplicate-free sequence: the prefix grows by
/// the next element, which the shorter prefix lacks.
pub proof fn lemma_take_step<A>(s: Seq<A>, i: int)
    requires
        0 <= i < s.len(),
        s.no_duplicates(),
    ensures
        s.take(i + 1) == s.take(i).push(s[i]),
        !s.take(i).contains(s[i]),
        forall|x: A| #[trigger] s.take(i + 1).contains(x) <==> s.take(i).contains(x) || x == s[i],
{
    assert(s.take(i + 1) =~= s.take(i).push(s[i]));
    if s.take(i).contains(s[i]) {
        let j = choose|j: int| 0 <= j < i && s.take(i)[j] == s[i];
        assert(s[j] == s[i]);
    }
    assert forall|x: A| #[trigger] s.take(i + 1).contains(x) <==> s.take(i).contains(x) || x == s[i] by {
        let p0 = s.take(i);
        let p1 = s.take(i + 1);
        if p1.contains(x) {
            let y = choose|y: int| 0 <= y < i + 1 && p1[y] == x;
            if y < i {
                assert(p0[y] == x);
            }
        }
        if p0.contains(x) {
            let y = choose|y: int| 0 <= y < i && p0[y] == x;
            assert(p1[y] == x);
        }
        if x == s[i] {
            assert(p1[i] == x);
        }
    }
}

} // verus!
