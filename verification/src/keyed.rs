// Records kept in a list ordered by an integer key, read as a map.
//
// A list in ascending key order walks its entries the way an ordered map
// would, so "the first entry that matches" means the one with the smallest
// key. The map reading is what contracts speak of; the order is what the
// walks rely on.
use vstd::prelude::*;

verus! {

/// Keys strictly increase along the list, so none repeats.
pub open spec fn keys_ascending<V>(s: Seq<(u64, V)>) -> bool {
    forall|i: int, j: int| 0 <= i < j < s.len() ==> s[i].0 < s[j].0
}

/// The entries of a list, by key.
pub open spec fn keyed<V>(s: Seq<(u64, V)>) -> Map<u64, V>
    decreases s.len(),
{
    if s.len() == 0 {
        Map::empty()
    } else {
        keyed(s.drop_last()).insert(s.last().0, s.last().1)
    }
}

/// Every key of the list is in the map with its entry, and nothing else is.
pub proof fn lemma_keyed<V>(s: Seq<(u64, V)>)
    requires
        keys_ascending(s),
    ensures
        forall|k: u64| #[trigger]
            keyed(s).contains_key(k) <==> exists|i: int| 0 <= i < s.len() && s[i].0 == k,
        forall|i: int| 0 <= i < s.len() ==> #[trigger] keyed(s)[s[i].0] == s[i].1,
    decreases s.len(),
{
    if s.len() > 0 {
        let p = s.drop_last();
        assert(keys_ascending(p)) by {
            assert forall|a: int, b: int| 0 <= a < b < p.len() implies p[a].0 < p[b].0 by {
                assert(p[a] == s[a] && p[b] == s[b]);
            }
        }
        lemma_keyed(p);
        assert(keyed(s) == keyed(p).insert(s.last().0, s.last().1));
        assert forall|k: u64| #[trigger]
            keyed(s).contains_key(k) <==> exists|i: int| 0 <= i < s.len() && s[i].0 == k by {
            if keyed(s).contains_key(k) && k != s.last().0 {
                assert(keyed(p).contains_key(k));
                let i = choose|i: int| 0 <= i < p.len() && p[i].0 == k;
                assert(s[i].0 == k);
            }
            if exists|i: int| 0 <= i < s.len() && s[i].0 == k {
                let i = choose|i: int| 0 <= i < s.len() && s[i].0 == k;
                if i < s.len() - 1 {
                    assert(p[i].0 == k);
                    assert(keyed(p).contains_key(k));
                }
            }
        }
        assert forall|i: int| 0 <= i < s.len() implies #[trigger] keyed(s)[s[i].0] == s[i].1 by {
            if i < s.len() - 1 {
                assert(p[i] == s[i]);
                assert(s[i].0 != s.last().0);
            }
        }
    }
}

/// A key that no entry carries is not in the map.
pub proof fn lemma_keyed_absent<V>(s: Seq<(u64, V)>, k: u64)
    requires
        keys_ascending(s),
        forall|i: int| 0 <= i < s.len() ==> s[i].0 != k,
    ensures
        !keyed(s).contains_key(k),
{
    lemma_keyed(s);
}

/// Replacing one entry's value replaces it in the map.
pub proof fn lemma_keyed_update<V>(s: Seq<(u64, V)>, i: int, v: V)
    requires
        keys_ascending(s),
        0 <= i < s.len(),
    ensures
        keys_ascending(s.update(i, (s[i].0, v))),
        keyed(s.update(i, (s[i].0, v))) == keyed(s).insert(s[i].0, v),
{
    let t = s.update(i, (s[i].0, v));
    assert(keys_ascending(t)) by {
        assert forall|a: int, b: int| 0 <= a < b < t.len() implies t[a].0 < t[b].0 by {
            assert(t[a].0 == s[a].0 && t[b].0 == s[b].0);
        }
    }
    lemma_keyed(s);
    lemma_keyed(t);
    assert forall|k: u64| #[trigger] keyed(t).contains_key(k) == keyed(s).insert(s[i].0, v).contains_key(k) by {
        if keyed(t).contains_key(k) {
            let j = choose|j: int| 0 <= j < t.len() && t[j].0 == k;
            assert(s[j].0 == k);
        }
        if keyed(s).contains_key(k) {
            let j = choose|j: int| 0 <= j < s.len() && s[j].0 == k;
            assert(t[j].0 == k);
        }
        if k == s[i].0 {
            assert(t[i].0 == k);
        }
    }
    assert forall|k: u64| #[trigger] keyed(t).contains_key(k) implies keyed(t)[k] == keyed(s).insert(s[i].0, v)[k] by {
        let j = choose|j: int| 0 <= j < t.len() && t[j].0 == k;
        assert(keyed(t)[t[j].0] == t[j].1);
        if j != i {
            assert(keyed(s)[s[j].0] == s[j].1);
        }
    }
    assert(keyed(t) =~= keyed(s).insert(s[i].0, v));
}

/// Removing one entry removes its key from the map.
pub proof fn lemma_keyed_remove<V>(s: Seq<(u64, V)>, i: int)
    requires
        keys_ascending(s),
        0 <= i < s.len(),
    ensures
        keys_ascending(s.remove(i)),
        keyed(s.remove(i)) == keyed(s).remove(s[i].0),
{
    let t = s.remove(i);
    assert(keys_ascending(t)) by {
        assert forall|a: int, b: int| 0 <= a < b < t.len() implies t[a].0 < t[b].0 by {
            if a < i && b >= i {
                assert(t[b] == s[b + 1]);
            } else if a >= i {
                assert(t[a] == s[a + 1] && t[b] == s[b + 1]);
            }
        }
    }
    lemma_keyed(s);
    lemma_keyed(t);
    assert forall|k: u64| #[trigger] keyed(t).contains_key(k) == keyed(s).remove(s[i].0).contains_key(k) by {
        if keyed(t).contains_key(k) {
            let j = choose|j: int| 0 <= j < t.len() && t[j].0 == k;
            if j < i {
                assert(s[j].0 == k);
            } else {
                assert(s[j + 1].0 == k);
            }
        }
        if keyed(s).contains_key(k) && k != s[i].0 {
            let j = choose|j: int| 0 <= j < s.len() && s[j].0 == k;
            if j < i {
                assert(t[j].0 == k);
            } else {
                assert(t[j - 1].0 == k);
            }
        }
    }
    assert forall|k: u64| #[trigger] keyed(t).contains_key(k) implies keyed(t)[k] == keyed(s).remove(s[i].0)[k] by {
        let j = choose|j: int| 0 <= j < t.len() && t[j].0 == k;
        assert(keyed(t)[t[j].0] == t[j].1);
        if j < i {
            assert(keyed(s)[s[j].0] == s[j].1);
        } else {
            assert(keyed(s)[s[j + 1].0] == s[j + 1].1);
        }
    }
    assert(keyed(t) =~= keyed(s).remove(s[i].0));
}

/// Placing a new key where the order puts it adds it to the map.
pub proof fn lemma_keyed_insert<V>(s: Seq<(u64, V)>, i: int, k: u64, v: V)
    requires
        keys_ascending(s),
        0 <= i <= s.len(),
        forall|j: int| 0 <= j < i ==> s[j].0 < k,
        forall|j: int| i <= j < s.len() ==> k < s[j].0,
    ensures
        keys_ascending(s.insert(i, (k, v))),
        keyed(s.insert(i, (k, v))) == keyed(s).insert(k, v),
{
    let t = s.insert(i, (k, v));
    assert(keys_ascending(t)) by {
        assert forall|a: int, b: int| 0 <= a < b < t.len() implies t[a].0 < t[b].0 by {
            if b < i {
                assert(t[a] == s[a] && t[b] == s[b]);
            } else if b == i {
                assert(t[a] == s[a]);
            } else if a < i {
                assert(t[a] == s[a] && t[b] == s[b - 1]);
            } else if a == i {
                assert(t[b] == s[b - 1]);
            } else {
                assert(t[a] == s[a - 1] && t[b] == s[b - 1]);
            }
        }
    }
    lemma_keyed(s);
    lemma_keyed(t);
    assert forall|q: u64| #[trigger] keyed(t).contains_key(q) == keyed(s).insert(k, v).contains_key(q) by {
        if keyed(t).contains_key(q) && q != k {
            let j = choose|j: int| 0 <= j < t.len() && t[j].0 == q;
            if j < i {
                assert(s[j].0 == q);
            } else if j > i {
                assert(s[j - 1].0 == q);
            }
        }
        if keyed(s).contains_key(q) {
            let j = choose|j: int| 0 <= j < s.len() && s[j].0 == q;
            if j < i {
                assert(t[j].0 == q);
            } else {
                assert(t[j + 1].0 == q);
            }
        }
        if q == k {
            assert(t[i].0 == k);
        }
    }
    assert forall|q: u64| #[trigger] keyed(t).contains_key(q) implies keyed(t)[q] == keyed(s).insert(k, v)[q] by {
        let j = choose|j: int| 0 <= j < t.len() && t[j].0 == q;
        assert(keyed(t)[t[j].0] == t[j].1);
        if j < i {
            assert(keyed(s)[s[j].0] == s[j].1);
        } else if j > i {
            assert(keyed(s)[s[j - 1].0] == s[j - 1].1);
        }
    }
    assert(keyed(t) =~= keyed(s).insert(k, v));
}

/// The sum of a weight over a list's entries.
pub open spec fn weigh<V>(s: Seq<(u64, V)>, w: spec_fn(V) -> nat) -> nat
    decreases s.len(),
{
    if s.len() == 0 {
        0
    } else {
        weigh(s.drop_last(), w) + w(s.last().1)
    }
}

/// Replacing one entry changes the sum by the difference of its weights.
pub proof fn lemma_weigh_update<V>(s: Seq<(u64, V)>, i: int, x: (u64, V), w: spec_fn(V) -> nat)
    requires
        0 <= i < s.len(),
    ensures
        weigh(s.update(i, x), w) + w(s[i].1) == weigh(s, w) + w(x.1),
    decreases s.len(),
{
    let t = s.update(i, x);
    if i < s.len() - 1 {
        lemma_weigh_update(s.drop_last(), i, x, w);
        assert(t.drop_last() =~= s.drop_last().update(i, x));
    } else {
        assert(t.drop_last() =~= s.drop_last());
    }
}

/// Removing one entry takes its weight off the sum.
pub proof fn lemma_weigh_remove<V>(s: Seq<(u64, V)>, i: int, w: spec_fn(V) -> nat)
    requires
        0 <= i < s.len(),
    ensures
        weigh(s.remove(i), w) + w(s[i].1) == weigh(s, w),
    decreases s.len(),
{
    let t = s.remove(i);
    if i < s.len() - 1 {
        lemma_weigh_remove(s.drop_last(), i, w);
        assert(t.drop_last() =~= s.drop_last().remove(i));
        assert(t.last() == s.last());
    } else {
        assert(t =~= s.drop_last());
    }
}

/// The map of a list has exactly as many keys as the list has entries.
pub proof fn lemma_keyed_finite<V>(s: Seq<(u64, V)>)
    requires
        keys_ascending(s),
    ensures
        keyed(s).dom().finite(),
        keyed(s).dom().len() == s.len(),
    decreases s.len(),
{
    if s.len() == 0 {
        assert(keyed(s).dom() =~= Set::<u64>::empty());
    } else {
        let p = s.drop_last();
        assert(keys_ascending(p)) by {
            assert forall|a: int, b: int| 0 <= a < b < p.len() implies p[a].0 < p[b].0 by {
                assert(p[a] == s[a] && p[b] == s[b]);
            }
        }
        lemma_keyed_finite(p);
        assert forall|j: int| 0 <= j < p.len() implies p[j].0 != s.last().0 by {
            assert(p[j] == s[j]);
        }
        lemma_keyed_absent(p, s.last().0);
        assert(keyed(s).dom() =~= keyed(p).dom().insert(s.last().0));
    }
}

} // verus!
