//! Association lists: sequences of (key, value) entries read as maps from
//! keys to values, with each key present at most once.

use vstd::prelude::*;

verus! {

/// The map described by a list of entries (a later entry for the same name wins).
pub open spec fn assoc_map<K, V>(s: Seq<(K, V)>) -> Map<K, V>
    decreases s.len(),
{
    if s.len() == 0 {
        Map::empty()
    } else {
        assoc_map(s.drop_last()).insert(s.last().0, s.last().1)
    }
}

/// No two entries carry the same name.
pub open spec fn distinct_keys<K, V>(s: Seq<(K, V)>) -> bool {
    forall|i: int, j: int| 0 <= i < s.len() && 0 <= j < s.len() && i != j ==> s[i].0 != s[j].0
}

/// With distinct names, the map holds exactly the entries' names, each with its value.
pub proof fn lemma_assoc_lookup<K, V>(s: Seq<(K, V)>)
    requires
        distinct_keys(s),
    ensures
        forall|k: K| assoc_map(s).contains_key(k) <==> exists|i: int| 0 <= i < s.len() && #[trigger] s[i].0 == k,
        forall|i: int| 0 <= i < s.len() ==> #[trigger] assoc_map(s)[s[i].0] == s[i].1,
        assoc_map(s).dom().finite(),
        assoc_map(s).len() == s.len(),
    decreases s.len(),
{
    if s.len() > 0 {
        let init = s.drop_last();
        assert(distinct_keys(init));
        lemma_assoc_lookup(init);
        assert(assoc_map(s) == assoc_map(init).insert(s.last().0, s.last().1));
        assert(!assoc_map(init).contains_key(s.last().0)) by {
            if assoc_map(init).contains_key(s.last().0) {
                let i = choose|i: int| 0 <= i < init.len() && #[trigger] init[i].0 == s.last().0;
                assert(s[i].0 == s[s.len() - 1].0);
            }
        }
        assert forall|k: K| assoc_map(s).contains_key(k) implies exists|i: int| 0 <= i < s.len() && #[trigger] s[i].0 == k by {
            if k != s.last().0 {
                assert(assoc_map(init).contains_key(k));
                let i = choose|i: int| 0 <= i < init.len() && #[trigger] init[i].0 == k;
                assert(init[i] == s[i]);
                assert(s[i].0 == k);
            } else {
                assert(s[s.len() - 1].0 == k);
            }
        }
        assert forall|i: int| 0 <= i < s.len() implies #[trigger] assoc_map(s)[s[i].0] == s[i].1 by {
            if i < s.len() - 1 {
                assert(init[i] == s[i]);
                assert(s[i].0 != s[s.len() - 1].0);
                assert(assoc_map(init)[init[i].0] == init[i].1);
            }
        }
        assert forall|k: K| (exists|i: int| 0 <= i < s.len() && #[trigger] s[i].0 == k) implies assoc_map(s).contains_key(k) by {
            let i = choose|i: int| 0 <= i < s.len() && #[trigger] s[i].0 == k;
            if i < s.len() - 1 {
                assert(init[i] == s[i]);
                assert(init[i].0 == k);
                assert(assoc_map(init).contains_key(k));
            }
        }
    }
}

/// Replacing the value of the entry at `i` updates the map at that entry's name.
pub proof fn lemma_assoc_update<K, V>(s: Seq<(K, V)>, i: int, p: (K, V))
    requires
        distinct_keys(s),
        0 <= i < s.len(),
        s[i].0 == p.0,
    ensures
        distinct_keys(s.update(i, p)),
        assoc_map(s.update(i, p)) == assoc_map(s).insert(p.0, p.1),
{
    let q = s.update(i, p);
    assert(distinct_keys(q));
    lemma_assoc_lookup(s);
    lemma_assoc_lookup(q);
    assert forall|k: K| assoc_map(q).contains_key(k) <==> assoc_map(s).insert(p.0, p.1).contains_key(k) by {
        if assoc_map(q).contains_key(k) {
            let j = choose|j: int| 0 <= j < q.len() && #[trigger] q[j].0 == k;
            if j != i {
                assert(s[j].0 == k);
            }
        }
        if assoc_map(s).contains_key(k) {
            let j = choose|j: int| 0 <= j < s.len() && #[trigger] s[j].0 == k;
            assert(q[j].0 == k);
        }
        if k == p.0 {
            assert(q[i].0 == k);
        }
    }
    assert forall|k: K| #[trigger] assoc_map(q).contains_key(k) implies assoc_map(q)[k] == assoc_map(s).insert(p.0, p.1)[k] by {
        let j = choose|j: int| 0 <= j < q.len() && #[trigger] q[j].0 == k;
        assert(assoc_map(q)[q[j].0] == q[j].1);
        if j != i {
            assert(s[j] == q[j]);
            assert(assoc_map(s)[s[j].0] == s[j].1);
        }
    }
    assert(assoc_map(q) =~= assoc_map(s).insert(p.0, p.1));
}

/// Appending an entry with a new name keeps the names distinct.
pub proof fn lemma_assoc_push<K, V>(s: Seq<(K, V)>, p: (K, V))
    requires
        distinct_keys(s),
        forall|i: int| 0 <= i < s.len() ==> #[trigger] s[i].0 != p.0,
    ensures
        distinct_keys(s.push(p)),
        assoc_map(s.push(p)) == assoc_map(s).insert(p.0, p.1),
{
    assert(s.push(p).drop_last() =~= s);
}

/// Inserting an entry with a new key anywhere keeps the keys distinct and
/// adds the key to the map.
pub proof fn lemma_assoc_insert_at<K, V>(s: Seq<(K, V)>, p: int, e: (K, V))
    requires
        distinct_keys(s),
        0 <= p <= s.len(),
        forall|i: int| 0 <= i < s.len() ==> #[trigger] s[i].0 != e.0,
    ensures
        distinct_keys(s.insert(p, e)),
        assoc_map(s.insert(p, e)) == assoc_map(s).insert(e.0, e.1),
{
    let q = s.insert(p, e);
    assert forall|i: int, j: int| 0 <= i < q.len() && 0 <= j < q.len() && i != j implies q[i].0 != q[j].0 by {
        if i < p && j < p {
            assert(q[i] == s[i] && q[j] == s[j]);
        } else if i < p && j > p {
            assert(q[i] == s[i] && q[j] == s[j - 1]);
        } else if i > p && j < p {
            assert(q[i] == s[i - 1] && q[j] == s[j]);
        } else if i > p && j > p {
            assert(q[i] == s[i - 1] && q[j] == s[j - 1]);
        } else if i == p {
            if j < p { assert(q[j] == s[j]); } else { assert(q[j] == s[j - 1]); }
        } else {
            if i < p { assert(q[i] == s[i]); } else { assert(q[i] == s[i - 1]); }
        }
    }
    lemma_assoc_lookup(s);
    lemma_assoc_lookup(q);
    assert forall|k: K| assoc_map(q).contains_key(k) <==> assoc_map(s).insert(e.0, e.1).contains_key(k) by {
        if assoc_map(q).contains_key(k) {
            let j = choose|j: int| 0 <= j < q.len() && #[trigger] q[j].0 == k;
            if j < p {
                assert(s[j].0 == k);
            } else if j > p {
                assert(s[j - 1].0 == k);
            }
        }
        if assoc_map(s).contains_key(k) {
            let j = choose|j: int| 0 <= j < s.len() && #[trigger] s[j].0 == k;
            if j < p {
                assert(q[j].0 == k);
            } else {
                assert(q[j + 1].0 == k);
            }
        }
        if k == e.0 {
            assert(q[p].0 == k);
        }
    }
    assert forall|k: K| #[trigger] assoc_map(q).contains_key(k) implies assoc_map(q)[k] == assoc_map(s).insert(e.0, e.1)[k] by {
        let j = choose|j: int| 0 <= j < q.len() && #[trigger] q[j].0 == k;
        assert(assoc_map(q)[q[j].0] == q[j].1);
        if j < p {
            assert(q[j] == s[j]);
            assert(assoc_map(s)[s[j].0] == s[j].1);
        } else if j > p {
            assert(q[j] == s[j - 1]);
            assert(assoc_map(s)[s[j - 1].0] == s[j - 1].1);
        }
    }
    assert(assoc_map(q) =~= assoc_map(s).insert(e.0, e.1));
}

} // verus!
