//! Candidate function addresses with optional names, kept in ascending
//! address order.

use vstd::prelude::*;
use crate::assoc::{assoc_map, distinct_keys, lemma_assoc_lookup, lemma_assoc_update, lemma_assoc_insert_at};

verus! {

/// The text of an optional name.
pub open spec fn name_view(n: Option<String>) -> Option<Seq<char>> {
    match n {
        Some(s) => Some(s@),
        None => None,
    }
}

/// (address, name text) entries of the table's storage.
pub open spec fn entry_views(s: Seq<(u64, Option<String>)>) -> Seq<(u64, Option<Seq<char>>)> {
    s.map_values(|e: (u64, Option<String>)| (e.0, name_view(e.1)))
}

/// Addresses strictly increase along the entries.
pub open spec fn ascending(s: Seq<(u64, Option<Seq<char>>)>) -> bool {
    forall|i: int, j: int| 0 <= i < j < s.len() ==> s[i].0 < s[j].0
}

/// Entries with strictly ascending addresses carry each address once.
pub proof fn lemma_ascending_distinct(s: Seq<(u64, Option<Seq<char>>)>)
    requires
        ascending(s),
    ensures
        distinct_keys(s),
{
    assert forall|i: int, j: int| 0 <= i < s.len() && 0 <= j < s.len() && i != j implies s[i].0 != s[j].0 by {
        if i < j { assert(s[i].0 < s[j].0); } else { assert(s[j].0 < s[i].0); }
    }
}

/// Two ascending entry lists that describe the same map are the same list.
pub proof fn lemma_ascending_unique(s1: Seq<(u64, Option<Seq<char>>)>, s2: Seq<(u64, Option<Seq<char>>)>)
    requires
        ascending(s1),
        ascending(s2),
        assoc_map(s1) == assoc_map(s2),
    ensures
        s1 == s2,
    decreases s1.len(),
{
    lemma_ascending_distinct(s1);
    lemma_ascending_distinct(s2);
    lemma_assoc_lookup(s1);
    lemma_assoc_lookup(s2);
    if s1.len() == 0 {
        if s2.len() > 0 {
            assert(assoc_map(s2).contains_key(s2[0].0));
        }
        assert(s1 =~= s2);
    } else {
        if s2.len() == 0 {
            assert(assoc_map(s1).contains_key(s1[0].0));
        }
        let n1 = s1.len() - 1;
        let n2 = s2.len() - 1;
        let k1 = s1[n1].0;
        let k2 = s2[n2].0;
        assert(assoc_map(s2).contains_key(k1));
        let j = choose|j: int| 0 <= j < s2.len() && #[trigger] s2[j].0 == k1;
        if j < n2 { assert(s2[j].0 < s2[n2].0); }
        assert(assoc_map(s1).contains_key(k2));
        let i = choose|i: int| 0 <= i < s1.len() && #[trigger] s1[i].0 == k2;
        if i < n1 { assert(s1[i].0 < s1[n1].0); }
        assert(k1 == k2);
        let init1 = s1.drop_last();
        let init2 = s2.drop_last();
        assert(ascending(init1)) by {
            assert forall|a: int, b: int| 0 <= a < b < init1.len() implies init1[a].0 < init1[b].0 by {
                assert(init1[a] == s1[a] && init1[b] == s1[b]);
            }
        }
        assert(ascending(init2)) by {
            assert forall|a: int, b: int| 0 <= a < b < init2.len() implies init2[a].0 < init2[b].0 by {
                assert(init2[a] == s2[a] && init2[b] == s2[b]);
            }
        }
        lemma_ascending_distinct(init1);
        lemma_ascending_distinct(init2);
        lemma_assoc_lookup(init1);
        lemma_assoc_lookup(init2);
        assert(!assoc_map(init1).contains_key(k1)) by {
            if assoc_map(init1).contains_key(k1) {
                let a = choose|a: int| 0 <= a < init1.len() && #[trigger] init1[a].0 == k1;
                assert(s1[a].0 < s1[n1].0);
            }
        }
        assert(!assoc_map(init2).contains_key(k2)) by {
            if assoc_map(init2).contains_key(k2) {
                let a = choose|a: int| 0 <= a < init2.len() && #[trigger] init2[a].0 == k2;
                assert(s2[a].0 < s2[n2].0);
            }
        }
        assert(assoc_map(s1) == assoc_map(init1).insert(k1, s1[n1].1));
        assert(assoc_map(s2) == assoc_map(init2).insert(k2, s2[n2].1));
        assert(assoc_map(init1) =~= assoc_map(s1).remove(k1));
        assert(assoc_map(init2) =~= assoc_map(s2).remove(k2));
        lemma_ascending_unique(init1, init2);
        assert(s1[n1].1 == assoc_map(s1)[k1]);
        assert(s2[n2].1 == assoc_map(s2)[k2]);
        assert(s1 =~= init1.push(s1[n1]));
        assert(s2 =~= init2.push(s2[n2]));
    }
}

/// Function addresses mapped to optional symbol names, in ascending order.
pub struct AddressTable {
    entries: Vec<(u64, Option<String>)>,
}

impl View for AddressTable {
    type V = Map<u64, Option<Seq<char>>>;

    closed spec fn view(&self) -> Map<u64, Option<Seq<char>>> {
        assoc_map(entry_views(self.entries@))
    }
}

impl AddressTable {
    /// The entries in ascending address order.
    pub closed spec fn sorted(&self) -> Seq<(u64, Option<Seq<char>>)> {
        entry_views(self.entries@)
    }

    /// Internal consistency: addresses strictly ascend.
    pub closed spec fn wf(&self) -> bool {
        ascending(entry_views(self.entries@))
    }

    /// The sorted entries describe the map: each address once, with its name.
    pub proof fn lemma_sorted(&self)
        requires
            self.wf(),
        ensures
            ascending(self.sorted()),
            self@ == assoc_map(self.sorted()),
            self@.len() == self.sorted().len(),
            forall|i: int| 0 <= i < self.sorted().len() ==> #[trigger] self@[self.sorted()[i].0] == self.sorted()[i].1,
            forall|a: u64| self@.contains_key(a) <==> exists|i: int| 0 <= i < self.sorted().len() && #[trigger] self.sorted()[i].0 == a,
    {
        let s = entry_views(self.entries@);
        assert(distinct_keys(s)) by {
            assert forall|i: int, j: int| 0 <= i < s.len() && 0 <= j < s.len() && i != j implies s[i].0 != s[j].0 by {
                if i < j { assert(s[i].0 < s[j].0); } else { assert(s[j].0 < s[i].0); }
            }
        }
        lemma_assoc_lookup(s);
        assert forall|a: u64| self@.contains_key(a) implies exists|i: int| 0 <= i < self.sorted().len() && #[trigger] self.sorted()[i].0 == a by {
            assert(assoc_map(s).contains_key(a));
            let i = choose|i: int| 0 <= i < s.len() && #[trigger] s[i].0 == a;
            assert(self.sorted()[i].0 == a);
        }
        assert forall|a: u64| (exists|i: int| 0 <= i < self.sorted().len() && #[trigger] self.sorted()[i].0 == a) implies self@.contains_key(a) by {
            let i = choose|i: int| 0 <= i < self.sorted().len() && #[trigger] self.sorted()[i].0 == a;
            assert(s[i].0 == a);
        }
    }

    /// No entries.
    pub fn new() -> (t: Self)
        ensures
            t.wf(),
            t@ == Map::<u64, Option<Seq<char>>>::empty(),
            t.sorted().len() == 0,
    {
        AddressTable { entries: Vec::new() }
    }

    /// Number of addresses.
    pub fn len(&self) -> (n: usize)
        ensures
            n == self.sorted().len(),
    {
        self.entries.len()
    }

    /// The `i`-th lowest address and its name.
    pub fn entry(&self, i: usize) -> (r: (u64, Option<String>))
        requires
            i < self.sorted().len(),
        ensures
            r.0 == self.sorted()[i as int].0,
            name_view(r.1) == self.sorted()[i as int].1,
    {
        let e = &self.entries[i];
        let name = match &e.1 {
            Some(s) => Some(s.clone()),
            None => None,
        };
        (e.0, name)
    }

    /// Index of the first entry whose address is not below `a`.
    fn lower_bound(&self, a: u64) -> (p: usize)
        requires
            self.wf(),
        ensures
            p <= self.sorted().len(),
            forall|i: int| 0 <= i < p ==> #[trigger] self.sorted()[i].0 < a,
            forall|i: int| p <= i < self.sorted().len() ==> #[trigger] self.sorted()[i].0 >= a,
    {
        let mut p: usize = 0;
        while p < self.entries.len() && self.entries[p].0 < a
            invariant
                p <= self.entries@.len(),
                self.wf(),
                forall|i: int| 0 <= i < p ==> #[trigger] self.sorted()[i].0 < a,
            decreases self.entries@.len() - p,
        {
            p = p + 1;
        }
        proof {
            if p < self.entries@.len() {
                assert forall|i: int| p <= i < self.sorted().len() implies #[trigger] self.sorted()[i].0 >= a by {
                    assert(self.sorted()[p as int].0 >= a);
                    if i > p {
                        assert(self.sorted()[p as int].0 < self.sorted()[i].0);
                    }
                }
            }
        }
        p
    }

    fn place(&mut self, a: u64, name: Option<String>, replace: bool)
        requires
            old(self).wf(),
        ensures
            final(self).wf(),
            final(self)@ == if replace || !old(self)@.contains_key(a) { old(self)@.insert(a, name_view(name)) } else { old(self)@ },
    {
        proof { self.lemma_sorted(); }
        let p = self.lower_bound(a);
        let ghost before = self.entries@;
        if p < self.entries.len() && self.entries[p].0 == a {
            if replace {
                self.entries.set(p, (a, name));
                proof {
                    assert(entry_views(self.entries@) =~= entry_views(before).update(p as int, (a, name_view(name))));
                    assert(distinct_keys(entry_views(before)));
                    lemma_assoc_update(entry_views(before), p as int, (a, name_view(name)));
                    assert(ascending(entry_views(self.entries@))) by {
                        assert forall|i: int, j: int| 0 <= i < j < entry_views(self.entries@).len() implies entry_views(self.entries@)[i].0 < entry_views(self.entries@)[j].0 by {
                            assert(entry_views(before)[i].0 < entry_views(before)[j].0);
                        }
                    }
                }
            } else {
                proof {
                    assert(entry_views(before)[p as int].0 == a);
                }
            }
        } else {
            let ghost e = (a, name_view(name));
            self.entries.insert(p, (a, name));
            proof {
                let sv = entry_views(before);
                assert(entry_views(self.entries@) =~= sv.insert(p as int, e));
                assert forall|i: int| 0 <= i < sv.len() implies #[trigger] sv[i].0 != a by {
                    if i >= p {
                        if i == p { } else { assert(sv[p as int].0 < sv[i].0); }
                    }
                }
                assert(distinct_keys(sv));
                lemma_assoc_insert_at(sv, p as int, e);
                let q = sv.insert(p as int, e);
                assert forall|i: int, j: int| 0 <= i < j < q.len() implies q[i].0 < q[j].0 by {
                    if j < p {
                        assert(q[i] == sv[i] && q[j] == sv[j]);
                    } else if j == p {
                        assert(q[i] == sv[i]);
                    } else if i < p {
                        assert(q[i] == sv[i] && q[j] == sv[j - 1]);
                    } else if i == p {
                        assert(q[j] == sv[j - 1]);
                    } else {
                        assert(q[i] == sv[i - 1] && q[j] == sv[j - 1]);
                    }
                }
            }
        }
    }

    /// Sets the name at `a`, replacing an earlier one (`BTreeMap::insert`).
    pub fn insert(&mut self, a: u64, name: Option<String>)
        requires
            old(self).wf(),
        ensures
            final(self).wf(),
            final(self)@ == old(self)@.insert(a, name_view(name)),
    {
        self.place(a, name, true)
    }

    /// Adds `a` with `name` unless `a` is present already, in which case the
    /// earlier name stays (`BTreeMap::entry(..).or_insert(..)`).
    pub fn insert_if_absent(&mut self, a: u64, name: Option<String>)
        requires
            old(self).wf(),
        ensures
            final(self).wf(),
            final(self)@ == if old(self)@.contains_key(a) { old(self)@ } else { old(self)@.insert(a, name_view(name)) },
    {
        self.place(a, name, false)
    }
}

} // verus!
