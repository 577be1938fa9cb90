//! A table keyed by peer address, with at most one entry per address.

use vstd::prelude::*;

verus! {

/// Entries in the order they were stored, read as a map from address to
/// value; a later entry for an address would shadow an earlier one, but the
/// table never holds two.
pub open spec fn entries_map<V>(s: Seq<(Seq<char>, V)>) -> Map<Seq<char>, V>
    decreases s.len(),
{
    if s.len() == 0 {
        Map::empty()
    } else {
        entries_map(s.drop_last()).insert(s.last().0, s.last().1)
    }
}

pub open spec fn keys_unique<V>(s: Seq<(Seq<char>, V)>) -> bool {
    forall|i: int, j: int| 0 <= i < j < s.len() ==> #[trigger] s[i].0 != #[trigger] s[j].0
}

proof fn lemma_entries_map_contains<V>(s: Seq<(Seq<char>, V)>, k: Seq<char>)
    ensures
        entries_map(s).contains_key(k) <==> exists|i: int| 0 <= i < s.len() && #[trigger] s[i].0 == k,
    decreases s.len(),
{
    if s.len() > 0 {
        let init = s.drop_last();
        lemma_entries_map_contains(init, k);
        if entries_map(s).contains_key(k) && s.last().0 != k {
            let i = choose|i: int| 0 <= i < init.len() && #[trigger] init[i].0 == k;
            assert(s[i].0 == k);
        }
        if exists|i: int| 0 <= i < s.len() && #[trigger] s[i].0 == k {
            let i = choose|i: int| 0 <= i < s.len() && #[trigger] s[i].0 == k;
            if i < s.len() - 1 {
                assert(init[i].0 == k);
            }
        }
    }
}

proof fn lemma_entries_map_value<V>(s: Seq<(Seq<char>, V)>, i: int)
    requires
        keys_unique(s),
        0 <= i < s.len(),
    ensures
        entries_map(s).contains_key(s[i].0),
        entries_map(s)[s[i].0] == s[i].1,
    decreases s.len(),
{
    if i < s.len() - 1 {
        let init = s.drop_last();
        assert(init[i] == s[i]);
        assert(keys_unique(init)) by {
            assert forall|a: int, b: int| 0 <= a < b < init.len() implies init[a].0 != init[b].0 by {
                assert(init[a] == s[a] && init[b] == s[b]);
            }
        }
        lemma_entries_map_value(init, i);
        assert(s[i].0 != s[s.len() - 1].0);
    }
}

proof fn lemma_entries_map_remove<V>(s: Seq<(Seq<char>, V)>, i: int)
    requires
        keys_unique(s),
        0 <= i < s.len(),
    ensures
        entries_map(s.remove(i)) =~= entries_map(s).remove(s[i].0),
        keys_unique(s.remove(i)),
    decreases s.len(),
{
    let init = s.drop_last();
    let last = s.last();
    assert(keys_unique(init)) by {
        assert forall|a: int, b: int| 0 <= a < b < init.len() implies init[a].0 != init[b].0 by {
            assert(init[a] == s[a] && init[b] == s[b]);
        }
    }
    if i == s.len() - 1 {
        assert(s.remove(i) =~= init);
        if entries_map(init).contains_key(last.0) {
            lemma_entries_map_contains(init, last.0);
            let j = choose|j: int| 0 <= j < init.len() && #[trigger] init[j].0 == last.0;
            assert(s[j].0 == s[s.len() - 1].0);
        }
    } else {
        lemma_entries_map_remove(init, i);
        assert(s.remove(i) =~= init.remove(i).push(last));
        assert(s.remove(i).drop_last() =~= init.remove(i));
        assert(s[i].0 != last.0);
    }
    assert(keys_unique(s.remove(i))) by {
        let r = s.remove(i);
        assert forall|a: int, b: int| 0 <= a < b < r.len() implies r[a].0 != r[b].0 by {
            let sa = if a < i { a } else { a + 1 };
            let sb = if b < i { b } else { b + 1 };
            assert(r[a] == s[sa] && r[b] == s[sb]);
        }
    }
}

/// Values stored by peer address.
pub struct AddrMap<V> {
    entries: Vec<(String, V)>,
}

impl<V> AddrMap<V> {
    pub closed spec fn keyed(&self) -> Seq<(Seq<char>, V)> {
        self.entries@.map_values(|e: (String, V)| (e.0@, e.1))
    }

    pub closed spec fn wf(&self) -> bool {
        keys_unique(self.keyed())
    }

    pub closed spec fn view(&self) -> Map<Seq<char>, V> {
        entries_map(self.keyed())
    }

    pub fn new() -> (r: Self)
        ensures
            r.wf(),
            r.view() == Map::<Seq<char>, V>::empty(),
    {
        let r = AddrMap { entries: Vec::new() };
        assert(r.keyed() =~= Seq::<(Seq<char>, V)>::empty());
        r
    }

    fn find(&self, key: &str) -> (r: Option<usize>)
        requires
            self.wf(),
        ensures
            match r {
                Some(i) => i < self.entries@.len() && self.keyed()[i as int].0 == key@,
                None => !self.view().contains_key(key@),
            },
    {
        let k = key.to_owned();
        let mut i: usize = 0;
        while i < self.entries.len()
            invariant
                0 <= i <= self.entries@.len(),
                k@ == key@,
                forall|j: int| 0 <= j < i ==> #[trigger] self.keyed()[j].0 != key@,
            decreases self.entries@.len() - i,
        {
            if self.entries[i].0 == k {
                return Some(i);
            }
            i = i + 1;
        }
        proof {
            lemma_entries_map_contains(self.keyed(), key@);
        }
        None
    }

    pub fn contains(&self, key: &str) -> (r: bool)
        requires
            self.wf(),
        ensures
            r == self.view().contains_key(key@),
    {
        match self.find(key) {
            Some(i) => {
                proof {
                    lemma_entries_map_value(self.keyed(), i as int);
                }
                true
            },
            None => false,
        }
    }

    pub fn get(&self, key: &str) -> (r: Option<&V>)
        requires
            self.wf(),
        ensures
            r == (if self.view().contains_key(key@) {
                Some(&self.view()[key@])
            } else {
                None
            }),
    {
        match self.find(key) {
            Some(i) => {
                proof {
                    lemma_entries_map_value(self.keyed(), i as int);
                }
                Some(&self.entries[i].1)
            },
            None => None,
        }
    }

    pub fn remove(&mut self, key: &str) -> (r: Option<V>)
        requires
            old(self).wf(),
        ensures
            final(self).wf(),
            final(self).view() == old(self).view().remove(key@),
            r == (if old(self).view().contains_key(key@) {
                Some(old(self).view()[key@])
            } else {
                None
            }),
    {
        match self.find(key) {
            Some(i) => {
                proof {
                    lemma_entries_map_value(self.keyed(), i as int);
                    lemma_entries_map_remove(self.keyed(), i as int);
                }
                let ghost before = self.keyed();
                let e = self.entries.remove(i);
                assert(self.keyed() =~= before.remove(i as int));
                Some(e.1)
            },
            None => {
                assert(self.view().remove(key@) =~= self.view());
                None
            },
        }
    }

    pub fn insert(&mut self, key: &str, value: V)
        requires
            old(self).wf(),
        ensures
            final(self).wf(),
            final(self).view() == old(self).view().insert(key@, value),
    {
        self.remove(key);
        let ghost before = self.keyed();
        let k = key.to_owned();
        self.entries.push((k, value));
        proof {
            assert(self.keyed() =~= before.push((key@, value)));
            assert(self.keyed().drop_last() =~= before);
            if exists|j: int| 0 <= j < before.len() && #[trigger] before[j].0 == key@ {
                lemma_entries_map_contains(before, key@);
            }
            assert(keys_unique(self.keyed())) by {
                let s = self.keyed();
                assert forall|a: int, b: int| 0 <= a < b < s.len() implies s[a].0 != s[b].0 by {
                    if b == s.len() - 1 {
                        assert(s[a] == before[a]);
                    } else {
                        assert(s[a] == before[a] && s[b] == before[b]);
                    }
                }
            }
        }
        assert(self.view() =~= old(self).view().insert(key@, value));
    }
}

} // verus!
