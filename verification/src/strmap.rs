//! A map from text keys (instance ids, device names, IP addresses) to values,
//! kept as a list of entries whose keys are pairwise distinct.
use vstd::prelude::*;

verus! {

/// The map that a list of entries with distinct keys denotes.
pub open spec fn entries_map<V>(es: Seq<(String, V)>) -> Map<Seq<char>, V>
    decreases es.len(),
{
    if es.len() == 0 {
        Map::empty()
    } else {
        entries_map(es.drop_last()).insert(es.last().0@, es.last().1)
    }
}

/// No two entries share a key.
pub open spec fn distinct_keys<V>(es: Seq<(String, V)>) -> bool {
    forall|i: int, j: int| 0 <= i < j < es.len() ==> es[i].0@ != es[j].0@
}

pub proof fn lemma_entries_map<V>(es: Seq<(String, V)>)
    requires
        distinct_keys(es),
    ensures
        forall|i: int|
            0 <= i < es.len() ==> #[trigger] entries_map(es).contains_key(es[i].0@)
                && entries_map(es)[es[i].0@] == es[i].1,
        forall|k: Seq<char>|
            #[trigger] entries_map(es).contains_key(k) ==> exists|i: int|
                0 <= i < es.len() && es[i].0@ == k,
    decreases es.len(),
{
    if es.len() > 0 {
        let init = es.drop_last();
        assert(distinct_keys(init));
        lemma_entries_map(init);
        assert forall|i: int| 0 <= i < es.len() implies #[trigger] entries_map(
            es,
        ).contains_key(es[i].0@) && entries_map(es)[es[i].0@] == es[i].1 by {
            if i < es.len() - 1 {
                assert(init[i] == es[i]);
                assert(entries_map(init).contains_key(init[i].0@));
                assert(es[i].0@ != es[es.len() - 1].0@);
            }
        }
        assert forall|k: Seq<char>| #[trigger] entries_map(es).contains_key(k) implies exists|i: int|
            0 <= i < es.len() && es[i].0@ == k by {
            if k != es.last().0@ {
                assert(entries_map(init).contains_key(k));
                let i = choose|i: int| 0 <= i < init.len() && init[i].0@ == k;
                assert(es[i] == init[i]);
            } else {
                assert(es[es.len() - 1].0@ == k);
            }
        }
    }
}

pub proof fn lemma_entries_map_update<V>(es: Seq<(String, V)>, i: int, e: (String, V))
    requires
        distinct_keys(es),
        0 <= i < es.len(),
        e.0@ == es[i].0@,
    ensures
        distinct_keys(es.update(i, e)),
        entries_map(es.update(i, e)) == entries_map(es).insert(e.0@, e.1),
    decreases es.len(),
{
    let es2 = es.update(i, e);
    assert(distinct_keys(es2)) by {
        assert forall|a: int, b: int| 0 <= a < b < es2.len() implies es2[a].0@ != es2[b].0@ by {
            assert(es[a].0@ != es[b].0@);
        }
    }
    if i == es.len() - 1 {
        assert(es2.drop_last() =~= es.drop_last());
        assert(entries_map(es2) =~= entries_map(es).insert(e.0@, e.1));
    } else {
        let init = es.drop_last();
        assert(distinct_keys(init));
        lemma_entries_map_update(init, i, e);
        assert(es2.drop_last() =~= init.update(i, e));
        assert(es.last().0@ != e.0@);
        assert(entries_map(es2) =~= entries_map(es).insert(e.0@, e.1));
    }
}

/// A map from text keys to values.
pub struct StrMap<V> {
    entries: Vec<(String, V)>,
}

impl<V> View for StrMap<V> {
    type V = Map<Seq<char>, V>;

    /// The map itself.
    open spec fn view(&self) -> Map<Seq<char>, V> {
        entries_map(self.entries())
    }
}

impl<V> StrMap<V> {
    #[verifier::type_invariant]
    spec fn inv(self) -> bool {
        distinct_keys(self.entries@)
    }

    /// The entries, in the order the map holds them.
    pub closed spec fn entries(self) -> Seq<(String, V)> {
        self.entries@
    }

    /// The keys, in the order of `entries`.
    pub open spec fn keys_view(self) -> Seq<Seq<char>> {
        self.entries().map_values(|e: (String, V)| e.0@)
    }


    /// An empty map.
    pub fn new() -> (m: Self)
        ensures
            m@ == Map::<Seq<char>, V>::empty(),
            m.entries().len() == 0,
    {
        StrMap { entries: Vec::new() }
    }

    /// The number of entries.
    pub fn len(&self) -> (n: usize)
        ensures
            n == self.entries().len(),
    {
        self.entries.len()
    }

    /// The key and the value of entry `i`; the map holds that value for that key.
    pub fn entry_at(&self, i: usize) -> (kv: (&String, &V))
        requires
            i < self.entries().len(),
        ensures
            *kv.0 == self.entries()[i as int].0,
            *kv.1 == self.entries()[i as int].1,
            self@.contains_key(kv.0@),
            self@[kv.0@] == *kv.1,
    {
        proof {
            use_type_invariant(&*self);
            lemma_entries_map(self.entries@);
        }
        (&self.entries[i].0, &self.entries[i].1)
    }

    /// The position of the entry for `k`, if the map has one.
    pub fn find(&self, k: &str) -> (r: Option<usize>)
        ensures
            r is None <==> !self@.contains_key(k@),
            r matches Some(i) ==> i < self.entries().len() && self.entries()[i as int].0@ == k@,
    {
        proof {
            use_type_invariant(&*self);
            lemma_entries_map(self.entries@);
        }
        let key = k.to_owned();
        let mut i: usize = 0;
        while i < self.entries.len()
            invariant
                i <= self.entries@.len(),
                key@ == k@,
                forall|j: int| 0 <= j < i ==> self.entries@[j].0@ != k@,
            decreases self.entries@.len() - i,
        {
            if self.entries[i].0 == key {
                proof {
                    use_type_invariant(&*self);
                    lemma_entries_map(self.entries@);
                }
                assert(entries_map(self.entries@).contains_key(self.entries@[i as int].0@));
                return Some(i);
            }
            i = i + 1;
        }
        None
    }

    /// The value for `k`, if any.
    pub fn get(&self, k: &str) -> (r: Option<&V>)
        ensures
            r is Some <==> self@.contains_key(k@),
            r matches Some(v) ==> *v == self@[k@],
    {
        proof {
            use_type_invariant(&*self);
            lemma_entries_map(self.entries@);
        }
        match self.find(k) {
            Some(i) => Some(&self.entries[i].1),
            None => None,
        }
    }

    /// Sets the value for `k`, adding an entry when `k` has none.
    pub fn insert(&mut self, k: String, v: V)
        ensures
            final(self)@ == old(self)@.insert(k@, v),
    {
        proof {
            use_type_invariant(&*self);
            lemma_entries_map(self.entries@);
        }
        match self.find(k.as_str()) {
            Some(i) => {
                let ghost es = self.entries@;
                let mut list: Vec<(String, V)> = Vec::new();
                std::mem::swap(&mut list, &mut self.entries);
                let _old = list.remove(i);
                list.insert(i, (k, v));
                proof {
                    assert(list@ =~= es.update(i as int, (k, v)));
                    lemma_entries_map_update(es, i as int, (k, v));
                }
                self.entries = list;
            },
            None => {
                let ghost es = self.entries@;
                proof {
                    assert forall|a: int| 0 <= a < es.len() implies es[a].0@ != k@ by {
                        if es[a].0@ == k@ {
                            assert(entries_map(es).contains_key(es[a].0@));
                        }
                    }
                }
                let mut list: Vec<(String, V)> = Vec::new();
                std::mem::swap(&mut list, &mut self.entries);
                list.push((k, v));
                proof {
                    assert(list@.drop_last() =~= es);
                }
                self.entries = list;
            },
        }
    }

    /// Puts `v` in place of the value for `k` and gives back the value it replaced;
    /// leaves the map as it is when `k` has no entry.
    pub fn swap_value(&mut self, k: &str, v: V) -> (r: Option<V>)
        ensures
            r is Some <==> old(self)@.contains_key(k@),
            r matches Some(prev) ==> prev == old(self)@[k@] && final(self)@ == old(self)@.insert(
                k@,
                v,
            ),
            r is None ==> final(self)@ == old(self)@,
    {
        proof {
            use_type_invariant(&*self);
            lemma_entries_map(self.entries@);
        }
        match self.find(k) {
            Some(i) => {
                let ghost es = self.entries@;
                let mut list: Vec<(String, V)> = Vec::new();
                std::mem::swap(&mut list, &mut self.entries);
                let (key, prev) = list.remove(i);
                list.insert(i, (key, v));
                proof {
                    assert(list@ =~= es.update(i as int, (es[i as int].0, v)));
                    lemma_entries_map_update(es, i as int, (es[i as int].0, v));
                }
                self.entries = list;
                Some(prev)
            },
            None => None,
        }
    }
}

} // verus!
