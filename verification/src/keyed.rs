//! A map from string keys to values, kept as a vector of entries with
//! distinct keys. Its view is a `Map` from key texts to values; the order of
//! the entries carries no meaning (like the iteration order of a hash map).
use vstd::prelude::*;
use crate::text::str_eq;

verus! {

/// The keys of the entries are pairwise distinct.
pub open spec fn keys_distinct<V>(s: Seq<(String, V)>) -> bool {
    forall|i: int, j: int| 0 <= i < j < s.len() ==> s[i].0@ != s[j].0@
}

/// The map that a sequence of entries stands for (a later entry wins).
pub open spec fn map_of<V>(s: Seq<(String, V)>) -> Map<Seq<char>, V>
    decreases s.len(),
{
    if s.len() == 0 {
        Map::empty()
    } else {
        map_of(s.drop_last()).insert(s.last().0@, s.last().1)
    }
}

/// A key is in the map exactly when some entry carries it.
pub proof fn lemma_map_of_contains<V>(s: Seq<(String, V)>, k: Seq<char>)
    ensures
        map_of(s).contains_key(k) <==> exists|i: int| 0 <= i < s.len() && s[i].0@ == k,
    decreases s.len(),
{
    if s.len() > 0 {
        lemma_map_of_contains(s.drop_last(), k);
        if map_of(s.drop_last()).contains_key(k) {
            let i = choose|i: int| 0 <= i < s.drop_last().len() && s.drop_last()[i].0@ == k;
            assert(s[i].0@ == k);
        }
        if exists|i: int| 0 <= i < s.len() && s[i].0@ == k {
            let i = choose|i: int| 0 <= i < s.len() && s[i].0@ == k;
            if i < s.len() - 1 {
                assert(s.drop_last()[i].0@ == k);
            }
        }
    }
}

/// With distinct keys, the map holds each entry's value under its key.
pub proof fn lemma_map_of_value<V>(s: Seq<(String, V)>, i: int)
    requires
        keys_distinct(s),
        0 <= i < s.len(),
    ensures
        map_of(s).contains_key(s[i].0@),
        map_of(s)[s[i].0@] == s[i].1,
    decreases s.len(),
{
    if i < s.len() - 1 {
        assert(s.drop_last()[i] == s[i]);
        lemma_map_of_value(s.drop_last(), i);
    }
}

/// With distinct keys, the map has one key per entry.
pub proof fn lemma_map_of_len<V>(s: Seq<(String, V)>)
    requires
        keys_distinct(s),
    ensures
        map_of(s).dom().finite(),
        map_of(s).len() == s.len(),
    decreases s.len(),
{
    if s.len() > 0 {
        let t = s.drop_last();
        lemma_map_of_len(t);
        lemma_map_of_contains(t, s.last().0@);
        if map_of(t).contains_key(s.last().0@) {
            let i = choose|i: int| 0 <= i < t.len() && t[i].0@ == s.last().0@;
            assert(s[i].0@ == s[s.len() - 1].0@);
        }
        assert(map_of(s).dom() =~= map_of(t).dom().insert(s.last().0@));
    } else {
        assert(map_of(s).dom() =~= Set::<Seq<char>>::empty());
    }
}

/// Removing the entry at `i` removes its key from the map.
pub proof fn lemma_map_of_remove<V>(s: Seq<(String, V)>, i: int)
    requires
        keys_distinct(s),
        0 <= i < s.len(),
    ensures
        keys_distinct(s.remove(i)),
        map_of(s.remove(i)) =~= map_of(s).remove(s[i].0@),
{
    let r = s.remove(i);
    assert(keys_distinct(r)) by {
        assert forall|a: int, b: int| 0 <= a < b < r.len() implies r[a].0@ != r[b].0@ by {
            let a2 = if a < i {
                a
            } else {
                a + 1
            };
            let b2 = if b < i {
                b
            } else {
                b + 1
            };
            assert(r[a] == s[a2] && r[b] == s[b2]);
        }
    }
    assert forall|k: Seq<char>| #[trigger] map_of(r).contains_key(k) <==> map_of(s).remove(
        s[i].0@,
    ).contains_key(k) by {
        lemma_map_of_contains(r, k);
        lemma_map_of_contains(s, k);
        if exists|j: int| 0 <= j < r.len() && r[j].0@ == k {
            let j = choose|j: int| 0 <= j < r.len() && r[j].0@ == k;
            let j2 = if j < i {
                j
            } else {
                j + 1
            };
            assert(r[j] == s[j2]);
        }
        if map_of(s).remove(s[i].0@).contains_key(k) {
            let j = choose|j: int| 0 <= j < s.len() && s[j].0@ == k;
            assert(j != i);
            let j2 = if j < i {
                j
            } else {
                j - 1
            };
            assert(r[j2] == s[j]);
        }
    }
    assert forall|k: Seq<char>| #[trigger] map_of(r).contains_key(k) implies map_of(r)[k] == map_of(
        s,
    ).remove(s[i].0@)[k] by {
        lemma_map_of_contains(r, k);
        let j = choose|j: int| 0 <= j < r.len() && r[j].0@ == k;
        let j2 = if j < i {
            j
        } else {
            j + 1
        };
        assert(r[j] == s[j2]);
        lemma_map_of_value(r, j);
        lemma_map_of_value(s, j2);
    }
}

/// Replacing the entry at `i` by one with the same key updates that key.
pub proof fn lemma_map_of_update<V>(s: Seq<(String, V)>, i: int, e: (String, V))
    requires
        keys_distinct(s),
        0 <= i < s.len(),
        e.0@ == s[i].0@,
    ensures
        keys_distinct(s.update(i, e)),
        map_of(s.update(i, e)) =~= map_of(s).insert(e.0@, e.1),
{
    let u = s.update(i, e);
    assert(keys_distinct(u)) by {
        assert forall|a: int, b: int| 0 <= a < b < u.len() implies u[a].0@ != u[b].0@ by {
            assert(u[a].0@ == s[a].0@ && u[b].0@ == s[b].0@);
        }
    }
    assert forall|k: Seq<char>| #[trigger] map_of(u).contains_key(k) <==> map_of(s).insert(
        e.0@,
        e.1,
    ).contains_key(k) by {
        lemma_map_of_contains(u, k);
        lemma_map_of_contains(s, k);
        if exists|j: int| 0 <= j < u.len() && u[j].0@ == k {
            let j = choose|j: int| 0 <= j < u.len() && u[j].0@ == k;
            assert(s[j].0@ == k);
        }
        if exists|j: int| 0 <= j < s.len() && s[j].0@ == k {
            let j = choose|j: int| 0 <= j < s.len() && s[j].0@ == k;
            assert(u[j].0@ == k);
        }
    }
    assert forall|k: Seq<char>| #[trigger] map_of(u).contains_key(k) implies map_of(u)[k] == map_of(
        s,
    ).insert(e.0@, e.1)[k] by {
        lemma_map_of_contains(u, k);
        let j = choose|j: int| 0 <= j < u.len() && u[j].0@ == k;
        lemma_map_of_value(u, j);
        if j != i {
            lemma_map_of_value(s, j);
        }
    }
}

/// A map from string keys to values with distinct keys.
pub struct StrMap<V> {
    entries: Vec<(String, V)>,
}

impl<V> View for StrMap<V> {
    type V = Map<Seq<char>, V>;

    closed spec fn view(&self) -> Map<Seq<char>, V> {
        map_of(self.entries@)
    }
}

impl<V> StrMap<V> {
    /// The map's entries: distinct keys in some order.
    pub closed spec fn entries(&self) -> Seq<(String, V)> {
        self.entries@
    }

    /// The entries have distinct keys.
    pub closed spec fn wf(&self) -> bool {
        keys_distinct(self.entries@)
    }

    /// The entries and the map say the same thing.
    pub proof fn lemma_entries(&self)
        requires
            self.wf(),
        ensures
            keys_distinct(self.entries()),
            self@.dom().finite(),
            self@.len() == self.entries().len(),
            forall|i: int|
                0 <= i < self.entries().len() ==> #[trigger] self@.contains_key(
                    self.entries()[i].0@,
                ) && self@[self.entries()[i].0@] == self.entries()[i].1,
            forall|k: Seq<char>|
                #[trigger] self@.contains_key(k) ==> exists|i: int|
                    0 <= i < self.entries().len() && self.entries()[i].0@ == k,
    {
        lemma_map_of_len(self.entries@);
        assert forall|i: int| 0 <= i < self.entries().len() implies #[trigger] self@.contains_key(
            self.entries()[i].0@,
        ) && self@[self.entries()[i].0@] == self.entries()[i].1 by {
            lemma_map_of_value(self.entries@, i);
        }
        assert forall|k: Seq<char>| #[trigger] self@.contains_key(k) implies exists|i: int|
            0 <= i < self.entries().len() && self.entries()[i].0@ == k by {
            lemma_map_of_contains(self.entries@, k);
            let i = choose|i: int| 0 <= i < self.entries@.len() && self.entries@[i].0@ == k;
            assert(self.entries()[i].0@ == k);
        }
    }

    /// An empty map.
    pub fn new() -> (r: Self)
        ensures
            r.wf(),
            r@ == Map::<Seq<char>, V>::empty(),
            r.entries().len() == 0,
    {
        StrMap { entries: Vec::new() }
    }

    /// The number of entries.
    pub fn len(&self) -> (n: usize)
        ensures
            n == self.entries().len(),
    {
        self.entries.len()
    }

    /// The entry at position `i`.
    pub fn entry(&self, i: usize) -> (e: &(String, V))
        requires
            i < self.entries().len(),
        ensures
            *e == self.entries()[i as int],
    {
        &self.entries[i]
    }

    /// The position of the entry for `k`, if any.
    fn find(&self, k: &str) -> (r: Option<usize>)
        requires
            self.wf(),
        ensures
            match r {
                Some(i) => i < self.entries@.len() && self.entries@[i as int].0@ == k@,
                None => !self@.contains_key(k@),
            },
    {
        let mut i: usize = 0;
        while i < self.entries.len()
            invariant
                i <= self.entries@.len(),
                forall|j: int| 0 <= j < i ==> self.entries@[j].0@ != k@,
            decreases self.entries.len() - i,
        {
            if str_eq(self.entries[i].0.as_str(), k) {
                return Some(i);
            }
            i += 1;
        }
        proof {
            lemma_map_of_contains(self.entries@, k@);
        }
        None
    }

    /// The value stored under `k`, if any.
    pub fn get(&self, k: &str) -> (r: Option<&V>)
        requires
            self.wf(),
        ensures
            match r {
                Some(v) => self@.contains_key(k@) && self@[k@] == *v,
                None => !self@.contains_key(k@),
            },
    {
        match self.find(k) {
            Some(i) => {
                proof {
                    lemma_map_of_value(self.entries@, i as int);
                }
                Some(&self.entries[i].1)
            },
            None => None,
        }
    }

    /// Whether `k` has a value.
    pub fn contains_key(&self, k: &str) -> (r: bool)
        requires
            self.wf(),
        ensures
            r == self@.contains_key(k@),
    {
        match self.find(k) {
            Some(i) => {
                proof {
                    lemma_map_of_value(self.entries@, i as int);
                }
                true
            },
            None => false,
        }
    }

    /// Stores `v` under `k`, replacing any earlier value.
    pub fn insert(&mut self, k: String, v: V)
        requires
            old(self).wf(),
        ensures
            final(self).wf(),
            final(self)@ == old(self)@.insert(k@, v),
    {
        match self.find(k.as_str()) {
            Some(i) => {
                let ghost e = (k, v);
                proof {
                    lemma_map_of_update(self.entries@, i as int, e);
                }
                self.entries.set(i, (k, v));
            },
            None => {
                let ghost before = self.entries@;
                proof {
                    lemma_map_of_contains(before, k@);
                }
                self.entries.push((k, v));
                proof {
                    assert(self.entries@.drop_last() =~= before);
                    assert forall|a: int, b: int|
                        0 <= a < b < self.entries@.len() implies self.entries@[a].0@
                        != self.entries@[b].0@ by {
                        if b == self.entries@.len() - 1 {
                            assert(before[a].0@ != k@);
                        } else {
                            assert(self.entries@[a] == before[a] && self.entries@[b] == before[b]);
                        }
                    }
                }
            },
        }
    }

    /// Removes the value stored under `k` and returns it.
    pub fn remove(&mut self, k: &str) -> (r: Option<V>)
        requires
            old(self).wf(),
        ensures
            final(self).wf(),
            final(self)@ == old(self)@.remove(k@),
            match r {
                Some(v) => old(self)@.contains_key(k@) && old(self)@[k@] == v,
                None => !old(self)@.contains_key(k@),
            },
    {
        match self.find(k) {
            Some(i) => {
                proof {
                    lemma_map_of_remove(self.entries@, i as int);
                    lemma_map_of_value(self.entries@, i as int);
                }
                let (_, v) = self.entries.remove(i);
                Some(v)
            },
            None => {
                proof {
                    assert(self@.remove(k@) =~= self@);
                }
                None
            },
        }
    }
}

} // verus!
