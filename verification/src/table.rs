//! A small map from names to values, kept as a vector of entries.
use vstd::prelude::*;
use crate::text::chars_eq;

verus! {

/// A map from names (character sequences) to values. Each name occurs in at
/// most one entry; inserting a name that is present replaces its value.
pub struct Table<V: View> {
    entries: Vec<(Vec<char>, V)>,
    contents: Ghost<Map<Seq<char>, V::V>>,
}

impl<V: View> View for Table<V> {
    type V = Map<Seq<char>, V::V>;

    closed spec fn view(&self) -> Map<Seq<char>, V::V> {
        self.contents@
    }
}

impl<V: View> Table<V> {
    /// The entries hold each name once and agree with the map.
    pub closed spec fn wf(&self) -> bool {
        &&& forall|i: int, j: int|
            0 <= i < j < self.entries@.len() ==> self.entries@[i].0@ != self.entries@[j].0@
        &&& forall|i: int|
            0 <= i < self.entries@.len() ==> #[trigger] self.contents@.contains_key(
                self.entries@[i].0@,
            ) && self.contents@[self.entries@[i].0@] == self.entries@[i].1@
        &&& forall|k: Seq<char>|
            #[trigger] self.contents@.contains_key(k) ==> exists|i: int|
                0 <= i < self.entries@.len() && self.entries@[i].0@ == k
    }

    /// The names in entry order.
    pub closed spec fn keys(&self) -> Seq<Seq<char>> {
        self.entries@.map_values(|e: (Vec<char>, V)| e.0@)
    }

    /// An empty table.
    pub fn new() -> (t: Self)
        ensures
            t.wf(),
            t@ == Map::<Seq<char>, V::V>::empty(),
    {
        Table { entries: Vec::new(), contents: Ghost(Map::empty()) }
    }

    /// The number of names.
    pub fn len(&self) -> (n: usize)
        requires
            self.wf(),
        ensures
            n == self@.dom().len(),
            n == self.keys().len(),
    {
        proof { self.lemma_dom_len(); }
        self.entries.len()
    }

    /// The names are distinct and are exactly the keys of the map.
    pub proof fn lemma_dom_len(&self)
        requires
            self.wf(),
        ensures
            self@.dom().len() == self.keys().len(),
            self@.dom() == self.keys().to_set(),
            self.keys().no_duplicates(),
    {
        let ks = self.keys();
        assert(ks.no_duplicates()) by {
            assert forall|i: int, j: int| 0 <= i < ks.len() && 0 <= j < ks.len() && i != j implies ks[i]
                != ks[j] by {
                if i < j {
                } else {
                }
            }
        }
        assert(self@.dom() =~= ks.to_set()) by {
            assert forall|k: Seq<char>| self@.dom().contains(k) implies ks.to_set().contains(k) by {
                let i = choose|i: int| 0 <= i < self.entries@.len() && self.entries@[i].0@ == k;
                assert(ks[i] == k);
            }
            assert forall|k: Seq<char>| ks.to_set().contains(k) implies self@.dom().contains(k) by {
                let i = choose|i: int| 0 <= i < ks.len() && ks[i] == k;
                assert(self@.contains_key(self.entries@[i].0@));
            }
        }
        ks.unique_seq_to_set();
    }

    /// The name of entry `i`.
    pub fn key_at(&self, i: usize) -> (k: &Vec<char>)
        requires
            self.wf(),
            i < self.keys().len(),
        ensures
            k@ == self.keys()[i as int],
            self@.contains_key(k@),
    {
        &self.entries[i].0
    }

    /// The value of entry `i`.
    pub fn value_at(&self, i: usize) -> (v: &V)
        requires
            self.wf(),
            i < self.keys().len(),
        ensures
            self@.contains_key(self.keys()[i as int]),
            v@ == self@[self.keys()[i as int]],
    {
        &self.entries[i].1
    }

    /// The index of the entry named `key`, if any.
    fn find(&self, key: &[char]) -> (r: Option<usize>)
        requires
            self.wf(),
        ensures
            match r {
                Some(i) => i < self.entries@.len() && self.entries@[i as int].0@ == key@,
                None => !self@.contains_key(key@),
            },
    {
        let mut i: usize = 0;
        while i < self.entries.len()
            invariant
                self.wf(),
                i <= self.entries@.len(),
                forall|j: int| 0 <= j < i ==> self.entries@[j].0@ != key@,
            decreases self.entries@.len() - i,
        {
            if chars_eq(self.entries[i].0.as_slice(), key) {
                return Some(i);
            }
            i = i + 1;
        }
        None
    }

    /// The value of `key`, if present.
    pub fn get(&self, key: &[char]) -> (r: Option<&V>)
        requires
            self.wf(),
        ensures
            match r {
                Some(v) => self@.contains_key(key@) && self@[key@] == v@,
                None => !self@.contains_key(key@),
            },
    {
        match self.find(key) {
            Some(i) => {
                assert(self.contents@.contains_key(self.entries@[i as int].0@));
                Some(&self.entries[i].1)
            },
            None => None,
        }
    }

    /// Maps `key` to `value`, replacing any value it had.
    pub fn insert(&mut self, key: Vec<char>, value: V)
        requires
            old(self).wf(),
        ensures
            final(self).wf(),
            final(self)@ == old(self)@.insert(key@, value@),
            old(self)@.contains_key(key@) ==> final(self).keys() == old(self).keys(),
            !old(self)@.contains_key(key@) ==> final(self).keys() == old(self).keys().push(key@),
    {
        let ghost new_map = self.contents@.insert(key@, value@);
        match self.find(key.as_slice()) {
            Some(i) => {
                let ghost old_entries = self.entries@;
                self.entries.set(i, (key, value));
                self.contents = Ghost(new_map);
                assert forall|k: Seq<char>| #[trigger] self.contents@.contains_key(k) implies exists|j: int|
                    0 <= j < self.entries@.len() && self.entries@[j].0@ == k by {
                    if k != self.entries@[i as int].0@ {
                        let j = choose|j: int| 0 <= j < old_entries.len() && old_entries[j].0@ == k;
                        assert(self.entries@[j].0@ == k);
                    }
                }
                assert forall|a: int| 0 <= a < self.entries@.len() implies #[trigger] self.contents@.contains_key(
                    self.entries@[a].0@,
                ) && self.contents@[self.entries@[a].0@] == self.entries@[a].1@ by {
                    if a != i {
                        assert(old_entries[a] == self.entries@[a]);
                        assert(old(self).contents@.contains_key(old_entries[a].0@));
                    }
                }
                assert forall|a: int, b: int| 0 <= a < b < self.entries@.len() implies self.entries@[a].0@
                    != self.entries@[b].0@ by {
                    assert(old_entries[a].0@ != old_entries[b].0@);
                }
                assert(self.keys() =~= old(self).keys());
            },
            None => {
                let ghost old_entries = self.entries@;
                self.entries.push((key, value));
                self.contents = Ghost(new_map);
                assert forall|k: Seq<char>| #[trigger] self.contents@.contains_key(k) implies exists|j: int|
                    0 <= j < self.entries@.len() && self.entries@[j].0@ == k by {
                    if k != self.entries@.last().0@ {
                        let j = choose|j: int| 0 <= j < old_entries.len() && old_entries[j].0@ == k;
                        assert(self.entries@[j].0@ == k);
                    } else {
                        assert(self.entries@[self.entries@.len() - 1].0@ == k);
                    }
                }
                assert forall|a: int| 0 <= a < self.entries@.len() implies #[trigger] self.contents@.contains_key(
                    self.entries@[a].0@,
                ) && self.contents@[self.entries@[a].0@] == self.entries@[a].1@ by {
                    if a < old_entries.len() {
                        assert(old_entries[a] == self.entries@[a]);
                        assert(old(self).contents@.contains_key(old_entries[a].0@));
                    }
                }
                assert forall|a: int, b: int| 0 <= a < b < self.entries@.len() implies self.entries@[a].0@
                    != self.entries@[b].0@ by {
                    if b < old_entries.len() {
                        assert(old_entries[a].0@ != old_entries[b].0@);
                    } else {
                        assert(old(self).contents@.contains_key(old_entries[a].0@));
                    }
                }
                assert(self.keys() =~= old(self).keys().push(self.entries@.last().0@));
            },
        }
    }
}

} // verus!
