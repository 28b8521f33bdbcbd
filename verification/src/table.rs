//! A string-keyed table that remembers insertion order.
//!
//! No key occurs twice, so the table is a finite map; the order of the
//! entries is the order in which their keys first arrived.

use vstd::prelude::*;
use crate::text::same_text;

verus! {

/// Values under string keys, in the order in which the keys arrived.
#[derive(Debug)]
pub struct Table<V> {
    pub(crate) entries: Vec<(String, V)>,
}

impl<V> View for Table<V> {
    type V = Map<Seq<char>, V>;

    /// The table as a finite map from key text to value.
    open spec fn view(&self) -> Map<Seq<char>, V> {
        Map::new(|k: Seq<char>| self.keys().contains(k), |k: Seq<char>| self.value_of(k))
    }
}

impl<V> Table<V> {
    /// The keys, in insertion order.
    pub closed spec fn keys(&self) -> Seq<Seq<char>> {
        Seq::new(self.entries@.len(), |i: int| self.entries@[i].0@)
    }

    /// The values, in the order of their keys.
    pub closed spec fn values(&self) -> Seq<V> {
        Seq::new(self.entries@.len(), |i: int| self.entries@[i].1)
    }

    /// The value that stands at the position of `key`.
    pub open spec fn value_of(&self, key: Seq<char>) -> V
        recommends
            self.keys().contains(key),
    {
        self.values()[self.keys().index_of(key)]
    }

    /// Every key occurs once.
    #[verifier::type_invariant]
    pub closed spec fn wf(&self) -> bool {
        self.keys().no_duplicates()
    }

    /// Each key maps to the value at its own position, and to no other.
    pub proof fn lemma_entries(&self)
        requires
            self.wf(),
        ensures
            self.keys().len() == self.values().len(),
            self.keys().no_duplicates(),
            self@.dom().finite(),
            forall|i: int|
                0 <= i < self.keys().len() ==> self@.contains_key(#[trigger] self.keys()[i])
                    && self@[self.keys()[i]] == self.values()[i],
            forall|k: Seq<char>| self@.contains_key(k) <==> self.keys().contains(k),
    {
        assert forall|i: int| 0 <= i < self.keys().len() implies self@.contains_key(
            #[trigger] self.keys()[i],
        ) && self@[self.keys()[i]] == self.values()[i] by {
            let k = self.keys()[i];
            assert(self.keys().contains(k));
            assert(self.keys().index_of(k) == i);
        }
        assert(self@.dom() =~= self.keys().to_set());
        vstd::seq_lib::seq_to_set_is_finite(self.keys());
    }

    /// A stored value is structurally smaller than the table that holds it.
    pub proof fn lemma_value_smaller(&self, i: int)
        requires
            0 <= i < self.values().len(),
        ensures
            decreases_to!(*self => self.values()[i]),
    {
        assert(decreases_to!(self.entries => self.entries@[i]));
    }

    /// The value under a key is structurally smaller than the table.
    pub proof fn lemma_value_of_smaller(&self, key: Seq<char>)
        requires
            self.keys().contains(key),
        ensures
            decreases_to!(*self => self.value_of(key)),
    {
        self.lemma_value_smaller(self.keys().index_of(key));
    }

    /// An empty table.
    pub fn new() -> (table: Self)
        ensures
            table.wf(),
            table.keys() == Seq::<Seq<char>>::empty(),
            table.values() == Seq::<V>::empty(),
            table@ == Map::<Seq<char>, V>::empty(),
    {
        let table = Table { entries: Vec::new() };
        assert(table.keys() =~= Seq::<Seq<char>>::empty());
        assert(table.values() =~= Seq::<V>::empty());
        assert(table@ =~= Map::<Seq<char>, V>::empty());
        table
    }

    /// The number of entries.
    pub fn len(&self) -> (n: usize)
        ensures
            self.wf(),
            n == self.keys().len(),
            n == self.values().len(),
    {
        proof {
            use_type_invariant(self);
        }
        self.entries.len()
    }

    /// The position of `key` among the keys, if it is one.
    pub fn position(&self, key: &str) -> (found: Option<usize>)
        ensures
            self.wf(),
            match found {
                Some(i) => i < self.keys().len() && self.keys()[i as int] == key@,
                None => !self.keys().contains(key@),
            },
    {
        proof {
            use_type_invariant(self);
        }
        let mut i: usize = 0;
        while i < self.entries.len()
            invariant
                self.wf(),
                i <= self.entries.len(),
                forall|j: int| 0 <= j < i ==> self.entries@[j].0@ != key@,
            decreases self.entries.len() - i,
        {
            if same_text(self.entries[i].0.as_str(), key) {
                return Some(i);
            }
            i = i + 1;
        }
        None
    }

    /// The key at position `i`.
    pub fn key_at(&self, i: usize) -> (key: &String)
        requires
            i < self.keys().len(),
        ensures
            key@ == self.keys()[i as int],
    {
        &self.entries[i].0
    }

    /// The value at position `i`.
    pub fn value_at(&self, i: usize) -> (value: &V)
        requires
            i < self.values().len(),
        ensures
            *value == self.values()[i as int],
    {
        &self.entries[i].1
    }

    /// The value stored under `key`, if there is one.
    pub fn get(&self, key: &str) -> (found: Option<&V>)
        ensures
            self.wf(),
            match found {
                Some(value) => self@.contains_key(key@) && *value == self@[key@],
                None => !self@.contains_key(key@),
            },
    {
        match self.position(key) {
            Some(i) => {
                proof {
                    self.lemma_entries();
                }
                Some(&self.entries[i].1)
            },
            None => None,
        }
    }

    /// Whether `key` has an entry.
    pub fn contains_key(&self, key: &str) -> (present: bool)
        ensures
            present == self@.contains_key(key@),
    {
        self.position(key).is_some()
    }

    /// Appends an entry whose key the table does not hold yet.
    pub(crate) fn insert_fresh(&mut self, key: String, value: V)
        requires
            !old(self).keys().contains(key@),
        ensures
            final(self).wf(),
            final(self).keys() == old(self).keys().push(key@),
            final(self).values() == old(self).values().push(value),
    {
        proof {
            use_type_invariant(&*self);
        }
        let ghost before = *self;
        let mut entries: Vec<(String, V)> = Vec::new();
        std::mem::swap(&mut self.entries, &mut entries);
        entries.push((key, value));
        proof {
            let after = Table { entries };
            assert(after.keys() =~= before.keys().push(key@));
            assert(after.values() =~= before.values().push(value));
        }
        std::mem::swap(&mut self.entries, &mut entries);
    }

    /// Stores `value` under `key`. A key already present keeps its position
    /// and gives up its old value, which is returned; a new key goes last.
    pub fn insert(&mut self, key: String, value: V) -> (previous: Option<V>)
        ensures
            final(self).wf(),
            final(self)@ == old(self)@.insert(key@, value),
            previous == (if old(self)@.contains_key(key@) {
                Some(old(self)@[key@])
            } else {
                None
            }),
            old(self)@.contains_key(key@) ==> final(self).keys() == old(self).keys(),
            old(self)@.contains_key(key@) ==> final(self).values() == old(self).values().update(
                old(self).keys().index_of(key@),
                value,
            ),
            !old(self)@.contains_key(key@) ==> final(self).keys() == old(self).keys().push(key@)
                && final(self).values() == old(self).values().push(value),
    {
        proof {
            use_type_invariant(&*self);
            self.lemma_entries();
        }
        let ghost before = *self;
        let found = self.position(key.as_str());
        let mut entries: Vec<(String, V)> = Vec::new();
        std::mem::swap(&mut self.entries, &mut entries);
        let previous = match found {
            Some(i) => {
                let mut slot: (String, V) = (key, value);
                std::mem::swap(&mut entries[i], &mut slot);
                Some(slot.1)
            },
            None => {
                entries.push((key, value));
                None
            },
        };
        proof {
            let after = Table { entries };
            if found is Some {
                assert(before.keys().index_of(key@) == found->0);
                assert(after.keys() =~= before.keys());
                assert(after.values() =~= before.values().update(found->0 as int, value));
            } else {
                assert(after.keys() =~= before.keys().push(key@));
                assert(after.values() =~= before.values().push(value));
            }
            after.lemma_entries();
            let wanted = before@.insert(key@, value);
            assert forall|x: Seq<char>| after@.contains_key(x) implies wanted.contains_key(x)
                && after@[x] == wanted[x] by {
                let i = after.keys().index_of(x);
                assert(after.keys()[i] == x);
                if x != key@ {
                    assert(before.keys()[i] == x);
                }
            }
            assert forall|x: Seq<char>| wanted.contains_key(x) implies after@.contains_key(x) by {
                if x != key@ {
                    let i = before.keys().index_of(x);
                    assert(after.keys()[i] == x);
                } else if found is Some {
                    assert(after.keys()[found->0 as int] == x);
                } else {
                    assert(after.keys()[before.keys().len() as int] == x);
                }
            }
            assert(after@ =~= wanted);
        }
        std::mem::swap(&mut self.entries, &mut entries);
        previous
    }
}

} // verus!
