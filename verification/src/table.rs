//! A table from text keys to values, kept in the order in which the keys
//! first came.

use vstd::prelude::*;

verus! {

/// A finite map from strings to values of `V`. No key occurs twice; putting a
/// value under a key that is there replaces the value and keeps the key's
/// place.
#[derive(Debug)]
pub struct Table<V> {
    slots: Vec<(String, V)>,
}

impl<V> Table<V> {
    /// The keys and values in the order in which the keys first came.
    pub closed spec fn entries(&self) -> Seq<(Seq<char>, V)> {
        Seq::new(self.slots@.len(), |i: int| (self.slots@[i].0@, self.slots@[i].1))
    }

    /// No key occurs twice. This holds of every table that a program holds.
    #[verifier::type_invariant]
    pub open spec fn well_formed(&self) -> bool {
        forall|i: int, j: int|
            0 <= i < j < self.entries().len() ==> self.entries()[i].0 != self.entries()[j].0
    }

    /// Whether `key` has an entry.
    pub open spec fn has(&self, key: Seq<char>) -> bool {
        exists|i: int| 0 <= i < self.entries().len() && #[trigger] self.entries()[i].0 == key
    }

    /// The place of `key` among the entries, for a key that has one.
    pub open spec fn place(&self, key: Seq<char>) -> int {
        choose|i: int| 0 <= i < self.entries().len() && #[trigger] self.entries()[i].0 == key
    }

    /// The table as a map.
    pub open spec fn view(&self) -> Map<Seq<char>, V> {
        Map::new(|k: Seq<char>| self.has(k), |k: Seq<char>| self.entries()[self.place(k)].1)
    }

    /// In a well-formed table the entry at place `i` is what the map holds
    /// under that entry's key.
    pub proof fn lemma_entry(&self, i: int)
        requires
            self.well_formed(),
            0 <= i < self.entries().len(),
        ensures
            self.has(self.entries()[i].0),
            self.place(self.entries()[i].0) == i,
            self@.contains_key(self.entries()[i].0),
            self@[self.entries()[i].0] == self.entries()[i].1,
    {
        let k = self.entries()[i].0;
        assert(self.has(k));
        let j = self.place(k);
        assert(0 <= j < self.entries().len() && self.entries()[j].0 == k);
        if j < i {
            assert(self.entries()[j].0 != self.entries()[i].0);
        }
        if i < j {
            assert(self.entries()[i].0 != self.entries()[j].0);
        }
    }

    /// An empty table.
    pub fn new() -> (r: Self)
        ensures
            r.entries() == Seq::<(Seq<char>, V)>::empty(),
            r@ == Map::<Seq<char>, V>::empty(),
    {
        let r = Table { slots: Vec::new() };
        assert(r.entries() =~= Seq::<(Seq<char>, V)>::empty());
        assert(r@ =~= Map::<Seq<char>, V>::empty());
        r
    }

    /// The number of entries.
    pub fn len(&self) -> (n: usize)
        ensures
            n == self.entries().len(),
    {
        self.slots.len()
    }

    /// The key and the value at place `i`.
    pub fn entry(&self, i: usize) -> (r: (&str, &V))
        requires
            i < self.entries().len(),
        ensures
            r.0@ == self.entries()[i as int].0,
            *r.1 == self.entries()[i as int].1,
    {
        let slot = &self.slots[i];
        (slot.0.as_str(), &slot.1)
    }

    /// The place of `key`, if it has one.
    pub fn find(&self, key: &str) -> (r: Option<usize>)
        ensures
            match r {
                Some(i) => i < self.entries().len() && self.entries()[i as int].0 == key@
                    && self.has(key@) && self.place(key@) == i,
                None => !self.has(key@),
            },
    {
        proof {
            use_type_invariant(self);
        }
        let wanted = String::from_str(key);
        let mut i: usize = 0;
        while i < self.slots.len()
            invariant
                self.well_formed(),
                i <= self.slots@.len(),
                wanted@ == key@,
                self.entries().len() == self.slots@.len(),
                forall|k: int| 0 <= k < i ==> self.entries()[k].0 != key@,
            decreases self.slots@.len() - i,
        {
            if self.slots[i].0 == wanted {
                proof {
                    assert(self.entries()[i as int].0 == key@);
                    self.lemma_entry(i as int);
                }
                return Some(i);
            }
            i = i + 1;
        }
        None
    }

    /// The value under `key`, if there is one.
    pub fn get(&self, key: &str) -> (r: Option<&V>)
        ensures
            match r {
                Some(v) => self@.contains_key(key@) && *v == self@[key@],
                None => !self@.contains_key(key@),
            },
    {
        match self.find(key) {
            Some(i) => Some(&self.slots[i].1),
            None => None,
        }
    }

    /// Puts `value` under `key`. A key that is there keeps its place and gets
    /// the new value; a new key comes last.
    pub fn insert(&mut self, key: &str, value: V)
        ensures
            final(self)@ == old(self)@.insert(key@, value),
            old(self).has(key@) ==> final(self).entries() == old(self).entries().update(
                old(self).place(key@),
                (key@, value),
            ),
            !old(self).has(key@) ==> final(self).entries() == old(self).entries().push(
                (key@, value),
            ),
    {
        proof {
            use_type_invariant(&*self);
        }
        let ghost before = *self;
        let found = self.find(key);
        let mut taken = Table::new();
        std::mem::swap(self, &mut taken);
        let mut slots = taken.slots;
        match found {
            Some(i) => {
                slots.set(i, (String::from_str(key), value));
            },
            None => {
                slots.push((String::from_str(key), value));
            },
        }
        let ghost after_entries = Seq::new(slots@.len(), |i: int| (slots@[i].0@, slots@[i].1));
        proof {
            match found {
                Some(i) => {
                    assert(after_entries =~= before.entries().update(i as int, (key@, value)));
                },
                None => {
                    assert(after_entries =~= before.entries().push((key@, value)));
                },
            }
        }
        *self = Table { slots };
        assert(self.entries() == after_entries);
        proof {
            let after = *self;
            assert forall|k: Seq<char>| after.has(k) <==> (k == key@ || before.has(k)) by {
                if after.has(k) {
                    let j = after.place(k);
                    if k != key@ {
                        assert(before.entries()[j].0 == k);
                    }
                }
                if before.has(k) {
                    let j = before.place(k);
                    assert(after.entries()[j].0 == k);
                }
                if k == key@ {
                    match found {
                        Some(i) => {
                            assert(after.entries()[i as int].0 == k);
                        },
                        None => {
                            assert(after.entries()[after.entries().len() - 1].0 == k);
                        },
                    }
                }
            }
            assert forall|k: Seq<char>| after.has(k) implies #[trigger] after@[k] == before@.insert(
                key@,
                value,
            )[k] by {
                let j = after.place(k);
                after.lemma_entry(j);
                if k != key@ {
                    assert(before.entries()[j] == after.entries()[j]);
                    before.lemma_entry(j);
                }
            }
            assert(after@ =~= before@.insert(key@, value));
        }
    }
}

} // verus!
