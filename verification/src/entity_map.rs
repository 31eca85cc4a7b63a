//! A keyed collection whose keys are minted from a counter that only grows,
//! so that no key is ever used twice.

use vstd::prelude::*;

verus! {

/// Things under keys. A new thing gets the next key of the counter; the
/// entries stand in the order of their keys, and every key lies below the
/// counter.
pub struct EntityMap<T> {
    entries: Vec<(u64, T)>,
    next_key: u64,
}

/// Whether every key is smaller than the keys after it.
pub open spec fn keys_ascend<T>(s: Seq<(u64, T)>) -> bool {
    forall|i: int, j: int| 0 <= i < j < s.len() ==> (#[trigger] s[i]).0 < (#[trigger] s[j]).0
}

/// Whether every key is at least one and below `bound`.
pub open spec fn keys_below<T>(s: Seq<(u64, T)>, bound: u64) -> bool {
    forall|i: int| 0 <= i < s.len() ==> 1 <= (#[trigger] s[i]).0 < bound
}

/// Whether `key` is the key of an entry.
pub open spec fn has_key<T>(s: Seq<(u64, T)>, key: u64) -> bool {
    exists|i: int| 0 <= i < s.len() && (#[trigger] s[i]).0 == key
}

impl<T> View for EntityMap<T> {
    type V = Seq<(u64, T)>;

    closed spec fn view(&self) -> Seq<(u64, T)> {
        self.entries@
    }
}

impl<T> EntityMap<T> {
    /// The key that the next new entry gets.
    pub closed spec fn spec_next_key(&self) -> u64 {
        self.next_key
    }

    /// What holds of every collection: the keys ascend, start at one and
    /// lie below the counter.
    #[verifier::type_invariant]
    pub open spec fn wf(&self) -> bool {
        &&& keys_ascend(self@)
        &&& keys_below(self@, self.spec_next_key())
        &&& self.spec_next_key() >= 1
    }

    /// An empty collection whose first key will be one.
    pub fn new() -> (r: EntityMap<T>)
        ensures
            r@.len() == 0,
            r.spec_next_key() == 1,
            r.wf(),
    {
        EntityMap { entries: Vec::new(), next_key: 1 }
    }

    /// Makes known that the collection is well formed.
    pub fn check(&self)
        ensures
            self.wf(),
    {
        proof {
            use_type_invariant(self);
        }
    }

    /// How many entries there are.
    pub fn len(&self) -> (n: usize)
        ensures
            n == self@.len(),
    {
        self.entries.len()
    }

    /// The key that the next new entry gets.
    pub fn next_key(&self) -> (k: u64)
        ensures
            k == self.spec_next_key(),
            k >= 1,
    {
        proof {
            use_type_invariant(self);
        }
        self.next_key
    }

    /// Adds `value` under the next key and moves the counter on.
    pub fn add(&mut self, value: T)
        requires
            old(self).spec_next_key() < u64::MAX,
        ensures
            final(self)@ == old(self)@.push((old(self).spec_next_key(), value)),
            final(self).spec_next_key() == old(self).spec_next_key() + 1,
            final(self).wf(),
    {
        proof {
            use_type_invariant(&*self);
        }
        let key: u64 = self.next_key;
        let mut entries: Vec<(u64, T)> = Vec::new();
        std::mem::swap(&mut entries, &mut self.entries);
        entries.push((key, value));
        self.next_key = key + 1;
        self.entries = entries;
    }

    /// Moves the counter up to `key` if it is below it.
    pub fn raise_next_key(&mut self, key: u64)
        ensures
            final(self)@ == old(self)@,
            final(self).spec_next_key() == if key > old(self).spec_next_key() {
                key
            } else {
                old(self).spec_next_key()
            },
            final(self).wf(),
    {
        proof {
            use_type_invariant(&*self);
        }
        if key > self.next_key {
            self.next_key = key;
        }
    }

    /// The key of the entry at position `i`.
    pub fn key_at(&self, i: usize) -> (k: u64)
        requires
            i < self@.len(),
        ensures
            k == self@[i as int].0,
    {
        self.entries[i].0
    }

    /// The thing at position `i`.
    pub fn value_at(&self, i: usize) -> (v: &T)
        requires
            i < self@.len(),
        ensures
            *v == self@[i as int].1,
    {
        &self.entries[i].1
    }

    /// Puts `value` in place of the thing at position `i`, under the same key.
    pub fn set_at(&mut self, i: usize, value: T)
        requires
            i < old(self)@.len(),
        ensures
            final(self)@ == old(self)@.update(i as int, (old(self)@[i as int].0, value)),
            final(self).spec_next_key() == old(self).spec_next_key(),
            final(self).wf(),
    {
        proof {
            use_type_invariant(&*self);
        }
        let key: u64 = self.entries[i].0;
        let mut entries: Vec<(u64, T)> = Vec::new();
        std::mem::swap(&mut entries, &mut self.entries);
        entries.set(i, (key, value));
        self.entries = entries;
    }

    /// Takes out the entry at position `i`.
    pub fn remove_at(&mut self, i: usize) -> (r: (u64, T))
        requires
            i < old(self)@.len(),
        ensures
            r == old(self)@[i as int],
            final(self)@ == old(self)@.remove(i as int),
            final(self).spec_next_key() == old(self).spec_next_key(),
            final(self).wf(),
    {
        proof {
            use_type_invariant(&*self);
        }
        let mut entries: Vec<(u64, T)> = Vec::new();
        std::mem::swap(&mut entries, &mut self.entries);
        let r = entries.remove(i);
        self.entries = entries;
        r
    }

    /// The position of the entry with the given key, if there is one.
    pub fn position_of(&self, key: u64) -> (r: Option<usize>)
        ensures
            match r {
                Some(i) => i < self@.len() && self@[i as int].0 == key,
                None => !has_key(self@, key),
            },
    {
        let mut i: usize = 0;
        while i < self.entries.len()
            invariant
                i <= self@.len(),
                forall|j: int| 0 <= j < i ==> (#[trigger] self@[j]).0 != key,
            decreases self@.len() - i,
        {
            if self.entries[i].0 == key {
                return Some(i);
            }
            i += 1;
        }
        None
    }

    /// The thing under the given key, if there is one.
    pub fn get(&self, key: u64) -> (r: Option<&T>)
        ensures
            match r {
                Some(v) => exists|i: int|
                    0 <= i < self@.len() && #[trigger] self@[i] == (key, *v),
                None => !has_key(self@, key),
            },
    {
        match self.position_of(key) {
            Some(i) => {
                assert(self@[i as int] == (key, self@[i as int].1));
                Some(&self.entries[i].1)
            },
            None => None,
        }
    }

    /// Takes out the thing under the given key, if there is one.
    pub fn remove(&mut self, key: u64) -> (r: Option<T>)
        ensures
            final(self).spec_next_key() == old(self).spec_next_key(),
            final(self).wf(),
            match r {
                Some(v) => exists|i: int|
                    0 <= i < old(self)@.len() && #[trigger] old(self)@[i] == (key, v)
                        && final(self)@ == old(self)@.remove(i),
                None => !has_key(old(self)@, key) && final(self)@ == old(self)@,
            },
    {
        proof {
            use_type_invariant(&*self);
        }
        match self.position_of(key) {
            Some(i) => {
                let r = self.remove_at(i);
                Some(r.1)
            },
            None => None,
        }
    }
}

} // verus!
