//! What the player carries.

use crate::entity_map::EntityMap;
use crate::item::Item;
use vstd::prelude::*;

verus! {

/// The items that the player carries, each under a key that is never used
/// again, up to a capacity.
pub struct Inventory {
    pub items: EntityMap<Item>,
    pub capacity: usize,
}

/// The position of the first entry whose item was last seen under `index`,
/// or the number of entries if there is none.
pub open spec fn position_of_view_index(s: Seq<(u64, Item)>, index: i64) -> int
    decreases s.len(),
{
    if s.len() == 0 || s[0].1.view_index == index {
        0
    } else {
        1 + position_of_view_index(s.skip(1), index)
    }
}

/// `position_of_view_index` is the one position before which no item was
/// seen under `index` and at which one was, if any was.
pub proof fn lemma_position_of_view_index(s: Seq<(u64, Item)>, index: i64, i: int)
    requires
        0 <= i <= s.len(),
        forall|j: int| 0 <= j < i ==> (#[trigger] s[j]).1.view_index != index,
        i == s.len() || s[i].1.view_index == index,
    ensures
        position_of_view_index(s, index) == i,
    decreases i,
{
    if i > 0 {
        let t = s.skip(1);
        assert forall|j: int| 0 <= j < i - 1 implies (#[trigger] t[j]).1.view_index != index by {
            assert(t[j] == s[j + 1]);
        }
        lemma_position_of_view_index(t, index, i - 1);
    }
}

impl Inventory {
    /// An empty inventory with room for one item.
    pub fn new() -> (r: Inventory)
        ensures
            r.items@.len() == 0,
            r.items.spec_next_key() == 1,
            r.capacity == 1,
    {
        Inventory { items: EntityMap::new(), capacity: 1 }
    }

    /// Whether there is room for one more item.
    pub open spec fn spec_can_pickup(&self) -> bool {
        self.items@.len() < self.capacity
    }

    /// Whether there is room for one more item.
    pub fn can_pickup(&self) -> (r: bool)
        ensures
            r == self.spec_can_pickup(),
    {
        self.items.len() < self.capacity
    }

    /// Puts `item` into the inventory under the next key. A full inventory,
    /// or one that has run out of keys, hands the item back and stays as it
    /// was, key counter included.
    pub fn add(&mut self, item: Item) -> (r: Option<Item>)
        ensures
            final(self).capacity == old(self).capacity,
            old(self).spec_can_pickup() && old(self).items.spec_next_key() < u64::MAX ==> {
                &&& r is None
                &&& final(self).items@ == old(self).items@.push(
                    (old(self).items.spec_next_key(), item),
                )
                &&& final(self).items.spec_next_key() == old(self).items.spec_next_key() + 1
            },
            !(old(self).spec_can_pickup() && old(self).items.spec_next_key() < u64::MAX) ==> {
                &&& r == Some(item)
                &&& *final(self) == *old(self)
            },
    {
        if self.can_pickup() && self.items.next_key() < u64::MAX {
            self.items.add(item);
            return None;
        }
        Some(item)
    }

    /// Takes out the first item that was last seen under `index`, if there
    /// is one, and hands it over.
    pub fn drop(&mut self, index: i64) -> (r: Option<Item>)
        ensures
            final(self).capacity == old(self).capacity,
            final(self).items.spec_next_key() == old(self).items.spec_next_key(),
            ({
                let i = position_of_view_index(old(self).items@, index);
                if 0 <= i < old(self).items@.len() {
                    r == Some(old(self).items@[i].1) && final(self).items@ == old(self).items@.remove(
                        i,
                    )
                } else {
                    r is None && *final(self) == *old(self)
                }
            }),
    {
        let n: usize = self.items.len();
        let mut i: usize = 0;
        while i < n
            invariant
                *self == *old(self),
                i <= n == self.items@.len(),
                forall|j: int| 0 <= j < i ==> (#[trigger] self.items@[j]).1.view_index != index,
            decreases n - i,
        {
            if self.items.value_at(i).view_index == index {
                proof {
                    lemma_position_of_view_index(self.items@, index, i as int);
                }
                let removed = self.items.remove_at(i);
                return Some(removed.1);
            }
            i += 1;
        }
        proof {
            lemma_position_of_view_index(self.items@, index, n as int);
        }
        None
    }

    /// The items, in the order of their keys.
    pub fn list(&self) -> (r: Vec<&Item>)
        ensures
            r@.len() == self.items@.len(),
            forall|i: int| 0 <= i < r@.len() ==> *r@[i] == (#[trigger] self.items@[i]).1,
    {
        let mut out: Vec<&Item> = Vec::new();
        let n: usize = self.items.len();
        let mut i: usize = 0;
        while i < n
            invariant
                i <= n == self.items@.len(),
                out@.len() == i,
                forall|j: int| 0 <= j < i ==> *out@[j] == (#[trigger] self.items@[j]).1,
            decreases n - i,
        {
            out.push(self.items.value_at(i));
            i += 1;
        }
        out
    }
}

} // verus!
