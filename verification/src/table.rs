//! A small store of values under addresses.
use vstd::prelude::*;

use crate::address::Address;

verus! {

/// One address and the value stored under it.
struct Slot<V> {
    key: Address,
    value: V,
}

/// Values stored under addresses, at most one to an address.  Its view is
/// the map from each occupied address to its value.
pub struct Table<V> {
    slots: Vec<Slot<V>>,
}

impl<V> View for Table<V> {
    type V = Map<Address, V>;

    closed spec fn view(&self) -> Map<Address, V> {
        Map::new(|key: Address| self.holds(key), |key: Address| self.slots[self.slot_of(key)].value)
    }
}

impl<V> Table<V> {
    /// No address has two slots.
    pub closed spec fn wf(&self) -> bool {
        forall|i: int, j: int|
            0 <= i < j < self.slots.len() ==> self.slots[i].key != self.slots[j].key
    }

    spec fn holds(&self, key: Address) -> bool {
        exists|i: int| 0 <= i < self.slots.len() && #[trigger] self.slots[i].key == key
    }

    spec fn slot_of(&self, key: Address) -> int {
        choose|i: int| 0 <= i < self.slots.len() && #[trigger] self.slots[i].key == key
    }

    proof fn lemma_slot(&self, i: int)
        requires
            self.wf(),
            0 <= i < self.slots.len(),
        ensures
            self.holds(self.slots[i].key),
            self.slot_of(self.slots[i].key) == i,
            self@.contains_key(self.slots[i].key),
            self@[self.slots[i].key] == self.slots[i].value,
    {
        let key = self.slots[i].key;
        assert(self.slots[i].key == key);
        let j = self.slot_of(key);
        assert(0 <= j < self.slots.len() && self.slots[j].key == key);
        if j < i {
            assert(self.slots[j].key != self.slots[i].key);
        } else if i < j {
            assert(self.slots[i].key != self.slots[j].key);
        }
    }

    /// An empty table.
    pub fn new() -> (t: Table<V>)
        ensures
            t.wf(),
            t@ == Map::<Address, V>::empty(),
    {
        let t = Table { slots: Vec::new() };
        assert(t@ =~= Map::<Address, V>::empty());
        t
    }

    fn position(&self, key: &Address) -> (r: Option<usize>)
        requires
            self.wf(),
        ensures
            match r {
                Some(i) => i < self.slots.len() && self.slots[i as int].key == *key
                    && self@.contains_key(*key) && self@[*key] == self.slots[i as int].value,
                None => !self@.contains_key(*key) && !self.holds(*key),
            },
    {
        let mut i: usize = 0;
        while i < self.slots.len()
            invariant
                self.wf(),
                i <= self.slots.len(),
                forall|j: int| 0 <= j < i ==> self.slots[j].key != *key,
            decreases self.slots.len() - i,
        {
            if self.slots[i].key == *key {
                proof {
                    self.lemma_slot(i as int);
                }
                return Some(i);
            }
            i = i + 1;
        }
        None
    }

    /// Whether a value is stored under `key`.
    pub fn contains(&self, key: &Address) -> (r: bool)
        requires
            self.wf(),
        ensures
            r == self@.contains_key(*key),
    {
        self.position(key).is_some()
    }

    /// The value stored under `key`, if there is one.
    pub fn get(&self, key: &Address) -> (r: Option<&V>)
        requires
            self.wf(),
        ensures
            match r {
                Some(value) => self@.contains_key(*key) && *value == self@[*key],
                None => !self@.contains_key(*key),
            },
    {
        match self.position(key) {
            Some(i) => Some(&self.slots[i].value),
            None => None,
        }
    }

    /// Stores `value` under `key`, in place of what was stored there.
    pub fn put(&mut self, key: Address, value: V)
        requires
            old(self).wf(),
        ensures
            final(self).wf(),
            final(self)@ == old(self)@.insert(key, value),
    {
        let ghost before = *self;
        match self.position(&key) {
            Some(i) => {
                self.slots[i].value = value;
                proof {
                    self.lemma_put_replaced(before, i as int, key, value);
                }
            },
            None => {
                self.slots.push(Slot { key, value });
                proof {
                    self.lemma_put_appended(before, key, value);
                }
            },
        }
    }

    proof fn lemma_put_replaced(&self, before: Table<V>, i: int, key: Address, value: V)
        requires
            before.wf(),
            0 <= i < before.slots.len(),
            before.slots[i].key == key,
            self.slots@ == before.slots@.update(i, Slot { key, value }),
        ensures
            self.wf(),
            self@ == before@.insert(key, value),
    {
        assert(forall|j: int|
            0 <= j < self.slots.len() ==> #[trigger] self.slots[j].key == before.slots[j].key);
        assert forall|k: Address| self.holds(k) == before.holds(k) by {
            if self.holds(k) {
                let j = self.slot_of(k);
                assert(before.slots[j].key == k);
            }
            if before.holds(k) {
                let j = before.slot_of(k);
                assert(self.slots[j].key == k);
            }
        }
        assert forall|k: Address| self.holds(k) implies #[trigger] self@[k] == before@.insert(
            key,
            value,
        )[k] by {
            let j = self.slot_of(k);
            self.lemma_slot(j);
            before.lemma_slot(j);
        }
        assert(self@ =~= before@.insert(key, value));
    }

    proof fn lemma_put_appended(&self, before: Table<V>, key: Address, value: V)
        requires
            before.wf(),
            !before.holds(key),
            self.slots@ == before.slots@.push(Slot { key, value }),
        ensures
            self.wf(),
            self@ == before@.insert(key, value),
    {
        let n: int = before.slots.len() as int;
        assert(self.slots[n].key == key);
        assert(forall|j: int| 0 <= j < n ==> #[trigger] self.slots[j] == before.slots[j]);
        assert forall|i: int, j: int| 0 <= i < j < self.slots.len() implies self.slots[i].key
            != self.slots[j].key by {
            if j == n {
                assert(before.slots[i].key == self.slots[i].key);
            }
        }
        assert forall|k: Address| self.holds(k) == (before.holds(k) || k == key) by {
            if self.holds(k) {
                let j = self.slot_of(k);
                if j < n {
                    assert(before.slots[j].key == k);
                }
            }
            if before.holds(k) {
                let j = before.slot_of(k);
                assert(self.slots[j].key == k);
            }
        }
        assert forall|k: Address| self.holds(k) implies #[trigger] self@[k] == before@.insert(
            key,
            value,
        )[k] by {
            let j = self.slot_of(k);
            self.lemma_slot(j);
            if j < n {
                before.lemma_slot(j);
            }
        }
        assert(self@ =~= before@.insert(key, value));
    }
}

} // verus!
