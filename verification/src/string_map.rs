//! A map from texts to values, kept in the order in which keys were first
//! inserted.
use vstd::prelude::*;

verus! {

/// One key with its value.
#[derive(Debug)]
struct Slot<V> {
    key: String,
    value: V,
}

/// The map itself.
#[derive(Debug)]
pub struct StringMap<V> {
    slots: Vec<Slot<V>>,
}

impl<V> View for StringMap<V> {
    type V = Map<Seq<char>, V>;

    closed spec fn view(&self) -> Map<Seq<char>, V> {
        Map::new(
            |key: Seq<char>| slot_in(self.slots@, key),
            |key: Seq<char>| self.slots@[choose|i: int| slot_has(self.slots@, i, key)].value,
        )
    }
}

/// True when slot `i` is the one of `key`.
spec fn slot_has<V>(slots: Seq<Slot<V>>, i: int, key: Seq<char>) -> bool {
    0 <= i < slots.len() && slots[i].key@ == key
}

/// True when no key has two slots.
spec fn keys_distinct<V>(slots: Seq<Slot<V>>) -> bool {
    forall|i: int, j: int|
        0 <= i < j < slots.len() ==> (#[trigger] slots[i]).key@ != (#[trigger] slots[j]).key@
}

/// True when `keys` are the keys of `map`, each once.
pub open spec fn keys_exact<V>(map: Map<Seq<char>, V>, keys: Seq<Seq<char>>) -> bool {
    &&& keys.no_duplicates()
    &&& forall|key: Seq<char>| #[trigger] map.dom().contains(key) <==> keys.contains(key)
}

impl<V> StringMap<V> {
    #[verifier::type_invariant]
    spec fn wf(self) -> bool {
        keys_distinct(self.slots@)
    }

    /// The keys, in the order in which they were first inserted.
    pub closed spec fn keys(&self) -> Seq<Seq<char>> {
        self.slots@.map_values(|slot: Slot<V>| slot.key@)
    }

    /// The slot of a key is the only one.
    proof fn slot_of_key(self, i: int)
        requires
            self.wf(),
            0 <= i < self.slots.len(),
        ensures
            self@.dom().contains(self.slots@[i].key@),
            self@[self.slots@[i].key@] == self.slots@[i].value,
    {
        let key = self.slots@[i].key@;
        assert(slot_has(self.slots@, i, key));
        let j = choose|j: int| slot_has(self.slots@, j, key);
        assert(slot_has(self.slots@, j, key));
        if i < j {
            assert(self.slots@[i].key@ != self.slots@[j].key@);
        } else if j < i {
            assert(self.slots@[j].key@ != self.slots@[i].key@);
        }
    }

    /// The keys are those of the map, each once.
    proof fn keys_are_exact(self)
        requires
            self.wf(),
        ensures
            keys_exact(self@, self.keys()),
    {
        let keys = self.keys();
        assert forall|i: int, j: int|
            0 <= i < keys.len() && 0 <= j < keys.len() && i != j implies keys[i] != keys[j] by {
            if i < j {
                assert(self.slots@[i].key@ != self.slots@[j].key@);
            } else {
                assert(self.slots@[j].key@ != self.slots@[i].key@);
            }
        }
        assert forall|key: Seq<char>|
            #[trigger] self@.dom().contains(key) <==> keys.contains(key) by {
            if self@.dom().contains(key) {
                let i = choose|i: int| slot_has(self.slots@, i, key);
                assert(keys[i] == key);
            }
            if keys.contains(key) {
                let i = choose|i: int| 0 <= i < keys.len() && keys[i] == key;
                assert(slot_has(self.slots@, i, key));
            }
        }
    }

    /// An empty map.
    pub fn new() -> (map: Self)
        ensures
            map@ == Map::<Seq<char>, V>::empty(),
            map.keys() == Seq::<Seq<char>>::empty(),
            keys_exact(map@, map.keys()),
    {
        let map = StringMap { slots: Vec::new() };
        assert(map@ =~= Map::<Seq<char>, V>::empty()) by {
            assert forall|key: Seq<char>| !map@.dom().contains(key) by {}
        }
        assert(map.keys() =~= Seq::<Seq<char>>::empty());
        map
    }

    /// The number of keys.
    pub fn len(&self) -> (n: usize)
        ensures
            n == self.keys().len(),
            keys_exact(self@, self.keys()),
    {
        proof {
            use_type_invariant(self);
            self.keys_are_exact();
        }
        self.slots.len()
    }

    /// The key that was first inserted as number `i`.
    pub fn key_at(&self, i: usize) -> (key: &String)
        requires
            i < self.keys().len(),
        ensures
            key@ == self.keys()[i as int],
    {
        &self.slots[i].key
    }

    /// The value of the key that was first inserted as number `i`.
    pub fn value_at(&self, i: usize) -> (value: &V)
        requires
            i < self.keys().len(),
        ensures
            self@.dom().contains(self.keys()[i as int]),
            *value == self@[self.keys()[i as int]],
    {
        proof {
            use_type_invariant(self);
            self.slot_of_key(i as int);
        }
        &self.slots[i].value
    }

    /// The position of `key`, if it is there.
    fn position(slots: &Vec<Slot<V>>, key: &String) -> (r: Option<usize>)
        ensures
            match r {
                Some(i) => slot_has(slots@, i as int, key@),
                None => forall|i: int| !#[trigger] slot_has(slots@, i, key@),
            },
    {
        let mut i: usize = 0;
        while i < slots.len()
            invariant
                i <= slots.len(),
                forall|j: int| 0 <= j < i ==> !#[trigger] slot_has(slots@, j, key@),
            decreases slots.len() - i,
        {
            if slots[i].key == *key {
                return Some(i);
            }
            i = i + 1;
        }
        None
    }

    /// The value of `key`, if it is there.
    pub fn get(&self, key: &String) -> (value: Option<&V>)
        ensures
            value == if self@.dom().contains(key@) {
                Some(&self@[key@])
            } else {
                None
            },
    {
        proof {
            use_type_invariant(self);
        }
        match Self::position(&self.slots, key) {
            Some(i) => {
                proof {
                    self.slot_of_key(i as int);
                }
                Some(&self.slots[i].value)
            },
            None => None,
        }
    }

    /// Gives `key` the value `value`, in place of the one it had. A new key goes
    /// last.
    pub fn insert(&mut self, key: String, value: V)
        ensures
            final(self)@ == old(self)@.insert(key@, value),
            final(self).keys() == if old(self)@.dom().contains(key@) {
                old(self).keys()
            } else {
                old(self).keys().push(key@)
            },
            keys_exact(old(self)@, old(self).keys()),
            keys_exact(final(self)@, final(self).keys()),
    {
        proof {
            use_type_invariant(&*self);
            self.keys_are_exact();
        }
        let ghost before = *self;
        let ghost name = key@;
        let mut slots: Vec<Slot<V>> = Vec::new();
        std::mem::swap(&mut slots, &mut self.slots);
        let ghost old_slots = slots@;
        match Self::position(&slots, &key) {
            Some(i) => {
                slots.set(i, Slot { key, value });
                assert(slots@[i as int].key@ == name);
                assert(keys_distinct(slots@)) by {
                    assert forall|a: int, b: int| 0 <= a < b < slots@.len() implies (
                    #[trigger] slots@[a]).key@ != (#[trigger] slots@[b]).key@ by {
                        assert(old_slots[a].key@ != old_slots[b].key@);
                    }
                }
                self.slots = slots;
                proof {
                    before.slot_of_key(i as int);
                    self.slot_of_key(i as int);
                    assert(self.keys() =~= before.keys());
                }
            },
            None => {
                slots.push(Slot { key, value });
                assert(keys_distinct(slots@)) by {
                    assert forall|a: int, b: int| 0 <= a < b < slots@.len() implies (
                    #[trigger] slots@[a]).key@ != (#[trigger] slots@[b]).key@ by {
                        if b < old_slots.len() {
                            assert(old_slots[a].key@ != old_slots[b].key@);
                        } else {
                            assert(!slot_has(old_slots, a, name));
                        }
                    }
                }
                self.slots = slots;
                proof {
                    self.slot_of_key(self.slots@.len() - 1);
                    assert(self.keys() =~= before.keys().push(name));
                }
            },
        }
        proof {
            let now = *self;
            assert forall|k: Seq<char>| now@.dom().contains(k) <==> before@.insert(
                name,
                value,
            ).dom().contains(k) by {
                if slot_in(now.slots@, k) {
                    let i = choose|i: int| slot_has(now.slots@, i, k);
                    if k != name {
                        assert(slot_has(before.slots@, i, k));
                    }
                }
                if slot_in(before.slots@, k) {
                    let i = choose|i: int| slot_has(before.slots@, i, k);
                    assert(slot_has(now.slots@, i, k));
                }
                if k == name && !slot_in(before.slots@, k) {
                    assert(slot_has(now.slots@, now.slots@.len() - 1, k));
                }
            }
            assert forall|k: Seq<char>| now@.dom().contains(k) implies now@[k] == before@.insert(
                name,
                value,
            )[k] by {
                let i = choose|i: int| slot_has(now.slots@, i, k);
                now.slot_of_key(i);
                if k != name {
                    assert(slot_has(before.slots@, i, k));
                    before.slot_of_key(i);
                }
            }
            assert(now@ =~= before@.insert(name, value));
            now.keys_are_exact();
        }
    }

    /// Removes the key at position `i` with its value.
    pub fn remove_at(&mut self, i: usize)
        requires
            i < old(self).keys().len(),
        ensures
            final(self)@ == old(self)@.remove(old(self).keys()[i as int]),
            final(self).keys() == old(self).keys().remove(i as int),
            keys_exact(final(self)@, final(self).keys()),
    {
        proof {
            use_type_invariant(&*self);
        }
        let ghost before = *self;
        let mut slots: Vec<Slot<V>> = Vec::new();
        std::mem::swap(&mut slots, &mut self.slots);
        let ghost old_slots = slots@;
        let _ = slots.remove(i);
        assert(slots@ =~= old_slots.remove(i as int));
        assert(keys_distinct(slots@)) by {
            assert forall|a: int, b: int| 0 <= a < b < slots@.len() implies (
            #[trigger] slots@[a]).key@ != (#[trigger] slots@[b]).key@ by {
                let (c, d) = (if a < i { a } else { a + 1 }, if b < i { b } else { b + 1 });
                assert(old_slots[c].key@ != old_slots[d].key@);
            }
        }
        self.slots = slots;
        proof {
            let now = *self;
            let name = before.slots@[i as int].key@;
            assert(now.keys() =~= before.keys().remove(i as int));
            assert forall|k: Seq<char>| now@.dom().contains(k) <==> before@.remove(
                name,
            ).dom().contains(k) by {
                if slot_in(now.slots@, k) {
                    let a = choose|a: int| slot_has(now.slots@, a, k);
                    let c = if a < i { a } else { a + 1 };
                    assert(slot_has(before.slots@, c, k));
                    if k == name {
                        if c < i {
                            assert(before.slots@[c].key@ != before.slots@[i as int].key@);
                        } else {
                            assert(before.slots@[i as int].key@ != before.slots@[c].key@);
                        }
                    }
                }
                if slot_in(before.slots@, k) && k != name {
                    let a = choose|a: int| slot_has(before.slots@, a, k);
                    let c = if a < i { a } else { a - 1 };
                    assert(slot_has(now.slots@, c, k));
                }
            }
            assert forall|k: Seq<char>| now@.dom().contains(k) implies now@[k] == before@[k] by {
                let a = choose|a: int| slot_has(now.slots@, a, k);
                let c = if a < i { a } else { a + 1 };
                now.slot_of_key(a);
                before.slot_of_key(c);
            }
            assert(now@ =~= before@.remove(name));
            now.keys_are_exact();
        }
    }
}

/// True when some slot is the one of `key`.
spec fn slot_in<V>(slots: Seq<Slot<V>>, key: Seq<char>) -> bool {
    exists|i: int| slot_has(slots, i, key)
}

} // verus!
