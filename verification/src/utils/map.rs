//! `SimpleMap`: a map from small `usize` keys to values, with an entry API.
use vstd::prelude::*;

pub mod base;

verus! {

/// A map from small `usize` keys to values (see `base::SimpleMap`).
#[derive(Debug)]
pub struct SimpleMap<V> {
    pub base: base::SimpleMap<V>,
}

/// The slot of one key of a map, reached through `SimpleMap::entry`:
/// existing or missing.
pub enum Entry<'a, V: 'a> {
    Occupied(OccupiedEntry<'a, V>),
    Vacant(VacantEntry<'a, V>),
}

/// The existing slot of `key` in a map.
pub struct OccupiedEntry<'a, V: 'a> {
    pub map: &'a mut base::SimpleMap<V>,
    pub key: usize,
}

/// The missing slot of `key` in a map.
pub struct VacantEntry<'a, V: 'a> {
    pub map: &'a mut base::SimpleMap<V>,
    pub key: usize,
}

impl<V> SimpleMap<V> {
    /// An empty map with room for `capacity` slots.
    pub fn with_capacity(capacity: usize) -> (r: Self)
        ensures
            r.base.slots() == Seq::<Option<V>>::empty(),
    {
        Self { base: base::SimpleMap::with_capacity(capacity) }
    }

    /// An empty map.
    pub fn new() -> (r: Self)
        ensures
            r.base.slots() == Seq::<Option<V>>::empty(),
    {
        Self { base: base::SimpleMap::new() }
    }

    /// The value of `key`, if any.
    pub fn get(&self, key: usize) -> (r: Option<&V>)
        ensures
            r is None <==> self.base.spec_get(key as int) is None,
            r matches Some(v) ==> self.base.spec_get(key as int) == Some(*v),
    {
        self.base.get(key)
    }

    /// The value of `key` to change in place, if any.
    pub fn get_mut(&mut self, key: usize) -> (r: Option<&mut V>)
        ensures
            r is None <==> old(self).base.spec_get(key as int) is None,
            r is None ==> *final(self) == *old(self),
            r matches Some(v) ==> old(self).base.spec_get(key as int) == Some(*v) && final(self).base.slots()
                == old(self).base.slots().update(key as int, Some(*final(v))),
    {
        self.base.get_mut(key)
    }

    /// Whether the slot of `key` exists (it may be empty).
    pub fn contains_key(&self, key: usize) -> (r: bool)
        ensures
            r == (key < self.base.slots().len()),
    {
        self.base.contains_key(key)
    }

    /// Puts `v` in the slot of `k` (see `base::SimpleMap::insert`) and
    /// returns what the slot held.
    pub fn insert(&mut self, k: usize, v: V) -> (r: Option<V>)
        requires
            k < usize::MAX,
        ensures
            final(self).base.slots() == base::spec_insert_slots(old(self).base.slots(), k as int, v),
            r == old(self).base.spec_get(k as int),
    {
        self.base.insert(k, v)
    }

    /// The value of `index`, which must have one.
    pub fn index(&self, index: usize) -> (r: &V)
        requires
            self.base.spec_get(index as int) is Some,
        ensures
            self.base.spec_get(index as int) == Some(*r),
    {
        self.base.index(index)
    }

    /// The value of `index` to change in place, which must have one.
    pub fn index_mut(&mut self, index: usize) -> (r: &mut V)
        requires
            old(self).base.spec_get(index as int) is Some,
        ensures
            old(self).base.spec_get(index as int) == Some(*r),
            final(self).base.slots() == old(self).base.slots().update(index as int, Some(*final(r))),
    {
        self.base.index_mut(index)
    }

    /// Removes every slot.
    pub fn clear(&mut self)
        ensures
            final(self).base.slots() == Seq::<Option<V>>::empty(),
    {
        self.base.clear();
    }

    /// Empties the slot of `k`, returning what it held.
    pub fn remove(&mut self, k: usize) -> (r: Option<V>)
        ensures
            r == old(self).base.spec_get(k as int),
            final(self).base.slots() == (if k < old(self).base.slots().len() {
                old(self).base.slots().update(k as int, None)
            } else {
                old(self).base.slots()
            }),
    {
        self.base.remove(k)
    }

    /// The number of slots the map can hold without reallocating.
    pub fn capacity(&self) -> (r: usize)
        ensures
            r >= self.base.slots().len(),
    {
        self.base.capacity()
    }

    /// The keys whose slots hold a value, in increasing order.
    pub fn keys(&self) -> (r: Vec<usize>)
        ensures
            forall|i: int, j: int| 0 <= i < j < r@.len() ==> r@[i] < r@[j],
            forall|key: usize| #[trigger] r@.contains(key) <==> self.base.spec_get(key as int) is Some,
    {
        self.base.keys()
    }

    /// The slot of `key`: occupied when it exists.
    pub fn entry(&mut self, key: usize) -> (r: Entry<'_, V>)
        ensures
            r is Occupied <==> key < old(self).base.slots().len(),
            r matches Entry::Occupied(e) ==> *e.map == old(self).base && e.key == key && final(self).base == *final(e.map),
            r matches Entry::Vacant(e) ==> *e.map == old(self).base && e.key == key && final(self).base == *final(e.map),
    {
        if self.base.contains_key(key) {
            Entry::Occupied(OccupiedEntry { map: &mut self.base, key })
        } else {
            Entry::Vacant(VacantEntry { map: &mut self.base, key })
        }
    }
}

/// The value of `key` in `map`, to change in place; the slot must hold one.
fn slot_mut<V>(map: &mut base::SimpleMap<V>, key: usize) -> (r: &mut V)
    requires
        old(map).spec_get(key as int) is Some,
    ensures
        old(map).spec_get(key as int) == Some(*r),
        final(map).slots() == old(map).slots().update(key as int, Some(*final(r))),
{
    match map.get_mut(key) {
        Some(v) => v,
        None => vstd::pervasive::unreached(),
    }
}

impl<'a, V> OccupiedEntry<'a, V> {
    /// The value of the slot, to change in place for as long as the map was
    /// borrowed. The slot must hold a value.
    pub fn into_mut(self) -> (r: &'a mut V)
        requires
            self.map.spec_get(self.key as int) is Some,
        ensures
            old(self.map).spec_get(self.key as int) == Some(*r),
            final(self.map).slots() == old(self.map).slots().update(self.key as int, Some(*final(r))),
    {
        slot_mut(self.map, self.key)
    }

    /// The value of the slot, to change in place. The slot must hold a value.
    pub fn get_mut(&mut self) -> (r: &mut V)
        requires
            old(self).map.spec_get(old(self).key as int) is Some,
        ensures
            old(self).map.spec_get(old(self).key as int) == Some(*r),
            final(self).key == old(self).key,
            final(self).map.slots() == old(self).map.slots().update(old(self).key as int, Some(*final(r))),
            *final(final(self).map) == *final(old(self).map),
    {
        slot_mut(self.map, self.key)
    }

    /// The value of the slot. The slot must hold a value.
    pub fn get(&self) -> (r: &V)
        requires
            self.map.spec_get(self.key as int) is Some,
        ensures
            old(self.map).spec_get(self.key as int) == Some(*r),
    {
        match self.map.get(self.key) {
            Some(v) => v,
            None => vstd::pervasive::unreached(),
        }
    }

    /// Puts `value` in the slot (dropping the slots past it, see
    /// `base::SimpleMap::insert`) and returns it to change in place.
    pub fn insert(self, value: V) -> (r: &'a mut V)
        requires
            self.key < usize::MAX,
        ensures
            *r == value,
            final(self.map).slots() == base::spec_insert_slots(old(self.map).slots(), self.key as int, *final(r)),
    {
        let _ = self.map.insert(self.key, value);
        slot_mut(self.map, self.key)
    }

    /// Empties the slot and returns its value. The slot must hold a value.
    pub fn remove(self) -> (r: V)
        requires
            self.map.spec_get(self.key as int) is Some,
        ensures
            old(self.map).spec_get(self.key as int) == Some(r),
            final(self.map).slots() == old(self.map).slots().update(self.key as int, None),
    {
        match self.map.remove(self.key) {
            Some(v) => v,
            None => vstd::pervasive::unreached(),
        }
    }
}

impl<'a, V> VacantEntry<'a, V> {
    /// Puts `value` in the slot (adding empty slots up to it, see
    /// `base::SimpleMap::insert`) and returns it to change in place.
    pub fn insert(self, value: V) -> (r: &'a mut V)
        requires
            self.key < usize::MAX,
        ensures
            *r == value,
            final(self.map).slots() == base::spec_insert_slots(old(self.map).slots(), self.key as int, *final(r)),
    {
        let _ = self.map.insert(self.key, value);
        slot_mut(self.map, self.key)
    }
}

impl<'a, V> Entry<'a, V> {
    /// Whether the entry's slot can be handed out: an occupied slot must
    /// hold a value, a vacant key must leave room for `key + 1` slots.
    pub open spec fn spec_can_hand_out(&self) -> bool {
        match self {
            Entry::Occupied(e) => e.map.spec_get(e.key as int) is Some,
            Entry::Vacant(e) => e.key < usize::MAX,
        }
    }

    /// The value of an occupied slot, or `default` put in a vacant one,
    /// to change in place.
    pub fn or_insert(self, default: V) -> (r: &'a mut V)
        requires
            self.spec_can_hand_out(),
        ensures
            self matches Entry::Occupied(e) ==> e.map.spec_get(e.key as int) == Some(*r)
                && final(e.map).slots() == e.map.slots().update(e.key as int, Some(*final(r))),
            self matches Entry::Vacant(e) ==> *r == default && final(e.map).slots() == base::spec_insert_slots(
                e.map.slots(),
                e.key as int,
                *final(r),
            ),
    {
        match self {
            Entry::Occupied(entry) => entry.into_mut(),
            Entry::Vacant(entry) => entry.insert(default),
        }
    }

    /// The value of an occupied slot, or what `default` returns put in a
    /// vacant one, to change in place.
    pub fn or_insert_with<F: FnOnce() -> V>(self, default: F) -> (r: &'a mut V)
        requires
            self.spec_can_hand_out(),
            self is Vacant ==> call_requires(default, ()),
        ensures
            self matches Entry::Occupied(e) ==> e.map.spec_get(e.key as int) == Some(*r)
                && final(e.map).slots() == e.map.slots().update(e.key as int, Some(*final(r))),
            self matches Entry::Vacant(e) ==> call_ensures(default, (), *r) && final(e.map).slots()
                == base::spec_insert_slots(e.map.slots(), e.key as int, *final(r)),
    {
        match self {
            Entry::Occupied(entry) => entry.into_mut(),
            Entry::Vacant(entry) => entry.insert(default()),
        }
    }
}

impl<'a, V> Entry<'a, V> {
    /// Runs `f` on the value of an occupied slot, which then holds what `f`
    /// left there, every other slot unchanged; a vacant entry is returned as
    /// it was.
    pub fn and_modify<F: FnOnce(&mut V)>(self, f: F) -> (r: Self)
        requires
            self matches Entry::Occupied(e) ==> e.map.spec_get(e.key as int) is Some && forall|v: &mut V|
                call_requires(f, (v,)),
        ensures
            self is Vacant ==> r == self,
            self matches Entry::Occupied(e) ==> {
                &&& r matches Entry::Occupied(e2)
                &&& e2.key == e.key
                &&& *final(e2.map) == *final(e.map)
                &&& e2.map.slots().len() == e.map.slots().len()
                &&& e2.map.spec_get(e.key as int) is Some
                &&& forall|i: int|
                    0 <= i < e.map.slots().len() && i != e.key ==> #[trigger] e2.map.slots()[i] == e.map.slots()[i]
                &&& exists|v: &mut V|
                    #![trigger call_ensures(f, (v,), ())]
                    Some(*v) == e.map.spec_get(e.key as int) && Some(*final(v)) == e2.map.spec_get(e.key as int)
                        && call_ensures(f, (v,), ())
            },
    {
        match self {
            Entry::Occupied(mut entry) => {
                let v = entry.get_mut();
                f(v);
                Entry::Occupied(entry)
            },
            Entry::Vacant(entry) => Entry::Vacant(entry),
        }
    }
}

impl<'a, V: Default> Entry<'a, V> {
    /// The value of an occupied slot, or the default value put in a vacant
    /// one, to change in place.
    pub fn or_default(self) -> (r: &'a mut V)
        requires
            self.spec_can_hand_out(),
        ensures
            self matches Entry::Occupied(e) ==> e.map.spec_get(e.key as int) == Some(*r)
                && final(e.map).slots() == e.map.slots().update(e.key as int, Some(*final(r))),
            self matches Entry::Vacant(e) ==> final(e.map).slots() == base::spec_insert_slots(
                e.map.slots(),
                e.key as int,
                *final(r),
            ),
    {
        match self {
            Entry::Occupied(entry) => entry.into_mut(),
            Entry::Vacant(entry) => entry.insert(V::default()),
        }
    }
}

} // verus!
