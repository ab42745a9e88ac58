//! The slots behind `SimpleMap`: a vector of optional values indexed by key.
use vstd::prelude::*;

verus! {

/// A map from small `usize` keys to values, held as a vector of slots: the
/// slot at position `key` holds the value of `key`, if any.
#[derive(Debug)]
pub struct SimpleMap<V> {
    inner: Vec<Option<V>>,
}

/// The slots after `insert(k, v)`: exactly `k + 1` slots (those past `k`
/// dropped, missing ones added empty), slot `k` holding `v`.
pub open spec fn spec_insert_slots<V>(slots: Seq<Option<V>>, k: int, v: V) -> Seq<Option<V>> {
    Seq::new((k + 1) as nat, |i: int| if i == k { Some(v) } else if i < slots.len() { slots[i] } else { None })
}

/// The capacity that a vector reports: at least its length.
///
/// Calls `Vec::capacity`, whose documentation guarantees that the capacity
/// is never below the length; what more the allocator gave is not stated.
#[verifier::external_body]
fn vec_capacity<T>(v: &Vec<T>) -> (r: usize)
    ensures
        r >= v@.len(),
{
    v.capacity()
}

impl<V> SimpleMap<V> {
    /// The slots, in key order.
    pub closed spec fn slots(&self) -> Seq<Option<V>> {
        self.inner@
    }

    /// The value of `key`, if its slot exists and holds one.
    pub open spec fn spec_get(&self, key: int) -> Option<V> {
        if 0 <= key < self.slots().len() {
            self.slots()[key]
        } else {
            None
        }
    }

    /// An empty map with room for `capacity` slots.
    pub fn with_capacity(capacity: usize) -> (r: Self)
        ensures
            r.slots() == Seq::<Option<V>>::empty(),
    {
        Self { inner: Vec::with_capacity(capacity) }
    }

    /// An empty map.
    pub fn new() -> (r: Self)
        ensures
            r.slots() == Seq::<Option<V>>::empty(),
    {
        Self { inner: Vec::new() }
    }

    /// Whether the slot of `key` exists (it may be empty).
    pub fn contains_key(&self, key: usize) -> (r: bool)
        ensures
            r == (key < self.slots().len()),
    {
        key < self.inner.len()
    }

    /// Puts `v` in the slot of `k`, making the map exactly `k + 1` slots
    /// long (dropping the slots past `k`), and returns what the slot held.
    pub fn insert(&mut self, k: usize, v: V) -> (r: Option<V>)
        requires
            k < usize::MAX,
        ensures
            final(self).slots() == spec_insert_slots(old(self).slots(), k as int, v),
            r == old(self).spec_get(k as int),
    {
        let ghost old_slots = self.inner@;
        self.inner.truncate(k + 1);
        while self.inner.len() < k + 1
            invariant
                k < usize::MAX,
                self.inner@.len() <= k + 1,
                old_slots.len() <= self.inner@.len() || self.inner@.len() == k + 1,
                forall|i: int| 0 <= i < self.inner@.len() ==> #[trigger] self.inner@[i] == (if i < old_slots.len() {
                    old_slots[i]
                } else {
                    None
                }),
            decreases k + 1 - self.inner@.len(),
        {
            self.inner.push(None);
        }
        let slot = &mut self.inner[k];
        let previous = slot.take();
        *slot = Some(v);
        proof {
            assert(self.inner@ =~= spec_insert_slots(old_slots, k as int, v));
        }
        previous
    }

    /// Empties the slot of `k`, returning what it held.
    pub fn remove(&mut self, k: usize) -> (r: Option<V>)
        ensures
            r == old(self).spec_get(k as int),
            final(self).slots() == (if k < old(self).slots().len() {
                old(self).slots().update(k as int, None)
            } else {
                old(self).slots()
            }),
    {
        if k < self.inner.len() {
            let slot = &mut self.inner[k];
            slot.take()
        } else {
            None
        }
    }

    /// The value of `key`, if any.
    pub fn get(&self, key: usize) -> (r: Option<&V>)
        ensures
            r is None <==> self.spec_get(key as int) is None,
            r matches Some(v) ==> self.spec_get(key as int) == Some(*v),
    {
        if key < self.inner.len() {
            self.inner[key].as_ref()
        } else {
            None
        }
    }

    /// The value of `key` to change in place, if any.
    pub fn get_mut(&mut self, key: usize) -> (r: Option<&mut V>)
        ensures
            r is None <==> old(self).spec_get(key as int) is None,
            r is None ==> *final(self) == *old(self),
            r matches Some(v) ==> old(self).spec_get(key as int) == Some(*v) && final(self).slots() == old(
                self,
            ).slots().update(key as int, Some(*final(v))),
    {
        if key < self.inner.len() && self.inner[key].is_some() {
            self.inner[key].as_mut()
        } else {
            None
        }
    }

    /// The value of `index`, which must have one.
    pub fn index(&self, index: usize) -> (r: &V)
        requires
            self.spec_get(index as int) is Some,
        ensures
            self.spec_get(index as int) == Some(*r),
    {
        match self.get(index) {
            Some(v) => v,
            None => vstd::pervasive::unreached(),
        }
    }

    /// The value of `index` to change in place, which must have one.
    pub fn index_mut(&mut self, index: usize) -> (r: &mut V)
        requires
            old(self).spec_get(index as int) is Some,
        ensures
            old(self).spec_get(index as int) == Some(*r),
            final(self).slots() == old(self).slots().update(index as int, Some(*final(r))),
    {
        match self.get_mut(index) {
            Some(v) => v,
            None => vstd::pervasive::unreached(),
        }
    }

    /// Removes every slot.
    pub fn clear(&mut self)
        ensures
            final(self).slots() == Seq::<Option<V>>::empty(),
    {
        self.inner.clear();
    }

    /// The number of slots the map can hold without reallocating: at least
    /// its number of slots.
    pub fn capacity(&self) -> (r: usize)
        ensures
            r >= self.slots().len(),
    {
        vec_capacity(&self.inner)
    }

    /// The keys whose slots hold a value, in increasing order.
    pub fn keys(&self) -> (r: Vec<usize>)
        ensures
            forall|i: int, j: int| 0 <= i < j < r@.len() ==> r@[i] < r@[j],
            forall|key: usize| #[trigger] r@.contains(key) <==> self.spec_get(key as int) is Some,
    {
        let mut keys: Vec<usize> = Vec::new();
        let mut i: usize = 0;
        while i < self.inner.len()
            invariant
                i <= self.inner@.len(),
                forall|a: int, b: int| 0 <= a < b < keys@.len() ==> keys@[a] < keys@[b],
                forall|a: int| 0 <= a < keys@.len() ==> keys@[a] < i,
                forall|key: usize| #[trigger] keys@.contains(key) <==> (key < i && self.spec_get(key as int) is Some),
            decreases self.inner@.len() - i,
        {
            let ghost before = keys@;
            if self.inner[i].is_some() {
                keys.push(i);
            }
            proof {
                assert forall|key: usize| #[trigger] keys@.contains(key) <==> (key < i + 1 && self.spec_get(
                    key as int,
                ) is Some) by {
                    if keys@.len() > before.len() {
                        assert(keys@ == before.push(i));
                        if keys@.contains(key) && key != i {
                            let j = choose|j: int| 0 <= j < keys@.len() && keys@[j] == key;
                            assert(before[j] == key);
                        }
                        if before.contains(key) {
                            let j = choose|j: int| 0 <= j < before.len() && before[j] == key;
                            assert(keys@[j] == key);
                        }
                        if key == i {
                            assert(keys@[before.len() as int] == key);
                        }
                    }
                }
            }
            i = i + 1;
        }
        keys
    }
}

/// After `insert(k, v)` (a map `after` whose slots are those `insert`
/// leaves), `get(k)` gives `v`, the keys below `k` keep their values, and
/// no key above `k` has a value.
pub proof fn law_insert_then_get<V>(before: SimpleMap<V>, after: SimpleMap<V>, k: usize, v: V)
    requires
        after.slots() == spec_insert_slots(before.slots(), k as int, v),
    ensures
        after.spec_get(k as int) == Some(v),
        forall|i: int| 0 <= i < k ==> #[trigger] after.spec_get(i) == before.spec_get(i),
        forall|i: int| i > k ==> #[trigger] after.spec_get(i) is None,
{
}

/// After `remove(k)` (a map `after` whose slots are those `remove` leaves),
/// `get(k)` gives nothing and every other key keeps its value.
pub proof fn law_remove_then_get<V>(before: SimpleMap<V>, after: SimpleMap<V>, k: usize)
    requires
        after.slots() == (if k < before.slots().len() {
            before.slots().update(k as int, None)
        } else {
            before.slots()
        }),
    ensures
        after.spec_get(k as int) is None,
        forall|i: int| i != k ==> #[trigger] after.spec_get(i) == before.spec_get(i),
{
}

} // verus!
