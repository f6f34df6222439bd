//! A slot map: a vector of optional values with a last-in-first-out free list.
//! The index of a slot is the identifier of the value it holds. A slot table keeps more
//! values under the same identifiers.

use vstd::prelude::*;

verus! {

/// How many slots can be addressed.
pub const SLOT_LIMIT: u64 = 0x1_0000_0000;

/// The identifier of the slot at `index`.
pub open spec fn slot_number(index: int) -> u32 {
    (index % (SLOT_LIMIT as int)) as u32
}

fn slot_number_of(index: usize) -> (id: u32)
    ensures
        id == slot_number(index as int),
{
    (index as u64 % SLOT_LIMIT) as u32
}

/// Values addressed by `u32` slot index. Removing a value frees its slot, and the
/// slot freed last is handed out first.
pub struct SlotMap<T> {
    slots: Vec<Option<T>>,
    free: Vec<u32>,
}

impl<T> SlotMap<T> {
    /// The slots, in index order.
    pub closed spec fn slots(&self) -> Seq<Option<T>> {
        self.slots@
    }

    /// The free list; its last entry is reused first.
    pub closed spec fn free(&self) -> Seq<u32> {
        self.free@
    }

    /// Slot `id` holds a value.
    pub open spec fn holds(&self, id: u32) -> bool {
        id < self.slots().len() && self.slots()[id as int] is Some
    }

    /// What slot `id` holds.
    pub open spec fn at(&self, id: u32) -> Option<T> {
        if id < self.slots().len() {
            self.slots()[id as int]
        } else {
            None
        }
    }

    /// Every slot can be addressed.
    pub open spec fn addressable(&self) -> bool {
        self.slots().len() <= SLOT_LIMIT
    }

    /// The free list names every empty slot, and each of them once.
    pub open spec fn free_list_is_exact(&self) -> bool {
        &&& forall|k: int|
            0 <= k < self.free().len() ==> self.slots()[(#[trigger] self.free()[k]) as int] is None
        &&& self.free().no_duplicates()
        &&& forall|i: int|
            0 <= i < self.slots().len() && (#[trigger] self.slots()[i]) is None
                ==> self.free().contains(i as u32)
    }

    /// The free list names slots and, as long as every slot can be addressed, exactly the
    /// empty ones.
    pub open spec fn wf(&self) -> bool {
        &&& forall|k: int|
            0 <= k < self.free().len() ==> (#[trigger] self.free()[k]) < self.slots().len()
        &&& self.addressable() ==> self.free_list_is_exact()
    }

    /// There is an identifier for one more value.
    pub open spec fn has_room(&self) -> bool {
        self.addressable() && (self.free().len() > 0 || self.slots().len() < SLOT_LIMIT)
    }

    /// The identifier that the next insertion returns. Beyond the last identifier the
    /// count starts over.
    pub open spec fn next_id(&self) -> u32 {
        if self.free().len() > 0 {
            self.free().last()
        } else {
            slot_number(self.slots().len() as int)
        }
    }

    /// The slots after `value` has been inserted.
    pub open spec fn slots_after_insert(&self, value: T) -> Seq<Option<T>> {
        if self.free().len() > 0 {
            self.slots().update(self.free().last() as int, Some(value))
        } else {
            self.slots().push(Some(value))
        }
    }

    /// The free list after an insertion.
    pub open spec fn free_after_insert(&self) -> Seq<u32> {
        if self.free().len() > 0 {
            self.free().drop_last()
        } else {
            self.free()
        }
    }

    /// `after` is `self` with one more value in it.
    pub open spec fn inserted(&self, value: T, after: &Self) -> bool {
        &&& after.slots() == self.slots_after_insert(value)
        &&& after.free() == self.free_after_insert()
    }

    /// `after` is `self` without the value of slot `id`; the same map where the slot
    /// holds none.
    pub open spec fn removed(&self, id: u32, after: &Self) -> bool {
        if self.holds(id) {
            &&& after.slots() == self.slots().update(id as int, None)
            &&& after.free() == self.free().push(id)
        } else {
            &&& after.slots() == self.slots()
            &&& after.free() == self.free()
        }
    }

    /// `after` is `self` with `value` in the occupied slot `id`.
    pub open spec fn replaced(&self, id: u32, value: T, after: &Self) -> bool {
        &&& after.slots() == self.slots().update(id as int, Some(value))
        &&& after.free() == self.free()
    }

    /// An empty map.
    pub fn new() -> (r: Self)
        ensures
            r.wf(),
            r.slots() == Seq::<Option<T>>::empty(),
            r.free() == Seq::<u32>::empty(),
    {
        SlotMap { slots: Vec::new(), free: Vec::new() }
    }

    /// Number of slots, occupied or not.
    pub fn len(&self) -> (n: usize)
        ensures
            n == self.slots().len(),
    {
        self.slots.len()
    }

    /// Stores `value` in the slot freed last, or in a new one, and returns its index.
    pub fn insert(&mut self, value: T) -> (id: u32)
        requires
            old(self).wf(),
        ensures
            final(self).wf(),
            id == old(self).next_id(),
            old(self).inserted(value, final(self)),
            old(self).has_room() ==> !old(self).holds(id),
    {
        let ghost before = *self;
        if let Some(idx) = self.free.pop() {
            self.slots.set(idx as usize, Some(value));
            proof {
                lemma_insert_reuse(before, *self, value);
            }
            idx
        } else {
            let idx: u32 = slot_number_of(self.slots.len());
            self.slots.push(Some(value));
            proof {
                if self.addressable() {
                    assert forall|i: int|
                        0 <= i < self.slots().len() && (
                        #[trigger] self.slots()[i]) is None implies self.free().contains(
                        i as u32,
                    ) by {
                        assert(before.slots()[i] is None);
                    }
                }
            }
            idx
        }
    }

    /// The value of slot `id`.
    pub fn get(&self, id: u32) -> (r: Option<&T>)
        ensures
            match r {
                Some(v) => self.at(id) == Some(*v),
                None => self.at(id) is None,
            },
    {
        if (id as usize) < self.slots.len() {
            self.slots[id as usize].as_ref()
        } else {
            None
        }
    }

    /// The value of slot `id`, for change in place.
    pub fn get_mut(&mut self, id: u32) -> (r: Option<&mut T>)
        ensures
            match r {
                Some(v) => old(self).at(id) == Some(*v) && old(self).replaced(
                    id,
                    *final(v),
                    final(self),
                ),
                None => old(self).at(id) is None && final(self).slots() == old(self).slots()
                    && final(self).free() == old(self).free(),
            },
    {
        if (id as usize) < self.slots.len() {
            self.slots[id as usize].as_mut()
        } else {
            None
        }
    }

    /// Empties the slot at `index`, which holds a value, and puts its number on the free
    /// list.
    pub fn empty_slot(&mut self, index: usize)
        requires
            old(self).wf(),
            index < old(self).slots().len(),
            old(self).slots()[index as int] is Some,
        ensures
            final(self).wf(),
            final(self).slots() == old(self).slots().update(index as int, None),
            final(self).free() == old(self).free().push(slot_number(index as int)),
    {
        let ghost before = *self;
        let id: u32 = slot_number_of(index);
        self.slots.set(index, None);
        self.free.push(id);
        proof {
            if before.addressable() {
                lemma_remove_keeps_exact(before, *self, id);
            }
        }
    }

    /// The value of the slot at `index`.
    pub fn slot(&self, index: usize) -> (r: Option<&T>)
        requires
            index < self.slots().len(),
        ensures
            match r {
                Some(v) => self.slots()[index as int] == Some(*v),
                None => self.slots()[index as int] is None,
            },
    {
        self.slots[index].as_ref()
    }

    /// Empties slot `id` and puts it on the free list; does nothing where the slot
    /// holds no value.
    pub fn remove(&mut self, id: u32)
        requires
            old(self).wf(),
        ensures
            final(self).wf(),
            old(self).removed(id, final(self)),
            !final(self).holds(id),
    {
        let ghost before = *self;
        if (id as usize) < self.slots.len() && self.slots[id as usize].is_some() {
            self.slots.set(id as usize, None);
            self.free.push(id);
            proof {
                if before.addressable() {
                    lemma_remove_keeps_exact(before, *self, id);
                }
            }
        }
    }
}

proof fn lemma_insert_reuse<T>(before: SlotMap<T>, after: SlotMap<T>, value: T)
    requires
        before.wf(),
        before.free().len() > 0,
        before.inserted(value, &after),
    ensures
        after.wf(),
{
    assert forall|k: int| 0 <= k < after.free().len() implies (#[trigger] after.free()[k])
        < after.slots().len() by {
        assert(before.free()[k] == after.free()[k]);
    }
    if after.addressable() {
        let id = before.free().last();
        assert(before.free()[before.free().len() - 1] == id);
        assert forall|k: int| 0 <= k < after.free().len() implies after.slots()[(
        #[trigger] after.free()[k]) as int] is None by {
            assert(before.free()[k] == after.free()[k]);
            assert(before.free()[k] != before.free()[before.free().len() - 1]);
        }
        assert(after.free().no_duplicates()) by {
            assert forall|i: int, j: int|
                0 <= i < after.free().len() && 0 <= j < after.free().len() && i
                    != j implies after.free()[i] != after.free()[j] by {
                assert(before.free()[i] != before.free()[j]);
            }
        }
        assert forall|i: int|
            0 <= i < after.slots().len() && (
            #[trigger] after.slots()[i]) is None implies after.free().contains(i as u32) by {
            assert(before.slots()[i] is None);
            let k = choose|k: int| 0 <= k < before.free().len() && before.free()[k] == i as u32;
            assert(k != before.free().len() - 1);
            assert(after.free()[k] == i as u32);
        }
    }
}

/// Changing a value in place keeps the map well formed.
pub proof fn replaced_keeps_wf<T>(before: SlotMap<T>, id: u32, value: T, after: SlotMap<T>)
    requires
        before.wf(),
        before.holds(id),
        before.replaced(id, value, &after),
    ensures
        after.wf(),
{
    if after.addressable() {
        assert forall|i: int|
            0 <= i < after.slots().len() && (
            #[trigger] after.slots()[i]) is None implies after.free().contains(i as u32) by {
            assert(before.slots()[i] is None);
        }
    }
}

proof fn lemma_remove_keeps_exact<T>(before: SlotMap<T>, after: SlotMap<T>, id: u32)
    requires
        before.wf(),
        before.addressable(),
        before.holds(id),
        before.removed(id, &after),
    ensures
        after.free_list_is_exact(),
{
    let n = before.free().len();
    assert forall|k: int| 0 <= k < after.free().len() implies after.slots()[(
    #[trigger] after.free()[k]) as int] is None by {
        if k < n {
            assert(before.free()[k] == after.free()[k]);
        }
    }
    assert(!before.free().contains(id)) by {
        if before.free().contains(id) {
            let k = choose|k: int| 0 <= k < n && before.free()[k] == id;
            assert(before.slots()[before.free()[k] as int] is None);
        }
    }
    assert(after.free().no_duplicates()) by {
        assert forall|i: int, j: int|
            0 <= i < after.free().len() && 0 <= j < after.free().len() && i
                != j implies after.free()[i] != after.free()[j] by {
            if i < n && j < n {
                assert(before.free()[i] != before.free()[j]);
            } else if i < n {
                assert(before.free().contains(before.free()[i]));
            } else {
                assert(before.free().contains(before.free()[j]));
            }
        }
    }
    assert forall|i: int|
        0 <= i < after.slots().len() && (
        #[trigger] after.slots()[i]) is None implies after.free().contains(i as u32) by {
        if i == id {
            assert(after.free()[n as int] == id);
        } else {
            assert(before.slots()[i] is None);
            let k = choose|k: int| 0 <= k < n && before.free()[k] == i as u32;
            assert(after.free()[k] == i as u32);
        }
    }
}

/// A value just inserted is found under the identifier that was returned, and no
/// other slot changes.
pub proof fn insert_then_get<T>(before: SlotMap<T>, value: T, after: SlotMap<T>, other: u32)
    requires
        before.wf(),
        before.has_room(),
        before.inserted(value, &after),
    ensures
        after.at(before.next_id()) == Some(value),
        other != before.next_id() ==> after.at(other) == before.at(other),
{
    if before.free().len() > 0 {
        assert(before.free()[before.free().len() - 1] == before.free().last());
    }
}

/// The slot freed last is the one reused first, and removing and inserting again
/// restores the free list.
pub proof fn remove_then_insert_reuses<T>(
    before: SlotMap<T>,
    id: u32,
    between: SlotMap<T>,
    value: T,
    after: SlotMap<T>,
)
    requires
        before.wf(),
        before.holds(id),
        before.removed(id, &between),
        between.inserted(value, &after),
    ensures
        between.next_id() == id,
        after.slots() == before.slots().update(id as int, Some(value)),
        after.free() == before.free(),
{
}

/// Removing twice is removing once.
pub proof fn remove_is_idempotent<T>(
    before: SlotMap<T>,
    id: u32,
    once: SlotMap<T>,
    twice: SlotMap<T>,
)
    requires
        before.removed(id, &once),
        once.removed(id, &twice),
    ensures
        twice.slots() == once.slots(),
        twice.free() == once.free(),
{
}

/// Values under the identifiers that a slot map hands out.
pub struct SlotTable<T> {
    slots: Vec<Option<T>>,
}

impl<T> View for SlotTable<T> {
    type V = Map<u32, T>;

    closed spec fn view(&self) -> Map<u32, T> {
        Map::new(
            |id: u32| id < self.slots@.len() && self.slots@[id as int] is Some,
            |id: u32| self.slots@[id as int]->Some_0,
        )
    }
}

impl<T> SlotTable<T> {
    /// An empty table.
    pub fn new() -> (r: Self)
        ensures
            r@ == Map::<u32, T>::empty(),
    {
        let r = SlotTable { slots: Vec::new() };
        assert(r@ =~= Map::<u32, T>::empty());
        r
    }

    /// Stores `value` under `id`, in place of what was there.
    pub fn put(&mut self, id: u32, value: T)
        ensures
            final(self)@ == old(self)@.insert(id, value),
    {
        while self.slots.len() <= id as usize
            invariant
                self@ == old(self)@,
            decreases id + 1 - self.slots.len(),
        {
            let ghost before = self@;
            self.slots.push(None);
            assert(self@ =~= before);
        }
        self.slots.set(id as usize, Some(value));
        assert(self@ =~= old(self)@.insert(id, value));
    }

    /// The value under `id`.
    pub fn get(&self, id: u32) -> (r: Option<&T>)
        ensures
            match r {
                Some(v) => self@.contains_key(id) && self@[id] == *v,
                None => !self@.contains_key(id),
            },
    {
        if (id as usize) < self.slots.len() {
            self.slots[id as usize].as_ref()
        } else {
            None
        }
    }

    /// The value under `id`, for change in place.
    pub fn get_mut(&mut self, id: u32) -> (r: Option<&mut T>)
        ensures
            match r {
                Some(v) => {
                    &&& old(self)@.contains_key(id) && old(self)@[id] == *v
                    &&& final(self)@ == old(self)@.insert(id, *final(v))
                },
                None => !old(self)@.contains_key(id) && final(self)@ == old(self)@,
            },
    {
        if (id as usize) < self.slots.len() {
            self.slots[id as usize].as_mut()
        } else {
            None
        }
    }

    /// Forgets the value under `id`.
    pub fn remove(&mut self, id: u32)
        ensures
            final(self)@ == old(self)@.remove(id),
    {
        if (id as usize) < self.slots.len() {
            self.slots.set(id as usize, None);
        }
        assert(self@ =~= old(self)@.remove(id));
    }

    /// Forgets every value whose identifier no longer stands for anything in `owners`.
    pub fn keep_owned<S>(&mut self, owners: &SlotMap<S>)
        ensures
            final(self)@ == old(self)@.restrict(Set::new(|id: u32| owners.holds(id))),
    {
        let mut i: usize = 0;
        while i < self.slots.len() && i <= u32::MAX as usize
            invariant
                i <= self.slots.len(),
                i <= u32::MAX + 1,
                self.slots@.len() == old(self).slots@.len(),
                forall|k: int|
                    0 <= k < self.slots@.len() ==> #[trigger] self.slots@[k] == (if k < i
                        && !owners.holds(k as u32) {
                        None
                    } else {
                        old(self).slots@[k]
                    }),
            decreases self.slots.len() - i,
        {
            if owners.get(i as u32).is_none() {
                self.slots.set(i, None);
            }
            i = i + 1;
        }
        assert(self@ =~= old(self)@.restrict(Set::new(|id: u32| owners.holds(id))));
    }
}

} // verus!
