//! Storage with stable keys: a small handle table.
use vstd::prelude::*;

verus! {

/// A stable handle to a slot managed by [`SlotMap`].
///
/// The handle stores the slot index plus one, so it is never zero.
#[derive(Copy, Clone, Debug, PartialEq, Eq, Hash, Structural)]
pub struct SlotKey {
    value: u32,
}

impl SlotKey {
    /// The slot index this key refers to.
    ///
    /// Keys are only made by [`SlotMap::allocate`] and never hold the raw value zero;
    /// that value is mapped past every slot so that equal indices mean equal keys.
    pub closed spec fn spec_index(self) -> nat {
        if self.value == 0 { u32::MAX as nat } else { (self.value - 1) as nat }
    }

    /// Creates the key of the slot at `index`.
    pub(crate) fn new(index: usize) -> (key: SlotKey)
        requires
            index < u32::MAX,
        ensures
            key.spec_index() == index,
            key.well_formed(),
    {
        SlotKey { value: (index + 1) as u32 }
    }

    /// Returns the slot index this key refers to.
    pub fn index(self) -> (r: usize)
        ensures
            r == self.spec_index(),
    {
        if self.value == 0 { u32::MAX as usize } else { (self.value - 1) as usize }
    }

    /// Whether the key was handed out by a slot map (its raw value is non-zero).
    pub closed spec fn well_formed(self) -> bool {
        self.value != 0
    }

    /// Keys with equal indices are the same key.
    pub proof fn lemma_same_index(a: SlotKey, b: SlotKey)
        requires
            a.spec_index() == b.spec_index(),
        ensures
            a == b,
    {
    }
}

/// State of one slot.
pub enum Slot<T> {
    /// Free slot; holds the index of the next free slot.
    Empty(usize),
    /// Slot holding a value.
    Occupied(T),
    /// Reserved slot without a value.
    Taken,
}

/// SlotMap, storage with stable keys.
///
/// You reserve a slot, receive an opaque key, and use that key to access the stored
/// value later. Slots remain valid until they are explicitly removed, and `take` /
/// `put` temporarily move a value out of a reserved slot without freeing the handle.
pub struct SlotMap<T> {
    slots: Vec<Slot<T>>,
    next: usize,
    free: Ghost<Seq<nat>>,
}

impl<T> View for SlotMap<T> {
    /// Valid slots by index: `Some(value)` for an occupied slot, `None` for a taken one.
    type V = Map<nat, Option<T>>;

    closed spec fn view(&self) -> Map<nat, Option<T>> {
        Map::new(
            |i: nat| i < self.slots@.len() && !(self.slots@[i as int] is Empty),
            |i: nat|
                match self.slots@[i as int] {
                    Slot::Occupied(v) => Some(v),
                    _ => None,
                },
        )
    }
}

impl<T> SlotMap<T> {
    /// Number of slots ever created (valid or free).
    pub closed spec fn slot_count(&self) -> nat {
        self.slots@.len()
    }

    /// Index of the slot the next [`allocate`](SlotMap::allocate) hands out.
    pub closed spec fn next_index(&self) -> nat {
        self.next as nat
    }

    /// The free slots, in the order [`allocate`](SlotMap::allocate) reuses them: the
    /// most recently freed first.
    pub closed spec fn free_order(&self) -> Seq<nat> {
        self.free@
    }

    /// The next index is the first free slot, or a new slot when none is free.
    pub proof fn lemma_next_is_first_free(&self)
        requires
            self.wf(),
        ensures
            self.next_index() == if self.free_order().len() > 0 { self.free_order()[0] } else { self.slot_count() },
    {
    }

    /// Internal consistency: the free list threads exactly the free slots.
    pub closed spec fn wf(&self) -> bool {
        let free = self.free@;
        let len = self.slots@.len();
        &&& self.next <= len
        &&& (free.len() == 0 <==> self.next == len)
        &&& (free.len() > 0 ==> free[0] == self.next)
        &&& forall|k: int|
            0 <= k < free.len() ==> {
                &&& #[trigger] free[k] < len
                &&& self.slots@[free[k] as int] matches Slot::Empty(n)
                &&& n == (if k + 1 < free.len() { free[k + 1] } else { len })
            }
        &&& forall|a: int, b: int|
            0 <= a < free.len() && 0 <= b < free.len() && a != b ==> free[a] != free[b]
        &&& forall|i: int|
            0 <= i < len && (#[trigger] self.slots@[i] is Empty) ==> free.contains(i as nat)
    }

    proof fn lemma_free_not_valid(&self, i: nat)
        requires
            self.wf(),
            self.free@.contains(i),
        ensures
            !self@.dom().contains(i),
    {
        let k = choose|k: int| 0 <= k < self.free@.len() && self.free@[k] == i;
        assert(self.slots@[self.free@[k] as int] is Empty);
    }

    /// The next index is never a valid slot and fits in the slot range.
    pub proof fn lemma_next_index_free(&self)
        requires
            self.wf(),
        ensures
            self.next_index() <= self.slot_count(),
            !self@.dom().contains(self.next_index()),
            forall|i: nat| #[trigger] self@.dom().contains(i) ==> i < self.slot_count(),
    {
        if self.next < self.slots.len() {
            assert(self.free@[0] == self.next);
            self.lemma_free_not_valid(self.next as nat);
        }
    }

    /// Returns the number of slots ever created (valid or free).
    pub fn slots_used(&self) -> (r: usize)
        ensures
            r == self.slot_count(),
    {
        self.slots.len()
    }

    /// Creates an empty instance.
    pub fn new() -> (map: SlotMap<T>)
        ensures
            map.wf(),
            map@ == Map::<nat, Option<T>>::empty(),
            map.slot_count() == 0,
            map.next_index() == 0,
            map.free_order().len() == 0,
    {
        let map = SlotMap { slots: Vec::new(), next: 0, free: Ghost(Seq::empty()) };
        assert(map@ =~= Map::<nat, Option<T>>::empty());
        map
    }

    /// Returns true if the slot is taken, false otherwise.
    pub fn is_taken(&self, key: SlotKey) -> (r: bool)
        ensures
            r == (self@.dom().contains(key.spec_index()) && self@[key.spec_index()] is None),
    {
        let index = key.index();
        if index < self.slots.len() {
            match &self.slots[index] {
                Slot::Taken => true,
                _ => false,
            }
        } else {
            false
        }
    }

    /// Returns true if the slot is occupied, false otherwise.
    pub fn is_occupied(&self, key: SlotKey) -> (r: bool)
        ensures
            r == (self@.dom().contains(key.spec_index()) && self@[key.spec_index()] is Some),
    {
        let index = key.index();
        if index < self.slots.len() {
            match &self.slots[index] {
                Slot::Occupied(_) => true,
                _ => false,
            }
        } else {
            false
        }
    }

    /// Returns true is the slot is valid (either occupied or taken), false otherwise.
    pub fn is_valid(&self, key: SlotKey) -> (r: bool)
        ensures
            r == self@.dom().contains(key.spec_index()),
    {
        let index = key.index();
        if index < self.slots.len() {
            match &self.slots[index] {
                Slot::Empty(_) => false,
                _ => true,
            }
        } else {
            false
        }
    }

    /// Reserves a slot and returns its key.
    ///
    /// The returned slot is marked as taken until a value is inserted with
    /// [`put`](SlotMap::put). The most recently freed slot is reused first; when no
    /// slot is free a new one is appended.
    pub fn allocate(&mut self) -> (key: SlotKey)
        requires
            old(self).wf(),
            old(self).next_index() < u32::MAX,
        ensures
            final(self).wf(),
            key.well_formed(),
            key.spec_index() == old(self).next_index(),
            final(self).free_order() == if old(self).free_order().len() > 0 {
                old(self).free_order().drop_first()
            } else {
                old(self).free_order()
            },
            !old(self)@.dom().contains(key.spec_index()),
            final(self)@ == old(self)@.insert(key.spec_index(), None),
            final(self).slot_count() == if old(self).next_index() == old(self).slot_count() {
                old(self).slot_count() + 1
            } else {
                old(self).slot_count()
            },
    {
        proof {
            self.lemma_next_index_free();
        }
        let ghost old_self = *self;
        let key = SlotKey::new(self.next);
        let index = key.index();
        if index == self.slots.len() {
            self.slots.push(Slot::Taken);
            self.next = self.slots.len();
            proof {
                assert forall|i: int|
                    0 <= i < self.slots@.len() && (#[trigger] self.slots@[i] is Empty) implies self.free@.contains(i as nat) by {
                    assert(old_self.slots@[i] is Empty);
                }
                assert(self@ =~= old_self@.insert(index as nat, None));
            }
        } else {
            let mut tmp = Slot::Taken;
            self.slots.set_and_swap(index, &mut tmp);
            match tmp {
                Slot::Empty(next) => {
                    self.next = next;
                },
                _ => {
                    proof {
                        assert(old_self.free@[0] == old_self.next);
                    }
                },
            }
            proof {
                let free = old_self.free@;
                assert(free[0] == index);
                self.free@ = free.drop_first();
                assert forall|k: int| 0 <= k < self.free@.len() implies #[trigger] self.free@[k] != index by {
                    assert(free[k + 1] != free[0]);
                }
                assert forall|i: int|
                    0 <= i < self.slots@.len() && (#[trigger] self.slots@[i] is Empty) implies self.free@.contains(i as nat) by {
                    assert(old_self.slots@[i] is Empty);
                    assert(free.contains(i as nat));
                    let k = choose|k: int| 0 <= k < free.len() && free[k] == i as nat;
                    assert(k != 0);
                    assert(self.free@[k - 1] == i as nat);
                }
                assert forall|k: int| 0 <= k < self.free@.len() implies {
                    &&& #[trigger] self.free@[k] < self.slots@.len()
                    &&& self.slots@[self.free@[k] as int] matches Slot::Empty(n)
                    &&& n == (if k + 1 < self.free@.len() { self.free@[k + 1] } else { self.slots@.len() })
                } by {
                    assert(self.free@[k] == free[k + 1]);
                }
                assert(self@ =~= old_self@.insert(index as nat, None));
            }
        }
        key
    }

    /// Removes and returns the value stored at `key`.
    ///
    /// The slot becomes available for future allocations and is the first one
    /// [`allocate`](SlotMap::allocate) reuses.
    pub fn remove(&mut self, key: SlotKey) -> (value: T)
        requires
            old(self).wf(),
            old(self)@.dom().contains(key.spec_index()),
            old(self)@[key.spec_index()] is Some,
        ensures
            final(self).wf(),
            value == old(self)@[key.spec_index()]->Some_0,
            final(self)@ == old(self)@.remove(key.spec_index()),
            final(self).next_index() == key.spec_index(),
            final(self).free_order() == seq![key.spec_index()] + old(self).free_order(),
            final(self).slot_count() == old(self).slot_count(),
    {
        let ghost old_self = *self;
        let index = key.index();
        let mut tmp = Slot::Empty(self.next);
        self.slots.set_and_swap(index, &mut tmp);
        match tmp {
            Slot::Occupied(value) => {
                self.next = index;
                proof {
                    let free = old_self.free@;
                    assert(!free.contains(index as nat)) by {
                        if free.contains(index as nat) {
                            old_self.lemma_free_not_valid(index as nat);
                        }
                    }
                    self.free@ = seq![index as nat] + free;
                    assert forall|k: int| 0 <= k < self.free@.len() implies {
                        &&& #[trigger] self.free@[k] < self.slots@.len()
                        &&& self.slots@[self.free@[k] as int] matches Slot::Empty(n)
                        &&& n == (if k + 1 < self.free@.len() { self.free@[k + 1] } else { self.slots@.len() })
                    } by {
                        if k > 0 {
                            assert(self.free@[k] == free[k - 1]);
                            assert(free[k - 1] != index);
                        }
                    }
                    assert forall|a: int, b: int|
                        0 <= a < self.free@.len() && 0 <= b < self.free@.len() && a != b implies self.free@[a] != self.free@[b] by {
                        if a > 0 && b > 0 {
                            assert(self.free@[a] == free[a - 1]);
                            assert(self.free@[b] == free[b - 1]);
                        } else if a == 0 {
                            assert(self.free@[b] == free[b - 1]);
                            assert(free.contains(free[b - 1]));
                        } else {
                            assert(self.free@[a] == free[a - 1]);
                            assert(free.contains(free[a - 1]));
                        }
                    }
                    assert forall|i: int|
                        0 <= i < self.slots@.len() && (#[trigger] self.slots@[i] is Empty) implies self.free@.contains(i as nat) by {
                        if i != index {
                            assert(old_self.slots@[i] is Empty);
                            let k = choose|k: int| 0 <= k < free.len() && free[k] == i as nat;
                            assert(self.free@[k + 1] == i as nat);
                        } else {
                            assert(self.free@[0] == i as nat);
                        }
                    }
                    assert(self@ =~= old_self@.remove(index as nat));
                }
                value
            },
            _ => {
                vstd::pervasive::unreached()
            },
        }
    }

    /// Stores `value` in a slot previously reserved with [`allocate`](SlotMap::allocate).
    pub fn put(&mut self, key: SlotKey, value: T)
        requires
            old(self).wf(),
            old(self)@.dom().contains(key.spec_index()),
            old(self)@[key.spec_index()] is None,
        ensures
            final(self).wf(),
            final(self)@ == old(self)@.insert(key.spec_index(), Some(value)),
            final(self).next_index() == old(self).next_index(),
            final(self).slot_count() == old(self).slot_count(),
    {
        let ghost old_self = *self;
        let index = key.index();
        self.slots.set(index, Slot::Occupied(value));
        proof {
            let free = self.free@;
            assert(!free.contains(index as nat)) by {
                if free.contains(index as nat) {
                    old_self.lemma_free_not_valid(index as nat);
                }
            }
            assert forall|k: int| 0 <= k < free.len() implies #[trigger] free[k] != index by {
                assert(free.contains(free[k]));
            }
            assert forall|i: int|
                0 <= i < self.slots@.len() && (#[trigger] self.slots@[i] is Empty) implies self.free@.contains(i as nat) by {
                assert(old_self.slots@[i] is Empty);
            }
            assert(self@ =~= old_self@.insert(index as nat, Some(value)));
        }
    }

    /// Returns an immutable reference to the value at `key`, if present.
    pub fn get(&self, key: SlotKey) -> (r: Option<&T>)
        ensures
            match r {
                Some(v) => self@.dom().contains(key.spec_index()) && self@[key.spec_index()] == Some(*v),
                None => !(self@.dom().contains(key.spec_index()) && self@[key.spec_index()] is Some),
            },
    {
        let index = key.index();
        if index < self.slots.len() {
            match &self.slots[index] {
                Slot::Occupied(value) => Some(value),
                _ => None,
            }
        } else {
            None
        }
    }

    /// Temporarily removes and returns the value at `key` without freeing the slot.
    ///
    /// The slot remains reserved and must be filled again with [`put`](SlotMap::put).
    pub fn take(&mut self, key: SlotKey) -> (value: T)
        requires
            old(self).wf(),
            old(self)@.dom().contains(key.spec_index()),
            old(self)@[key.spec_index()] is Some,
        ensures
            final(self).wf(),
            value == old(self)@[key.spec_index()]->Some_0,
            final(self)@ == old(self)@.insert(key.spec_index(), None),
            final(self).next_index() == old(self).next_index(),
            final(self).slot_count() == old(self).slot_count(),
    {
        let ghost old_self = *self;
        let index = key.index();
        let mut tmp = Slot::Taken;
        self.slots.set_and_swap(index, &mut tmp);
        proof {
            let free = self.free@;
            assert(!free.contains(index as nat)) by {
                if free.contains(index as nat) {
                    old_self.lemma_free_not_valid(index as nat);
                }
            }
            assert forall|k: int| 0 <= k < free.len() implies #[trigger] free[k] != index by {
                assert(free.contains(free[k]));
            }
            assert forall|i: int|
                0 <= i < self.slots@.len() && (#[trigger] self.slots@[i] is Empty) implies self.free@.contains(i as nat) by {
                assert(old_self.slots@[i] is Empty);
            }
            assert(self@ =~= old_self@.insert(index as nat, None));
        }
        match tmp {
            Slot::Occupied(value) => value,
            _ => {
                vstd::pervasive::unreached()
            },
        }
    }

    /// Returns a mutable reference to the value at `key`, if present.
    pub fn get_mut(&mut self, key: SlotKey) -> (r: Option<&mut T>)
        requires
            old(self).wf(),
        ensures
            match r {
                Some(v) => {
                    &&& old(self)@.dom().contains(key.spec_index())
                    &&& old(self)@[key.spec_index()] == Some(*v)
                    &&& final(self).wf()
                    &&& final(self)@ == old(self)@.insert(key.spec_index(), Some(*final(v)))
                    &&& final(self).next_index() == old(self).next_index()
                    &&& final(self).slot_count() == old(self).slot_count()
                },
                None => {
                    &&& !(old(self)@.dom().contains(key.spec_index()) && old(self)@[key.spec_index()] is Some)
                    &&& *final(self) == *old(self)
                },
            },
    {
        let index = key.index();
        if index < self.slots.len() && matches!(&self.slots[index], Slot::Occupied(_)) {
            match &mut self.slots[index] {
                Slot::Occupied(value) => Some(value),
                _ => vstd::pervasive::unreached(),
            }
        } else {
            None
        }
    }

    /// Temporarily takes the value at `key`, runs `f`, and then puts it back.
    ///
    /// This is useful when the callback needs mutable access to both the value stored
    /// at `key` and the map itself. The callback must leave the slot at `key` reserved.
    pub fn with<R, F: FnOnce(&mut T, &mut SlotMap<T>) -> R>(&mut self, key: SlotKey, f: F) -> (r: R)
        requires
            old(self).wf(),
            old(self)@.dom().contains(key.spec_index()),
            old(self)@[key.spec_index()] is Some,
            forall|v: &mut T, m: &mut SlotMap<T>| #[trigger] f.requires((v, m)),
            forall|v: &mut T, m: &mut SlotMap<T>, res: R|
                #[trigger] f.ensures((v, m), res) ==> {
                    &&& final(m).wf()
                    &&& final(m)@.dom().contains(key.spec_index())
                    &&& final(m)@[key.spec_index()] is None
                },
        ensures
            final(self).wf(),
            final(self)@.dom().contains(key.spec_index()),
            final(self)@[key.spec_index()] is Some,
            exists|v: &mut T, m: &mut SlotMap<T>|
                #[trigger] f.ensures((v, m), r)
                && *v == old(self)@[key.spec_index()]->Some_0
                && (*m)@ == old(self)@.insert(key.spec_index(), None)
                && final(self)@ == final(m)@.insert(key.spec_index(), Some(*final(v))),
    {
        let mut value = self.take(key);
        let result = f(&mut value, self);
        self.put(key, value);
        result
    }
}

/// Taking a value out of its slot and putting it back leaves the map as it was.
pub proof fn law_take_put_restores<T>(m0: SlotMap<T>, m1: SlotMap<T>, m2: SlotMap<T>, key: SlotKey, value: T)
    requires
        m0@.dom().contains(key.spec_index()),
        m0@[key.spec_index()] is Some,
        value == m0@[key.spec_index()]->Some_0,
        m1@ == m0@.insert(key.spec_index(), None),
        m2@ == m1@.insert(key.spec_index(), Some(value)),
    ensures
        m2@ == m0@,
{
    assert(m2@ =~= m0@);
}

/// The key handed out right after a removal is the removed key again: the freed slot
/// is reused before any new slot is appended, so the storage does not grow, and the
/// allocation can always be made.
pub proof fn law_remove_then_allocate_reuses<T>(m0: SlotMap<T>, m1: SlotMap<T>, m2: SlotMap<T>, removed: SlotKey, fresh: SlotKey)
    requires
        m0.wf(),
        removed.well_formed(),
        m0@.dom().contains(removed.spec_index()),
        m1.wf(),
        m1@ == m0@.remove(removed.spec_index()),
        m1.next_index() == removed.spec_index(),
        m1.slot_count() == m0.slot_count(),
        fresh.spec_index() == m1.next_index(),
        m2@ == m1@.insert(fresh.spec_index(), None),
        m2.slot_count() == if m1.next_index() == m1.slot_count() { m1.slot_count() + 1 } else { m1.slot_count() },
    ensures
        m1.next_index() < u32::MAX,
        fresh == removed,
        m2@ == m0@.insert(removed.spec_index(), None),
        m2.slot_count() == m0.slot_count(),
{
    m0.lemma_next_index_free();
    SlotKey::lemma_same_index(fresh, removed);
    assert(m2@ =~= m0@.insert(removed.spec_index(), None));
}

/// Freed slots are reused most recent first: after `a` and then `b` are removed, the
/// next two allocations hand out `b` and then `a`.
pub proof fn law_freed_slots_reused_last_first<T>(
    m0: SlotMap<T>,
    m1: SlotMap<T>,
    m2: SlotMap<T>,
    m3: SlotMap<T>,
    a: SlotKey,
    b: SlotKey,
    first: SlotKey,
    second: SlotKey,
)
    requires
        m1.free_order() == seq![a.spec_index()] + m0.free_order(),
        m2.free_order() == seq![b.spec_index()] + m1.free_order(),
        m2.wf(),
        first.spec_index() == m2.next_index(),
        m3.free_order() == m2.free_order().drop_first(),
        m3.wf(),
        second.spec_index() == m3.next_index(),
    ensures
        first == b,
        second == a,
{
    m2.lemma_next_is_first_free();
    m3.lemma_next_is_first_free();
    assert(m3.free_order()[0] == a.spec_index());
    SlotKey::lemma_same_index(first, b);
    SlotKey::lemma_same_index(second, a);
}

/// A value put into a slot is what the slot holds afterwards, and no other slot changes.
pub proof fn law_get_after_put<T>(m0: SlotMap<T>, m1: SlotMap<T>, key: SlotKey, value: T, other: SlotKey)
    requires
        m1@ == m0@.insert(key.spec_index(), Some(value)),
        other.spec_index() != key.spec_index(),
    ensures
        m1@.dom().contains(key.spec_index()),
        m1@[key.spec_index()] == Some(value),
        m1@.dom().contains(other.spec_index()) == m0@.dom().contains(other.spec_index()),
        m0@.dom().contains(other.spec_index()) ==> m1@[other.spec_index()] == m0@[other.spec_index()],
{
}

} // verus!
