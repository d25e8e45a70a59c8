//! A slot table with reuse: values live in numbered slots, a freed slot is
//! handed out again, and every slot counts its generations so that a handle
//! to a freed value is recognised as stale and never names a later value.

use vstd::prelude::*;
use core::marker::PhantomData;

verus! {

/// Generation of a slot.
#[derive(Clone, Copy, Debug, PartialEq, Eq, Structural, Hash)]
pub struct Epoch(pub u32);

/// Owning handle to a value in a free list. `M` names the list it belongs to.
#[derive(Debug)]
pub struct FreeListHandle<M> {
    pub index: u32,
    pub epoch: Epoch,
    pub _marker: PhantomData<M>,
}

/// Non-owning handle to a value in a free list; it goes stale when the value
/// is freed.
#[derive(Debug)]
pub struct WeakFreeListHandle<M> {
    pub index: u32,
    pub epoch: Epoch,
    pub _marker: PhantomData<M>,
}

impl<M> FreeListHandle<M> {
    /// A non-owning handle to the same value.
    pub fn weak(&self) -> (w: WeakFreeListHandle<M>)
        ensures
            w.index == self.index,
            w.epoch == self.epoch,
    {
        WeakFreeListHandle { index: self.index, epoch: self.epoch, _marker: PhantomData }
    }
}

impl<M> Clone for WeakFreeListHandle<M> {
    /// A second handle to the same value.
    fn clone(&self) -> (w: Self)
        ensures
            w == *self,
    {
        WeakFreeListHandle { index: self.index, epoch: self.epoch, _marker: PhantomData }
    }
}

impl<M> Copy for WeakFreeListHandle<M> {

}

/// One slot: its generation and, while it is in use, its value.
#[derive(Debug)]
pub struct Slot<T> {
    pub epoch: Epoch,
    pub value: Option<T>,
}

/// The slot table.
#[derive(Debug)]
pub struct FreeList<T, M> {
    pub slots: Vec<Slot<T>>,
    /// Indices of the empty slots that can be handed out again.
    pub free: Vec<u32>,
    pub _marker: PhantomData<M>,
}

impl<T, M> FreeList<T, M> {
    /// The invariant of the table: it has fewer than 2^32 slots; a slot in
    /// use has a generation below the last one; the reusable indices are
    /// distinct and name empty slots with a generation below the last one.
    pub open spec fn wf(self) -> bool {
        &&& self.slots.len() <= u32::MAX
        &&& forall|i: int|
            0 <= i < self.slots.len() && (#[trigger] self.slots[i]).value is Some
                ==> self.slots[i].epoch.0 < u32::MAX
        &&& forall|j: int|
            0 <= j < self.free.len() ==> {
                &&& (#[trigger] self.free[j]) < self.slots.len()
                &&& self.slots[self.free[j] as int].value is None
                &&& self.slots[self.free[j] as int].epoch.0 < u32::MAX
            }
        &&& forall|j: int, k: int|
            0 <= j < k < self.free.len() ==> #[trigger] self.free[j] != #[trigger] self.free[k]
    }

    /// Whether slot `index` holds a value of generation `epoch`.
    pub open spec fn holds(self, index: u32, epoch: Epoch) -> bool {
        &&& index < self.slots.len()
        &&& self.slots[index as int].epoch == epoch
        &&& self.slots[index as int].value is Some
    }

    /// The value in slot `index`.
    pub open spec fn value_at(self, index: u32) -> T {
        self.slots[index as int].value->0
    }

    /// Whether generation `epoch` of slot `index` is over: a handle with it
    /// is stale for good.
    pub open spec fn retired(self, index: u32, epoch: Epoch) -> bool {
        &&& index < self.slots.len()
        &&& epoch.0 < self.slots[index as int].epoch.0
    }

    /// Whether `later` is this table after some insertions, replacements and
    /// removals: no slot is lost, no generation goes back, and a slot that
    /// kept its generation kept being in use or empty.
    pub open spec fn advances_to(self, later: Self) -> bool {
        &&& self.slots.len() <= later.slots.len()
        &&& forall|i: int|
            0 <= i < self.slots.len() ==> (#[trigger] self.slots[i]).epoch.0
                <= later.slots[i].epoch.0
    }

    /// A table with no slots.
    pub fn new() -> (list: Self)
        ensures
            list.wf(),
            list.slots.len() == 0,
            list.free.len() == 0,
    {
        FreeList { slots: Vec::new(), free: Vec::new(), _marker: PhantomData }
    }

    /// The value that `id` owns.
    pub fn get(&self, id: &FreeListHandle<M>) -> (value: &T)
        requires
            self.holds(id.index, id.epoch),
        ensures
            *value == self.value_at(id.index),
    {
        self.slots[id.index as usize].value.as_ref().unwrap()
    }

    /// The value that `id` names, unless `id` is stale.
    pub fn get_opt(&self, id: &WeakFreeListHandle<M>) -> (value: Option<&T>)
        ensures
            self.holds(id.index, id.epoch) ==> value == Some(&self.value_at(id.index)),
            !self.holds(id.index, id.epoch) ==> value is None,
    {
        if (id.index as usize) < self.slots.len() {
            let slot = &self.slots[id.index as usize];
            if slot.epoch.0 == id.epoch.0 {
                slot.value.as_ref()
            } else {
                None
            }
        } else {
            None
        }
    }

    /// Replaces the value in slot `index`, which is in use.
    pub fn set(&mut self, index: u32, value: T)
        requires
            old(self).wf(),
            index < old(self).slots.len(),
            old(self).slots[index as int].value is Some,
        ensures
            final(self).wf(),
            final(self).slots@ == old(self).slots@.update(
                index as int,
                Slot { epoch: old(self).slots[index as int].epoch, value: Some(value) },
            ),
            final(self).free == old(self).free,
            old(self).advances_to(*final(self)),
    {
        let epoch = self.slots[index as usize].epoch;
        self.slots[index as usize] = Slot { epoch, value: Some(value) };
        assert forall|j: int| 0 <= j < self.free.len() implies {
            &&& (#[trigger] self.free[j]) < self.slots.len()
            &&& self.slots[self.free[j] as int].value is None
            &&& self.slots[self.free[j] as int].epoch.0 < u32::MAX
        } by {
            assert(old(self).slots[old(self).free[j] as int].value is None);
        }
    }

    /// Stores `value` in an empty slot, a reused one if there is any, and
    /// returns the handle that owns it. Every other slot keeps its generation
    /// and its value; the slot taken keeps its generation.
    pub fn insert(&mut self, value: T) -> (id: FreeListHandle<M>)
        requires
            old(self).wf(),
            old(self).free.len() > 0 || old(self).slots.len() < u32::MAX,
        ensures
            final(self).wf(),
            final(self).holds(id.index, id.epoch),
            final(self).value_at(id.index) == value,
            old(self).slots.len() <= final(self).slots.len() <= old(self).slots.len() + 1,
            forall|i: int|
                0 <= i < old(self).slots.len() && i != id.index ==> final(self).slots[i] == old(self).slots[i],
            id.index < old(self).slots.len() ==> old(self).slots[id.index as int].value is None
                && old(self).slots[id.index as int].epoch == id.epoch && final(self).slots.len()
                == old(self).slots.len(),
            id.index >= old(self).slots.len() ==> id.index == old(self).slots.len()
                && final(self).slots.len() == old(self).slots.len() + 1,
            old(self).advances_to(*final(self)),
    {
        if self.free.len() > 0 {
            let ghost free_before = self.free@;
            let index = self.free.pop().unwrap();
            assert(index == free_before[free_before.len() - 1]);
            let epoch = self.slots[index as usize].epoch;
            self.slots[index as usize] = Slot { epoch, value: Some(value) };
            assert forall|j: int| 0 <= j < self.free.len() implies {
                &&& (#[trigger] self.free[j]) < self.slots.len()
                &&& self.slots[self.free[j] as int].value is None
                &&& self.slots[self.free[j] as int].epoch.0 < u32::MAX
            } by {
                assert(self.free[j] == free_before[j]);
                assert(free_before[j] != free_before[free_before.len() - 1]);
            }
            FreeListHandle { index, epoch, _marker: PhantomData }
        } else {
            let index = self.slots.len() as u32;
            let epoch = Epoch(0);
            self.slots.push(Slot { epoch, value: Some(value) });
            FreeListHandle { index, epoch, _marker: PhantomData }
        }
    }

    /// Takes the value in slot `index`, which is in use, out of the table.
    /// The slot moves on to its next generation, so that no handle to the
    /// freed value is taken for a handle to a later one; a slot that reaches
    /// its last generation is not handed out again.
    pub fn free_slot(&mut self, index: u32) -> (value: T)
        requires
            old(self).wf(),
            index < old(self).slots.len(),
            old(self).slots[index as int].value is Some,
        ensures
            final(self).wf(),
            value == old(self).value_at(index),
            final(self).slots.len() == old(self).slots.len(),
            final(self).slots[index as int].value is None,
            final(self).slots[index as int].epoch.0 == old(self).slots[index as int].epoch.0 + 1,
            forall|i: int|
                0 <= i < old(self).slots.len() && i != index ==> final(self).slots[i] == old(self).slots[i],
            old(self).advances_to(*final(self)),
    {
        let ghost before = *self;
        let epoch = self.slots[index as usize].epoch;
        let next = Epoch(epoch.0 + 1);
        let mut slot = Slot { epoch: next, value: None };
        core::mem::swap(&mut self.slots[index as usize], &mut slot);
        if next.0 < u32::MAX {
            let ghost free_before = self.free@;
            self.free.push(index);
            assert forall|j: int, k: int| 0 <= j < k < self.free.len() implies #[trigger] self.free[j]
                != #[trigger] self.free[k] by {
                if k == free_before.len() {
                    assert(before.slots[free_before[j] as int].value is None);
                }
            }
            assert forall|j: int| 0 <= j < self.free.len() implies {
                &&& (#[trigger] self.free[j]) < self.slots.len()
                &&& self.slots[self.free[j] as int].value is None
                &&& self.slots[self.free[j] as int].epoch.0 < u32::MAX
            } by {
                if j < free_before.len() {
                    assert(before.slots[free_before[j] as int].value is None);
                }
            }
        } else {
            assert forall|j: int| 0 <= j < self.free.len() implies {
                &&& (#[trigger] self.free[j]) < self.slots.len()
                &&& self.slots[self.free[j] as int].value is None
                &&& self.slots[self.free[j] as int].epoch.0 < u32::MAX
            } by {
                assert(before.slots[before.free[j] as int].value is None);
            }
        }
        slot.value.unwrap()
    }

    /// Takes the value that `id` owns out of the table.
    pub fn free(&mut self, id: FreeListHandle<M>) -> (value: T)
        requires
            old(self).wf(),
            old(self).holds(id.index, id.epoch),
        ensures
            final(self).wf(),
            value == old(self).value_at(id.index),
            final(self).slots.len() == old(self).slots.len(),
            final(self).slots[id.index as int].value is None,
            final(self).retired(id.index, id.epoch),
            forall|i: int|
                0 <= i < old(self).slots.len() && i != id.index ==> final(self).slots[i] == old(self).slots[i],
            old(self).advances_to(*final(self)),
    {
        self.free_slot(id.index)
    }

    /// Takes every value out of the table. Every slot in use moves on to its
    /// next generation.
    pub fn clear(&mut self)
        requires
            old(self).wf(),
        ensures
            final(self).wf(),
            final(self).slots.len() == old(self).slots.len(),
            forall|i: int|
                0 <= i < final(self).slots.len() ==> (#[trigger] final(self).slots[i]).value
                    is None,
            forall|i: int|
                0 <= i < final(self).slots.len() ==> (#[trigger] final(self).slots[i]).epoch.0
                    == old(self).slots[i].epoch.0 + if old(self).slots[i].value is Some {
                    1int
                } else {
                    0int
                },
            old(self).advances_to(*final(self)),
    {
        let mut i: usize = 0;
        while i < self.slots.len()
            invariant
                self.wf(),
                self.slots.len() == old(self).slots.len(),
                i <= self.slots.len(),
                forall|j: int| 0 <= j < i ==> (#[trigger] self.slots[j]).value is None,
                forall|j: int|
                    0 <= j < i ==> (#[trigger] self.slots[j]).epoch.0 == old(self).slots[j].epoch.0
                        + if old(self).slots[j].value is Some {
                        1int
                    } else {
                        0int
                    },
                forall|j: int| i <= j < self.slots.len() ==> self.slots[j] == old(self).slots[j],
            decreases self.slots.len() - i,
        {
            if self.slots[i].value.is_some() {
                let _ = self.free_slot(i as u32);
            }
            i += 1;
        }
    }
}

/// A handle whose generation is over names no value.
pub proof fn lemma_retired_is_stale<T, M>(list: FreeList<T, M>, index: u32, epoch: Epoch)
    requires
        list.retired(index, epoch),
    ensures
        !list.holds(index, epoch),
{
}

/// A handle whose generation is over stays stale whatever is inserted,
/// replaced or removed afterwards.
pub proof fn lemma_retired_forever<T, M>(
    list: FreeList<T, M>,
    later: FreeList<T, M>,
    index: u32,
    epoch: Epoch,
)
    requires
        list.retired(index, epoch),
        list.advances_to(later),
    ensures
        later.retired(index, epoch),
        !later.holds(index, epoch),
{
}

impl<T, M> FreeList<T, M> {
    /// Tells whether the invariant of the table holds.
    pub fn is_well_formed(&self) -> (ok: bool)
        ensures
            ok == self.wf(),
    {
        if self.slots.len() > u32::MAX as usize {
            return false;
        }
        let mut i: usize = 0;
        while i < self.slots.len()
            invariant
                i <= self.slots.len(),
                forall|a: int|
                    0 <= a < i && (#[trigger] self.slots[a]).value is Some
                        ==> self.slots[a].epoch.0 < u32::MAX,
            decreases self.slots.len() - i,
        {
            if self.slots[i].value.is_some() && self.slots[i].epoch.0 == u32::MAX {
                return false;
            }
            i += 1;
        }
        let mut j: usize = 0;
        while j < self.free.len()
            invariant
                j <= self.free.len(),
                forall|a: int|
                    0 <= a < j ==> {
                        &&& (#[trigger] self.free[a]) < self.slots.len()
                        &&& self.slots[self.free[a] as int].value is None
                        &&& self.slots[self.free[a] as int].epoch.0 < u32::MAX
                    },
                forall|a: int, b: int|
                    0 <= a < b < j ==> #[trigger] self.free[a] != #[trigger] self.free[b],
            decreases self.free.len() - j,
        {
            let index = self.free[j] as usize;
            if index >= self.slots.len() || self.slots[index].value.is_some()
                || self.slots[index].epoch.0 == u32::MAX {
                return false;
            }
            let mut k: usize = 0;
            while k < j
                invariant
                    j < self.free.len(),
                    k <= j,
                    forall|a: int| 0 <= a < k ==> #[trigger] self.free[a] != self.free[j as int],
                decreases j - k,
            {
                if self.free[k] == self.free[j] {
                    return false;
                }
                k += 1;
            }
            j += 1;
        }
        true
    }
}

/// A table that advanced twice advanced.
pub proof fn lemma_advances_twice<T, M>(
    first: FreeList<T, M>,
    second: FreeList<T, M>,
    third: FreeList<T, M>,
)
    requires
        first.advances_to(second),
        second.advances_to(third),
    ensures
        first.advances_to(third),
{
    assert forall|i: int| 0 <= i < first.slots.len() implies (#[trigger] first.slots[i]).epoch.0
        <= third.slots[i].epoch.0 by {
        let _ = second.slots[i];
    }
}

} // verus!
