use vstd::prelude::*;
use crate::utils::Matrix;

verus! {

/// Payload of one live instance: which mesh it belongs to, which dense slot
/// of that mesh's instance buffer holds its transform, the transform itself,
/// and the position of its handle in the dense active list (bookkeeping for
/// swap-based removal).
#[derive(Clone, Copy)]
pub struct InstanceRecord {
    pub mesh_index: usize,
    pub slot_index: usize,
    pub transform: Matrix,
    pub active_slot: usize,
}

/// Stable-handle allocator: an arena with a free list. A handle is an index
/// into `entries`; live handles hold `Some`, dead ones `None`. `free_list`
/// holds the dead indices available for reuse, and `active_handles` lists the
/// live handles densely (in insertion order, except for swap-based removal).
///
/// A handle is never invalidated by operations on other handles; removal
/// swaps the last active entry into the vacated dense position and only that
/// entry's `active_slot` bookkeeping changes.
pub struct InstanceStore {
    /// One entry per handle value ever allocated; treat as read-only.
    pub entries: Vec<Option<InstanceRecord>>,
    /// Dead handle values available for reuse; treat as read-only.
    pub free_list: Vec<u32>,
    /// The live handles, densely packed; treat as read-only.
    pub active_handles: Vec<u32>,
}

impl InstanceStore {
    /// A handle is live when it addresses an occupied entry.
    pub open spec fn live(&self, handle: u32) -> bool {
        &&& (handle as int) < self.entries@.len()
        &&& self.entries@[handle as int] is Some
    }

    /// The record a live handle addresses.
    pub open spec fn record(&self, handle: u32) -> InstanceRecord
        recommends
            self.live(handle),
    {
        self.entries@[handle as int]->0
    }

    /// Number of live handles.
    pub open spec fn spec_len(&self) -> int {
        self.active_handles@.len() as int
    }

    /// The handle the next insertion returns: the most recently freed one if
    /// any, else a fresh value one past all handles allocated so far.
    pub open spec fn next_handle(&self) -> u32 {
        if self.free_list@.len() > 0 {
            self.free_list@.last()
        } else {
            self.entries@.len() as u32
        }
    }

    /// Structural invariant. The active list and the occupied entries are in
    /// bijection, each record knowing its dense position; the free list holds
    /// only vacant entries, without duplicates; and the dense and free lists
    /// together never outnumber the entries, so every handle fits in `u32`.
    pub open spec fn wf(&self) -> bool {
        &&& self.entries@.len() <= u32::MAX as int
        &&& self.active_handles@.len() + self.free_list@.len() <= self.entries@.len()
        &&& forall|i: int| 0 <= i < self.active_handles@.len() ==> {
            &&& (#[trigger] self.active_handles@[i] as int) < self.entries@.len()
            &&& self.entries@[self.active_handles@[i] as int] is Some
            &&& self.entries@[self.active_handles@[i] as int]->0.active_slot == i
        }
        &&& forall|h: u32| #[trigger] self.live(h) ==> {
            &&& (self.record(h).active_slot as int) < self.active_handles@.len()
            &&& self.active_handles@[self.record(h).active_slot as int] == h
        }
        &&& forall|i: int| 0 <= i < self.free_list@.len() ==> {
            &&& (#[trigger] self.free_list@[i] as int) < self.entries@.len()
            &&& self.entries@[self.free_list@[i] as int] is None
        }
        &&& forall|i: int, j: int|
            0 <= i < j < self.free_list@.len() ==> self.free_list@[i] != self.free_list@[j]
    }

    /// An empty table.
    pub fn new() -> (store: InstanceStore)
        ensures
            store.wf(),
            store.spec_len() == 0,
            store.entries@.len() == 0,
            store.free_list@.len() == 0,
            store.active_handles@.len() == 0,
    {
        InstanceStore { entries: Vec::new(), free_list: Vec::new(), active_handles: Vec::new() }
    }

    /// Inserts a payload, reusing the most recently freed handle if one
    /// exists, else allocating the next fresh handle value. The new record is
    /// appended to the dense active list. No other handle's liveness or
    /// record changes.
    pub fn insert(&mut self, mesh_index: usize, slot_index: usize, transform: Matrix) -> (handle:
        u32)
        requires
            old(self).wf(),
            old(self).free_list@.len() > 0 || old(self).entries@.len() < u32::MAX as int,
        ensures
            final(self).wf(),
            handle == old(self).next_handle(),
            !old(self).live(handle),
            final(self).live(handle),
            final(self).record(handle) == (InstanceRecord {
                mesh_index,
                slot_index,
                transform,
                active_slot: old(self).active_handles@.len() as usize,
            }),
            forall|k: u32| k != handle ==> final(self).live(k) == old(self).live(k),
            forall|k: u32|
                k != handle && old(self).live(k) ==> final(self).record(k) == old(self).record(k),
            final(self).active_handles@ == old(self).active_handles@.push(handle),
            final(self).spec_len() == old(self).spec_len() + 1,
            final(self).free_list@ == if old(self).free_list@.len() > 0 {
                old(self).free_list@.drop_last()
            } else {
                old(self).free_list@
            },
            final(self).entries@.len() == old(self).entries@.len() + if old(
                self,
            ).free_list@.len() > 0 {
                0int
            } else {
                1int
            },
    {
        let handle: u32 = match self.free_list.pop() {
            Some(h) => h,
            None => {
                let next = self.entries.len() as u32;
                self.entries.push(None);
                next
            },
        };
        let slot = self.active_handles.len();
        self.active_handles.push(handle);
        self.entries[handle as usize] = Some(
            InstanceRecord { mesh_index, slot_index, transform, active_slot: slot },
        );
        proof {
            assert forall|h: u32| #[trigger] self.live(h) implies {
                &&& (self.record(h).active_slot as int) < self.active_handles@.len()
                &&& self.active_handles@[self.record(h).active_slot as int] == h
            } by {
                if h != handle {
                    assert(old(self).live(h));
                }
            }
        }
        handle
    }

    /// Looks a handle up; `None` for unknown or removed handles.
    pub fn get(&self, handle: u32) -> (result: Option<InstanceRecord>)
        ensures
            result == if self.live(handle) {
                Some(self.record(handle))
            } else {
                None::<InstanceRecord>
            },
    {
        if (handle as usize) < self.entries.len() {
            self.entries[handle as usize]
        } else {
            None
        }
    }

    /// Overwrites the transform stored on a live handle's record; reports
    /// whether the handle was live. Nothing else changes.
    pub fn set_transform(&mut self, handle: u32, transform: Matrix) -> (updated: bool)
        requires
            old(self).wf(),
        ensures
            final(self).wf(),
            updated == old(self).live(handle),
            !updated ==> *final(self) == *old(self),
            updated ==> {
                &&& final(self).record(handle) == (InstanceRecord {
                    transform,
                    ..old(self).record(handle)
                })
                &&& forall|k: u32| final(self).live(k) == old(self).live(k)
                &&& forall|k: u32|
                    k != handle && old(self).live(k) ==> final(self).record(k) == old(
                        self,
                    ).record(k)
                &&& final(self).active_handles@ == old(self).active_handles@
                &&& final(self).free_list@ == old(self).free_list@
                &&& final(self).entries@.len() == old(self).entries@.len()
            },
    {
        if (handle as usize) >= self.entries.len() {
            return false;
        }
        match &self.entries[handle as usize] {
            None => false,
            Some(record) => {
                let mut updated_record = *record;
                updated_record.transform = transform;
                self.entries[handle as usize] = Some(updated_record);
                proof {
                    assert forall|h: u32| #[trigger] self.live(h) implies {
                        &&& (self.record(h).active_slot as int) < self.active_handles@.len()
                        &&& self.active_handles@[self.record(h).active_slot as int] == h
                    } by {
                        assert(old(self).live(h));
                    }
                }
                true
            },
        }
    }

    /// Overwrites the slot index stored on a live handle's record; reports
    /// whether the handle was live. Nothing else changes.
    pub fn set_slot_index(&mut self, handle: u32, slot_index: usize) -> (updated: bool)
        requires
            old(self).wf(),
        ensures
            final(self).wf(),
            updated == old(self).live(handle),
            !updated ==> *final(self) == *old(self),
            updated ==> {
                &&& final(self).record(handle) == (InstanceRecord {
                    slot_index,
                    ..old(self).record(handle)
                })
                &&& forall|k: u32| final(self).live(k) == old(self).live(k)
                &&& forall|k: u32|
                    k != handle && old(self).live(k) ==> final(self).record(k) == old(
                        self,
                    ).record(k)
                &&& final(self).active_handles@ == old(self).active_handles@
                &&& final(self).free_list@ == old(self).free_list@
                &&& final(self).entries@.len() == old(self).entries@.len()
            },
    {
        if (handle as usize) >= self.entries.len() {
            return false;
        }
        match &self.entries[handle as usize] {
            None => false,
            Some(record) => {
                let mut updated_record = *record;
                updated_record.slot_index = slot_index;
                self.entries[handle as usize] = Some(updated_record);
                proof {
                    assert forall|h: u32| #[trigger] self.live(h) implies {
                        &&& (self.record(h).active_slot as int) < self.active_handles@.len()
                        &&& self.active_handles@[self.record(h).active_slot as int] == h
                    } by {
                        assert(old(self).live(h));
                    }
                }
                true
            },
        }
    }

    /// Removes a handle's payload if it is live, swapping the last entry of
    /// the dense active list into the vacated position and recording the
    /// freed handle for reuse. Returns whether the handle existed. Only the
    /// moved entry's `active_slot` bookkeeping changes; every other live
    /// handle keeps its record.
    pub fn remove(&mut self, handle: u32) -> (removed: bool)
        requires
            old(self).wf(),
        ensures
            final(self).wf(),
            removed == old(self).live(handle),
            !removed ==> *final(self) == *old(self),
            removed ==> {
                &&& !final(self).live(handle)
                &&& forall|k: u32| k != handle ==> final(self).live(k) == old(self).live(k)
                &&& forall|k: u32|
                    k != handle && old(self).live(k) ==> {
                        &&& final(self).record(k).mesh_index == old(self).record(k).mesh_index
                        &&& final(self).record(k).slot_index == old(self).record(k).slot_index
                        &&& final(self).record(k).transform == old(self).record(k).transform
                        &&& final(self).record(k).active_slot == if k
                            == old(self).active_handles@.last() {
                            old(self).record(handle).active_slot
                        } else {
                            old(self).record(k).active_slot
                        }
                    }
                &&& final(self).active_handles@ == old(self).active_handles@.update(
                    old(self).record(handle).active_slot as int,
                    old(self).active_handles@.last(),
                ).drop_last()
                &&& final(self).free_list@ == old(self).free_list@.push(handle)
                &&& final(self).entries@.len() == old(self).entries@.len()
                &&& final(self).spec_len() == old(self).spec_len() - 1
            },
    {
        if (handle as usize) >= self.entries.len() {
            return false;
        }
        let removed_slot: usize;
        match &self.entries[handle as usize] {
            None => {
                return false;
            },
            Some(record) => {
                removed_slot = record.active_slot;
            },
        }
        proof {
            assert(old(self).live(handle));
            assert((removed_slot as int) < old(self).active_handles@.len());
            assert(old(self).active_handles@[removed_slot as int] == handle);
        }
        let last_handle: u32 = match self.active_handles.pop() {
            Some(h) => h,
            None => {
                proof {
                    assert(false);
                }
                return false;
            },
        };
        if last_handle != handle {
            proof {
                assert(last_handle == old(self).active_handles@.last());
                assert(old(self).live(last_handle));
                assert(removed_slot < self.active_handles@.len()) by {
                    if removed_slot == old(self).active_handles@.len() - 1 {
                        assert(old(self).active_handles@[removed_slot as int] == handle);
                    }
                };
            }
            self.active_handles[removed_slot] = last_handle;
            match &self.entries[last_handle as usize] {
                None => {
                    proof {
                        assert(false);
                    }
                },
                Some(record) => {
                    let mut moved_record = *record;
                    moved_record.active_slot = removed_slot;
                    self.entries[last_handle as usize] = Some(moved_record);
                },
            }
        }
        self.entries[handle as usize] = None;
        self.free_list.push(handle);
        proof {
            assert(self.active_handles@ =~= old(self).active_handles@.update(
                old(self).record(handle).active_slot as int,
                old(self).active_handles@.last(),
            ).drop_last());
            assert forall|h: u32| #[trigger] self.live(h) implies {
                &&& (self.record(h).active_slot as int) < self.active_handles@.len()
                &&& self.active_handles@[self.record(h).active_slot as int] == h
            } by {
                assert(old(self).live(h));
                if h != old(self).active_handles@.last() {
                    assert(old(self).active_handles@[old(self).record(h).active_slot as int]
                        == h);
                }
            }
            assert forall|i: int| 0 <= i < self.active_handles@.len() implies {
                &&& (#[trigger] self.active_handles@[i] as int) < self.entries@.len()
                &&& self.entries@[self.active_handles@[i] as int] is Some
                &&& self.entries@[self.active_handles@[i] as int]->0.active_slot == i
            } by {
                if i != removed_slot {
                    assert(self.active_handles@[i] == old(self).active_handles@[i]);
                    assert(old(self).live(old(self).active_handles@[i]));
                }
            }
        }
        true
    }

    /// Whether another handle can be allocated: either a freed handle is
    /// available for reuse, or a fresh handle value still fits in `u32`.
    pub fn has_handle_space(&self) -> (available: bool)
        ensures
            available == (self.free_list@.len() > 0 || self.entries@.len() < u32::MAX as int),
    {
        self.free_list.len() > 0 || self.entries.len() < u32::MAX as usize
    }

    /// Number of live handles.
    pub fn len(&self) -> (n: usize)
        ensures
            n == self.spec_len(),
    {
        self.active_handles.len()
    }

    /// Whether no handle is live.
    pub fn is_empty(&self) -> (empty: bool)
        ensures
            empty == (self.spec_len() == 0),
    {
        self.active_handles.is_empty()
    }

    /// Dense iteration by position: the live handle at a given position of
    /// the active list, or `None` past its end.
    pub fn handle_at(&self, index: usize) -> (handle: Option<u32>)
        ensures
            handle == if index < self.active_handles@.len() {
                Some(self.active_handles@[index as int])
            } else {
                None::<u32>
            },
    {
        if index < self.active_handles.len() {
            Some(self.active_handles[index])
        } else {
            None
        }
    }
}

/// Distinct live handles never outnumber the live entries of a
/// well-formed table: each live handle occupies its own position of the
/// dense active list.
pub proof fn lemma_distinct_live_handles_bounded(store: &InstanceStore, handles: Seq<u32>)
    requires
        store.wf(),
        forall|i: int| 0 <= i < handles.len() ==> store.live(#[trigger] handles[i]),
        forall|i: int, j: int| 0 <= i < j < handles.len() ==> handles[i] != handles[j],
    ensures
        handles.len() <= store.spec_len(),
{
    let slots = handles.map_values(|h: u32| store.record(h).active_slot as int);
    assert forall|i: int, j: int| 0 <= i < j < slots.len() implies slots[i] != slots[j] by {
        assert(store.live(handles[i]));
        assert(store.live(handles[j]));
        if slots[i] == slots[j] {
            assert(store.active_handles@[store.record(handles[i]).active_slot as int]
                == handles[i]);
            assert(store.active_handles@[store.record(handles[j]).active_slot as int]
                == handles[j]);
        }
    }
    assert(slots.no_duplicates());
    slots.unique_seq_to_set();
    let range = vstd::set_lib::set_int_range(0, store.spec_len());
    vstd::set_lib::lemma_int_range(0, store.spec_len());
    assert forall|x: int| slots.to_set().contains(x) implies range.contains(x) by {
        let i = choose|i: int| 0 <= i < slots.len() && slots[i] == x;
        assert(store.live(handles[i]));
    }
    vstd::set_lib::lemma_len_subset(slots.to_set(), range);
}

} // verus!
