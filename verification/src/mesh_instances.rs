use vstd::prelude::*;
use crate::gpu::{realloc_ops_for, upload_ops_for, DeviceOp};
use crate::utils::{Matrix, RenderError};

verus! {

/// Dense per-mesh instance storage mirrored to a device-resident buffer.
///
/// `transforms` and `handles` are parallel arrays: slot `s` holds the
/// transform of the instance owned by handle `handles[s]`. `capacity` is the
/// room allocated on the device, in rows; it only grows (geometric
/// doubling), except for an explicit `defragment`. `pending` records, as a
/// strictly increasing list, the slots whose CPU-side value is not yet known
/// to match the device-resident copy; a flush coalesces them into maximal
/// contiguous runs and issues one upload per run.
pub struct MeshInstances {
    /// Identifier of the device-resident buffer this storage mirrors to;
    /// treat as read-only.
    pub buffer: usize,
    /// Dense transforms, one row per live instance; treat as read-only.
    pub transforms: Vec<Matrix>,
    /// Owning handle of each row; treat as read-only.
    pub handles: Vec<u32>,
    /// Rows allocated device-side; treat as read-only.
    pub capacity: usize,
    /// Dirty slots, strictly increasing; treat as read-only.
    pub pending: Vec<usize>,
}

/// Capacity after geometric growth: the first value reached from `current`
/// by repeated doubling that is at least `min_needed`.
pub open spec fn grown_capacity(current: int, min_needed: int) -> int
    decreases (if min_needed - current >= 0 { min_needed - current } else { 0 }),
        when current >= 1
{
    if current >= min_needed {
        current
    } else {
        grown_capacity(current * 2, min_needed)
    }
}

impl MeshInstances {
    /// Number of live rows.
    pub open spec fn spec_len(&self) -> int {
        self.transforms@.len() as int
    }

    /// Whether a slot is marked dirty.
    pub open spec fn is_pending(&self, slot: usize) -> bool {
        self.pending@.contains(slot)
    }

    /// The dirty list names only live slots.
    pub open spec fn pending_in_range(&self) -> bool {
        forall|i: int|
            0 <= i < self.pending@.len() ==> (#[trigger] self.pending@[i] as int)
                < self.transforms@.len()
    }

    /// The dirty list is strictly increasing (so also duplicate-free).
    pub open spec fn pending_sorted(&self) -> bool {
        forall|i: int, j: int|
            0 <= i < j < self.pending@.len() ==> #[trigger] self.pending@[i]
                < #[trigger] self.pending@[j]
    }

    /// Structural invariant: the parallel arrays agree in length, the
    /// allocated capacity covers every live row, and the dirty list is
    /// strictly increasing with every entry a live slot. (Capacity zero is
    /// legal: an explicit defragment of an empty buffer releases all of
    /// it.)
    pub open spec fn wf(&self) -> bool {
        &&& self.handles@.len() == self.transforms@.len()
        &&& self.capacity >= self.transforms@.len()
        &&& self.pending_in_range()
        &&& self.pending_sorted()
    }

    /// Creates empty storage backed by a freshly allocated device buffer of
    /// `initial_capacity` rows (at least one).
    pub fn new(buffer: usize, initial_capacity: usize, ops: &mut Vec<DeviceOp>) -> (mi:
        MeshInstances)
        ensures
            mi.wf(),
            mi.buffer == buffer,
            mi.spec_len() == 0,
            mi.handles@.len() == 0,
            mi.pending@.len() == 0,
            mi.capacity == if initial_capacity >= 1 {
                initial_capacity as int
            } else {
                1int
            },
            final(ops)@ == old(ops)@.push(DeviceOp::AllocateInstanceBuffer {
                buffer,
                capacity: if initial_capacity >= 1 {
                    initial_capacity
                } else {
                    1usize
                },
            }),
    {
        let capacity = if initial_capacity >= 1 {
            initial_capacity
        } else {
            1
        };
        ops.push(DeviceOp::AllocateInstanceBuffer { buffer, capacity });
        MeshInstances {
            buffer,
            transforms: Vec::new(),
            handles: Vec::new(),
            capacity,
            pending: Vec::new(),
        }
    }

    /// Number of live rows.
    pub fn len(&self) -> (n: usize)
        ensures
            n == self.spec_len(),
    {
        self.transforms.len()
    }

    /// Identifier of the device-resident buffer this storage mirrors to.
    pub fn buffer_handle(&self) -> (b: usize)
        ensures
            b == self.buffer,
    {
        self.buffer
    }

    /// Marks a slot dirty, keeping the dirty list strictly increasing and
    /// duplicate-free.
    fn mark_pending(&mut self, slot: usize)
        requires
            old(self).pending_sorted(),
            old(self).pending_in_range(),
            (slot as int) < old(self).spec_len(),
        ensures
            final(self).pending_sorted(),
            final(self).pending_in_range(),
            forall|s: usize|
                final(self).is_pending(s) <==> old(self).is_pending(s) || s == slot,
            final(self).transforms@ == old(self).transforms@,
            final(self).handles@ == old(self).handles@,
            final(self).capacity == old(self).capacity,
            final(self).buffer == old(self).buffer,
    {
        let mut idx: usize = 0;
        while idx < self.pending.len() && self.pending[idx] < slot
            invariant
                idx <= self.pending@.len(),
                forall|m: int| 0 <= m < idx ==> (#[trigger] self.pending@[m]) < slot,
                self == old(self),
            decreases self.pending@.len() - idx,
        {
            idx = idx + 1;
        }
        if idx < self.pending.len() && self.pending[idx] == slot {
            proof {
                assert(old(self).is_pending(slot));
                assert forall|s: usize|
                    self.is_pending(s) <==> old(self).is_pending(s) || s == slot by {}
            }
            return ;
        }
        self.pending.insert(idx, slot);
        proof {
            let p_old = old(self).pending@;
            let p_new = self.pending@;
            assert(p_new == p_old.insert(idx as int, slot));
            assert forall|s: usize| self.is_pending(s) implies old(self).is_pending(s)
                || s == slot by {
                let w = choose|w: int| 0 <= w < p_new.len() && p_new[w] == s;
                if w < idx {
                    assert(p_old[w] == s);
                } else if w > idx {
                    assert(p_old[w - 1] == s);
                }
            }
            assert forall|s: usize| old(self).is_pending(s) || s == slot implies self.is_pending(
                s,
            ) by {
                if s == slot {
                    assert(p_new[idx as int] == slot);
                } else {
                    let w = choose|w: int| 0 <= w < p_old.len() && p_old[w] == s;
                    if w < idx {
                        assert(p_new[w] == s);
                    } else {
                        assert(p_new[w + 1] == s);
                    }
                }
            }
            assert forall|i: int, j: int| 0 <= i < j < p_new.len() implies #[trigger] p_new[i]
                < #[trigger] p_new[j] by {
                if j < idx {
                } else if j == idx {
                    assert(p_new[i] == p_old[i] && p_old[i] < slot);
                } else {
                    assert(p_new[j] == p_old[j - 1]);
                    assert(p_old[idx as int] > slot);
                    if i < idx {
                        assert(p_new[i] == p_old[i]);
                        assert(p_old[i] < slot);
                        assert(p_old[j - 1] >= p_old[idx as int]);
                    } else if i == idx {
                        assert(p_new[i] == slot);
                        assert(p_old[j - 1] >= p_old[idx as int]);
                    } else {
                        assert(p_new[i] == p_old[i - 1]);
                    }
                }
            }
        }
    }

    /// Clears a slot from the dirty list if it is there. Only called for
    /// a slot no dirty entry exceeds, so in the strictly increasing list it
    /// can only sit at the very end.
    fn unmark_pending(&mut self, slot: usize)
        requires
            old(self).pending_sorted(),
            forall|i: int|
                0 <= i < old(self).pending@.len() ==> (#[trigger] old(self).pending@[i]) <= slot,
        ensures
            final(self).pending_sorted(),
            forall|s: usize|
                final(self).is_pending(s) <==> old(self).is_pending(s) && s != slot,
            forall|i: int|
                0 <= i < final(self).pending@.len() ==> old(self).pending@.contains(
                    #[trigger] final(self).pending@[i],
                ) && final(self).pending@[i] != slot,
            final(self).transforms@ == old(self).transforms@,
            final(self).handles@ == old(self).handles@,
            final(self).capacity == old(self).capacity,
            final(self).buffer == old(self).buffer,
    {
        let n = self.pending.len();
        if n > 0 && self.pending[n - 1] == slot {
            self.pending.pop();
            proof {
                let p_old = old(self).pending@;
                let p_new = self.pending@;
                assert(p_new == p_old.drop_last());
                assert forall|s: usize|
                    self.is_pending(s) <==> old(self).is_pending(s) && s != slot by {
                    if self.is_pending(s) {
                        let w = choose|w: int| 0 <= w < p_new.len() && p_new[w] == s;
                        assert(p_old[w] == s);
                        assert(p_old[w] < p_old[p_old.len() - 1]);
                    }
                    if old(self).is_pending(s) && s != slot {
                        let w = choose|w: int| 0 <= w < p_old.len() && p_old[w] == s;
                        assert(w < p_old.len() - 1);
                        assert(p_new[w] == s);
                    }
                }
            }
        } else {
            proof {
                assert forall|s: usize|
                    self.is_pending(s) <==> old(self).is_pending(s) && s != slot by {
                    if old(self).is_pending(slot) {
                        let w = choose|w: int|
                            0 <= w < self.pending@.len() && self.pending@[w] == slot;
                        assert(self.pending@[self.pending@.len() - 1] >= slot);
                        assert(self.pending@[self.pending@.len() - 1] <= slot);
                    }
                }
            }
        }
    }

    /// Binds the owning handle of a slot after allocation; fails with
    /// `InvalidSlot`, changing nothing, exactly when the slot is out of
    /// range. (Allocation and binding are two steps because the handle
    /// table needs the slot to build its record, and the buffer needs the
    /// handle for later removal bookkeeping.)
    pub fn set_handle(&mut self, slot: usize, handle: u32) -> (result: Result<(), RenderError>)
        requires
            old(self).wf(),
        ensures
            final(self).wf(),
            result is Ok <==> (slot as int) < old(self).spec_len(),
            result matches Err(e) ==> e == RenderError::InvalidSlot && *final(self) == *old(
                self,
            ),
            result is Ok ==> {
                &&& final(self).handles@ == old(self).handles@.update(slot as int, handle)
                &&& final(self).transforms@ == old(self).transforms@
                &&& final(self).pending@ == old(self).pending@
                &&& final(self).capacity == old(self).capacity
                &&& final(self).buffer == old(self).buffer
            },
    {
        if slot >= self.handles.len() {
            return Err(RenderError::InvalidSlot);
        }
        self.handles[slot] = handle;
        Ok(())
    }

    /// Appends a new dense row holding `matrix` (with a placeholder owning
    /// handle), grows the device buffer if the new row exceeds its
    /// capacity, and marks the new slot dirty. Returns the new slot.
    pub fn allocate(&mut self, matrix: &Matrix, ops: &mut Vec<DeviceOp>) -> (slot: usize)
        requires
            old(self).wf(),
            old(self).spec_len() + 1 <= usize::MAX as int / 2,
        ensures
            final(self).wf(),
            slot == old(self).spec_len(),
            final(self).transforms@ == old(self).transforms@.push(*matrix),
            final(self).handles@ == old(self).handles@.push(0u32),
            forall|s: usize|
                final(self).is_pending(s) <==> old(self).is_pending(s) || s == slot,
            final(self).buffer == old(self).buffer,
            final(self).capacity == if old(self).capacity >= old(self).spec_len() + 1 {
                old(self).capacity as int
            } else {
                grown_capacity(
                    if old(self).capacity >= 1 {
                        old(self).capacity as int
                    } else {
                        1int
                    },
                    old(self).spec_len() + 1,
                )
            },
            old(self).capacity >= old(self).spec_len() + 1 ==> final(ops)@ == old(ops)@,
            old(self).capacity < old(self).spec_len() + 1 ==> realloc_ops_for(
                final(ops)@.skip(old(ops)@.len() as int),
                old(self).buffer,
                final(self).capacity,
                final(self).transforms@,
            ) && final(ops)@.subrange(0, old(ops)@.len() as int) == old(ops)@,
    {
        let slot = self.transforms.len();
        self.transforms.push(*matrix);
        self.handles.push(0);
        self.ensure_capacity(slot + 1, ops);
        self.mark_pending(slot);
        slot
    }

    /// Overwrites the transform in a dense slot and marks it dirty; fails
    /// with `InvalidSlot`, changing nothing, exactly when the slot is out
    /// of range.
    pub fn update_slot(&mut self, slot: usize, matrix: &Matrix) -> (result: Result<
        (),
        RenderError,
    >)
        requires
            old(self).wf(),
        ensures
            final(self).wf(),
            result is Ok <==> (slot as int) < old(self).spec_len(),
            result matches Err(e) ==> e == RenderError::InvalidSlot && *final(self) == *old(
                self,
            ),
            result is Ok ==> {
                &&& final(self).transforms@ == old(self).transforms@.update(
                    slot as int,
                    *matrix,
                )
                &&& final(self).handles@ == old(self).handles@
                &&& forall|s: usize|
                    final(self).is_pending(s) <==> old(self).is_pending(s) || s == slot
                &&& final(self).capacity == old(self).capacity
                &&& final(self).buffer == old(self).buffer
            },
    {
        if slot >= self.transforms.len() {
            return Err(RenderError::InvalidSlot);
        }
        self.transforms[slot] = *matrix;
        self.mark_pending(slot);
        Ok(())
    }

    /// Removes a dense slot by swapping the last row into it; fails with
    /// `InvalidSlot`, changing nothing, exactly when the slot is out of
    /// range. If a row actually moved into the vacated slot, that slot is
    /// marked dirty and the moved row's owning handle is returned so the
    /// caller can repoint that handle's bookkeeping; removing the last row
    /// yields `None`. A dirty mark on the disappearing last slot is
    /// discarded.
    pub fn remove_slot(&mut self, slot: usize) -> (result: Result<Option<u32>, RenderError>)
        requires
            old(self).wf(),
        ensures
            final(self).wf(),
            result is Ok <==> (slot as int) < old(self).spec_len(),
            result matches Err(e) ==> e == RenderError::InvalidSlot && *final(self) == *old(
                self,
            ),
            result matches Ok(moved) ==> {
                &&& final(self).transforms@ == old(self).transforms@.update(
                    slot as int,
                    old(self).transforms@.last(),
                ).drop_last()
                &&& final(self).handles@ == old(self).handles@.update(
                    slot as int,
                    old(self).handles@.last(),
                ).drop_last()
                &&& moved == if (slot as int) < old(self).spec_len() - 1 {
                    Some(old(self).handles@.last())
                } else {
                    None::<u32>
                }
                &&& forall|s: usize|
                    final(self).is_pending(s) <==> (old(self).is_pending(s) || ((slot as int)
                        < old(self).spec_len() - 1 && s == slot)) && (s as int) != old(
                        self,
                    ).spec_len() - 1
                &&& final(self).capacity == old(self).capacity
                &&& final(self).buffer == old(self).buffer
            },
    {
        if slot >= self.transforms.len() {
            return Err(RenderError::InvalidSlot);
        }
        let last_index = self.transforms.len() - 1;
        self.transforms.swap_remove(slot);
        self.handles.swap_remove(slot);
        self.unmark_pending(last_index);
        proof {
            assert forall|i: int| 0 <= i < self.pending@.len() implies (
            #[trigger] self.pending@[i] as int) < self.transforms@.len() by {
                let e = self.pending@[i];
                assert(old(self).pending@.contains(e));
                let w = choose|w: int|
                    0 <= w < old(self).pending@.len() && old(self).pending@[w] == e;
                assert((old(self).pending@[w] as int) < old(self).transforms@.len());
            }
        }
        if slot < self.transforms.len() {
            self.mark_pending(slot);
            Ok(Some(self.handles[slot]))
        } else {
            Ok(None)
        }
    }

    /// Grows the allocated device capacity to at least `min_capacity` rows
    /// by geometric doubling. A growth event reallocates the device buffer
    /// and performs exactly one full re-upload of all live rows (device
    /// reallocation is not assumed to preserve contents); when the current
    /// capacity already suffices this is a no-op and no device call is
    /// made.
    pub fn ensure_capacity(&mut self, min_capacity: usize, ops: &mut Vec<DeviceOp>)
        requires
            min_capacity <= usize::MAX as int / 2,
        ensures
            old(self).wf() ==> final(self).wf(),
            final(self).capacity >= min_capacity,
            final(self).capacity >= old(self).capacity,
            final(self).transforms@ == old(self).transforms@,
            final(self).handles@ == old(self).handles@,
            final(self).pending@ == old(self).pending@,
            final(self).buffer == old(self).buffer,
            final(self).capacity == if old(self).capacity >= min_capacity {
                old(self).capacity as int
            } else {
                grown_capacity(
                    if old(self).capacity >= 1 {
                        old(self).capacity as int
                    } else {
                        1int
                    },
                    min_capacity as int,
                )
            },
            old(self).capacity >= min_capacity ==> final(ops)@ == old(ops)@,
            old(self).capacity < min_capacity ==> realloc_ops_for(
                final(ops)@.skip(old(ops)@.len() as int),
                old(self).buffer,
                final(self).capacity,
                old(self).transforms@,
            ) && final(ops)@.subrange(0, old(ops)@.len() as int) == old(ops)@,
    {
        if self.capacity >= min_capacity {
            return ;
        }
        let mut new_capacity = if self.capacity >= 1 {
            self.capacity
        } else {
            1
        };
        let ghost start = new_capacity as int;
        while new_capacity < min_capacity
            invariant
                1 <= new_capacity,
                min_capacity <= usize::MAX as int / 2,
                grown_capacity(start, min_capacity as int)
                    == grown_capacity(new_capacity as int, min_capacity as int),
            decreases (if min_capacity - new_capacity >= 0 {
                min_capacity - new_capacity
            } else {
                0int
            }),
        {
            new_capacity = new_capacity * 2;
        }
        self.capacity = new_capacity;
        let ghost base = ops@.len();
        let ghost alloc_op = DeviceOp::AllocateInstanceBuffer {
            buffer: self.buffer,
            capacity: new_capacity,
        };
        ops.push(DeviceOp::AllocateInstanceBuffer { buffer: self.buffer, capacity: new_capacity });
        self.upload_all(ops);
        proof {
            if old(self).transforms@.len() == 0 {
                assert(ops@.skip(base as int) =~= seq![alloc_op]);
            } else {
                assert(ops@ == old(ops)@.push(alloc_op).push(ops@.last()));
                assert(ops@.skip(base as int) =~= seq![alloc_op, ops@.last()]);
            }
            assert(ops@.subrange(0, base as int) =~= old(ops)@);
        }
    }

    /// Appends one upload of every live row to the operation list; nothing
    /// when there are no rows.
    pub fn upload_all(&self, ops: &mut Vec<DeviceOp>)
        ensures
            self.spec_len() == 0 ==> final(ops)@ == old(ops)@,
            self.spec_len() > 0 ==> {
                &&& final(ops)@ == old(ops)@.push(final(ops)@.last())
                &&& (final(ops)@.last() matches DeviceOp::UploadInstances {
                    buffer,
                    first_slot,
                    rows,
                } && buffer == self.buffer && first_slot == 0 && rows@ == self.transforms@)
            },
    {
        if self.transforms.is_empty() {
            return ;
        }
        let mut rows: Vec<Matrix> = Vec::new();
        let mut t: usize = 0;
        while t < self.transforms.len()
            invariant
                t <= self.transforms@.len(),
                rows@ == self.transforms@.subrange(0, t as int),
            decreases self.transforms@.len() - t,
        {
            rows.push(self.transforms[t]);
            t = t + 1;
            proof {
                assert(rows@ =~= self.transforms@.subrange(0, t as int));
            }
        }
        proof {
            assert(rows@ =~= self.transforms@);
        }
        ops.push(DeviceOp::UploadInstances { buffer: self.buffer, first_slot: 0, rows });
        proof {
            assert(ops@.subrange(0, old(ops)@.len() as int) =~= old(ops)@);
        }
    }

    /// Maintenance operation: shrinks the allocated device capacity to
    /// exactly the number of live rows (releasing everything for an empty
    /// buffer), forcing one full reallocation and re-upload, and discards
    /// all dirty marks. Never invoked implicitly.
    pub fn defragment(&mut self, ops: &mut Vec<DeviceOp>)
        requires
            old(self).wf(),
        ensures
            final(self).wf(),
            final(self).capacity == old(self).spec_len(),
            final(self).transforms@ == old(self).transforms@,
            final(self).handles@ == old(self).handles@,
            final(self).pending@.len() == 0,
            final(self).buffer == old(self).buffer,
            final(ops)@.len() >= old(ops)@.len(),
            realloc_ops_for(
                final(ops)@.skip(old(ops)@.len() as int),
                old(self).buffer,
                final(self).capacity as usize,
                old(self).transforms@,
            ),
            final(ops)@.subrange(0, old(ops)@.len() as int) == old(ops)@,
    {
        let capacity = self.transforms.len();
        self.capacity = capacity;
        let ghost base = ops@.len();
        let ghost alloc_op = DeviceOp::AllocateInstanceBuffer { buffer: self.buffer, capacity };
        ops.push(DeviceOp::AllocateInstanceBuffer { buffer: self.buffer, capacity });
        self.upload_all(ops);
        self.pending.clear();
        proof {
            if old(self).transforms@.len() == 0 {
                assert(ops@.skip(base as int) =~= seq![alloc_op]);
            } else {
                assert(ops@ == old(ops)@.push(alloc_op).push(ops@.last()));
                assert(ops@.skip(base as int) =~= seq![alloc_op, ops@.last()]);
            }
            assert(ops@.subrange(0, base as int) =~= old(ops)@);
        }
    }

    /// Synchronizes every dirty slot to the device: merges the dirty slots
    /// (kept sorted) into maximal contiguous runs and issues exactly one
    /// upload per run, each covering exactly that run's transforms, so the
    /// number of device calls is bounded by the number of disjoint modified
    /// regions and unmodified slots are never re-uploaded. Clears the dirty
    /// set.
    pub fn flush_pending(&mut self, ops: &mut Vec<DeviceOp>)
        requires
            old(self).wf(),
        ensures
            final(self).wf(),
            final(self).pending@.len() == 0,
            final(self).transforms@ == old(self).transforms@,
            final(self).handles@ == old(self).handles@,
            final(self).capacity == old(self).capacity,
            final(self).buffer == old(self).buffer,
            final(ops)@.len() >= old(ops)@.len(),
            final(ops)@.subrange(0, old(ops)@.len() as int) == old(ops)@,
            upload_ops_for(
                final(ops)@.skip(old(ops)@.len() as int),
                old(self).buffer,
                old(self).pending@,
                old(self).transforms@,
            ),
    {
        let ghost base = ops@.len() as int;
        let ghost pend = self.pending@;
        let ghost rows_all = self.transforms@;
        let ghost buf = self.buffer;
        proof {
            assert(pend.skip(0) =~= pend);
            assert forall|fut: Seq<DeviceOp>|
                upload_ops_for(fut, buf, pend.skip(0), rows_all) implies upload_ops_for(
                #[trigger] ops@.skip(base).add(fut),
                buf,
                pend,
                rows_all,
            ) by {
                assert(ops@.skip(base).add(fut) =~= fut);
            }
        }
        let mut i: usize = 0;
        while i < self.pending.len()
            invariant
                self == old(self),
                pend == old(self).pending@,
                rows_all == old(self).transforms@,
                buf == old(self).buffer,
                old(self).wf(),
                i <= pend.len(),
                base == old(ops)@.len() as int,
                base <= ops@.len(),
                ops@.subrange(0, base) == old(ops)@,
                forall|fut: Seq<DeviceOp>|
                    upload_ops_for(fut, buf, pend.skip(i as int), rows_all)
                        ==> upload_ops_for(
                        #[trigger] ops@.skip(base).add(fut),
                        buf,
                        pend,
                        rows_all,
                    ),
            decreases pend.len() - i,
        {
            let start_slot = self.pending[i];
            let mut j: usize = i + 1;
            while j < self.pending.len() && self.pending[j] == self.pending[j - 1] + 1
                invariant
                    self == old(self),
                    pend == old(self).pending@,
                    old(self).wf(),
                    i < j <= pend.len(),
                    forall|m: int| i < m < j ==> #[trigger] pend[m] == pend[m - 1] + 1,
                decreases pend.len() - j,
            {
                j = j + 1;
            }
            proof {
                let tail = pend.skip(i as int);
                assert forall|m: int| 1 <= m < j - i implies #[trigger] tail[m] == tail[m - 1]
                    + 1 by {
                    assert(pend[i + m] == pend[i + m - 1] + 1);
                }
                if (j as int) < pend.len() {
                    assert(tail[j - i] == pend[j as int]);
                }
                crate::gpu::lemma_head_run_len_of_chain(tail, j - i);
                crate::gpu::lemma_head_run_len_bounds(tail);
                assert(tail[j - i - 1] == start_slot + (j - i) - 1);
                assert((pend[j as int - 1] as int) < rows_all.len());
            }
            let mut rows: Vec<Matrix> = Vec::new();
            let mut t: usize = start_slot;
            let end: usize = start_slot + (j - i);
            proof {
                assert(rows@ =~= rows_all.subrange(start_slot as int, start_slot as int));
            }
            while t < end
                invariant
                    self == old(self),
                    rows_all == old(self).transforms@,
                    start_slot <= t <= end,
                    end <= rows_all.len(),
                    rows@ == rows_all.subrange(start_slot as int, t as int),
                decreases end - t,
            {
                rows.push(self.transforms[t]);
                t = t + 1;
                proof {
                    assert(rows@ =~= rows_all.subrange(start_slot as int, t as int));
                }
            }
            let ghost done = ops@.skip(base);
            let ghost op_g = DeviceOp::UploadInstances {
                buffer: self.buffer,
                first_slot: start_slot,
                rows,
            };
            ops.push(DeviceOp::UploadInstances {
                buffer: self.buffer,
                first_slot: start_slot,
                rows,
            });
            proof {
                assert(ops@.skip(base) =~= done.push(op_g));
                assert(ops@.subrange(0, base) =~= old(ops)@);
                let k = j - i;
                assert forall|fut: Seq<DeviceOp>|
                    upload_ops_for(fut, buf, pend.skip(j as int), rows_all) implies upload_ops_for(
                    #[trigger] ops@.skip(base).add(fut),
                    buf,
                    pend,
                    rows_all,
                ) by {
                    let fut2 = seq![op_g].add(fut);
                    assert(fut2.drop_first() =~= fut);
                    assert(pend.skip(i as int).skip(k as int) =~= pend.skip(j as int));
                    assert(fut2[0]->UploadInstances_rows@ == rows_all.subrange(
                        pend.skip(i as int)[0] as int,
                        pend.skip(i as int)[0] + crate::gpu::head_run_len(pend.skip(i as int)),
                    ));
                    assert(upload_ops_for(fut2, buf, pend.skip(i as int), rows_all));
                    assert(done.add(fut2) =~= ops@.skip(base).add(fut));
                }
            }
            i = j;
        }
        self.pending.clear();
        proof {
            assert(pend.skip(i as int).len() == 0);
            assert(upload_ops_for(Seq::<DeviceOp>::empty(), buf, pend.skip(i as int), rows_all));
            assert(ops@.skip(base).add(Seq::<DeviceOp>::empty()) =~= ops@.skip(base));
        }
    }
}

} // verus!
