use vstd::prelude::*;
use crate::utils::Matrix;

verus! {

/// One synchronous call against the graphics device. The verified manager
/// decides which calls to make and appends them to an operation list; the
/// unverified device shell performs each operation, in order, against the
/// real context.
#[derive(Debug, PartialEq, Eq)]
pub enum DeviceOp {
    /// Set up geometry for a newly registered mesh: create its attribute
    /// binding and vertex buffer, upload the interleaved vertex words, and
    /// configure the per-vertex and per-instance attributes.
    CreateMesh { mesh: usize, vertices: Vec<u32> },
    /// (Re)allocate the device-resident instance buffer of a mesh with room
    /// for `capacity` transforms. Reallocation is not assumed to preserve
    /// the previous contents.
    AllocateInstanceBuffer { buffer: usize, capacity: usize },
    /// Upload `rows` into an instance buffer, the first row landing in slot
    /// `first_slot`.
    UploadInstances { buffer: usize, first_slot: usize, rows: Vec<Matrix> },
    /// Issue one instanced draw of a mesh's full geometry.
    DrawMeshInstances { mesh: usize, vertex_count: usize, instance_count: usize },
    /// Upload the shared view matrix uniform.
    SetViewMatrix { matrix: Matrix },
    /// Upload the shared projection matrix uniform.
    SetProjectionMatrix { matrix: Matrix },
}

/// Length of the maximal leading run of consecutive values: how many
/// elements from the front step up by exactly one each.
pub open spec fn head_run_len(pend: Seq<usize>) -> int
    decreases pend.len(),
{
    if pend.len() == 0 {
        0
    } else if pend.len() >= 2 && pend[1] == pend[0] + 1 {
        1 + head_run_len(pend.drop_first())
    } else {
        1
    }
}

/// The leading run covers at least one and at most all elements of a
/// non-empty sequence, and each of its elements steps up by exactly one.
pub proof fn lemma_head_run_len_bounds(pend: Seq<usize>)
    requires
        pend.len() > 0,
    ensures
        1 <= head_run_len(pend) <= pend.len(),
        forall|m: int| 0 <= m < head_run_len(pend) ==> #[trigger] pend[m] == pend[0] + m,
    decreases pend.len(),
{
    if pend.len() >= 2 && pend[1] == pend[0] + 1 {
        lemma_head_run_len_bounds(pend.drop_first());
        assert forall|m: int| 0 <= m < head_run_len(pend) implies #[trigger] pend[m] == pend[0]
            + m by {
            if m >= 1 {
                assert(pend.drop_first()[m - 1] == pend.drop_first()[0] + (m - 1));
            }
        }
    }
}

/// A sequence whose first `k` elements form one maximal consecutive run has
/// `head_run_len` exactly `k`.
pub proof fn lemma_head_run_len_of_chain(pend: Seq<usize>, k: int)
    requires
        1 <= k <= pend.len(),
        forall|m: int| 1 <= m < k ==> #[trigger] pend[m] == pend[m - 1] + 1,
        k < pend.len() ==> pend[k] != pend[k - 1] + 1,
    ensures
        head_run_len(pend) == k,
    decreases k,
{
    if k == 1 {
        if pend.len() >= 2 {
            assert(pend[1] != pend[0] + 1);
        }
    } else {
        assert(pend[1] == pend[0] + 1);
        let tail = pend.drop_first();
        assert forall|m: int| 1 <= m < k - 1 implies #[trigger] tail[m] == tail[m - 1] + 1 by {
            assert(pend[m + 1] == pend[m] + 1);
        }
        assert(k - 1 < tail.len() ==> tail[k - 1] != tail[k - 2] + 1) by {
            if k < pend.len() {
                assert(pend[k] != pend[k - 1] + 1);
            }
        }
        lemma_head_run_len_of_chain(tail, k - 1);
    }
}

#[via_fn]
proof fn run_count_decreases(pend: Seq<usize>) {
    if pend.len() > 0 {
        lemma_head_run_len_bounds(pend);
    }
}

/// Number of maximal contiguous runs in a strictly increasing sequence of
/// slot indices: the number of uploads a flush of those slots issues.
pub open spec fn run_count(pend: Seq<usize>) -> int
    decreases pend.len(),
    via run_count_decreases
{
    if pend.len() == 0 {
        0
    } else {
        1 + run_count(pend.skip(head_run_len(pend)))
    }
}

#[via_fn]
proof fn upload_ops_for_decreases(ops: Seq<DeviceOp>, buffer: usize, pend: Seq<usize>, rows: Seq<
    Matrix>) {
    if pend.len() > 0 {
        lemma_head_run_len_bounds(pend);
    }
}

/// The operation list a flush of `pend` (sorted dirty slots) out of `rows`
/// (the dense CPU-side contents) must issue: exactly one upload per maximal
/// contiguous run of slots, in ascending order, each covering exactly that
/// run's rows.
pub open spec fn upload_ops_for(
    ops: Seq<DeviceOp>,
    buffer: usize,
    pend: Seq<usize>,
    rows: Seq<Matrix>,
) -> bool
    decreases pend.len(),
    via upload_ops_for_decreases
{
    if pend.len() == 0 {
        ops.len() == 0
    } else {
        let k = head_run_len(pend);
        &&& ops.len() >= 1
        &&& ops[0] matches DeviceOp::UploadInstances { buffer: b, first_slot: f, rows: r }
        &&& (ops[0]->UploadInstances_buffer == buffer)
        &&& (ops[0]->UploadInstances_first_slot == pend[0])
        &&& (ops[0]->UploadInstances_rows@ == rows.subrange(
            pend[0] as int,
            pend[0] + k,
        ))
        &&& upload_ops_for(ops.drop_first(), buffer, pend.skip(k), rows)
    }
}

/// A flush issues exactly `run_count` uploads.
pub proof fn lemma_upload_ops_len(
    ops: Seq<DeviceOp>,
    buffer: usize,
    pend: Seq<usize>,
    rows: Seq<Matrix>,
)
    requires
        upload_ops_for(ops, buffer, pend, rows),
    ensures
        ops.len() == run_count(pend),
    decreases pend.len(),
{
    if pend.len() > 0 {
        lemma_head_run_len_bounds(pend);
        lemma_upload_ops_len(ops.drop_first(), buffer, pend.skip(head_run_len(pend)), rows);
    }
}

/// Law: flushing dirty slots that are pairwise non-adjacent (each pair of
/// neighbours differs by at least two) issues exactly one upload per dirty
/// slot.
pub proof fn lemma_disjoint_slots_upload_each(
    ops: Seq<DeviceOp>,
    buffer: usize,
    pend: Seq<usize>,
    rows: Seq<Matrix>,
)
    requires
        upload_ops_for(ops, buffer, pend, rows),
        forall|i: int| 1 <= i < pend.len() ==> #[trigger] pend[i] > pend[i - 1] + 1,
    ensures
        ops.len() == pend.len(),
    decreases pend.len(),
{
    if pend.len() > 0 {
        if pend.len() >= 2 {
            assert(pend[1] > pend[0] + 1);
        }
        assert(head_run_len(pend) == 1);
        let tail = pend.skip(1);
        assert forall|i: int| 1 <= i < tail.len() implies #[trigger] tail[i] > tail[i - 1]
            + 1 by {
            assert(pend[i + 1] > pend[i] + 1);
        }
        lemma_disjoint_slots_upload_each(ops.drop_first(), buffer, tail, rows);
    }
}

/// Law: flushing a non-empty block of mutually adjacent dirty slots (each
/// neighbour pair differs by exactly one) issues exactly one upload.
pub proof fn lemma_adjacent_slots_single_upload(
    ops: Seq<DeviceOp>,
    buffer: usize,
    pend: Seq<usize>,
    rows: Seq<Matrix>,
)
    requires
        upload_ops_for(ops, buffer, pend, rows),
        pend.len() > 0,
        forall|i: int| 1 <= i < pend.len() ==> #[trigger] pend[i] == pend[i - 1] + 1,
    ensures
        ops.len() == 1,
{
    lemma_head_run_len_of_chain(pend, pend.len() as int);
    assert(upload_ops_for(ops.drop_first(), buffer, pend.skip(head_run_len(pend)), rows));
    assert(pend.skip(head_run_len(pend)).len() == 0);
    assert(ops.drop_first().len() == 0);
}

/// Contents of a device-resident buffer after performing one operation:
/// an upload overwrites the addressed rows, anything else leaves the
/// contents alone (an out-of-range upload is ignored; the manager never
/// issues one).
pub open spec fn apply_upload(device: Seq<Matrix>, op: DeviceOp) -> Seq<Matrix> {
    if op is UploadInstances {
        let first = op->UploadInstances_first_slot as int;
        let rows = op->UploadInstances_rows@;
        if first + rows.len() <= device.len() {
            device.take(first).add(rows).add(device.skip(first + rows.len()))
        } else {
            device
        }
    } else {
        device
    }
}

/// Contents of a device-resident buffer after performing a list of
/// operations in order.
pub open spec fn apply_uploads(device: Seq<Matrix>, ops: Seq<DeviceOp>) -> Seq<Matrix>
    decreases ops.len(),
{
    if ops.len() == 0 {
        device
    } else {
        apply_uploads(apply_upload(device, ops[0]), ops.drop_first())
    }
}

/// Law (a flush restores synchronization): take any device copy that is
/// large enough and already agrees with the CPU rows on every slot that is
/// not dirty. Performing, in order, the uploads a flush of the dirty slots
/// issues makes the device copy agree with the CPU rows on every live
/// slot, and touches nothing beyond them.
pub proof fn lemma_flush_restores_sync(
    ops: Seq<DeviceOp>,
    buffer: usize,
    pend: Seq<usize>,
    rows: Seq<Matrix>,
    device: Seq<Matrix>,
)
    requires
        upload_ops_for(ops, buffer, pend, rows),
        rows.len() <= usize::MAX as int,
        device.len() >= rows.len(),
        forall|i: int| 0 <= i < pend.len() ==> (#[trigger] pend[i] as int) < rows.len(),
        forall|i: int, j: int| 0 <= i < j < pend.len() ==> pend[i] < pend[j],
        forall|s: usize|
            (s as int) < rows.len() && !pend.contains(s) ==> #[trigger] device[s as int]
                == rows[s as int],
    ensures
        apply_uploads(device, ops).len() == device.len(),
        forall|s: int| 0 <= s < rows.len() ==> #[trigger] apply_uploads(device, ops)[s] == rows[s],
        forall|s: int|
            rows.len() <= s < device.len() ==> #[trigger] apply_uploads(device, ops)[s]
                == device[s],
    decreases pend.len(),
{
    if pend.len() == 0 {
        assert forall|s: int| 0 <= s < rows.len() implies #[trigger] apply_uploads(device, ops)[s]
            == rows[s] by {
            let su: usize = s as usize;
            assert(!pend.contains(su));
            assert(device[su as int] == rows[su as int]);
        }
    } else {
        lemma_head_run_len_bounds(pend);
        let k = head_run_len(pend);
        let first = pend[0] as int;
        let run_rows = rows.subrange(first, first + k);
        let device1 = apply_upload(device, ops[0]);
        assert(pend[k - 1] == first + k - 1);
        assert(first + k <= rows.len());
        assert(device1 =~= device.take(first).add(run_rows).add(device.skip(first + k)));
        assert(device1.len() == device.len());
        // after the first upload, the device agrees with the rows on every
        // slot outside the remaining dirty suffix
        let tail = pend.skip(k);
        assert forall|i: int| 0 <= i < tail.len() implies (#[trigger] tail[i] as int)
            < rows.len() by {
            assert(pend[k + i] == tail[i]);
        }
        assert forall|i: int, j: int| 0 <= i < j < tail.len() implies tail[i] < tail[j] by {
            assert(pend[k + i] == tail[i]);
            assert(pend[k + j] == tail[j]);
        }
        assert forall|s: usize|
            (s as int) < rows.len() && !tail.contains(s) implies #[trigger] device1[s as int]
            == rows[s as int] by {
            if first <= (s as int) && (s as int) < first + k {
                assert(device1[s as int] == run_rows[s as int - first]);
            } else {
                assert(device1[s as int] == device[s as int]);
                assert(!pend.contains(s)) by {
                    if pend.contains(s) {
                        let w = choose|w: int| 0 <= w < pend.len() && pend[w] == s;
                        if w < k {
                            assert(pend[w] == first + w);
                        } else {
                            assert(tail[w - k] == s);
                        }
                    }
                }
            }
        }
        lemma_flush_restores_sync(ops.drop_first(), buffer, tail, rows, device1);
        assert forall|s: int| 0 <= s < rows.len() implies #[trigger] apply_uploads(device, ops)[s]
            == rows[s] by {
            assert(apply_uploads(device1, ops.drop_first())[s] == rows[s]);
        }
        assert forall|s: int|
            rows.len() <= s < device.len() implies #[trigger] apply_uploads(device, ops)[s]
            == device[s] by {
            assert(apply_uploads(device1, ops.drop_first())[s] == device1[s]);
            assert(device1[s] == device[s]);
        }
    }
}

/// The operation list a reallocation must issue: one buffer allocation at
/// the new capacity, then one full upload of all live rows (none when there
/// are no rows, since growth of an empty buffer has nothing to restore).
pub open spec fn realloc_ops_for(
    ops: Seq<DeviceOp>,
    buffer: usize,
    capacity: usize,
    rows: Seq<Matrix>,
) -> bool {
    if rows.len() == 0 {
        ops == seq![DeviceOp::AllocateInstanceBuffer { buffer, capacity }]
    } else {
        &&& ops.len() == 2
        &&& ops[0] == (DeviceOp::AllocateInstanceBuffer { buffer, capacity })
        &&& ops[1] matches DeviceOp::UploadInstances { buffer: b, first_slot: f, rows: r }
        &&& (ops[1]->UploadInstances_buffer == buffer)
        &&& (ops[1]->UploadInstances_first_slot == 0)
        &&& (ops[1]->UploadInstances_rows@ == rows)
    }
}

} // verus!
