use vstd::prelude::*;
use crate::batcher::{Mesh, MESH_VERTEX_STRIDE};
use crate::gpu::DeviceOp;
use crate::instances::InstanceStore;
use crate::mesh_instances::MeshInstances;
use crate::utils::{identity_matrix, matrix_from_words, spec_identity_matrix, Matrix, RenderError};

verus! {

/// Geometry bookkeeping for one registered mesh. The device-side vertex
/// buffer and attribute binding are created by the device shell when it
/// performs the registration operation; the manager only needs the vertex
/// count to issue draws.
pub struct GpuMesh {
    /// Number of vertices in the registered geometry; always positive.
    pub vertex_count: usize,
}

/// The instanced-rendering resource manager. It owns the registered meshes,
/// one dense instance buffer per mesh, and one handle table mapping global
/// instance handles to `(mesh, slot)`, and it keeps the three in lockstep
/// under arbitrary interleavings of insert, update and remove while
/// emitting the device operations needed to mirror the dense buffers to
/// the device.
pub struct BatchedRenderer {
    /// Registered geometry, in registration order (which is draw order);
    /// treat as read-only.
    pub meshes: Vec<GpuMesh>,
    /// One dense instance buffer per mesh, in the same order; treat as
    /// read-only.
    pub mesh_instances: Vec<MeshInstances>,
    /// Stable handles of all live instances; treat as read-only.
    pub instance_store: InstanceStore,
    /// Handles queued for guaranteed removal after the next completed
    /// render pass; treat as read-only.
    pub transient_instances: Vec<u32>,
    /// View matrix uniform, as component bit patterns; treat as read-only.
    pub view_matrix: Matrix,
    /// Projection matrix uniform, as component bit patterns; treat as
    /// read-only.
    pub projection_matrix: Matrix,
    /// Device-imposed ceiling on instances per draw, fixed at
    /// initialization; treat as read-only.
    pub max_instances_per_draw: usize,
}

/// Uniform vectors reserved for the view and projection matrices.
pub const RESERVED_UNIFORM_VECTORS: i32 = 8;

/// Initial per-mesh instance capacity hint, in rows.
pub const INITIAL_INSTANCE_HINT: usize = 256;

/// Derives the per-draw instance budget from the device's vertex-uniform
/// budget, reserving a fixed amount for the two global camera matrices;
/// fails with `CapacityError` exactly when not even one instance fits.
pub fn compute_instance_budget(uniform_vectors: i32) -> (result: Result<usize, RenderError>)
    ensures
        result is Ok <==> uniform_vectors - RESERVED_UNIFORM_VECTORS >= 4,
        result matches Ok(budget) ==> budget == (uniform_vectors - RESERVED_UNIFORM_VECTORS as int)
            / 4,
        result matches Err(e) ==> e == RenderError::CapacityError,
{
    if uniform_vectors < RESERVED_UNIFORM_VECTORS + 4 {
        return Err(RenderError::CapacityError);
    }
    let available = uniform_vectors - RESERVED_UNIFORM_VECTORS;
    Ok((available / 4) as usize)
}

/// The operation list one render pass must issue for meshes in a given
/// state: for each mesh in registration order, the uploads its flush of
/// dirty slots issues, then one instanced draw of its full geometry with
/// the current instance count — the draw skipped when the mesh has no
/// instances.
pub open spec fn pass_ops_for(ops: Seq<DeviceOp>, mis: Seq<MeshInstances>, meshes: Seq<GpuMesh>) -> bool
    decreases mis.len(),
{
    if mis.len() == 0 {
        ops.len() == 0
    } else {
        let k = crate::gpu::run_count(mis[0].pending@);
        let d: int = if mis[0].spec_len() > 0 {
            1int
        } else {
            0int
        };
        &&& ops.len() >= k + d
        &&& crate::gpu::upload_ops_for(
            ops.take(k),
            mis[0].buffer,
            mis[0].pending@,
            mis[0].transforms@,
        )
        &&& (d == 1 ==> ops[k] == (DeviceOp::DrawMeshInstances {
            mesh: mis[0].buffer,
            vertex_count: meshes[0].vertex_count,
            instance_count: mis[0].spec_len() as usize,
        }))
        &&& pass_ops_for(ops.skip(k + d), mis.drop_first(), meshes.drop_first())
    }
}

/// The operation list an explicit defragmentation must issue for meshes in
/// a given state: for each mesh in registration order, the uploads its
/// flush of dirty slots issues, then a reallocation at exactly the live
/// row count with its full re-upload (no upload for an empty mesh).
pub open spec fn defrag_ops_for(ops: Seq<DeviceOp>, mis: Seq<MeshInstances>) -> bool
    decreases mis.len(),
{
    if mis.len() == 0 {
        ops.len() == 0
    } else {
        let k = crate::gpu::run_count(mis[0].pending@);
        let d: int = if mis[0].spec_len() > 0 {
            2int
        } else {
            1int
        };
        let cap: usize = mis[0].transforms@.len() as usize;
        &&& ops.len() >= k + d
        &&& crate::gpu::upload_ops_for(
            ops.take(k),
            mis[0].buffer,
            mis[0].pending@,
            mis[0].transforms@,
        )
        &&& crate::gpu::realloc_ops_for(
            ops.subrange(k, k + d),
            mis[0].buffer,
            cap,
            mis[0].transforms@,
        )
        &&& defrag_ops_for(ops.skip(k + d), mis.drop_first())
    }
}

impl BatchedRenderer {
    /// Number of live instances bound to mesh `m`.
    pub open spec fn mesh_len(&self, m: int) -> int {
        self.mesh_instances@[m].spec_len()
    }

    /// Whether an instance handle is live.
    pub open spec fn live(&self, handle: u32) -> bool {
        self.instance_store.live(handle)
    }

    /// Core invariant: the mesh list and the per-mesh instance buffers run
    /// in parallel; every live handle's record addresses a dense slot of
    /// its mesh whose owning handle points back and whose content equals
    /// the record's transform; and every dense slot is owned by a live
    /// handle recording exactly that mesh and slot.
    pub open spec fn core_wf(&self) -> bool {
        &&& self.meshes@.len() == self.mesh_instances@.len()
        &&& self.max_instances_per_draw <= u32::MAX as int
        &&& forall|m: int|
            0 <= m < self.mesh_instances@.len() ==> (#[trigger] self.mesh_instances@[m]).wf()
                && self.mesh_instances@[m].buffer == m
        &&& forall|m: int|
            0 <= m < self.meshes@.len() ==> (#[trigger] self.meshes@[m]).vertex_count >= 1
        &&& self.instance_store.wf()
        &&& forall|h: u32| #[trigger] self.instance_store.live(h) ==> {
            let r = self.instance_store.record(h);
            &&& (r.mesh_index as int) < self.mesh_instances@.len()
            &&& (r.slot_index as int) < self.mesh_instances@[r.mesh_index as int].spec_len()
            &&& self.mesh_instances@[r.mesh_index as int].handles@[r.slot_index as int] == h
            &&& self.mesh_instances@[r.mesh_index as int].transforms@[r.slot_index as int]
                == r.transform
        }
        &&& forall|m: int, s: int|
            0 <= m < self.mesh_instances@.len() && 0 <= s < self.mesh_instances@[m].spec_len()
                ==> {
                let h = #[trigger] self.mesh_instances@[m].handles@[s];
                &&& self.instance_store.live(h)
                &&& self.instance_store.record(h).mesh_index == m
                &&& self.instance_store.record(h).slot_index == s
            }
    }

    /// The transient queue holds distinct live handles.
    pub open spec fn transient_wf(&self) -> bool {
        &&& forall|t: int|
            0 <= t < self.transient_instances@.len() ==> self.instance_store.live(
                #[trigger] self.transient_instances@[t],
            )
        &&& forall|t1: int, t2: int|
            0 <= t1 < t2 < self.transient_instances@.len() ==> self.transient_instances@[t1]
                != self.transient_instances@[t2]
    }

    /// Structural invariant; see `core_wf` and `transient_wf`.
    pub open spec fn wf(&self) -> bool {
        &&& self.core_wf()
        &&& self.transient_wf()
    }

    /// Creates an empty manager for a device whose vertex-uniform budget
    /// is `uniform_vectors`; fails with `CapacityError` exactly when the
    /// budget does not cover even one per-instance transform beyond the
    /// reserved camera uniforms. Both camera matrices start as the
    /// identity.
    pub fn new(uniform_vectors: i32) -> (result: Result<BatchedRenderer, RenderError>)
        ensures
            result is Ok <==> uniform_vectors - RESERVED_UNIFORM_VECTORS >= 4,
            result matches Ok(renderer) ==> {
                &&& renderer.wf()
                &&& renderer.meshes@.len() == 0
                &&& renderer.mesh_instances@.len() == 0
                &&& renderer.instance_store.spec_len() == 0
                &&& renderer.instance_store.entries@.len() == 0
                &&& renderer.instance_store.free_list@.len() == 0
                &&& renderer.instance_store.active_handles@.len() == 0
                &&& renderer.transient_instances@.len() == 0
                &&& renderer.view_matrix@ == spec_identity_matrix()
                &&& renderer.projection_matrix@ == spec_identity_matrix()
                &&& renderer.max_instances_per_draw == (uniform_vectors
                    - RESERVED_UNIFORM_VECTORS as int) / 4
            },
            result matches Err(e) ==> e == RenderError::CapacityError,
    {
        let max_instances_per_draw = match compute_instance_budget(uniform_vectors) {
            Ok(budget) => budget,
            Err(e) => {
                return Err(e);
            },
        };
        Ok(
            BatchedRenderer {
                meshes: Vec::new(),
                mesh_instances: Vec::new(),
                instance_store: InstanceStore::new(),
                transient_instances: Vec::new(),
                view_matrix: identity_matrix(),
                projection_matrix: identity_matrix(),
                max_instances_per_draw,
            },
        )
    }

    /// Registers immutable geometry: validates that the vertex words are
    /// non-empty and stride-aligned, creates the mesh's device-side
    /// geometry and an instance buffer sized by the initial capacity hint,
    /// and appends the mesh to the fixed draw order. Returns the new mesh
    /// handle, which is the registration index.
    pub fn register_mesh(&mut self, vertex_words: Vec<u32>, ops: &mut Vec<DeviceOp>) -> (result:
        Result<u32, RenderError>)
        requires
            old(self).wf(),
        ensures
            final(self).wf(),
            result is Ok <==> vertex_words@.len() > 0 && (vertex_words@.len() as int) % (
            MESH_VERTEX_STRIDE as int) == 0 && old(self).meshes@.len() < u32::MAX as int,
            result matches Err(e) ==> (e == RenderError::ValidationError || e
                == RenderError::CapacityError) && *final(self) == *old(self) && final(ops)@ == old(
                ops,
            )@ && (e == RenderError::CapacityError <==> vertex_words@.len() > 0 && (
            vertex_words@.len() as int) % (MESH_VERTEX_STRIDE as int) == 0 && old(
                self,
            ).meshes@.len() >= u32::MAX as int),
            result matches Ok(mesh_handle) ==> {
                &&& mesh_handle == old(self).meshes@.len()
                &&& final(self).meshes@.len() == old(self).meshes@.len() + 1
                &&& final(self).meshes@.last().vertex_count == vertex_words@.len() as int / (
                MESH_VERTEX_STRIDE as int)
                &&& final(self).meshes@.subrange(0, old(self).meshes@.len() as int) == old(
                    self,
                ).meshes@
                &&& final(self).mesh_instances@.subrange(0, old(self).meshes@.len() as int)
                    == old(self).mesh_instances@
                &&& final(self).mesh_instances@.last().spec_len() == 0
                &&& final(self).mesh_instances@.last().capacity == INITIAL_INSTANCE_HINT as int
                &&& final(self).instance_store == old(self).instance_store
                &&& final(self).transient_instances@ == old(self).transient_instances@
                &&& final(ops)@ == old(ops)@.push(DeviceOp::CreateMesh {
                    mesh: mesh_handle as usize,
                    vertices: vertex_words,
                }).push(DeviceOp::AllocateInstanceBuffer {
                    buffer: mesh_handle as usize,
                    capacity: INITIAL_INSTANCE_HINT,
                })
            },
    {
        let mesh = match Mesh::new(vertex_words) {
            Ok(mesh) => mesh,
            Err(e) => {
                return Err(e);
            },
        };
        if self.meshes.len() >= u32::MAX as usize {
            return Err(RenderError::CapacityError);
        }
        let mesh_index = self.meshes.len();
        let vertex_count = mesh.vertex_count();
        ops.push(DeviceOp::CreateMesh { mesh: mesh_index, vertices: mesh.into_words() });
        let mesh_instances = MeshInstances::new(mesh_index, INITIAL_INSTANCE_HINT, ops);
        self.meshes.push(GpuMesh { vertex_count });
        self.mesh_instances.push(mesh_instances);
        proof {
            assert(self.meshes@.subrange(0, old(self).meshes@.len() as int) =~= old(
                self,
            ).meshes@);
            assert(self.mesh_instances@.subrange(0, old(self).meshes@.len() as int) =~= old(
                self,
            ).mesh_instances@);
            assert forall|h: u32| #[trigger] self.instance_store.live(h) implies {
                let r = self.instance_store.record(h);
                &&& (r.mesh_index as int) < self.mesh_instances@.len()
                &&& (r.slot_index as int) < self.mesh_instances@[r.mesh_index as int].spec_len()
                &&& self.mesh_instances@[r.mesh_index as int].handles@[r.slot_index as int] == h
                &&& self.mesh_instances@[r.mesh_index as int].transforms@[r.slot_index as int]
                    == r.transform
            } by {
                assert(old(self).instance_store.live(h));
            }
        }
        Ok(mesh_index as u32)
    }

    /// Creates an instance of a registered mesh with the given transform
    /// (sixteen words): allocates a dense slot in the mesh's instance
    /// buffer (growing it if needed), inserts a record into the handle
    /// table, and binds the new handle into the slot. Returns the new
    /// stable instance handle. Validation precedes every mutation: a
    /// wrong-length transform yields `ValidationError`, an unknown mesh
    /// handle `InvalidHandle`, exhausted handle or slot space
    /// `CapacityError`, each leaving all state unchanged.
    pub fn create_instance(
        &mut self,
        mesh_handle: u32,
        transform: &Vec<u32>,
        ops: &mut Vec<DeviceOp>,
    ) -> (result: Result<u32, RenderError>)
        requires
            old(self).wf(),
        ensures
            final(self).wf(),
            result is Ok <==> transform@.len() == 16 && (mesh_handle as int) < old(
                self,
            ).meshes@.len() && (old(self).instance_store.free_list@.len() > 0 || old(
                self,
            ).instance_store.entries@.len() < u32::MAX as int) && old(self).mesh_len(
                mesh_handle as int,
            ) < usize::MAX as int / 2,
            result matches Err(e) ==> *final(self) == *old(self) && final(ops)@ == old(ops)@ && e
                == (if transform@.len() != 16 {
                RenderError::ValidationError
            } else if (mesh_handle as int) >= old(self).meshes@.len() {
                RenderError::InvalidHandle
            } else {
                RenderError::CapacityError
            }),
            result matches Ok(handle) ==> {
                let m = mesh_handle as int;
                let slot = old(self).mesh_len(m);
                &&& handle == old(self).instance_store.next_handle()
                &&& !old(self).live(handle)
                &&& final(self).live(handle)
                &&& final(self).instance_store.record(handle).mesh_index == m
                &&& final(self).instance_store.record(handle).slot_index == slot
                &&& final(self).instance_store.record(handle).transform@ == transform@
                &&& forall|k: u32| k != handle ==> final(self).live(k) == old(self).live(k)
                &&& forall|k: u32|
                    k != handle && old(self).live(k) ==> final(self).instance_store.record(k)
                        == old(self).instance_store.record(k)
                &&& final(self).instance_store.spec_len() == old(self).instance_store.spec_len()
                    + 1
                &&& final(self).instance_store.active_handles@ == old(
                    self,
                ).instance_store.active_handles@.push(handle)
                &&& final(self).instance_store.free_list@ == if old(
                    self,
                ).instance_store.free_list@.len() > 0 {
                    old(self).instance_store.free_list@.drop_last()
                } else {
                    old(self).instance_store.free_list@
                }
                &&& final(self).instance_store.entries@.len() == old(
                    self,
                ).instance_store.entries@.len() + if old(self).instance_store.free_list@.len()
                    > 0 {
                    0int
                } else {
                    1int
                }
                &&& final(self).mesh_instances@[m].transforms@ == old(
                    self,
                ).mesh_instances@[m].transforms@.push(
                    final(self).instance_store.record(handle).transform,
                )
                &&& final(self).mesh_instances@[m].handles@ == old(
                    self,
                ).mesh_instances@[m].handles@.push(handle)
                &&& forall|s: usize|
                    final(self).mesh_instances@[m].is_pending(s) <==> old(
                        self,
                    ).mesh_instances@[m].is_pending(s) || s == slot
                &&& forall|m2: int|
                    0 <= m2 < old(self).mesh_instances@.len() && m2 != m
                        ==> final(self).mesh_instances@[m2] == old(self).mesh_instances@[m2]
                &&& final(self).meshes@ == old(self).meshes@
                &&& final(self).transient_instances@ == old(self).transient_instances@
                &&& final(self).view_matrix == old(self).view_matrix
                &&& final(self).projection_matrix == old(self).projection_matrix
                &&& final(self).max_instances_per_draw == old(self).max_instances_per_draw
                &&& old(self).mesh_instances@[m].capacity >= slot + 1 ==> final(ops)@ == old(
                    ops,
                )@ && final(self).mesh_instances@[m].capacity == old(
                    self,
                ).mesh_instances@[m].capacity
                &&& old(self).mesh_instances@[m].capacity < slot + 1
                    ==> crate::gpu::realloc_ops_for(
                    final(ops)@.skip(old(ops)@.len() as int),
                    mesh_handle as usize,
                    final(self).mesh_instances@[m].capacity as usize,
                    final(self).mesh_instances@[m].transforms@,
                ) && final(ops)@.subrange(0, old(ops)@.len() as int) == old(ops)@
            },
    {
        let matrix = match matrix_from_words(transform) {
            Ok(matrix) => matrix,
            Err(e) => {
                return Err(e);
            },
        };
        let mesh_index = mesh_handle as usize;
        if mesh_index >= self.mesh_instances.len() {
            return Err(RenderError::InvalidHandle);
        }
        if !self.instance_store.has_handle_space() {
            return Err(RenderError::CapacityError);
        }
        if self.mesh_instances[mesh_index].len() >= usize::MAX / 2 {
            return Err(RenderError::CapacityError);
        }
        let slot = self.mesh_instances[mesh_index].allocate(&matrix, ops);
        let handle = self.instance_store.insert(mesh_index, slot, matrix);
        let bind_result = self.mesh_instances[mesh_index].set_handle(slot, handle);
        proof {
            assert(bind_result is Ok);
        }
        proof {
            let m = mesh_index as int;
            assert(self.mesh_instances@[m].handles@ =~= old(
                self,
            ).mesh_instances@[m].handles@.push(handle));
            assert(!old(self).live(handle));
            assert forall|h: u32| #[trigger] self.instance_store.live(h) implies {
                let r = self.instance_store.record(h);
                &&& (r.mesh_index as int) < self.mesh_instances@.len()
                &&& (r.slot_index as int) < self.mesh_instances@[r.mesh_index as int].spec_len()
                &&& self.mesh_instances@[r.mesh_index as int].handles@[r.slot_index as int] == h
                &&& self.mesh_instances@[r.mesh_index as int].transforms@[r.slot_index as int]
                    == r.transform
            } by {
                if h != handle {
                    assert(old(self).instance_store.live(h));
                    assert(old(self).instance_store.record(h) == self.instance_store.record(h));
                }
            }
            assert forall|m2: int, s: int|
                0 <= m2 < self.mesh_instances@.len() && 0 <= s
                    < self.mesh_instances@[m2].spec_len() implies {
                let h = #[trigger] self.mesh_instances@[m2].handles@[s];
                &&& self.instance_store.live(h)
                &&& self.instance_store.record(h).mesh_index == m2
                &&& self.instance_store.record(h).slot_index == s
            } by {
                if m2 != m || s < old(self).mesh_instances@[m].spec_len() {
                    assert(old(self).mesh_instances@[m2].handles@[s]
                        == self.mesh_instances@[m2].handles@[s]);
                    assert(old(self).instance_store.live(
                        old(self).mesh_instances@[m2].handles@[s],
                    ));
                }
            }
            assert forall|t: int|
                0 <= t < self.transient_instances@.len() implies self.instance_store.live(
                #[trigger] self.transient_instances@[t],
            ) by {
                assert(old(self).instance_store.live(old(self).transient_instances@[t]));
            }
        }
        Ok(handle)
    }

    /// The mesh index and dense slot a live instance handle currently
    /// resolves to; `None` for unknown or removed handles. The slot may
    /// change when other instances of the same mesh are removed; the
    /// handle never does.
    pub fn instance_info(&self, instance_handle: u32) -> (info: Option<(usize, usize)>)
        ensures
            info == if self.live(instance_handle) {
                Some(
                    (
                        self.instance_store.record(instance_handle).mesh_index,
                        self.instance_store.record(instance_handle).slot_index,
                    ),
                )
            } else {
                None::<(usize, usize)>
            },
    {
        match self.instance_store.get(instance_handle) {
            Some(record) => Some((record.mesh_index, record.slot_index)),
            None => None,
        }
    }

    /// Overwrites the transform of a live instance (sixteen words) in both
    /// the handle table record and the owning mesh's dense buffer, marking
    /// the slot dirty. A wrong-length transform yields `ValidationError`,
    /// an unknown or removed handle `InvalidHandle`, each before any
    /// mutation.
    pub fn set_instance_transform(&mut self, instance_handle: u32, transform: &Vec<u32>) -> (
    result: Result<(), RenderError>)
        requires
            old(self).wf(),
        ensures
            final(self).wf(),
            result is Ok <==> transform@.len() == 16 && old(self).live(instance_handle),
            result matches Err(e) ==> *final(self) == *old(self) && e == (if transform@.len()
                != 16 {
                RenderError::ValidationError
            } else {
                RenderError::InvalidHandle
            }),
            result is Ok ==> {
                let r_old = old(self).instance_store.record(instance_handle);
                let m = r_old.mesh_index as int;
                &&& final(self).instance_store.record(instance_handle).transform@ == transform@
                &&& final(self).instance_store.record(instance_handle).mesh_index
                    == r_old.mesh_index
                &&& final(self).instance_store.record(instance_handle).slot_index
                    == r_old.slot_index
                &&& forall|k: u32| final(self).live(k) == old(self).live(k)
                &&& forall|k: u32|
                    k != instance_handle && old(self).live(k)
                        ==> final(self).instance_store.record(k) == old(self).instance_store.record(
                        k,
                    )
                &&& final(self).mesh_instances@[m].transforms@ == old(
                    self,
                ).mesh_instances@[m].transforms@.update(
                    r_old.slot_index as int,
                    final(self).instance_store.record(instance_handle).transform,
                )
                &&& final(self).mesh_instances@[m].handles@ == old(
                    self,
                ).mesh_instances@[m].handles@
                &&& forall|s: usize|
                    final(self).mesh_instances@[m].is_pending(s) <==> old(
                        self,
                    ).mesh_instances@[m].is_pending(s) || s == r_old.slot_index
                &&& final(self).mesh_instances@[m].capacity == old(
                    self,
                ).mesh_instances@[m].capacity
                &&& forall|m2: int|
                    0 <= m2 < old(self).mesh_instances@.len() && m2 != m
                        ==> final(self).mesh_instances@[m2] == old(self).mesh_instances@[m2]
                &&& final(self).meshes@ == old(self).meshes@
                &&& final(self).transient_instances@ == old(self).transient_instances@
                &&& final(self).view_matrix == old(self).view_matrix
                &&& final(self).projection_matrix == old(self).projection_matrix
                &&& final(self).max_instances_per_draw == old(self).max_instances_per_draw
            },
    {
        let matrix = match matrix_from_words(transform) {
            Ok(matrix) => matrix,
            Err(e) => {
                return Err(e);
            },
        };
        let record = match self.instance_store.get(instance_handle) {
            Some(record) => record,
            None => {
                return Err(RenderError::InvalidHandle);
            },
        };
        self.instance_store.set_transform(instance_handle, matrix);
        let update_result = self.mesh_instances[record.mesh_index].update_slot(
            record.slot_index,
            &matrix,
        );
        proof {
            assert(update_result is Ok);
        }
        proof {
            let m = record.mesh_index as int;
            assert forall|h: u32| #[trigger] self.instance_store.live(h) implies {
                let r = self.instance_store.record(h);
                &&& (r.mesh_index as int) < self.mesh_instances@.len()
                &&& (r.slot_index as int) < self.mesh_instances@[r.mesh_index as int].spec_len()
                &&& self.mesh_instances@[r.mesh_index as int].handles@[r.slot_index as int] == h
                &&& self.mesh_instances@[r.mesh_index as int].transforms@[r.slot_index as int]
                    == r.transform
            } by {
                assert(old(self).instance_store.live(h));
                if h != instance_handle {
                    assert(old(self).instance_store.record(h) == self.instance_store.record(h));
                    if old(self).instance_store.record(h).mesh_index == record.mesh_index {
                        assert(old(self).instance_store.record(h).slot_index
                            != record.slot_index);
                    }
                }
            }
            assert forall|m2: int, s: int|
                0 <= m2 < self.mesh_instances@.len() && 0 <= s
                    < self.mesh_instances@[m2].spec_len() implies {
                let h = #[trigger] self.mesh_instances@[m2].handles@[s];
                &&& self.instance_store.live(h)
                &&& self.instance_store.record(h).mesh_index == m2
                &&& self.instance_store.record(h).slot_index == s
            } by {
                assert(self.mesh_instances@[m2].handles@[s] == old(
                    self,
                ).mesh_instances@[m2].handles@[s]);
                assert(old(self).instance_store.live(old(self).mesh_instances@[m2].handles@[s]));
            }
            assert forall|t: int|
                0 <= t < self.transient_instances@.len() implies self.instance_store.live(
                #[trigger] self.transient_instances@[t],
            ) by {
                assert(old(self).instance_store.live(old(self).transient_instances@[t]));
            }
        }
        Ok(())
    }

    /// Removes one handle from the transient queue if it is there; the
    /// rest of the queue keeps its order.
    fn remove_queued_handle(queue: &mut Vec<u32>, handle: u32)
        requires
            forall|t1: int, t2: int|
                0 <= t1 < t2 < old(queue)@.len() ==> old(queue)@[t1] != old(queue)@[t2],
        ensures
            forall|t1: int, t2: int|
                0 <= t1 < t2 < final(queue)@.len() ==> final(queue)@[t1] != final(queue)@[t2],
            forall|x: u32| final(queue)@.contains(x) <==> old(queue)@.contains(x) && x != handle,
            forall|t: int|
                0 <= t < final(queue)@.len() ==> old(queue)@.contains(#[trigger] final(queue)@[t]),
            !old(queue)@.contains(handle) ==> final(queue)@ == old(queue)@,
            old(queue)@.contains(handle) ==> final(queue)@.len() == old(queue)@.len() - 1,
    {
        let mut idx: usize = 0;
        while idx < queue.len() && queue[idx] != handle
            invariant
                idx <= queue@.len(),
                forall|m: int| 0 <= m < idx ==> (#[trigger] queue@[m]) != handle,
                queue == old(queue),
            decreases queue@.len() - idx,
        {
            idx = idx + 1;
        }
        if idx >= queue.len() {
            proof {
                assert(!old(queue)@.contains(handle)) by {
                    if old(queue)@.contains(handle) {
                        let w = choose|w: int|
                            0 <= w < old(queue)@.len() && old(queue)@[w] == handle;
                        assert(old(queue)@[w] != handle);
                    }
                }
            }
            return ;
        }
        queue.remove(idx);
        proof {
            let q_old = old(queue)@;
            let q_new = queue@;
            assert(q_new == q_old.remove(idx as int));
            assert forall|x: u32| q_new.contains(x) implies q_old.contains(x) && x != handle by {
                let w = choose|w: int| 0 <= w < q_new.len() && q_new[w] == x;
                if w < idx {
                    assert(q_old[w] == x);
                    if x == handle {
                        assert(q_old[w] != handle);
                    }
                } else {
                    assert(q_old[w + 1] == x);
                    if x == handle {
                        assert(q_old[idx as int] == handle);
                        assert(q_old[idx as int] != q_old[w + 1]);
                    }
                }
            }
            assert forall|x: u32| q_old.contains(x) && x != handle implies q_new.contains(x) by {
                let w = choose|w: int| 0 <= w < q_old.len() && q_old[w] == x;
                if w < idx {
                    assert(q_new[w] == x);
                } else if w > idx {
                    assert(q_new[w - 1] == x);
                } else {
                    assert(q_old[idx as int] == handle);
                }
            }
            assert forall|t: int| 0 <= t < q_new.len() implies q_old.contains(
                #[trigger] q_new[t],
            ) by {
                if t < idx {
                    assert(q_old[t] == q_new[t]);
                } else {
                    assert(q_old[t + 1] == q_new[t]);
                }
            }
        }
    }

    /// Removes a live instance from the handle table and its mesh's dense
    /// buffer (swapping the last row into the vacated slot and repointing
    /// the moved row's handle), without touching the transient queue.
    /// Reports whether the handle was live; nothing changes when it was
    /// not. After the call the queue's distinctness is untouched and every
    /// queued handle other than the removed one is still live.
    fn remove_instance_internal(&mut self, handle: u32) -> (removed: bool)
        requires
            old(self).wf(),
        ensures
            final(self).core_wf(),
            removed == old(self).live(handle),
            !removed ==> *final(self) == *old(self),
            final(self).transient_instances@ == old(self).transient_instances@,
            removed ==> {
                let r = old(self).instance_store.record(handle);
                let m = r.mesh_index as int;
                let slot = r.slot_index as int;
                let last = old(self).mesh_len(m) - 1;
                let moved_handle = old(self).mesh_instances@[m].handles@.last();
                &&& !final(self).live(handle)
                &&& forall|k: u32|
                    #![trigger final(self).live(k)]
                    #![trigger old(self).live(k)]
                    k != handle ==> final(self).live(k) == old(self).live(k)
                &&& forall|k: u32|
                    k != handle && old(self).live(k) ==> {
                        &&& final(self).instance_store.record(k).mesh_index == old(
                            self,
                        ).instance_store.record(k).mesh_index
                        &&& final(self).instance_store.record(k).transform == old(
                            self,
                        ).instance_store.record(k).transform
                        &&& final(self).instance_store.record(k).slot_index == (if k
                            == moved_handle && slot < last {
                            r.slot_index
                        } else {
                            old(self).instance_store.record(k).slot_index
                        })
                    }
                &&& final(self).instance_store.spec_len() == old(self).instance_store.spec_len()
                    - 1
                &&& final(self).instance_store.free_list@ == old(
                    self,
                ).instance_store.free_list@.push(handle)
                &&& final(self).instance_store.entries@.len() == old(
                    self,
                ).instance_store.entries@.len()
                &&& final(self).mesh_instances@[m].transforms@ == old(
                    self,
                ).mesh_instances@[m].transforms@.update(
                    slot,
                    old(self).mesh_instances@[m].transforms@.last(),
                ).drop_last()
                &&& final(self).mesh_instances@[m].handles@ == old(
                    self,
                ).mesh_instances@[m].handles@.update(slot, moved_handle).drop_last()
                &&& forall|s: usize|
                    final(self).mesh_instances@[m].is_pending(s) <==> (old(
                        self,
                    ).mesh_instances@[m].is_pending(s) || (slot < last && s == r.slot_index)) && (
                    s as int) != last
                &&& final(self).mesh_instances@[m].capacity == old(
                    self,
                ).mesh_instances@[m].capacity
                &&& forall|m2: int|
                    0 <= m2 < old(self).mesh_instances@.len() && m2 != m
                        ==> final(self).mesh_instances@[m2] == old(self).mesh_instances@[m2]
                &&& final(self).meshes@ == old(self).meshes@
                &&& final(self).view_matrix == old(self).view_matrix
                &&& final(self).projection_matrix == old(self).projection_matrix
                &&& final(self).max_instances_per_draw == old(self).max_instances_per_draw
            },
    {
        let record = match self.instance_store.get(handle) {
            Some(record) => record,
            None => {
                return false;
            },
        };
        let remove_result = self.mesh_instances[record.mesh_index].remove_slot(record.slot_index);
        let moved = match remove_result {
            Ok(moved) => moved,
            Err(_) => {
                proof {
                    assert(false);
                }
                return false;
            },
        };
        if let Some(moved_handle) = moved {
            proof {
                assert(moved_handle == old(self).mesh_instances@[
                    record.mesh_index as int].handles@.last());
                assert(old(self).instance_store.live(moved_handle));
                assert(moved_handle != handle) by {
                    if moved_handle == handle {
                        assert(old(self).instance_store.record(handle).slot_index as int == old(
                            self,
                        ).mesh_len(record.mesh_index as int) - 1);
                    }
                }
            }
            self.instance_store.set_slot_index(moved_handle, record.slot_index);
            let rebind_result = self.mesh_instances[record.mesh_index].set_handle(
                record.slot_index,
                moved_handle,
            );
            proof {
                assert(rebind_result is Ok);
            }
        }
        self.instance_store.remove(handle);
        proof {
            let m = record.mesh_index as int;
            let slot = record.slot_index as int;
            let last = old(self).mesh_len(m) - 1;
            let moved_handle = old(self).mesh_instances@[m].handles@.last();
            assert(self.mesh_instances@[m].handles@ =~= old(
                self,
            ).mesh_instances@[m].handles@.update(slot, moved_handle).drop_last());
            assert forall|h: u32| #[trigger] self.instance_store.live(h) implies {
                let r = self.instance_store.record(h);
                &&& (r.mesh_index as int) < self.mesh_instances@.len()
                &&& (r.slot_index as int) < self.mesh_instances@[r.mesh_index as int].spec_len()
                &&& self.mesh_instances@[r.mesh_index as int].handles@[r.slot_index as int] == h
                &&& self.mesh_instances@[r.mesh_index as int].transforms@[r.slot_index as int]
                    == r.transform
            } by {
                assert(h != handle);
                assert(old(self).instance_store.live(h));
                let r_old = old(self).instance_store.record(h);
                if h == moved_handle && slot < last {
                } else {
                    if r_old.mesh_index as int == m {
                        assert(old(self).mesh_instances@[m].handles@[r_old.slot_index as int]
                            == h);
                        assert(r_old.slot_index as int != slot);
                        assert(r_old.slot_index as int != last);
                    }
                }
            }
            assert forall|m2: int, s: int|
                0 <= m2 < self.mesh_instances@.len() && 0 <= s
                    < self.mesh_instances@[m2].spec_len() implies {
                let h = #[trigger] self.mesh_instances@[m2].handles@[s];
                &&& self.instance_store.live(h)
                &&& self.instance_store.record(h).mesh_index == m2
                &&& self.instance_store.record(h).slot_index == s
            } by {
                if m2 == m && s == slot && slot < last {
                    assert(self.mesh_instances@[m2].handles@[s] == moved_handle);
                } else {
                    assert(self.mesh_instances@[m2].handles@[s] == old(
                        self,
                    ).mesh_instances@[m2].handles@[s]);
                    let h = self.mesh_instances@[m2].handles@[s];
                    assert(old(self).instance_store.live(h));
                    assert(old(self).instance_store.record(h).mesh_index == m2);
                    assert(old(self).instance_store.record(h).slot_index == s);
                    assert(h != handle);
                    if h == moved_handle && slot < last {
                        assert(m2 == m && s == last);
                        assert(s < self.mesh_instances@[m2].spec_len());
                        assert(false);
                    }
                }
            }
        }
        true
    }

    /// Removes a live instance: the handle table record and the dense row
    /// go away (the last row of the mesh swaps into the vacated slot), and
    /// the handle leaves the transient queue if it was queued. Fails with
    /// `InvalidHandle`, changing nothing, exactly when the handle is not
    /// live.
    pub fn remove_instance(&mut self, instance_handle: u32) -> (result: Result<(), RenderError>)
        requires
            old(self).wf(),
        ensures
            final(self).wf(),
            result is Ok <==> old(self).live(instance_handle),
            result matches Err(e) ==> e == RenderError::InvalidHandle && *final(self) == *old(
                self,
            ),
            result is Ok ==> {
                let r = old(self).instance_store.record(instance_handle);
                let m = r.mesh_index as int;
                let slot = r.slot_index as int;
                let last = old(self).mesh_len(m) - 1;
                let moved_handle = old(self).mesh_instances@[m].handles@.last();
                &&& !final(self).live(instance_handle)
                &&& forall|k: u32|
                    k != instance_handle ==> final(self).live(k) == old(self).live(k)
                &&& forall|k: u32|
                    k != instance_handle && old(self).live(k) ==> {
                        &&& final(self).instance_store.record(k).mesh_index == old(
                            self,
                        ).instance_store.record(k).mesh_index
                        &&& final(self).instance_store.record(k).transform == old(
                            self,
                        ).instance_store.record(k).transform
                        &&& final(self).instance_store.record(k).slot_index == (if k
                            == moved_handle && slot < last {
                            r.slot_index
                        } else {
                            old(self).instance_store.record(k).slot_index
                        })
                    }
                &&& final(self).instance_store.spec_len() == old(self).instance_store.spec_len()
                    - 1
                &&& final(self).instance_store.free_list@ == old(
                    self,
                ).instance_store.free_list@.push(instance_handle)
                &&& final(self).instance_store.entries@.len() == old(
                    self,
                ).instance_store.entries@.len()
                &&& final(self).mesh_instances@[m].transforms@ == old(
                    self,
                ).mesh_instances@[m].transforms@.update(
                    slot,
                    old(self).mesh_instances@[m].transforms@.last(),
                ).drop_last()
                &&& final(self).mesh_instances@[m].handles@ == old(
                    self,
                ).mesh_instances@[m].handles@.update(slot, moved_handle).drop_last()
                &&& forall|m2: int|
                    0 <= m2 < old(self).mesh_instances@.len() && m2 != m
                        ==> final(self).mesh_instances@[m2] == old(self).mesh_instances@[m2]
                &&& forall|x: u32|
                    final(self).transient_instances@.contains(x) <==> old(
                        self,
                    ).transient_instances@.contains(x) && x != instance_handle
                &&& final(self).meshes@ == old(self).meshes@
                &&& final(self).view_matrix == old(self).view_matrix
                &&& final(self).projection_matrix == old(self).projection_matrix
                &&& final(self).max_instances_per_draw == old(self).max_instances_per_draw
            },
    {
        if self.remove_instance_internal(instance_handle) {
            Self::remove_queued_handle(&mut self.transient_instances, instance_handle);
            proof {
                assert forall|t: int|
                    0 <= t < self.transient_instances@.len() implies self.instance_store.live(
                    #[trigger] self.transient_instances@[t],
                ) by {
                    let x = self.transient_instances@[t];
                    assert(self.transient_instances@.contains(x));
                    assert(old(self).transient_instances@.contains(x));
                    assert(x != instance_handle);
                    let w = choose|w: int|
                        0 <= w < old(self).transient_instances@.len() && old(
                            self,
                        ).transient_instances@[w] == x;
                    assert(old(self).instance_store.live(old(self).transient_instances@[w]));
                    assert(old(self).live(x));
                    assert(self.live(x));
                }
            }
            Ok(())
        } else {
            Err(RenderError::InvalidHandle)
        }
    }

    /// Creates an instance exactly as `create_instance` does, and
    /// additionally queues the new handle for guaranteed removal after the
    /// next completed render pass. Returns the new handle.
    pub fn queue_instance(
        &mut self,
        mesh_handle: u32,
        transform: &Vec<u32>,
        ops: &mut Vec<DeviceOp>,
    ) -> (result: Result<u32, RenderError>)
        requires
            old(self).wf(),
        ensures
            final(self).wf(),
            result is Ok <==> transform@.len() == 16 && (mesh_handle as int) < old(
                self,
            ).meshes@.len() && (old(self).instance_store.free_list@.len() > 0 || old(
                self,
            ).instance_store.entries@.len() < u32::MAX as int) && old(self).mesh_len(
                mesh_handle as int,
            ) < usize::MAX as int / 2,
            result matches Err(e) ==> *final(self) == *old(self) && final(ops)@ == old(ops)@ && e
                == (if transform@.len() != 16 {
                RenderError::ValidationError
            } else if (mesh_handle as int) >= old(self).meshes@.len() {
                RenderError::InvalidHandle
            } else {
                RenderError::CapacityError
            }),
            result matches Ok(handle) ==> {
                let m = mesh_handle as int;
                let slot = old(self).mesh_len(m);
                &&& final(self).transient_instances@ == old(self).transient_instances@.push(
                    handle,
                )
                &&& handle == old(self).instance_store.next_handle()
                &&& !old(self).live(handle)
                &&& final(self).live(handle)
                &&& final(self).instance_store.record(handle).mesh_index == m
                &&& final(self).instance_store.record(handle).slot_index == slot
                &&& final(self).instance_store.record(handle).transform@ == transform@
                &&& forall|k: u32| k != handle ==> final(self).live(k) == old(self).live(k)
                &&& forall|k: u32|
                    k != handle && old(self).live(k) ==> final(self).instance_store.record(k)
                        == old(self).instance_store.record(k)
                &&& final(self).instance_store.spec_len() == old(self).instance_store.spec_len()
                    + 1
                &&& final(self).instance_store.active_handles@ == old(
                    self,
                ).instance_store.active_handles@.push(handle)
                &&& final(self).instance_store.free_list@ == if old(
                    self,
                ).instance_store.free_list@.len() > 0 {
                    old(self).instance_store.free_list@.drop_last()
                } else {
                    old(self).instance_store.free_list@
                }
                &&& final(self).instance_store.entries@.len() == old(
                    self,
                ).instance_store.entries@.len() + if old(self).instance_store.free_list@.len()
                    > 0 {
                    0int
                } else {
                    1int
                }
                &&& final(self).mesh_instances@[m].transforms@ == old(
                    self,
                ).mesh_instances@[m].transforms@.push(
                    final(self).instance_store.record(handle).transform,
                )
                &&& final(self).mesh_instances@[m].handles@ == old(
                    self,
                ).mesh_instances@[m].handles@.push(handle)
                &&& forall|s: usize|
                    final(self).mesh_instances@[m].is_pending(s) <==> old(
                        self,
                    ).mesh_instances@[m].is_pending(s) || s == slot
                &&& forall|m2: int|
                    0 <= m2 < old(self).mesh_instances@.len() && m2 != m
                        ==> final(self).mesh_instances@[m2] == old(self).mesh_instances@[m2]
                &&& final(self).meshes@ == old(self).meshes@
                &&& final(self).view_matrix == old(self).view_matrix
                &&& final(self).projection_matrix == old(self).projection_matrix
                &&& final(self).max_instances_per_draw == old(self).max_instances_per_draw
                &&& old(self).mesh_instances@[m].capacity >= slot + 1 ==> final(ops)@ == old(
                    ops,
                )@ && final(self).mesh_instances@[m].capacity == old(
                    self,
                ).mesh_instances@[m].capacity
                &&& old(self).mesh_instances@[m].capacity < slot + 1
                    ==> crate::gpu::realloc_ops_for(
                    final(ops)@.skip(old(ops)@.len() as int),
                    mesh_handle as usize,
                    final(self).mesh_instances@[m].capacity as usize,
                    final(self).mesh_instances@[m].transforms@,
                ) && final(ops)@.subrange(0, old(ops)@.len() as int) == old(ops)@
            },
    {
        let handle = match self.create_instance(mesh_handle, transform, ops) {
            Ok(handle) => handle,
            Err(e) => {
                return Err(e);
            },
        };
        proof {
            assert forall|t: int|
                0 <= t < self.transient_instances@.len() implies #[trigger] self.transient_instances@[t]
                != handle by {
                assert(old(self).instance_store.live(old(self).transient_instances@[t]));
            }
        }
        self.transient_instances.push(handle);
        Ok(handle)
    }

    /// Number of instances queued for removal at the next render pass.
    pub fn queued_instances(&self) -> (n: u32)
        requires
            self.wf(),
        ensures
            n == self.transient_instances@.len(),
    {
        proof {
            crate::instances::lemma_distinct_live_handles_bounded(
                &self.instance_store,
                self.transient_instances@,
            );
        }
        self.transient_instances.len() as u32
    }

    /// The device-imposed ceiling on instances per draw.
    pub fn max_instances(&self) -> (n: u32)
        requires
            self.wf(),
        ensures
            n == self.max_instances_per_draw,
    {
        self.max_instances_per_draw as u32
    }

    /// Number of live instances across all meshes.
    pub fn instance_count(&self) -> (n: u32)
        requires
            self.wf(),
        ensures
            n == self.instance_store.spec_len(),
    {
        self.instance_store.len() as u32
    }

    /// Replaces the shared view matrix (sixteen words) and emits its
    /// uniform upload; a wrong-length input yields `ValidationError` and
    /// changes nothing.
    pub fn set_view_matrix(&mut self, matrix_words: &Vec<u32>, ops: &mut Vec<DeviceOp>) -> (result:
        Result<(), RenderError>)
        requires
            old(self).wf(),
        ensures
            final(self).wf(),
            result is Ok <==> matrix_words@.len() == 16,
            result matches Err(e) ==> e == RenderError::ValidationError && *final(self) == *old(
                self,
            ) && final(ops)@ == old(ops)@,
            result is Ok ==> {
                &&& final(self).view_matrix@ == matrix_words@
                &&& *final(self) == (BatchedRenderer {
                    view_matrix: final(self).view_matrix,
                    ..*old(self)
                })
                &&& final(ops)@ == old(ops)@.push(DeviceOp::SetViewMatrix {
                    matrix: final(self).view_matrix,
                })
            },
    {
        let matrix = match matrix_from_words(matrix_words) {
            Ok(matrix) => matrix,
            Err(e) => {
                return Err(e);
            },
        };
        self.view_matrix = matrix;
        ops.push(DeviceOp::SetViewMatrix { matrix });
        Ok(())
    }

    /// Replaces the shared projection matrix (sixteen words) and emits its
    /// uniform upload; a wrong-length input yields `ValidationError` and
    /// changes nothing.
    pub fn set_projection_matrix(&mut self, matrix_words: &Vec<u32>, ops: &mut Vec<DeviceOp>) -> (
    result: Result<(), RenderError>)
        requires
            old(self).wf(),
        ensures
            final(self).wf(),
            result is Ok <==> matrix_words@.len() == 16,
            result matches Err(e) ==> e == RenderError::ValidationError && *final(self) == *old(
                self,
            ) && final(ops)@ == old(ops)@,
            result is Ok ==> {
                &&& final(self).projection_matrix@ == matrix_words@
                &&& *final(self) == (BatchedRenderer {
                    projection_matrix: final(self).projection_matrix,
                    ..*old(self)
                })
                &&& final(ops)@ == old(ops)@.push(DeviceOp::SetProjectionMatrix {
                    matrix: final(self).projection_matrix,
                })
            },
    {
        let matrix = match matrix_from_words(matrix_words) {
            Ok(matrix) => matrix,
            Err(e) => {
                return Err(e);
            },
        };
        self.projection_matrix = matrix;
        ops.push(DeviceOp::SetProjectionMatrix { matrix });
        Ok(())
    }

    /// Removes every queued transient instance exactly once and empties
    /// the queue. Handles not in the queue stay live with their mesh and
    /// transform untouched (their slot bookkeeping may move).
    fn remove_transient_instances(&mut self)
        requires
            old(self).wf(),
        ensures
            final(self).wf(),
            final(self).transient_instances@.len() == 0,
            forall|h: u32|
                final(self).live(h) <==> old(self).live(h) && !old(
                    self,
                ).transient_instances@.contains(h),
            forall|h: u32|
                final(self).live(h) ==> final(self).instance_store.record(h).mesh_index == old(
                    self,
                ).instance_store.record(h).mesh_index && final(self).instance_store.record(
                    h,
                ).transform == old(self).instance_store.record(h).transform,
            final(self).instance_store.spec_len() == old(self).instance_store.spec_len() - old(
                self,
            ).transient_instances@.len(),
            final(self).instance_store.entries@.len() == old(
                self,
            ).instance_store.entries@.len(),
            final(self).instance_store.free_list@.len() == old(
                self,
            ).instance_store.free_list@.len() + old(self).transient_instances@.len(),
            final(self).meshes@ == old(self).meshes@,
            final(self).mesh_instances@.len() == old(self).mesh_instances@.len(),
            forall|m: int|
                0 <= m < old(self).mesh_instances@.len() ==> (#[trigger] final(self).mesh_instances@[m]).capacity == old(self).mesh_instances@[m].capacity && final(self).mesh_instances@[m].buffer == old(self).mesh_instances@[m].buffer,
            final(self).view_matrix == old(self).view_matrix,
            final(self).projection_matrix == old(self).projection_matrix,
            final(self).max_instances_per_draw == old(self).max_instances_per_draw,
    {
        while self.transient_instances.len() > 0
            invariant
                self.wf(),
                self.transient_instances@.len() <= old(self).transient_instances@.len(),
                self.transient_instances@ == old(self).transient_instances@.take(
                    self.transient_instances@.len() as int,
                ),
                forall|h: u32|
                    self.live(h) <==> old(self).live(h) && !old(
                        self,
                    ).transient_instances@.skip(self.transient_instances@.len() as int).contains(
                        h,
                    ),
                forall|h: u32|
                    self.live(h) ==> self.instance_store.record(h).mesh_index == old(
                        self,
                    ).instance_store.record(h).mesh_index && self.instance_store.record(
                        h,
                    ).transform == old(self).instance_store.record(h).transform,
                self.instance_store.spec_len() == old(self).instance_store.spec_len() - (old(
                    self,
                ).transient_instances@.len() - self.transient_instances@.len()),
                self.instance_store.entries@.len() == old(self).instance_store.entries@.len(),
                self.instance_store.free_list@.len() == old(
                    self,
                ).instance_store.free_list@.len() + (old(self).transient_instances@.len()
                    - self.transient_instances@.len()),
                self.meshes@ == old(self).meshes@,
                self.mesh_instances@.len() == old(self).mesh_instances@.len(),
                forall|m: int|
                    0 <= m < old(self).mesh_instances@.len() ==> (#[trigger] self.mesh_instances@[
                        m]).capacity == old(self).mesh_instances@[m].capacity
                        && self.mesh_instances@[m].buffer == old(self).mesh_instances@[m].buffer,
                self.view_matrix == old(self).view_matrix,
                self.projection_matrix == old(self).projection_matrix,
                self.max_instances_per_draw == old(self).max_instances_per_draw,
            decreases self.transient_instances@.len(),
        {
            let ghost pre = *self;
            let ghost n_pre = self.transient_instances@.len() as int;
            let handle = match self.transient_instances.pop() {
                Some(handle) => handle,
                None => {
                    proof {
                        assert(false);
                    }
                    return ;
                },
            };
            proof {
                assert(old(self).transient_instances@.take(n_pre).last() == handle);
                assert(self.transient_instances@ =~= old(self).transient_instances@.take(
                    n_pre - 1,
                ));
                assert(self.live(handle));
            }
            self.remove_instance_internal(handle);
            proof {
                assert forall|h: u32|
                    self.live(h) <==> old(self).live(h) && !old(
                        self,
                    ).transient_instances@.skip(n_pre - 1).contains(h) by {
                    let skipped_pre = old(self).transient_instances@.skip(n_pre);
                    let skipped_post = old(self).transient_instances@.skip(n_pre - 1);
                    assert(skipped_post[0] == handle);
                    assert(pre.live(h) <==> old(self).live(h) && !skipped_pre.contains(h));
                    if h != handle {
                        assert(skipped_post.contains(h) <==> skipped_pre.contains(h)) by {
                            if skipped_pre.contains(h) {
                                let w = choose|w: int|
                                    0 <= w < skipped_pre.len() && skipped_pre[w] == h;
                                assert(skipped_post[w + 1] == h);
                            }
                            if skipped_post.contains(h) {
                                let w = choose|w: int|
                                    0 <= w < skipped_post.len() && skipped_post[w] == h;
                                assert(w != 0);
                                assert(skipped_pre[w - 1] == h);
                            }
                        }
                    } else {
                        assert(skipped_post.contains(handle)) by {
                            assert(skipped_post[0] == handle);
                        }
                    }
                }
                assert forall|t: int|
                    0 <= t < self.transient_instances@.len()
                        implies self.instance_store.live(
                    #[trigger] self.transient_instances@[t],
                ) by {
                    let x = self.transient_instances@[t];
                    assert(pre.transient_instances@[t] == x);
                    assert(pre.live(x));
                    assert(x != handle);
                    assert(self.live(x));
                }
            }
        }
        proof {
            assert(self.transient_instances@ =~= old(self).transient_instances@.take(0));
            assert forall|h: u32|
                self.live(h) <==> old(self).live(h) && !old(
                    self,
                ).transient_instances@.contains(h) by {
                assert(old(self).transient_instances@.skip(0) =~= old(
                    self,
                ).transient_instances@);
            }
        }
    }

    /// Runs one frame. When no instance is live anywhere nothing is drawn
    /// and no device call is made (the transient queue, necessarily empty,
    /// is cleared). Otherwise the two camera uniforms are uploaded, then
    /// for each mesh in registration order its dirty slots are flushed and
    /// — unless the mesh currently has no instances — one instanced draw
    /// of its full geometry is issued with the current instance count.
    /// After all meshes are processed every queued transient instance is
    /// removed exactly once.
    pub fn render_pass(&mut self, ops: &mut Vec<DeviceOp>)
        requires
            old(self).wf(),
        ensures
            final(self).wf(),
            final(self).transient_instances@.len() == 0,
            forall|h: u32|
                final(self).live(h) <==> old(self).live(h) && !old(
                    self,
                ).transient_instances@.contains(h),
            forall|h: u32|
                final(self).live(h) ==> final(self).instance_store.record(h).mesh_index == old(
                    self,
                ).instance_store.record(h).mesh_index && final(self).instance_store.record(
                    h,
                ).transform == old(self).instance_store.record(h).transform,
            final(self).instance_store.spec_len() == old(self).instance_store.spec_len() - old(
                self,
            ).transient_instances@.len(),
            final(self).instance_store.entries@.len() == old(
                self,
            ).instance_store.entries@.len(),
            final(self).instance_store.free_list@.len() == old(
                self,
            ).instance_store.free_list@.len() + old(self).transient_instances@.len(),
            final(self).meshes@ == old(self).meshes@,
            final(self).mesh_instances@.len() == old(self).mesh_instances@.len(),
            final(self).view_matrix == old(self).view_matrix,
            final(self).projection_matrix == old(self).projection_matrix,
            final(self).max_instances_per_draw == old(self).max_instances_per_draw,
            forall|i: int|
                0 <= i < old(self).mesh_instances@.len() ==> (#[trigger] final(self).mesh_instances@[i]).capacity
                    == old(self).mesh_instances@[i].capacity
                    && final(self).mesh_instances@[i].buffer == old(
                    self,
                ).mesh_instances@[i].buffer,
            old(self).instance_store.spec_len() == 0 ==> final(self).mesh_instances@ == old(
                self,
            ).mesh_instances@ && final(self).instance_store == old(self).instance_store,
            old(self).instance_store.spec_len() == 0 ==> final(ops)@ == old(ops)@,
            old(self).instance_store.spec_len() > 0 ==> {
                &&& final(ops)@.len() >= old(ops)@.len() + 2
                &&& final(ops)@.subrange(0, old(ops)@.len() as int) == old(ops)@
                &&& final(ops)@[old(ops)@.len() as int] == (DeviceOp::SetViewMatrix {
                    matrix: old(self).view_matrix,
                })
                &&& final(ops)@[old(ops)@.len() as int + 1] == (DeviceOp::SetProjectionMatrix {
                    matrix: old(self).projection_matrix,
                })
                &&& pass_ops_for(
                    final(ops)@.skip(old(ops)@.len() as int + 2),
                    old(self).mesh_instances@,
                    old(self).meshes@,
                )
            },
    {
        if self.instance_store.is_empty() {
            proof {
                if old(self).transient_instances@.len() > 0 {
                    assert(old(self).instance_store.live(old(self).transient_instances@[0]));
                }
            }
            self.transient_instances.clear();
            return ;
        }
        let ghost base = ops@.len() as int;
        ops.push(DeviceOp::SetViewMatrix { matrix: self.view_matrix });
        ops.push(DeviceOp::SetProjectionMatrix { matrix: self.projection_matrix });
        let ghost base2 = ops@.len() as int;
        proof {
            assert forall|fut: Seq<DeviceOp>|
                pass_ops_for(
                    fut,
                    old(self).mesh_instances@.skip(0),
                    old(self).meshes@.skip(0),
                ) implies pass_ops_for(
                #[trigger] ops@.skip(base2).add(fut),
                old(self).mesh_instances@,
                old(self).meshes@,
            ) by {
                assert(old(self).mesh_instances@.skip(0) =~= old(self).mesh_instances@);
                assert(old(self).meshes@.skip(0) =~= old(self).meshes@);
                assert(ops@.skip(base2).add(fut) =~= fut);
            }
        }
        let mut m: usize = 0;
        while m < self.mesh_instances.len()
            invariant
                self.wf(),
                self.meshes@ == old(self).meshes@,
                self.instance_store == old(self).instance_store,
                self.transient_instances@ == old(self).transient_instances@,
                self.view_matrix == old(self).view_matrix,
                self.projection_matrix == old(self).projection_matrix,
                self.max_instances_per_draw == old(self).max_instances_per_draw,
                self.mesh_instances@.len() == old(self).mesh_instances@.len(),
                m <= self.mesh_instances@.len(),
                forall|i: int|
                    m <= i < self.mesh_instances@.len() ==> #[trigger] self.mesh_instances@[i]
                        == old(self).mesh_instances@[i],
                forall|i: int|
                    0 <= i < m ==> {
                        &&& (#[trigger] self.mesh_instances@[i]).transforms@ == old(
                            self,
                        ).mesh_instances@[i].transforms@
                        &&& self.mesh_instances@[i].handles@ == old(
                            self,
                        ).mesh_instances@[i].handles@
                        &&& self.mesh_instances@[i].capacity == old(
                            self,
                        ).mesh_instances@[i].capacity
                        &&& self.mesh_instances@[i].buffer == old(self).mesh_instances@[i].buffer
                        &&& self.mesh_instances@[i].pending@.len() == 0
                    },
                base == old(ops)@.len() as int,
                base2 == base + 2,
                base2 <= ops@.len(),
                ops@.subrange(0, base) == old(ops)@,
                ops@[base] == (DeviceOp::SetViewMatrix { matrix: old(self).view_matrix }),
                ops@[base + 1] == (DeviceOp::SetProjectionMatrix {
                    matrix: old(self).projection_matrix,
                }),
                forall|fut: Seq<DeviceOp>|
                    pass_ops_for(
                        fut,
                        old(self).mesh_instances@.skip(m as int),
                        old(self).meshes@.skip(m as int),
                    ) ==> pass_ops_for(
                        #[trigger] ops@.skip(base2).add(fut),
                        old(self).mesh_instances@,
                        old(self).meshes@,
                    ),
            decreases self.mesh_instances@.len() - m,
        {
            let ghost pre = *self;
            let ghost ops_entry = ops@;
            let ghost prelen = ops@.len() as int;
            let ghost done = ops@.skip(base2);
            let ghost mi0 = old(self).mesh_instances@[m as int];
            proof {
                assert(self.mesh_instances@[m as int] == mi0);
            }
            self.mesh_instances[m].flush_pending(ops);
            let ghost ops_mid = ops@;
            let ghost fl = ops@.skip(prelen);
            let ghost k = crate::gpu::run_count(mi0.pending@);
            proof {
                crate::gpu::lemma_upload_ops_len(fl, mi0.buffer, mi0.pending@, mi0.transforms@);
            }
            let len_m = self.mesh_instances[m].len();
            if len_m > 0 {
                let vc = self.meshes[m].vertex_count;
                ops.push(
                    DeviceOp::DrawMeshInstances {
                        mesh: m,
                        vertex_count: vc,
                        instance_count: len_m,
                    },
                );
            }
            proof {
                let d: int = if mi0.spec_len() > 0 {
                    1int
                } else {
                    0int
                };
                let appended = ops@.skip(prelen);
                assert(appended.len() == k + d);
                assert forall|i: int| 0 <= i <= base + 1 implies #[trigger] ops@[i]
                    == ops_entry[i] by {
                    assert(ops@[i] == ops_mid[i]);
                    assert(ops_mid.subrange(0, prelen)[i] == ops_mid[i]);
                }
                assert forall|i: int| 0 <= i < base implies #[trigger] ops@[i] == old(
                    ops,
                )@[i] by {
                    assert(ops_entry.subrange(0, base)[i] == ops_entry[i]);
                }
                assert(ops@.subrange(0, base) =~= old(ops)@);
                assert forall|fut: Seq<DeviceOp>|
                    pass_ops_for(
                        fut,
                        old(self).mesh_instances@.skip(m as int + 1),
                        old(self).meshes@.skip(m as int + 1),
                    ) implies pass_ops_for(
                    #[trigger] ops@.skip(base2).add(fut),
                    old(self).mesh_instances@,
                    old(self).meshes@,
                ) by {
                    let fut2 = appended.add(fut);
                    let mis_m = old(self).mesh_instances@.skip(m as int);
                    let meshes_m = old(self).meshes@.skip(m as int);
                    assert(mis_m[0] == mi0);
                    assert(fut2.take(k) =~= fl);
                    if d == 1 {
                        assert(fut2[k] == ops@[prelen + k]);
                        assert(ops@[prelen + k] == (DeviceOp::DrawMeshInstances {
                            mesh: mi0.buffer,
                            vertex_count: old(self).meshes@[m as int].vertex_count,
                            instance_count: mi0.spec_len() as usize,
                        }));
                    }
                    assert(fut2.skip(k + d) =~= fut);
                    assert(mis_m.drop_first() =~= old(self).mesh_instances@.skip(m as int + 1));
                    assert(meshes_m.drop_first() =~= old(self).meshes@.skip(m as int + 1));
                    assert(pass_ops_for(fut2, mis_m, meshes_m));
                    assert(done.add(fut2) =~= ops@.skip(base2).add(fut));
                    assert(pass_ops_for(
                        done.add(fut2),
                        old(self).mesh_instances@,
                        old(self).meshes@,
                    ));
                }
                assert forall|h: u32| #[trigger] self.instance_store.live(h) implies {
                    let r = self.instance_store.record(h);
                    &&& (r.mesh_index as int) < self.mesh_instances@.len()
                    &&& (r.slot_index as int) < self.mesh_instances@[
                        r.mesh_index as int].spec_len()
                    &&& self.mesh_instances@[r.mesh_index as int].handles@[r.slot_index as int]
                        == h
                    &&& self.mesh_instances@[r.mesh_index as int].transforms@[
                        r.slot_index as int] == r.transform
                } by {
                    assert(pre.instance_store.live(h));
                }
                assert forall|m2: int, s: int|
                    0 <= m2 < self.mesh_instances@.len() && 0 <= s
                        < self.mesh_instances@[m2].spec_len() implies {
                    let h = #[trigger] self.mesh_instances@[m2].handles@[s];
                    &&& self.instance_store.live(h)
                    &&& self.instance_store.record(h).mesh_index == m2
                    &&& self.instance_store.record(h).slot_index == s
                } by {
                    assert(self.mesh_instances@[m2].handles@[s] == pre.mesh_instances@[
                        m2].handles@[s]);
                    assert(pre.instance_store.live(pre.mesh_instances@[m2].handles@[s]));
                }
                assert forall|t: int|
                    0 <= t < self.transient_instances@.len()
                        implies self.instance_store.live(
                    #[trigger] self.transient_instances@[t],
                ) by {
                    assert(pre.instance_store.live(pre.transient_instances@[t]));
                }
            }
            m = m + 1;
        }
        proof {
            assert(pass_ops_for(
                Seq::<DeviceOp>::empty(),
                old(self).mesh_instances@.skip(m as int),
                old(self).meshes@.skip(m as int),
            ));
            assert(ops@.skip(base2).add(Seq::<DeviceOp>::empty()) =~= ops@.skip(base2));
            assert(pass_ops_for(ops@.skip(base2), old(self).mesh_instances@, old(self).meshes@));
        }
        self.remove_transient_instances();
    }

    /// Explicit maintenance: for each mesh in registration order, flushes
    /// its dirty slots and then shrinks its device allocation to exactly
    /// the live row count (releasing everything for an empty mesh), with
    /// one reallocation and full re-upload per mesh. Caller-invoked only;
    /// never run implicitly.
    pub fn defragment_instances(&mut self, ops: &mut Vec<DeviceOp>)
        requires
            old(self).wf(),
        ensures
            final(self).wf(),
            final(self).meshes@ == old(self).meshes@,
            final(self).instance_store == old(self).instance_store,
            final(self).transient_instances@ == old(self).transient_instances@,
            final(self).view_matrix == old(self).view_matrix,
            final(self).projection_matrix == old(self).projection_matrix,
            final(self).max_instances_per_draw == old(self).max_instances_per_draw,
            final(self).mesh_instances@.len() == old(self).mesh_instances@.len(),
            forall|i: int|
                0 <= i < old(self).mesh_instances@.len() ==> {
                    &&& (#[trigger] final(self).mesh_instances@[i]).transforms@ == old(
                        self,
                    ).mesh_instances@[i].transforms@
                    &&& final(self).mesh_instances@[i].handles@ == old(
                        self,
                    ).mesh_instances@[i].handles@
                    &&& final(self).mesh_instances@[i].buffer == old(
                        self,
                    ).mesh_instances@[i].buffer
                    &&& final(self).mesh_instances@[i].pending@.len() == 0
                    &&& final(self).mesh_instances@[i].capacity == old(
                        self,
                    ).mesh_instances@[i].spec_len()
                },
            final(ops)@.subrange(0, old(ops)@.len() as int) == old(ops)@,
            defrag_ops_for(final(ops)@.skip(old(ops)@.len() as int), old(self).mesh_instances@),
    {
        let ghost base = ops@.len() as int;
        proof {
            assert forall|fut: Seq<DeviceOp>|
                defrag_ops_for(fut, old(self).mesh_instances@.skip(0)) implies defrag_ops_for(
                #[trigger] ops@.skip(base).add(fut),
                old(self).mesh_instances@,
            ) by {
                assert(old(self).mesh_instances@.skip(0) =~= old(self).mesh_instances@);
                assert(ops@.skip(base).add(fut) =~= fut);
            }
        }
        let mut m: usize = 0;
        while m < self.mesh_instances.len()
            invariant
                self.wf(),
                self.meshes@ == old(self).meshes@,
                self.instance_store == old(self).instance_store,
                self.transient_instances@ == old(self).transient_instances@,
                self.view_matrix == old(self).view_matrix,
                self.projection_matrix == old(self).projection_matrix,
                self.max_instances_per_draw == old(self).max_instances_per_draw,
                self.mesh_instances@.len() == old(self).mesh_instances@.len(),
                m <= self.mesh_instances@.len(),
                forall|i: int|
                    m <= i < self.mesh_instances@.len() ==> #[trigger] self.mesh_instances@[i]
                        == old(self).mesh_instances@[i],
                forall|i: int|
                    0 <= i < m ==> {
                        &&& (#[trigger] self.mesh_instances@[i]).transforms@ == old(
                            self,
                        ).mesh_instances@[i].transforms@
                        &&& self.mesh_instances@[i].handles@ == old(
                            self,
                        ).mesh_instances@[i].handles@
                        &&& self.mesh_instances@[i].buffer == old(self).mesh_instances@[i].buffer
                        &&& self.mesh_instances@[i].pending@.len() == 0
                        &&& self.mesh_instances@[i].capacity == old(
                            self,
                        ).mesh_instances@[i].spec_len()
                    },
                base == old(ops)@.len() as int,
                base <= ops@.len(),
                ops@.subrange(0, base) == old(ops)@,
                forall|fut: Seq<DeviceOp>|
                    defrag_ops_for(fut, old(self).mesh_instances@.skip(m as int))
                        ==> defrag_ops_for(
                        #[trigger] ops@.skip(base).add(fut),
                        old(self).mesh_instances@,
                    ),
            decreases self.mesh_instances@.len() - m,
        {
            let ghost pre = *self;
            let ghost ops_entry = ops@;
            let ghost prelen = ops@.len() as int;
            let ghost done = ops@.skip(base);
            let ghost mi0 = old(self).mesh_instances@[m as int];
            proof {
                assert(self.mesh_instances@[m as int] == mi0);
            }
            self.mesh_instances[m].flush_pending(ops);
            let ghost ops_mid = ops@;
            let ghost fl = ops@.skip(prelen);
            let ghost k = crate::gpu::run_count(mi0.pending@);
            proof {
                crate::gpu::lemma_upload_ops_len(fl, mi0.buffer, mi0.pending@, mi0.transforms@);
            }
            self.mesh_instances[m].defragment(ops);
            proof {
                let d: int = if mi0.spec_len() > 0 {
                    2int
                } else {
                    1int
                };
                let appended = ops@.skip(prelen);
                let re = ops@.skip(prelen + k);
                assert(crate::gpu::realloc_ops_for(
                    re,
                    mi0.buffer,
                    mi0.transforms@.len() as usize,
                    mi0.transforms@,
                ));
                assert(re.len() == d);
                assert(appended.len() == k + d);
                assert forall|i: int| 0 <= i < base implies #[trigger] ops@[i] == old(
                    ops,
                )@[i] by {
                    assert(ops@.subrange(0, prelen + k)[i] == ops@[i]);
                    assert(ops_mid.subrange(0, prelen)[i] == ops_mid[i]);
                    assert(ops_entry.subrange(0, base)[i] == ops_entry[i]);
                }
                assert(ops@.subrange(0, base) =~= old(ops)@);
                assert forall|fut: Seq<DeviceOp>|
                    defrag_ops_for(fut, old(self).mesh_instances@.skip(m as int + 1))
                        implies defrag_ops_for(
                    #[trigger] ops@.skip(base).add(fut),
                    old(self).mesh_instances@,
                ) by {
                    let fut2 = appended.add(fut);
                    let mis_m = old(self).mesh_instances@.skip(m as int);
                    assert(mis_m[0] == mi0);
                    assert(fut2.take(k) =~= fl);
                    assert(fut2.subrange(k, k + d) =~= re);
                    assert(fut2.skip(k + d) =~= fut);
                    assert(mis_m.drop_first() =~= old(self).mesh_instances@.skip(m as int + 1));
                    assert(defrag_ops_for(fut2, mis_m));
                    assert(done.add(fut2) =~= ops@.skip(base).add(fut));
                    assert(defrag_ops_for(done.add(fut2), old(self).mesh_instances@));
                }
                assert forall|h: u32| #[trigger] self.instance_store.live(h) implies {
                    let r = self.instance_store.record(h);
                    &&& (r.mesh_index as int) < self.mesh_instances@.len()
                    &&& (r.slot_index as int) < self.mesh_instances@[
                        r.mesh_index as int].spec_len()
                    &&& self.mesh_instances@[r.mesh_index as int].handles@[r.slot_index as int]
                        == h
                    &&& self.mesh_instances@[r.mesh_index as int].transforms@[
                        r.slot_index as int] == r.transform
                } by {
                    assert(pre.instance_store.live(h));
                }
                assert forall|m2: int, s: int|
                    0 <= m2 < self.mesh_instances@.len() && 0 <= s
                        < self.mesh_instances@[m2].spec_len() implies {
                    let h = #[trigger] self.mesh_instances@[m2].handles@[s];
                    &&& self.instance_store.live(h)
                    &&& self.instance_store.record(h).mesh_index == m2
                    &&& self.instance_store.record(h).slot_index == s
                } by {
                    assert(self.mesh_instances@[m2].handles@[s] == pre.mesh_instances@[
                        m2].handles@[s]);
                    assert(pre.instance_store.live(pre.mesh_instances@[m2].handles@[s]));
                }
                assert forall|t: int|
                    0 <= t < self.transient_instances@.len()
                        implies self.instance_store.live(
                    #[trigger] self.transient_instances@[t],
                ) by {
                    assert(pre.instance_store.live(pre.transient_instances@[t]));
                }
            }
            m = m + 1;
        }
        proof {
            assert(defrag_ops_for(
                Seq::<DeviceOp>::empty(),
                old(self).mesh_instances@.skip(m as int),
            ));
            assert(ops@.skip(base).add(Seq::<DeviceOp>::empty()) =~= ops@.skip(base));
            assert(defrag_ops_for(ops@.skip(base), old(self).mesh_instances@));
        }
    }
}

} // verus!
