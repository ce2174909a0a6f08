use vstd::prelude::*;
use crate::utils::RenderError;

verus! {

/// Components of a vertex position.
pub const POSITION_COMPONENTS: usize = 3;
/// Components of a vertex color.
pub const COLOR_COMPONENTS: usize = 4;
/// Words per interleaved vertex record: position (xyz) + color (rgba).
pub const MESH_VERTEX_STRIDE: usize = 7;

/// Immutable registered geometry: one interleaved record of
/// `MESH_VERTEX_STRIDE` words per vertex, each word the bit pattern of a
/// single-precision component. Validated on construction to be non-empty
/// and stride-aligned; never mutated afterwards.
pub struct Mesh {
    /// Interleaved vertex words; treat as read-only and rely on `wf`.
    pub data: Vec<u32>,
}

impl Mesh {
    /// The interleaved vertex words.
    pub open spec fn spec_raw(&self) -> Seq<u32> {
        self.data@
    }

    /// A valid mesh is non-empty and holds a whole number of vertices.
    pub open spec fn wf(&self) -> bool {
        &&& self.data@.len() > 0
        &&& (self.data@.len() as int) % (MESH_VERTEX_STRIDE as int) == 0
    }

    /// Number of vertices described by the data.
    pub open spec fn spec_vertex_count(&self) -> int {
        (self.data@.len() as int) / (MESH_VERTEX_STRIDE as int)
    }

    /// Validates vertex data: it must be non-empty and hold a whole number
    /// of `(x, y, z, r, g, b, a)` records.
    pub fn new(data: Vec<u32>) -> (result: Result<Mesh, RenderError>)
        ensures
            result is Ok <==> data@.len() > 0 && (data@.len() as int) % (
                MESH_VERTEX_STRIDE as int) == 0,
            result matches Ok(mesh) ==> mesh.wf() && mesh == (Mesh { data }),
            result matches Err(e) ==> e == RenderError::ValidationError,
    {
        if data.is_empty() {
            return Err(RenderError::ValidationError);
        }
        if data.len() % MESH_VERTEX_STRIDE != 0 {
            return Err(RenderError::ValidationError);
        }
        Ok(Mesh { data })
    }

    /// Consumes the mesh, handing its vertex words over (to the device
    /// shell, which uploads them).
    pub fn into_words(self) -> (out: Vec<u32>)
        ensures
            out == self.data,
    {
        self.data
    }

    /// The raw interleaved vertex words.
    pub fn raw(&self) -> (out: &Vec<u32>)
        ensures
            out@ == self.spec_raw(),
    {
        &self.data
    }

    /// Number of vertices; positive for a valid mesh.
    pub fn vertex_count(&self) -> (count: usize)
        ensures
            count == self.spec_vertex_count(),
    {
        self.data.len() / MESH_VERTEX_STRIDE
    }
}

} // verus!
