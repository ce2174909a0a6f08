//! Resource manager for an instanced renderer.
//!
//! The library keeps three parallel structures in lockstep: a stable-handle
//! table for client-visible instances, a dense per-mesh transform buffer with
//! incremental (dirty-range) synchronization and geometric capacity growth,
//! and a device-resident copy of that buffer. Synchronization with the device
//! is expressed as a list of explicit device operations; an unverified shell
//! performs them against the real graphics context.

pub mod batched;
pub mod batcher;
pub mod composer;
pub mod gpu;
pub mod instances;
pub mod mesh_instances;
pub mod shader;
pub mod utils;

pub use batched::BatchedRenderer;
pub use batcher::Mesh;
pub use composer::CanvasComposer;
pub use gpu::DeviceOp;
pub use utils::RenderError;
