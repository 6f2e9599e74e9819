//! Voxel-chunk renderer core: chunk-to-scene meshing with visibility culling,
//! per-block-type instance batching, a block-type registry, and the
//! single-slot exchange that hands chunk snapshots from a writer thread to
//! the render loop.

pub mod block_types;
pub mod chunk;
pub mod chunk_renderer;
pub mod exchange;
pub mod orchestrator;
pub mod scene;
