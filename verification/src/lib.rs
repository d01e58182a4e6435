//! Voxel terrain core: a deterministic height field, per-chunk voxel
//! population, visibility-based face culling into a quad mesh, and merging
//! of chunk meshes into one drawable mesh.
//!
//! Geometry is kept in exact integer coordinates: a block's world position
//! is `(chunk origin + local coordinate) * block_scale`, and texture
//! coordinates are numerators over the 256-unit atlas. A renderer divides
//! by the atlas size when it uploads vertices.

pub mod block;
pub mod chunk;
pub mod chunk_list;
pub mod height;
pub mod mesh;

use vstd::prelude::*;

verus! {

/// Default chunk width in voxels.
pub const CHUNK_WIDTH: usize = 32;
/// Default chunk height in voxels.
pub const CHUNK_HEIGHT: usize = 32;
/// Default chunk depth in voxels.
pub const CHUNK_DEPTH: usize = 32;
/// Default scale from grid units to world units.
pub const BLOCK_SCALE: i64 = 2;

} // verus!
