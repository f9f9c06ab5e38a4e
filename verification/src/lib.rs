//! A voxel world core: typed blocks, sparse chunk-column storage, greedy
//! surface meshing, and grid raycasting.
//!
//! Geometry is produced in whole block units, colors in hundredths, and
//! ray positions in thousandths of a block, so every quantity is an exact
//! integer; a renderer scales them to floating point at its own boundary.

use vstd::prelude::*;

pub mod block;
pub mod chunk;
pub mod mesh;
pub mod raycast;
pub mod texture_atlas;

verus! {

/// Width of a chunk on each horizontal axis, in blocks.
pub const CHUNK_SIZE: usize = 16;

/// Total height of a chunk, in blocks.
pub const CHUNK_HEIGHT: usize = 256;

} // verus!
