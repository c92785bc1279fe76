//! World-wide constants, fixed for the lifetime of the process.

use vstd::prelude::*;

verus! {

/// Edge length of a chunk, in voxels.
pub const CHUNK_SIZE: usize = 16;

/// Number of chunks that make up the world vertically.
pub const WORLD_HEIGHT: i32 = 8;

/// Horizontal streaming radius around the observer, in chunks.
pub const RENDER_DISTANCE: i32 = 8;

/// Width, in chunks, of the band of distances that share one level of detail.
pub const LOD_RANGE: i32 = 3;

/// Coarsest level of detail: the stride `2^MAX_LOD` spans a whole chunk.
pub const MAX_LOD: u32 = 4;

/// Number of voxels of dirt between the surface block and the stone below.
pub const DIRT_DEPTH: i32 = 3;

/// Edge length of one tile of the texture atlas, in texels.
pub const TEXTURE_BLOCK_SIZE: u32 = 16;

/// Edge length of the texture atlas, in texels.
pub const ATLAS_SIZE: u32 = 256;

} // verus!
