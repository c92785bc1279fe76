//! What is attached to the entity that draws a chunk: the chunk's key, and
//! the marks for work that is still owed to it.

use vstd::prelude::*;

use crate::ivec::IVec3;

verus! {

/// Marks an entity as the one that draws the chunk at `key`.
#[derive(Clone, Copy, Debug, PartialEq, Eq, Structural)]
pub struct Chunk {
    pub key: IVec3,
}

/// Marks a chunk whose terrain is still to be generated.
#[derive(Clone, Copy, Debug, PartialEq, Eq, Structural)]
pub struct NeedsTerrain;

/// Marks a chunk whose mesh is still to be extracted, at the level of detail
/// that the mark carries.
#[derive(Clone, Copy, Debug, PartialEq, Eq, Structural)]
pub struct NeedsMesh(pub u32);

} // verus!
