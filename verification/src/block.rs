//! The block catalog: block kinds, the faces of a voxel, and where each
//! face of each kind lies in the texture atlas.

use vstd::prelude::*;

use crate::config::{ATLAS_SIZE, TEXTURE_BLOCK_SIZE};
use crate::ivec::{IVec3, Int3};

verus! {

/// The kind of block stored in one voxel.
#[derive(Clone, Copy, Debug, PartialEq, Eq, Structural)]
pub enum Block {
    Air,
    Grass,
    Dirt,
    Stone,
}

/// One of the six faces of a voxel.
#[allow(non_camel_case_types)]
#[derive(Clone, Copy, Debug, PartialEq, Eq, Structural)]
pub enum Face {
    TOP,
    BOTTOM,
    EAST,
    WEST,
    NORTH,
    SOUTH,
}

/// A point of the texture atlas, in texels from its origin. Dividing both
/// coordinates by [`ATLAS_SIZE`] gives the texture coordinate in the unit
/// square.
#[derive(Clone, Copy, Debug, PartialEq, Eq, Structural)]
pub struct AtlasPoint {
    pub u: u32,
    pub v: u32,
}

/// The four corners of the atlas tile at column `tile.0` and row `tile.1`,
/// counter-clockwise from the corner nearest the origin. The far corner is
/// the last texel that still belongs to the tile.
pub open spec fn tile_corners(tile: (int, int)) -> Seq<AtlasPoint> {
    let u0 = tile.0 * TEXTURE_BLOCK_SIZE as int;
    let v0 = tile.1 * TEXTURE_BLOCK_SIZE as int;
    let u1 = (tile.0 + 1) * TEXTURE_BLOCK_SIZE as int - 1;
    let v1 = (tile.1 + 1) * TEXTURE_BLOCK_SIZE as int - 1;
    seq![
        AtlasPoint { u: u0 as u32, v: v0 as u32 },
        AtlasPoint { u: u1 as u32, v: v0 as u32 },
        AtlasPoint { u: u1 as u32, v: v1 as u32 },
        AtlasPoint { u: u0 as u32, v: v1 as u32 },
    ]
}

/// The corners used for a block that has no tile of its own: the last tile of
/// the atlas, up to and including the far edge of the atlas.
pub open spec fn fallback_corners() -> Seq<AtlasPoint> {
    let lo = (ATLAS_SIZE - TEXTURE_BLOCK_SIZE) as u32;
    seq![
        AtlasPoint { u: lo, v: lo },
        AtlasPoint { u: ATLAS_SIZE, v: lo },
        AtlasPoint { u: ATLAS_SIZE, v: ATLAS_SIZE },
        AtlasPoint { u: lo, v: ATLAS_SIZE },
    ]
}

impl Default for Block {
    fn default() -> (r: Block)
        ensures
            r == Block::Air,
    {
        Block::Air
    }
}

impl Block {
    /// Whether light passes through the block. Only `Air` is transparent.
    pub open spec fn is_transparent(self) -> bool {
        self == Block::Air
    }

    /// Whether the block fills its voxel, and so hides the faces that touch it
    /// and stops movement. Everything but `Air` is full.
    pub open spec fn is_full(self) -> bool {
        self != Block::Air
    }

    /// The tile of the atlas, as (column, row), that is drawn on `face` of
    /// this block, if the block has one.
    pub open spec fn tile(self, face: Face) -> Option<(int, int)> {
        match self {
            Block::Grass => if face == Face::TOP {
                Some((0, 1))
            } else if face.side() {
                Some((0, 0))
            } else {
                Some((1, 0))
            },
            Block::Dirt => Some((1, 0)),
            Block::Stone => Some((2, 0)),
            Block::Air => None,
        }
    }

    /// The corners of the tile drawn on `face`, in the order in which the
    /// corners of that face's quad are listed. On the `WEST` and `SOUTH`
    /// faces the order is reversed, because their quads are listed mirrored
    /// with respect to `EAST` and `NORTH`.
    pub open spec fn corners(self, face: Face) -> Option<Seq<AtlasPoint>> {
        match self.tile(face) {
            Some(tile) => if face == Face::WEST || face == Face::SOUTH {
                Some(tile_corners(tile).reverse())
            } else {
                Some(tile_corners(tile))
            },
            None => None,
        }
    }

    pub fn transparent(&self) -> (r: bool)
        ensures
            r == self.is_transparent(),
    {
        match self {
            Block::Air => true,
            _ => false,
        }
    }

    /// Returns whether the given block is a full block.
    pub fn full(&self) -> (r: bool)
        ensures
            r == self.is_full(),
    {
        match self {
            Block::Air => false,
            _ => true,
        }
    }

    /// The atlas tile, as (column, row), drawn on `face` of this block.
    pub fn atlas_tile(&self, face: Face) -> (r: Option<(u32, u32)>)
        ensures
            r.is_some() == self.tile(face).is_some(),
            r matches Some(t) ==> self.tile(face) == Some((t.0 as int, t.1 as int)),
    {
        match self {
            Block::Grass => match face {
                Face::TOP => Some((0, 1)),
                Face::BOTTOM => Some((1, 0)),
                _ => Some((0, 0)),
            },
            Block::Dirt => Some((1, 0)),
            Block::Stone => Some((2, 0)),
            Block::Air => None,
        }
    }

    /// The four texture corners of `face`, in texels, or `None` for a block
    /// without a tile.
    pub fn uvs(&self, face: Face) -> (r: Option<[AtlasPoint; 4]>)
        ensures
            r.is_some() == self.corners(face).is_some(),
            r matches Some(c) ==> self.corners(face) == Some(c@),
    {
        match self.atlas_tile(face) {
            None => None,
            Some((col, row)) => {
                let u0: u32 = col * TEXTURE_BLOCK_SIZE;
                let v0: u32 = row * TEXTURE_BLOCK_SIZE;
                let u1: u32 = (col + 1) * TEXTURE_BLOCK_SIZE - 1;
                let v1: u32 = (row + 1) * TEXTURE_BLOCK_SIZE - 1;
                let a = AtlasPoint { u: u0, v: v0 };
                let b = AtlasPoint { u: u1, v: v0 };
                let c = AtlasPoint { u: u1, v: v1 };
                let d = AtlasPoint { u: u0, v: v1 };
                let ghost listed = tile_corners((col as int, row as int));
                assert(listed =~= seq![a, b, c, d]);
                match face {
                    Face::WEST | Face::SOUTH => {
                        let out = [d, c, b, a];
                        assert(out@ =~= listed.reverse());
                        Some(out)
                    },
                    _ => {
                        let out = [a, b, c, d];
                        assert(out@ =~= listed);
                        Some(out)
                    },
                }
            },
        }
    }

    /// The four texture corners of `face`, in texels, with the fallback tile
    /// for a block that has none.
    pub fn uvs_or_fallback(&self, face: Face) -> (r: [AtlasPoint; 4])
        ensures
            r@ == match self.corners(face) {
                Some(c) => c,
                None => fallback_corners(),
            },
    {
        match self.uvs(face) {
            Some(c) => c,
            None => {
                let lo: u32 = ATLAS_SIZE - TEXTURE_BLOCK_SIZE;
                let out = [
                    AtlasPoint { u: lo, v: lo },
                    AtlasPoint { u: ATLAS_SIZE, v: lo },
                    AtlasPoint { u: ATLAS_SIZE, v: ATLAS_SIZE },
                    AtlasPoint { u: lo, v: ATLAS_SIZE },
                ];
                assert(out@ =~= fallback_corners());
                out
            },
        }
    }
}

impl Face {
    /// The six faces, in the order in which a voxel's quads are emitted.
    pub open spec fn all() -> Seq<Face> {
        seq![Face::TOP, Face::BOTTOM, Face::EAST, Face::WEST, Face::NORTH, Face::SOUTH]
    }

    /// Whether the face is one of the four that stand upright.
    pub open spec fn side(self) -> bool {
        self == Face::EAST || self == Face::WEST || self == Face::NORTH || self == Face::SOUTH
    }

    /// The unit vector that points out of the face.
    pub open spec fn outward(self) -> Int3 {
        match self {
            Face::TOP => Int3 { x: 0, y: 1, z: 0 },
            Face::BOTTOM => Int3 { x: 0, y: -1, z: 0 },
            Face::EAST => Int3 { x: 1, y: 0, z: 0 },
            Face::WEST => Int3 { x: -1, y: 0, z: 0 },
            Face::NORTH => Int3 { x: 0, y: 0, z: 1 },
            Face::SOUTH => Int3 { x: 0, y: 0, z: -1 },
        }
    }

    pub fn normal(self) -> (r: IVec3)
        ensures
            r@ == self.outward(),
    {
        match self {
            Face::TOP => IVec3 { x: 0, y: 1, z: 0 },
            Face::BOTTOM => IVec3 { x: 0, y: -1, z: 0 },
            Face::EAST => IVec3 { x: 1, y: 0, z: 0 },
            Face::WEST => IVec3 { x: -1, y: 0, z: 0 },
            Face::NORTH => IVec3 { x: 0, y: 0, z: 1 },
            Face::SOUTH => IVec3 { x: 0, y: 0, z: -1 },
        }
    }

    pub fn is_any(self) -> (r: bool)
        ensures
            r,
    {
        true
    }

    pub fn is_vertical(self) -> (r: bool)
        ensures
            r == !self.side(),
            r == (self == Face::TOP || self == Face::BOTTOM),
    {
        match self {
            Face::TOP | Face::BOTTOM => true,
            _ => false,
        }
    }

    pub fn is_side(self) -> (r: bool)
        ensures
            r == self.side(),
    {
        match self {
            Face::EAST | Face::WEST | Face::NORTH | Face::SOUTH => true,
            _ => false,
        }
    }
}

} // verus!
