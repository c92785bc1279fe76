//! Integer 3-vectors: chunk keys, voxel positions and offsets between them.

use vstd::prelude::*;

verus! {

/// A point of the integer grid, without machine bounds. It is the
/// mathematical value of an [`IVec3`].
pub struct Int3 {
    pub x: int,
    pub y: int,
    pub z: int,
}

impl Int3 {
    /// Component-wise sum.
    pub open spec fn plus(self, rhs: Int3) -> Int3 {
        Int3 { x: self.x + rhs.x, y: self.y + rhs.y, z: self.z + rhs.z }
    }

    /// Every component multiplied by `k`.
    pub open spec fn times(self, k: int) -> Int3 {
        Int3 { x: self.x * k, y: self.y * k, z: self.z * k }
    }

    /// Whether every component is representable as an `i32`.
    pub open spec fn fits(self) -> bool {
        &&& i32::MIN <= self.x <= i32::MAX
        &&& i32::MIN <= self.y <= i32::MAX
        &&& i32::MIN <= self.z <= i32::MAX
    }
}

/// A vector of three `i32` components. It names a chunk in chunk-grid units,
/// a voxel in world or chunk-local units, or a difference of two of those.
#[derive(Clone, Copy, Debug, PartialEq, Eq, Structural, Hash)]
pub struct IVec3 {
    pub x: i32,
    pub y: i32,
    pub z: i32,
}

impl View for IVec3 {
    type V = Int3;

    open spec fn view(&self) -> Int3 {
        Int3 { x: self.x as int, y: self.y as int, z: self.z as int }
    }
}

impl IVec3 {
    pub fn new(x: i32, y: i32, z: i32) -> (r: IVec3)
        ensures
            r.x == x,
            r.y == y,
            r.z == z,
    {
        IVec3 { x, y, z }
    }

    /// Component-wise sum. The sum must be representable.
    pub fn plus(self, rhs: IVec3) -> (r: IVec3)
        requires
            self@.plus(rhs@).fits(),
        ensures
            r@ == self@.plus(rhs@),
    {
        IVec3 { x: self.x + rhs.x, y: self.y + rhs.y, z: self.z + rhs.z }
    }
}

/// The mathematical values of a list of vectors.
pub open spec fn views(s: Seq<IVec3>) -> Seq<Int3> {
    s.map_values(|v: IVec3| v@)
}

} // verus!
