//! Collision of the observer's bounding box with the voxel grid: which axes
//! of its movement are blocked during a tick.

use vstd::prelude::*;

use crate::chunk_data::ChunkData;
use crate::ivec::{IVec3, Int3};
use crate::manager::{chunk_of, local_of, ChunkManager};

verus! {

/// A choice among the three axes: a direction of probing, or the axes along
/// which something holds.
#[derive(Clone, Copy, Debug, PartialEq, Eq, Structural)]
pub struct Axes {
    pub x: bool,
    pub y: bool,
    pub z: bool,
}

/// The axes along which the observer may still move this tick: `true` for a
/// free axis, `false` for a blocked one.
#[derive(Clone, Copy, Debug, PartialEq, Eq, Structural)]
pub struct VelocityMask(pub Axes);

/// One corner of the observer's bounding box: the voxel it is in, and the
/// voxel it would be in after moving for one tick at the observer's
/// velocity, each coordinate on its own.
#[derive(Clone, Copy, Debug, PartialEq, Eq, Structural)]
pub struct CornerSweep {
    pub rest: IVec3,
    pub moved: IVec3,
}

/// The directions that are probed, in order: each axis by itself, x, z, y,
/// and then each pair of axes, to catch a corner that only the combined
/// movement clips.
pub open spec fn probe_order() -> Seq<Axes> {
    seq![
        Axes { x: true, y: false, z: false },
        Axes { x: false, y: false, z: true },
        Axes { x: false, y: true, z: false },
        Axes { x: true, y: false, z: true },
        Axes { x: true, y: true, z: false },
        Axes { x: false, y: true, z: true },
    ]
}

/// The voxel that a corner reaches when the observer moves along the axes of
/// `dir` that `mask` leaves free: moved along those, at rest along the
/// others.
pub open spec fn probe_cell(corner: CornerSweep, dir: Axes, mask: Axes) -> Int3 {
    Int3 {
        x: if dir.x && mask.x {
            corner.moved.x as int
        } else {
            corner.rest.x as int
        },
        y: if dir.y && mask.y {
            corner.moved.y as int
        } else {
            corner.rest.y as int
        },
        z: if dir.z && mask.z {
            corner.moved.z as int
        } else {
            corner.rest.z as int
        },
    }
}

/// Whether the world voxel `cell` stops movement: it holds a full block, or
/// its chunk is not loaded.
pub open spec fn solid_at(chunks: Map<Int3, ChunkData>, cell: Int3) -> bool {
    if chunks.contains_key(chunk_of(cell)) {
        chunks[chunk_of(cell)].block_at(local_of(cell)).is_full()
    } else {
        true
    }
}

/// Whether movement along `dir` is blocked: some corner would reach a voxel
/// that stops movement.
pub open spec fn blocked(
    chunks: Map<Int3, ChunkData>,
    corners: Seq<CornerSweep>,
    dir: Axes,
    mask: Axes,
) -> bool {
    exists|i: int|
        0 <= i < corners.len() && solid_at(chunks, #[trigger] probe_cell(corners[i], dir, mask))
}

/// The mask with the axes of `dir` blocked.
pub open spec fn without(mask: Axes, dir: Axes) -> Axes {
    Axes { x: mask.x && !dir.x, y: mask.y && !dir.y, z: mask.z && !dir.z }
}

/// The free axes after the first `n` probes: all three before the first
/// one, and after a probe those that were free and are not in a blocked
/// direction.
pub open spec fn sweep(chunks: Map<Int3, ChunkData>, corners: Seq<CornerSweep>, n: nat) -> Axes
    decreases n,
{
    if n == 0 {
        Axes { x: true, y: true, z: true }
    } else {
        let mask = sweep(chunks, corners, (n - 1) as nat);
        let dir = probe_order()[n - 1];
        if blocked(chunks, corners, dir, mask) {
            without(mask, dir)
        } else {
            mask
        }
    }
}

/// An axis that a probe has blocked stays blocked for the rest of the tick.
pub proof fn lemma_sweep_only_blocks(
    chunks: Map<Int3, ChunkData>,
    corners: Seq<CornerSweep>,
    n: nat,
    m: nat,
)
    requires
        n <= m,
    ensures
        sweep(chunks, corners, m).x ==> sweep(chunks, corners, n).x,
        sweep(chunks, corners, m).y ==> sweep(chunks, corners, n).y,
        sweep(chunks, corners, m).z ==> sweep(chunks, corners, n).z,
    decreases m,
{
    if n < m {
        lemma_sweep_only_blocks(chunks, corners, n, (m - 1) as nat);
    }
}

/// Falling onto full voxels stops the fall. If moving a corner of the box
/// along the vertical axis alone brings it into a voxel that stops movement,
/// the vertical axis is blocked at the end of the tick: the observer's
/// vertical velocity is to be set to zero.
pub proof fn lemma_floor_stops_fall(chunks: Map<Int3, ChunkData>, corners: Seq<CornerSweep>, i: int)
    requires
        0 <= i < corners.len(),
        solid_at(
            chunks,
            Int3 {
                x: corners[i].rest.x as int,
                y: corners[i].moved.y as int,
                z: corners[i].rest.z as int,
            },
        ),
    ensures
        !sweep(chunks, corners, probe_order().len()).y,
{
    reveal_with_fuel(sweep, 4);
    let before = sweep(chunks, corners, 2);
    assert(before.y);
    let dir = probe_order()[2];
    assert(probe_cell(corners[i], dir, before) == Int3 {
        x: corners[i].rest.x as int,
        y: corners[i].moved.y as int,
        z: corners[i].rest.z as int,
    });
    assert(blocked(chunks, corners, dir, before));
    assert(!sweep(chunks, corners, 3).y);
    lemma_sweep_only_blocks(chunks, corners, 3, 6);
}

/// Tells whether the world voxel `cell` stops movement.
pub fn is_solid(manager: &ChunkManager, cell: IVec3) -> (r: bool)
    ensures
        r == solid_at(manager.chunks(), cell@),
{
    let (key, pos) = ChunkManager::get_keys(cell);
    match manager.get(key) {
        Some(c) => c.get_unchecked(pos).full(),
        None => true,
    }
}

/// Sweeps the observer's bounding box, given by its eight corners, against
/// the voxels, one probe for each direction of [`probe_order`], and returns
/// the axes that are left free. A probe moves every corner along the axes of
/// its direction that are still free; if a corner then lies in a voxel that
/// stops movement, the axes of the direction are blocked. The observer's
/// velocity is to be set to zero along every blocked axis.
pub fn collision(manager: &ChunkManager, corners: &[CornerSweep; 8]) -> (r: VelocityMask)
    ensures
        r.0 == sweep(manager.chunks(), corners@, probe_order().len()),
{
    let order = [
        Axes { x: true, y: false, z: false },
        Axes { x: false, y: false, z: true },
        Axes { x: false, y: true, z: false },
        Axes { x: true, y: false, z: true },
        Axes { x: true, y: true, z: false },
        Axes { x: false, y: true, z: true },
    ];
    assert(order@ =~= probe_order());
    let mut mask = Axes { x: true, y: true, z: true };
    let mut n: usize = 0;
    while n < 6
        invariant
            n <= 6,
            order@ == probe_order(),
            mask == sweep(manager.chunks(), corners@, n as nat),
        decreases 6 - n,
    {
        let dir = order[n];
        let mut hit = false;
        let mut i: usize = 0;
        while i < 8
            invariant
                i <= 8,
                hit == exists|j: int|
                    0 <= j < i && solid_at(
                        manager.chunks(),
                        #[trigger] probe_cell(corners@[j], dir, mask),
                    ),
            decreases 8 - i,
        {
            let corner = corners[i];
            let cell = IVec3 {
                x: if dir.x && mask.x {
                    corner.moved.x
                } else {
                    corner.rest.x
                },
                y: if dir.y && mask.y {
                    corner.moved.y
                } else {
                    corner.rest.y
                },
                z: if dir.z && mask.z {
                    corner.moved.z
                } else {
                    corner.rest.z
                },
            };
            assert(cell@ == probe_cell(corners@[i as int], dir, mask));
            if is_solid(manager, cell) {
                hit = true;
            }
            i = i + 1;
        }
        assert(hit == blocked(manager.chunks(), corners@, dir, mask));
        if hit {
            mask = Axes { x: mask.x && !dir.x, y: mask.y && !dir.y, z: mask.z && !dir.z };
        }
        n = n + 1;
    }
    VelocityMask(mask)
}

} // verus!
