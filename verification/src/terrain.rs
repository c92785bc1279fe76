//! Terrain generation: filling a chunk's voxels from the height of the
//! surface in each of its columns.

use vstd::prelude::*;

use crate::block::Block;
use crate::chunk::Chunk;
use crate::chunk_data::{in_chunk, ChunkData};
use crate::config::{CHUNK_SIZE, DIRT_DEPTH};
use crate::ivec::Int3;
use crate::manager::{generated_in, ChunkManager};

verus! {

/// The block at world height `y_real` in a column whose surface lies at
/// world height `height`: air above the surface, grass on it, dirt in the
/// `DIRT_DEPTH - 1` voxels below it, and stone further down.
pub open spec fn terrain_block(y_real: int, height: int) -> Block {
    if y_real > height {
        Block::Air
    } else if y_real == height {
        Block::Grass
    } else if y_real > height - DIRT_DEPTH {
        Block::Dirt
    } else {
        Block::Stone
    }
}

/// Around a surface at height `h` the column reads, from above: air at
/// `h + 1`, grass at `h`, dirt at `h - 1` and `h - 2`, stone at `h - 3`.
pub proof fn lemma_terrain_bands(h: int)
    ensures
        terrain_block(h + 1, h) == Block::Air,
        terrain_block(h, h) == Block::Grass,
        terrain_block(h - 1, h) == Block::Dirt,
        terrain_block(h - 2, h) == Block::Dirt,
        terrain_block(h - 3, h) == Block::Stone,
        forall|y: int| y > h ==> terrain_block(y, h) == Block::Air,
        forall|y: int| y <= h - 3 ==> terrain_block(y, h) == Block::Stone,
{
}

/// Whether `chunk` is the generated terrain of a chunk at height `key_y` of
/// the chunk grid, for the surface heights `heights`, which are indexed by z
/// and then x and count voxels from the bottom of the world.
pub open spec fn is_terrain(
    chunk: ChunkData,
    key_y: int,
    heights: [[usize; CHUNK_SIZE]; CHUNK_SIZE],
) -> bool {
    &&& chunk.generated
    &&& forall|p: Int3|
        in_chunk(p) ==> #[trigger] chunk.block_at(p) == terrain_block(
            p.y + key_y * CHUNK_SIZE,
            heights[p.z][p.x] as int,
        )
}

/// What terrain generation for the chunk at `key` makes of the loaded
/// chunks: nothing, if the chunk's terrain was generated already; else the
/// chunk is replaced by its terrain, and every other chunk is left alone.
pub open spec fn terrain_generated(
    before: Map<Int3, ChunkData>,
    after: Map<Int3, ChunkData>,
    key: Int3,
    heights: [[usize; CHUNK_SIZE]; CHUNK_SIZE],
) -> bool {
    if generated_in(before, key) {
        after == before
    } else {
        &&& after.dom() == before.dom().insert(key)
        &&& forall|k: Int3| k != key && before.contains_key(k) ==> #[trigger] after[k] == before[k]
        &&& is_terrain(after[key], key.y, heights)
    }
}

/// Two chunks that are the terrain of the same height and surface are the
/// same chunk: the fill leaves nothing open.
pub proof fn lemma_terrain_unique(
    a: ChunkData,
    b: ChunkData,
    key_y: int,
    heights: [[usize; CHUNK_SIZE]; CHUNK_SIZE],
)
    requires
        is_terrain(a, key_y, heights),
        is_terrain(b, key_y, heights),
    ensures
        a == b,
{
    assert forall|z: int, y: int, x: int|
        0 <= z < CHUNK_SIZE && 0 <= y < CHUNK_SIZE && 0 <= x < CHUNK_SIZE implies a.data[z][y][x]
        == b.data[z][y][x] by {
        let p = Int3 { x, y, z };
        assert(a.block_at(p) == b.block_at(p));
    }
    assert forall|z: int, y: int| 0 <= z < CHUNK_SIZE && 0 <= y < CHUNK_SIZE implies a.data[z][y]
        == b.data[z][y] by {
        assert(a.data[z][y] =~= b.data[z][y]);
    }
    assert forall|z: int| 0 <= z < CHUNK_SIZE implies a.data[z] == b.data[z] by {
        assert(a.data[z] =~= b.data[z]);
    }
    assert(a.data =~= b.data);
}

/// Generating a chunk's terrain a second time changes nothing, whatever
/// surface the second run is given: the loaded chunks after two runs are
/// those after the first.
pub proof fn lemma_generate_twice(
    before: Map<Int3, ChunkData>,
    once: Map<Int3, ChunkData>,
    twice: Map<Int3, ChunkData>,
    key: Int3,
    first: [[usize; CHUNK_SIZE]; CHUNK_SIZE],
    second: [[usize; CHUNK_SIZE]; CHUNK_SIZE],
)
    requires
        before.contains_key(key),
        terrain_generated(before, once, key, first),
        terrain_generated(once, twice, key, second),
    ensures
        generated_in(once, key),
        twice == once,
{
}

/// The terrain of a chunk at height `key_y` of the chunk grid, for the given
/// surface heights.
pub fn fill_terrain(key_y: i32, heights: &[[usize; CHUNK_SIZE]; CHUNK_SIZE]) -> (r: ChunkData)
    ensures
        is_terrain(r, key_y as int, *heights),
{
    let mut data = ChunkData::default();
    let columns = ChunkData::slice();
    let base: i128 = key_y as i128 * CHUNK_SIZE as i128;
    let mut n: usize = 0;
    while n < columns.len()
        invariant
            n <= 256,
            columns@.len() == 256,
            forall|k: int|
                0 <= k < 256 ==> #[trigger] columns@[k] == ((k / 16) as usize, (k % 16) as usize),
            base == key_y * CHUNK_SIZE,
            forall|p: Int3|
                in_chunk(p) && p.x * 16 + p.z < n ==> #[trigger] data.block_at(p) == terrain_block(
                    p.y + key_y * CHUNK_SIZE,
                    heights[p.z][p.x] as int,
                ),
        decreases 256 - n,
    {
        let (x, z) = columns[n];
        assert(x == n / 16 && z == n % 16);
        let height: i128 = heights[z][x] as i128;
        let mut y: usize = 0;
        while y < CHUNK_SIZE
            invariant
                n < 256,
                x == n / 16,
                z == n % 16,
                y <= CHUNK_SIZE,
                base == key_y * CHUNK_SIZE,
                height == heights[z as int][x as int],
                forall|p: Int3|
                    in_chunk(p) && (p.x * 16 + p.z < n || (p.x == x && p.z == z && p.y < y))
                        ==> #[trigger] data.block_at(p) == terrain_block(
                        p.y + key_y * CHUNK_SIZE,
                        heights[p.z][p.x] as int,
                    ),
            decreases CHUNK_SIZE - y,
        {
            let y_real: i128 = y as i128 + base;
            let ghost prev = data;
            data.data[z][y][x] = if y_real > height {
                Block::Air
            } else if y_real == height {
                Block::Grass
            } else if y_real > height - DIRT_DEPTH as i128 {
                Block::Dirt
            } else {
                Block::Stone
            };
            proof {
                assert forall|p: Int3|
                    in_chunk(p) && !(p.x == x && p.y == y && p.z == z) implies data.block_at(p)
                    == prev.block_at(p) by {}
                assert(data.block_at(Int3 { x: x as int, y: y as int, z: z as int })
                    == terrain_block(y + key_y * CHUNK_SIZE, heights[z as int][x as int] as int));
            }
            y = y + 1;
        }
        proof {
            assert forall|p: Int3| in_chunk(p) && p.x * 16 + p.z < n + 1 implies #[trigger] data.block_at(
                p,
            ) == terrain_block(p.y + key_y * CHUNK_SIZE, heights[p.z][p.x] as int) by {
                if p.x * 16 + p.z == n {
                    assert(p.x == x && p.z == z);
                }
            }
        }
        n = n + 1;
    }
    let ghost filled = data;
    data.generated = true;
    proof {
        assert forall|p: Int3| in_chunk(p) implies #[trigger] data.block_at(p) == terrain_block(
            p.y + key_y * CHUNK_SIZE,
            heights[p.z][p.x] as int,
        ) by {
            assert(p.x * 16 + p.z < 256);
            assert(data.block_at(p) == filled.block_at(p));
        }
    }
    data
}

/// Generates the terrain of a chunk, if the chunk has none yet. `heights`
/// gives the height of the surface in each column of the chunk, indexed by z
/// and then x, in voxels from the bottom of the world. The chunk must be
/// loaded. A chunk whose terrain is generated is left as it is.
pub fn generate_terrain(
    manager: &mut ChunkManager,
    chunk: &Chunk,
    heights: &[[usize; CHUNK_SIZE]; CHUNK_SIZE],
)
    requires
        old(manager).chunks().contains_key(chunk.key@),
    ensures
        terrain_generated(old(manager).chunks(), final(manager).chunks(), chunk.key@, *heights),
        generated_in(final(manager).chunks(), chunk.key@),
        final(manager).meshes() == old(manager).meshes(),
{
    // If the chunk is already generated, skip it
    if !manager.is_generated(chunk.key) {
        let data = fill_terrain(chunk.key.y, heights);
        manager.insert_chunk(chunk.key, data);
        assert(manager.chunks().dom() =~= old(manager).chunks().dom().insert(chunk.key@));
    }
}

} // verus!
