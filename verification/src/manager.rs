//! The chunk manager: the store of loaded chunks and of render entries, and
//! the queries that find a voxel across chunk borders.

use vstd::prelude::*;

use crate::block::Block;
use crate::chunk_data::{in_chunk, ChunkData};
use crate::config::{CHUNK_SIZE, WORLD_HEIGHT};
use crate::ivec::{views, IVec3, Int3};
use crate::product::{cartesian_product, lemma_product_split, product_seq, range_i32, range_seq};
use crate::store::{
    chunk_entries, chunk_map_contains_key, chunk_map_get, chunk_map_insert, chunk_map_new,
    chunk_map_remove, mesh_entries, mesh_map_contains_key, mesh_map_get, mesh_map_insert,
    mesh_map_new, mesh_map_remove, ChunkMap, MeshMap, RenderEntry,
};

verus! {

/// The key of the chunk that holds the world voxel `pos`: each coordinate
/// divided by `CHUNK_SIZE` and rounded down.
pub open spec fn chunk_of(pos: Int3) -> Int3 {
    Int3 {
        x: pos.x / (CHUNK_SIZE as int),
        y: pos.y / (CHUNK_SIZE as int),
        z: pos.z / (CHUNK_SIZE as int),
    }
}

/// The place of the world voxel `pos` inside its chunk: each coordinate's
/// remainder by `CHUNK_SIZE`, never negative.
pub open spec fn local_of(pos: Int3) -> Int3 {
    Int3 {
        x: pos.x % (CHUNK_SIZE as int),
        y: pos.y % (CHUNK_SIZE as int),
        z: pos.z % (CHUNK_SIZE as int),
    }
}

/// Whether a chunk key lies in the vertical extent of the world.
pub open spec fn world_range(key: Int3) -> bool {
    0 <= key.y < WORLD_HEIGHT
}

/// Whether the chunk at `key` is loaded and its terrain has been generated.
pub open spec fn generated_in(chunks: Map<Int3, ChunkData>, key: Int3) -> bool {
    chunks.contains_key(key) && chunks[key].generated
}

/// The block at the offset `pos` from the origin of chunk `key`, where `pos`
/// may lie outside that chunk: the block is then read from the chunk that
/// holds it. `None` where that chunk is not loaded or not generated.
pub open spec fn resolve(chunks: Map<Int3, ChunkData>, key: Int3, pos: Int3) -> Option<Block> {
    let owner = key.plus(chunk_of(pos));
    if generated_in(chunks, owner) {
        Some(chunks[owner].block_at(local_of(pos)))
    } else {
        None
    }
}

/// The 27 keys of the cube of side 3 around `key`, `key` itself among them,
/// with x changing slowest and z fastest.
pub open spec fn neighborhood(key: Int3) -> Seq<Int3> {
    Seq::new(
        27,
        |k: int| key.plus(Int3 { x: k / 9 - 1, y: (k / 3) % 3 - 1, z: k % 3 - 1 }),
    )
}

/// The keys next to `key` that a chunk can have: those of the neighborhood
/// other than `key` itself that lie in the world's vertical extent.
pub open spec fn adjacent(key: Int3) -> Seq<Int3> {
    neighborhood(key).filter(is_neighbor_of(key))
}

/// The test that picks the adjacent keys out of the neighborhood of `key`.
pub open spec fn is_neighbor_of(key: Int3) -> spec_fn(Int3) -> bool {
    |n: Int3| n != key && world_range(n)
}

/// Whether the 27 keys around `key` are all representable.
pub open spec fn has_neighborhood(key: Int3) -> bool {
    &&& i32::MIN < key.x < i32::MAX
    &&& i32::MIN < key.y < i32::MAX
    &&& i32::MIN < key.z < i32::MAX
}

/// Whether every chunk next to `key` has its terrain generated.
pub open spec fn neighbors_generated(chunks: Map<Int3, ChunkData>, key: Int3) -> bool {
    forall|k: int| 0 <= k < adjacent(key).len() ==> generated_in(chunks, #[trigger] adjacent(key)[k])
}

/// The store of the voxel world: the voxel data of every loaded chunk, and a
/// render entry for every chunk that has an entity drawing it.
pub struct ChunkManager {
    chunks: ChunkMap,
    meshes: MeshMap,
}

impl Default for ChunkManager {
    fn default() -> (r: ChunkManager)
        ensures
            r.chunks() =~= Map::empty(),
            r.meshes() =~= Map::empty(),
    {
        ChunkManager { chunks: chunk_map_new(), meshes: mesh_map_new() }
    }
}

impl ChunkManager {
    /// The loaded chunks, by key.
    pub closed spec fn chunks(&self) -> Map<Int3, ChunkData> {
        chunk_entries(self.chunks)
    }

    /// List of created meshes and their respective lod, by key.
    pub closed spec fn meshes(&self) -> Map<Int3, RenderEntry> {
        mesh_entries(self.meshes)
    }

    /// The voxel data of the chunk at `key`, or `None` if it is not loaded.
    pub fn get(&self, key: IVec3) -> (r: Option<&ChunkData>)
        ensures
            r.is_some() == self.chunks().contains_key(key@),
            r matches Some(d) ==> *d == self.chunks()[key@],
    {
        chunk_map_get(&self.chunks, key)
    }

    /// Stores `data` as the chunk at `key`, in place of what was there.
    pub fn insert_chunk(&mut self, key: IVec3, data: ChunkData)
        ensures
            final(self).chunks() == old(self).chunks().insert(key@, data),
            final(self).meshes() == old(self).meshes(),
    {
        chunk_map_insert(&mut self.chunks, key, data);
    }

    /// The render entry of the chunk at `key`, if it has one.
    pub fn mesh_entry(&self, key: IVec3) -> (r: Option<RenderEntry>)
        ensures
            r.is_some() == self.meshes().contains_key(key@),
            r matches Some(e) ==> e == self.meshes()[key@],
    {
        mesh_map_get(&self.meshes, key)
    }

    /// Records that `entity` draws the chunk at `key` at level of detail
    /// `lod`, in place of what was recorded for the key.
    pub fn insert_mesh(&mut self, key: IVec3, entity: u64, lod: u32)
        ensures
            final(self).meshes() == old(self).meshes().insert(key@, (RenderEntry { entity, lod })),
            final(self).chunks() == old(self).chunks(),
    {
        mesh_map_insert(&mut self.meshes, key, RenderEntry { entity, lod });
    }

    /// Drops the chunk at `key` from the store: its voxel data and its
    /// render entry, as far as it has them.
    pub fn remove_chunk(&mut self, key: IVec3)
        ensures
            final(self).chunks() == old(self).chunks().remove(key@),
            final(self).meshes() == old(self).meshes().remove(key@),
    {
        let _ = chunk_map_remove(&mut self.chunks, key);
        let _ = mesh_map_remove(&mut self.meshes, key);
    }

    /// Gives the key of the chunk that holds `global_pos` and the position
    /// inside that chunk.
    pub fn get_keys(global_pos: IVec3) -> (r: (IVec3, IVec3))
        ensures
            r.0@ == chunk_of(global_pos@),
            r.1@ == local_of(global_pos@),
            in_chunk(r.1@),
            r.0@.times(CHUNK_SIZE as int).plus(r.1@) == global_pos@,
    {
        let size: i32 = CHUNK_SIZE as i32;
        let key = IVec3 {
            x: global_pos.x.checked_div_euclid(size).unwrap(),
            y: global_pos.y.checked_div_euclid(size).unwrap(),
            z: global_pos.z.checked_div_euclid(size).unwrap(),
        };
        let pos = IVec3 {
            x: global_pos.x.checked_rem_euclid(size).unwrap(),
            y: global_pos.y.checked_rem_euclid(size).unwrap(),
            z: global_pos.z.checked_rem_euclid(size).unwrap(),
        };
        (key, pos)
    }

    pub fn is_loaded(&self, key: IVec3) -> (r: bool)
        ensures
            r == self.chunks().contains_key(key@),
    {
        chunk_map_contains_key(&self.chunks, key)
    }

    pub fn is_generated(&self, key: IVec3) -> (r: bool)
        ensures
            r == generated_in(self.chunks(), key@),
    {
        match chunk_map_get(&self.chunks, key) {
            Some(c) => c.generated,
            None => false,
        }
    }

    pub fn entity_created(&self, key: IVec3) -> (r: bool)
        ensures
            r == self.meshes().contains_key(key@),
    {
        mesh_map_contains_key(&self.meshes, key)
    }

    /// Checks if a chunk key is valid in the world.
    pub fn in_world_range(key: IVec3) -> (r: bool)
        ensures
            r == world_range(key@),
    {
        0 <= key.y && key.y < WORLD_HEIGHT
    }

    /// Returns all valid adjacent chunk keys.
    pub fn adjacent_keys(key: IVec3) -> (r: Vec<IVec3>)
        requires
            has_neighborhood(key@),
        ensures
            views(r@) == adjacent(key@),
    {
        let steps = range_i32(-1, 2);
        assert(steps@.len() == 3);
        let pairs = cartesian_product(&steps, &steps);
        let triples = cartesian_product(&pairs, &steps);
        let ghost around = neighborhood(key@);
        let ghost pred = is_neighbor_of(key@);
        let mut r: Vec<IVec3> = Vec::new();
        let mut i: usize = 0;
        proof {
            assert(around.take(0) =~= Seq::<Int3>::empty());
            reveal(Seq::filter);
            assert(views(r@) =~= around.take(0).filter(pred));
        }
        while i < triples.len()
            invariant
                has_neighborhood(key@),
                around == neighborhood(key@),
                pred == is_neighbor_of(key@),
                steps@.len() == 3,
                forall|k: int| 0 <= k < 3 ==> steps@[k] as int == #[trigger] range_seq(-1, 2)[k],
                pairs@ == product_seq(steps@, steps@),
                triples@ == product_seq(pairs@, steps@),
                triples@.len() == 27,
                i <= 27,
                views(r@) == around.take(i as int).filter(pred),
            decreases triples@.len() - i,
        {
            let ((x, y), z) = triples[i];
            proof {
                let k = i as int;
                lemma_product_split(pairs@, steps@, k);
                lemma_product_split(steps@, steps@, k / 3);
                assert(triples@[k] == (pairs@[k / 3], steps@[k % 3]));
                assert(pairs@[k / 3] == (steps@[(k / 3) / 3], steps@[(k / 3) % 3]));
                assert((k / 3) / 3 == k / 9);
                assert(steps@[k / 9] as int == range_seq(-1, 2)[k / 9]);
                assert(steps@[(k / 3) % 3] as int == range_seq(-1, 2)[(k / 3) % 3]);
                assert(steps@[k % 3] as int == range_seq(-1, 2)[k % 3]);
            }
            let v = key.plus(IVec3 { x, y, z });
            proof {
                assert(v@ == around[i as int]);
                assert(around.take(i as int + 1) =~= around.take(i as int).push(v@));
                around.take(i as int).lemma_filter_push(v@, pred);
            }
            let ghost before = r@;
            if (v.x != key.x || v.y != key.y || v.z != key.z) && ChunkManager::in_world_range(v) {
                r.push(v);
                assert(views(r@) =~= views(before).push(v@));
            }
            i = i + 1;
        }
        assert(around.take(27) =~= around);
        r
    }

    /// Gives the block in the given chunk if `pos` is in bounds, or a block
    /// in an adjacent chunk if `pos` is out of bounds. Returns `None` if the
    /// chunk that holds the block isn't generated.
    pub fn get_with_adjacent(&self, key: IVec3, pos: IVec3) -> (r: Option<Block>)
        requires
            key@.plus(chunk_of(pos@)).fits(),
        ensures
            r == resolve(self.chunks(), key@, pos@),
    {
        let (offset, local) = ChunkManager::get_keys(pos);
        let chunk_key = key.plus(offset);
        match chunk_map_get(&self.chunks, chunk_key) {
            None => None,
            Some(chunk) => {
                if chunk.generated {
                    Some(chunk.get_unchecked(local))
                } else {
                    None
                }
            },
        }
    }
}

/// Splitting a world coordinate into chunk key and local position loses
/// nothing: for every integer position, negative ones too, the key times
/// `CHUNK_SIZE` plus the local position is the position again, and the local
/// position lies inside the chunk.
pub proof fn lemma_keys_round_trip(pos: Int3)
    ensures
        chunk_of(pos).times(CHUNK_SIZE as int).plus(local_of(pos)) == pos,
        in_chunk(local_of(pos)),
{
}

/// Putting a local position back under its key gives that key and that
/// position: the two ways between world position and (key, local) undo each
/// other.
pub proof fn lemma_keys_compose(key: Int3, local: Int3)
    requires
        in_chunk(local),
    ensures
        chunk_of(key.times(CHUNK_SIZE as int).plus(local)) == key,
        local_of(key.times(CHUNK_SIZE as int).plus(local)) == local,
{
}

} // verus!
