//! The two hash maps of the chunk manager. Both are `bevy::utils::HashMap`,
//! the hash map of hashbrown with bevy's hasher. Verus does not read that
//! type, so each map is held behind a struct that Verus treats as opaque,
//! what it holds is named by a function without a body, and each method
//! that the library calls has a wrapper whose contract is taken on trust.
//! The maps are keyed by the three components of a chunk key.

use vstd::prelude::*;

use crate::chunk_data::ChunkData;
use crate::ivec::{IVec3, Int3};

verus! {

/// What the streaming controller records for a chunk in render range: the
/// entity that draws the chunk, as the bits of its identifier, and the level
/// of detail last requested for the entity's mesh.
#[derive(Clone, Copy, Debug, PartialEq, Eq, Structural)]
pub struct RenderEntry {
    pub entity: u64,
    pub lod: u32,
}

/// The voxel data of the loaded chunks, by chunk key.
#[verifier::external_body]
pub struct ChunkMap {
    inner: bevy::utils::HashMap<(i32, i32, i32), ChunkData>,
}

/// The render entries of the chunks in render range, by chunk key.
#[verifier::external_body]
pub struct MeshMap {
    inner: bevy::utils::HashMap<(i32, i32, i32), RenderEntry>,
}

/// The entries of a [`ChunkMap`]: the keys it holds, each read as a point,
/// and the value stored under each.
pub uninterp spec fn chunk_entries(m: ChunkMap) -> Map<Int3, ChunkData>;

/// The entries of a [`MeshMap`]: the keys it holds, each read as a point,
/// and the value stored under each.
pub uninterp spec fn mesh_entries(m: MeshMap) -> Map<Int3, RenderEntry>;

/// `Default::default` of the hash map: it is claimed to hold no entry.
#[verifier::external_body]
pub(crate) fn chunk_map_new() -> (m: ChunkMap)
    ensures
        chunk_entries(m) =~= Map::empty(),
{
    ChunkMap { inner: bevy::utils::HashMap::default() }
}

/// `HashMap::contains_key`: claimed to tell whether `key` is among the keys.
#[verifier::external_body]
pub(crate) fn chunk_map_contains_key(m: &ChunkMap, key: IVec3) -> (r: bool)
    ensures
        r == chunk_entries(*m).contains_key(key@),
{
    m.inner.contains_key(&(key.x, key.y, key.z))
}

/// `HashMap::get`: claimed to return the value stored under `key`, and
/// `None` exactly where the map has no such key.
#[verifier::external_body]
pub(crate) fn chunk_map_get(m: &ChunkMap, key: IVec3) -> (r: Option<&ChunkData>)
    ensures
        r.is_some() == chunk_entries(*m).contains_key(key@),
        r matches Some(d) ==> *d == chunk_entries(*m)[key@],
{
    m.inner.get(&(key.x, key.y, key.z))
}

/// `HashMap::insert`: claimed to store `data` under `key`, in place of what
/// was stored there, and to leave every other entry as it was.
#[verifier::external_body]
pub(crate) fn chunk_map_insert(m: &mut ChunkMap, key: IVec3, data: ChunkData)
    ensures
        chunk_entries(*final(m)) == chunk_entries(*old(m)).insert(key@, data),
{
    m.inner.insert((key.x, key.y, key.z), data);
}

/// `HashMap::remove`: claimed to drop the entry of `key`, if there is one,
/// to leave every other entry as it was, and to return what was stored.
#[verifier::external_body]
pub(crate) fn chunk_map_remove(m: &mut ChunkMap, key: IVec3) -> (r: Option<ChunkData>)
    ensures
        r.is_some() == chunk_entries(*old(m)).contains_key(key@),
        r matches Some(d) ==> d == chunk_entries(*old(m))[key@],
        chunk_entries(*final(m)) == chunk_entries(*old(m)).remove(key@),
{
    m.inner.remove(&(key.x, key.y, key.z))
}

/// `Default::default` of the hash map: it is claimed to hold no entry.
#[verifier::external_body]
pub(crate) fn mesh_map_new() -> (m: MeshMap)
    ensures
        mesh_entries(m) =~= Map::empty(),
{
    MeshMap { inner: bevy::utils::HashMap::default() }
}

/// `HashMap::contains_key`: claimed to tell whether `key` is among the keys.
#[verifier::external_body]
pub(crate) fn mesh_map_contains_key(m: &MeshMap, key: IVec3) -> (r: bool)
    ensures
        r == mesh_entries(*m).contains_key(key@),
{
    m.inner.contains_key(&(key.x, key.y, key.z))
}

/// `HashMap::get`: claimed to return a copy of the value stored under `key`,
/// and `None` exactly where the map has no such key.
#[verifier::external_body]
pub(crate) fn mesh_map_get(m: &MeshMap, key: IVec3) -> (r: Option<RenderEntry>)
    ensures
        r.is_some() == mesh_entries(*m).contains_key(key@),
        r matches Some(e) ==> e == mesh_entries(*m)[key@],
{
    m.inner.get(&(key.x, key.y, key.z)).copied()
}

/// `HashMap::insert`: claimed to store `entry` under `key`, in place of what
/// was stored there, and to leave every other entry as it was.
#[verifier::external_body]
pub(crate) fn mesh_map_insert(m: &mut MeshMap, key: IVec3, entry: RenderEntry)
    ensures
        mesh_entries(*final(m)) == mesh_entries(*old(m)).insert(key@, entry),
{
    m.inner.insert((key.x, key.y, key.z), entry);
}

/// `HashMap::remove`: claimed to drop the entry of `key`, if there is one,
/// to leave every other entry as it was, and to return what was stored.
#[verifier::external_body]
pub(crate) fn mesh_map_remove(m: &mut MeshMap, key: IVec3) -> (r: Option<RenderEntry>)
    ensures
        r.is_some() == mesh_entries(*old(m)).contains_key(key@),
        r matches Some(e) ==> e == mesh_entries(*old(m))[key@],
        mesh_entries(*final(m)) == mesh_entries(*old(m)).remove(key@),
{
    m.inner.remove(&(key.x, key.y, key.z))
}

} // verus!
