//! Streaming: which chunks are loaded and drawn around the observer, at
//! which level of detail, and which are given up as the observer moves on.

use vstd::prelude::*;

use crate::chunk::{Chunk, NeedsMesh, NeedsTerrain};
use crate::chunk_data::ChunkData;
use crate::config::{LOD_RANGE, MAX_LOD, RENDER_DISTANCE, WORLD_HEIGHT};
use crate::ivec::{IVec3, Int3};
use crate::manager::{generated_in, world_range, ChunkManager};
use crate::product::{cartesian_product, lemma_product_split, product_seq, range_i32, range_seq};
use crate::seqs::lemma_filter_map_has;
use crate::store::RenderEntry;

verus! {

/// Work that the streaming controller asks of whoever owns the entities.
#[derive(Clone, Copy, Debug, PartialEq, Eq, Structural)]
pub enum LoadRequest {
    /// The chunk has no entity yet: one is to be created with these marks,
    /// and its identifier handed to [`ChunkManager::insert_mesh`].
    Spawn { chunk: Chunk, mesh: NeedsMesh, terrain: Option<NeedsTerrain> },
    /// The chunk's entity has a mesh of another level of detail: it is to be
    /// given this mark.
    Remesh { entity: u64, mesh: NeedsMesh },
}

/// The vector with the components of `p`, each cut to an `i32`.
pub open spec fn ivec_of(p: Int3) -> IVec3 {
    IVec3 { x: p.x as i32, y: p.y as i32, z: p.z as i32 }
}

/// The observer's chunk with its height set to 0: streaming looks at the
/// whole height of the world around the observer's column.
pub open spec fn flattened(player: Int3) -> Int3 {
    Int3 { x: player.x, y: 0, z: player.z }
}

/// Whether the observer's chunk is far enough from the ends of the `i32`
/// range that every key in render distance is representable.
pub open spec fn can_stream(player: Int3) -> bool {
    &&& i32::MIN + RENDER_DISTANCE <= player.x <= i32::MAX - RENDER_DISTANCE
    &&& i32::MIN + RENDER_DISTANCE <= player.z <= i32::MAX - RENDER_DISTANCE
}

/// Whether chunk `key` is to be loaded and drawn for an observer in chunk
/// `player`: at most `RENDER_DISTANCE` chunks away along x and along z, at
/// any height of the world.
pub open spec fn in_load_range(key: Int3, player: Int3) -> bool {
    &&& -RENDER_DISTANCE <= key.x - player.x <= RENDER_DISTANCE
    &&& -RENDER_DISTANCE <= key.z - player.z <= RENDER_DISTANCE
    &&& world_range(key)
}

/// Whether the entity of chunk `key` is given up for an observer in chunk
/// `player`: the key lies beyond `RENDER_DISTANCE` along x or along z, or
/// its height is below 0 or above `WORLD_HEIGHT`.
pub open spec fn out_of_range(key: Int3, player: Int3) -> bool {
    ||| key.x - player.x < -RENDER_DISTANCE
    ||| key.x - player.x > RENDER_DISTANCE
    ||| key.z - player.z < -RENDER_DISTANCE
    ||| key.z - player.z > RENDER_DISTANCE
    ||| key.y < 0
    ||| key.y > WORLD_HEIGHT
}

/// The absolute value of an integer.
pub open spec fn abs(v: int) -> int {
    if v < 0 {
        -v
    } else {
        v
    }
}

/// The level of detail of a chunk `dx` chunks along x and `dz` chunks along
/// z from the observer: one level for every `LOD_RANGE` chunks of the larger
/// of the two distances, up to `MAX_LOD`.
pub open spec fn required_lod(dx: int, dz: int) -> int {
    let far = if abs(dx) >= abs(dz) {
        abs(dx)
    } else {
        abs(dz)
    };
    if far / (LOD_RANGE as int) <= MAX_LOD {
        far / (LOD_RANGE as int)
    } else {
        MAX_LOD as int
    }
}

/// The level of detail of a chunk at the given distances from the observer.
pub fn lod_for(dx: i32, dz: i32) -> (r: u32)
    ensures
        r == required_lod(dx as int, dz as int),
        r <= MAX_LOD,
{
    let ax: u32 = if dx < 0 {
        (-(dx as i64)) as u32
    } else {
        dx as u32
    };
    let az: u32 = if dz < 0 {
        (-(dz as i64)) as u32
    } else {
        dz as u32
    };
    let far = if ax >= az {
        ax
    } else {
        az
    };
    let lod = far / (LOD_RANGE as u32);
    if lod <= MAX_LOD {
        lod
    } else {
        MAX_LOD
    }
}

/// The place of chunk `key` in the order in which the chunks around the
/// observer are visited: x changing slowest, then height, then z.
pub open spec fn load_index(key: Int3, player: Int3) -> int {
    ((key.x - player.x + RENDER_DISTANCE) * WORLD_HEIGHT + key.y) * (2 * RENDER_DISTANCE + 1) + (
    key.z - player.z + RENDER_DISTANCE)
}

/// The chunks to load and draw for an observer in chunk `player`, in the
/// order in which they are visited.
pub open spec fn load_keys(player: Int3) -> Seq<Int3> {
    Seq::new(
        ((2 * RENDER_DISTANCE + 1) * WORLD_HEIGHT * (2 * RENDER_DISTANCE + 1)) as nat,
        |n: int|
            Int3 {
                x: player.x + n / (WORLD_HEIGHT * (2 * RENDER_DISTANCE + 1)) - RENDER_DISTANCE,
                y: (n / (2 * RENDER_DISTANCE + 1)) % (WORLD_HEIGHT as int),
                z: player.z + n % (2 * RENDER_DISTANCE + 1) - RENDER_DISTANCE,
            },
    )
}

/// The visited chunks are exactly those in load range, each once: a chunk in
/// range stands at its index, and every index holds a chunk in range.
pub proof fn lemma_load_keys(player: Int3, key: Int3, n: int)
    ensures
        in_load_range(key, player) ==> 0 <= load_index(key, player) < load_keys(player).len()
            && load_keys(player)[load_index(key, player)] == key,
        0 <= n < load_keys(player).len() ==> in_load_range(load_keys(player)[n], player)
            && load_index(load_keys(player)[n], player) == n,
{
    let side = 2 * RENDER_DISTANCE + 1;
    assert(side == 17);
    assert(WORLD_HEIGHT * side == 136) by (nonlinear_arith)
        requires
            side == 17,
            WORLD_HEIGHT == 8,
    ;
    assert(side * WORLD_HEIGHT * side == 2312) by (nonlinear_arith)
        requires
            side == 17,
            WORLD_HEIGHT == 8,
    ;
    assert(load_keys(player).len() == 2312);
    if in_load_range(key, player) {
        let i = key.x - player.x + 8;
        let k = key.z - player.z + 8;
        let m = load_index(key, player);
        assert(m == (i * 8 + key.y) * 17 + k) by (nonlinear_arith)
            requires
                m == ((key.x - player.x + RENDER_DISTANCE) * WORLD_HEIGHT + key.y) * (2
                    * RENDER_DISTANCE + 1) + (key.z - player.z + RENDER_DISTANCE),
                RENDER_DISTANCE == 8,
                WORLD_HEIGHT == 8,
                i == key.x - player.x + 8,
                k == key.z - player.z + 8,
        ;
        assert(0 <= i <= 16 && 0 <= k <= 16 && 0 <= key.y < 8);
        assert(m == i * 136 + key.y * 17 + k);
        assert(m / 136 == i);
        assert(m % 17 == k);
        assert((m / 17) % 8 == key.y);
    }
    if 0 <= n < load_keys(player).len() {
        let c = load_keys(player)[n];
        assert(c.x == player.x + n / 136 - 8);
        assert(c.y == (n / 17) % 8);
        assert(c.z == player.z + n % 17 - 8);
        let i = n / 136;
        let k = n % 17;
        let m = load_index(c, player);
        assert(m == (i * 8 + c.y) * 17 + k) by (nonlinear_arith)
            requires
                m == ((c.x - player.x + RENDER_DISTANCE) * WORLD_HEIGHT + c.y) * (2 * RENDER_DISTANCE
                    + 1) + (c.z - player.z + RENDER_DISTANCE),
                RENDER_DISTANCE == 8,
                WORLD_HEIGHT == 8,
                i == c.x - player.x + 8,
                k == c.z - player.z + 8,
        ;
        assert(m == n);
    }
}

/// What visiting chunk `key` asks for, given the store before the visit:
/// nothing where the chunk's entity has the level of detail that its
/// distance requires, a new mesh where it has another, and an entity where
/// the chunk has none, with terrain if the chunk has none yet.
pub open spec fn request_at(
    chunks: Map<Int3, ChunkData>,
    meshes: Map<Int3, RenderEntry>,
    player: Int3,
) -> spec_fn(Int3) -> Option<LoadRequest> {
    |key: Int3|
        {
            let lod = required_lod(key.x - player.x, key.z - player.z) as u32;
            if meshes.contains_key(key) {
                if meshes[key].lod == lod {
                    None
                } else {
                    Some(LoadRequest::Remesh { entity: meshes[key].entity, mesh: NeedsMesh(lod) })
                }
            } else {
                Some(
                    LoadRequest::Spawn {
                        chunk: Chunk { key: ivec_of(key) },
                        mesh: NeedsMesh(lod),
                        terrain: if generated_in(chunks, key) {
                            None
                        } else {
                            Some(NeedsTerrain)
                        },
                    },
                )
            }
        }
}

/// The loaded chunks after streaming around `player`: every chunk in load
/// range is loaded, a new one empty, and nothing else has changed.
pub open spec fn chunks_after_load(chunks: Map<Int3, ChunkData>, player: Int3) -> Map<
    Int3,
    ChunkData,
> {
    Map::new(
        |k: Int3| chunks.contains_key(k) || in_load_range(k, player),
        |k: Int3|
            if chunks.contains_key(k) {
                chunks[k]
            } else {
                ChunkData::empty()
            },
    )
}

/// The render entries after streaming around `player`: every entry of a
/// chunk in load range records the level of detail that the chunk's distance
/// requires, and nothing else has changed. No entry is added: an entry comes
/// with the entity that a `Spawn` request asks for.
pub open spec fn meshes_after_load(meshes: Map<Int3, RenderEntry>, player: Int3) -> Map<
    Int3,
    RenderEntry,
> {
    Map::new(
        |k: Int3| meshes.contains_key(k),
        |k: Int3|
            if in_load_range(k, player) {
                RenderEntry {
                    entity: meshes[k].entity,
                    lod: required_lod(k.x - player.x, k.z - player.z) as u32,
                }
            } else {
                meshes[k]
            },
    )
}

/// The loaded chunks when the first `n` chunks of the visit are done.
spec fn chunks_upto(chunks: Map<Int3, ChunkData>, player: Int3, n: int) -> Map<Int3, ChunkData> {
    Map::new(
        |k: Int3| chunks.contains_key(k) || (in_load_range(k, player) && load_index(k, player) < n),
        |k: Int3|
            if chunks.contains_key(k) {
                chunks[k]
            } else {
                ChunkData::empty()
            },
    )
}

/// The render entries when the first `n` chunks of the visit are done.
spec fn meshes_upto(meshes: Map<Int3, RenderEntry>, player: Int3, n: int) -> Map<Int3, RenderEntry> {
    Map::new(
        |k: Int3| meshes.contains_key(k),
        |k: Int3|
            if in_load_range(k, player) && load_index(k, player) < n {
                RenderEntry {
                    entity: meshes[k].entity,
                    lod: required_lod(k.x - player.x, k.z - player.z) as u32,
                }
            } else {
                meshes[k]
            },
    )
}

/// Streams chunks in around the observer's chunk. Every chunk within
/// `RENDER_DISTANCE` of the observer's column, over the whole height of the
/// world, is loaded (empty, if it was not loaded), and the level of detail
/// that its distance requires is recorded for its entity. Returns, in the
/// order of the visit, what is owed to the entities: a new mesh where the
/// level has changed, and a new entity where a chunk has none.
pub fn load_chunks(manager: &mut ChunkManager, player_key: IVec3) -> (r: Vec<LoadRequest>)
    requires
        can_stream(player_key@),
    ensures
        final(manager).chunks() == chunks_after_load(
            old(manager).chunks(),
            flattened(player_key@),
        ),
        final(manager).meshes() == meshes_after_load(
            old(manager).meshes(),
            flattened(player_key@),
        ),
        r@ == load_keys(flattened(player_key@)).filter_map(
            request_at(old(manager).chunks(), old(manager).meshes(), flattened(player_key@)),
        ),
{
    let player = IVec3 { x: player_key.x, y: 0, z: player_key.z };
    let ghost p = flattened(player_key@);
    let ghost chunks0 = manager.chunks();
    let ghost meshes0 = manager.meshes();
    let ghost keys = load_keys(p);
    let ghost pick = request_at(chunks0, meshes0, p);
    let across = range_i32(-RENDER_DISTANCE, RENDER_DISTANCE + 1);
    let up = range_i32(0, WORLD_HEIGHT);
    assert(across@.len() == 17 && up@.len() == 8);
    let columns = cartesian_product(&across, &up);
    let offsets = cartesian_product(&columns, &across);
    let mut r: Vec<LoadRequest> = Vec::new();
    let mut n: usize = 0;
    proof {
        lemma_load_keys(p, p, 0);
        assert(keys.take(0) =~= Seq::<Int3>::empty());
        assert(keys.take(0).filter_map(pick) =~= Seq::<LoadRequest>::empty());
        assert(manager.chunks() =~= chunks_upto(chunks0, p, 0));
        assert(manager.meshes() =~= meshes_upto(meshes0, p, 0));
    }
    while n < offsets.len()
        invariant
            can_stream(player_key@),
            player@ == p,
            p == flattened(player_key@),
            keys == load_keys(p),
            pick == request_at(chunks0, meshes0, p),
            across@.len() == 17,
            up@.len() == 8,
            forall|k: int| 0 <= k < 17 ==> across@[k] as int == #[trigger] range_seq(-8, 9)[k],
            forall|k: int| 0 <= k < 8 ==> up@[k] as int == #[trigger] range_seq(0, 8)[k],
            columns@ == product_seq(across@, up@),
            offsets@ == product_seq(columns@, across@),
            offsets@.len() == 2312,
            keys.len() == 2312,
            n <= 2312,
            manager.chunks() == chunks_upto(chunks0, p, n as int),
            manager.meshes() == meshes_upto(meshes0, p, n as int),
            r@ == keys.take(n as int).filter_map(pick),
        decreases offsets@.len() - n,
    {
        let ((i, j), k) = offsets[n];
        proof {
            let m = n as int;
            lemma_product_split(columns@, across@, m);
            lemma_product_split(across@, up@, m / 17);
            assert(offsets@[m] == (columns@[m / 17], across@[m % 17]));
            assert(columns@[m / 17] == (across@[(m / 17) / 8], up@[(m / 17) % 8]));
            assert((m / 17) / 8 == m / 136);
            assert(across@[m / 136] as int == range_seq(-8, 9)[m / 136]);
            assert(up@[(m / 17) % 8] as int == range_seq(0, 8)[(m / 17) % 8]);
            assert(across@[m % 17] as int == range_seq(-8, 9)[m % 17]);
            assert(i == m / 136 - 8 && j == (m / 17) % 8 && k == m % 17 - 8);
        }
        let key = IVec3 { x: player.x + i, y: j, z: player.z + k };
        proof {
            lemma_load_keys(p, key@, n as int);
            assert(WORLD_HEIGHT * (2 * RENDER_DISTANCE + 1) == 136) by (nonlinear_arith)
                requires
                    WORLD_HEIGHT == 8,
                    RENDER_DISTANCE == 8,
            ;
            assert(key@ == keys[n as int]);
            assert(load_index(key@, p) == n);
            assert(in_load_range(key@, p));
            assert forall|other: Int3|
                in_load_range(other, p) && #[trigger] load_index(other, p) == n implies other
                == key@ by {
                lemma_load_keys(p, other, n as int);
            }
            keys.lemma_filter_map_take_succ(pick, n as int);
        }
        if ChunkManager::in_world_range(key) {
            if !manager.is_loaded(key) {
                manager.insert_chunk(key, ChunkData::default());
            }
            let lod = lod_for(i, k);
            match manager.mesh_entry(key) {
                Some(entry) => {
                    if entry.lod != lod {
                        r.push(LoadRequest::Remesh { entity: entry.entity, mesh: NeedsMesh(lod) });
                        manager.insert_mesh(key, entry.entity, lod);
                    }
                },
                None => {
                    let terrain = if !manager.is_generated(key) {
                        Some(NeedsTerrain)
                    } else {
                        None
                    };
                    r.push(LoadRequest::Spawn { chunk: Chunk { key }, mesh: NeedsMesh(lod), terrain });
                },
            }
        }
        proof {
            assert(ivec_of(key@) == key);
            assert(manager.chunks() =~= chunks_upto(chunks0, p, n as int + 1));
            assert(manager.meshes() =~= meshes_upto(meshes0, p, n as int + 1));
            assert(r@ =~= keys.take(n as int + 1).filter_map(pick));
        }
        n = n + 1;
    }
    proof {
        assert(keys.take(n as int) =~= keys);
        assert forall|k: Int3| in_load_range(k, p) implies load_index(k, p) < 2312 by {
            lemma_load_keys(p, k, 0);
        }
        assert(manager.chunks() =~= chunks_after_load(chunks0, p));
        assert(manager.meshes() =~= meshes_after_load(meshes0, p));
    }
    r
}

/// The test that picks, from a list of chunk entities, the identifiers of
/// those whose chunk is out of range of an observer in chunk `player`.
pub open spec fn evicted_entity(player: Int3) -> spec_fn((u64, Chunk)) -> Option<u64> {
    |c: (u64, Chunk)|
        if out_of_range(c.1.key@, player) {
            Some(c.0)
        } else {
            None
        }
}

/// The keys of the listed chunk entities that are out of range of an
/// observer in chunk `player`.
pub open spec fn evicted_keys(entities: Seq<(u64, Chunk)>, player: Int3) -> Set<Int3> {
    Set::new(
        |k: Int3|
            out_of_range(k, player) && exists|i: int|
                0 <= i < entities.len() && (#[trigger] entities[i]).1.key@ == k,
    )
}

/// Tells whether the entity of chunk `key` is given up for an observer in
/// chunk `player`.
pub fn is_out_of_range(key: IVec3, player: IVec3) -> (r: bool)
    ensures
        r == out_of_range(key@, player@),
{
    let dx: i64 = key.x as i64 - player.x as i64;
    let dz: i64 = key.z as i64 - player.z as i64;
    let reach: i64 = RENDER_DISTANCE as i64;
    dx < -reach || dx > reach || dz < -reach || dz > reach || key.y < 0 || key.y > WORLD_HEIGHT
}

/// Gives up the chunks that have fallen out of range of the observer's
/// chunk. `chunks` lists the chunk entities that exist, each with the bits
/// of its identifier. For every listed entity whose chunk is out of range,
/// the chunk's render entry and its voxel data are dropped from the store.
/// Returns the identifiers of those entities, in the order of the list: they
/// are to be removed.
pub fn unload_chunks(manager: &mut ChunkManager, player_key: IVec3, chunks: &Vec<(u64, Chunk)>) -> (r:
    Vec<u64>)
    ensures
        r@ == chunks@.filter_map(evicted_entity(flattened(player_key@))),
        final(manager).meshes() == old(manager).meshes().remove_keys(
            evicted_keys(chunks@, flattened(player_key@)),
        ),
        final(manager).chunks() == old(manager).chunks().remove_keys(
            evicted_keys(chunks@, flattened(player_key@)),
        ),
{
    let player = IVec3 { x: player_key.x, y: 0, z: player_key.z };
    let ghost p = flattened(player_key@);
    let ghost chunks0 = manager.chunks();
    let ghost meshes0 = manager.meshes();
    let ghost pick = evicted_entity(p);
    let mut r: Vec<u64> = Vec::new();
    let mut n: usize = 0;
    proof {
        assert(chunks@.take(0) =~= Seq::<(u64, Chunk)>::empty());
        assert(chunks@.take(0).filter_map(pick) =~= Seq::<u64>::empty());
        assert(evicted_keys(chunks@.take(0), p) =~= Set::<Int3>::empty());
        assert(manager.meshes() =~= meshes0.remove_keys(evicted_keys(chunks@.take(0), p)));
        assert(manager.chunks() =~= chunks0.remove_keys(evicted_keys(chunks@.take(0), p)));
    }
    while n < chunks.len()
        invariant
            n <= chunks@.len(),
            player@ == p,
            pick == evicted_entity(p),
            r@ == chunks@.take(n as int).filter_map(pick),
            manager.meshes() == meshes0.remove_keys(evicted_keys(chunks@.take(n as int), p)),
            manager.chunks() == chunks0.remove_keys(evicted_keys(chunks@.take(n as int), p)),
        decreases chunks@.len() - n,
    {
        let (entity, chunk) = chunks[n];
        let ghost before = evicted_keys(chunks@.take(n as int), p);
        let ghost after = evicted_keys(chunks@.take(n as int + 1), p);
        proof {
            chunks@.lemma_filter_map_take_succ(pick, n as int);
            let now = chunks@.take(n as int + 1);
            let was = chunks@.take(n as int);
            assert(now[n as int] == chunks@[n as int]);
            assert forall|k: Int3| after.contains(k) <==> before.contains(k) || (k == chunk.key@
                && out_of_range(k, p)) by {
                if after.contains(k) {
                    let i = choose|i: int| 0 <= i < now.len() && (#[trigger] now[i]).1.key@ == k;
                    if i < n {
                        assert(was[i] == now[i]);
                    }
                }
                if before.contains(k) {
                    let i = choose|i: int| 0 <= i < was.len() && (#[trigger] was[i]).1.key@ == k;
                    assert(now[i] == was[i]);
                }
            }
        }
        if is_out_of_range(chunk.key, player) {
            r.push(entity);
            manager.remove_chunk(chunk.key);
            proof {
                assert(after =~= before.insert(chunk.key@));
                assert(manager.meshes() =~= meshes0.remove_keys(after));
                assert(manager.chunks() =~= chunks0.remove_keys(after));
            }
        } else {
            proof {
                assert(after =~= before);
            }
        }
        proof {
            assert(r@ =~= chunks@.take(n as int + 1).filter_map(pick));
        }
        n = n + 1;
    }
    assert(chunks@.take(n as int) =~= chunks@);
    r
}

/// The larger of the distances along x and along z between a chunk and the
/// observer's chunk.
pub open spec fn ring_distance(key: Int3, player: Int3) -> int {
    if abs(key.x - player.x) >= abs(key.z - player.z) {
        abs(key.x - player.x)
    } else {
        abs(key.z - player.z)
    }
}

/// The edge of streaming. A chunk of the world whose distance from the
/// observer's column is `RENDER_DISTANCE` or less is in load range and is
/// not given up; one at `RENDER_DISTANCE + 1` or more is out of load range
/// and is given up.
pub proof fn lemma_streaming_boundary(key: Int3, player: Int3)
    requires
        world_range(key),
    ensures
        ring_distance(key, player) <= RENDER_DISTANCE <==> in_load_range(key, flattened(player)),
        ring_distance(key, player) >= RENDER_DISTANCE + 1 <==> out_of_range(key, flattened(player)),
{
}

/// A chunk that was never loaded reads as not loaded, and after streaming
/// has reached it once it is loaded, empty, with no terrain yet.
pub proof fn lemma_first_load(player: Int3, key: Int3)
    requires
        in_load_range(key, flattened(player)),
    ensures
        !Map::<Int3, ChunkData>::empty().contains_key(key),
        chunks_after_load(Map::empty(), flattened(player)).contains_key(key),
        chunks_after_load(Map::empty(), flattened(player))[key] == ChunkData::empty(),
        !generated_in(chunks_after_load(Map::empty(), flattened(player)), key),
{
}

/// Whether a request asks for a new entity for the chunk at `key`.
pub open spec fn is_spawn_for(request: LoadRequest, key: IVec3) -> bool {
    request matches LoadRequest::Spawn { chunk, .. } && chunk.key == key
}

/// Streaming asks for an entity exactly for the chunks in load range that
/// have no render entry: for each of them the requests hold a `Spawn`, and
/// they hold none for any other chunk.
pub proof fn lemma_spawn_requests(
    chunks: Map<Int3, ChunkData>,
    meshes: Map<Int3, RenderEntry>,
    player: Int3,
    key: IVec3,
)
    requires
        can_stream(player),
    ensures
        (exists|i: int|
            0 <= i < load_keys(flattened(player)).filter_map(
                request_at(chunks, meshes, flattened(player)),
            ).len() && is_spawn_for(
                #[trigger] load_keys(flattened(player)).filter_map(
                    request_at(chunks, meshes, flattened(player)),
                )[i],
                key,
            )) <==> in_load_range(key@, flattened(player)) && !meshes.contains_key(key@),
{
    let p = flattened(player);
    let keys = load_keys(p);
    let pick = request_at(chunks, meshes, p);
    let requests = keys.filter_map(pick);
    if in_load_range(key@, p) && !meshes.contains_key(key@) {
        lemma_load_keys(p, key@, 0);
        let n = load_index(key@, p);
        assert(keys[n] == key@);
        assert(ivec_of(key@) == key);
        lemma_filter_map_has(keys, pick, n);
        let e = pick(keys[n])->0;
        let i = choose|i: int| 0 <= i < requests.len() && requests[i] == e;
        assert(is_spawn_for(requests[i], key));
    }
    if exists|i: int| 0 <= i < requests.len() && is_spawn_for(#[trigger] requests[i], key) {
        let i = choose|i: int| 0 <= i < requests.len() && is_spawn_for(#[trigger] requests[i], key);
        let e = requests[i];
        assert(requests.contains(e));
        keys.lemma_filter_map_contains(pick, e);
        let t = choose|t: Int3| #[trigger] keys.contains(t) && pick(t) == Some(e);
        let n = choose|n: int| 0 <= n < keys.len() && keys[n] == t;
        lemma_load_keys(p, t, n);
        assert(in_load_range(t, p));
        assert(ivec_of(t) == key);
        assert(t == key@);
    }
}

} // verus!
