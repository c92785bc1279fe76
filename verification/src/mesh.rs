//! Mesh extraction: the visible faces of a chunk's voxels, as vertex, normal,
//! texture and index buffers, at a level of detail.

use vstd::prelude::*;

use crate::block::{fallback_corners, AtlasPoint, Block, Face};
use crate::chunk::Chunk;
use crate::chunk_data::{cell_of, ChunkData, in_chunk, lemma_lod_cells, lemma_lod_cells_len, lod_cells, lod_stride, stride_of};
use crate::config::{CHUNK_SIZE, MAX_LOD};
use crate::ivec::{views, IVec3, Int3};
use crate::manager::{
    adjacent, generated_in, has_neighborhood, neighbors_generated, resolve, ChunkManager,
};
use crate::product::{lemma_product_split, product_seq};

verus! {

/// One face of one voxel that the mesh shows.
pub struct Quad {
    /// The chunk-local position of the voxel.
    pub cell: Int3,
    pub face: Face,
    /// The block in the voxel.
    pub block: Block,
}

/// The corners of a face of the unit cube, in the order in which the face's
/// quad lists them. Each coordinate is 0 or 1.
pub open spec fn face_corners(face: Face) -> Seq<Int3> {
    match face {
        Face::TOP => seq![
            Int3 { x: 1, y: 1, z: 0 },
            Int3 { x: 1, y: 1, z: 1 },
            Int3 { x: 0, y: 1, z: 1 },
            Int3 { x: 0, y: 1, z: 0 },
        ],
        Face::BOTTOM => seq![
            Int3 { x: 1, y: 0, z: 1 },
            Int3 { x: 1, y: 0, z: 0 },
            Int3 { x: 0, y: 0, z: 0 },
            Int3 { x: 0, y: 0, z: 1 },
        ],
        Face::EAST => seq![
            Int3 { x: 1, y: 1, z: 1 },
            Int3 { x: 1, y: 1, z: 0 },
            Int3 { x: 1, y: 0, z: 0 },
            Int3 { x: 1, y: 0, z: 1 },
        ],
        Face::WEST => seq![
            Int3 { x: 0, y: 0, z: 1 },
            Int3 { x: 0, y: 0, z: 0 },
            Int3 { x: 0, y: 1, z: 0 },
            Int3 { x: 0, y: 1, z: 1 },
        ],
        Face::NORTH => seq![
            Int3 { x: 0, y: 1, z: 1 },
            Int3 { x: 1, y: 1, z: 1 },
            Int3 { x: 1, y: 0, z: 1 },
            Int3 { x: 0, y: 0, z: 1 },
        ],
        Face::SOUTH => seq![
            Int3 { x: 0, y: 0, z: 0 },
            Int3 { x: 1, y: 0, z: 0 },
            Int3 { x: 1, y: 1, z: 0 },
            Int3 { x: 0, y: 1, z: 0 },
        ],
    }
}

/// Corner `i` of a quad, in voxels from the chunk's origin. The quad spans
/// one voxel vertically and `stride` voxels in x and in z.
pub open spec fn quad_vertex(q: Quad, stride: int, i: int) -> Int3 {
    let c = face_corners(q.face)[i];
    Int3 { x: q.cell.x + c.x * stride, y: q.cell.y + c.y, z: q.cell.z + c.z * stride }
}

/// The texture corner that goes with corner `i` of a quad, in texels.
pub open spec fn quad_uv(q: Quad, i: int) -> AtlasPoint {
    match q.block.corners(q.face) {
        Some(c) => c[i],
        None => fallback_corners()[i],
    }
}

/// The corners of a quad that its two triangles use, in order.
pub open spec fn index_pattern() -> Seq<int> {
    seq![2, 1, 0, 0, 3, 2]
}

/// Whether the voxel that `face` of the voxel at `cell` looks at hides the
/// face. That voxel lies `stride` voxels away in the face's direction, in
/// this chunk or in the next one. An unresolved voxel hides nothing.
pub open spec fn face_hidden(
    chunks: Map<Int3, ChunkData>,
    key: Int3,
    stride: int,
    cell: Int3,
    face: Face,
) -> bool {
    match resolve(chunks, key, cell.plus(face.outward().times(stride))) {
        Some(b) => b.is_full(),
        None => false,
    }
}

/// The faces that are candidates for a quad at level of detail `lod`: each
/// visited voxel with each of its six faces, voxel by voxel in the order of
/// the walk.
pub open spec fn face_slots(lod: nat) -> Seq<(Int3, Face)> {
    product_seq(lod_cells(lod), Face::all())
}

/// The quad that a candidate face gives: none for a transparent voxel, and
/// none for a hidden face.
pub open spec fn quad_at(chunks: Map<Int3, ChunkData>, key: Int3, lod: nat) -> spec_fn(
    (Int3, Face),
) -> Option<Quad> {
    |slot: (Int3, Face)|
        {
            let block = chunks[key].block_at(slot.0);
            if block.is_transparent() || face_hidden(chunks, key, lod_stride(lod), slot.0, slot.1) {
                None
            } else {
                Some(Quad { cell: slot.0, face: slot.1, block })
            }
        }
}

/// The quads of the mesh of chunk `key` at level of detail `lod`, in the
/// order in which they are emitted.
pub open spec fn mesh_quads(chunks: Map<Int3, ChunkData>, key: Int3, lod: nat) -> Seq<Quad> {
    face_slots(lod).filter_map(quad_at(chunks, key, lod))
}

/// Whether the mesh of chunk `key` can be extracted: the chunk and every
/// chunk next to it have their terrain generated.
pub open spec fn mesh_ready(chunks: Map<Int3, ChunkData>, key: Int3) -> bool {
    generated_in(chunks, key) && neighbors_generated(chunks, key)
}

/// The buffers of a mesh. Positions are in voxels from the chunk's origin,
/// texture coordinates in texels of the atlas.
#[derive(Clone, Debug, PartialEq, Eq)]
pub struct MeshBuffers {
    pub vertices: Vec<IVec3>,
    pub normals: Vec<IVec3>,
    pub texture_coordinates: Vec<AtlasPoint>,
    pub indices: Vec<u32>,
}

impl MeshBuffers {
    /// Whether the buffers hold exactly `quads`, in order: four vertices,
    /// normals and texture corners for each quad, and six indices that make
    /// two triangles of the quad's own four vertices.
    pub open spec fn holds(&self, quads: Seq<Quad>, stride: int) -> bool {
        &&& views(self.vertices@) == Seq::new(
            4 * quads.len(),
            |k: int| quad_vertex(quads[k / 4], stride, k % 4),
        )
        &&& views(self.normals@) == Seq::new(4 * quads.len(), |k: int| quads[k / 4].face.outward())
        &&& self.texture_coordinates@ == Seq::new(
            4 * quads.len(),
            |k: int| quad_uv(quads[k / 4], k % 4),
        )
        &&& self.indices@ == Seq::new(
            6 * quads.len(),
            |k: int| (4 * (k / 6) + index_pattern()[k % 6]) as u32,
        )
    }
}

/// The corners of a face of the unit cube, in the order of the face's quad.
fn quad_corners(face: Face) -> (r: [IVec3; 4])
    ensures
        views(r@) == face_corners(face),
{
    let r = match face {
        Face::TOP => [
            IVec3 { x: 1, y: 1, z: 0 },
            IVec3 { x: 1, y: 1, z: 1 },
            IVec3 { x: 0, y: 1, z: 1 },
            IVec3 { x: 0, y: 1, z: 0 },
        ],
        Face::BOTTOM => [
            IVec3 { x: 1, y: 0, z: 1 },
            IVec3 { x: 1, y: 0, z: 0 },
            IVec3 { x: 0, y: 0, z: 0 },
            IVec3 { x: 0, y: 0, z: 1 },
        ],
        Face::EAST => [
            IVec3 { x: 1, y: 1, z: 1 },
            IVec3 { x: 1, y: 1, z: 0 },
            IVec3 { x: 1, y: 0, z: 0 },
            IVec3 { x: 1, y: 0, z: 1 },
        ],
        Face::WEST => [
            IVec3 { x: 0, y: 0, z: 1 },
            IVec3 { x: 0, y: 0, z: 0 },
            IVec3 { x: 0, y: 1, z: 0 },
            IVec3 { x: 0, y: 1, z: 1 },
        ],
        Face::NORTH => [
            IVec3 { x: 0, y: 1, z: 1 },
            IVec3 { x: 1, y: 1, z: 1 },
            IVec3 { x: 1, y: 0, z: 1 },
            IVec3 { x: 0, y: 0, z: 1 },
        ],
        Face::SOUTH => [
            IVec3 { x: 0, y: 0, z: 0 },
            IVec3 { x: 1, y: 0, z: 0 },
            IVec3 { x: 1, y: 1, z: 0 },
            IVec3 { x: 0, y: 1, z: 0 },
        ],
    };
    assert(views(r@) =~= face_corners(face));
    r
}

/// Appends the quad of one face of the voxel at `local_pos`, unless the
/// voxel that the face looks at hides it. Tells whether it appended.
fn add_face(
    manager: &ChunkManager,
    key: IVec3,
    stride: usize,
    local_pos: IVec3,
    face: Face,
    block: Block,
    mesh: &mut MeshBuffers,
    Ghost(quads): Ghost<Seq<Quad>>,
) -> (added: bool)
    requires
        has_neighborhood(key@),
        in_chunk(local_pos@),
        1 <= stride <= CHUNK_SIZE,
        quads.len() < 0x100_0000,
        old(mesh).holds(quads, stride as int),
    ensures
        added == !face_hidden(manager.chunks(), key@, stride as int, local_pos@, face),
        final(mesh).holds(
            if added {
                quads.push(Quad { cell: local_pos@, face, block })
            } else {
                quads
            },
            stride as int,
        ),
{
    let step: i32 = stride as i32;
    let dir = face.normal();
    assert(-1 <= dir.x <= 1 && -1 <= dir.y <= 1 && -1 <= dir.z <= 1);
    assert(-16 <= dir.x * step <= 16 && -16 <= dir.y * step <= 16 && -16 <= dir.z * step <= 16)
        by (nonlinear_arith)
        requires
            -1 <= dir.x <= 1,
            -1 <= dir.y <= 1,
            -1 <= dir.z <= 1,
            1 <= step <= 16,
    ;
    let probe = IVec3 {
        x: local_pos.x + dir.x * step,
        y: local_pos.y + dir.y * step,
        z: local_pos.z + dir.z * step,
    };
    assert(probe@ == local_pos@.plus(face.outward().times(stride as int)));
    // Return early if the adjacent face is not visible
    let hidden = match manager.get_with_adjacent(key, probe) {
        Some(b) => b.full(),
        None => false,
    };
    if hidden {
        return false;
    }
    let ghost q = Quad { cell: local_pos@, face, block };
    let ghost old_mesh = *mesh;
    assert(mesh.vertices@.len() == 4 * quads.len()) by {
        assert(views(mesh.vertices@).len() == 4 * quads.len());
    }
    assert(mesh.normals@.len() == 4 * quads.len()) by {
        assert(views(mesh.normals@).len() == 4 * quads.len());
    }
    let idx: u32 = mesh.vertices.len() as u32;
    let corners = quad_corners(face);
    let uvs = block.uvs_or_fallback(face);
    assert(forall|i: int| 0 <= i < 4 ==> #[trigger] corners@[i]@ == face_corners(face)[i]) by {
        assert(views(corners@) == face_corners(face));
        assert forall|i: int| 0 <= i < 4 implies #[trigger] corners@[i]@ == face_corners(face)[i] by {
            assert(views(corners@)[i] == corners@[i]@);
        }
    }
    let mut i: usize = 0;
    while i < 4
        invariant
            i <= 4,
            in_chunk(local_pos@),
            1 <= stride <= CHUNK_SIZE,
            step == stride,
            dir@ == face.outward(),
            q == (Quad { cell: local_pos@, face, block }),
            forall|j: int| 0 <= j < 4 ==> #[trigger] corners@[j]@ == face_corners(face)[j],
            forall|j: int| 0 <= j < 4 ==> #[trigger] uvs@[j] == quad_uv(q, j),
            mesh.indices@ == old_mesh.indices@,
            mesh.vertices@.len() == old_mesh.vertices@.len() + i,
            mesh.normals@.len() == old_mesh.normals@.len() + i,
            mesh.texture_coordinates@.len() == old_mesh.texture_coordinates@.len() + i,
            forall|k: int|
                0 <= k < old_mesh.vertices@.len() ==> mesh.vertices@[k] == old_mesh.vertices@[k],
            forall|k: int| 0 <= k < old_mesh.normals@.len() ==> mesh.normals@[k] == old_mesh.normals@[k],
            forall|k: int|
                0 <= k < old_mesh.texture_coordinates@.len() ==> mesh.texture_coordinates@[k]
                    == old_mesh.texture_coordinates@[k],
            forall|j: int|
                0 <= j < i ==> (#[trigger] mesh.vertices@[old_mesh.vertices@.len() + j])@
                    == quad_vertex(q, stride as int, j),
            forall|j: int|
                0 <= j < i ==> (#[trigger] mesh.normals@[old_mesh.normals@.len() + j])@
                    == face.outward(),
            forall|j: int|
                0 <= j < i ==> #[trigger] mesh.texture_coordinates@[old_mesh.texture_coordinates@.len()
                    + j] == quad_uv(q, j),
        decreases 4 - i,
    {
        let c = corners[i];
        assert(c@ == face_corners(face)[i as int]);
        assert(0 <= c.x <= 1 && 0 <= c.y <= 1 && 0 <= c.z <= 1);
        assert(0 <= c.x * step <= 16 && 0 <= c.z * step <= 16) by (nonlinear_arith)
            requires
                0 <= c.x <= 1,
                0 <= c.z <= 1,
                1 <= step <= 16,
        ;
        let v = IVec3 { x: local_pos.x + c.x * step, y: local_pos.y + c.y, z: local_pos.z + c.z * step };
        mesh.vertices.push(v);
        mesh.normals.push(dir);
        mesh.texture_coordinates.push(uvs[i]);
        i = i + 1;
    }
    mesh.indices.push(idx + 2);
    mesh.indices.push(idx + 1);
    mesh.indices.push(idx);
    mesh.indices.push(idx);
    mesh.indices.push(idx + 3);
    mesh.indices.push(idx + 2);
    proof {
        let after = quads.push(q);
        let n = quads.len() as int;
        let st = stride as int;
        assert(views(mesh.vertices@) =~= Seq::new(
            4 * after.len(),
            |k: int| quad_vertex(after[k / 4], st, k % 4),
        )) by {
            assert forall|k: int| 0 <= k < 4 * after.len() implies views(mesh.vertices@)[k]
                == quad_vertex(after[k / 4], st, k % 4) by {
                if k < 4 * n {
                    assert(views(old_mesh.vertices@)[k] == quad_vertex(quads[k / 4], st, k % 4));
                } else {
                    assert(mesh.vertices@[4 * n + (k - 4 * n)]@ == quad_vertex(q, st, k - 4 * n));
                }
            }
        }
        assert(views(mesh.normals@) =~= Seq::new(4 * after.len(), |k: int| after[k / 4].face.outward()))
            by {
            assert forall|k: int| 0 <= k < 4 * after.len() implies views(mesh.normals@)[k] == after[k
                / 4].face.outward() by {
                if k < 4 * n {
                    assert(views(old_mesh.normals@)[k] == quads[k / 4].face.outward());
                } else {
                    assert(mesh.normals@[4 * n + (k - 4 * n)]@ == face.outward());
                }
            }
        }
        assert(mesh.texture_coordinates@ =~= Seq::new(
            4 * after.len(),
            |k: int| quad_uv(after[k / 4], k % 4),
        )) by {
            assert forall|k: int| 0 <= k < 4 * after.len() implies mesh.texture_coordinates@[k]
                == quad_uv(after[k / 4], k % 4) by {
                if k < 4 * n {
                    assert(old_mesh.texture_coordinates@[k] == quad_uv(quads[k / 4], k % 4));
                } else {
                    assert(mesh.texture_coordinates@[4 * n + (k - 4 * n)] == quad_uv(q, k - 4 * n));
                }
            }
        }
        assert(mesh.indices@ =~= Seq::new(
            6 * after.len(),
            |k: int| (4 * (k / 6) + index_pattern()[k % 6]) as u32,
        )) by {
            assert(old_mesh.indices@.len() == 6 * n);
            assert forall|k: int| 0 <= k < 6 * after.len() implies mesh.indices@[k] == (4 * (k / 6)
                + index_pattern()[k % 6]) as u32 by {
                if k < 6 * n {
                    assert(mesh.indices@[k] == old_mesh.indices@[k]);
                } else {
                    assert(k / 6 == n);
                }
            }
        }
    }
    true
}

/// Tells whether every chunk next to `key` has its terrain generated.
fn neighbors_ready(manager: &ChunkManager, key: IVec3) -> (r: bool)
    requires
        has_neighborhood(key@),
    ensures
        r == neighbors_generated(manager.chunks(), key@),
{
    let keys = ChunkManager::adjacent_keys(key);
    let mut i: usize = 0;
    while i < keys.len()
        invariant
            i <= keys@.len(),
            views(keys@) == adjacent(key@),
            forall|k: int| 0 <= k < i ==> generated_in(manager.chunks(), #[trigger] adjacent(key@)[k]),
        decreases keys@.len() - i,
    {
        assert(views(keys@)[i as int] == keys@[i as int]@);
        if !manager.is_generated(keys[i]) {
            return false;
        }
        i = i + 1;
    }
    assert(views(keys@).len() == keys@.len());
    true
}

/// One candidate face more: the quads of the first `n + 1` candidates are
/// those of the first `n`, and the quad of candidate `n` if it gives one.
proof fn lemma_slot_step(chunks: Map<Int3, ChunkData>, key: Int3, lod: nat, n: int)
    requires
        lod <= MAX_LOD,
        0 <= n < face_slots(lod).len(),
    ensures
        face_slots(lod).len() == 6 * lod_cells(lod).len(),
        0 <= n / 6 < lod_cells(lod).len(),
        face_slots(lod)[n] == (lod_cells(lod)[n / 6], Face::all()[n % 6]),
        face_slots(lod).take(n + 1).filter_map(quad_at(chunks, key, lod)) == face_slots(lod).take(
            n,
        ).filter_map(quad_at(chunks, key, lod)) + (match quad_at(chunks, key, lod)(
            face_slots(lod)[n],
        ) {
            Some(q) => seq![q],
            None => Seq::empty(),
        }),
{
    assert(Face::all().len() == 6);
    lemma_lod_cells_len(lod);
    lemma_product_split(lod_cells(lod), Face::all(), n);
    face_slots(lod).lemma_filter_map_take_succ(quad_at(chunks, key, lod), n);
}

/// Extracts the mesh of a chunk at level of detail `lod`: one quad for each
/// face of a visited, non-transparent voxel that no full voxel hides. The
/// extraction is put off, with `None`, while the chunk or a chunk next to it
/// has no terrain yet.
pub fn generate_mesh(manager: &ChunkManager, chunk: &Chunk, lod: u32) -> (r: Option<MeshBuffers>)
    requires
        lod <= MAX_LOD,
        has_neighborhood(chunk.key@),
    ensures
        r.is_some() == mesh_ready(manager.chunks(), chunk.key@),
        r matches Some(m) ==> m.holds(
            mesh_quads(manager.chunks(), chunk.key@, lod as nat),
            lod_stride(lod as nat),
        ),
{
    let key = chunk.key;
    let data = match manager.get(key) {
        Some(data) => data,
        None => {
            return None;
        },
    };
    if !data.generated || !neighbors_ready(manager, key) {
        return None;
    }
    let ghost chunks = manager.chunks();
    let ghost slots = face_slots(lod as nat);
    let ghost pick = quad_at(chunks, key@, lod as nat);
    let lod_num = stride_of(lod);
    let faces = [Face::TOP, Face::BOTTOM, Face::EAST, Face::WEST, Face::NORTH, Face::SOUTH];
    assert(faces@ =~= Face::all());
    let cells = data.all_blocks_lod(lod);
    let mut mesh = MeshBuffers {
        vertices: Vec::new(),
        normals: Vec::new(),
        texture_coordinates: Vec::new(),
        indices: Vec::new(),
    };
    let ghost mut quads: Seq<Quad> = Seq::empty();
    proof {
        assert(slots.take(0) =~= Seq::<(Int3, Face)>::empty());
        assert(slots.take(0).filter_map(pick) =~= Seq::<Quad>::empty());
        assert(views(mesh.vertices@) =~= Seq::new(
            4 * quads.len(),
            |k: int| quad_vertex(quads[k / 4], lod_num as int, k % 4),
        ));
        assert(views(mesh.normals@) =~= Seq::new(4 * quads.len(), |k: int| quads[k / 4].face.outward()));
        assert(mesh.texture_coordinates@ =~= Seq::new(
            4 * quads.len(),
            |k: int| quad_uv(quads[k / 4], k % 4),
        ));
        assert(mesh.indices@ =~= Seq::new(
            6 * quads.len(),
            |k: int| (4 * (k / 6) + index_pattern()[k % 6]) as u32,
        ));
        lemma_lod_cells_len(lod as nat);
        assert(Face::all().len() == 6);
        assert(slots.len() == lod_cells(lod as nat).len() * 6);
    }
    let mut i: usize = 0;
    while i < cells.len()
        invariant
            lod <= MAX_LOD,
            has_neighborhood(key@),
            chunks == manager.chunks(),
            chunks.contains_key(key@),
            *data == chunks[key@],
            slots == face_slots(lod as nat),
            pick == quad_at(chunks, key@, lod as nat),
            lod_num == lod_stride(lod as nat),
            1 <= lod_num <= CHUNK_SIZE,
            faces@ == Face::all(),
            i <= cells@.len(),
            cells@.len() == lod_cells(lod as nat).len(),
            cells@.len() <= 4096,
            slots.len() == 6 * cells@.len(),
            forall|k: int|
                0 <= k < cells@.len() ==> {
                    let c = #[trigger] lod_cells(lod as nat)[k];
                    &&& cell_of((cells@[k].1, cells@[k].2, cells@[k].3)) == c
                    &&& cells@[k].0 == data.block_at(c)
                },
            quads == slots.take(6 * i).filter_map(pick),
            quads.len() <= 6 * i,
            mesh.holds(quads, lod_num as int),
        decreases cells@.len() - i,
    {
        let (block, x, y, z) = cells[i];
        let ghost cell = lod_cells(lod as nat)[i as int];
        proof {
            lemma_lod_cells(lod as nat, i as int);
            assert(cell_of((x, y, z)) == cell);
        }
        let local_pos = IVec3 { x: x as i32, y: y as i32, z: z as i32 };
        let mut j: usize = 0;
        while j < 6
            invariant
                lod <= MAX_LOD,
                has_neighborhood(key@),
                chunks == manager.chunks(),
                chunks.contains_key(key@),
                *data == chunks[key@],
                slots == face_slots(lod as nat),
                pick == quad_at(chunks, key@, lod as nat),
                lod_num == lod_stride(lod as nat),
                1 <= lod_num <= CHUNK_SIZE,
                faces@ == Face::all(),
                i < cells@.len(),
                cells@.len() == lod_cells(lod as nat).len(),
                cells@.len() <= 4096,
                slots.len() == 6 * cells@.len(),
                cell == lod_cells(lod as nat)[i as int],
                local_pos@ == cell,
                in_chunk(cell),
                block == data.block_at(cell),
                j <= 6,
                quads == slots.take(6 * i + j).filter_map(pick),
                quads.len() <= 6 * i + j,
                mesh.holds(quads, lod_num as int),
            decreases 6 - j,
        {
            let ghost n = 6 * i + j;
            proof {
                lemma_slot_step(chunks, key@, lod as nat, n);
                assert(n / 6 == i && n % 6 == j);
                assert(slots[n] == (cell, faces@[j as int]));
            }
            if !block.transparent() {
                let added = add_face(manager, key, lod_num, local_pos, faces[j], block, &mut mesh, Ghost(quads));
                proof {
                    if added {
                        assert(pick(slots[n]) == Some(Quad { cell, face: faces@[j as int], block }));
                        quads = quads.push(Quad { cell, face: faces@[j as int], block });
                        assert(quads =~= slots.take(n).filter_map(pick) + seq![
                            Quad { cell, face: faces@[j as int], block },
                        ]);
                    } else {
                        assert(pick(slots[n]) is None);
                        assert(quads =~= slots.take(n).filter_map(pick) + Seq::<Quad>::empty());
                    }
                }
            } else {
                proof {
                    assert(pick(slots[n]) is None);
                    assert(quads =~= slots.take(n).filter_map(pick) + Seq::<Quad>::empty());
                }
            }
            j = j + 1;
        }
        i = i + 1;
    }
    assert(slots.take(6 * i) =~= slots);
    Some(mesh)
}

} // verus!
