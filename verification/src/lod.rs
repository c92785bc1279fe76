//! How the meshes of one chunk at neighboring levels of detail compare.

use vstd::arithmetic::div_mod::{lemma_fundamental_div_mod, lemma_mod_multiples_basic};
use vstd::prelude::*;

use crate::block::Face;
use crate::chunk_data::{
    in_chunk, lemma_lod_cells, lemma_lod_cells_len, lemma_lod_stride, lod_cells, lod_columns,
    lod_stride, steps_seq, ChunkData,
};
use crate::config::{CHUNK_SIZE, MAX_LOD};
use crate::ivec::Int3;
use crate::mesh::{face_hidden, face_slots, mesh_quads, quad_at, Quad};
use crate::product::{lemma_product_index, lemma_product_split};
use crate::seqs::{
    lemma_contained_is_shorter, lemma_filter_map_has, lemma_filter_map_len,
    lemma_filter_map_no_duplicates,
};

verus! {

/// The place of the voxel `p` in the walk at level of detail `lod`.
pub open spec fn cell_index(lod: nat, p: Int3) -> int {
    let s = lod_stride(lod);
    ((p.x / s) * steps_seq(s).len() + p.z / s) * CHUNK_SIZE + p.y
}

/// The walk at a level of detail visits exactly the voxels of the chunk
/// whose x and z are multiples of the stride, each once: such a voxel stands
/// at its index, and the voxel at an index has that index.
pub proof fn lemma_cell_index(lod: nat, p: Int3, k: int)
    requires
        lod <= MAX_LOD,
    ensures
        in_chunk(p) && p.x % lod_stride(lod) == 0 && p.z % lod_stride(lod) == 0 ==> 0
            <= cell_index(lod, p) < lod_cells(lod).len() && lod_cells(lod)[cell_index(lod, p)]
            == p,
        0 <= k < lod_cells(lod).len() ==> cell_index(lod, lod_cells(lod)[k]) == k,
{
    lemma_lod_stride(lod);
    lemma_lod_cells_len(lod);
    let s = lod_stride(lod);
    let st = steps_seq(s);
    let n = st.len() as int;
    assert(lod_columns(lod).len() == n * n);
    if in_chunk(p) && p.x % s == 0 && p.z % s == 0 {
        let i = p.x / s;
        let j = p.z / s;
        assert(i * s == p.x && 0 <= i < n) by (nonlinear_arith)
            requires
                i == p.x / s,
                p.x % s == 0,
                0 <= p.x < 16,
                n * s == 16,
                s >= 1,
        ;
        assert(j * s == p.z && 0 <= j < n) by (nonlinear_arith)
            requires
                j == p.z / s,
                p.z % s == 0,
                0 <= p.z < 16,
                n * s == 16,
                s >= 1,
        ;
        lemma_product_index(st, st, i, j);
        let c = i * n + j;
        let m = cell_index(lod, p);
        assert(m == c * 16 + p.y);
        assert(m / 16 == c && m % 16 == p.y);
        assert(lod_columns(lod)[c] == (st[i], st[j]));
    }
    if 0 <= k < lod_cells(lod).len() {
        let c = k / 16;
        lemma_product_split(st, st, c);
        let i = c / n;
        let j = c % n;
        let q = lod_cells(lod)[k];
        assert(q.x == i * s && q.z == j * s && q.y == k % 16);
        assert((i * s) / s == i && (j * s) / s == j) by (nonlinear_arith)
            requires
                s >= 1,
                0 <= i,
                0 <= j,
        ;
    }
}

/// A level of detail visits a quarter of the voxels of the level below it,
/// and each of them is visited by the level below too.
pub proof fn lemma_coarser_visits_fewer(lod: nat, k: int)
    requires
        lod < MAX_LOD,
        0 <= k < lod_cells(lod + 1).len(),
    ensures
        4 * lod_cells(lod + 1).len() == lod_cells(lod).len(),
        lod_cells(lod).contains(lod_cells(lod + 1)[k]),
{
    lemma_lod_stride(lod);
    lemma_lod_stride(lod + 1);
    lemma_lod_cells_len(lod);
    lemma_lod_cells_len(lod + 1);
    let s = lod_stride(lod);
    let t = lod_stride(lod + 1);
    assert(t == 2 * s);
    let a = lod_columns(lod).len() as int;
    let b = lod_columns(lod + 1).len() as int;
    assert(a == 4 * b) by (nonlinear_arith)
        requires
            a * s * s == 256,
            b * t * t == 256,
            t == 2 * s,
            s >= 1,
    ;
    let p = lod_cells(lod + 1)[k];
    lemma_lod_cells(lod + 1, k);
    lemma_fundamental_div_mod(p.x, t);
    lemma_fundamental_div_mod(p.z, t);
    lemma_mod_multiples_basic(2 * (p.x / t), s);
    lemma_mod_multiples_basic(2 * (p.z / t), s);
    assert(p.x == (2 * (p.x / t)) * s && p.z == (2 * (p.z / t)) * s) by (nonlinear_arith)
        requires
            p.x == t * (p.x / t) + p.x % t,
            p.z == t * (p.z / t) + p.z % t,
            p.x % t == 0,
            p.z % t == 0,
            t == 2 * s,
    ;
    lemma_cell_index(lod, p, 0);
}

/// A mesh never has more quads than six for each visited voxel.
pub proof fn lemma_quads_bounded(chunks: Map<Int3, ChunkData>, key: Int3, lod: nat)
    requires
        lod <= MAX_LOD,
    ensures
        mesh_quads(chunks, key, lod).len() <= 6 * lod_cells(lod).len(),
{
    assert(Face::all().len() == 6);
    assert(face_slots(lod).len() == lod_cells(lod).len() * 6);
    lemma_filter_map_len(face_slots(lod), quad_at(chunks, key, lod));
}

/// No face of a voxel is a candidate twice.
proof fn lemma_no_slot_twice(lod: nat)
    requires
        lod <= MAX_LOD,
    ensures
        face_slots(lod).no_duplicates(),
{
    let slots = face_slots(lod);
    assert(Face::all().len() == 6);
    lemma_lod_cells_len(lod);
    assert forall|i: int, j: int| 0 <= i < slots.len() && 0 <= j < slots.len() && i != j implies slots[i]
        != slots[j] by {
        lemma_product_split(lod_cells(lod), Face::all(), i);
        lemma_product_split(lod_cells(lod), Face::all(), j);
        lemma_cell_index(lod, Int3 { x: 0, y: 0, z: 0 }, i / 6);
        lemma_cell_index(lod, Int3 { x: 0, y: 0, z: 0 }, j / 6);
        if slots[i] == slots[j] {
            assert(lod_cells(lod)[i / 6] == lod_cells(lod)[j / 6]);
            assert(i / 6 == j / 6);
            assert(Face::all()[i % 6] == Face::all()[j % 6]);
            assert(i % 6 == j % 6);
        }
    }
}

/// Which faces a mesh shows. A face of a visited voxel is a quad of the mesh
/// exactly if the voxel is not transparent and the voxel that the face looks
/// at, one stride away, is not full.
pub proof fn lemma_quad_shown(
    chunks: Map<Int3, ChunkData>,
    key: Int3,
    lod: nat,
    cell: Int3,
    face: Face,
)
    requires
        lod <= MAX_LOD,
        in_chunk(cell),
        cell.x % lod_stride(lod) == 0,
        cell.z % lod_stride(lod) == 0,
    ensures
        mesh_quads(chunks, key, lod).contains(
            Quad { cell, face, block: chunks[key].block_at(cell) },
        ) <==> !chunks[key].block_at(cell).is_transparent() && !face_hidden(
            chunks,
            key,
            lod_stride(lod),
            cell,
            face,
        ),
{
    let slots = face_slots(lod);
    let pick = quad_at(chunks, key, lod);
    let q = Quad { cell, face, block: chunks[key].block_at(cell) };
    assert(Face::all().len() == 6);
    if pick((cell, face)) is Some {
        lemma_cell_index(lod, cell, 0);
        let at = cell_index(lod, cell);
        let f = choose|f: int| 0 <= f < 6 && Face::all()[f] == face;
        lemma_product_index(lod_cells(lod), Face::all(), at, f);
        lemma_filter_map_has(slots, pick, at * 6 + f);
    }
    if mesh_quads(chunks, key, lod).contains(q) {
        slots.lemma_filter_map_contains(pick, q);
    }
}

/// Whether the mesh one level coarser than `lod` shows no face that the
/// mesh at `lod` hides: wherever the voxel one stride away hides a face of a
/// voxel that the coarser level visits, the voxel two strides away hides it
/// as well.
pub open spec fn coarser_shows_no_more(chunks: Map<Int3, ChunkData>, key: Int3, lod: nat) -> bool {
    forall|k: int, face: Face|
        0 <= k < lod_cells(lod + 1).len() && face_hidden(
            chunks,
            key,
            lod_stride(lod),
            #[trigger] lod_cells(lod + 1)[k],
            face,
        ) ==> #[trigger] face_hidden(
            chunks,
            key,
            lod_stride(lod + 1),
            lod_cells(lod + 1)[k],
            face,
        )
}

/// A coarser mesh has no more quads. Where going one level up shows no face
/// that the finer level hides, every quad of the coarser mesh is the quad of
/// the same face of the same voxel in the finer one, so the coarser mesh has
/// at most as many.
pub proof fn lemma_lod_monotone(chunks: Map<Int3, ChunkData>, key: Int3, lod: nat)
    requires
        lod < MAX_LOD,
        coarser_shows_no_more(chunks, key, lod),
    ensures
        mesh_quads(chunks, key, lod + 1).len() <= mesh_quads(chunks, key, lod).len(),
{
    let fine_slots = face_slots(lod);
    let fine_pick = quad_at(chunks, key, lod);
    let fine = mesh_quads(chunks, key, lod);
    let slots = face_slots(lod + 1);
    let pick = quad_at(chunks, key, lod + 1);
    let coarse = mesh_quads(chunks, key, lod + 1);
    assert(Face::all().len() == 6);
    lemma_lod_cells_len(lod);
    lemma_lod_cells_len(lod + 1);
    lemma_no_slot_twice(lod + 1);
    assert forall|i: int, j: int|
        0 <= i < slots.len() && 0 <= j < slots.len() && i != j && pick(slots[i]) is Some implies pick(
        slots[i],
    ) != pick(slots[j]) by {}
    lemma_filter_map_no_duplicates(slots, pick);
    assert forall|i: int| 0 <= i < coarse.len() implies fine.contains(#[trigger] coarse[i]) by {
        let q = coarse[i];
        assert(coarse.contains(q));
        slots.lemma_filter_map_contains(pick, q);
        let slot = choose|slot: (Int3, Face)| #[trigger] slots.contains(slot) && pick(slot) == Some(q);
        let n = choose|n: int| 0 <= n < slots.len() && slots[n] == slot;
        lemma_product_split(lod_cells(lod + 1), Face::all(), n);
        let k = n / 6;
        assert(slot == (lod_cells(lod + 1)[k], Face::all()[n % 6]));
        lemma_coarser_visits_fewer(lod, k);
        let cell = lod_cells(lod + 1)[k];
        let face = slot.1;
        let at = choose|at: int| 0 <= at < lod_cells(lod).len() && lod_cells(lod)[at] == cell;
        lemma_product_index(lod_cells(lod), Face::all(), at, n % 6);
        let m = at * 6 + n % 6;
        assert(fine_slots[m] == slot);
        assert(!face_hidden(chunks, key, lod_stride(lod + 1), cell, face));
        assert(!face_hidden(chunks, key, lod_stride(lod), cell, face));
        assert(fine_pick(slot) == Some(q));
        lemma_filter_map_has(fine_slots, fine_pick, m);
    }
    lemma_contained_is_shorter(coarse, fine);
}

} // verus!
