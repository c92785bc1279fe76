//! The voxels of one chunk, and the orders in which they are walked.

use vstd::arithmetic::power2::{lemma2_to64, lemma_pow2_unfold, pow2};
use vstd::prelude::*;

use crate::block::Block;
use crate::config::{CHUNK_SIZE, MAX_LOD};
use crate::ivec::{IVec3, Int3};
use crate::product::{cartesian_product, lemma_product_split, product_seq};

verus! {

/// Whether `p` names a voxel of a chunk: every component in `0..CHUNK_SIZE`.
pub open spec fn in_chunk(p: Int3) -> bool {
    &&& 0 <= p.x < CHUNK_SIZE
    &&& 0 <= p.y < CHUNK_SIZE
    &&& 0 <= p.z < CHUNK_SIZE
}

/// The distance between two visited columns at level of detail `lod`.
pub open spec fn lod_stride(lod: nat) -> int {
    pow2(lod) as int
}

/// The coordinates `0, stride, 2 * stride, ..` below `CHUNK_SIZE`.
pub open spec fn steps_seq(stride: int) -> Seq<int> {
    Seq::new(((CHUNK_SIZE + stride - 1) / stride) as nat, |k: int| k * stride)
}

/// The columns visited at level of detail `lod`, as (x, z) with x changing
/// slowest.
pub open spec fn lod_columns(lod: nat) -> Seq<(int, int)> {
    product_seq(steps_seq(lod_stride(lod)), steps_seq(lod_stride(lod)))
}

/// The voxels visited at level of detail `lod`, in the order of the walk:
/// column by column, and within a column from the bottom up.
pub open spec fn lod_cells(lod: nat) -> Seq<Int3> {
    Seq::new(
        lod_columns(lod).len() * CHUNK_SIZE as nat,
        |k: int|
            Int3 {
                x: lod_columns(lod)[k / (CHUNK_SIZE as int)].0,
                y: k % (CHUNK_SIZE as int),
                z: lod_columns(lod)[k / (CHUNK_SIZE as int)].1,
            },
    )
}

/// All voxels of a chunk, with x changing slowest and z fastest.
pub open spec fn all_cells() -> Seq<Int3> {
    Seq::new(
        (CHUNK_SIZE * CHUNK_SIZE * CHUNK_SIZE) as nat,
        |k: int|
            Int3 {
                x: k / ((CHUNK_SIZE * CHUNK_SIZE) as int),
                y: (k / (CHUNK_SIZE as int)) % (CHUNK_SIZE as int),
                z: k % (CHUNK_SIZE as int),
            },
    )
}

/// The strides of the levels of detail up to `MAX_LOD` are 1, 2, 4, 8 and
/// 16: each divides `CHUNK_SIZE`.
pub proof fn lemma_lod_stride(lod: nat)
    requires
        lod <= MAX_LOD,
    ensures
        lod == 0 ==> lod_stride(lod) == 1,
        lod == 1 ==> lod_stride(lod) == 2,
        lod == 2 ==> lod_stride(lod) == 4,
        lod == 3 ==> lod_stride(lod) == 8,
        lod == 4 ==> lod_stride(lod) == 16,
        1 <= lod_stride(lod) <= CHUNK_SIZE,
        steps_seq(lod_stride(lod)).len() * lod_stride(lod) == CHUNK_SIZE,
{
    lemma2_to64();
    let s = lod_stride(lod);
    assert(s == 1 || s == 2 || s == 4 || s == 8 || s == 16);
    let n = (16 + s - 1) / s;
    assert(n * s == 16) by (nonlinear_arith)
        requires
            s == 1 || s == 2 || s == 4 || s == 8 || s == 16,
            n == (16 + s - 1) / s,
    ;
    assert(steps_seq(s).len() == n);
}

/// The stride of level of detail `lod`, which is `2^lod`.
pub fn stride_of(lod: u32) -> (r: usize)
    requires
        lod <= MAX_LOD,
    ensures
        r == lod_stride(lod as nat),
        1 <= r <= CHUNK_SIZE,
{
    proof {
        lemma_lod_stride(lod as nat);
        lemma2_to64();
    }
    let mut r: usize = 1;
    let mut i: u32 = 0;
    while i < lod
        invariant
            i <= lod <= MAX_LOD,
            r == pow2(i as nat),
            r <= 16,
        decreases lod - i,
    {
        proof {
            lemma_pow2_unfold((i + 1) as nat);
            lemma2_to64();
        }
        r = r * 2;
        i = i + 1;
    }
    r
}

/// The coordinates `0, stride, 2 * stride, ..` below `CHUNK_SIZE`.
pub fn steps(stride: usize) -> (r: Vec<usize>)
    requires
        1 <= stride,
    ensures
        r@.len() == steps_seq(stride as int).len(),
        forall|k: int| 0 <= k < r@.len() ==> r@[k] as int == #[trigger] steps_seq(stride as int)[k],
{
    let mut r: Vec<usize> = Vec::new();
    let mut v: usize = 0;
    r.push(v);
    assert(0 == (r@.len() - 1) * stride) by (nonlinear_arith)
        requires
            r@.len() == 1,
    ;
    while CHUNK_SIZE - v > stride
        invariant
            1 <= stride,
            v < CHUNK_SIZE,
            r@.len() >= 1,
            v == (r@.len() - 1) * stride,
            forall|k: int| 0 <= k < r@.len() ==> r@[k] as int == k * stride,
        decreases CHUNK_SIZE - v,
    {
        v = v + stride;
        r.push(v);
        assert((r@.len() - 2) * stride + stride == (r@.len() - 1) * stride) by (nonlinear_arith);
    }
    proof {
        let n = r@.len() as int;
        let s = stride as int;
        assert(n * s == (n - 1) * s + s) by (nonlinear_arith);
        assert(n == (16 + s - 1) / s) by (nonlinear_arith)
            requires
                1 <= s,
                n >= 1,
                (n - 1) * s < 16,
                n * s >= 16,
        ;
    }
    r
}

/// The voxels of one chunk: a dense cube of blocks, and whether the terrain
/// generator has filled it. Until it has, every voxel reads as `Air`.
#[derive(Clone, Debug, PartialEq, Eq)]
pub struct ChunkData {
    /// The blocks, indexed by z, then y, then x.
    pub data: [[[Block; CHUNK_SIZE]; CHUNK_SIZE]; CHUNK_SIZE],
    pub generated: bool,
}

impl Default for ChunkData {
    fn default() -> (r: ChunkData)
        ensures
            r == ChunkData::empty(),
    {
        ChunkData { data: [[[Block::Air; CHUNK_SIZE]; CHUNK_SIZE]; CHUNK_SIZE], generated: false }
    }
}

impl ChunkData {
    /// The chunk as it is when first loaded: not generated, all `Air`.
    pub open spec fn empty() -> ChunkData {
        ChunkData { data: [[[Block::Air; CHUNK_SIZE]; CHUNK_SIZE]; CHUNK_SIZE], generated: false }
    }

    /// The block at the chunk-local position `p`.
    pub open spec fn block_at(&self, p: Int3) -> Block {
        self.data[p.z][p.y][p.x]
    }

    /// Reads the block at `p`, which must lie inside the chunk.
    pub fn get_unchecked(&self, p: IVec3) -> (b: Block)
        requires
            in_chunk(p@),
        ensures
            b == self.block_at(p@),
    {
        self.data[p.z as usize][p.y as usize][p.x as usize]
    }

    /// Reads the block at `p`, or `None` where `p` lies outside the chunk.
    pub fn get(&self, p: IVec3) -> (r: Option<Block>)
        ensures
            r == if in_chunk(p@) {
                Some(self.block_at(p@))
            } else {
                None::<Block>
            },
    {
        if p.x < 0 || p.y < 0 || p.z < 0 || p.x >= CHUNK_SIZE as i32 || p.y >= CHUNK_SIZE as i32
            || p.z >= CHUNK_SIZE as i32 {
            None
        } else {
            Some(self.get_unchecked(p))
        }
    }
}

/// The position named by a triple of coordinates (x, y, z).
pub open spec fn cell_of(c: (usize, usize, usize)) -> Int3 {
    Int3 { x: c.0 as int, y: c.1 as int, z: c.2 as int }
}

/// The number of voxels visited at a level of detail: a column for every
/// square of the stride's grid, and `CHUNK_SIZE` voxels in each column.
pub proof fn lemma_lod_cells_len(lod: nat)
    requires
        lod <= MAX_LOD,
    ensures
        lod_columns(lod).len() * lod_stride(lod) * lod_stride(lod) == CHUNK_SIZE * CHUNK_SIZE,
        lod_cells(lod).len() == lod_columns(lod).len() * CHUNK_SIZE,
        CHUNK_SIZE <= lod_cells(lod).len() <= CHUNK_SIZE * CHUNK_SIZE * CHUNK_SIZE,
{
    lemma_lod_stride(lod);
    let s = lod_stride(lod);
    let n = steps_seq(s).len() as int;
    assert(n * n * s * s == 256 && 1 <= n * n <= 256) by (nonlinear_arith)
        requires
            n * s == 16,
            s >= 1,
            n >= 0,
    ;
    assert(lod_columns(lod).len() == n * n);
}

/// Where a cell of the walk lies: inside the chunk, on a column of the
/// stride's grid.
pub proof fn lemma_lod_cells(lod: nat, k: int)
    requires
        lod <= MAX_LOD,
        0 <= k < lod_cells(lod).len(),
    ensures
        in_chunk(lod_cells(lod)[k]),
        lod_cells(lod)[k].x % lod_stride(lod) == 0,
        lod_cells(lod)[k].z % lod_stride(lod) == 0,
{
    lemma_lod_stride(lod);
    let s = lod_stride(lod);
    let st = steps_seq(s);
    let n = st.len() as int;
    assert(lod_columns(lod).len() == n * n);
    let c = k / 16;
    assert(0 <= c < n * n);
    lemma_product_split(st, st, c);
    let i = c / n;
    let j = c % n;
    assert(lod_cells(lod)[k].x == i * s);
    assert(lod_cells(lod)[k].z == j * s);
    assert(0 <= i * s < 16 && (i * s) % s == 0) by (nonlinear_arith)
        requires
            0 <= i < n,
            n * s == 16,
            s >= 1,
    ;
    assert(0 <= j * s < 16 && (j * s) % s == 0) by (nonlinear_arith)
        requires
            0 <= j < n,
            n * s == 16,
            s >= 1,
    ;
}

impl ChunkData {
    /// The columns visited at level of detail `lod`, as (x, z).
    pub fn slice_lod(lod: u32) -> (r: Vec<(usize, usize)>)
        requires
            lod <= MAX_LOD,
        ensures
            r@.len() == lod_columns(lod as nat).len(),
            forall|k: int|
                0 <= k < r@.len() ==> (r@[k].0 as int, r@[k].1 as int) == #[trigger] lod_columns(
                    lod as nat,
                )[k],
    {
        let base = steps(stride_of(lod));
        proof {
            lemma_lod_stride(lod as nat);
            let n = base@.len() as int;
            let s = lod_stride(lod as nat);
            assert(n * n <= 256) by (nonlinear_arith)
                requires
                    n * s == 16,
                    s >= 1,
                    n >= 0,
            ;
        }
        let r = cartesian_product(&base, &base);
        proof {
            let want = steps_seq(lod_stride(lod as nat));
            assert forall|k: int| 0 <= k < r@.len() implies (r@[k].0 as int, r@[k].1 as int)
                == #[trigger] lod_columns(lod as nat)[k] by {
                lemma_product_split(base@, base@, k);
                let n = base@.len() as int;
                assert(base@[k / n] as int == want[k / n]);
                assert(base@[k % n] as int == want[k % n]);
            }
        }
        r
    }

    /// Every column of the chunk, as a pair of coordinates, the first one
    /// changing slowest.
    pub fn slice() -> (r: Vec<(usize, usize)>)
        ensures
            r@.len() == CHUNK_SIZE * CHUNK_SIZE,
            forall|k: int|
                0 <= k < r@.len() ==> #[trigger] r@[k] == (
                    (k / (CHUNK_SIZE as int)) as usize,
                    (k % (CHUNK_SIZE as int)) as usize,
                ),
    {
        let r = ChunkData::slice_lod(0);
        proof {
            lemma_lod_stride(0);
            assert(steps_seq(1).len() == 16);
            assert forall|k: int| 0 <= k < r@.len() implies #[trigger] r@[k] == (
                (k / 16) as usize,
                (k % 16) as usize,
            ) by {
                lemma_product_split(steps_seq(1), steps_seq(1), k);
                let c = lod_columns(0)[k];
                assert(c.0 == k / 16 && c.1 == k % 16);
            }
        }
        r
    }

    /// The voxels visited at level of detail `lod`, as (x, y, z): column by
    /// column, and each column from the bottom up.
    pub fn all_lod(lod: u32) -> (r: Vec<(usize, usize, usize)>)
        requires
            lod <= MAX_LOD,
        ensures
            r@.len() == lod_cells(lod as nat).len(),
            forall|k: int| 0 <= k < r@.len() ==> cell_of(r@[k]) == #[trigger] lod_cells(lod as nat)[k],
    {
        let columns = ChunkData::slice_lod(lod);
        let heights = steps(1);
        proof {
            lemma_lod_stride(0);
            lemma_lod_stride(lod as nat);
            let n = steps_seq(lod_stride(lod as nat)).len() as int;
            let s = lod_stride(lod as nat);
            assert(n * n <= 256) by (nonlinear_arith)
                requires
                    n * s == 16,
                    s >= 1,
                    n >= 0,
            ;
            assert(heights@.len() == 16);
        }
        let pairs = cartesian_product(&columns, &heights);
        let mut r: Vec<(usize, usize, usize)> = Vec::new();
        let mut i: usize = 0;
        while i < pairs.len()
            invariant
                i <= pairs@.len(),
                r@.len() == i,
                heights@.len() == 16,
                forall|k: int| 0 <= k < 16 ==> heights@[k] as int == #[trigger] steps_seq(1)[k],
                columns@.len() == lod_columns(lod as nat).len(),
                forall|k: int|
                    0 <= k < columns@.len() ==> (columns@[k].0 as int, columns@[k].1 as int)
                        == #[trigger] lod_columns(lod as nat)[k],
                pairs@ == product_seq(columns@, heights@),
                pairs@.len() == lod_cells(lod as nat).len(),
                forall|k: int| 0 <= k < i ==> cell_of(r@[k]) == #[trigger] lod_cells(lod as nat)[k],
            decreases pairs@.len() - i,
        {
            let ((x, z), y) = pairs[i];
            proof {
                lemma_product_split(columns@, heights@, i as int);
                let c = (i as int) / 16;
                assert(pairs@[i as int] == (columns@[c], heights@[(i as int) % 16]));
                assert((columns@[c].0 as int, columns@[c].1 as int) == lod_columns(lod as nat)[c]);
                assert(heights@[(i as int) % 16] as int == steps_seq(1)[(i as int) % 16]);
            }
            r.push((x, y, z));
            i = i + 1;
        }
        r
    }

    /// Every voxel of the chunk, as a triple of coordinates, the first one
    /// changing slowest and the last one fastest.
    pub fn all() -> (r: Vec<(usize, usize, usize)>)
        ensures
            r@.len() == all_cells().len(),
            forall|k: int| 0 <= k < r@.len() ==> cell_of(r@[k]) == #[trigger] all_cells()[k],
    {
        let columns = ChunkData::slice();
        let last = steps(1);
        proof {
            lemma_lod_stride(0);
            assert(last@.len() == 16);
        }
        let pairs = cartesian_product(&columns, &last);
        let mut r: Vec<(usize, usize, usize)> = Vec::new();
        let mut i: usize = 0;
        while i < pairs.len()
            invariant
                i <= pairs@.len(),
                r@.len() == i,
                last@.len() == 16,
                forall|k: int| 0 <= k < 16 ==> last@[k] as int == #[trigger] steps_seq(1)[k],
                columns@.len() == 256,
                forall|k: int|
                    0 <= k < 256 ==> #[trigger] columns@[k] == ((k / 16) as usize, (k % 16) as usize),
                pairs@ == product_seq(columns@, last@),
                pairs@.len() == 4096,
                forall|k: int| 0 <= k < i ==> cell_of(r@[k]) == #[trigger] all_cells()[k],
            decreases pairs@.len() - i,
        {
            let ((x, y), z) = pairs[i];
            proof {
                let k = i as int;
                lemma_product_split(columns@, last@, k);
                assert(pairs@[k] == (columns@[k / 16], last@[k % 16]));
                assert(columns@[k / 16] == (((k / 16) / 16) as usize, ((k / 16) % 16) as usize));
                assert(last@[k % 16] as int == steps_seq(1)[k % 16]);
                assert((k / 16) / 16 == k / 256);
            }
            r.push((x, y, z));
            i = i + 1;
        }
        r
    }

    /// The voxels visited at level of detail `lod`, each with its block, in
    /// the order of [`ChunkData::all_lod`].
    pub fn all_blocks_lod(&self, lod: u32) -> (r: Vec<(Block, usize, usize, usize)>)
        requires
            lod <= MAX_LOD,
        ensures
            r@.len() == lod_cells(lod as nat).len(),
            forall|k: int|
                0 <= k < r@.len() ==> {
                    let c = #[trigger] lod_cells(lod as nat)[k];
                    &&& cell_of((r@[k].1, r@[k].2, r@[k].3)) == c
                    &&& r@[k].0 == self.block_at(c)
                },
    {
        let cells = ChunkData::all_lod(lod);
        let mut r: Vec<(Block, usize, usize, usize)> = Vec::new();
        let mut i: usize = 0;
        while i < cells.len()
            invariant
                lod <= MAX_LOD,
                i <= cells@.len(),
                r@.len() == i,
                cells@.len() == lod_cells(lod as nat).len(),
                forall|k: int|
                    0 <= k < cells@.len() ==> cell_of(cells@[k]) == #[trigger] lod_cells(lod as nat)[k],
                forall|k: int|
                    0 <= k < i ==> {
                        let c = #[trigger] lod_cells(lod as nat)[k];
                        &&& cell_of((r@[k].1, r@[k].2, r@[k].3)) == c
                        &&& r@[k].0 == self.block_at(c)
                    },
            decreases cells@.len() - i,
        {
            let (x, y, z) = cells[i];
            proof {
                lemma_lod_cells(lod as nat, i as int);
                assert(cell_of(cells@[i as int]) == lod_cells(lod as nat)[i as int]);
            }
            r.push((self.data[z][y][x], x, y, z));
            i = i + 1;
        }
        r
    }

    /// Every voxel of the chunk with its block, in the order of
    /// [`ChunkData::all`].
    pub fn all_blocks(&self) -> (r: Vec<(Block, usize, usize, usize)>)
        ensures
            r@.len() == all_cells().len(),
            forall|k: int|
                0 <= k < r@.len() ==> {
                    let c = #[trigger] all_cells()[k];
                    &&& cell_of((r@[k].1, r@[k].2, r@[k].3)) == c
                    &&& r@[k].0 == self.block_at(c)
                },
    {
        let cells = ChunkData::all();
        let mut r: Vec<(Block, usize, usize, usize)> = Vec::new();
        let mut i: usize = 0;
        while i < cells.len()
            invariant
                i <= cells@.len(),
                r@.len() == i,
                cells@.len() == all_cells().len(),
                forall|k: int| 0 <= k < cells@.len() ==> cell_of(cells@[k]) == #[trigger] all_cells()[k],
                forall|k: int|
                    0 <= k < i ==> {
                        let c = #[trigger] all_cells()[k];
                        &&& cell_of((r@[k].1, r@[k].2, r@[k].3)) == c
                        &&& r@[k].0 == self.block_at(c)
                    },
            decreases cells@.len() - i,
        {
            let (x, y, z) = cells[i];
            proof {
                assert(cell_of(cells@[i as int]) == all_cells()[i as int]);
            }
            r.push((self.data[z][y][x], x, y, z));
            i = i + 1;
        }
        r
    }
}

/// Every voxel of the chunk as first loaded is `Air`.
pub proof fn lemma_empty_is_air(p: Int3)
    requires
        in_chunk(p),
    ensures
        ChunkData::empty().block_at(p) == Block::Air,
        !ChunkData::empty().generated,
{
}

} // verus!
