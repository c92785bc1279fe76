use voxel_world::block::{AtlasPoint, Block};
use voxel_world::chunk::Chunk;
use voxel_world::chunk_data::ChunkData;
use voxel_world::ivec::IVec3;
use voxel_world::manager::ChunkManager;
use voxel_world::mesh::{generate_mesh, MeshBuffers};
use voxel_world::terrain::fill_terrain;

fn v(x: i32, y: i32, z: i32) -> IVec3 {
    IVec3::new(x, y, z)
}

fn air() -> ChunkData {
    let mut c = ChunkData::default();
    c.generated = true;
    c
}

/// A store with `center` at `key` and generated chunks of air all around it.
fn world_around(key: IVec3, center: ChunkData) -> ChunkManager {
    let mut m = ChunkManager::default();
    for k in ChunkManager::adjacent_keys(key) {
        m.insert_chunk(k, air());
    }
    m.insert_chunk(key, center);
    m
}

fn with_blocks(blocks: &[(usize, usize, usize, Block)]) -> ChunkData {
    let mut c = air();
    for &(x, y, z, b) in blocks {
        c.data[z][y][x] = b;
    }
    c
}

fn quads(mesh: &MeshBuffers) -> usize {
    assert_eq!(mesh.vertices.len() % 4, 0);
    assert_eq!(mesh.normals.len(), mesh.vertices.len());
    assert_eq!(mesh.texture_coordinates.len(), mesh.vertices.len());
    assert_eq!(mesh.indices.len() * 4, mesh.vertices.len() * 6);
    mesh.vertices.len() / 4
}

fn mesh_of(m: &ChunkManager, key: IVec3, lod: u32) -> MeshBuffers {
    generate_mesh(m, &Chunk { key }, lod).unwrap()
}

#[test]
fn an_unloaded_chunk_has_no_mesh() {
    let m = ChunkManager::default();
    assert!(generate_mesh(&m, &Chunk { key: v(0, 0, 0) }, 0).is_none());
}

#[test]
fn an_ungenerated_chunk_has_no_mesh() {
    let m = world_around(v(0, 1, 0), ChunkData::default());
    assert!(generate_mesh(&m, &Chunk { key: v(0, 1, 0) }, 0).is_none());
}

#[test]
fn a_missing_neighbor_puts_the_mesh_off() {
    let key = v(2, 3, 4);
    let center = with_blocks(&[(1, 1, 1, Block::Stone)]);
    for gap in ChunkManager::adjacent_keys(key) {
        let mut m = world_around(key, center.clone());
        m.remove_chunk(gap);
        assert!(generate_mesh(&m, &Chunk { key }, 0).is_none());
        m.insert_chunk(gap, ChunkData::default());
        assert!(generate_mesh(&m, &Chunk { key }, 0).is_none());
        assert_eq!(m.get(key), Some(&center));
        m.insert_chunk(gap, air());
        assert!(generate_mesh(&m, &Chunk { key }, 0).is_some());
    }
}

#[test]
fn a_chunk_of_air_has_an_empty_mesh() {
    let m = world_around(v(0, 1, 0), air());
    let mesh = mesh_of(&m, v(0, 1, 0), 0);
    assert_eq!(quads(&mesh), 0);
    assert!(mesh.indices.is_empty());
}

#[test]
fn a_lone_voxel_shows_six_quads() {
    let key = v(0, 1, 0);
    let m = world_around(key, with_blocks(&[(5, 6, 7, Block::Stone)]));
    let mesh = mesh_of(&m, key, 0);
    assert_eq!(quads(&mesh), 6);
    assert_eq!(mesh.vertices.len(), 24);
    assert_eq!(mesh.indices.len(), 36);
}

#[test]
fn the_quads_of_a_lone_voxel_in_full() {
    let key = v(0, 1, 0);
    let m = world_around(key, with_blocks(&[(5, 6, 7, Block::Stone)]));
    let mesh = mesh_of(&m, key, 0);
    let want_vertices = vec![
        // top
        v(6, 7, 7), v(6, 7, 8), v(5, 7, 8), v(5, 7, 7),
        // bottom
        v(6, 6, 8), v(6, 6, 7), v(5, 6, 7), v(5, 6, 8),
        // east
        v(6, 7, 8), v(6, 7, 7), v(6, 6, 7), v(6, 6, 8),
        // west
        v(5, 6, 8), v(5, 6, 7), v(5, 7, 7), v(5, 7, 8),
        // north
        v(5, 7, 8), v(6, 7, 8), v(6, 6, 8), v(5, 6, 8),
        // south
        v(5, 6, 7), v(6, 6, 7), v(6, 7, 7), v(5, 7, 7),
    ];
    assert_eq!(mesh.vertices, want_vertices);
    let normals = [v(0, 1, 0), v(0, -1, 0), v(1, 0, 0), v(-1, 0, 0), v(0, 0, 1), v(0, 0, -1)];
    for (q, n) in normals.iter().enumerate() {
        assert_eq!(&mesh.normals[4 * q..4 * q + 4], &[*n; 4]);
    }
    let tile = [
        AtlasPoint { u: 32, v: 0 },
        AtlasPoint { u: 47, v: 0 },
        AtlasPoint { u: 47, v: 15 },
        AtlasPoint { u: 32, v: 15 },
    ];
    let mut mirrored = tile;
    mirrored.reverse();
    for q in 0..6 {
        let want = if q == 3 || q == 5 { mirrored } else { tile };
        assert_eq!(&mesh.texture_coordinates[4 * q..4 * q + 4], &want);
    }
    let mut want_indices = Vec::new();
    for q in 0..6u32 {
        let b = 4 * q;
        want_indices.extend_from_slice(&[b + 2, b + 1, b, b, b + 3, b + 2]);
    }
    assert_eq!(mesh.indices, want_indices);
}

#[test]
fn stacked_voxels_hide_the_faces_between_them() {
    let key = v(0, 1, 0);
    let m = world_around(
        key,
        with_blocks(&[(5, 6, 7, Block::Stone), (5, 7, 7, Block::Stone)]),
    );
    let mesh = mesh_of(&m, key, 0);
    assert_eq!(quads(&mesh), 10);
    let up = mesh.normals.iter().filter(|n| **n == v(0, 1, 0)).count();
    let down = mesh.normals.iter().filter(|n| **n == v(0, -1, 0)).count();
    assert_eq!((up, down), (4, 4));
    // the lower voxel comes first, and its first quad is its bottom
    assert_eq!(mesh.vertices[0], v(6, 6, 8));
    assert_eq!(mesh.normals[0], v(0, -1, 0));
    // the upper voxel's first quad is its top
    assert_eq!(mesh.vertices[20], v(6, 8, 7));
    assert_eq!(mesh.normals[20], v(0, 1, 0));
    assert!(mesh.vertices.iter().filter(|p| p.y == 9).count() == 0);
    assert!(mesh.vertices.iter().any(|p| p.y == 8));
}

#[test]
fn grass_shows_its_own_tile_on_each_face() {
    let key = v(0, 1, 0);
    let m = world_around(key, with_blocks(&[(0, 0, 0, Block::Grass)]));
    let mesh = mesh_of(&m, key, 0);
    assert_eq!(quads(&mesh), 6);
    assert_eq!(mesh.texture_coordinates[0], AtlasPoint { u: 0, v: 16 });
    assert_eq!(mesh.texture_coordinates[4], AtlasPoint { u: 16, v: 0 });
    assert_eq!(mesh.texture_coordinates[8], AtlasPoint { u: 0, v: 0 });
    assert_eq!(mesh.texture_coordinates[12], AtlasPoint { u: 0, v: 15 });
}

#[test]
fn a_full_voxel_across_the_border_hides_the_face() {
    let key = v(0, 1, 0);
    let mut m = world_around(key, with_blocks(&[(15, 3, 4, Block::Dirt)]));
    assert_eq!(quads(&mesh_of(&m, key, 0)), 6);
    let mut east = air();
    east.data[4][3][0] = Block::Stone;
    m.insert_chunk(v(1, 1, 0), east);
    let mesh = mesh_of(&m, key, 0);
    assert_eq!(quads(&mesh), 5);
    assert!(!mesh.normals.contains(&v(1, 0, 0)));
}

#[test]
fn below_the_world_nothing_hides_a_face() {
    let key = v(0, 0, 0);
    let m = world_around(key, with_blocks(&[(3, 0, 3, Block::Stone)]));
    let mesh = mesh_of(&m, key, 0);
    assert_eq!(quads(&mesh), 6);
    assert!(mesh.normals.contains(&v(0, -1, 0)));
}

#[test]
fn a_coarser_level_skips_columns_and_widens_quads() {
    let key = v(0, 1, 0);
    let m = world_around(
        key,
        with_blocks(&[(4, 6, 8, Block::Stone), (5, 6, 9, Block::Stone)]),
    );
    assert_eq!(quads(&mesh_of(&m, key, 0)), 12);
    let mesh = mesh_of(&m, key, 1);
    assert_eq!(quads(&mesh), 6);
    assert_eq!(&mesh.vertices[0..4], &[v(6, 7, 8), v(6, 7, 10), v(4, 7, 10), v(4, 7, 8)]);
    let mesh = mesh_of(&m, key, 2);
    assert_eq!(quads(&mesh), 6);
    assert_eq!(&mesh.vertices[0..4], &[v(8, 7, 8), v(8, 7, 12), v(4, 7, 12), v(4, 7, 8)]);
    assert_eq!(quads(&mesh_of(&m, key, 3)), 0);
}

#[test]
fn a_coarser_level_looks_further_for_a_hiding_voxel() {
    let key = v(0, 1, 0);
    let m = world_around(
        key,
        with_blocks(&[(4, 6, 8, Block::Stone), (6, 6, 8, Block::Stone), (5, 6, 8, Block::Stone)]),
    );
    let fine = mesh_of(&m, key, 0);
    assert_eq!(quads(&fine), 14);
    let coarse = mesh_of(&m, key, 1);
    assert_eq!(quads(&coarse), 10);
}

#[test]
fn a_coarser_level_can_show_a_face_that_the_finer_one_hides() {
    let key = v(0, 1, 0);
    let mut m = world_around(key, with_blocks(&[(0, 5, 0, Block::Stone)]));
    let mut west = air();
    west.data[0][5][15] = Block::Stone;
    m.insert_chunk(v(-1, 1, 0), west);
    let fine = mesh_of(&m, key, 0);
    assert_eq!(quads(&fine), 5);
    assert!(!fine.normals.contains(&v(-1, 0, 0)));
    let coarse = mesh_of(&m, key, 1);
    assert_eq!(quads(&coarse), 6);
    assert!(coarse.normals.contains(&v(-1, 0, 0)));
}

#[test]
fn quad_counts_of_flat_terrain_by_level() {
    let key = v(0, 0, 0);
    let heights = [[5usize; 16]; 16];
    let mut m = ChunkManager::default();
    for k in ChunkManager::adjacent_keys(key) {
        m.insert_chunk(k, fill_terrain(k.y, &heights));
    }
    m.insert_chunk(key, fill_terrain(0, &heights));
    let counts: Vec<usize> = (0..=4).map(|lod| quads(&mesh_of(&m, key, lod))).collect();
    assert_eq!(counts, vec![512, 256, 128, 48, 12]);
}

#[test]
fn the_mesh_does_not_depend_on_the_order_of_loading() {
    let key = v(-3, 2, 5);
    let center = with_blocks(&[(0, 0, 0, Block::Grass), (15, 15, 15, Block::Dirt)]);
    let a = world_around(key, center.clone());
    let mut b = ChunkManager::default();
    b.insert_chunk(key, center);
    let mut keys = ChunkManager::adjacent_keys(key);
    keys.reverse();
    for k in keys {
        b.insert_chunk(k, air());
    }
    assert_eq!(mesh_of(&a, key, 0), mesh_of(&b, key, 0));
    assert_eq!(quads(&mesh_of(&a, key, 0)), 12);
}
