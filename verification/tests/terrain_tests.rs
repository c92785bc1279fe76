use voxel_world::block::Block;
use voxel_world::chunk::Chunk;
use voxel_world::chunk_data::ChunkData;
use voxel_world::ivec::IVec3;
use voxel_world::manager::ChunkManager;
use voxel_world::terrain::{fill_terrain, generate_terrain};

fn flat(height: usize) -> [[usize; 16]; 16] {
    [[height; 16]; 16]
}

#[test]
fn bands_around_the_surface() {
    let c = fill_terrain(0, &flat(10));
    assert!(c.generated);
    assert_eq!(c.data[0][11][0], Block::Air);
    assert_eq!(c.data[0][10][0], Block::Grass);
    assert_eq!(c.data[0][9][0], Block::Dirt);
    assert_eq!(c.data[0][8][0], Block::Dirt);
    assert_eq!(c.data[0][7][0], Block::Stone);
    assert_eq!(c.data[0][0][0], Block::Stone);
    assert_eq!(c.data[0][15][0], Block::Air);
}

#[test]
fn bands_follow_the_height_of_the_chunk() {
    let heights = flat(40);
    let below = fill_terrain(1, &heights);
    let at = fill_terrain(2, &heights);
    let above = fill_terrain(3, &heights);
    for y in 0..16 {
        assert_eq!(below.data[3][y][4], Block::Stone);
        assert_eq!(above.data[3][y][4], Block::Air);
    }
    assert_eq!(at.data[3][9][4], Block::Air);
    assert_eq!(at.data[3][8][4], Block::Grass);
    assert_eq!(at.data[3][7][4], Block::Dirt);
    assert_eq!(at.data[3][6][4], Block::Dirt);
    assert_eq!(at.data[3][5][4], Block::Stone);
}

#[test]
fn surface_at_the_bottom_of_the_world() {
    let c = fill_terrain(0, &flat(0));
    assert_eq!(c.data[0][0][0], Block::Grass);
    assert_eq!(c.data[0][1][0], Block::Air);
    let c = fill_terrain(0, &flat(1));
    assert_eq!(c.data[0][0][0], Block::Dirt);
    assert_eq!(c.data[0][1][0], Block::Grass);
    let c = fill_terrain(-1, &flat(1));
    assert_eq!(c.data[0][15][0], Block::Dirt);
    assert_eq!(c.data[0][14][0], Block::Stone);
}

#[test]
fn heights_are_read_by_z_then_x() {
    let mut heights = flat(3);
    heights[2][5] = 12;
    let c = fill_terrain(0, &heights);
    assert_eq!(c.data[2][12][5], Block::Grass);
    assert_eq!(c.data[5][12][2], Block::Air);
    assert_eq!(c.data[5][3][2], Block::Grass);
    assert_eq!(c.data[2][3][5], Block::Stone);
}

#[test]
fn huge_heights_give_stone() {
    let c = fill_terrain(7, &flat(usize::MAX));
    for y in 0..16 {
        assert_eq!(c.data[15][y][15], Block::Stone);
    }
}

#[test]
fn generate_terrain_fills_a_loaded_chunk() {
    let mut m = ChunkManager::default();
    let key = IVec3::new(3, 0, -4);
    m.insert_chunk(key, ChunkData::default());
    m.insert_chunk(IVec3::new(0, 0, 0), ChunkData::default());
    generate_terrain(&mut m, &Chunk { key }, &flat(5));
    assert!(m.is_generated(key));
    assert_eq!(m.get(key), Some(&fill_terrain(0, &flat(5))));
    assert!(!m.is_generated(IVec3::new(0, 0, 0)));
    assert_eq!(m.get(IVec3::new(0, 0, 0)), Some(&ChunkData::default()));
}

#[test]
fn generating_twice_is_generating_once() {
    let mut m = ChunkManager::default();
    let key = IVec3::new(0, 1, 0);
    m.insert_chunk(key, ChunkData::default());
    generate_terrain(&mut m, &Chunk { key }, &flat(20));
    let once = m.get(key).unwrap().clone();
    generate_terrain(&mut m, &Chunk { key }, &flat(20));
    assert_eq!(m.get(key), Some(&once));
    generate_terrain(&mut m, &Chunk { key }, &flat(30));
    assert_eq!(m.get(key), Some(&once));
}
