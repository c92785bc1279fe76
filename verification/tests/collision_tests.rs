use voxel_world::block::Block;
use voxel_world::chunk_data::ChunkData;
use voxel_world::collision::{collision, is_solid, Axes, CornerSweep, VelocityMask};
use voxel_world::ivec::IVec3;
use voxel_world::manager::ChunkManager;

fn v(x: i32, y: i32, z: i32) -> IVec3 {
    IVec3::new(x, y, z)
}

/// A world of one chunk at the origin with a floor of stone at height 4.
fn floor_world() -> ChunkManager {
    let mut c = ChunkData::default();
    c.generated = true;
    for z in 0..16 {
        for x in 0..16 {
            c.data[z][4][x] = Block::Stone;
        }
    }
    let mut m = ChunkManager::default();
    m.insert_chunk(v(0, 0, 0), c);
    m
}

/// The corners of a box whose every corner rests at `rest` plus an offset and
/// moves by `step`.
fn corners(rest: IVec3, step: IVec3) -> [CornerSweep; 8] {
    let mut out = [CornerSweep { rest, moved: rest }; 8];
    for (i, c) in out.iter_mut().enumerate() {
        let at = v(rest.x + (i & 1) as i32, rest.y + ((i >> 1) & 1) as i32, rest.z + ((i >> 2) & 1) as i32);
        *c = CornerSweep { rest: at, moved: v(at.x + step.x, at.y + step.y, at.z + step.z) };
    }
    out
}

fn mask(x: bool, y: bool, z: bool) -> VelocityMask {
    VelocityMask(Axes { x, y, z })
}

#[test]
fn solid_means_full_or_unloaded() {
    let m = floor_world();
    assert!(is_solid(&m, v(3, 4, 3)));
    assert!(!is_solid(&m, v(3, 5, 3)));
    assert!(!is_solid(&m, v(3, 3, 3)));
    assert!(is_solid(&m, v(16, 5, 3)));
    assert!(is_solid(&m, v(-1, 5, 3)));
    assert!(is_solid(&m, v(3, -1, 3)));
}

#[test]
fn an_ungenerated_chunk_reads_as_air() {
    let mut m = ChunkManager::default();
    m.insert_chunk(v(0, 0, 0), ChunkData::default());
    assert!(!is_solid(&m, v(1, 1, 1)));
}

#[test]
fn free_movement_leaves_every_axis_free() {
    let m = floor_world();
    assert_eq!(collision(&m, &corners(v(5, 8, 5), v(1, -1, 1))), mask(true, true, true));
    assert_eq!(collision(&m, &corners(v(5, 8, 5), v(0, 0, 0))), mask(true, true, true));
}

#[test]
fn falling_onto_the_floor_blocks_the_vertical_axis() {
    let m = floor_world();
    assert_eq!(collision(&m, &corners(v(5, 5, 5), v(0, -1, 0))), mask(true, false, true));
}

#[test]
fn falling_while_walking_keeps_the_walk() {
    let m = floor_world();
    assert_eq!(collision(&m, &corners(v(5, 5, 5), v(1, -1, -1))), mask(true, false, true));
}

#[test]
fn walking_into_a_wall_blocks_that_axis() {
    let mut c = ChunkData::default();
    c.generated = true;
    for y in 0..16 {
        for z in 0..16 {
            c.data[z][y][10] = Block::Dirt;
        }
    }
    let mut m = ChunkManager::default();
    m.insert_chunk(v(0, 0, 0), c);
    assert_eq!(collision(&m, &corners(v(8, 5, 5), v(1, 0, 0))), mask(false, true, true));
    assert_eq!(collision(&m, &corners(v(8, 5, 5), v(1, 1, 1))), mask(false, true, true));
    assert_eq!(collision(&m, &corners(v(8, 5, 5), v(-1, 1, 1))), mask(true, true, true));
}

#[test]
fn a_corner_only_the_diagonal_reaches_blocks_both_axes() {
    let mut c = ChunkData::default();
    c.generated = true;
    for y in 0..16 {
        c.data[7][y][7] = Block::Stone;
    }
    let mut m = ChunkManager::default();
    m.insert_chunk(v(0, 0, 0), c);
    assert_eq!(collision(&m, &corners(v(5, 5, 5), v(1, 0, 1))), mask(false, true, false));
}

#[test]
fn leaving_the_loaded_world_is_blocked() {
    let m = floor_world();
    assert_eq!(collision(&m, &corners(v(14, 8, 5), v(1, 0, 0))), mask(false, true, true));
    assert_eq!(collision(&m, &corners(v(5, 8, 0), v(0, 0, -1))), mask(true, true, false));
    assert_eq!(collision(&m, &corners(v(5, 14, 5), v(0, 1, 0))), mask(true, false, true));
}

#[test]
fn a_box_inside_solid_ground_is_blocked_on_every_axis() {
    let m = ChunkManager::default();
    assert_eq!(collision(&m, &corners(v(0, 0, 0), v(1, 1, 1))), mask(false, false, false));
    assert_eq!(collision(&m, &corners(v(0, 0, 0), v(0, 0, 0))), mask(false, false, false));
}
