use voxel_world::block::{AtlasPoint, Block, Face};
use voxel_world::ivec::IVec3;

const FACES: [Face; 6] = [Face::TOP, Face::BOTTOM, Face::EAST, Face::WEST, Face::NORTH, Face::SOUTH];

fn pt(u: u32, v: u32) -> AtlasPoint {
    AtlasPoint { u, v }
}

#[test]
fn only_air_is_transparent() {
    assert!(Block::Air.transparent());
    assert!(!Block::Grass.transparent());
    assert!(!Block::Dirt.transparent());
    assert!(!Block::Stone.transparent());
}

#[test]
fn everything_but_air_is_full() {
    assert!(!Block::Air.full());
    assert!(Block::Grass.full());
    assert!(Block::Dirt.full());
    assert!(Block::Stone.full());
}

#[test]
fn default_block_is_air() {
    assert_eq!(Block::default(), Block::Air);
}

#[test]
fn atlas_tiles_by_block_and_face() {
    assert_eq!(Block::Grass.atlas_tile(Face::TOP), Some((0, 1)));
    assert_eq!(Block::Grass.atlas_tile(Face::BOTTOM), Some((1, 0)));
    for face in [Face::EAST, Face::WEST, Face::NORTH, Face::SOUTH] {
        assert_eq!(Block::Grass.atlas_tile(face), Some((0, 0)));
    }
    for face in FACES {
        assert_eq!(Block::Dirt.atlas_tile(face), Some((1, 0)));
        assert_eq!(Block::Stone.atlas_tile(face), Some((2, 0)));
        assert_eq!(Block::Air.atlas_tile(face), None);
    }
}

#[test]
fn uvs_of_grass_top_span_the_tile() {
    let uvs = Block::Grass.uvs(Face::TOP).unwrap();
    assert_eq!(uvs, [pt(0, 16), pt(15, 16), pt(15, 31), pt(0, 31)]);
}

#[test]
fn uvs_of_stone_east_and_north() {
    let want = [pt(32, 0), pt(47, 0), pt(47, 15), pt(32, 15)];
    assert_eq!(Block::Stone.uvs(Face::EAST).unwrap(), want);
    assert_eq!(Block::Stone.uvs(Face::NORTH).unwrap(), want);
    assert_eq!(Block::Stone.uvs(Face::TOP).unwrap(), want);
    assert_eq!(Block::Stone.uvs(Face::BOTTOM).unwrap(), want);
}

#[test]
fn uvs_are_reversed_on_west_and_south() {
    let want = [pt(16, 15), pt(31, 15), pt(31, 0), pt(16, 0)];
    assert_eq!(Block::Dirt.uvs(Face::WEST).unwrap(), want);
    assert_eq!(Block::Dirt.uvs(Face::SOUTH).unwrap(), want);
    let mut east = Block::Dirt.uvs(Face::EAST).unwrap();
    east.reverse();
    assert_eq!(east, want);
}

#[test]
fn air_has_no_uvs() {
    for face in FACES {
        assert_eq!(Block::Air.uvs(face), None);
    }
}

#[test]
fn fallback_uvs_are_the_last_tile() {
    let want = [pt(240, 240), pt(256, 240), pt(256, 256), pt(240, 256)];
    for face in FACES {
        assert_eq!(Block::Air.uvs_or_fallback(face), want);
    }
    assert_eq!(Block::Grass.uvs_or_fallback(Face::TOP), Block::Grass.uvs(Face::TOP).unwrap());
}

#[test]
fn face_normals_are_unit_vectors() {
    assert_eq!(Face::TOP.normal(), IVec3::new(0, 1, 0));
    assert_eq!(Face::BOTTOM.normal(), IVec3::new(0, -1, 0));
    assert_eq!(Face::EAST.normal(), IVec3::new(1, 0, 0));
    assert_eq!(Face::WEST.normal(), IVec3::new(-1, 0, 0));
    assert_eq!(Face::NORTH.normal(), IVec3::new(0, 0, 1));
    assert_eq!(Face::SOUTH.normal(), IVec3::new(0, 0, -1));
}

#[test]
fn faces_are_vertical_or_side() {
    for face in FACES {
        assert!(face.is_any());
        assert_ne!(face.is_vertical(), face.is_side());
    }
    assert!(Face::TOP.is_vertical());
    assert!(Face::BOTTOM.is_vertical());
    assert!(Face::EAST.is_side());
    assert!(Face::WEST.is_side());
    assert!(Face::NORTH.is_side());
    assert!(Face::SOUTH.is_side());
}

#[test]
fn ivec_plus_adds_components() {
    assert_eq!(IVec3::new(1, -2, 3).plus(IVec3::new(10, 20, -30)), IVec3::new(11, 18, -27));
}
