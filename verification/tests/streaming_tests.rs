use voxel_world::chunk::{Chunk, NeedsMesh, NeedsTerrain};
use voxel_world::chunk_data::ChunkData;
use voxel_world::ivec::IVec3;
use voxel_world::manager::ChunkManager;
use voxel_world::store::RenderEntry;
use voxel_world::streaming::{is_out_of_range, load_chunks, lod_for, unload_chunks, LoadRequest};

fn v(x: i32, y: i32, z: i32) -> IVec3 {
    IVec3::new(x, y, z)
}

/// Carries out the requests as the owner of the entities would: a fresh
/// identifier for every spawn, recorded in the store.
fn carry_out(m: &mut ChunkManager, requests: &[LoadRequest], next: &mut u64) {
    for r in requests {
        if let LoadRequest::Spawn { chunk, mesh, .. } = r {
            m.insert_mesh(chunk.key, *next, mesh.0);
            *next += 1;
        }
    }
}

fn spawned_keys(requests: &[LoadRequest]) -> Vec<IVec3> {
    requests
        .iter()
        .filter_map(|r| match r {
            LoadRequest::Spawn { chunk, .. } => Some(chunk.key),
            _ => None,
        })
        .collect()
}

#[test]
fn lod_grows_with_the_larger_distance() {
    assert_eq!(lod_for(0, 0), 0);
    assert_eq!(lod_for(2, -2), 0);
    assert_eq!(lod_for(3, 0), 1);
    assert_eq!(lod_for(-3, 1), 1);
    assert_eq!(lod_for(1, -5), 1);
    assert_eq!(lod_for(5, -6), 2);
    assert_eq!(lod_for(8, 8), 2);
    assert_eq!(lod_for(-8, 0), 2);
    assert_eq!(lod_for(9, 0), 3);
    assert_eq!(lod_for(0, -12), 4);
}

#[test]
fn lod_is_capped() {
    assert_eq!(lod_for(15, 0), 4);
    assert_eq!(lod_for(100, -7), 4);
    assert_eq!(lod_for(i32::MIN, i32::MAX), 4);
}

#[test]
fn first_load_asks_for_every_chunk_in_range() {
    let mut m = ChunkManager::default();
    let requests = load_chunks(&mut m, v(0, 5, 0));
    assert_eq!(requests.len(), 17 * 8 * 17);
    assert_eq!(
        requests[0],
        LoadRequest::Spawn {
            chunk: Chunk { key: v(-8, 0, -8) },
            mesh: NeedsMesh(2),
            terrain: Some(NeedsTerrain),
        }
    );
    assert_eq!(
        requests[1],
        LoadRequest::Spawn {
            chunk: Chunk { key: v(-8, 0, -7) },
            mesh: NeedsMesh(2),
            terrain: Some(NeedsTerrain),
        }
    );
    assert_eq!(
        requests[17],
        LoadRequest::Spawn {
            chunk: Chunk { key: v(-8, 1, -8) },
            mesh: NeedsMesh(2),
            terrain: Some(NeedsTerrain),
        }
    );
    let keys = spawned_keys(&requests);
    assert_eq!(keys.len(), requests.len());
    assert!(keys.contains(&v(0, 0, 0)));
    assert_eq!(keys[keys.len() - 1], v(8, 7, 8));
}

#[test]
fn a_chunk_is_unloaded_until_streaming_reaches_it() {
    let mut m = ChunkManager::default();
    let key = v(3, 2, -4);
    assert!(m.get(key).is_none());
    load_chunks(&mut m, v(0, 0, 0));
    assert_eq!(m.get(key), Some(&ChunkData::default()));
    assert!(!m.is_generated(key));
    assert!(!m.get(key).unwrap().generated);
}

#[test]
fn the_edge_of_render_distance() {
    let mut m = ChunkManager::default();
    let player = v(10, 3, -20);
    let requests = load_chunks(&mut m, player);
    let keys = spawned_keys(&requests);
    for y in 0..8 {
        for at in [v(18, y, -20), v(2, y, -20), v(10, y, -12), v(10, y, -28), v(18, y, -28)] {
            assert!(keys.contains(&at));
            assert!(m.is_loaded(at));
        }
        for at in [v(19, y, -20), v(1, y, -20), v(10, y, -11), v(10, y, -29), v(19, y, -29)] {
            assert!(!keys.contains(&at));
            assert!(!m.is_loaded(at));
        }
    }
    assert!(!m.is_loaded(v(10, 8, -20)));
    assert!(!m.is_loaded(v(10, -1, -20)));
    let mut next = 1;
    carry_out(&mut m, &requests, &mut next);
    assert!(m.entity_created(v(18, 0, -20)));
    assert!(!m.entity_created(v(19, 0, -20)));
}

#[test]
fn streaming_records_nothing_before_the_entity_exists() {
    let mut m = ChunkManager::default();
    load_chunks(&mut m, v(0, 0, 0));
    assert!(!m.entity_created(v(0, 0, 0)));
    let again = load_chunks(&mut m, v(0, 0, 0));
    assert_eq!(again.len(), 17 * 8 * 17);
}

#[test]
fn a_second_load_in_place_asks_for_nothing() {
    let mut m = ChunkManager::default();
    let mut next = 1;
    let requests = load_chunks(&mut m, v(0, 0, 0));
    carry_out(&mut m, &requests, &mut next);
    assert!(load_chunks(&mut m, v(0, 0, 0)).is_empty());
    assert!(load_chunks(&mut m, v(0, 7, 0)).is_empty());
    assert_eq!(m.mesh_entry(v(0, 0, 0)).map(|e| e.lod), Some(0));
    assert_eq!(m.mesh_entry(v(-8, 3, 2)).map(|e| e.lod), Some(2));
    assert_eq!(m.mesh_entry(v(4, 7, -1)).map(|e| e.lod), Some(1));
}

#[test]
fn moving_asks_for_new_chunks_and_new_meshes() {
    let mut m = ChunkManager::default();
    let mut next = 1;
    let requests = load_chunks(&mut m, v(0, 0, 0));
    carry_out(&mut m, &requests, &mut next);
    let origin = m.mesh_entry(v(0, 0, 0)).unwrap();
    let requests = load_chunks(&mut m, v(3, 0, 0));
    let keys = spawned_keys(&requests);
    assert_eq!(keys.len(), 3 * 8 * 17);
    assert!(keys.iter().all(|k| (9..=11).contains(&k.x)));
    assert!(requests.contains(&LoadRequest::Remesh { entity: origin.entity, mesh: NeedsMesh(1) }));
    assert_eq!(m.mesh_entry(v(0, 0, 0)), Some(RenderEntry { entity: origin.entity, lod: 1 }));
    let kept = m.mesh_entry(v(3, 0, 5)).unwrap();
    assert_eq!(kept.lod, 1);
    assert!(!requests.contains(&LoadRequest::Remesh { entity: kept.entity, mesh: NeedsMesh(1) }));
    let behind = m.mesh_entry(v(-8, 0, 0)).unwrap();
    assert_eq!(behind.lod, 2);
}

#[test]
fn a_generated_chunk_is_not_asked_to_generate_again() {
    let mut m = ChunkManager::default();
    let mut done = ChunkData::default();
    done.generated = true;
    m.insert_chunk(v(1, 1, 1), done.clone());
    let requests = load_chunks(&mut m, v(0, 0, 0));
    assert!(requests.contains(&LoadRequest::Spawn {
        chunk: Chunk { key: v(1, 1, 1) },
        mesh: NeedsMesh(0),
        terrain: None,
    }));
    assert!(requests.contains(&LoadRequest::Spawn {
        chunk: Chunk { key: v(1, 1, 2) },
        mesh: NeedsMesh(0),
        terrain: Some(NeedsTerrain),
    }));
    assert_eq!(m.get(v(1, 1, 1)), Some(&done));
}

#[test]
fn out_of_range_is_beyond_render_distance() {
    let player = v(5, 0, 5);
    assert!(!is_out_of_range(v(5, 0, 5), player));
    assert!(!is_out_of_range(v(13, 7, -3), player));
    assert!(is_out_of_range(v(14, 0, 5), player));
    assert!(is_out_of_range(v(-4, 0, 5), player));
    assert!(is_out_of_range(v(5, 0, 14), player));
    assert!(is_out_of_range(v(5, 0, -4), player));
    assert!(is_out_of_range(v(5, -1, 5), player));
    assert!(!is_out_of_range(v(5, 8, 5), player));
    assert!(is_out_of_range(v(5, 9, 5), player));
    assert!(is_out_of_range(v(i32::MIN, 0, 0), v(i32::MAX, 0, 0)));
}

#[test]
fn unloading_gives_up_what_is_out_of_range() {
    let mut m = ChunkManager::default();
    let listed = vec![
        (1, Chunk { key: v(0, 0, 0) }),
        (2, Chunk { key: v(9, 3, 0) }),
        (3, Chunk { key: v(-9, 0, 0) }),
        (4, Chunk { key: v(8, 0, 8) }),
        (5, Chunk { key: v(0, 0, 9) }),
    ];
    for (entity, chunk) in &listed {
        m.insert_chunk(chunk.key, ChunkData::default());
        m.insert_mesh(chunk.key, *entity, 0);
    }
    m.insert_chunk(v(20, 0, 20), ChunkData::default());
    m.insert_mesh(v(20, 0, 20), 6, 0);
    let gone = unload_chunks(&mut m, v(0, 2, 0), &listed);
    assert_eq!(gone, vec![2, 3, 5]);
    for key in [v(9, 3, 0), v(-9, 0, 0), v(0, 0, 9)] {
        assert!(!m.entity_created(key));
        assert!(!m.is_loaded(key));
    }
    for key in [v(0, 0, 0), v(8, 0, 8), v(20, 0, 20)] {
        assert!(m.entity_created(key));
        assert!(m.is_loaded(key));
    }
}

#[test]
fn unloading_in_range_changes_nothing() {
    let mut m = ChunkManager::default();
    let mut next = 1;
    let requests = load_chunks(&mut m, v(0, 0, 0));
    carry_out(&mut m, &requests, &mut next);
    let listed: Vec<(u64, Chunk)> = spawned_keys(&requests)
        .into_iter()
        .map(|key| (m.mesh_entry(key).unwrap().entity, Chunk { key }))
        .collect();
    assert!(unload_chunks(&mut m, v(0, 0, 0), &listed).is_empty());
    let gone = unload_chunks(&mut m, v(1, 0, 0), &listed);
    assert_eq!(gone.len(), 8 * 17);
    assert!(!m.entity_created(v(-8, 0, 0)));
    assert!(!m.is_loaded(v(-8, 0, 0)));
    assert!(m.entity_created(v(-7, 0, 0)));
    assert!(unload_chunks(&mut m, v(1, 0, 0), &[].to_vec()).is_empty());
}
