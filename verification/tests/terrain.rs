use terravox::chunk::Chunk;
use terravox::math::{Point3, Vec3i};
use terravox::terrain::{Spawner, Terrain, spawn};
use terravox::voxel::VoxelGrid;

fn half_space(_x: i32, y: i32, _z: i32) -> i32 {
    if y < 0 { -256 } else { 256 }
}

fn grid_from(n: usize, f: impl Fn(usize, usize, usize) -> i32) -> VoxelGrid {
    let mut values = Vec::new();
    for x in 0..n {
        for y in 0..n {
            for z in 0..n {
                values.push(f(x, y, z));
            }
        }
    }
    VoxelGrid::from_values(n, values)
}

#[test]
fn flat_half_space_end_to_end() {
    let mut terrain = Terrain::new();
    let mut cache = Spawner::new();
    let viewer = Point3::new(0, 0, 0);
    let jobs = spawn(&mut terrain, &mut cache, &half_space, viewer, 1);
    assert!(terrain.populated);
    assert!(!jobs.is_empty());
    // one build per chunk: no coordinate appears twice
    for i in 0..jobs.len() {
        for j in (i + 1)..jobs.len() {
            assert_ne!(jobs[i].position, jobs[j].position);
        }
    }
    for job in jobs.iter() {
        // only chunks straddling the ground plane produce meshes
        let scale = 1i64 << job.lod;
        let half = 2048 / scale / 2;
        assert!((job.position.y as i64) - half < 0);
        assert!(0 <= (job.position.y as i64) + half);
        assert_eq!(job.data.positions.len() % 3, 0);
        assert!(!job.data.positions.is_empty());
        // every vertex lies in the single cell row crossing y = 0
        let step = half / 8;
        let base = ((job.position.y as i64) - half) * 256;
        for p in job.data.positions.iter() {
            let wy = base + p.y * step;
            assert!(wy.abs() <= step * 256);
        }
    }
}

#[test]
fn small_moves_trigger_no_rebuilds() {
    let mut terrain = Terrain::new();
    terrain.populated = true; // an empty field: this test is about the early exit
    let mut cache = Spawner::new();
    let v0 = Point3::new(0, 0, 0);
    let _ = spawn(&mut terrain, &mut cache, &half_space, v0, 1);
    assert_eq!(terrain.last_viewer_position, Some(v0));
    // under the movement threshold (half a chunk, 2048 sub-units): nothing happens
    let v1 = Point3::new(1000, 0, 0);
    let jobs = spawn(&mut terrain, &mut cache, &half_space, v1, 1);
    assert!(jobs.is_empty());
    assert_eq!(terrain.last_viewer_position, Some(v0));
    // beyond it the update runs and adopts the new position
    let v2 = Point3::new(3000, 0, 0);
    let _ = spawn(&mut terrain, &mut cache, &half_space, v2, 1);
    assert_eq!(terrain.last_viewer_position, Some(v2));
    // a level-of-detail change forces an update even without movement
    let _ = spawn(&mut terrain, &mut cache, &half_space, v2, 2);
    assert_eq!(terrain.last_lod, 2);
}

#[test]
fn selector_emits_cursor_when_unsplit() {
    // a fresh terrain has no split nodes: the selector returns exactly the
    // enclosing chunk coordinate it started from
    let terrain = Terrain::new();
    let viewer = Point3::new(0, 0, 0);
    let cursor = Vec3i::new(512, 512, 512);
    let r = terrain.chunks(&viewer, &cursor, 6 * 512 * 512 * 65536, 512, 1, 3);
    assert_eq!(r.len(), 1);
    assert_eq!(r[0], cursor);
}

#[test]
fn hollow_chunk_skips_mesh_work() {
    let grid = grid_from(17, |_, _, _| 500);
    let mut chunk = Chunk::new(Vec3i::new(0, 0, 0), 1);
    assert!(chunk.changed && !chunk.hollow);
    let built = chunk.polygonize(&grid);
    assert!(built.is_none());
    assert!(chunk.hollow);
    assert!(chunk.changed); // still awaiting a build if the data ever changes
}

#[test]
fn built_chunk_clears_changed_and_tints_by_level() {
    let grid = grid_from(17, |_, y, _| if y < 8 { -300 } else { 300 });
    let mut chunk = Chunk::new(Vec3i::new(0, 0, 0), 2);
    let mesh = chunk.polygonize(&grid).unwrap();
    assert!(!chunk.changed);
    assert!(!chunk.hollow);
    let n = mesh.positions.len();
    assert!(n > 0 && n % 3 == 0);
    assert_eq!(mesh.normals.as_ref().unwrap().len(), n);
    let uvs = mesh.uvs.as_ref().unwrap();
    assert_eq!(uvs.len(), n);
    for uv in uvs.iter() {
        assert_eq!(*uv, [256, 256]); // the level-2 tint
    }
    assert!(mesh.indices.is_none()); // unwelded triangle soup
}

#[test]
fn chunk_lifecycle_flags_and_tile() {
    let c = Chunk::new(Vec3i::new(3, -4, 5), 7);
    assert_eq!(c.position, Vec3i::new(3, -4, 5));
    assert_eq!(c.lod, 7);
    assert!(c.mesh.is_none());
    assert!(c.changed);
    assert!(!c.hollow);
    assert!(c.disabled);
    let t = c.tile();
    assert_eq!(t.position, c.position);
    assert_eq!(t.lod, c.lod);
    assert_eq!(Chunk::size(), 16);
}

#[test]
fn cache_reconciliation_disables_and_reenables() {
    let mut cache = Spawner::new();
    let k1 = Vec3i::new(1, 2, 3);
    let k2 = Vec3i::new(-1, -2, -3);
    let mut c1 = Chunk::new(k1, 1);
    c1.disabled = false;
    cache.set_chunk(k1, c1);
    cache.set_chunk(k2, Chunk::new(k2, 2));
    assert!(!cache.get(&k1).unwrap().disabled);
    cache.disable_all();
    assert!(cache.get(&k1).unwrap().disabled);
    assert!(cache.get(&k2).unwrap().disabled);
    // the other fields survive reconciliation
    assert_eq!(cache.get(&k1).unwrap().lod, 1);
    cache.set_mesh(&k1, 99);
    assert_eq!(cache.get(&k1).unwrap().mesh, Some(99));
    assert!(cache.get(&Vec3i::new(9, 9, 9)).is_none());
}

#[test]
fn selector_descends_through_split_nodes() {
    let mut terrain = Terrain::new();
    // storing a level-2 grid splits the level-1 node (512, 512, 512) on the way
    let grid = grid_from(17, |_, _, _| 100);
    terrain.octree.store(Vec3i::new(768, 768, 768), grid);
    let cursor = Vec3i::new(512, 512, 512);
    let viewer = Point3::new(512 * 256, 512 * 256, 512 * 256);
    let r = terrain.chunks(&viewer, &cursor, 6 * 512 * 512 * 65536, 512, 1, 3);
    // the split node refines into its 8 children, none of which is split
    assert_eq!(r.len(), 8);
    assert!(r.contains(&Vec3i::new(768, 768, 768)));
    assert!(r.contains(&Vec3i::new(256, 256, 256)));
    assert!(!r.contains(&cursor));
}
