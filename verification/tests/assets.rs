use terravox::density::Density;
use terravox::height_map::{HeightMap, Picker, Texture};
use terravox::lod::Lod;
use terravox::math::{Point3, Vec3i, floor_div, floor_div_i64};
use terravox::mesh::Mesh;
use terravox::resource::Resource;

#[test]
fn cube_mesh_is_complete() {
    let cube = Mesh::cube();
    assert_eq!(cube.positions.len(), 24);
    assert_eq!(cube.normals.as_ref().unwrap().len(), 24);
    assert_eq!(cube.uvs.as_ref().unwrap().len(), 24);
    let indices = cube.indices.as_ref().unwrap();
    assert_eq!(indices.len(), 36);
    for i in indices.iter() {
        assert!(*i < 24);
    }
    assert_eq!(cube.indices_count(), 36);
}

#[test]
fn calculate_builds_unit_normals() {
    // one triangle in the xy plane: its normal is +z at unit length (256
    // sub-units), shared by all three vertices
    let mut mesh = Mesh {
        positions: vec![
            Point3::new(0, 0, 0),
            Point3::new(256, 0, 0),
            Point3::new(0, 256, 0),
        ],
        normals: None,
        uvs: None,
        indices: None,
    };
    mesh.calculate();
    let normals = mesh.normals.as_ref().unwrap();
    assert_eq!(normals.len(), 3);
    for n in normals.iter() {
        assert_eq!(*n, Point3::new(0, 0, 256));
    }
}

#[test]
fn calculate_leaves_existing_normals_alone() {
    let mut mesh = Mesh {
        positions: vec![Point3::new(0, 0, 0)],
        normals: Some(vec![Point3::new(7, 8, 9)]),
        uvs: None,
        indices: None,
    };
    mesh.calculate();
    assert_eq!(mesh.normals.as_ref().unwrap()[0], Point3::new(7, 8, 9));
}

#[test]
fn indices_count_prefers_indices() {
    let mesh = Mesh {
        positions: vec![Point3::new(0, 0, 0), Point3::new(1, 1, 1)],
        normals: None,
        uvs: None,
        indices: Some(vec![0, 1, 0]),
    };
    assert_eq!(mesh.indices_count(), 3);
    let soup = Mesh {
        positions: vec![Point3::new(0, 0, 0), Point3::new(1, 1, 1)],
        normals: None,
        uvs: None,
        indices: None,
    };
    assert_eq!(soup.indices_count(), 2);
}

#[test]
fn heightmap_from_texture_scales_16bit_values() {
    let texture = Texture {
        width: 2,
        height: 2,
        data: vec![1, 0, 0, 1, 255, 255, 16, 0],
    };
    let map = HeightMap::from_texture(&texture, 3);
    assert_eq!(map.pick(0, 0), 3 * 1);
    assert_eq!(map.pick(0, 1), 3 * 256);
    assert_eq!(map.pick(1, 0), 3 * 65535);
    assert_eq!(map.pick(1, 1), 3 * 16);
}

#[test]
fn heightmap_new_is_flat() {
    let map = HeightMap::new(3, 4);
    for x in 0..3 {
        for z in 0..4 {
            assert_eq!(map.pick(x, z), 0);
        }
    }
}

#[test]
fn picker_reads_heights_defensively() {
    let texture = Texture { width: 1, height: 1, data: vec![5, 0] };
    let map = HeightMap::from_texture(&texture, 2);
    assert_eq!(map.pick_height(0, 0), 10);
    assert_eq!(map.pick_height(7, 7), 0);
}

#[test]
fn resource_keeps_name_and_path() {
    let r = Resource::new(String::from("terrain"), String::from("assets/terrain.png"));
    assert_eq!(r.name().as_str(), "terrain");
    assert_eq!(r.path().as_str(), "assets/terrain.png");
}

#[test]
fn lod_scale_doubles_per_level() {
    assert_eq!(Lod(0).scale(), 1);
    assert_eq!(Lod(1).scale(), 2);
    assert_eq!(Lod(2).scale(), 4);
    assert_eq!(Lod(5).scale(), 32);
    assert_eq!(Lod(11).scale(), 2048);
}

#[test]
fn floor_division_rounds_down() {
    assert_eq!(floor_div(15, 16), 0);
    assert_eq!(floor_div(-15, 16), -1);
    assert_eq!(floor_div(-16, 16), -1);
    assert_eq!(floor_div(-17, 16), -2);
    assert_eq!(floor_div(16, 16), 1);
    assert_eq!(floor_div_i64(-1000, 2048 * 256), -1);
    assert_eq!(floor_div_i64(1000, 2048 * 256), 0);
}

#[test]
fn density_fallback_profile() {
    let d = Density::new(4, 4, 4, Vec3i::new(1, 1, 1));
    assert_eq!(d.value(0, 5, 0), -5 * 256); // empty above ground
    assert_eq!(d.value(50, 0, 50), 0); // ground level
    assert_eq!(d.value(0, -3, 0), 3 * 256); // solid below
}

#[test]
fn density_sampling_inside_the_box() {
    let mut d = Density::new(4, 4, 4, Vec3i::new(1, 1, 1));
    d.set(|x, y, z| (x + y + z) as i32);
    assert_eq!(d.value(0, 0, 0), 3); // lattice point (1, 1, 1)
    assert_eq!(d.value(2, 2, 2), 9); // lattice point (3, 3, 3)
    assert_eq!(d.value(3, 3, 3), -3 * 256); // outside: fallback
}
