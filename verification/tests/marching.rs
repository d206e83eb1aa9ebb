use terravox::marching::{MarchingCubes, tri_rows};
use terravox::voxel::VoxelGrid;

fn grid_from(n: usize, f: impl Fn(usize, usize, usize) -> i32) -> VoxelGrid {
    let mut values = Vec::new();
    for x in 0..n {
        for y in 0..n {
            for z in 0..n {
                values.push(f(x, y, z));
            }
        }
    }
    VoxelGrid::from_values(n, values)
}

#[test]
fn uniformly_empty_grid_yields_no_triangles() {
    let grid = grid_from(17, |_, _, _| 1000);
    let mc = MarchingCubes::default();
    assert_eq!(mc.polygonize(&grid).len(), 0);
}

#[test]
fn uniformly_solid_grid_yields_no_triangles() {
    let grid = grid_from(17, |_, _, _| -1000);
    let mc = MarchingCubes::default();
    assert_eq!(mc.polygonize(&grid).len(), 0);
}

#[test]
fn single_sign_change_lands_at_half_cell() {
    // one cell whose lower-x corners are solid at -k and upper-x corners
    // empty at +k: the crossing interpolates to exactly t = 0.5
    let grid = grid_from(2, |x, _, _| if x == 0 { -256 } else { 256 });
    let mc = MarchingCubes { size: 1, height: 1, iso_level: 0 };
    let positions = mc.polygonize(&grid);
    assert_eq!(positions.len(), 6); // one quad, two triangles
    for p in positions.iter() {
        assert_eq!(p.x, 128); // 0.5 of a cell in FP sub-units
        assert!(p.y == 0 || p.y == 256);
        assert!(p.z == 0 || p.z == 256);
    }
}

#[test]
fn flat_plane_fills_every_crossing_cell() {
    // density negative below the mid-plane: every cell straddling it emits
    // a quad, nothing else
    let grid = grid_from(17, |_, y, _| if y < 8 { -256 } else { 256 });
    let mc = MarchingCubes::default();
    let positions = mc.polygonize(&grid);
    // 16 x 16 crossing cells, 2 triangles each
    assert_eq!(positions.len(), 16 * 16 * 2 * 3);
    for p in positions.iter() {
        assert_eq!(p.y, 7 * 256 + 128);
    }
}

#[test]
fn sphere_polygonization_is_deterministic() {
    let center = 8i64;
    let r2 = 36i64; // radius 6 in lattice units
    let f = |x: usize, y: usize, z: usize| {
        let dx = x as i64 - center;
        let dy = y as i64 - center;
        let dz = z as i64 - center;
        ((dx * dx + dy * dy + dz * dz) - r2) as i32 * 16
    };
    let grid = grid_from(17, f);
    let mc = MarchingCubes::default();
    let first = mc.polygonize(&grid);
    let second = mc.polygonize(&grid);
    assert!(first.len() > 0);
    assert_eq!(first.len() % 3, 0);
    assert_eq!(first.len(), second.len());
    for (a, b) in first.iter().zip(second.iter()) {
        assert_eq!(a, b);
    }
}

#[test]
fn case_table_is_empty_only_at_the_extremes() {
    assert_eq!(tri_rows(0).len(), 0);
    assert_eq!(tri_rows(255).len(), 0);
    for mask in 1..255u16 {
        let rows = tri_rows(mask as u8);
        assert!(rows.len() >= 3);
        assert_eq!(rows.len() % 3, 0);
        for e in rows.iter() {
            assert!(*e < 12);
        }
    }
}

#[test]
fn single_corner_yields_one_triangle() {
    let grid = grid_from(2, |x, y, z| if x == 0 && y == 0 && z == 0 { -100 } else { 100 });
    let mc = MarchingCubes { size: 1, height: 1, iso_level: 0 };
    assert_eq!(mc.polygonize(&grid).len(), 3);
}

#[test]
fn iso_level_shifts_the_surface() {
    // all samples positive, but an iso-level above them makes everything
    // solid: still no surface, because there is no crossing
    let grid = grid_from(5, |_, _, _| 10);
    let below = MarchingCubes { size: 4, height: 4, iso_level: 5 };
    assert_eq!(below.polygonize(&grid).len(), 0);
    let above = MarchingCubes { size: 4, height: 4, iso_level: 20 };
    assert_eq!(above.polygonize(&grid).len(), 0);
}

#[test]
fn asymmetric_magnitudes_shift_the_crossing() {
    // corners at -768 and +256: the crossing sits three quarters along
    let grid = grid_from(2, |x, _, _| if x == 0 { -768 } else { 256 });
    let mc = MarchingCubes { size: 1, height: 1, iso_level: 0 };
    let positions = mc.polygonize(&grid);
    assert_eq!(positions.len(), 6);
    for p in positions.iter() {
        assert_eq!(p.x, 192);
    }
}
