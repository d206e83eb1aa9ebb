//! Marching-cubes surface extraction: converts one cube of scalar samples
//! into an unwelded triangle soup along the iso-surface.
//!
//! Cell corners are numbered 0..8 with bit 0 = +x, bit 1 = +y, bit 2 = +z;
//! cell edges 0..12 connect corners differing in exactly one axis, in
//! lexicographic order of (lower corner, axis).  A corner is inside the
//! solid exactly when its sample is strictly below the iso-level.

use vstd::prelude::*;
use crate::math::{FP, Point3};
use crate::voxel::{VoxelGrid, VAL_MAX, uniform_inside, uniform_outside};

verus! {

/// x offset (0 or 1) of corner `c` within its cell.
pub open spec fn corner_x(c: int) -> int {
    c % 2
}

/// y offset of corner `c`.
pub open spec fn corner_y(c: int) -> int {
    c / 2 % 2
}

/// z offset of corner `c`.
pub open spec fn corner_z(c: int) -> int {
    c / 4 % 2
}

fn corner_offset(c: usize) -> (r: (usize, usize, usize))
    requires
        c < 8,
    ensures
        r.0 == corner_x(c as int),
        r.1 == corner_y(c as int),
        r.2 == corner_z(c as int),
        r.0 <= 1 && r.1 <= 1 && r.2 <= 1,
{
    (c % 2, c / 2 % 2, c / 4 % 2)
}

/// The two corners of edge `e`, lower corner first; they differ in exactly
/// one axis bit.
pub open spec fn spec_edge_corners(e: int) -> (int, int) {
    if e == 0 { (0, 1) }
    else if e == 1 { (0, 2) }
    else if e == 2 { (0, 4) }
    else if e == 3 { (1, 3) }
    else if e == 4 { (1, 5) }
    else if e == 5 { (2, 3) }
    else if e == 6 { (2, 6) }
    else if e == 7 { (3, 7) }
    else if e == 8 { (4, 5) }
    else if e == 9 { (4, 6) }
    else if e == 10 { (5, 7) }
    else { (6, 7) }
}

fn edge_corners(e: usize) -> (r: (usize, usize))
    requires
        e < 12,
    ensures
        (r.0 as int, r.1 as int) == spec_edge_corners(e as int),
        r.0 < 8,
        r.1 < 8,
        corner_x(r.0 as int) <= corner_x(r.1 as int),
        corner_y(r.0 as int) <= corner_y(r.1 as int),
        corner_z(r.0 as int) <= corner_z(r.1 as int),
{
    match e {
        0 => (0, 1),
        1 => (0, 2),
        2 => (0, 4),
        3 => (1, 3),
        4 => (1, 5),
        5 => (2, 3),
        6 => (2, 6),
        7 => (3, 7),
        8 => (4, 5),
        9 => (4, 6),
        10 => (5, 7),
        _ => (6, 7),
    }
}

/// The interpolation parameter of the iso-crossing on an edge running from
/// sample `v0` to `v1`, in `FP` sub-units, clamped to [0, FP] so that a
/// degenerate edge never yields a point outside the cell.
pub open spec fn spec_interp_t(iso: int, v0: int, v1: int) -> int {
    if v0 == v1 {
        0
    } else {
        let num = if v1 > v0 { iso - v0 } else { v0 - iso };
        let den = if v1 > v0 { v1 - v0 } else { v0 - v1 };
        if num <= 0 {
            0
        } else if num >= den {
            256
        } else {
            num * 256 / den
        }
    }
}

fn interp_t(iso: i32, v0: i32, v1: i32) -> (t: i64)
    requires
        -VAL_MAX <= iso <= VAL_MAX,
        -VAL_MAX <= v0 <= VAL_MAX,
        -VAL_MAX <= v1 <= VAL_MAX,
    ensures
        t == spec_interp_t(iso as int, v0 as int, v1 as int),
        0 <= t <= 256,
{
    if v0 == v1 {
        return 0;
    }
    let num: i64 = if v1 > v0 {
        iso as i64 - v0 as i64
    } else {
        v0 as i64 - iso as i64
    };
    let den: i64 = if v1 > v0 {
        v1 as i64 - v0 as i64
    } else {
        v0 as i64 - v1 as i64
    };
    if num <= 0 {
        0
    } else if num >= den {
        256
    } else {
        proof {
            vstd::arithmetic::div_mod::lemma_div_pos_is_pos(num * 256, den as int);
            vstd::arithmetic::div_mod::lemma_multiply_divide_lt(num * 256, den as int, 256);
        }
        (num * 256) / den
    }
}

/// The iso-crossing point on edge `e` of the cell at (cx, cy, cz), in
/// fixed-point lattice coordinates (`FP` sub-units per lattice step).
/// Kept opaque: callers reason through `edge_vertex`'s contract.
#[verifier::opaque]
pub open spec fn spec_edge_vertex(
    g: &VoxelGrid,
    iso: int,
    cx: int,
    cy: int,
    cz: int,
    e: int,
) -> Point3 {
    let a = spec_edge_corners(e).0;
    let b = spec_edge_corners(e).1;
    let va = g.value(cx + corner_x(a), cy + corner_y(a), cz + corner_z(a));
    let vb = g.value(cx + corner_x(b), cy + corner_y(b), cz + corner_z(b));
    let t = spec_interp_t(iso, va, vb);
    Point3 {
        x: ((cx + corner_x(a)) * 256 + if corner_x(b) > corner_x(a) { t } else { 0 }) as i64,
        y: ((cy + corner_y(a)) * 256 + if corner_y(b) > corner_y(a) { t } else { 0 }) as i64,
        z: ((cz + corner_z(a)) * 256 + if corner_z(b) > corner_z(a) { t } else { 0 }) as i64,
    }
}

fn edge_vertex(grid: &VoxelGrid, iso: i32, cx: usize, cy: usize, cz: usize, e: usize) -> (p: Point3)
    requires
        grid.wf(),
        e < 12,
        cx + 1 < grid.spec_n(),
        cy + 1 < grid.spec_n(),
        cz + 1 < grid.spec_n(),
        -VAL_MAX <= iso <= VAL_MAX,
    ensures
        p == spec_edge_vertex(grid, iso as int, cx as int, cy as int, cz as int, e as int),
        0 <= p.x <= (grid.spec_n() - 1) * FP,
        0 <= p.y <= (grid.spec_n() - 1) * FP,
        0 <= p.z <= (grid.spec_n() - 1) * FP,
{
    proof {
        reveal(spec_edge_vertex);
        grid.lemma_wf_bounds();
    }
    let (a, b) = edge_corners(e);
    let (ax, ay, az) = corner_offset(a);
    let (bx, by, bz) = corner_offset(b);
    let va = grid.at(cx + ax, cy + ay, cz + az);
    let vb = grid.at(cx + bx, cy + by, cz + bz);
    let t = interp_t(iso, va, vb);
    let x: i64 = ((cx + ax) as i64) * 256 + (if bx > ax { t } else { 0 });
    let y: i64 = ((cy + ay) as i64) * 256 + (if by > ay { t } else { 0 });
    let z: i64 = ((cz + az) as i64) * 256 + (if bz > az { t } else { 0 });
    Point3 { x, y, z }
}

/// All 8 samples at the corners of the cell at (cx, cy, cz) are at or above
/// `iso`: the cell is entirely empty space.
pub open spec fn cell_outside(g: &VoxelGrid, iso: int, cx: int, cy: int, cz: int) -> bool {
    forall|dx: int, dy: int, dz: int|
        0 <= dx <= 1 && 0 <= dy <= 1 && 0 <= dz <= 1 ==> #[trigger] g.value(
            cx + dx,
            cy + dy,
            cz + dz,
        ) >= iso
}

/// All 8 corner samples are below `iso`: the cell is entirely solid.
pub open spec fn cell_inside(g: &VoxelGrid, iso: int, cx: int, cy: int, cz: int) -> bool {
    forall|dx: int, dy: int, dz: int|
        0 <= dx <= 1 && 0 <= dy <= 1 && 0 <= dz <= 1 ==> #[trigger] g.value(
            cx + dx,
            cy + dy,
            cz + dz,
        ) < iso
}

/// The iso-surface crosses this cell.
pub open spec fn cell_mixed(g: &VoxelGrid, iso: int, cx: int, cy: int, cz: int) -> bool {
    !cell_outside(g, iso, cx, cy, cz) && !cell_inside(g, iso, cx, cy, cz)
}

/// The 8-bit configuration of the cell at (cx, cy, cz): bit `c` is set
/// exactly when corner `c` is inside the solid.
pub open spec fn spec_cell_mask(g: &VoxelGrid, iso: int, cx: int, cy: int, cz: int) -> int {
    (if g.value(cx, cy, cz) < iso { 1int } else { 0int })
        + (if g.value(cx + 1, cy, cz) < iso { 2int } else { 0int })
        + (if g.value(cx, cy + 1, cz) < iso { 4int } else { 0int })
        + (if g.value(cx + 1, cy + 1, cz) < iso { 8int } else { 0int })
        + (if g.value(cx, cy, cz + 1) < iso { 16int } else { 0int })
        + (if g.value(cx + 1, cy, cz + 1) < iso { 32int } else { 0int })
        + (if g.value(cx, cy + 1, cz + 1) < iso { 64int } else { 0int })
        + (if g.value(cx + 1, cy + 1, cz + 1) < iso { 128int } else { 0int })
}

fn cell_mask(grid: &VoxelGrid, iso: i32, cx: usize, cy: usize, cz: usize) -> (m: u8)
    requires
        grid.wf(),
        cx + 1 < grid.spec_n(),
        cy + 1 < grid.spec_n(),
        cz + 1 < grid.spec_n(),
    ensures
        m == spec_cell_mask(grid, iso as int, cx as int, cy as int, cz as int),
        (m == 0) <==> cell_outside(grid, iso as int, cx as int, cy as int, cz as int),
        (m == 255) <==> cell_inside(grid, iso as int, cx as int, cy as int, cz as int),
{
    proof {
        grid.lemma_wf_bounds();
    }
    let v0 = grid.at(cx, cy, cz);
    let v1 = grid.at(cx + 1, cy, cz);
    let v2 = grid.at(cx, cy + 1, cz);
    let v3 = grid.at(cx + 1, cy + 1, cz);
    let v4 = grid.at(cx, cy, cz + 1);
    let v5 = grid.at(cx + 1, cy, cz + 1);
    let v6 = grid.at(cx, cy + 1, cz + 1);
    let v7 = grid.at(cx + 1, cy + 1, cz + 1);
    let mut m: u8 = 0;
    if v0 < iso { m = m + 1; }
    if v1 < iso { m = m + 2; }
    if v2 < iso { m = m + 4; }
    if v3 < iso { m = m + 8; }
    if v4 < iso { m = m + 16; }
    if v5 < iso { m = m + 32; }
    if v6 < iso { m = m + 64; }
    if v7 < iso { m = m + 128; }
    proof {
        let gi = iso as int;
        let a = cx as int;
        let b = cy as int;
        let c = cz as int;
        if m == 0 {
            assert forall|dx: int, dy: int, dz: int|
                0 <= dx <= 1 && 0 <= dy <= 1 && 0 <= dz <= 1 implies #[trigger] grid.value(
                a + dx,
                b + dy,
                c + dz,
            ) >= gi by {}
        }
        if m == 255 {
            assert forall|dx: int, dy: int, dz: int|
                0 <= dx <= 1 && 0 <= dy <= 1 && 0 <= dz <= 1 implies #[trigger] grid.value(
                a + dx,
                b + dy,
                c + dz,
            ) < gi by {}
        }
        if cell_outside(grid, gi, a, b, c) {
            assert(grid.value(a + 0, b + 0, c + 0) >= gi);
            assert(grid.value(a + 1, b + 0, c + 0) >= gi);
            assert(grid.value(a + 0, b + 1, c + 0) >= gi);
            assert(grid.value(a + 1, b + 1, c + 0) >= gi);
            assert(grid.value(a + 0, b + 0, c + 1) >= gi);
            assert(grid.value(a + 1, b + 0, c + 1) >= gi);
            assert(grid.value(a + 0, b + 1, c + 1) >= gi);
            assert(grid.value(a + 1, b + 1, c + 1) >= gi);
        }
        if cell_inside(grid, gi, a, b, c) {
            assert(grid.value(a + 0, b + 0, c + 0) < gi);
            assert(grid.value(a + 1, b + 0, c + 0) < gi);
            assert(grid.value(a + 0, b + 1, c + 0) < gi);
            assert(grid.value(a + 1, b + 1, c + 0) < gi);
            assert(grid.value(a + 0, b + 0, c + 1) < gi);
            assert(grid.value(a + 1, b + 0, c + 1) < gi);
            assert(grid.value(a + 0, b + 1, c + 1) < gi);
            assert(grid.value(a + 1, b + 1, c + 1) < gi);
        }
    }
    m
}

/// The case table as a mathematical function, row for row.  Kept opaque:
/// callers reason through `tri_rows`'s contract, not the 256 branches.
#[verifier::opaque]
pub open spec fn spec_tri_rows(mask: int) -> Seq<u8> {
    if mask == 0 {
        Seq::empty()
    } else if mask == 1 {
        seq![2u8, 1, 0]
    } else if mask == 2 {
        seq![4u8, 3, 0]
    } else if mask == 3 {
        seq![2u8, 1, 3, 2, 3, 4]
    } else if mask == 4 {
        seq![1u8, 6, 5]
    } else if mask == 5 {
        seq![2u8, 6, 5, 2, 5, 0]
    } else if mask == 6 {
        seq![1u8, 6, 5, 4, 3, 0]
    } else if mask == 7 {
        seq![2u8, 6, 5, 2, 5, 3, 2, 3, 4]
    } else if mask == 8 {
        seq![3u8, 7, 5]
    } else if mask == 9 {
        seq![2u8, 1, 0, 3, 7, 5]
    } else if mask == 10 {
        seq![4u8, 7, 5, 4, 5, 0]
    } else if mask == 11 {
        seq![2u8, 1, 5, 2, 5, 7, 2, 7, 4]
    } else if mask == 12 {
        seq![1u8, 6, 7, 1, 7, 3]
    } else if mask == 13 {
        seq![2u8, 6, 7, 2, 7, 3, 2, 3, 0]
    } else if mask == 14 {
        seq![1u8, 6, 7, 1, 7, 4, 1, 4, 0]
    } else if mask == 15 {
        seq![2u8, 6, 7, 2, 7, 4]
    } else if mask == 16 {
        seq![9u8, 2, 8]
    } else if mask == 17 {
        seq![9u8, 1, 0, 9, 0, 8]
    } else if mask == 18 {
        seq![9u8, 2, 8, 4, 3, 0]
    } else if mask == 19 {
        seq![9u8, 1, 3, 9, 3, 4, 9, 4, 8]
    } else if mask == 20 {
        seq![1u8, 6, 5, 9, 2, 8]
    } else if mask == 21 {
        seq![9u8, 6, 5, 9, 5, 0, 9, 0, 8]
    } else if mask == 22 {
        seq![1u8, 6, 5, 9, 2, 8, 4, 3, 0]
    } else if mask == 23 {
        seq![9u8, 6, 5, 9, 5, 3, 9, 3, 4, 9, 4, 8]
    } else if mask == 24 {
        seq![9u8, 2, 8, 3, 7, 5]
    } else if mask == 25 {
        seq![9u8, 1, 0, 9, 0, 8, 3, 7, 5]
    } else if mask == 26 {
        seq![9u8, 2, 8, 4, 7, 5, 4, 5, 0]
    } else if mask == 27 {
        seq![9u8, 1, 5, 9, 5, 7, 9, 7, 4, 9, 4, 8]
    } else if mask == 28 {
        seq![1u8, 6, 7, 1, 7, 3, 9, 2, 8]
    } else if mask == 29 {
        seq![9u8, 6, 7, 9, 7, 3, 9, 3, 0, 9, 0, 8]
    } else if mask == 30 {
        seq![1u8, 6, 7, 1, 7, 4, 1, 4, 0, 9, 2, 8]
    } else if mask == 31 {
        seq![9u8, 6, 7, 9, 7, 4, 9, 4, 8]
    } else if mask == 32 {
        seq![10u8, 4, 8]
    } else if mask == 33 {
        seq![2u8, 1, 0, 10, 4, 8]
    } else if mask == 34 {
        seq![10u8, 3, 0, 10, 0, 8]
    } else if mask == 35 {
        seq![2u8, 1, 3, 2, 3, 10, 2, 10, 8]
    } else if mask == 36 {
        seq![1u8, 6, 5, 10, 4, 8]
    } else if mask == 37 {
        seq![2u8, 6, 5, 2, 5, 0, 10, 4, 8]
    } else if mask == 38 {
        seq![1u8, 6, 5, 10, 3, 0, 10, 0, 8]
    } else if mask == 39 {
        seq![2u8, 6, 5, 2, 5, 3, 2, 3, 10, 2, 10, 8]
    } else if mask == 40 {
        seq![3u8, 7, 5, 10, 4, 8]
    } else if mask == 41 {
        seq![2u8, 1, 0, 3, 7, 5, 10, 4, 8]
    } else if mask == 42 {
        seq![10u8, 7, 5, 10, 5, 0, 10, 0, 8]
    } else if mask == 43 {
        seq![2u8, 1, 5, 2, 5, 7, 2, 7, 10, 2, 10, 8]
    } else if mask == 44 {
        seq![1u8, 6, 7, 1, 7, 3, 10, 4, 8]
    } else if mask == 45 {
        seq![2u8, 6, 7, 2, 7, 3, 2, 3, 0, 10, 4, 8]
    } else if mask == 46 {
        seq![1u8, 6, 7, 1, 7, 10, 1, 10, 8, 1, 8, 0]
    } else if mask == 47 {
        seq![2u8, 6, 7, 2, 7, 10, 2, 10, 8]
    } else if mask == 48 {
        seq![9u8, 2, 4, 9, 4, 10]
    } else if mask == 49 {
        seq![9u8, 1, 0, 9, 0, 4, 9, 4, 10]
    } else if mask == 50 {
        seq![9u8, 2, 0, 9, 0, 3, 9, 3, 10]
    } else if mask == 51 {
        seq![9u8, 1, 3, 9, 3, 10]
    } else if mask == 52 {
        seq![1u8, 6, 5, 9, 2, 4, 9, 4, 10]
    } else if mask == 53 {
        seq![9u8, 6, 5, 9, 5, 0, 9, 0, 4, 9, 4, 10]
    } else if mask == 54 {
        seq![1u8, 6, 5, 9, 2, 0, 9, 0, 3, 9, 3, 10]
    } else if mask == 55 {
        seq![9u8, 6, 5, 9, 5, 3, 9, 3, 10]
    } else if mask == 56 {
        seq![9u8, 2, 4, 9, 4, 10, 3, 7, 5]
    } else if mask == 57 {
        seq![9u8, 1, 0, 9, 0, 4, 9, 4, 10, 3, 7, 5]
    } else if mask == 58 {
        seq![9u8, 2, 0, 9, 0, 5, 9, 5, 7, 9, 7, 10]
    } else if mask == 59 {
        seq![9u8, 1, 5, 9, 5, 7, 9, 7, 10]
    } else if mask == 60 {
        seq![1u8, 6, 7, 1, 7, 3, 9, 2, 4, 9, 4, 10]
    } else if mask == 61 {
        seq![9u8, 6, 7, 9, 7, 3, 9, 3, 0, 9, 0, 4, 9, 4, 10]
    } else if mask == 62 {
        seq![1u8, 6, 7, 1, 7, 10, 1, 10, 9, 1, 9, 2, 1, 2, 0]
    } else if mask == 63 {
        seq![9u8, 6, 7, 9, 7, 10]
    } else if mask == 64 {
        seq![6u8, 9, 11]
    } else if mask == 65 {
        seq![2u8, 1, 0, 6, 9, 11]
    } else if mask == 66 {
        seq![6u8, 9, 11, 4, 3, 0]
    } else if mask == 67 {
        seq![2u8, 1, 3, 2, 3, 4, 6, 9, 11]
    } else if mask == 68 {
        seq![1u8, 9, 11, 1, 11, 5]
    } else if mask == 69 {
        seq![2u8, 9, 11, 2, 11, 5, 2, 5, 0]
    } else if mask == 70 {
        seq![1u8, 9, 11, 1, 11, 5, 4, 3, 0]
    } else if mask == 71 {
        seq![2u8, 9, 11, 2, 11, 5, 2, 5, 3, 2, 3, 4]
    } else if mask == 72 {
        seq![6u8, 9, 11, 3, 7, 5]
    } else if mask == 73 {
        seq![2u8, 1, 0, 6, 9, 11, 3, 7, 5]
    } else if mask == 74 {
        seq![6u8, 9, 11, 4, 7, 5, 4, 5, 0]
    } else if mask == 75 {
        seq![2u8, 1, 5, 2, 5, 7, 2, 7, 4, 6, 9, 11]
    } else if mask == 76 {
        seq![1u8, 9, 11, 1, 11, 7, 1, 7, 3]
    } else if mask == 77 {
        seq![2u8, 9, 11, 2, 11, 7, 2, 7, 3, 2, 3, 0]
    } else if mask == 78 {
        seq![1u8, 9, 11, 1, 11, 7, 1, 7, 4, 1, 4, 0]
    } else if mask == 79 {
        seq![2u8, 9, 11, 2, 11, 7, 2, 7, 4]
    } else if mask == 80 {
        seq![6u8, 2, 8, 6, 8, 11]
    } else if mask == 81 {
        seq![6u8, 1, 0, 6, 0, 8, 6, 8, 11]
    } else if mask == 82 {
        seq![6u8, 2, 8, 6, 8, 11, 4, 3, 0]
    } else if mask == 83 {
        seq![6u8, 1, 3, 6, 3, 4, 6, 4, 8, 6, 8, 11]
    } else if mask == 84 {
        seq![1u8, 2, 8, 1, 8, 11, 1, 11, 5]
    } else if mask == 85 {
        seq![8u8, 0, 5, 8, 5, 11]
    } else if mask == 86 {
        seq![1u8, 2, 8, 1, 8, 11, 1, 11, 5, 4, 3, 0]
    } else if mask == 87 {
        seq![4u8, 3, 5, 4, 5, 11, 4, 11, 8]
    } else if mask == 88 {
        seq![6u8, 2, 8, 6, 8, 11, 3, 7, 5]
    } else if mask == 89 {
        seq![6u8, 1, 0, 6, 0, 8, 6, 8, 11, 3, 7, 5]
    } else if mask == 90 {
        seq![6u8, 2, 8, 6, 8, 11, 4, 7, 5, 4, 5, 0]
    } else if mask == 91 {
        seq![6u8, 1, 5, 6, 5, 7, 6, 7, 4, 6, 4, 8, 6, 8, 11]
    } else if mask == 92 {
        seq![1u8, 2, 8, 1, 8, 11, 1, 11, 7, 1, 7, 3]
    } else if mask == 93 {
        seq![3u8, 7, 11, 3, 11, 8, 3, 8, 0]
    } else if mask == 94 {
        seq![1u8, 2, 8, 1, 8, 11, 1, 11, 7, 1, 7, 4, 1, 4, 0]
    } else if mask == 95 {
        seq![4u8, 7, 11, 4, 11, 8]
    } else if mask == 96 {
        seq![6u8, 9, 11, 10, 4, 8]
    } else if mask == 97 {
        seq![2u8, 1, 0, 6, 9, 11, 10, 4, 8]
    } else if mask == 98 {
        seq![6u8, 9, 11, 10, 3, 0, 10, 0, 8]
    } else if mask == 99 {
        seq![2u8, 1, 3, 2, 3, 10, 2, 10, 8, 6, 9, 11]
    } else if mask == 100 {
        seq![1u8, 9, 11, 1, 11, 5, 10, 4, 8]
    } else if mask == 101 {
        seq![2u8, 9, 11, 2, 11, 5, 2, 5, 0, 10, 4, 8]
    } else if mask == 102 {
        seq![1u8, 9, 11, 1, 11, 5, 10, 3, 0, 10, 0, 8]
    } else if mask == 103 {
        seq![2u8, 9, 11, 2, 11, 5, 2, 5, 3, 2, 3, 10, 2, 10, 8]
    } else if mask == 104 {
        seq![6u8, 9, 11, 3, 7, 5, 10, 4, 8]
    } else if mask == 105 {
        seq![2u8, 1, 0, 6, 9, 11, 3, 7, 5, 10, 4, 8]
    } else if mask == 106 {
        seq![6u8, 9, 11, 10, 7, 5, 10, 5, 0, 10, 0, 8]
    } else if mask == 107 {
        seq![2u8, 1, 5, 2, 5, 7, 2, 7, 10, 2, 10, 8, 6, 9, 11]
    } else if mask == 108 {
        seq![1u8, 9, 11, 1, 11, 7, 1, 7, 3, 10, 4, 8]
    } else if mask == 109 {
        seq![2u8, 9, 11, 2, 11, 7, 2, 7, 3, 2, 3, 0, 10, 4, 8]
    } else if mask == 110 {
        seq![1u8, 9, 11, 1, 11, 7, 1, 7, 10, 1, 10, 8, 1, 8, 0]
    } else if mask == 111 {
        seq![2u8, 9, 11, 2, 11, 7, 2, 7, 10, 2, 10, 8]
    } else if mask == 112 {
        seq![6u8, 2, 4, 6, 4, 10, 6, 10, 11]
    } else if mask == 113 {
        seq![6u8, 1, 0, 6, 0, 4, 6, 4, 10, 6, 10, 11]
    } else if mask == 114 {
        seq![6u8, 2, 0, 6, 0, 3, 6, 3, 10, 6, 10, 11]
    } else if mask == 115 {
        seq![6u8, 1, 3, 6, 3, 10, 6, 10, 11]
    } else if mask == 116 {
        seq![1u8, 2, 4, 1, 4, 10, 1, 10, 11, 1, 11, 5]
    } else if mask == 117 {
        seq![10u8, 4, 0, 10, 0, 5, 10, 5, 11]
    } else if mask == 118 {
        seq![1u8, 2, 0, 1, 0, 3, 1, 3, 10, 1, 10, 11, 1, 11, 5]
    } else if mask == 119 {
        seq![10u8, 3, 5, 10, 5, 11]
    } else if mask == 120 {
        seq![6u8, 2, 4, 6, 4, 10, 6, 10, 11, 3, 7, 5]
    } else if mask == 121 {
        seq![6u8, 1, 0, 6, 0, 4, 6, 4, 10, 6, 10, 11, 3, 7, 5]
    } else if mask == 122 {
        seq![6u8, 2, 0, 6, 0, 5, 6, 5, 7, 6, 7, 10, 6, 10, 11]
    } else if mask == 123 {
        seq![6u8, 1, 5, 6, 5, 7, 6, 7, 10, 6, 10, 11]
    } else if mask == 124 {
        seq![1u8, 2, 4, 1, 4, 10, 1, 10, 11, 1, 11, 7, 1, 7, 3]
    } else if mask == 125 {
        seq![3u8, 7, 11, 3, 11, 10, 3, 10, 4, 3, 4, 0]
    } else if mask == 126 {
        seq![1u8, 2, 0, 10, 7, 11]
    } else if mask == 127 {
        seq![10u8, 7, 11]
    } else if mask == 128 {
        seq![7u8, 10, 11]
    } else if mask == 129 {
        seq![2u8, 1, 0, 7, 10, 11]
    } else if mask == 130 {
        seq![4u8, 3, 0, 7, 10, 11]
    } else if mask == 131 {
        seq![2u8, 1, 3, 2, 3, 4, 7, 10, 11]
    } else if mask == 132 {
        seq![1u8, 6, 5, 7, 10, 11]
    } else if mask == 133 {
        seq![2u8, 6, 5, 2, 5, 0, 7, 10, 11]
    } else if mask == 134 {
        seq![1u8, 6, 5, 4, 3, 0, 7, 10, 11]
    } else if mask == 135 {
        seq![2u8, 6, 5, 2, 5, 3, 2, 3, 4, 7, 10, 11]
    } else if mask == 136 {
        seq![3u8, 10, 11, 3, 11, 5]
    } else if mask == 137 {
        seq![2u8, 1, 0, 3, 10, 11, 3, 11, 5]
    } else if mask == 138 {
        seq![4u8, 10, 11, 4, 11, 5, 4, 5, 0]
    } else if mask == 139 {
        seq![2u8, 1, 5, 2, 5, 11, 2, 11, 10, 2, 10, 4]
    } else if mask == 140 {
        seq![1u8, 6, 11, 1, 11, 10, 1, 10, 3]
    } else if mask == 141 {
        seq![2u8, 6, 11, 2, 11, 10, 2, 10, 3, 2, 3, 0]
    } else if mask == 142 {
        seq![1u8, 6, 11, 1, 11, 10, 1, 10, 4, 1, 4, 0]
    } else if mask == 143 {
        seq![2u8, 6, 11, 2, 11, 10, 2, 10, 4]
    } else if mask == 144 {
        seq![9u8, 2, 8, 7, 10, 11]
    } else if mask == 145 {
        seq![9u8, 1, 0, 9, 0, 8, 7, 10, 11]
    } else if mask == 146 {
        seq![9u8, 2, 8, 4, 3, 0, 7, 10, 11]
    } else if mask == 147 {
        seq![9u8, 1, 3, 9, 3, 4, 9, 4, 8, 7, 10, 11]
    } else if mask == 148 {
        seq![1u8, 6, 5, 9, 2, 8, 7, 10, 11]
    } else if mask == 149 {
        seq![9u8, 6, 5, 9, 5, 0, 9, 0, 8, 7, 10, 11]
    } else if mask == 150 {
        seq![1u8, 6, 5, 9, 2, 8, 4, 3, 0, 7, 10, 11]
    } else if mask == 151 {
        seq![9u8, 6, 5, 9, 5, 3, 9, 3, 4, 9, 4, 8, 7, 10, 11]
    } else if mask == 152 {
        seq![9u8, 2, 8, 3, 10, 11, 3, 11, 5]
    } else if mask == 153 {
        seq![9u8, 1, 0, 9, 0, 8, 3, 10, 11, 3, 11, 5]
    } else if mask == 154 {
        seq![9u8, 2, 8, 4, 10, 11, 4, 11, 5, 4, 5, 0]
    } else if mask == 155 {
        seq![9u8, 1, 5, 9, 5, 11, 9, 11, 10, 9, 10, 4, 9, 4, 8]
    } else if mask == 156 {
        seq![1u8, 6, 11, 1, 11, 10, 1, 10, 3, 9, 2, 8]
    } else if mask == 157 {
        seq![9u8, 6, 11, 9, 11, 10, 9, 10, 3, 9, 3, 0, 9, 0, 8]
    } else if mask == 158 {
        seq![1u8, 6, 11, 1, 11, 10, 1, 10, 4, 1, 4, 0, 9, 2, 8]
    } else if mask == 159 {
        seq![9u8, 6, 11, 9, 11, 10, 9, 10, 4, 9, 4, 8]
    } else if mask == 160 {
        seq![7u8, 4, 8, 7, 8, 11]
    } else if mask == 161 {
        seq![2u8, 1, 0, 7, 4, 8, 7, 8, 11]
    } else if mask == 162 {
        seq![7u8, 3, 0, 7, 0, 8, 7, 8, 11]
    } else if mask == 163 {
        seq![2u8, 1, 3, 2, 3, 7, 2, 7, 11, 2, 11, 8]
    } else if mask == 164 {
        seq![1u8, 6, 5, 7, 4, 8, 7, 8, 11]
    } else if mask == 165 {
        seq![2u8, 6, 5, 2, 5, 0, 7, 4, 8, 7, 8, 11]
    } else if mask == 166 {
        seq![1u8, 6, 5, 7, 3, 0, 7, 0, 8, 7, 8, 11]
    } else if mask == 167 {
        seq![2u8, 6, 5, 2, 5, 3, 2, 3, 7, 2, 7, 11, 2, 11, 8]
    } else if mask == 168 {
        seq![3u8, 4, 8, 3, 8, 11, 3, 11, 5]
    } else if mask == 169 {
        seq![2u8, 1, 0, 3, 4, 8, 3, 8, 11, 3, 11, 5]
    } else if mask == 170 {
        seq![0u8, 8, 11, 0, 11, 5]
    } else if mask == 171 {
        seq![2u8, 1, 5, 2, 5, 11, 2, 11, 8]
    } else if mask == 172 {
        seq![1u8, 6, 11, 1, 11, 8, 1, 8, 4, 1, 4, 3]
    } else if mask == 173 {
        seq![2u8, 6, 11, 2, 11, 8, 2, 8, 4, 2, 4, 3, 2, 3, 0]
    } else if mask == 174 {
        seq![1u8, 6, 11, 1, 11, 8, 1, 8, 0]
    } else if mask == 175 {
        seq![2u8, 6, 11, 2, 11, 8]
    } else if mask == 176 {
        seq![9u8, 2, 4, 9, 4, 7, 9, 7, 11]
    } else if mask == 177 {
        seq![9u8, 1, 0, 9, 0, 4, 9, 4, 7, 9, 7, 11]
    } else if mask == 178 {
        seq![9u8, 2, 0, 9, 0, 3, 9, 3, 7, 9, 7, 11]
    } else if mask == 179 {
        seq![9u8, 1, 3, 9, 3, 7, 9, 7, 11]
    } else if mask == 180 {
        seq![1u8, 6, 5, 9, 2, 4, 9, 4, 7, 9, 7, 11]
    } else if mask == 181 {
        seq![9u8, 6, 5, 9, 5, 0, 9, 0, 4, 9, 4, 7, 9, 7, 11]
    } else if mask == 182 {
        seq![1u8, 6, 5, 9, 2, 0, 9, 0, 3, 9, 3, 7, 9, 7, 11]
    } else if mask == 183 {
        seq![9u8, 6, 5, 9, 5, 3, 9, 3, 7, 9, 7, 11]
    } else if mask == 184 {
        seq![9u8, 2, 4, 9, 4, 3, 9, 3, 5, 9, 5, 11]
    } else if mask == 185 {
        seq![9u8, 1, 0, 9, 0, 4, 9, 4, 3, 9, 3, 5, 9, 5, 11]
    } else if mask == 186 {
        seq![9u8, 2, 0, 9, 0, 5, 9, 5, 11]
    } else if mask == 187 {
        seq![9u8, 1, 5, 9, 5, 11]
    } else if mask == 188 {
        seq![1u8, 6, 11, 1, 11, 9, 1, 9, 2, 1, 2, 4, 1, 4, 3]
    } else if mask == 189 {
        seq![9u8, 6, 11, 3, 4, 0]
    } else if mask == 190 {
        seq![1u8, 6, 11, 1, 11, 9, 1, 9, 2, 1, 2, 0]
    } else if mask == 191 {
        seq![9u8, 6, 11]
    } else if mask == 192 {
        seq![6u8, 9, 10, 6, 10, 7]
    } else if mask == 193 {
        seq![2u8, 1, 0, 6, 9, 10, 6, 10, 7]
    } else if mask == 194 {
        seq![6u8, 9, 10, 6, 10, 7, 4, 3, 0]
    } else if mask == 195 {
        seq![2u8, 1, 3, 2, 3, 4, 6, 9, 10, 6, 10, 7]
    } else if mask == 196 {
        seq![1u8, 9, 10, 1, 10, 7, 1, 7, 5]
    } else if mask == 197 {
        seq![2u8, 9, 10, 2, 10, 7, 2, 7, 5, 2, 5, 0]
    } else if mask == 198 {
        seq![1u8, 9, 10, 1, 10, 7, 1, 7, 5, 4, 3, 0]
    } else if mask == 199 {
        seq![2u8, 9, 10, 2, 10, 7, 2, 7, 5, 2, 5, 3, 2, 3, 4]
    } else if mask == 200 {
        seq![6u8, 9, 10, 6, 10, 3, 6, 3, 5]
    } else if mask == 201 {
        seq![2u8, 1, 0, 6, 9, 10, 6, 10, 3, 6, 3, 5]
    } else if mask == 202 {
        seq![6u8, 9, 10, 6, 10, 4, 6, 4, 0, 6, 0, 5]
    } else if mask == 203 {
        seq![2u8, 1, 5, 2, 5, 6, 2, 6, 9, 2, 9, 10, 2, 10, 4]
    } else if mask == 204 {
        seq![1u8, 9, 10, 1, 10, 3]
    } else if mask == 205 {
        seq![2u8, 9, 10, 2, 10, 3, 2, 3, 0]
    } else if mask == 206 {
        seq![1u8, 9, 10, 1, 10, 4, 1, 4, 0]
    } else if mask == 207 {
        seq![2u8, 9, 10, 2, 10, 4]
    } else if mask == 208 {
        seq![6u8, 2, 8, 6, 8, 10, 6, 10, 7]
    } else if mask == 209 {
        seq![6u8, 1, 0, 6, 0, 8, 6, 8, 10, 6, 10, 7]
    } else if mask == 210 {
        seq![6u8, 2, 8, 6, 8, 10, 6, 10, 7, 4, 3, 0]
    } else if mask == 211 {
        seq![6u8, 1, 3, 6, 3, 4, 6, 4, 8, 6, 8, 10, 6, 10, 7]
    } else if mask == 212 {
        seq![1u8, 2, 8, 1, 8, 10, 1, 10, 7, 1, 7, 5]
    } else if mask == 213 {
        seq![7u8, 10, 8, 7, 8, 0, 7, 0, 5]
    } else if mask == 214 {
        seq![1u8, 2, 8, 1, 8, 10, 1, 10, 7, 1, 7, 5, 4, 3, 0]
    } else if mask == 215 {
        seq![4u8, 3, 5, 4, 5, 7, 4, 7, 10, 4, 10, 8]
    } else if mask == 216 {
        seq![6u8, 2, 8, 6, 8, 10, 6, 10, 3, 6, 3, 5]
    } else if mask == 217 {
        seq![6u8, 1, 0, 6, 0, 8, 6, 8, 10, 6, 10, 3, 6, 3, 5]
    } else if mask == 218 {
        seq![6u8, 2, 8, 6, 8, 10, 6, 10, 4, 6, 4, 0, 6, 0, 5]
    } else if mask == 219 {
        seq![6u8, 1, 5, 4, 10, 8]
    } else if mask == 220 {
        seq![1u8, 2, 8, 1, 8, 10, 1, 10, 3]
    } else if mask == 221 {
        seq![3u8, 10, 8, 3, 8, 0]
    } else if mask == 222 {
        seq![1u8, 2, 8, 1, 8, 10, 1, 10, 4, 1, 4, 0]
    } else if mask == 223 {
        seq![4u8, 10, 8]
    } else if mask == 224 {
        seq![6u8, 9, 8, 6, 8, 4, 6, 4, 7]
    } else if mask == 225 {
        seq![2u8, 1, 0, 6, 9, 8, 6, 8, 4, 6, 4, 7]
    } else if mask == 226 {
        seq![6u8, 9, 8, 6, 8, 0, 6, 0, 3, 6, 3, 7]
    } else if mask == 227 {
        seq![2u8, 1, 3, 2, 3, 7, 2, 7, 6, 2, 6, 9, 2, 9, 8]
    } else if mask == 228 {
        seq![1u8, 9, 8, 1, 8, 4, 1, 4, 7, 1, 7, 5]
    } else if mask == 229 {
        seq![2u8, 9, 8, 2, 8, 4, 2, 4, 7, 2, 7, 5, 2, 5, 0]
    } else if mask == 230 {
        seq![1u8, 9, 8, 1, 8, 0, 1, 0, 3, 1, 3, 7, 1, 7, 5]
    } else if mask == 231 {
        seq![2u8, 9, 8, 7, 3, 5]
    } else if mask == 232 {
        seq![6u8, 9, 8, 6, 8, 4, 6, 4, 3, 6, 3, 5]
    } else if mask == 233 {
        seq![2u8, 1, 0, 6, 9, 8, 6, 8, 4, 6, 4, 3, 6, 3, 5]
    } else if mask == 234 {
        seq![6u8, 9, 8, 6, 8, 0, 6, 0, 5]
    } else if mask == 235 {
        seq![2u8, 1, 5, 2, 5, 6, 2, 6, 9, 2, 9, 8]
    } else if mask == 236 {
        seq![1u8, 9, 8, 1, 8, 4, 1, 4, 3]
    } else if mask == 237 {
        seq![2u8, 9, 8, 2, 8, 4, 2, 4, 3, 2, 3, 0]
    } else if mask == 238 {
        seq![1u8, 9, 8, 1, 8, 0]
    } else if mask == 239 {
        seq![2u8, 9, 8]
    } else if mask == 240 {
        seq![6u8, 2, 4, 6, 4, 7]
    } else if mask == 241 {
        seq![6u8, 1, 0, 6, 0, 4, 6, 4, 7]
    } else if mask == 242 {
        seq![6u8, 2, 0, 6, 0, 3, 6, 3, 7]
    } else if mask == 243 {
        seq![6u8, 1, 3, 6, 3, 7]
    } else if mask == 244 {
        seq![1u8, 2, 4, 1, 4, 7, 1, 7, 5]
    } else if mask == 245 {
        seq![7u8, 4, 0, 7, 0, 5]
    } else if mask == 246 {
        seq![1u8, 2, 0, 1, 0, 3, 1, 3, 7, 1, 7, 5]
    } else if mask == 247 {
        seq![7u8, 3, 5]
    } else if mask == 248 {
        seq![6u8, 2, 4, 6, 4, 3, 6, 3, 5]
    } else if mask == 249 {
        seq![6u8, 1, 0, 6, 0, 4, 6, 4, 3, 6, 3, 5]
    } else if mask == 250 {
        seq![6u8, 2, 0, 6, 0, 5]
    } else if mask == 251 {
        seq![6u8, 1, 5]
    } else if mask == 252 {
        seq![1u8, 2, 4, 1, 4, 3]
    } else if mask == 253 {
        seq![3u8, 4, 0]
    } else if mask == 254 {
        seq![1u8, 2, 0]
    } else {
        Seq::empty()
    }
}

/// One row of the 256-entry marching-cubes case table: the triangles to
/// emit for a corner configuration, three cut-edge indices per triangle.
/// An entirely-inside or entirely-outside cell contributes nothing; every
/// crossed cell contributes at least one triangle.
///
/// Each row triangulates the closed loops that the surface cuts into the
/// cell, with ambiguous faces (two diagonal corners inside) always resolved
/// by separating the inside corners, so that any two adjacent cells agree
/// on their shared face and the soup closes up watertight.
#[verifier::rlimit(100)]
pub fn tri_rows(mask: u8) -> (r: Vec<u8>)
    ensures
        r@ == spec_tri_rows(mask as int),
        r@.len() % 3 == 0,
        r@.len() <= 15,
        forall|i: int| 0 <= i < r@.len() ==> #[trigger] r@[i] < 12,
        (mask == 0 || mask == 255) <==> r@.len() == 0,
{
    proof {
        reveal(spec_tri_rows);
    }
    match mask {
            0 => Vec::new(),
            1 => vec![2, 1, 0],
            2 => vec![4, 3, 0],
            3 => vec![2, 1, 3, 2, 3, 4],
            4 => vec![1, 6, 5],
            5 => vec![2, 6, 5, 2, 5, 0],
            6 => vec![1, 6, 5, 4, 3, 0],
            7 => vec![2, 6, 5, 2, 5, 3, 2, 3, 4],
            8 => vec![3, 7, 5],
            9 => vec![2, 1, 0, 3, 7, 5],
            10 => vec![4, 7, 5, 4, 5, 0],
            11 => vec![2, 1, 5, 2, 5, 7, 2, 7, 4],
            12 => vec![1, 6, 7, 1, 7, 3],
            13 => vec![2, 6, 7, 2, 7, 3, 2, 3, 0],
            14 => vec![1, 6, 7, 1, 7, 4, 1, 4, 0],
            15 => vec![2, 6, 7, 2, 7, 4],
            16 => vec![9, 2, 8],
            17 => vec![9, 1, 0, 9, 0, 8],
            18 => vec![9, 2, 8, 4, 3, 0],
            19 => vec![9, 1, 3, 9, 3, 4, 9, 4, 8],
            20 => vec![1, 6, 5, 9, 2, 8],
            21 => vec![9, 6, 5, 9, 5, 0, 9, 0, 8],
            22 => vec![1, 6, 5, 9, 2, 8, 4, 3, 0],
            23 => vec![9, 6, 5, 9, 5, 3, 9, 3, 4, 9, 4, 8],
            24 => vec![9, 2, 8, 3, 7, 5],
            25 => vec![9, 1, 0, 9, 0, 8, 3, 7, 5],
            26 => vec![9, 2, 8, 4, 7, 5, 4, 5, 0],
            27 => vec![9, 1, 5, 9, 5, 7, 9, 7, 4, 9, 4, 8],
            28 => vec![1, 6, 7, 1, 7, 3, 9, 2, 8],
            29 => vec![9, 6, 7, 9, 7, 3, 9, 3, 0, 9, 0, 8],
            30 => vec![1, 6, 7, 1, 7, 4, 1, 4, 0, 9, 2, 8],
            31 => vec![9, 6, 7, 9, 7, 4, 9, 4, 8],
            32 => vec![10, 4, 8],
            33 => vec![2, 1, 0, 10, 4, 8],
            34 => vec![10, 3, 0, 10, 0, 8],
            35 => vec![2, 1, 3, 2, 3, 10, 2, 10, 8],
            36 => vec![1, 6, 5, 10, 4, 8],
            37 => vec![2, 6, 5, 2, 5, 0, 10, 4, 8],
            38 => vec![1, 6, 5, 10, 3, 0, 10, 0, 8],
            39 => vec![2, 6, 5, 2, 5, 3, 2, 3, 10, 2, 10, 8],
            40 => vec![3, 7, 5, 10, 4, 8],
            41 => vec![2, 1, 0, 3, 7, 5, 10, 4, 8],
            42 => vec![10, 7, 5, 10, 5, 0, 10, 0, 8],
            43 => vec![2, 1, 5, 2, 5, 7, 2, 7, 10, 2, 10, 8],
            44 => vec![1, 6, 7, 1, 7, 3, 10, 4, 8],
            45 => vec![2, 6, 7, 2, 7, 3, 2, 3, 0, 10, 4, 8],
            46 => vec![1, 6, 7, 1, 7, 10, 1, 10, 8, 1, 8, 0],
            47 => vec![2, 6, 7, 2, 7, 10, 2, 10, 8],
            48 => vec![9, 2, 4, 9, 4, 10],
            49 => vec![9, 1, 0, 9, 0, 4, 9, 4, 10],
            50 => vec![9, 2, 0, 9, 0, 3, 9, 3, 10],
            51 => vec![9, 1, 3, 9, 3, 10],
            52 => vec![1, 6, 5, 9, 2, 4, 9, 4, 10],
            53 => vec![9, 6, 5, 9, 5, 0, 9, 0, 4, 9, 4, 10],
            54 => vec![1, 6, 5, 9, 2, 0, 9, 0, 3, 9, 3, 10],
            55 => vec![9, 6, 5, 9, 5, 3, 9, 3, 10],
            56 => vec![9, 2, 4, 9, 4, 10, 3, 7, 5],
            57 => vec![9, 1, 0, 9, 0, 4, 9, 4, 10, 3, 7, 5],
            58 => vec![9, 2, 0, 9, 0, 5, 9, 5, 7, 9, 7, 10],
            59 => vec![9, 1, 5, 9, 5, 7, 9, 7, 10],
            60 => vec![1, 6, 7, 1, 7, 3, 9, 2, 4, 9, 4, 10],
            61 => vec![9, 6, 7, 9, 7, 3, 9, 3, 0, 9, 0, 4, 9, 4, 10],
            62 => vec![1, 6, 7, 1, 7, 10, 1, 10, 9, 1, 9, 2, 1, 2, 0],
            63 => vec![9, 6, 7, 9, 7, 10],
            64 => vec![6, 9, 11],
            65 => vec![2, 1, 0, 6, 9, 11],
            66 => vec![6, 9, 11, 4, 3, 0],
            67 => vec![2, 1, 3, 2, 3, 4, 6, 9, 11],
            68 => vec![1, 9, 11, 1, 11, 5],
            69 => vec![2, 9, 11, 2, 11, 5, 2, 5, 0],
            70 => vec![1, 9, 11, 1, 11, 5, 4, 3, 0],
            71 => vec![2, 9, 11, 2, 11, 5, 2, 5, 3, 2, 3, 4],
            72 => vec![6, 9, 11, 3, 7, 5],
            73 => vec![2, 1, 0, 6, 9, 11, 3, 7, 5],
            74 => vec![6, 9, 11, 4, 7, 5, 4, 5, 0],
            75 => vec![2, 1, 5, 2, 5, 7, 2, 7, 4, 6, 9, 11],
            76 => vec![1, 9, 11, 1, 11, 7, 1, 7, 3],
            77 => vec![2, 9, 11, 2, 11, 7, 2, 7, 3, 2, 3, 0],
            78 => vec![1, 9, 11, 1, 11, 7, 1, 7, 4, 1, 4, 0],
            79 => vec![2, 9, 11, 2, 11, 7, 2, 7, 4],
            80 => vec![6, 2, 8, 6, 8, 11],
            81 => vec![6, 1, 0, 6, 0, 8, 6, 8, 11],
            82 => vec![6, 2, 8, 6, 8, 11, 4, 3, 0],
            83 => vec![6, 1, 3, 6, 3, 4, 6, 4, 8, 6, 8, 11],
            84 => vec![1, 2, 8, 1, 8, 11, 1, 11, 5],
            85 => vec![8, 0, 5, 8, 5, 11],
            86 => vec![1, 2, 8, 1, 8, 11, 1, 11, 5, 4, 3, 0],
            87 => vec![4, 3, 5, 4, 5, 11, 4, 11, 8],
            88 => vec![6, 2, 8, 6, 8, 11, 3, 7, 5],
            89 => vec![6, 1, 0, 6, 0, 8, 6, 8, 11, 3, 7, 5],
            90 => vec![6, 2, 8, 6, 8, 11, 4, 7, 5, 4, 5, 0],
            91 => vec![6, 1, 5, 6, 5, 7, 6, 7, 4, 6, 4, 8, 6, 8, 11],
            92 => vec![1, 2, 8, 1, 8, 11, 1, 11, 7, 1, 7, 3],
            93 => vec![3, 7, 11, 3, 11, 8, 3, 8, 0],
            94 => vec![1, 2, 8, 1, 8, 11, 1, 11, 7, 1, 7, 4, 1, 4, 0],
            95 => vec![4, 7, 11, 4, 11, 8],
            96 => vec![6, 9, 11, 10, 4, 8],
            97 => vec![2, 1, 0, 6, 9, 11, 10, 4, 8],
            98 => vec![6, 9, 11, 10, 3, 0, 10, 0, 8],
            99 => vec![2, 1, 3, 2, 3, 10, 2, 10, 8, 6, 9, 11],
            100 => vec![1, 9, 11, 1, 11, 5, 10, 4, 8],
            101 => vec![2, 9, 11, 2, 11, 5, 2, 5, 0, 10, 4, 8],
            102 => vec![1, 9, 11, 1, 11, 5, 10, 3, 0, 10, 0, 8],
            103 => vec![2, 9, 11, 2, 11, 5, 2, 5, 3, 2, 3, 10, 2, 10, 8],
            104 => vec![6, 9, 11, 3, 7, 5, 10, 4, 8],
            105 => vec![2, 1, 0, 6, 9, 11, 3, 7, 5, 10, 4, 8],
            106 => vec![6, 9, 11, 10, 7, 5, 10, 5, 0, 10, 0, 8],
            107 => vec![2, 1, 5, 2, 5, 7, 2, 7, 10, 2, 10, 8, 6, 9, 11],
            108 => vec![1, 9, 11, 1, 11, 7, 1, 7, 3, 10, 4, 8],
            109 => vec![2, 9, 11, 2, 11, 7, 2, 7, 3, 2, 3, 0, 10, 4, 8],
            110 => vec![1, 9, 11, 1, 11, 7, 1, 7, 10, 1, 10, 8, 1, 8, 0],
            111 => vec![2, 9, 11, 2, 11, 7, 2, 7, 10, 2, 10, 8],
            112 => vec![6, 2, 4, 6, 4, 10, 6, 10, 11],
            113 => vec![6, 1, 0, 6, 0, 4, 6, 4, 10, 6, 10, 11],
            114 => vec![6, 2, 0, 6, 0, 3, 6, 3, 10, 6, 10, 11],
            115 => vec![6, 1, 3, 6, 3, 10, 6, 10, 11],
            116 => vec![1, 2, 4, 1, 4, 10, 1, 10, 11, 1, 11, 5],
            117 => vec![10, 4, 0, 10, 0, 5, 10, 5, 11],
            118 => vec![1, 2, 0, 1, 0, 3, 1, 3, 10, 1, 10, 11, 1, 11, 5],
            119 => vec![10, 3, 5, 10, 5, 11],
            120 => vec![6, 2, 4, 6, 4, 10, 6, 10, 11, 3, 7, 5],
            121 => vec![6, 1, 0, 6, 0, 4, 6, 4, 10, 6, 10, 11, 3, 7, 5],
            122 => vec![6, 2, 0, 6, 0, 5, 6, 5, 7, 6, 7, 10, 6, 10, 11],
            123 => vec![6, 1, 5, 6, 5, 7, 6, 7, 10, 6, 10, 11],
            124 => vec![1, 2, 4, 1, 4, 10, 1, 10, 11, 1, 11, 7, 1, 7, 3],
            125 => vec![3, 7, 11, 3, 11, 10, 3, 10, 4, 3, 4, 0],
            126 => vec![1, 2, 0, 10, 7, 11],
            127 => vec![10, 7, 11],
            128 => vec![7, 10, 11],
            129 => vec![2, 1, 0, 7, 10, 11],
            130 => vec![4, 3, 0, 7, 10, 11],
            131 => vec![2, 1, 3, 2, 3, 4, 7, 10, 11],
            132 => vec![1, 6, 5, 7, 10, 11],
            133 => vec![2, 6, 5, 2, 5, 0, 7, 10, 11],
            134 => vec![1, 6, 5, 4, 3, 0, 7, 10, 11],
            135 => vec![2, 6, 5, 2, 5, 3, 2, 3, 4, 7, 10, 11],
            136 => vec![3, 10, 11, 3, 11, 5],
            137 => vec![2, 1, 0, 3, 10, 11, 3, 11, 5],
            138 => vec![4, 10, 11, 4, 11, 5, 4, 5, 0],
            139 => vec![2, 1, 5, 2, 5, 11, 2, 11, 10, 2, 10, 4],
            140 => vec![1, 6, 11, 1, 11, 10, 1, 10, 3],
            141 => vec![2, 6, 11, 2, 11, 10, 2, 10, 3, 2, 3, 0],
            142 => vec![1, 6, 11, 1, 11, 10, 1, 10, 4, 1, 4, 0],
            143 => vec![2, 6, 11, 2, 11, 10, 2, 10, 4],
            144 => vec![9, 2, 8, 7, 10, 11],
            145 => vec![9, 1, 0, 9, 0, 8, 7, 10, 11],
            146 => vec![9, 2, 8, 4, 3, 0, 7, 10, 11],
            147 => vec![9, 1, 3, 9, 3, 4, 9, 4, 8, 7, 10, 11],
            148 => vec![1, 6, 5, 9, 2, 8, 7, 10, 11],
            149 => vec![9, 6, 5, 9, 5, 0, 9, 0, 8, 7, 10, 11],
            150 => vec![1, 6, 5, 9, 2, 8, 4, 3, 0, 7, 10, 11],
            151 => vec![9, 6, 5, 9, 5, 3, 9, 3, 4, 9, 4, 8, 7, 10, 11],
            152 => vec![9, 2, 8, 3, 10, 11, 3, 11, 5],
            153 => vec![9, 1, 0, 9, 0, 8, 3, 10, 11, 3, 11, 5],
            154 => vec![9, 2, 8, 4, 10, 11, 4, 11, 5, 4, 5, 0],
            155 => vec![9, 1, 5, 9, 5, 11, 9, 11, 10, 9, 10, 4, 9, 4, 8],
            156 => vec![1, 6, 11, 1, 11, 10, 1, 10, 3, 9, 2, 8],
            157 => vec![9, 6, 11, 9, 11, 10, 9, 10, 3, 9, 3, 0, 9, 0, 8],
            158 => vec![1, 6, 11, 1, 11, 10, 1, 10, 4, 1, 4, 0, 9, 2, 8],
            159 => vec![9, 6, 11, 9, 11, 10, 9, 10, 4, 9, 4, 8],
            160 => vec![7, 4, 8, 7, 8, 11],
            161 => vec![2, 1, 0, 7, 4, 8, 7, 8, 11],
            162 => vec![7, 3, 0, 7, 0, 8, 7, 8, 11],
            163 => vec![2, 1, 3, 2, 3, 7, 2, 7, 11, 2, 11, 8],
            164 => vec![1, 6, 5, 7, 4, 8, 7, 8, 11],
            165 => vec![2, 6, 5, 2, 5, 0, 7, 4, 8, 7, 8, 11],
            166 => vec![1, 6, 5, 7, 3, 0, 7, 0, 8, 7, 8, 11],
            167 => vec![2, 6, 5, 2, 5, 3, 2, 3, 7, 2, 7, 11, 2, 11, 8],
            168 => vec![3, 4, 8, 3, 8, 11, 3, 11, 5],
            169 => vec![2, 1, 0, 3, 4, 8, 3, 8, 11, 3, 11, 5],
            170 => vec![0, 8, 11, 0, 11, 5],
            171 => vec![2, 1, 5, 2, 5, 11, 2, 11, 8],
            172 => vec![1, 6, 11, 1, 11, 8, 1, 8, 4, 1, 4, 3],
            173 => vec![2, 6, 11, 2, 11, 8, 2, 8, 4, 2, 4, 3, 2, 3, 0],
            174 => vec![1, 6, 11, 1, 11, 8, 1, 8, 0],
            175 => vec![2, 6, 11, 2, 11, 8],
            176 => vec![9, 2, 4, 9, 4, 7, 9, 7, 11],
            177 => vec![9, 1, 0, 9, 0, 4, 9, 4, 7, 9, 7, 11],
            178 => vec![9, 2, 0, 9, 0, 3, 9, 3, 7, 9, 7, 11],
            179 => vec![9, 1, 3, 9, 3, 7, 9, 7, 11],
            180 => vec![1, 6, 5, 9, 2, 4, 9, 4, 7, 9, 7, 11],
            181 => vec![9, 6, 5, 9, 5, 0, 9, 0, 4, 9, 4, 7, 9, 7, 11],
            182 => vec![1, 6, 5, 9, 2, 0, 9, 0, 3, 9, 3, 7, 9, 7, 11],
            183 => vec![9, 6, 5, 9, 5, 3, 9, 3, 7, 9, 7, 11],
            184 => vec![9, 2, 4, 9, 4, 3, 9, 3, 5, 9, 5, 11],
            185 => vec![9, 1, 0, 9, 0, 4, 9, 4, 3, 9, 3, 5, 9, 5, 11],
            186 => vec![9, 2, 0, 9, 0, 5, 9, 5, 11],
            187 => vec![9, 1, 5, 9, 5, 11],
            188 => vec![1, 6, 11, 1, 11, 9, 1, 9, 2, 1, 2, 4, 1, 4, 3],
            189 => vec![9, 6, 11, 3, 4, 0],
            190 => vec![1, 6, 11, 1, 11, 9, 1, 9, 2, 1, 2, 0],
            191 => vec![9, 6, 11],
            192 => vec![6, 9, 10, 6, 10, 7],
            193 => vec![2, 1, 0, 6, 9, 10, 6, 10, 7],
            194 => vec![6, 9, 10, 6, 10, 7, 4, 3, 0],
            195 => vec![2, 1, 3, 2, 3, 4, 6, 9, 10, 6, 10, 7],
            196 => vec![1, 9, 10, 1, 10, 7, 1, 7, 5],
            197 => vec![2, 9, 10, 2, 10, 7, 2, 7, 5, 2, 5, 0],
            198 => vec![1, 9, 10, 1, 10, 7, 1, 7, 5, 4, 3, 0],
            199 => vec![2, 9, 10, 2, 10, 7, 2, 7, 5, 2, 5, 3, 2, 3, 4],
            200 => vec![6, 9, 10, 6, 10, 3, 6, 3, 5],
            201 => vec![2, 1, 0, 6, 9, 10, 6, 10, 3, 6, 3, 5],
            202 => vec![6, 9, 10, 6, 10, 4, 6, 4, 0, 6, 0, 5],
            203 => vec![2, 1, 5, 2, 5, 6, 2, 6, 9, 2, 9, 10, 2, 10, 4],
            204 => vec![1, 9, 10, 1, 10, 3],
            205 => vec![2, 9, 10, 2, 10, 3, 2, 3, 0],
            206 => vec![1, 9, 10, 1, 10, 4, 1, 4, 0],
            207 => vec![2, 9, 10, 2, 10, 4],
            208 => vec![6, 2, 8, 6, 8, 10, 6, 10, 7],
            209 => vec![6, 1, 0, 6, 0, 8, 6, 8, 10, 6, 10, 7],
            210 => vec![6, 2, 8, 6, 8, 10, 6, 10, 7, 4, 3, 0],
            211 => vec![6, 1, 3, 6, 3, 4, 6, 4, 8, 6, 8, 10, 6, 10, 7],
            212 => vec![1, 2, 8, 1, 8, 10, 1, 10, 7, 1, 7, 5],
            213 => vec![7, 10, 8, 7, 8, 0, 7, 0, 5],
            214 => vec![1, 2, 8, 1, 8, 10, 1, 10, 7, 1, 7, 5, 4, 3, 0],
            215 => vec![4, 3, 5, 4, 5, 7, 4, 7, 10, 4, 10, 8],
            216 => vec![6, 2, 8, 6, 8, 10, 6, 10, 3, 6, 3, 5],
            217 => vec![6, 1, 0, 6, 0, 8, 6, 8, 10, 6, 10, 3, 6, 3, 5],
            218 => vec![6, 2, 8, 6, 8, 10, 6, 10, 4, 6, 4, 0, 6, 0, 5],
            219 => vec![6, 1, 5, 4, 10, 8],
            220 => vec![1, 2, 8, 1, 8, 10, 1, 10, 3],
            221 => vec![3, 10, 8, 3, 8, 0],
            222 => vec![1, 2, 8, 1, 8, 10, 1, 10, 4, 1, 4, 0],
            223 => vec![4, 10, 8],
            224 => vec![6, 9, 8, 6, 8, 4, 6, 4, 7],
            225 => vec![2, 1, 0, 6, 9, 8, 6, 8, 4, 6, 4, 7],
            226 => vec![6, 9, 8, 6, 8, 0, 6, 0, 3, 6, 3, 7],
            227 => vec![2, 1, 3, 2, 3, 7, 2, 7, 6, 2, 6, 9, 2, 9, 8],
            228 => vec![1, 9, 8, 1, 8, 4, 1, 4, 7, 1, 7, 5],
            229 => vec![2, 9, 8, 2, 8, 4, 2, 4, 7, 2, 7, 5, 2, 5, 0],
            230 => vec![1, 9, 8, 1, 8, 0, 1, 0, 3, 1, 3, 7, 1, 7, 5],
            231 => vec![2, 9, 8, 7, 3, 5],
            232 => vec![6, 9, 8, 6, 8, 4, 6, 4, 3, 6, 3, 5],
            233 => vec![2, 1, 0, 6, 9, 8, 6, 8, 4, 6, 4, 3, 6, 3, 5],
            234 => vec![6, 9, 8, 6, 8, 0, 6, 0, 5],
            235 => vec![2, 1, 5, 2, 5, 6, 2, 6, 9, 2, 9, 8],
            236 => vec![1, 9, 8, 1, 8, 4, 1, 4, 3],
            237 => vec![2, 9, 8, 2, 8, 4, 2, 4, 3, 2, 3, 0],
            238 => vec![1, 9, 8, 1, 8, 0],
            239 => vec![2, 9, 8],
            240 => vec![6, 2, 4, 6, 4, 7],
            241 => vec![6, 1, 0, 6, 0, 4, 6, 4, 7],
            242 => vec![6, 2, 0, 6, 0, 3, 6, 3, 7],
            243 => vec![6, 1, 3, 6, 3, 7],
            244 => vec![1, 2, 4, 1, 4, 7, 1, 7, 5],
            245 => vec![7, 4, 0, 7, 0, 5],
            246 => vec![1, 2, 0, 1, 0, 3, 1, 3, 7, 1, 7, 5],
            247 => vec![7, 3, 5],
            248 => vec![6, 2, 4, 6, 4, 3, 6, 3, 5],
            249 => vec![6, 1, 0, 6, 0, 4, 6, 4, 3, 6, 3, 5],
            250 => vec![6, 2, 0, 6, 0, 5],
            251 => vec![6, 1, 5],
            252 => vec![1, 2, 4, 1, 4, 3],
            253 => vec![3, 4, 0],
            254 => vec![1, 2, 0],
            255 => Vec::new(),
    }
}


/// The first `j` table entries of one cell, mapped to their edge-crossing
/// points, three per triangle.
pub open spec fn spec_cell_vertices(
    g: &VoxelGrid,
    iso: int,
    cx: int,
    cy: int,
    cz: int,
    rows: Seq<u8>,
    j: int,
) -> Seq<Point3>
    decreases j,
{
    if j < 3 {
        Seq::empty()
    } else {
        spec_cell_vertices(g, iso, cx, cy, cz, rows, j - 3) + seq![
            spec_edge_vertex(g, iso, cx, cy, cz, rows[j - 3] as int),
            spec_edge_vertex(g, iso, cx, cy, cz, rows[j - 2] as int),
            spec_edge_vertex(g, iso, cx, cy, cz, rows[j - 1] as int),
        ]
    }
}

/// All triangles of the cell at (cx, cy, cz).
pub open spec fn spec_cell(g: &VoxelGrid, iso: int, cx: int, cy: int, cz: int) -> Seq<Point3> {
    let rows = spec_tri_rows(spec_cell_mask(g, iso, cx, cy, cz));
    spec_cell_vertices(g, iso, cx, cy, cz, rows, rows.len() as int)
}

/// The triangles of cells (cx, cy, c) for c below `cz_end`, in z order.
pub open spec fn spec_polygonize_z(
    g: &VoxelGrid,
    iso: int,
    cx: int,
    cy: int,
    cz_end: int,
) -> Seq<Point3>
    decreases cz_end,
{
    if cz_end <= 0 {
        Seq::empty()
    } else {
        spec_polygonize_z(g, iso, cx, cy, cz_end - 1) + spec_cell(g, iso, cx, cy, cz_end - 1)
    }
}

/// The triangles of cells (cx, b, *) for b below `cy_end`, in (y, z) order.
pub open spec fn spec_polygonize_y(g: &VoxelGrid, iso: int, cx: int, cy_end: int) -> Seq<Point3>
    decreases cy_end,
{
    if cy_end <= 0 {
        Seq::empty()
    } else {
        spec_polygonize_y(g, iso, cx, cy_end - 1) + spec_polygonize_z(
            g,
            iso,
            cx,
            cy_end - 1,
            g.spec_n() - 1,
        )
    }
}

/// The triangles of cells (a, *, *) for a below `cx_end`, in (x, y, z) order.
pub open spec fn spec_polygonize_x(g: &VoxelGrid, iso: int, cx_end: int) -> Seq<Point3>
    decreases cx_end,
{
    if cx_end <= 0 {
        Seq::empty()
    } else {
        spec_polygonize_x(g, iso, cx_end - 1) + spec_polygonize_y(g, iso, cx_end - 1, g.spec_n()
            - 1)
    }
}

/// The whole triangle soup, cell by cell in (x, y, z) order: polygonization
/// is a pure function of the grid and the iso-level.
pub open spec fn spec_polygonize(g: &VoxelGrid, iso: int) -> Seq<Point3> {
    spec_polygonize_x(g, iso, g.spec_n() - 1)
}

/// The marching-cubes polygonizer: `size` cells per axis (the sample grid
/// has `size + 1` lattice points), `height` equal to `size` for the cubic
/// chunks used here, and the iso-level that defines the surface.
pub struct MarchingCubes {
    pub size: usize,
    pub height: usize,
    pub iso_level: i32,
}

impl Default for MarchingCubes {
    /// 16 cells per axis at iso-level zero.
    fn default() -> (r: Self)
        ensures
            r.size == 16,
            r.height == 16,
            r.iso_level == 0,
    {
        MarchingCubes { size: 16, height: 16, iso_level: 0 }
    }
}

impl MarchingCubes {
    /// Emits the iso-surface of `grid` as independent triangles, three
    /// fixed-point vertices per triangle, in grid-local coordinates.
    ///
    /// The triangle soup is empty exactly when no cell of the grid crosses
    /// the iso-level; in particular a uniformly solid or uniformly empty
    /// grid yields no triangles, and a crossed cell always yields some.
    #[verifier::rlimit(100)]
    pub fn polygonize(&self, grid: &VoxelGrid) -> (r: Vec<Point3>)
        requires
            grid.wf(),
            self.size + 1 == grid.spec_n(),
            self.height == self.size,
            -VAL_MAX <= self.iso_level <= VAL_MAX,
        ensures
            r@ == spec_polygonize(grid, self.iso_level as int),
            r@.len() % 3 == 0,
            forall|i: int|
                0 <= i < r@.len() ==> {
                    &&& 0 <= #[trigger] r@[i].x <= (grid.spec_n() - 1) * FP
                    &&& 0 <= r@[i].y <= (grid.spec_n() - 1) * FP
                    &&& 0 <= r@[i].z <= (grid.spec_n() - 1) * FP
                },
            (forall|a: int, b: int, c: int|
                0 <= a < grid.spec_n() - 1 && 0 <= b < grid.spec_n() - 1 && 0 <= c < grid.spec_n()
                    - 1 ==> !cell_mixed(grid, self.iso_level as int, a, b, c)) ==> r@.len() == 0,
            forall|a: int, b: int, c: int|
                0 <= a < grid.spec_n() - 1 && 0 <= b < grid.spec_n() - 1 && 0 <= c < grid.spec_n()
                    - 1 && #[trigger] cell_mixed(grid, self.iso_level as int, a, b, c)
                    ==> r@.len() >= 3,
    {
        proof {
            grid.lemma_wf_bounds();
        }
        let n = grid.n();
        let cells = n - 1;
        let iso = self.iso_level;
        let ghost gi = iso as int;
        let mut out: Vec<Point3> = Vec::new();
        let mut cx: usize = 0;
        while cx < cells
            invariant
                grid.wf(),
                -VAL_MAX <= iso <= VAL_MAX,
                gi == iso as int,
                n == grid.spec_n(),
                cells == n - 1,
                1 <= n <= 64,
                cx <= cells,
                out@ == spec_polygonize_x(grid, gi, cx as int),
                out@.len() % 3 == 0,
                forall|i: int|
                    0 <= i < out@.len() ==> {
                        &&& 0 <= #[trigger] out@[i].x <= (n - 1) * FP
                        &&& 0 <= out@[i].y <= (n - 1) * FP
                        &&& 0 <= out@[i].z <= (n - 1) * FP
                    },
                forall|a: int, b: int, c: int|
                    0 <= a < cx && 0 <= b < cells && 0 <= c < cells && #[trigger] cell_mixed(
                        grid,
                        gi,
                        a,
                        b,
                        c,
                    ) ==> out@.len() >= 3,
                out@.len() > 0 ==> exists|a: int, b: int, c: int|
                    0 <= a < cells && 0 <= b < cells && 0 <= c < cells && #[trigger] cell_mixed(
                        grid,
                        gi,
                        a,
                        b,
                        c,
                    ),
            decreases cells - cx,
        {
            let mut cy: usize = 0;
            while cy < cells
                invariant
                    grid.wf(),
                    -VAL_MAX <= iso <= VAL_MAX,
                    gi == iso as int,
                    n == grid.spec_n(),
                    cells == n - 1,
                    1 <= n <= 64,
                    cx < cells,
                    cy <= cells,
                    out@ == spec_polygonize_x(grid, gi, cx as int) + spec_polygonize_y(
                        grid,
                        gi,
                        cx as int,
                        cy as int,
                    ),
                    out@.len() % 3 == 0,
                    forall|i: int|
                        0 <= i < out@.len() ==> {
                            &&& 0 <= #[trigger] out@[i].x <= (n - 1) * FP
                            &&& 0 <= out@[i].y <= (n - 1) * FP
                            &&& 0 <= out@[i].z <= (n - 1) * FP
                        },
                    forall|a: int, b: int, c: int|
                        0 <= a < cells && 0 <= b < cells && 0 <= c < cells && (a < cx || (a == cx
                            && b < cy)) && #[trigger] cell_mixed(grid, gi, a, b, c)
                            ==> out@.len() >= 3,
                    out@.len() > 0 ==> exists|a: int, b: int, c: int|
                        0 <= a < cells && 0 <= b < cells && 0 <= c < cells && #[trigger] cell_mixed(
                            grid,
                            gi,
                            a,
                            b,
                            c,
                        ),
                decreases cells - cy,
            {
                let mut cz: usize = 0;
                while cz < cells
                    invariant
                        grid.wf(),
                        -VAL_MAX <= iso <= VAL_MAX,
                        gi == iso as int,
                        n == grid.spec_n(),
                        cells == n - 1,
                        1 <= n <= 64,
                        cx < cells,
                        cy < cells,
                        cz <= cells,
                        out@ == spec_polygonize_x(grid, gi, cx as int) + spec_polygonize_y(
                            grid,
                            gi,
                            cx as int,
                            cy as int,
                        ) + spec_polygonize_z(grid, gi, cx as int, cy as int, cz as int),
                        out@.len() % 3 == 0,
                        forall|i: int|
                            0 <= i < out@.len() ==> {
                                &&& 0 <= #[trigger] out@[i].x <= (n - 1) * FP
                                &&& 0 <= out@[i].y <= (n - 1) * FP
                                &&& 0 <= out@[i].z <= (n - 1) * FP
                            },
                        forall|a: int, b: int, c: int|
                            0 <= a < cells && 0 <= b < cells && 0 <= c < cells && (a < cx || (a
                                == cx && (b < cy || (b == cy && c < cz)))) && #[trigger] cell_mixed(
                                grid,
                                gi,
                                a,
                                b,
                                c,
                            ) ==> out@.len() >= 3,
                        out@.len() > 0 ==> exists|a: int, b: int, c: int|
                            0 <= a < cells && 0 <= b < cells && 0 <= c < cells
                                && #[trigger] cell_mixed(grid, gi, a, b, c),
                    decreases cells - cz,
                {
                    let mask = cell_mask(grid, iso, cx, cy, cz);
                    let rows = tri_rows(mask);
                    let ghost len0 = out@.len();
                    let ghost cell_base = out@;
                    proof {
                        assert(mask as int == spec_cell_mask(grid, iso as int, cx as int, cy as int, cz as int));
                        assert(rows@ == spec_tri_rows(mask as int));
                        assert(rows@ == spec_tri_rows(spec_cell_mask(grid, iso as int, cx as int, cy as int, cz as int)));
                        assert(out@ =~= cell_base + spec_cell_vertices(
                            grid,
                            iso as int,
                            cx as int,
                            cy as int,
                            cz as int,
                            rows@,
                            0,
                        ));
                    }
                    let mut j: usize = 0;
                    while j < rows.len()
                        invariant
                            grid.wf(),
                            -VAL_MAX <= iso <= VAL_MAX,
                            n == grid.spec_n(),
                            cells == n - 1,
                            1 <= n <= 64,
                            cx < cells,
                            cy < cells,
                            cz < cells,
                            j <= rows@.len(),
                            j % 3 == 0,
                            rows@.len() % 3 == 0,
                            rows@ == spec_tri_rows(spec_cell_mask(grid, iso as int, cx as int, cy as int, cz as int)),
                            out@ == cell_base + spec_cell_vertices(
                                grid,
                                iso as int,
                                cx as int,
                                cy as int,
                                cz as int,
                                rows@,
                                j as int,
                            ),
                            forall|i: int| 0 <= i < rows@.len() ==> #[trigger] rows@[i] < 12,
                            out@.len() == len0 + j,
                            forall|i: int|
                                0 <= i < out@.len() ==> {
                                    &&& 0 <= #[trigger] out@[i].x <= (n - 1) * FP
                                    &&& 0 <= out@[i].y <= (n - 1) * FP
                                    &&& 0 <= out@[i].z <= (n - 1) * FP
                                },
                        decreases rows@.len() - j,
                    {
                        let p0 = edge_vertex(grid, iso, cx, cy, cz, rows[j] as usize);
                        let p1 = edge_vertex(grid, iso, cx, cy, cz, rows[j + 1] as usize);
                        let p2 = edge_vertex(grid, iso, cx, cy, cz, rows[j + 2] as usize);
                        out.push(p0);
                        out.push(p1);
                        out.push(p2);
                        proof {
                            assert(out@ =~= cell_base + spec_cell_vertices(
                                grid,
                                iso as int,
                                cx as int,
                                cy as int,
                                cz as int,
                                rows@,
                                j + 3,
                            ));
                        }
                        j = j + 3;
                    }
                    proof {
                        if out@.len() > len0 {
                            assert(cell_mixed(grid, gi, cx as int, cy as int, cz as int));
                        }
                        assert(out@ =~= spec_polygonize_x(grid, gi, cx as int)
                            + spec_polygonize_y(grid, gi, cx as int, cy as int)
                            + spec_polygonize_z(grid, gi, cx as int, cy as int, cz + 1));
                    }
                    cz = cz + 1;
                }
                proof {
                    assert(out@ =~= spec_polygonize_x(grid, gi, cx as int) + spec_polygonize_y(
                        grid,
                        gi,
                        cx as int,
                        cy + 1,
                    ));
                }
                cy = cy + 1;
            }
            proof {
                assert(out@ =~= spec_polygonize_x(grid, gi, cx + 1));
            }
            cx = cx + 1;
        }
        out
    }
}

/// Equal and opposite corner samples put the crossing exactly in the
/// middle of the edge: the interpolation parameter is half of `FP`.
pub proof fn lemma_interp_midpoint(iso: int, d: int)
    requires
        1 <= d,
    ensures
        spec_interp_t(iso, iso - d, iso + d) == 128,
{
    vstd::arithmetic::div_mod::lemma_div_multiples_vanish(128, 2 * d);
    assert(d * 256 == 128 * (2 * d)) by (nonlinear_arith);
}

/// The cell configuration hits its extremes exactly on uniform cells: mask
/// 0 is an entirely empty cell, mask 255 an entirely solid one.
pub proof fn lemma_cell_mask_extremes(g: &VoxelGrid, iso: int, cx: int, cy: int, cz: int)
    ensures
        (spec_cell_mask(g, iso, cx, cy, cz) == 0) <==> cell_outside(g, iso, cx, cy, cz),
        (spec_cell_mask(g, iso, cx, cy, cz) == 255) <==> cell_inside(g, iso, cx, cy, cz),
{
    if spec_cell_mask(g, iso, cx, cy, cz) == 0 {
        assert forall|dx: int, dy: int, dz: int|
            0 <= dx <= 1 && 0 <= dy <= 1 && 0 <= dz <= 1 implies #[trigger] g.value(
            cx + dx,
            cy + dy,
            cz + dz,
        ) >= iso by {}
    }
    if spec_cell_mask(g, iso, cx, cy, cz) == 255 {
        assert forall|dx: int, dy: int, dz: int|
            0 <= dx <= 1 && 0 <= dy <= 1 && 0 <= dz <= 1 implies #[trigger] g.value(
            cx + dx,
            cy + dy,
            cz + dz,
        ) < iso by {}
    }
    if cell_outside(g, iso, cx, cy, cz) {
        assert(g.value(cx + 0, cy + 0, cz + 0) >= iso);
        assert(g.value(cx + 1, cy + 0, cz + 0) >= iso);
        assert(g.value(cx + 0, cy + 1, cz + 0) >= iso);
        assert(g.value(cx + 1, cy + 1, cz + 0) >= iso);
        assert(g.value(cx + 0, cy + 0, cz + 1) >= iso);
        assert(g.value(cx + 1, cy + 0, cz + 1) >= iso);
        assert(g.value(cx + 0, cy + 1, cz + 1) >= iso);
        assert(g.value(cx + 1, cy + 1, cz + 1) >= iso);
    }
    if cell_inside(g, iso, cx, cy, cz) {
        assert(g.value(cx + 0, cy + 0, cz + 0) < iso);
        assert(g.value(cx + 1, cy + 0, cz + 0) < iso);
        assert(g.value(cx + 0, cy + 1, cz + 0) < iso);
        assert(g.value(cx + 1, cy + 1, cz + 0) < iso);
        assert(g.value(cx + 0, cy + 0, cz + 1) < iso);
        assert(g.value(cx + 1, cy + 0, cz + 1) < iso);
        assert(g.value(cx + 0, cy + 1, cz + 1) < iso);
        assert(g.value(cx + 1, cy + 1, cz + 1) < iso);
    }
}

/// Only cells crossed by the iso-surface emit triangles: a cell that is
/// entirely solid or entirely empty contributes nothing to the soup.
pub proof fn lemma_unmixed_cell_empty(g: &VoxelGrid, iso: int, cx: int, cy: int, cz: int)
    requires
        !cell_mixed(g, iso, cx, cy, cz),
    ensures
        spec_cell(g, iso, cx, cy, cz) == Seq::<Point3>::empty(),
{
    lemma_cell_mask_extremes(g, iso, cx, cy, cz);
    assert(spec_tri_rows(0).len() == 0 && spec_tri_rows(255).len() == 0) by {
        reveal(spec_tri_rows);
    }
    let rows = spec_tri_rows(spec_cell_mask(g, iso, cx, cy, cz));
    assert(spec_cell_vertices(g, iso, cx, cy, cz, rows, rows.len() as int) =~= Seq::<
        Point3,
    >::empty());
}

/// A uniformly empty grid has no crossed cell, so polygonizing it yields
/// zero triangles.
pub proof fn lemma_uniform_outside_unmixed(g: &VoxelGrid, iso: int)
    requires
        uniform_outside(g, iso),
    ensures
        forall|a: int, b: int, c: int|
            0 <= a < g.spec_n() - 1 && 0 <= b < g.spec_n() - 1 && 0 <= c < g.spec_n() - 1
                ==> !#[trigger] cell_mixed(g, iso, a, b, c),
{
    assert forall|a: int, b: int, c: int|
        0 <= a < g.spec_n() - 1 && 0 <= b < g.spec_n() - 1 && 0 <= c < g.spec_n() - 1
            implies !#[trigger] cell_mixed(g, iso, a, b, c) by {
        assert forall|dx: int, dy: int, dz: int|
            0 <= dx <= 1 && 0 <= dy <= 1 && 0 <= dz <= 1 implies #[trigger] g.value(
            a + dx,
            b + dy,
            c + dz,
        ) >= iso by {}
        assert(cell_outside(g, iso, a, b, c));
    }
}

/// A uniformly solid grid has no crossed cell either: the surface only
/// exists where the density changes sides of the iso-level.
pub proof fn lemma_uniform_inside_unmixed(g: &VoxelGrid, iso: int)
    requires
        uniform_inside(g, iso),
    ensures
        forall|a: int, b: int, c: int|
            0 <= a < g.spec_n() - 1 && 0 <= b < g.spec_n() - 1 && 0 <= c < g.spec_n() - 1
                ==> !#[trigger] cell_mixed(g, iso, a, b, c),
{
    assert forall|a: int, b: int, c: int|
        0 <= a < g.spec_n() - 1 && 0 <= b < g.spec_n() - 1 && 0 <= c < g.spec_n() - 1
            implies !#[trigger] cell_mixed(g, iso, a, b, c) by {
        assert forall|dx: int, dy: int, dz: int|
            0 <= dx <= 1 && 0 <= dy <= 1 && 0 <= dz <= 1 implies #[trigger] g.value(
            a + dx,
            b + dy,
            c + dz,
        ) < iso by {}
        assert(cell_inside(g, iso, a, b, c));
    }
}

} // verus!
