//! Integer vector types and the exact arithmetic helpers the octree and the
//! level-of-detail selector are built on.

use vstd::prelude::*;

verus! {

/// Fixed-point sub-units per world unit, shared by viewer positions and mesh
/// vertices.
pub const FP: i64 = 256;

/// Integer 3D coordinate in world units; also the octree key type.
#[derive(Clone, Copy, PartialEq, Eq, Structural, Debug, Hash)]
pub struct Vec3i {
    pub x: i32,
    pub y: i32,
    pub z: i32,
}

impl Vec3i {
    pub fn new(x: i32, y: i32, z: i32) -> (r: Self)
        ensures
            r == (Vec3i { x, y, z }),
    {
        Vec3i { x, y, z }
    }
}

/// Fixed-point 3D position: `FP` sub-units per world unit.
#[derive(Clone, Copy, PartialEq, Eq, Structural, Debug)]
pub struct Point3 {
    pub x: i64,
    pub y: i64,
    pub z: i64,
}

impl Point3 {
    pub fn new(x: i64, y: i64, z: i64) -> (r: Self)
        ensures
            r == (Point3 { x, y, z }),
    {
        Point3 { x, y, z }
    }
}

/// 2 to the power `n`.
pub open spec fn pow2(n: nat) -> nat
    decreases n,
{
    if n == 0 {
        1
    } else {
        2 * pow2((n - 1) as nat)
    }
}

pub proof fn lemma_pow2_pos(n: nat)
    ensures
        pow2(n) >= 1,
    decreases n,
{
    if n > 0 {
        lemma_pow2_pos((n - 1) as nat);
    }
}

pub proof fn lemma_pow2_monotone(a: nat, b: nat)
    requires
        a <= b,
    ensures
        pow2(a) <= pow2(b),
    decreases b,
{
    if a < b && b > 0 {
        lemma_pow2_monotone(a, (b - 1) as nat);
        lemma_pow2_pos((b - 1) as nat);
    }
}

/// 2 to the power `n` as an `i32`; the scale factor of a level of detail.
pub fn pow2_i32(n: usize) -> (r: i32)
    requires
        n <= 30,
    ensures
        r == pow2(n as nat),
        1 <= r <= 0x4000_0000,
{
    proof {
        assert(pow2(30) == 0x4000_0000) by {
            reveal_with_fuel(pow2, 31);
        }
    }
    let mut r: i32 = 1;
    let mut i: usize = 0;
    while i < n
        invariant
            i <= n <= 30,
            r == pow2(i as nat),
            1 <= r,
            r <= 0x4000_0000,
            pow2(30) == 0x4000_0000,
        decreases n - i,
    {
        proof {
            lemma_pow2_monotone((i + 1) as nat, n as nat);
            lemma_pow2_monotone(n as nat, 30);
        }
        r = r * 2;
        i = i + 1;
    }
    r
}

/// Floor division: rounds toward negative infinity, as the octree's octant
/// arithmetic requires (spec-level `/` on `int` is Euclidean, which agrees
/// with floor for a positive divisor).
pub fn floor_div(a: i32, b: i32) -> (r: i32)
    requires
        1 <= b,
    ensures
        r == a as int / b as int,
{
    let q = a / b;
    let rem = a % b;
    proof {
        if a < 0 {
            lemma_floor_of_truncating_div(a as int, b as int);
        }
    }
    if rem != 0 && a < 0 {
        q - 1
    } else {
        q
    }
}

/// Relates Rust's truncating division of `a` by `b` (which Verus expresses
/// through Euclidean division of the magnitudes) to the Euclidean quotient.
proof fn lemma_floor_of_truncating_div(a: int, b: int)
    requires
        1 <= b,
        -0x8000_0000 <= a < 0,
    ensures
        (-a) % b == 0 ==> a / b == -((-a) / b),
        (-a) % b != 0 ==> a / b == -((-a) / b) - 1 && -((-a) / b) - 1 >= -0x4000_0001,
{
    let m = -a;
    vstd::arithmetic::div_mod::lemma_fundamental_div_mod(m, b);
    vstd::arithmetic::div_mod::lemma_mod_bound(m, b);
    if m % b == 0 {
        assert(a == -(m / b) * b + 0) by (nonlinear_arith)
            requires
                m == b * (m / b) + m % b,
                a == -m,
                m % b == 0,
        ;
        vstd::arithmetic::div_mod::lemma_fundamental_div_mod_converse(a, b, -(m / b), 0);
    } else {
        assert(b >= 2);
        assert(a == (-(m / b) - 1) * b + (b - m % b)) by (nonlinear_arith)
            requires
                m == b * (m / b) + m % b,
                a == -m,
        ;
        vstd::arithmetic::div_mod::lemma_fundamental_div_mod_converse(
            a,
            b,
            -(m / b) - 1,
            b - m % b,
        );
        vstd::arithmetic::div_mod::lemma_div_is_ordered_by_denominator(m, 2, b);
        assert(m / 2 <= 0x4000_0000);
    }
}

/// Squared distance between two fixed-point points.
pub open spec fn dist2(a: Point3, b: Point3) -> int {
    (a.x - b.x) * (a.x - b.x) + (a.y - b.y) * (a.y - b.y) + (a.z - b.z) * (a.z - b.z)
}

/// Squared distance, computed wide enough that no inputs in range can
/// overflow.
pub fn dist2_i128(a: &Point3, b: &Point3) -> (r: i128)
    requires
        -0x1000_0000_0000_0000 <= a.x <= 0x1000_0000_0000_0000,
        -0x1000_0000_0000_0000 <= a.y <= 0x1000_0000_0000_0000,
        -0x1000_0000_0000_0000 <= a.z <= 0x1000_0000_0000_0000,
        -0x1000_0000_0000_0000 <= b.x <= 0x1000_0000_0000_0000,
        -0x1000_0000_0000_0000 <= b.y <= 0x1000_0000_0000_0000,
        -0x1000_0000_0000_0000 <= b.z <= 0x1000_0000_0000_0000,
    ensures
        r == dist2(*a, *b),
        r >= 0,
{
    let dx = a.x as i128 - b.x as i128;
    let dy = a.y as i128 - b.y as i128;
    let dz = a.z as i128 - b.z as i128;
    proof {
        lemma_square_bound(dx as int);
        lemma_square_bound(dy as int);
        lemma_square_bound(dz as int);
    }
    dx * dx + dy * dy + dz * dz
}

proof fn lemma_square_bound(d: int)
    requires
        -0x2000_0000_0000_0000 <= d <= 0x2000_0000_0000_0000,
    ensures
        0 <= d * d <= 0x400_0000_0000_0000_0000_0000_0000_0000,
{
    assert(0 <= d * d <= 0x400_0000_0000_0000_0000_0000_0000_0000) by (nonlinear_arith)
        requires
            -0x2000_0000_0000_0000 <= d <= 0x2000_0000_0000_0000,
    ;
}

/// Floor division on 64 bits, for chunk-aligning fixed-point positions.
pub fn floor_div_i64(a: i64, b: i64) -> (r: i64)
    requires
        1 <= b,
    ensures
        r == a as int / b as int,
{
    let q = a / b;
    let rem = a % b;
    proof {
        if a < 0 {
            lemma_floor_of_truncating_div64(a as int, b as int);
        }
    }
    if rem != 0 && a < 0 {
        q - 1
    } else {
        q
    }
}

/// The 64-bit sibling of `lemma_floor_of_truncating_div`.
proof fn lemma_floor_of_truncating_div64(a: int, b: int)
    requires
        1 <= b,
        -0x8000_0000_0000_0000 <= a < 0,
    ensures
        (-a) % b == 0 ==> a / b == -((-a) / b),
        (-a) % b != 0 ==> a / b == -((-a) / b) - 1 && -((-a) / b) - 1 >= -0x4000_0000_0000_0001,
{
    let m = -a;
    vstd::arithmetic::div_mod::lemma_fundamental_div_mod(m, b);
    vstd::arithmetic::div_mod::lemma_mod_bound(m, b);
    if m % b == 0 {
        assert(a == -(m / b) * b + 0) by (nonlinear_arith)
            requires
                m == b * (m / b) + m % b,
                a == -m,
                m % b == 0,
        ;
        vstd::arithmetic::div_mod::lemma_fundamental_div_mod_converse(a, b, -(m / b), 0);
    } else {
        assert(b >= 2);
        assert(a == (-(m / b) - 1) * b + (b - m % b)) by (nonlinear_arith)
            requires
                m == b * (m / b) + m % b,
                a == -m,
        ;
        vstd::arithmetic::div_mod::lemma_fundamental_div_mod_converse(
            a,
            b,
            -(m / b) - 1,
            b - m % b,
        );
        vstd::arithmetic::div_mod::lemma_div_is_ordered_by_denominator(m, 2, b);
        assert(m / 2 <= 0x4000_0000_0000_0000);
    }
}

} // verus!
