//! A fixed-size cube of scalar density samples, one per lattice point.
//!
//! Scalars are fixed-point integers (`math::FP` sub-units), with the sign
//! convention used throughout: a sample strictly below the iso-level is
//! inside the solid, one at or above it is empty space.

use vstd::prelude::*;

verus! {

/// Samples are kept within this magnitude so that every interpolation the
/// polygonizer performs stays exact in 64 bits.
pub const VAL_MAX: i32 = 0x4000_0000;

/// A cube of `n`×`n`×`n` density samples in x-major order.
pub struct VoxelGrid {
    n: usize,
    values: Vec<i32>,
}

impl VoxelGrid {
    /// Structural invariant: a real cube of bounded samples.
    pub closed spec fn wf(&self) -> bool {
        &&& 2 <= self.n <= 64
        &&& self.values@.len() == self.n * self.n * self.n
        &&& forall|i: int|
            0 <= i < self.values@.len() ==> -VAL_MAX <= #[trigger] self.values@[i] <= VAL_MAX
    }

    /// Samples per axis.
    pub closed spec fn spec_n(&self) -> int {
        self.n as int
    }

    /// The sample at lattice point (x, y, z).
    pub closed spec fn value(&self, x: int, y: int, z: int) -> int {
        self.values@[(x * self.n + y) * self.n + z] as int
    }

    /// Builds a grid from `n`³ samples in x-major order, each clamped to
    /// the workable magnitude.
    pub fn from_values(n: usize, values: Vec<i32>) -> (r: Self)
        requires
            2 <= n <= 64,
            values@.len() == n * n * n,
            forall|i: int| 0 <= i < values@.len() ==> -VAL_MAX <= #[trigger] values@[i] <= VAL_MAX,
        ensures
            r.wf(),
            r.spec_n() == n,
            forall|x: int, y: int, z: int|
                0 <= x < n && 0 <= y < n && 0 <= z < n ==> #[trigger] r.value(x, y, z) == values@[(
                x * n + y) * n + z],
    {
        let r = VoxelGrid { n, values };
        proof {
            assert forall|x: int, y: int, z: int|
                0 <= x < n && 0 <= y < n && 0 <= z < n implies #[trigger] r.value(x, y, z)
                == values@[(x * n + y) * n + z] by {}
        }
        r
    }

    /// `wf` keeps the axis length small; callers outside this module rely
    /// on the bound for their own overflow arguments.
    pub proof fn lemma_wf_bounds(&self)
        requires
            self.wf(),
        ensures
            2 <= self.spec_n() <= 64,
    {
    }

    /// Samples per axis.
    pub fn n(&self) -> (r: usize)
        ensures
            r == self.spec_n(),
    {
        self.n
    }

    /// Reads the sample at lattice point (x, y, z).
    pub fn at(&self, x: usize, y: usize, z: usize) -> (r: i32)
        requires
            self.wf(),
            x < self.spec_n(),
            y < self.spec_n(),
            z < self.spec_n(),
        ensures
            r == self.value(x as int, y as int, z as int),
            -VAL_MAX <= r <= VAL_MAX,
    {
        proof {
            lemma_grid_index_bound(self.n as int, x as int, y as int, z as int);
        }
        self.values[(x * self.n + y) * self.n + z]
    }
}

proof fn lemma_grid_index_bound(n: int, x: int, y: int, z: int)
    requires
        2 <= n <= 64,
        0 <= x < n,
        0 <= y < n,
        0 <= z < n,
    ensures
        0 <= (x * n + y) * n + z < n * n * n,
        0 <= x * n + y < n * n,
        n * n <= 0x1000,
        n * n * n <= 0x40000,
{
    assert(x * n + y < n * n && n * n <= 64 * 64 && n * n * n <= 64 * 64 * 64) by (nonlinear_arith)
        requires
            2 <= n <= 64,
            0 <= x < n,
            0 <= y < n,
    ;
    assert((x * n + y) * n + z < n * n * n) by (nonlinear_arith)
        requires
            2 <= n,
            0 <= x < n,
            0 <= y < n,
            0 <= z < n,
    ;
    assert(0 <= (x * n + y) * n + z) by (nonlinear_arith)
        requires
            2 <= n,
            0 <= x,
            0 <= y,
            0 <= z,
    ;
}

/// Every sample is at or above `iso`: the whole cube is empty space.
pub open spec fn uniform_outside(g: &VoxelGrid, iso: int) -> bool {
    forall|x: int, y: int, z: int|
        0 <= x < g.spec_n() && 0 <= y < g.spec_n() && 0 <= z < g.spec_n() ==> #[trigger] g.value(
            x,
            y,
            z,
        ) >= iso
}

/// Every sample is below `iso`: the whole cube is solid.
pub open spec fn uniform_inside(g: &VoxelGrid, iso: int) -> bool {
    forall|x: int, y: int, z: int|
        0 <= x < g.spec_n() && 0 <= y < g.spec_n() && 0 <= z < g.spec_n() ==> #[trigger] g.value(
            x,
            y,
            z,
        ) < iso
}

} // verus!
