//! A sampled density field over a box of lattice points, with an analytic
//! fallback outside the sampled region.
//!
//! Scalars are fixed-point integers (`math::FP` sub-units per world unit).

use vstd::prelude::*;
use crate::math::{FP, Vec3i};
use crate::voxel::VAL_MAX;

verus! {

/// A box of `size_x`×`size_y`×`size_z` density samples, addressed in world
/// coordinates relative to `zero_at`, empty until `set` fills it.
pub struct Density {
    size_x: usize,
    size_y: usize,
    size_z: usize,
    values: Option<Vec<i32>>,
    pub zero_at: Vec3i,
}

/// `v` pulled into the workable sample range.
pub open spec fn spec_clamp(v: int) -> int {
    if v < -VAL_MAX {
        -VAL_MAX as int
    } else if v > VAL_MAX {
        VAL_MAX as int
    } else {
        v
    }
}

/// One possible clamped output of the sampler at lattice point (x, y, z),
/// as recorded in `vals` (x-major, extents `sy`, `sz`).
pub open spec fn stored_from<F: Fn(usize, usize, usize) -> i32>(
    f: &F,
    vals: Seq<i32>,
    sy: int,
    sz: int,
    x: int,
    y: int,
    z: int,
) -> bool {
    exists|raw: i32|
        #[trigger] call_ensures(*f, (x as usize, y as usize, z as usize), raw) && vals[(x * sy + y)
            * sz + z] == spec_clamp(raw as int)
}

/// The field's sample at (x, y, z) is one possible clamped output of the
/// sampler there.
pub open spec fn sampled_from<F: Fn(usize, usize, usize) -> i32>(
    f: &F,
    d: &Density,
    x: int,
    y: int,
    z: int,
) -> bool {
    exists|raw: i32|
        #[trigger] call_ensures(*f, (x as usize, y as usize, z as usize), raw) && d.sample(x, y, z)
            == spec_clamp(raw as int)
}

/// The fallback density where no sample exists: ground level at `y == 0`,
/// solid below it and ever emptier above it.
pub open spec fn spec_fallback(y: int) -> int {
    if y == 0 {
        0
    } else {
        spec_clamp(-y * FP)
    }
}

impl Density {
    /// Structural invariant.
    pub closed spec fn wf(&self) -> bool {
        &&& 1 <= self.size_x <= 0x1000
        &&& 1 <= self.size_y <= 0x1000
        &&& 1 <= self.size_z <= 0x1000
        &&& self.size_x * self.size_y * self.size_z <= 0x1000_0000
        &&& match self.values {
            Some(v) => v@.len() == self.size_x * self.size_y * self.size_z && forall|i: int|
                0 <= i < v@.len() ==> -VAL_MAX <= #[trigger] v@[i] <= VAL_MAX,
            None => true,
        }
    }

    /// Whether `set` has filled the field yet.
    pub closed spec fn has_values(&self) -> bool {
        self.values is Some
    }

    pub closed spec fn spec_size_x(&self) -> int {
        self.size_x as int
    }

    pub closed spec fn spec_size_y(&self) -> int {
        self.size_y as int
    }

    pub closed spec fn spec_size_z(&self) -> int {
        self.size_z as int
    }

    /// The lattice point that world coordinate 0 maps to.
    pub closed spec fn spec_zero_at(&self) -> Vec3i {
        self.zero_at
    }

    /// The sample stored at lattice point (x, y, z), once `set` has run.
    pub closed spec fn sample(&self, x: int, y: int, z: int) -> int {
        match self.values {
            Some(v) => v@[(x * self.size_y + y) * self.size_z + z] as int,
            None => 0,
        }
    }

    /// An empty field of the given extent, centered so that world
    /// coordinate 0 maps to lattice point `zero_at`.
    pub fn new(size_x: usize, size_y: usize, size_z: usize, zero_at: Vec3i) -> (r: Self)
        requires
            1 <= size_x <= 0x1000,
            1 <= size_y <= 0x1000,
            1 <= size_z <= 0x1000,
            size_x * size_y * size_z <= 0x1000_0000,
        ensures
            r.wf(),
            !r.has_values(),
            r.spec_size_x() == size_x,
            r.spec_size_y() == size_y,
            r.spec_size_z() == size_z,
            r.spec_zero_at() == zero_at,
    {
        Density { size_x, size_y, size_z, values: None, zero_at }
    }

    /// Fills the field by evaluating `density` at every lattice point, in
    /// x-major order, clamping each sample into the workable range.  Every
    /// stored sample is one of the sampler's possible outputs at its point.
    pub fn set<F: Fn(usize, usize, usize) -> i32>(&mut self, density: F)
        requires
            old(self).wf(),
            forall|x: usize, y: usize, z: usize|
                x < old(self).spec_size_x() && y < old(self).spec_size_y() && z < old(
                    self,
                ).spec_size_z() ==> #[trigger] call_requires(density, (x, y, z)),
        ensures
            final(self).wf(),
            final(self).has_values(),
            final(self).spec_size_x() == old(self).spec_size_x(),
            final(self).spec_size_y() == old(self).spec_size_y(),
            final(self).spec_size_z() == old(self).spec_size_z(),
            final(self).spec_zero_at() == old(self).spec_zero_at(),
            forall|x: int, y: int, z: int|
                0 <= x < old(self).spec_size_x() && 0 <= y < old(self).spec_size_y() && 0 <= z
                    < old(self).spec_size_z() ==> #[trigger] sampled_from(
                    &density,
                    final(self),
                    x,
                    y,
                    z,
                ),
    {
        let sx = self.size_x;
        let sy = self.size_y;
        let sz = self.size_z;
        let ghost me = *self;
        let mut values: Vec<i32> = Vec::new();
        proof {
            assert(0 * (sy as int) * (sz as int) == 0) by (nonlinear_arith);
        }
        let mut x: usize = 0;
        while x < sx
            invariant
                sx == me.spec_size_x() && sy == me.spec_size_y() && sz == me.spec_size_z(),
                me.wf(),
                x <= sx,
                values@.len() == x * sy * sz,
                forall|i: int| 0 <= i < values@.len() ==> -VAL_MAX <= #[trigger] values@[i]
                    <= VAL_MAX,
                forall|a: usize, b: usize, c: usize|
                    a < me.spec_size_x() && b < me.spec_size_y() && c < me.spec_size_z()
                        ==> #[trigger] call_requires(density, (a, b, c)),
                forall|a: int, b: int, c: int|
                    0 <= a < x && 0 <= b < sy && 0 <= c < sz ==> #[trigger] stored_from(
                        &density,
                        values@,
                        sy as int,
                        sz as int,
                        a,
                        b,
                        c,
                    ),
            decreases sx - x,
        {
            let mut y: usize = 0;
            while y < sy
                invariant
                    sx == me.spec_size_x() && sy == me.spec_size_y() && sz == me.spec_size_z(),
                    me.wf(),
                    x < sx,
                    y <= sy,
                    values@.len() == x * sy * sz + y * sz,
                    forall|i: int| 0 <= i < values@.len() ==> -VAL_MAX <= #[trigger] values@[i]
                        <= VAL_MAX,
                    forall|a: usize, b: usize, c: usize|
                        a < me.spec_size_x() && b < me.spec_size_y() && c < me.spec_size_z()
                            ==> #[trigger] call_requires(density, (a, b, c)),
                    forall|a: int, b: int, c: int|
                        0 <= a < x && 0 <= b < sy && 0 <= c < sz ==> #[trigger] stored_from(
                            &density,
                            values@,
                            sy as int,
                            sz as int,
                            a,
                            b,
                            c,
                        ),
                    forall|b: int, c: int|
                        0 <= b < y && 0 <= c < sz ==> #[trigger] stored_from(
                            &density,
                            values@,
                            sy as int,
                            sz as int,
                            x as int,
                            b,
                            c,
                        ),
                decreases sy - y,
            {
                let mut z: usize = 0;
                while z < sz
                    invariant
                        sx == me.spec_size_x() && sy == me.spec_size_y() && sz == me.spec_size_z(),
                        me.wf(),
                        x < sx,
                        y < sy,
                        z <= sz,
                        values@.len() == x * sy * sz + y * sz + z,
                        forall|i: int| 0 <= i < values@.len() ==> -VAL_MAX <= #[trigger] values@[i]
                            <= VAL_MAX,
                        forall|a: usize, b: usize, c: usize|
                            a < me.spec_size_x() && b < me.spec_size_y() && c < me.spec_size_z()
                                ==> #[trigger] call_requires(density, (a, b, c)),
                        forall|a: int, b: int, c: int|
                            0 <= a < x && 0 <= b < sy && 0 <= c < sz ==> #[trigger] stored_from(
                                &density,
                                values@,
                                sy as int,
                                sz as int,
                                a,
                                b,
                                c,
                            ),
                        forall|b: int, c: int|
                            0 <= b < y && 0 <= c < sz ==> #[trigger] stored_from(
                                &density,
                                values@,
                                sy as int,
                                sz as int,
                                x as int,
                                b,
                                c,
                            ),
                        forall|c: int|
                            0 <= c < z ==> #[trigger] stored_from(
                                &density,
                                values@,
                                sy as int,
                                sz as int,
                                x as int,
                                y as int,
                                c,
                            ),
                    decreases sz - z,
                {
                    let raw = density(x, y, z);
                    let v = if raw < -VAL_MAX {
                        -VAL_MAX
                    } else if raw > VAL_MAX {
                        VAL_MAX
                    } else {
                        raw
                    };
                    proof {
                        lemma_box_index(sx as int, sy as int, sz as int, x as int, y as int, z as int);
                    }
                    let ghost pre = values@;
                    values.push(v);
                    proof {
                        assert(values@.drop_last() =~= pre);
                        assert(values@.len() - 1 == (x as int * sy + y as int) * sz + z as int);
                        assert(values@[(x as int * sy + y as int) * sz + z as int] == v);
                        assert(call_ensures(
                            density,
                            ((x as int) as usize, (y as int) as usize, (z as int) as usize),
                            raw,
                        ));
                        assert(stored_from(&density, values@, sy as int, sz as int, x as int, y as int, z as int));
                        assert forall|a: int, b: int, c: int|
                            0 <= a < x && 0 <= b < sy && 0 <= c < sz implies #[trigger] stored_from(
                            &density, values@, sy as int, sz as int, a, b, c) by {
                            lemma_box_lt(sy as int, sz as int, a, b, c, x as int, y as int, z as int);
                            assert(stored_from(&density, pre, sy as int, sz as int, a, b, c));
                            assert(pre[(a * sy + b) * sz + c] == values@[(a * sy + b) * sz + c]);
                        }
                        assert forall|b: int, c: int|
                            0 <= b < y && 0 <= c < sz implies #[trigger] stored_from(
                            &density, values@, sy as int, sz as int, x as int, b, c) by {
                            lemma_box_lt(sy as int, sz as int, x as int, b, c, x as int, y as int, z as int);
                            assert(stored_from(&density, pre, sy as int, sz as int, x as int, b, c));
                            assert(pre[(x as int * sy + b) * sz + c] == values@[(x as int * sy + b) * sz + c]);
                        }
                        assert forall|c: int| 0 <= c < z implies #[trigger] stored_from(
                            &density, values@, sy as int, sz as int, x as int, y as int, c) by {
                            lemma_box_lt(sy as int, sz as int, x as int, y as int, c, x as int, y as int, z as int);
                            assert(stored_from(&density, pre, sy as int, sz as int, x as int, y as int, c));
                            assert(pre[(x as int * sy + y as int) * sz + c] == values@[(x as int * sy + y as int) * sz + c]);
                        }
                    }
                    z = z + 1;
                }
                proof {
                    assert(x as int * sy * sz + (y as int + 1) * sz == x as int * sy * sz + y as int
                        * sz + sz) by (nonlinear_arith);
                    assert forall|b: int, c: int|
                        0 <= b < y + 1 && 0 <= c < sz implies #[trigger] stored_from(
                        &density, values@, sy as int, sz as int, x as int, b, c) by {}
                }
                y = y + 1;
            }
            proof {
                assert((x as int + 1) * sy * sz == x as int * sy * sz + sy * sz) by (nonlinear_arith);
                assert forall|a: int, b: int, c: int|
                    0 <= a < x + 1 && 0 <= b < sy && 0 <= c < sz implies #[trigger] stored_from(
                    &density, values@, sy as int, sz as int, a, b, c) by {}
            }
            x = x + 1;
        }
        proof {
            lemma_box_last(sx as int, sy as int, sz as int);
        }
        let ghost vals = values@;
        self.values = Some(values);
        proof {
            assert forall|x: int, y: int, z: int|
                0 <= x < sx && 0 <= y < sy && 0 <= z < sz implies #[trigger] sampled_from(
                &density,
                self,
                x,
                y,
                z,
            ) by {
                lemma_box_index(sx as int, sy as int, sz as int, x, y, z);
                assert(stored_from(&density, vals, sy as int, sz as int, x, y, z));
                let raw = choose|raw: i32|
                    call_ensures(density, (x as usize, y as usize, z as usize), raw) && vals[(x * (
                    sy as int) + y) * (sz as int) + z] == spec_clamp(raw as int);
                assert(self.sample(x, y, z) == vals[(x * (sy as int) + y) * (sz as int) + z]);
                assert(call_ensures(density, (x as usize, y as usize, z as usize), raw));
            }
        }
    }

    /// The density at world coordinate (x, y, z): the stored sample where
    /// one exists strictly inside the sampled box, else the analytic
    /// fallback.
    pub fn value(&self, x: i32, y: i32, z: i32) -> (r: i32)
        requires
            self.wf(),
        ensures
            -VAL_MAX <= r <= VAL_MAX,
            ({
                let xo = self.spec_zero_at().x + x;
                let yo = self.spec_zero_at().y + y;
                let zo = self.spec_zero_at().z + z;
                if self.has_values() && 0 < xo < self.spec_size_x() && 0 < yo < self.spec_size_y()
                    && 0 < zo < self.spec_size_z() {
                    r == self.sample(xo, yo, zo)
                } else {
                    r == spec_fallback(y as int)
                }
            }),
    {
        if self.values.is_some() {
            let xo = self.zero_at.x as i64 + x as i64;
            let yo = self.zero_at.y as i64 + y as i64;
            let zo = self.zero_at.z as i64 + z as i64;
            if 0 < xo && 0 < yo && 0 < zo && xo < self.size_x as i64 && yo < self.size_y as i64
                && zo < self.size_z as i64 {
                proof {
                    lemma_box_index(
                        self.size_x as int,
                        self.size_y as int,
                        self.size_z as int,
                        xo as int,
                        yo as int,
                        zo as int,
                    );
                }
                match self.values.as_ref() {
                    Some(v) => {
                        return v[((xo as usize) * self.size_y + yo as usize) * self.size_z
                            + zo as usize];
                    },
                    None => {},
                }
            }
        }
        if y == 0 {
            0
        } else {
            let raw = -(y as i64) * FP;
            if raw < -(VAL_MAX as i64) {
                -VAL_MAX
            } else if raw > VAL_MAX as i64 {
                VAL_MAX
            } else {
                raw as i32
            }
        }
    }
}

proof fn lemma_box_index(sx: int, sy: int, sz: int, x: int, y: int, z: int)
    requires
        1 <= sx <= 0x1000,
        1 <= sy <= 0x1000,
        1 <= sz <= 0x1000,
        0 <= x < sx,
        0 <= y < sy,
        0 <= z < sz,
    ensures
        0 <= (x * sy + y) * sz + z < sx * sy * sz,
        x * sy * sz + y * sz + z == (x * sy + y) * sz + z,
        0 <= x * sy + y < sx * sy,
        sx * sy <= 0x100_0000,
{
    assert((x * sy + y) * sz + z < sx * sy * sz && x * sy * sz + y * sz == (x * sy + y) * sz && 0
        <= x * sy + y < sx * sy && sx * sy <= 0x100_0000) by (nonlinear_arith)
        requires
            1 <= sx <= 0x1000,
            1 <= sy <= 0x1000,
            1 <= sz <= 0x1000,
            0 <= x < sx,
            0 <= y < sy,
            0 <= z < sz,
    ;
    assert(0 <= (x * sy + y) * sz + z) by (nonlinear_arith)
        requires
            1 <= sz,
            0 <= x * sy + y,
            0 <= z,
    ;
}

proof fn lemma_box_lt(sy: int, sz: int, a: int, b: int, c: int, x: int, y: int, z: int)
    requires
        1 <= sy,
        1 <= sz,
        0 <= a,
        0 <= b < sy,
        0 <= c < sz,
        0 <= y,
        0 <= z,
        a < x || (a == x && b < y) || (a == x && b == y && c < z),
    ensures
        0 <= (a * sy + b) * sz + c,
        (a * sy + b) * sz + c < x * sy * sz + y * sz + z,
{
    assert(0 <= (a * sy + b) * sz + c && (a * sy + b) * sz + c < x * sy * sz + y * sz + z)
        by (nonlinear_arith)
        requires
            1 <= sy,
            1 <= sz,
            0 <= a,
            0 <= b < sy,
            0 <= c < sz,
            0 <= y,
            0 <= z,
            a < x || (a == x && b < y) || (a == x && b == y && c < z),
    ;
}

proof fn lemma_box_last(sx: int, sy: int, sz: int)
    requires
        1 <= sx,
        1 <= sy,
        1 <= sz,
    ensures
        sx * sy * sz == (sx - 1) * sy * sz + (sy - 1) * sz + sz,
{
    assert(sx * sy * sz == (sx - 1) * sy * sz + (sy - 1) * sz + sz) by (nonlinear_arith);
}

} // verus!
