//! Mesh data in fixed-point coordinates, and the per-vertex normal
//! reconstruction that runs after polygonization: face normals by cross
//! product, averaged into a bucket per vertex of the unwelded soup.

use vstd::prelude::*;
use crate::math::Point3;

verus! {

/// Mesh vertex positions stay within this magnitude so that every cross
/// product stays exact in 64 bits.
pub const POS_MAX: i64 = 0x100_0000;

/// Normals are unit vectors in `FP` sub-units; averaging keeps them within
/// a hair of that.
pub const NORMAL_MAX: i64 = 257;


/// The cube's 24 vertex positions, quad by quad.
pub open spec fn spec_cube_positions() -> Seq<Point3> {
    seq![
        Point3 { x: -256i64, y: -256i64, z: 256i64 },
        Point3 { x: 256i64, y: -256i64, z: 256i64 },
        Point3 { x: 256i64, y: 256i64, z: 256i64 },
        Point3 { x: -256i64, y: 256i64, z: 256i64 },
        Point3 { x: 256i64, y: 256i64, z: -256i64 },
        Point3 { x: -256i64, y: 256i64, z: -256i64 },
        Point3 { x: -256i64, y: 256i64, z: 256i64 },
        Point3 { x: 256i64, y: 256i64, z: 256i64 },
        Point3 { x: 256i64, y: -256i64, z: -256i64 },
        Point3 { x: 256i64, y: 256i64, z: -256i64 },
        Point3 { x: 256i64, y: 256i64, z: 256i64 },
        Point3 { x: 256i64, y: -256i64, z: 256i64 },
        Point3 { x: -256i64, y: -256i64, z: 256i64 },
        Point3 { x: -256i64, y: 256i64, z: 256i64 },
        Point3 { x: -256i64, y: 256i64, z: -256i64 },
        Point3 { x: -256i64, y: -256i64, z: -256i64 },
        Point3 { x: -256i64, y: 256i64, z: -256i64 },
        Point3 { x: 256i64, y: 256i64, z: -256i64 },
        Point3 { x: 256i64, y: -256i64, z: -256i64 },
        Point3 { x: -256i64, y: -256i64, z: -256i64 },
        Point3 { x: 256i64, y: -256i64, z: 256i64 },
        Point3 { x: -256i64, y: -256i64, z: 256i64 },
        Point3 { x: -256i64, y: -256i64, z: -256i64 },
        Point3 { x: 256i64, y: -256i64, z: -256i64 },
    ]
}

/// The cube's outward axis normals, one per vertex.
pub open spec fn spec_cube_normals() -> Seq<Point3> {
    seq![
        Point3 { x: 0i64, y: 0i64, z: 256i64 },
        Point3 { x: 0i64, y: 0i64, z: 256i64 },
        Point3 { x: 0i64, y: 0i64, z: 256i64 },
        Point3 { x: 0i64, y: 0i64, z: 256i64 },
        Point3 { x: 0i64, y: 256i64, z: 0i64 },
        Point3 { x: 0i64, y: 256i64, z: 0i64 },
        Point3 { x: 0i64, y: 256i64, z: 0i64 },
        Point3 { x: 0i64, y: 256i64, z: 0i64 },
        Point3 { x: 256i64, y: 0i64, z: 0i64 },
        Point3 { x: 256i64, y: 0i64, z: 0i64 },
        Point3 { x: 256i64, y: 0i64, z: 0i64 },
        Point3 { x: 256i64, y: 0i64, z: 0i64 },
        Point3 { x: -256i64, y: 0i64, z: 0i64 },
        Point3 { x: -256i64, y: 0i64, z: 0i64 },
        Point3 { x: -256i64, y: 0i64, z: 0i64 },
        Point3 { x: -256i64, y: 0i64, z: 0i64 },
        Point3 { x: 0i64, y: 0i64, z: -256i64 },
        Point3 { x: 0i64, y: 0i64, z: -256i64 },
        Point3 { x: 0i64, y: 0i64, z: -256i64 },
        Point3 { x: 0i64, y: 0i64, z: -256i64 },
        Point3 { x: 0i64, y: -256i64, z: 0i64 },
        Point3 { x: 0i64, y: -256i64, z: 0i64 },
        Point3 { x: 0i64, y: -256i64, z: 0i64 },
        Point3 { x: 0i64, y: -256i64, z: 0i64 },
    ]
}

/// The cube's uv corners, one per vertex.
pub open spec fn spec_cube_uvs() -> Seq<[i64; 2]> {
    seq![
        [0i64, 0i64],
        [256i64, 0i64],
        [256i64, 256i64],
        [0i64, 256i64],
        [256i64, 0i64],
        [0i64, 0i64],
        [0i64, 256i64],
        [256i64, 256i64],
        [0i64, 0i64],
        [256i64, 0i64],
        [256i64, 256i64],
        [0i64, 256i64],
        [256i64, 0i64],
        [0i64, 0i64],
        [0i64, 256i64],
        [256i64, 256i64],
        [256i64, 0i64],
        [0i64, 0i64],
        [0i64, 256i64],
        [256i64, 256i64],
        [0i64, 0i64],
        [256i64, 0i64],
        [256i64, 256i64],
        [0i64, 256i64],
    ]
}

/// The cube's 12 triangles, two per face.
pub open spec fn spec_cube_indices() -> Seq<u32> {
    seq![0u32, 1u32, 2u32, 2u32, 3u32, 0u32, 4u32, 5u32, 6u32, 6u32, 7u32, 4u32, 8u32, 9u32, 10u32, 10u32, 11u32, 8u32, 12u32, 13u32, 14u32, 14u32, 15u32, 12u32, 16u32, 17u32, 18u32, 18u32, 19u32, 16u32, 20u32, 21u32, 22u32, 22u32, 23u32, 20u32]
}


/// Rust's truncating halving of a possibly negative sum, as the averaging
/// step computes it.
pub open spec fn spec_halve(s: int) -> int {
    if s >= 0 {
        s / 2
    } else {
        -((-s) / 2)
    }
}

/// `c * FP / l` with Rust's truncating division.
pub open spec fn spec_scale(c: int, l: int) -> int {
    if c >= 0 {
        c * 256 / l
    } else {
        -((-c) * 256 / l)
    }
}

/// The integer square root, defined from below.
pub open spec fn spec_isqrt(x: nat) -> nat
    decreases x,
{
    if x == 0 {
        0
    } else {
        let p = spec_isqrt((x - 1) as nat);
        if (p + 1) * (p + 1) <= x {
            p + 1
        } else {
            p
        }
    }
}

/// `spec_isqrt` really is the greatest root not exceeding its argument.
pub proof fn lemma_isqrt_char(x: nat)
    ensures
        (spec_isqrt(x) as int) * (spec_isqrt(x) as int) <= x as int,
        (x as int) < ((spec_isqrt(x) as int) + 1) * ((spec_isqrt(x) as int) + 1),
    decreases x,
{
    if x > 0 {
        lemma_isqrt_char((x - 1) as nat);
        let p = spec_isqrt((x - 1) as nat) as int;
        let s = spec_isqrt(x) as int;
        if (spec_isqrt((x - 1) as nat) + 1) * (spec_isqrt((x - 1) as nat) + 1) <= x {
            assert((p + 1) * (p + 1) <= x as int) by (nonlinear_arith)
                requires
                    ((spec_isqrt((x - 1) as nat) + 1) * (spec_isqrt((x - 1) as nat) + 1)) as int
                        <= x as int,
                    p == spec_isqrt((x - 1) as nat) as int,
                    p >= 0,
            ;
            assert(s == p + 1);
            assert(s * s == (p + 1) * (p + 1));
            assert((x as int) < (p + 2) * (p + 2)) by (nonlinear_arith)
                requires
                    (x as int) - 1 < (p + 1) * (p + 1),
                    p >= 0,
            ;
            assert((s + 1) * (s + 1) == (p + 2) * (p + 2));
        } else {
            assert(!((spec_isqrt((x - 1) as nat) + 1) * (spec_isqrt((x - 1) as nat) + 1) <= x));
            assert((x as int) < (p + 1) * (p + 1)) by (nonlinear_arith)
                requires
                    !(((spec_isqrt((x - 1) as nat) + 1) * (spec_isqrt((x - 1) as nat) + 1)) as int
                        <= x as int),
                    p == spec_isqrt((x - 1) as nat) as int,
                    p >= 0,
            ;
            assert(s == p);
            assert(s * s == p * p);
            assert((s + 1) * (s + 1) == (p + 1) * (p + 1));
        }
    } else {
        assert(spec_isqrt(0) == 0);
    }
}

proof fn lemma_isqrt_unique(x: nat, r: nat)
    requires
        (r as int) * (r as int) <= x as int,
        (x as int) < ((r as int) + 1) * ((r as int) + 1),
    ensures
        r == spec_isqrt(x),
{
    lemma_isqrt_char(x);
    let s = spec_isqrt(x) as int;
    let ri = r as int;
    assert(ri == s) by (nonlinear_arith)
        requires
            ri * ri <= x as int,
            (x as int) < (ri + 1) * (ri + 1),
            s * s <= x as int,
            (x as int) < (s + 1) * (s + 1),
            ri >= 0,
            s >= 0,
    ;
}

/// The unit face normal of a triangle: cross product of its edge vectors,
/// scaled to `FP` sub-units by its own integer length; the zero vector for
/// a degenerate (zero-area) triangle.
pub open spec fn spec_face_normal(p0: Point3, p1: Point3, p2: Point3) -> Point3 {
    let ux = p1.x - p0.x;
    let uy = p1.y - p0.y;
    let uz = p1.z - p0.z;
    let vx = p2.x - p1.x;
    let vy = p2.y - p1.y;
    let vz = p2.z - p1.z;
    let nx = uy * vz - uz * vy;
    let ny = uz * vx - ux * vz;
    let nz = ux * vy - uy * vx;
    let len = spec_isqrt((nx * nx + ny * ny + nz * nz) as nat) as int;
    if len == 0 {
        Point3 { x: 0, y: 0, z: 0 }
    } else {
        Point3 {
            x: spec_scale(nx, len) as i64,
            y: spec_scale(ny, len) as i64,
            z: spec_scale(nz, len) as i64,
        }
    }
}

/// One bucket after a face's contribution: the first contribution lands as
/// is, later ones average with what is there.
pub open spec fn spec_bucket(cur: Point3, touched: bool, n: Point3) -> Point3 {
    if !touched {
        n
    } else {
        Point3 {
            x: spec_halve(n.x + cur.x) as i64,
            y: spec_halve(n.y + cur.y) as i64,
            z: spec_halve(n.z + cur.z) as i64,
        }
    }
}

/// One accumulation step on the (buckets, touched) state.
pub open spec fn spec_acc(st: (Seq<Point3>, Seq<bool>), i: int, n: Point3) -> (
    Seq<Point3>,
    Seq<bool>,
) {
    (st.0.update(i, spec_bucket(st.0[i], st.1[i], n)), st.1.update(i, true))
}

/// The vertex index of corner `k` of face `f`.
pub open spec fn spec_face_index(indices: Option<Seq<u32>>, f: int, k: int) -> int {
    match indices {
        Some(ix) => ix[3 * f + k] as int,
        None => 3 * f + k,
    }
}

/// The normal buckets and touched flags after the first `f` faces have
/// contributed, starting from all-zero untouched buckets.
pub open spec fn spec_normals_state(
    positions: Seq<Point3>,
    indices: Option<Seq<u32>>,
    f: int,
) -> (Seq<Point3>, Seq<bool>)
    decreases f,
{
    if f <= 0 {
        (
            Seq::new(positions.len(), |i: int| Point3 { x: 0, y: 0, z: 0 }),
            Seq::new(positions.len(), |i: int| false),
        )
    } else {
        let prev = spec_normals_state(positions, indices, f - 1);
        let i0 = spec_face_index(indices, f - 1, 0);
        let i1 = spec_face_index(indices, f - 1, 1);
        let i2 = spec_face_index(indices, f - 1, 2);
        let n = spec_face_normal(positions[i0], positions[i1], positions[i2]);
        spec_acc(spec_acc(spec_acc(prev, i0, n), i1, n), i2, n)
    }
}

/// What `calculate` reconstructs: every face's unit normal folded into its
/// three vertices' buckets, in face order, averaging on repeats.
pub open spec fn spec_normals(positions: Seq<Point3>, indices: Option<Seq<u32>>) -> Seq<Point3> {
    let count = match indices {
        Some(ix) => ix.len() as int,
        None => positions.len() as int,
    };
    spec_normals_state(positions, indices, count / 3).0
}

/// The index list as a spec value.
pub open spec fn indices_view(indices: &Option<Vec<u32>>) -> Option<Seq<u32>> {
    match indices {
        Some(v) => Some(v@),
        None => None,
    }
}

/// A triangle mesh: positions always, the rest optional.  Triangles come
/// either from `indices` or from consecutive position triples.
pub struct Mesh {
    pub positions: Vec<Point3>,
    pub normals: Option<Vec<Point3>>,
    pub uvs: Option<Vec<[i64; 2]>>,
    pub indices: Option<Vec<u32>>,
}

impl Mesh {
    /// Bounded positions and in-range indices.
    pub open spec fn wf(&self) -> bool {
        &&& forall|i: int|
            0 <= i < self.positions@.len() ==> {
                &&& -POS_MAX <= (#[trigger] self.positions@[i]).x <= POS_MAX
                &&& -POS_MAX <= self.positions@[i].y <= POS_MAX
                &&& -POS_MAX <= self.positions@[i].z <= POS_MAX
            }
        &&& match self.indices {
            Some(ix) => forall|i: int|
                0 <= i < ix@.len() ==> (#[trigger] ix@[i]) < self.positions@.len(),
            None => true,
        }
    }

    /// How many vertices the draw call will consume: the index count when
    /// the mesh is indexed, else the position count.
    pub fn indices_count(&self) -> (r: u32)
        requires
            self.wf(),
            self.positions@.len() < 0x1_0000_0000,
            match self.indices {
                Some(ix) => ix@.len() < 0x1_0000_0000,
                None => true,
            },
        ensures
            r == match self.indices {
                Some(ix) => ix@.len() as int,
                None => self.positions@.len() as int,
            },
    {
        match self.indices.as_ref() {
            Some(ix) => ix.len() as u32,
            None => self.positions.len() as u32,
        }
    }

    /// A unit cube: 6 quads of 4 vertices each, with outward axis normals,
    /// unit uvs and two triangles per face, corners at one world unit
    /// (`FP` sub-units) from the center.
    pub fn cube() -> (r: Self)
        ensures
            r.wf(),
            r.positions@ == spec_cube_positions(),
            r.positions@.len() == 24,
            match r.normals {
                Some(ns) => ns@ == spec_cube_normals() && ns@.len() == 24,
                None => false,
            },
            match r.uvs {
                Some(uv) => uv@ == spec_cube_uvs() && uv@.len() == 24,
                None => false,
            },
            match r.indices {
                Some(ix) => ix@ == spec_cube_indices() && ix@.len() == 36,
                None => false,
            },
    {
        let f = 256i64;
        let g = -256i64;
        let positions: Vec<Point3> = vec![
            Point3 { x: g, y: g, z: f },
            Point3 { x: f, y: g, z: f },
            Point3 { x: f, y: f, z: f },
            Point3 { x: g, y: f, z: f },
            Point3 { x: f, y: f, z: g },
            Point3 { x: g, y: f, z: g },
            Point3 { x: g, y: f, z: f },
            Point3 { x: f, y: f, z: f },
            Point3 { x: f, y: g, z: g },
            Point3 { x: f, y: f, z: g },
            Point3 { x: f, y: f, z: f },
            Point3 { x: f, y: g, z: f },
            Point3 { x: g, y: g, z: f },
            Point3 { x: g, y: f, z: f },
            Point3 { x: g, y: f, z: g },
            Point3 { x: g, y: g, z: g },
            Point3 { x: g, y: f, z: g },
            Point3 { x: f, y: f, z: g },
            Point3 { x: f, y: g, z: g },
            Point3 { x: g, y: g, z: g },
            Point3 { x: f, y: g, z: f },
            Point3 { x: g, y: g, z: f },
            Point3 { x: g, y: g, z: g },
            Point3 { x: f, y: g, z: g },
        ];
        let normals: Vec<Point3> = vec![
            Point3 { x: 0, y: 0, z: f },
            Point3 { x: 0, y: 0, z: f },
            Point3 { x: 0, y: 0, z: f },
            Point3 { x: 0, y: 0, z: f },
            Point3 { x: 0, y: f, z: 0 },
            Point3 { x: 0, y: f, z: 0 },
            Point3 { x: 0, y: f, z: 0 },
            Point3 { x: 0, y: f, z: 0 },
            Point3 { x: f, y: 0, z: 0 },
            Point3 { x: f, y: 0, z: 0 },
            Point3 { x: f, y: 0, z: 0 },
            Point3 { x: f, y: 0, z: 0 },
            Point3 { x: g, y: 0, z: 0 },
            Point3 { x: g, y: 0, z: 0 },
            Point3 { x: g, y: 0, z: 0 },
            Point3 { x: g, y: 0, z: 0 },
            Point3 { x: 0, y: 0, z: g },
            Point3 { x: 0, y: 0, z: g },
            Point3 { x: 0, y: 0, z: g },
            Point3 { x: 0, y: 0, z: g },
            Point3 { x: 0, y: g, z: 0 },
            Point3 { x: 0, y: g, z: 0 },
            Point3 { x: 0, y: g, z: 0 },
            Point3 { x: 0, y: g, z: 0 },
        ];
        let uvs: Vec<[i64; 2]> = vec![
            [0, 0], [f, 0], [f, f], [0, f],
            [f, 0], [0, 0], [0, f], [f, f],
            [0, 0], [f, 0], [f, f], [0, f],
            [f, 0], [0, 0], [0, f], [f, f],
            [f, 0], [0, 0], [0, f], [f, f],
            [0, 0], [f, 0], [f, f], [0, f],
        ];
        let indices: Vec<u32> = vec![
            0, 1, 2, 2, 3, 0,
            4, 5, 6, 6, 7, 4,
            8, 9, 10, 10, 11, 8,
            12, 13, 14, 14, 15, 12,
            16, 17, 18, 18, 19, 16,
            20, 21, 22, 22, 23, 20,
        ];
        proof {
            assert(positions@ =~= spec_cube_positions());
            assert(normals@ =~= spec_cube_normals());
            assert(uvs@ =~= spec_cube_uvs());
            assert(indices@ =~= spec_cube_indices());
        }
        Mesh { positions, normals: Some(normals), uvs: Some(uvs), indices: Some(indices) }
    }

    /// Reconstructs per-vertex normals if the mesh has none yet: every
    /// triangle's face normal (cross product of its edge vectors, scaled to
    /// unit length in `FP` sub-units) is accumulated into each of its three
    /// vertices' buckets, averaging on repeat contributions.  A mesh that
    /// already has normals is left untouched.
    pub fn calculate(&mut self)
        requires
            old(self).wf(),
        ensures
            final(self).positions == old(self).positions,
            final(self).uvs == old(self).uvs,
            final(self).indices == old(self).indices,
            final(self).wf(),
            old(self).normals is Some ==> final(self).normals == old(self).normals,
            old(self).normals is None ==> match final(self).normals {
                Some(ns) => ns@ == spec_normals(
                    old(self).positions@,
                    indices_view(&old(self).indices),
                ) && ns@.len() == final(self).positions@.len() && forall|i: int|
                    0 <= i < ns@.len() ==> {
                        &&& -NORMAL_MAX <= (#[trigger] ns@[i]).x <= NORMAL_MAX
                        &&& -NORMAL_MAX <= ns@[i].y <= NORMAL_MAX
                        &&& -NORMAL_MAX <= ns@[i].z <= NORMAL_MAX
                    },
                None => false,
            },
    {
        if self.normals.is_some() {
            return ;
        }
        let len = self.positions.len();
        let ghost iview = indices_view(&self.indices);
        let mut normals: Vec<Point3> = Vec::new();
        let mut touched: Vec<bool> = Vec::new();
        let mut k: usize = 0;
        while k < len
            invariant
                k <= len,
                normals@.len() == k,
                touched@.len() == k,
                forall|i: int|
                    0 <= i < k ==> (#[trigger] normals@[i]) == (Point3 { x: 0, y: 0, z: 0 }),
                forall|i: int| 0 <= i < k ==> (#[trigger] touched@[i]) == false,
            decreases len - k,
        {
            normals.push(Point3 { x: 0, y: 0, z: 0 });
            touched.push(false);
            k = k + 1;
        }
        proof {
            assert(normals@ =~= spec_normals_state(self.positions@, iview, 0).0);
            assert(touched@ =~= spec_normals_state(self.positions@, iview, 0).1);
        }
        let vertex_count = match self.indices.as_ref() {
            Some(ix) => ix.len(),
            None => len,
        };
        let faces = vertex_count / 3;
        let mut face: usize = 0;
        while face < faces
            invariant
                self.wf(),
                self == old(self),
                len == self.positions@.len(),
                faces == vertex_count / 3,
                vertex_count == match self.indices {
                    Some(ix) => ix@.len() as int,
                    None => len as int,
                },
                face <= faces,
                iview == indices_view(&self.indices),
                normals@ == spec_normals_state(self.positions@, iview, face as int).0,
                touched@ == spec_normals_state(self.positions@, iview, face as int).1,
                normals@.len() == len,
                touched@.len() == len,
                forall|i: int|
                    0 <= i < len ==> {
                        &&& -NORMAL_MAX <= (#[trigger] normals@[i]).x <= NORMAL_MAX
                        &&& -NORMAL_MAX <= normals@[i].y <= NORMAL_MAX
                        &&& -NORMAL_MAX <= normals@[i].z <= NORMAL_MAX
                    },
            decreases faces - face,
        {
            let base = face * 3;
            proof {
                vstd::arithmetic::div_mod::lemma_fundamental_div_mod(vertex_count as int, 3);
                vstd::arithmetic::div_mod::lemma_mod_bound(vertex_count as int, 3);
                assert((face + 1) * 3 <= faces * 3) by (nonlinear_arith)
                    requires
                        face < faces,
                ;
                assert(faces * 3 <= vertex_count) by (nonlinear_arith)
                    requires
                        faces == vertex_count / 3,
                        vertex_count == 3 * (vertex_count as int / 3) + vertex_count as int % 3,
                        vertex_count as int % 3 >= 0,
                ;
            }
            let (i0, i1, i2) = match self.indices.as_ref() {
                Some(ix) => (ix[base] as usize, ix[base + 1] as usize, ix[base + 2] as usize),
                None => (base, base + 1, base + 2),
            };
            let n = face_normal(&self.positions[i0], &self.positions[i1], &self.positions[i2]);
            let ghost st0 = (normals@, touched@);
            accumulate(&mut normals, &mut touched, i0, n);
            proof {
                assert(normals@ =~= spec_acc(st0, i0 as int, n).0);
                assert(touched@ =~= spec_acc(st0, i0 as int, n).1);
            }
            let ghost st1 = (normals@, touched@);
            accumulate(&mut normals, &mut touched, i1, n);
            proof {
                assert(normals@ =~= spec_acc(st1, i1 as int, n).0);
                assert(touched@ =~= spec_acc(st1, i1 as int, n).1);
            }
            let ghost st2 = (normals@, touched@);
            accumulate(&mut normals, &mut touched, i2, n);
            proof {
                assert(normals@ =~= spec_acc(st2, i2 as int, n).0);
                assert(touched@ =~= spec_acc(st2, i2 as int, n).1);
                assert(i0 as int == spec_face_index(iview, face as int, 0));
                assert(i1 as int == spec_face_index(iview, face as int, 1));
                assert(i2 as int == spec_face_index(iview, face as int, 2));
                assert(normals@ =~= spec_normals_state(self.positions@, iview, face + 1).0);
                assert(touched@ =~= spec_normals_state(self.positions@, iview, face + 1).1);
            }
            face = face + 1;
        }
        self.normals = Some(normals);
    }
}

/// Folds one face normal into the bucket for vertex `i`: the first
/// contribution lands as is, later ones average with what is there.
fn accumulate(normals: &mut Vec<Point3>, touched: &mut Vec<bool>, i: usize, n: Point3)
    requires
        old(normals)@.len() == old(touched)@.len(),
        i < old(normals)@.len(),
        -NORMAL_MAX <= n.x <= NORMAL_MAX,
        -NORMAL_MAX <= n.y <= NORMAL_MAX,
        -NORMAL_MAX <= n.z <= NORMAL_MAX,
        forall|j: int|
            0 <= j < old(normals)@.len() ==> {
                &&& -NORMAL_MAX <= (#[trigger] old(normals)@[j]).x <= NORMAL_MAX
                &&& -NORMAL_MAX <= old(normals)@[j].y <= NORMAL_MAX
                &&& -NORMAL_MAX <= old(normals)@[j].z <= NORMAL_MAX
            },
    ensures
        final(normals)@.len() == old(normals)@.len(),
        final(touched)@.len() == old(touched)@.len(),
        final(normals)@ == old(normals)@.update(
            i as int,
            spec_bucket(old(normals)@[i as int], old(touched)@[i as int], n),
        ),
        final(touched)@ == old(touched)@.update(i as int, true),
        forall|j: int|
            0 <= j < final(normals)@.len() ==> {
                &&& -NORMAL_MAX <= (#[trigger] final(normals)@[j]).x <= NORMAL_MAX
                &&& -NORMAL_MAX <= final(normals)@[j].y <= NORMAL_MAX
                &&& -NORMAL_MAX <= final(normals)@[j].z <= NORMAL_MAX
            },
{
    let cur = normals[i];
    let fresh = !touched[i];
    let v = if fresh {
        n
    } else {
        Point3 { x: (n.x + cur.x) / 2, y: (n.y + cur.y) / 2, z: (n.z + cur.z) / 2 }
    };
    normals.set(i, v);
    touched.set(i, true);
}

/// The unit normal of the triangle (p0, p1, p2), in `FP` sub-units: the
/// cross product of its edge vectors scaled down by its own length; zero
/// for a degenerate triangle.
fn face_normal(p0: &Point3, p1: &Point3, p2: &Point3) -> (r: Point3)
    requires
        -POS_MAX <= p0.x <= POS_MAX,
        -POS_MAX <= p0.y <= POS_MAX,
        -POS_MAX <= p0.z <= POS_MAX,
        -POS_MAX <= p1.x <= POS_MAX,
        -POS_MAX <= p1.y <= POS_MAX,
        -POS_MAX <= p1.z <= POS_MAX,
        -POS_MAX <= p2.x <= POS_MAX,
        -POS_MAX <= p2.y <= POS_MAX,
        -POS_MAX <= p2.z <= POS_MAX,
    ensures
        -256 <= r.x <= 256,
        -256 <= r.y <= 256,
        -256 <= r.z <= 256,
        r == spec_face_normal(*p0, *p1, *p2),
{
    proof {
        lemma_mul_bound(p1.y as int - p0.y as int, p2.z as int - p1.z as int, 0x200_0000);
        lemma_mul_bound(p1.z as int - p0.z as int, p2.y as int - p1.y as int, 0x200_0000);
        lemma_mul_bound(p1.z as int - p0.z as int, p2.x as int - p1.x as int, 0x200_0000);
        lemma_mul_bound(p1.x as int - p0.x as int, p2.z as int - p1.z as int, 0x200_0000);
        lemma_mul_bound(p1.x as int - p0.x as int, p2.y as int - p1.y as int, 0x200_0000);
        lemma_mul_bound(p1.y as int - p0.y as int, p2.x as int - p1.x as int, 0x200_0000);
    }
    let ux = p1.x - p0.x;
    let uy = p1.y - p0.y;
    let uz = p1.z - p0.z;
    let vx = p2.x - p1.x;
    let vy = p2.y - p1.y;
    let vz = p2.z - p1.z;
    let nx = uy * vz - uz * vy;
    let ny = uz * vx - ux * vz;
    let nz = ux * vy - uy * vx;
    let sx = square_u128(nx);
    let sy = square_u128(ny);
    let sz = square_u128(nz);
    let len = isqrt_u128(sx + sy + sz);
    if len == 0 {
        Point3 { x: 0, y: 0, z: 0 }
    } else {
        proof {
            lemma_component_le_len(nx as int, len as int, (sx + sy + sz) as int);
            lemma_component_le_len(ny as int, len as int, (sx + sy + sz) as int);
            lemma_component_le_len(nz as int, len as int, (sx + sy + sz) as int);
            assert(len <= 0x20_0000_0000_0000) by (nonlinear_arith)
                requires
                    len * len <= 0xC0_0000_0000_0000_0000_0000_0000,
            ;
        }
        let l = len as i64;
        Point3 {
            x: scale_component(nx, l),
            y: scale_component(ny, l),
            z: scale_component(nz, l),
        }
    }
}

/// `|a * b| <= m * m` whenever both factors stay within `m`.
proof fn lemma_mul_bound(a: int, b: int, m: int)
    requires
        0 <= m,
        -m <= a <= m,
        -m <= b <= m,
    ensures
        -(m * m) <= a * b <= m * m,
{
    assert(-(m * m) <= a * b <= m * m) by (nonlinear_arith)
        requires
            0 <= m,
            -m <= a <= m,
            -m <= b <= m,
    ;
}

/// A component of a vector is no longer than the vector.
proof fn lemma_component_le_len(c: int, len: int, s: int)
    requires
        c * c <= s,
        len * len <= s,
        s < (len + 1) * (len + 1),
        len >= 0,
    ensures
        -len <= c <= len,
{
    assert(-len <= c <= len) by (nonlinear_arith)
        requires
            c * c <= s,
            s < (len + 1) * (len + 1),
            len >= 0,
    ;
}

/// `c * FP / l` for `|c| <= l`: a fixed-point fraction in [-256, 256].
fn scale_component(c: i64, l: i64) -> (r: i64)
    requires
        1 <= l,
        -l <= c <= l,
        -0x8_0000_0000_0000 <= c <= 0x8_0000_0000_0000,
        l <= 0x80_0000_0000_0000,
    ensures
        -256 <= r <= 256,
        r == spec_scale(c as int, l as int),
{
    proof {
        if c >= 0 {
            vstd::arithmetic::div_mod::lemma_div_pos_is_pos(c * 256, l as int);
            vstd::arithmetic::div_mod::lemma_div_is_ordered(c * 256, l * 256, l as int);
            vstd::arithmetic::div_mod::lemma_div_multiples_vanish(256, l as int);
            assert(c * 256 <= l * 256) by (nonlinear_arith)
                requires
                    c <= l,
            ;
        } else {
            vstd::arithmetic::div_mod::lemma_div_pos_is_pos((-c) * 256, l as int);
            vstd::arithmetic::div_mod::lemma_div_is_ordered((-c) * 256, l * 256, l as int);
            vstd::arithmetic::div_mod::lemma_div_multiples_vanish(256, l as int);
            assert((-c) * 256 <= l * 256) by (nonlinear_arith)
                requires
                    -c <= l,
            ;
        }
    }
    (c * 256) / l
}

/// The square of `c` as an unsigned 128-bit value.
fn square_u128(c: i64) -> (r: u128)
    requires
        -0x8_0000_0000_0000 <= c <= 0x8_0000_0000_0000,
    ensures
        r == c as int * c as int,
        r <= 0x40_0000_0000_0000_0000_0000_0000,
{
    let a: u128 = if c < 0 {
        (-c) as u128
    } else {
        c as u128
    };
    proof {
        assert(a * a == c as int * c as int && a * a <= 0x40_0000_0000_0000_0000_0000_0000)
            by (nonlinear_arith)
            requires
                a == if c < 0 {
                    -(c as int)
                } else {
                    c as int
                },
                a <= 0x8_0000_0000_0000,
        ;
    }
    a * a
}

/// The integer square root: the greatest `r` with `r * r <= x`.
fn isqrt_u128(x: u128) -> (r: u128)
    ensures
        r * r <= x,
        x < (r + 1) * (r + 1),
        r == spec_isqrt(x as nat),
{
    let mut lo: u128 = 0;
    let mut hi: u128 = 0x1_0000_0000_0000_0000;
    proof {
        assert(x < 0x1_0000_0000_0000_0000u128 * 0x1_0000_0000_0000_0000u128) by (nonlinear_arith)
            requires
                x < 0x1_0000_0000_0000_0000_0000_0000_0000_0000,
        ;
    }
    while lo + 1 < hi
        invariant
            lo < hi <= 0x1_0000_0000_0000_0000,
            lo * lo <= x,
            x < hi * hi,
        decreases hi - lo,
    {
        let mid = lo + (hi - lo) / 2;
        proof {
            assert(mid * mid < 0x1_0000_0000_0000_0000_0000_0000_0000_0000) by (nonlinear_arith)
                requires
                    mid < 0x1_0000_0000_0000_0000,
            ;
        }
        if mid * mid <= x {
            lo = mid;
        } else {
            hi = mid;
        }
    }
    proof {
        lemma_isqrt_unique(x as nat, lo as nat);
    }
    lo
}

} // verus!
