//! Per-visible-node bookkeeping: whether a chunk's mesh must be (re)built
//! this frame, whether its grid turned out hollow, and whether it is shown.

use vstd::prelude::*;
use crate::marching::{MarchingCubes, cell_mixed, spec_polygonize};
use crate::math::{FP, Vec3i};
use crate::mesh::Mesh;
use crate::voxel::VoxelGrid;

verus! {

/// Cells per chunk axis; a chunk's voxel grid has one more sample per axis.
pub const CHUNK_SIZE: usize = 16;

/// The uv tint that marks a chunk's level of detail, in `FP` sub-units.
pub open spec fn spec_lod_tint(lod: int) -> [i64; 2] {
    if lod == 0 {
        [0i64, 0i64]
    } else if lod == 1 {
        [256i64, 0i64]
    } else if lod == 2 {
        [256i64, 256i64]
    } else {
        [0i64, 256i64]
    }
}

/// Marker pairing a spawned renderable with the chunk it draws.
#[derive(Clone, Copy, PartialEq, Eq, Structural, Debug)]
pub struct Tile {
    pub position: Vec3i,
    pub lod: usize,
}

/// Runtime record for one visible octree node.  `changed` stays set until
/// a mesh has been built; `hollow` short-circuits rebuilds of chunks whose
/// grid produced no surface; `disabled` is toggled by each frame's
/// reconciliation.
#[derive(Clone, Copy, PartialEq, Eq, Structural, Debug)]
pub struct Chunk {
    pub position: Vec3i,
    pub lod: usize,
    pub mesh: Option<u64>,
    pub changed: bool,
    pub hollow: bool,
    pub disabled: bool,
}

impl Chunk {
    /// A fresh record: no mesh yet, in need of a build, hidden until the
    /// frame that created it re-enables it.
    pub fn new(position: Vec3i, lod: usize) -> (r: Self)
        ensures
            r == (Chunk {
                position,
                lod,
                mesh: None,
                changed: true,
                hollow: false,
                disabled: true,
            }),
    {
        Chunk { position, lod, mesh: None, changed: true, hollow: false, disabled: true }
    }

    /// The marker for this chunk's renderable.
    pub fn tile(&self) -> (r: Tile)
        ensures
            r == (Tile { position: self.position, lod: self.lod }),
    {
        Tile { position: self.position, lod: self.lod }
    }

    /// Cells per chunk axis.
    pub fn size() -> (r: usize)
        ensures
            r == CHUNK_SIZE,
    {
        CHUNK_SIZE
    }

    /// Extracts this chunk's surface from its voxel grid.  A grid with no
    /// iso-crossing yields nothing and marks the chunk hollow; otherwise
    /// the mesh comes back complete (positions, level-tinted uvs, fresh
    /// normals) and the chunk no longer counts as changed.  The mesh
    /// handle is untouched either way: the caller decides whether to
    /// create or overwrite the external resource.
    pub fn polygonize(&mut self, grid: &VoxelGrid) -> (r: Option<Mesh>)
        requires
            grid.wf(),
            grid.spec_n() == CHUNK_SIZE + 1,
        ensures
            final(self).position == old(self).position,
            final(self).lod == old(self).lod,
            final(self).mesh == old(self).mesh,
            final(self).disabled == old(self).disabled,
            (r is None) <==> (forall|a: int, b: int, c: int|
                0 <= a < CHUNK_SIZE && 0 <= b < CHUNK_SIZE && 0 <= c < CHUNK_SIZE
                    ==> !#[trigger] cell_mixed(grid, 0, a, b, c)),
            match r {
                None => {
                    &&& final(self).hollow == true
                    &&& final(self).changed == old(self).changed
                },
                Some(m) => {
                    &&& final(self).hollow == old(self).hollow
                    &&& final(self).changed == false
                    &&& m.wf()
                    &&& m.positions@ == spec_polygonize(grid, 0)
                    &&& m.positions@.len() > 0
                    &&& m.positions@.len() % 3 == 0
                    &&& forall|i: int|
                        0 <= i < m.positions@.len() ==> {
                            &&& 0 <= (#[trigger] m.positions@[i]).x <= CHUNK_SIZE as int * (
                            FP as int)
                            &&& 0 <= m.positions@[i].y <= CHUNK_SIZE as int * (FP as int)
                            &&& 0 <= m.positions@[i].z <= CHUNK_SIZE as int * (FP as int)
                        }
                    &&& match m.normals {
                        Some(ns) => ns@ == crate::mesh::spec_normals(m.positions@, None)
                            && ns@.len() == m.positions@.len(),
                        None => false,
                    }
                    &&& match m.uvs {
                        Some(uv) => uv@.len() == m.positions@.len() && forall|i: int|
                            0 <= i < uv@.len() ==> #[trigger] uv@[i] == spec_lod_tint(
                                old(self).lod as int,
                            ),
                        None => false,
                    }
                    &&& m.indices is None
                },
            },
    {
        let mc = MarchingCubes { size: CHUNK_SIZE, height: CHUNK_SIZE, iso_level: 0 };
        let positions = mc.polygonize(grid);
        let len = positions.len();
        if len == 0 {
            proof {
                assert forall|a: int, b: int, c: int|
                    0 <= a < CHUNK_SIZE && 0 <= b < CHUNK_SIZE && 0 <= c < CHUNK_SIZE implies
                    !#[trigger] cell_mixed(grid, 0, a, b, c) by {
                    if cell_mixed(grid, 0, a, b, c) {
                        assert(cell_mixed(grid, mc.iso_level as int, a, b, c));
                    }
                }
            }
            self.hollow = true;
            return None;
        }
        let uv: [i64; 2] = if self.lod == 0 {
            [0, 0]
        } else if self.lod == 1 {
            [256, 0]
        } else if self.lod == 2 {
            [256, 256]
        } else {
            [0, 256]
        };
        proof {
            assert(uv =~= spec_lod_tint(self.lod as int));
        }
        let mut uvs: Vec<[i64; 2]> = Vec::new();
        let mut i: usize = 0;
        while i < len
            invariant
                i <= len,
                uvs@.len() == i,
                uv == spec_lod_tint(self.lod as int),
                forall|j: int| 0 <= j < i ==> #[trigger] uvs@[j] == uv,
            decreases len - i,
        {
            uvs.push(uv);
            i = i + 1;
        }
        let mut mesh = Mesh { positions, normals: None, uvs: Some(uvs), indices: None };
        mesh.calculate();
        self.changed = false;
        Some(mesh)
    }
}

} // verus!
