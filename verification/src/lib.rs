//! Sparse voxel terrain: an octree of density grids, a view-dependent
//! level-of-detail selector, a marching-cubes polygonizer and the per-frame
//! chunk bookkeeping that ties them together.
//!
//! All world coordinates are integers; scalar densities and mesh vertex
//! positions are fixed-point integers (`math::FP` sub-units per world
//! unit), so that every computation here is exact and verifiable.

pub mod chunk;
pub mod density;
pub mod height_map;
pub mod lod;
pub mod marching;
pub mod math;
pub mod mesh;
pub mod octree;
pub mod resource;
pub mod terrain;
pub mod voxel;
