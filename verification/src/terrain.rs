//! The terrain itself: a sparse octree of voxel grids populated from an
//! injected density sampler, the view-dependent refinement that picks the
//! chunks to draw, and the per-frame reconciliation of the chunk cache.

use vstd::prelude::*;
use crate::chunk::Chunk;
use crate::lod::Lod;
use crate::math::{FP, Point3, Vec3i, dist2, dist2_i128, pow2};
use crate::octree::{
    Node, Octree, children_array, fresh_node, lemma_store_dom, lemma_store_preserves_payloads,
    lemma_store_then_load, spec_find,
};
use crate::voxel::{VAL_MAX, VoxelGrid};

verus! {

/// Samples per chunk axis: one more than the cell count.
pub const GRID_N: usize = 17;

/// Viewer positions the update step accepts, in `FP` sub-units.
pub const VIEWER_MAX: i64 = 0x2000_0000;

/// The terrain state carried between frames.
pub struct Terrain {
    pub last_viewer_position: Option<Point3>,
    pub update_if_moved_by: i64,
    pub view_distance: i32,
    pub octree: Octree<VoxelGrid>,
    pub populated: bool,
    pub last_lod: usize,
}

/// A viewer position the update arithmetic can square without overflow.
pub open spec fn viewer_ok(p: Point3) -> bool {
    &&& -VIEWER_MAX <= p.x <= VIEWER_MAX
    &&& -VIEWER_MAX <= p.y <= VIEWER_MAX
    &&& -VIEWER_MAX <= p.z <= VIEWER_MAX
}

/// Every materialized grid in the tree is well-formed and chunk-sized.
pub open spec fn grids_ok(m: Map<Vec3i, Node<VoxelGrid>>) -> bool {
    forall|k: Vec3i|
        #[trigger] m.contains_key(k) ==> match m[k].payload {
            Some(g) => g.wf() && g.spec_n() == GRID_N as int,
            None => true,
        }
}

/// The half-extent of a node at `depth` in a tree of edge length `size`.
pub open spec fn node_offset(size: int, depth: nat) -> int {
    size / pow2(depth) as int / 2
}

/// The node's whole cube (center ± half-extent) lies inside the root cube.
pub open spec fn margin_ok(node: Vec3i, size: int, depth: nat) -> bool {
    let o = node_offset(size, depth);
    &&& 0 <= o
    &&& -(size / 2) <= node.x - o && node.x + o <= size / 2
    &&& -(size / 2) <= node.y - o && node.y + o <= size / 2
    &&& -(size / 2) <= node.z - o && node.z + o <= size / 2
}

/// Sample (x, y, z) of grid `g` is a clamped possible output of the
/// sampler at the matching world lattice point of the node centered at
/// `node` with half-extent `o`.
pub open spec fn sampled_at<F: Fn(i32, i32, i32) -> i32>(
    f: &F,
    g: VoxelGrid,
    node: Vec3i,
    o: int,
    x: int,
    y: int,
    z: int,
) -> bool {
    let step = o / 8;
    exists|raw: i32|
        #[trigger] call_ensures(
            *f,
            (
                ((node.x - o + x * step) as i32),
                ((node.y - o + y * step) as i32),
                ((node.z - o + z * step) as i32),
            ),
            raw,
        ) && g.value(x, y, z) == crate::density::spec_clamp(raw as int)
}

/// Every sample of `g` came from the sampler, evaluated on the node's own
/// 17³ lattice.
pub open spec fn sampled_grid<F: Fn(i32, i32, i32) -> i32>(
    f: &F,
    g: VoxelGrid,
    node: Vec3i,
    o: int,
) -> bool {
    forall|x: int, y: int, z: int|
        0 <= x < GRID_N && 0 <= y < GRID_N && 0 <= z < GRID_N ==> #[trigger] sampled_at(
            f,
            g,
            node,
            o,
            x,
            y,
            z,
        )
}

/// The whole canonical subtree under `node` (half-extent `o`, at `depth`)
/// is materialized down to the fixed population depth.
pub open spec fn populated_below(
    m: Map<Vec3i, Node<VoxelGrid>>,
    node: Vec3i,
    o: int,
    depth: int,
) -> bool
    decreases 4 - depth,
{
    &&& m.contains_key(node)
    &&& m[node].payload is Some
    &&& (0 <= depth < 4 ==> {
        let ch = children_array(node, o / 2);
        &&& populated_below(m, ch@[0], o / 2, depth + 1)
        &&& populated_below(m, ch@[1], o / 2, depth + 1)
        &&& populated_below(m, ch@[2], o / 2, depth + 1)
        &&& populated_below(m, ch@[3], o / 2, depth + 1)
        &&& populated_below(m, ch@[4], o / 2, depth + 1)
        &&& populated_below(m, ch@[5], o / 2, depth + 1)
        &&& populated_below(m, ch@[6], o / 2, depth + 1)
        &&& populated_below(m, ch@[7], o / 2, depth + 1)
    })
}

/// `populated_below` survives any growth that keeps materialized nodes
/// materialized.
pub proof fn lemma_populated_below_monotone(
    m1: Map<Vec3i, Node<VoxelGrid>>,
    m2: Map<Vec3i, Node<VoxelGrid>>,
    node: Vec3i,
    o: int,
    depth: int,
)
    requires
        forall|k: Vec3i|
            #[trigger] m1.contains_key(k) && m1[k].payload is Some ==> m2.contains_key(k)
                && m2[k].payload is Some,
        populated_below(m1, node, o, depth),
    ensures
        populated_below(m2, node, o, depth),
    decreases 4 - depth,
{
    assert(m1.contains_key(node) && m1[node].payload is Some);
    if 0 <= depth < 4 {
        let ch = children_array(node, o / 2);
        lemma_populated_below_monotone(m1, m2, ch@[0], o / 2, depth + 1);
        lemma_populated_below_monotone(m1, m2, ch@[1], o / 2, depth + 1);
        lemma_populated_below_monotone(m1, m2, ch@[2], o / 2, depth + 1);
        lemma_populated_below_monotone(m1, m2, ch@[3], o / 2, depth + 1);
        lemma_populated_below_monotone(m1, m2, ch@[4], o / 2, depth + 1);
        lemma_populated_below_monotone(m1, m2, ch@[5], o / 2, depth + 1);
        lemma_populated_below_monotone(m1, m2, ch@[6], o / 2, depth + 1);
        lemma_populated_below_monotone(m1, m2, ch@[7], o / 2, depth + 1);
    }
}


/// The whole canonical subtree under `node` (half-extent `o`, at `depth`)
/// is materialized down to the fixed population depth, and every grid in it
/// holds the sampler's values on its own node's lattice: nothing below
/// `node` was filled with anything but the sampler's answers.
pub open spec fn sampled_below<F: Fn(i32, i32, i32) -> i32>(
    f: &F,
    m: Map<Vec3i, Node<VoxelGrid>>,
    node: Vec3i,
    o: int,
    depth: int,
) -> bool
    decreases 4 - depth,
{
    &&& m.contains_key(node)
    &&& match m[node].payload {
        Some(g) => sampled_grid(f, g, node, o),
        None => false,
    }
    &&& (0 <= depth < 4 ==> {
        let ch = children_array(node, o / 2);
        &&& sampled_below(f, m, ch@[0], o / 2, depth + 1)
        &&& sampled_below(f, m, ch@[1], o / 2, depth + 1)
        &&& sampled_below(f, m, ch@[2], o / 2, depth + 1)
        &&& sampled_below(f, m, ch@[3], o / 2, depth + 1)
        &&& sampled_below(f, m, ch@[4], o / 2, depth + 1)
        &&& sampled_below(f, m, ch@[5], o / 2, depth + 1)
        &&& sampled_below(f, m, ch@[6], o / 2, depth + 1)
        &&& sampled_below(f, m, ch@[7], o / 2, depth + 1)
    })
}

/// A sampled subtree survives a map change confined to keys near `c`: every
/// key at Chebyshev distance `oc` or more from `c` keeps its payload, and
/// the subtree under `node` lies that far out, because its keys stay within
/// `o - 1` of `node` on every axis.
proof fn lemma_sampled_below_preserved<F: Fn(i32, i32, i32) -> i32>(
    f: &F,
    m1: Map<Vec3i, Node<VoxelGrid>>,
    m2: Map<Vec3i, Node<VoxelGrid>>,
    node: Vec3i,
    o: int,
    depth: int,
    c: Vec3i,
    oc: int,
)
    requires
        0 <= depth <= 4,
        pow2((4 - depth) as nat) <= o,
        -0x4000_0000 <= node.x - o && node.x + o <= 0x4000_0000,
        -0x4000_0000 <= node.y - o && node.y + o <= 0x4000_0000,
        -0x4000_0000 <= node.z - o && node.z + o <= 0x4000_0000,
        sampled_below(f, m1, node, o, depth),
        apart_by(node, c, oc + o - 1),
        forall|k: Vec3i|
            #[trigger] m1.contains_key(k) && apart_by(k, c, oc) ==> m2.contains_key(k)
                && m2[k].payload == m1[k].payload,
    ensures
        sampled_below(f, m2, node, o, depth),
    decreases 4 - depth,
{
    crate::math::lemma_pow2_pos((4 - depth) as nat);
    assert(1 <= o);
    assert(apart_by(node, c, oc));
    assert(m2.contains_key(node) && m2[node].payload == m1[node].payload);
    if depth < 4 {
        let h = o / 2;
        assert(pow2((4 - depth) as nat) == 2 * pow2((3 - depth) as nat));
        assert(pow2((4 - (depth + 1)) as nat) <= h);
        crate::math::lemma_pow2_pos((3 - depth) as nat);
        let ch = children_array(node, h);
        assert(ch@[0] == (Vec3i { x: (node.x - h) as i32, y: (node.y + h) as i32, z: (node.z - h) as i32 }));
        assert(ch@[1] == (Vec3i { x: (node.x + h) as i32, y: (node.y + h) as i32, z: (node.z - h) as i32 }));
        assert(ch@[2] == (Vec3i { x: (node.x + h) as i32, y: (node.y + h) as i32, z: (node.z + h) as i32 }));
        assert(ch@[3] == (Vec3i { x: (node.x - h) as i32, y: (node.y + h) as i32, z: (node.z + h) as i32 }));
        assert(ch@[4] == (Vec3i { x: (node.x - h) as i32, y: (node.y - h) as i32, z: (node.z - h) as i32 }));
        assert(ch@[5] == (Vec3i { x: (node.x + h) as i32, y: (node.y - h) as i32, z: (node.z - h) as i32 }));
        assert(ch@[6] == (Vec3i { x: (node.x + h) as i32, y: (node.y - h) as i32, z: (node.z + h) as i32 }));
        assert(ch@[7] == (Vec3i { x: (node.x - h) as i32, y: (node.y - h) as i32, z: (node.z + h) as i32 }));
        assert(o - h >= h);
        lemma_sampled_below_preserved(f, m1, m2, ch@[0], h, depth + 1, c, oc);
        lemma_sampled_below_preserved(f, m1, m2, ch@[1], h, depth + 1, c, oc);
        lemma_sampled_below_preserved(f, m1, m2, ch@[2], h, depth + 1, c, oc);
        lemma_sampled_below_preserved(f, m1, m2, ch@[3], h, depth + 1, c, oc);
        lemma_sampled_below_preserved(f, m1, m2, ch@[4], h, depth + 1, c, oc);
        lemma_sampled_below_preserved(f, m1, m2, ch@[5], h, depth + 1, c, oc);
        lemma_sampled_below_preserved(f, m1, m2, ch@[6], h, depth + 1, c, oc);
        lemma_sampled_below_preserved(f, m1, m2, ch@[7], h, depth + 1, c, oc);
    }
}

/// `sampled_at`, phrased over the flat sample vector while it is being
/// filled.
spec fn lattice_stored<F: Fn(i32, i32, i32) -> i32>(
    f: &F,
    vals: Seq<i32>,
    node: Vec3i,
    o: int,
    x: int,
    y: int,
    z: int,
) -> bool {
    let step = o / 8;
    exists|raw: i32|
        #[trigger] call_ensures(
            *f,
            (
                ((node.x - o + x * step) as i32),
                ((node.y - o + y * step) as i32),
                ((node.z - o + z * step) as i32),
            ),
            raw,
        ) && vals[(x * (GRID_N as int) + y) * (GRID_N as int) + z] == crate::density::spec_clamp(
            raw as int,
        )
}

/// `k` is at Chebyshev distance at least `o` from `c`: some axis differs
/// by `o` or more.
pub open spec fn apart_by(k: Vec3i, c: Vec3i, o: int) -> bool {
    ||| k.x - c.x >= o
    ||| c.x - k.x >= o
    ||| k.y - c.y >= o
    ||| c.y - k.y >= o
    ||| k.z - c.z >= o
    ||| c.z - k.z >= o
}

/// Whatever is far enough from a parent is still far enough (at half the
/// distance) from each of its children, which sit half-way out.
proof fn lemma_apart_from_children(k: Vec3i, node: Vec3i, o: int, i: int)
    requires
        0 <= i < 8,
        1 <= o,
        apart_by(k, node, o),
        -0x4000_0000 <= node.x - o / 2 && node.x + o / 2 <= 0x4000_0000,
        -0x4000_0000 <= node.y - o / 2 && node.y + o / 2 <= 0x4000_0000,
        -0x4000_0000 <= node.z - o / 2 && node.z + o / 2 <= 0x4000_0000,
    ensures
        apart_by(k, children_array(node, o / 2)@[i], o / 2),
{
    let h = o / 2;
    let c = children_array(node, h);
    assert(c@[0] == (Vec3i { x: (node.x - h) as i32, y: (node.y + h) as i32, z: (node.z - h) as i32 }));
    assert(c@[1] == (Vec3i { x: (node.x + h) as i32, y: (node.y + h) as i32, z: (node.z - h) as i32 }));
    assert(c@[2] == (Vec3i { x: (node.x + h) as i32, y: (node.y + h) as i32, z: (node.z + h) as i32 }));
    assert(c@[3] == (Vec3i { x: (node.x - h) as i32, y: (node.y + h) as i32, z: (node.z + h) as i32 }));
    assert(c@[4] == (Vec3i { x: (node.x - h) as i32, y: (node.y - h) as i32, z: (node.z - h) as i32 }));
    assert(c@[5] == (Vec3i { x: (node.x + h) as i32, y: (node.y - h) as i32, z: (node.z - h) as i32 }));
    assert(c@[6] == (Vec3i { x: (node.x + h) as i32, y: (node.y - h) as i32, z: (node.z + h) as i32 }));
    assert(c@[7] == (Vec3i { x: (node.x - h) as i32, y: (node.y - h) as i32, z: (node.z + h) as i32 }));
    assert(o - h >= h);
}

impl Terrain {
    /// Structural invariant.
    pub open spec fn wf(&self) -> bool {
        &&& self.octree.wf()
        &&& self.octree.spec_size() <= 0x10_0000
        &&& grids_ok(self.octree@)
        &&& self.update_if_moved_by >= 0
        &&& match self.last_viewer_position {
            Some(p) => viewer_ok(p),
            None => true,
        }
    }

    /// A fresh terrain over a 2048-unit root cube, due for an update as
    /// soon as a viewer appears: the movement threshold is half a chunk,
    /// squared, in fixed-point units.
    pub fn new() -> (r: Self)
        ensures
            r.wf(),
            !r.populated,
            r.last_viewer_position is None,
            r.octree.spec_size() == 2048,
            r.update_if_moved_by == 8 * FP * (8 * FP),
            r.last_lod == 1,
            r.view_distance == 1,
            r.octree@ == Map::<Vec3i, Node<VoxelGrid>>::empty().insert(
                (Vec3i { x: 0, y: 0, z: 0 }),
                fresh_node(0),
            ),
    {
        let half_chunk: i64 = 8 * FP;
        let octree = Octree::<VoxelGrid>::new(2048);
        proof {
            assert forall|k: Vec3i| #[trigger] octree@.contains_key(k) implies match octree@[k].payload {
                Some(g) => g.wf() && g.spec_n() == GRID_N as int,
                None => true,
            } by {
                assert(octree@[k].payload is None);
            }
        }
        Terrain {
            update_if_moved_by: half_chunk * half_chunk,
            last_viewer_position: None,
            view_distance: 1,
            octree,
            populated: false,
            last_lod: 1,
        }
    }

    /// Fills the octree down to a fixed depth by sampling the injected
    /// density function on each node's 17³ lattice.  Populating never
    /// removes a node and never un-materializes one; afterwards the root
    /// octant holds a grid.
    pub fn populate<F: Fn(i32, i32, i32) -> i32>(&mut self, sampler: &F)
        requires
            old(self).wf(),
            old(self).octree.spec_size() >= 32,
            forall|x: i32, y: i32, z: i32| #[trigger] call_requires(*sampler, (x, y, z)),
        ensures
            final(self).wf(),
            final(self).populated,
            final(self).octree.spec_size() == old(self).octree.spec_size(),
            final(self).last_viewer_position == old(self).last_viewer_position,
            final(self).update_if_moved_by == old(self).update_if_moved_by,
            final(self).view_distance == old(self).view_distance,
            final(self).last_lod == old(self).last_lod,
            forall|k: Vec3i|
                #[trigger] old(self).octree@.contains_key(k) ==> final(self).octree@.contains_key(k),
            forall|k: Vec3i|
                #[trigger] old(self).octree@.contains_key(k) && old(self).octree@[k].payload is Some ==> final(self).octree@.contains_key(k) && final(self).octree@[k].payload is Some,
            final(self).octree@.contains_key(Vec3i { x: 0, y: 0, z: 0 }),
            final(self).octree@[Vec3i { x: 0, y: 0, z: 0 }].payload is Some,
            match final(self).octree@[Vec3i { x: 0, y: 0, z: 0 }].payload {
                Some(g) => sampled_grid(
                    sampler,
                    g,
                    (Vec3i { x: 0, y: 0, z: 0 }),
                    old(self).octree.spec_size() / 2,
                ),
                None => false,
            },
            populated_below(
                final(self).octree@,
                (Vec3i { x: 0, y: 0, z: 0 }),
                old(self).octree.spec_size() / 2,
                0,
            ),
            sampled_below(
                sampler,
                final(self).octree@,
                (Vec3i { x: 0, y: 0, z: 0 }),
                old(self).octree.spec_size() / 2,
                0,
            ),
    {
        let node = Vec3i::new(0, 0, 0);
        proof {
            self.octree.lemma_wf_bounds();
            crate::math::lemma_pow2_pos(0);
            vstd::arithmetic::div_mod::lemma_div_pos_is_pos(
                self.octree.spec_size(),
                pow2(0) as int,
            );
            vstd::arithmetic::div_mod::lemma_div_pos_is_pos(
                self.octree.spec_size() / pow2(0) as int,
                2,
            );
            vstd::arithmetic::div_mod::lemma_fundamental_div_mod_converse(
                self.octree.spec_size(),
                1,
                self.octree.spec_size(),
                0,
            );
            assert(node_offset(self.octree.spec_size(), 0) == self.octree.spec_size() / 2);
            assert(pow2(4) == 16) by {
                reveal_with_fuel(pow2, 5);
            }
        }
        self.populate_node(sampler, node, 0);
        self.populated = true;
    }

    fn populate_node<F: Fn(i32, i32, i32) -> i32>(&mut self, sampler: &F, node: Vec3i, depth: usize)
        requires
            old(self).wf(),
            forall|x: i32, y: i32, z: i32| #[trigger] call_requires(*sampler, (x, y, z)),
            depth <= 4,
            margin_ok(node, old(self).octree.spec_size(), depth as nat),
            pow2((4 - depth) as nat) <= node_offset(old(self).octree.spec_size(), depth as nat),
        ensures
            final(self).wf(),
            final(self).octree.spec_size() == old(self).octree.spec_size(),
            final(self).last_viewer_position == old(self).last_viewer_position,
            final(self).update_if_moved_by == old(self).update_if_moved_by,
            final(self).view_distance == old(self).view_distance,
            final(self).last_lod == old(self).last_lod,
            final(self).populated == old(self).populated,
            forall|k: Vec3i|
                #[trigger] old(self).octree@.contains_key(k) ==> final(self).octree@.contains_key(k),
            forall|k: Vec3i|
                #[trigger] old(self).octree@.contains_key(k) && old(self).octree@[k].payload is Some ==> final(self).octree@.contains_key(k) && final(self).octree@[k].payload is Some,
            final(self).octree@.contains_key(node),
            final(self).octree@[node].payload is Some,
            match final(self).octree@[node].payload {
                Some(g) => sampled_grid(
                    sampler,
                    g,
                    node,
                    node_offset(old(self).octree.spec_size(), depth as nat),
                ),
                None => false,
            },
            populated_below(
                final(self).octree@,
                node,
                node_offset(old(self).octree.spec_size(), depth as nat),
                depth as int,
            ),
            sampled_below(
                sampler,
                final(self).octree@,
                node,
                node_offset(old(self).octree.spec_size(), depth as nat),
                depth as int,
            ),
            forall|k: Vec3i|
                #[trigger] old(self).octree@.contains_key(k) && apart_by(
                    k,
                    node,
                    node_offset(old(self).octree.spec_size(), depth as nat),
                ) ==> final(self).octree@.contains_key(k) && final(self).octree@[k].payload == old(
                    self,
                ).octree@[k].payload,
        decreases 4 - depth,
    {
        proof {
            self.octree.lemma_wf_bounds();
        }
        let size_i = self.octree.size() as i32;
        let scale = Lod(depth).scale();
        let offset = size_i / scale / 2;
        let step = offset / 8;
        proof {
            assert(scale == pow2(depth as nat));
            assert(offset == node_offset(self.octree.spec_size(), depth as nat));
            vstd::arithmetic::div_mod::lemma_div_pos_is_pos(size_i as int, scale as int);
            vstd::arithmetic::div_mod::lemma_div_pos_is_pos(size_i as int / scale as int, 2);
        }
        let mut values: Vec<i32> = Vec::new();
        let mut x: usize = 0;
        while x < GRID_N
            invariant
                x <= GRID_N,
                values@.len() == x * (GRID_N * GRID_N),
                forall|i: int| 0 <= i < values@.len() ==> -VAL_MAX <= #[trigger] values@[i]
                    <= VAL_MAX,
                forall|a: i32, b: i32, c: i32| #[trigger] call_requires(*sampler, (a, b, c)),
                step == offset / 8,
                forall|a: int, b: int, c: int|
                    0 <= a < x && 0 <= b < GRID_N && 0 <= c < GRID_N ==> #[trigger] lattice_stored(
                        sampler,
                        values@,
                        node,
                        offset as int,
                        a,
                        b,
                        c,
                    ),
                0 <= step <= 0x400_0000,
                -0x4000_0000 <= node.x - offset,
                node.x + offset <= 0x4000_0000,
                -0x4000_0000 <= node.y - offset,
                node.y + offset <= 0x4000_0000,
                -0x4000_0000 <= node.z - offset,
                node.z + offset <= 0x4000_0000,
                step * 16 <= offset * 2,
            decreases GRID_N - x,
        {
            let mut y: usize = 0;
            while y < GRID_N
                invariant
                    x < GRID_N,
                    y <= GRID_N,
                    values@.len() == x * (GRID_N * GRID_N) + y * GRID_N,
                    forall|i: int| 0 <= i < values@.len() ==> -VAL_MAX <= #[trigger] values@[i]
                        <= VAL_MAX,
                    forall|a: i32, b: i32, c: i32| #[trigger] call_requires(*sampler, (a, b, c)),
                    step == offset / 8,
                    forall|a: int, b: int, c: int|
                        0 <= a < x && 0 <= b < GRID_N && 0 <= c < GRID_N
                            ==> #[trigger] lattice_stored(
                            sampler,
                            values@,
                            node,
                            offset as int,
                            a,
                            b,
                            c,
                        ),
                    forall|b: int, c: int|
                        0 <= b < y && 0 <= c < GRID_N ==> #[trigger] lattice_stored(
                            sampler,
                            values@,
                            node,
                            offset as int,
                            x as int,
                            b,
                            c,
                        ),
                    0 <= step <= 0x400_0000,
                    -0x4000_0000 <= node.x - offset,
                    node.x + offset <= 0x4000_0000,
                    -0x4000_0000 <= node.y - offset,
                    node.y + offset <= 0x4000_0000,
                    -0x4000_0000 <= node.z - offset,
                    node.z + offset <= 0x4000_0000,
                    step * 16 <= offset * 2,
                decreases GRID_N - y,
            {
                let mut z: usize = 0;
                while z < GRID_N
                    invariant
                        x < GRID_N,
                        y < GRID_N,
                        z <= GRID_N,
                        values@.len() == x * (GRID_N * GRID_N) + y * GRID_N + z,
                        forall|i: int| 0 <= i < values@.len() ==> -VAL_MAX <= #[trigger] values@[i]
                            <= VAL_MAX,
                        forall|a: i32, b: i32, c: i32| #[trigger] call_requires(
                            *sampler,
                            (a, b, c),
                        ),
                        step == offset / 8,
                        forall|a: int, b: int, c: int|
                            0 <= a < x && 0 <= b < GRID_N && 0 <= c < GRID_N
                                ==> #[trigger] lattice_stored(
                                sampler,
                                values@,
                                node,
                                offset as int,
                                a,
                                b,
                                c,
                            ),
                        forall|b: int, c: int|
                            0 <= b < y && 0 <= c < GRID_N ==> #[trigger] lattice_stored(
                                sampler,
                                values@,
                                node,
                                offset as int,
                                x as int,
                                b,
                                c,
                            ),
                        forall|c: int|
                            0 <= c < z ==> #[trigger] lattice_stored(
                                sampler,
                                values@,
                                node,
                                offset as int,
                                x as int,
                                y as int,
                                c,
                            ),
                        0 <= step <= 0x400_0000,
                        -0x4000_0000 <= node.x - offset,
                        node.x + offset <= 0x4000_0000,
                        -0x4000_0000 <= node.y - offset,
                        node.y + offset <= 0x4000_0000,
                        -0x4000_0000 <= node.z - offset,
                        node.z + offset <= 0x4000_0000,
                        step * 16 <= offset * 2,
                    decreases GRID_N - z,
                {
                    proof {
                        lemma_lattice_step(step as int, x as int);
                        lemma_lattice_step(step as int, y as int);
                        lemma_lattice_step(step as int, z as int);
                    }
                    let wx = node.x - offset + (x as i32) * step;
                    let wy = node.y - offset + (y as i32) * step;
                    let wz = node.z - offset + (z as i32) * step;
                    let raw = sampler(wx, wy, wz);
                    let v = if raw < -VAL_MAX {
                        -VAL_MAX
                    } else if raw > VAL_MAX {
                        VAL_MAX
                    } else {
                        raw
                    };
                    let ghost prev = values@;
                    values.push(v);
                    proof {
                        let o = offset as int;
                        lemma_grid_index17(x as int, y as int, z as int);
                        assert(values@.len() - 1 == (x as int * (GRID_N as int) + y as int) * (
                        GRID_N as int) + z as int);
                        assert(values@[(x as int * (GRID_N as int) + y as int) * (GRID_N as int)
                            + z as int] == v);
                        assert(wx as int == node.x - o + x as int * (o / 8));
                        assert(wy as int == node.y - o + y as int * (o / 8));
                        assert(wz as int == node.z - o + z as int * (o / 8));
                        assert(call_ensures(
                            *sampler,
                            (
                                ((node.x - o + x as int * (o / 8)) as i32),
                                ((node.y - o + y as int * (o / 8)) as i32),
                                ((node.z - o + z as int * (o / 8)) as i32),
                            ),
                            raw,
                        ));
                        assert(lattice_stored(sampler, values@, node, o, x as int, y as int, z as int));
                        assert forall|a: int, b: int, c: int|
                            0 <= a < x && 0 <= b < GRID_N && 0 <= c < GRID_N implies
                            #[trigger] lattice_stored(sampler, values@, node, o, a, b, c) by {
                            lemma_grid_index17(a, b, c);
                            assert(lattice_stored(sampler, prev, node, o, a, b, c));
                            assert(prev[(a * (GRID_N as int) + b) * (GRID_N as int) + c]
                                == values@[(a * (GRID_N as int) + b) * (GRID_N as int) + c]);
                        }
                        assert forall|b: int, c: int|
                            0 <= b < y && 0 <= c < GRID_N implies #[trigger] lattice_stored(
                            sampler, values@, node, o, x as int, b, c) by {
                            lemma_grid_index17(x as int, b, c);
                            assert(lattice_stored(sampler, prev, node, o, x as int, b, c));
                            assert(prev[(x as int * (GRID_N as int) + b) * (GRID_N as int) + c]
                                == values@[(x as int * (GRID_N as int) + b) * (GRID_N as int) + c]);
                        }
                        assert forall|c: int| 0 <= c < z implies #[trigger] lattice_stored(
                            sampler, values@, node, o, x as int, y as int, c) by {
                            lemma_grid_index17(x as int, y as int, c);
                            assert(lattice_stored(sampler, prev, node, o, x as int, y as int, c));
                            assert(prev[(x as int * (GRID_N as int) + y as int) * (GRID_N as int)
                                + c] == values@[(x as int * (GRID_N as int) + y as int) * (
                            GRID_N as int) + c]);
                        }
                    }
                    z = z + 1;
                }
                y = y + 1;
            }
            proof {
                assert((x + 1) * (GRID_N * GRID_N) == x * (GRID_N * GRID_N) + GRID_N * GRID_N)
                    by (nonlinear_arith);
            }
            x = x + 1;
        }
        let ghost vals = values@;
        let grid = VoxelGrid::from_values(GRID_N, values);
        let ghost ggrid = grid;
        proof {
            let o = offset as int;
            assert forall|x: int, y: int, z: int|
                0 <= x < GRID_N && 0 <= y < GRID_N && 0 <= z < GRID_N implies
                #[trigger] sampled_at(sampler, ggrid, node, o, x, y, z) by {
                lemma_grid_index17(x, y, z);
                assert(lattice_stored(sampler, vals, node, o, x, y, z));
                assert(ggrid.value(x, y, z) == vals[(x * (GRID_N as int) + y) * (GRID_N as int)
                    + z]);
            }
            assert(sampled_grid(sampler, ggrid, node, o));
        }
        let ghost pre = self.octree@;
        proof {
            lemma_store_dom(pre, node, grid, self.octree.spec_size() / 2, 1);
            lemma_store_preserves_payloads(pre, node, grid, self.octree.spec_size() / 2, 1);
            lemma_store_then_load(pre, node, grid, self.octree.spec_size() / 2, 1);
        }
        proof {
            crate::octree::lemma_store_payload_values(
                pre,
                node,
                grid,
                self.octree.spec_size() / 2,
                1,
            );
        }
        self.octree.store(node, grid);
        proof {
            crate::math::lemma_pow2_pos((4 - depth) as nat);
            assert forall|k: Vec3i| #[trigger] pre.contains_key(k) implies self
                .octree@.contains_key(k) by {
                assert(self.octree@.dom().contains(k));
            }
            assert(self.octree@[node].payload == Some(ggrid));
            assert forall|k: Vec3i|
                #[trigger] pre.contains_key(k) && apart_by(k, node, offset as int) implies self
                .octree@.contains_key(k) && self.octree@[k].payload == pre[k].payload by {
                assert(k != node);
                assert(self.octree@.dom().contains(k));
            }
            assert forall|k: Vec3i| #[trigger] self.octree@.contains_key(k) implies match self
                .octree@[k].payload {
                Some(g) => g.wf() && g.spec_n() == GRID_N as int,
                None => true,
            } by {
                if k != node && pre.contains_key(k) {
                    assert(self.octree@[k].payload == pre[k].payload);
                }
            }
        }
        if depth < 4 {
            proof {
                lemma_offset_halves(self.octree.spec_size(), depth as nat);
                assert(pow2((4 - depth) as nat) == 2 * pow2((3 - depth) as nat));
                crate::math::lemma_pow2_pos((3 - depth) as nat);
            }
            let children = Node::<VoxelGrid>::children(&node, offset / 2);
            let mut i: usize = 0;
            while i < 8
                invariant
                    self.wf(),
                    forall|a: i32, b: i32, c: i32| #[trigger] call_requires(*sampler, (a, b, c)),
                    i <= 8,
                    depth < 4,
                    self.octree.spec_size() == old(self).octree.spec_size(),
                    self.last_viewer_position == old(self).last_viewer_position,
                    self.update_if_moved_by == old(self).update_if_moved_by,
                    self.view_distance == old(self).view_distance,
                    self.last_lod == old(self).last_lod,
                    self.populated == old(self).populated,
                    children == children_array(node, offset as int / 2),
                    node_offset(self.octree.spec_size(), (depth + 1) as nat) == offset as int / 2,
                    offset == node_offset(self.octree.spec_size(), depth as nat),
                    margin_ok(node, self.octree.spec_size(), depth as nat),
                    -0x4000_0000 <= node.x - offset && node.x + offset <= 0x4000_0000,
                    -0x4000_0000 <= node.y - offset && node.y + offset <= 0x4000_0000,
                    -0x4000_0000 <= node.z - offset && node.z + offset <= 0x4000_0000,
                    forall|k: Vec3i|
                        #[trigger] pre.contains_key(k) ==> self.octree@.contains_key(k),
                    forall|k: Vec3i|
                        #[trigger] pre.contains_key(k) && pre[k].payload is Some
                            ==> self.octree@.contains_key(k) && self.octree@[k].payload is Some,
                    self.octree@.contains_key(node),
                    self.octree@[node].payload is Some,
                    2 <= offset,
                    pow2((4 - depth) as nat) <= offset as int,
                    self.octree@[node].payload == Some(ggrid),
                    sampled_grid(sampler, ggrid, node, offset as int),
                    forall|k: Vec3i|
                        #[trigger] pre.contains_key(k) && apart_by(k, node, offset as int)
                            ==> self.octree@.contains_key(k) && self.octree@[k].payload
                            == pre[k].payload,
                    forall|j: int|
                        0 <= j < i ==> #[trigger] populated_below(
                            self.octree@,
                            children_array(node, offset as int / 2)@[j],
                            offset as int / 2,
                            depth + 1,
                        ),
                    forall|j: int|
                        0 <= j < i ==> #[trigger] sampled_below(
                            sampler,
                            self.octree@,
                            children_array(node, offset as int / 2)@[j],
                            offset as int / 2,
                            depth + 1,
                        ),
                decreases 8 - i,
            {
                let child = children[i];
                proof {
                    lemma_child_margin(node, child, self.octree.spec_size(), depth as nat, i as int, offset as int);
                    assert(pow2((4 - depth) as nat) == 2 * pow2((3 - depth) as nat));
                    assert((4 - (depth + 1)) as nat == (3 - depth) as nat);
                    assert(pow2((3 - depth) as nat) <= offset as int / 2);
                }
                let ghost before = self.octree@;
                self.populate_node(sampler, child, depth + 1);
                proof {
                    let o = offset as int;
                    let o2 = o / 2;
                    assert forall|k: Vec3i|
                        #[trigger] pre.contains_key(k) && pre[k].payload is Some implies self
                        .octree@.contains_key(k) && self.octree@[k].payload is Some by {
                        assert(before.contains_key(k) && before[k].payload is Some);
                    }
                    assert forall|k: Vec3i| #[trigger] pre.contains_key(k) implies self
                        .octree@.contains_key(k) by {
                        assert(before.contains_key(k));
                    }
                    assert forall|k: Vec3i|
                        #[trigger] pre.contains_key(k) && apart_by(k, node, o) implies self
                        .octree@.contains_key(k) && self.octree@[k].payload == pre[k].payload by {
                        assert(before.contains_key(k) && before[k].payload == pre[k].payload);
                        lemma_apart_from_children(k, node, o, i as int);
                        assert(child == children_array(node, o2)@[i as int]);
                        assert(apart_by(k, child, o2));
                    }
                    lemma_node_apart_from_child(node, o, i as int);
                    assert(apart_by(node, child, o2));
                    assert(before.contains_key(node) && before[node].payload == Some(ggrid));
                    assert(self.octree@[node].payload == Some(ggrid));
                    assert forall|j: int|
                        0 <= j < i + 1 implies #[trigger] populated_below(
                        self.octree@,
                        children_array(node, o2)@[j],
                        o2,
                        depth + 1,
                    ) by {
                        if j < i {
                            assert(populated_below(
                                before,
                                children_array(node, o2)@[j],
                                o2,
                                depth + 1,
                            ));
                            lemma_populated_below_monotone(
                                before,
                                self.octree@,
                                children_array(node, o2)@[j],
                                o2,
                                depth + 1,
                            );
                        } else {
                            assert(children_array(node, o2)@[i as int] == child);
                        }
                    }
                    assert forall|j: int|
                        0 <= j < i + 1 implies #[trigger] sampled_below(
                        sampler,
                        self.octree@,
                        children_array(node, o2)@[j],
                        o2,
                        depth + 1,
                    ) by {
                        if j < i {
                            let cj = children_array(node, o2)@[j];
                            assert(sampled_below(sampler, before, cj, o2, depth + 1));
                            assert(pow2((4 - depth) as nat) == 2 * pow2((3 - depth) as nat));
                            assert(pow2((4 - (depth + 1)) as nat) <= o2);
                            assert(2 * o2 <= o);
                            lemma_children_pairwise_apart(node, o2, i as int, j);
                            assert(children_array(node, o2)@[i as int] == child);
                            assert(-0x4000_0000 <= cj.x - o2 && cj.x + o2 <= 0x4000_0000);
                            assert(-0x4000_0000 <= cj.y - o2 && cj.y + o2 <= 0x4000_0000);
                            assert(-0x4000_0000 <= cj.z - o2 && cj.z + o2 <= 0x4000_0000);
                            lemma_sampled_below_preserved(
                                sampler,
                                before,
                                self.octree@,
                                cj,
                                o2,
                                depth + 1,
                                child,
                                o2,
                            );
                        } else {
                            assert(children_array(node, o2)@[i as int] == child);
                        }
                    }
                }
                i = i + 1;
            }
            proof {
                let o = offset as int;
                assert(populated_below(self.octree@, children_array(node, o / 2)@[0], o / 2, depth + 1));
                assert(populated_below(self.octree@, children_array(node, o / 2)@[1], o / 2, depth + 1));
                assert(populated_below(self.octree@, children_array(node, o / 2)@[2], o / 2, depth + 1));
                assert(populated_below(self.octree@, children_array(node, o / 2)@[3], o / 2, depth + 1));
                assert(populated_below(self.octree@, children_array(node, o / 2)@[4], o / 2, depth + 1));
                assert(populated_below(self.octree@, children_array(node, o / 2)@[5], o / 2, depth + 1));
                assert(populated_below(self.octree@, children_array(node, o / 2)@[6], o / 2, depth + 1));
                assert(populated_below(self.octree@, children_array(node, o / 2)@[7], o / 2, depth + 1));
                assert(populated_below(self.octree@, node, o, depth as int));
                assert(sampled_below(sampler, self.octree@, children_array(node, o / 2)@[0], o / 2, depth + 1));
                assert(sampled_below(sampler, self.octree@, children_array(node, o / 2)@[1], o / 2, depth + 1));
                assert(sampled_below(sampler, self.octree@, children_array(node, o / 2)@[2], o / 2, depth + 1));
                assert(sampled_below(sampler, self.octree@, children_array(node, o / 2)@[3], o / 2, depth + 1));
                assert(sampled_below(sampler, self.octree@, children_array(node, o / 2)@[4], o / 2, depth + 1));
                assert(sampled_below(sampler, self.octree@, children_array(node, o / 2)@[5], o / 2, depth + 1));
                assert(sampled_below(sampler, self.octree@, children_array(node, o / 2)@[6], o / 2, depth + 1));
                assert(sampled_below(sampler, self.octree@, children_array(node, o / 2)@[7], o / 2, depth + 1));
                assert(sampled_below(sampler, self.octree@, node, o, depth as int));
            }
        } else {
            proof {
                assert(populated_below(self.octree@, node, offset as int, depth as int));
                assert(sampled_below(sampler, self.octree@, node, offset as int, depth as int));
            }
        }
    }
}

/// Two distinct children of one parent keep their distance: their centers
/// differ by exactly `2 * h` on some axis, and each center coordinate is
/// the parent's shifted by `h` one way or the other.
proof fn lemma_children_pairwise_apart(node: Vec3i, h: int, i: int, j: int)
    requires
        0 <= i < 8,
        0 <= j < 8,
        i != j,
        1 <= h,
        -0x4000_0000 <= node.x - h && node.x + h <= 0x4000_0000,
        -0x4000_0000 <= node.y - h && node.y + h <= 0x4000_0000,
        -0x4000_0000 <= node.z - h && node.z + h <= 0x4000_0000,
    ensures
        apart_by(children_array(node, h)@[j], children_array(node, h)@[i], 2 * h - 1),
        children_array(node, h)@[j].x == node.x - h || children_array(node, h)@[j].x == node.x + h,
        children_array(node, h)@[j].y == node.y - h || children_array(node, h)@[j].y == node.y + h,
        children_array(node, h)@[j].z == node.z - h || children_array(node, h)@[j].z == node.z + h,
{
    let c = children_array(node, h);
    assert(c@[0] == (Vec3i { x: (node.x - h) as i32, y: (node.y + h) as i32, z: (node.z - h) as i32 }));
    assert(c@[1] == (Vec3i { x: (node.x + h) as i32, y: (node.y + h) as i32, z: (node.z - h) as i32 }));
    assert(c@[2] == (Vec3i { x: (node.x + h) as i32, y: (node.y + h) as i32, z: (node.z + h) as i32 }));
    assert(c@[3] == (Vec3i { x: (node.x - h) as i32, y: (node.y + h) as i32, z: (node.z + h) as i32 }));
    assert(c@[4] == (Vec3i { x: (node.x - h) as i32, y: (node.y - h) as i32, z: (node.z - h) as i32 }));
    assert(c@[5] == (Vec3i { x: (node.x + h) as i32, y: (node.y - h) as i32, z: (node.z - h) as i32 }));
    assert(c@[6] == (Vec3i { x: (node.x + h) as i32, y: (node.y - h) as i32, z: (node.z + h) as i32 }));
    assert(c@[7] == (Vec3i { x: (node.x - h) as i32, y: (node.y - h) as i32, z: (node.z + h) as i32 }));
}

/// Each child center sits at exactly half the parent's half-extent out, on
/// every axis: the parent's own center is that far from each child.
proof fn lemma_node_apart_from_child(node: Vec3i, o: int, i: int)
    requires
        0 <= i < 8,
        2 <= o,
        -0x4000_0000 <= node.x - o / 2 && node.x + o / 2 <= 0x4000_0000,
        -0x4000_0000 <= node.y - o / 2 && node.y + o / 2 <= 0x4000_0000,
        -0x4000_0000 <= node.z - o / 2 && node.z + o / 2 <= 0x4000_0000,
    ensures
        apart_by(node, children_array(node, o / 2)@[i], o / 2),
{
    let h = o / 2;
    let c = children_array(node, h);
    assert(c@[0] == (Vec3i { x: (node.x - h) as i32, y: (node.y + h) as i32, z: (node.z - h) as i32 }));
    assert(c@[1] == (Vec3i { x: (node.x + h) as i32, y: (node.y + h) as i32, z: (node.z - h) as i32 }));
    assert(c@[2] == (Vec3i { x: (node.x + h) as i32, y: (node.y + h) as i32, z: (node.z + h) as i32 }));
    assert(c@[3] == (Vec3i { x: (node.x - h) as i32, y: (node.y + h) as i32, z: (node.z + h) as i32 }));
    assert(c@[4] == (Vec3i { x: (node.x - h) as i32, y: (node.y - h) as i32, z: (node.z - h) as i32 }));
    assert(c@[5] == (Vec3i { x: (node.x + h) as i32, y: (node.y - h) as i32, z: (node.z - h) as i32 }));
    assert(c@[6] == (Vec3i { x: (node.x + h) as i32, y: (node.y - h) as i32, z: (node.z + h) as i32 }));
    assert(c@[7] == (Vec3i { x: (node.x - h) as i32, y: (node.y - h) as i32, z: (node.z + h) as i32 }));
}


/// Index bridging on the 17-per-axis lattice: the nested index form, the
/// flat running-length form, and the total bound all agree.
proof fn lemma_grid_index17(x: int, y: int, z: int)
    requires
        0 <= x < GRID_N,
        0 <= y < GRID_N,
        0 <= z < GRID_N,
    ensures
        (x * (GRID_N as int) + y) * (GRID_N as int) + z == x * (GRID_N * GRID_N) + y * GRID_N + z,
        0 <= (x * (GRID_N as int) + y) * (GRID_N as int) + z,
        (x * (GRID_N as int) + y) * (GRID_N as int) + z < GRID_N * (GRID_N * GRID_N),
        GRID_N * (GRID_N * GRID_N) == 4913,
        GRID_N * GRID_N == 289,
{
    assert((x * (GRID_N as int) + y) * (GRID_N as int) + z == x * (GRID_N * GRID_N) + y * GRID_N
        + z && 0 <= (x * (GRID_N as int) + y) * (GRID_N as int) + z && (x * (GRID_N as int) + y) * (
    GRID_N as int) + z < GRID_N * (GRID_N * GRID_N) && GRID_N * (GRID_N * GRID_N) == 4913 && GRID_N
        * GRID_N == 289) by (nonlinear_arith)
        requires
            GRID_N as int == 17,
            0 <= x < 17,
            0 <= y < 17,
            0 <= z < 17,
    ;
}

/// `k * step` stays within twice the half-extent for lattice indices.
proof fn lemma_lattice_step(step: int, k: int)
    requires
        0 <= step,
        0 <= k <= 16,
        step * 16 <= 0x4000_0000,
    ensures
        0 <= k * step <= step * 16,
{
    assert(0 <= k * step <= step * 16) by (nonlinear_arith)
        requires
            0 <= step,
            0 <= k <= 16,
    ;
}

/// Half-extents halve with each level: the next depth's offset is half of
/// this one's.
proof fn lemma_offset_halves(size: int, depth: nat)
    requires
        0 <= size,
    ensures
        node_offset(size, depth + 1) == node_offset(size, depth) / 2,
{
    crate::math::lemma_pow2_pos(depth);
    let p = pow2(depth) as int;
    vstd::arithmetic::div_mod::lemma_div_denominator(size, p, 2);
    vstd::arithmetic::div_mod::lemma_div_denominator(size / p, 2, 2);
    vstd::arithmetic::div_mod::lemma_div_denominator(size, 2 * p, 2);
    assert(pow2(depth + 1) as int == 2 * p);
    assert(size / (2 * p) / 2 == size / p / 2 / 2) by {
        assert(size / (2 * p) == size / p / 2);
        vstd::arithmetic::div_mod::lemma_div_denominator(size / p, 2, 2);
    }
}

/// Each child's cube stays inside the root cube.
proof fn lemma_child_margin(node: Vec3i, child: Vec3i, size: int, depth: nat, i: int, offset: int)
    requires
        0 <= i < 8,
        margin_ok(node, size, depth),
        offset == node_offset(size, depth),
        node_offset(size, depth + 1) == offset / 2,
        child == children_array(node, offset / 2)@[i],
        -0x4000_0000 <= node.x - offset && node.x + offset <= 0x4000_0000,
        -0x4000_0000 <= node.y - offset && node.y + offset <= 0x4000_0000,
        -0x4000_0000 <= node.z - offset && node.z + offset <= 0x4000_0000,
    ensures
        margin_ok(child, size, depth + 1),
{
    let h = offset / 2;
    let c = children_array(node, h);
    assert(c@[0] == (Vec3i { x: (node.x - h) as i32, y: (node.y + h) as i32, z: (node.z - h) as i32 }));
    assert(c@[1] == (Vec3i { x: (node.x + h) as i32, y: (node.y + h) as i32, z: (node.z - h) as i32 }));
    assert(c@[2] == (Vec3i { x: (node.x + h) as i32, y: (node.y + h) as i32, z: (node.z + h) as i32 }));
    assert(c@[3] == (Vec3i { x: (node.x - h) as i32, y: (node.y + h) as i32, z: (node.z + h) as i32 }));
    assert(c@[4] == (Vec3i { x: (node.x - h) as i32, y: (node.y - h) as i32, z: (node.z - h) as i32 }));
    assert(c@[5] == (Vec3i { x: (node.x + h) as i32, y: (node.y - h) as i32, z: (node.z - h) as i32 }));
    assert(c@[6] == (Vec3i { x: (node.x + h) as i32, y: (node.y - h) as i32, z: (node.z + h) as i32 }));
    assert(c@[7] == (Vec3i { x: (node.x - h) as i32, y: (node.y - h) as i32, z: (node.z + h) as i32 }));
}

/// The fixed-point world position of a chunk center.
pub open spec fn center_point(c: Vec3i) -> Point3 {
    Point3 { x: (c.x * FP) as i64, y: (c.y * FP) as i64, z: (c.z * FP) as i64 }
}

fn center_point_exec(c: &Vec3i) -> (r: Point3)
    ensures
        r == center_point(*c),
        -0x8000_0000_0000 <= r.x <= 0x8000_0000_0000,
        -0x8000_0000_0000 <= r.y <= 0x8000_0000_0000,
        -0x8000_0000_0000 <= r.z <= 0x8000_0000_0000,
{
    Point3 { x: c.x as i64 * FP, y: c.y as i64 * FP, z: c.z as i64 * FP }
}

/// What the refinement emits from `cursor` down: while the viewer is close
/// enough for the chunk's size, the level cap is not reached and the octree
/// has split this node, descend into all 8 children with a quartered offset
/// and a threshold rescaled to it; otherwise emit the cursor itself.  A
/// distance exactly at the threshold counts as outside.
pub open spec fn spec_select(
    m: Map<Vec3i, Node<VoxelGrid>>,
    viewer: Point3,
    cursor: Vec3i,
    vd2: int,
    offset: int,
    lod: int,
    max_lod: int,
) -> Seq<Vec3i>
    decreases max_lod - lod, 0int,
{
    if lod < max_lod && dist2(center_point(cursor), viewer) < vd2 {
        match (if m.contains_key(cursor) {
            m[cursor].children
        } else {
            None
        }) {
            Some(ch) => spec_select_children(
                m,
                viewer,
                ch@,
                8,
                6 * offset * offset * (FP * FP),
                offset / 4,
                lod + 1,
                max_lod,
            ),
            None => seq![cursor],
        }
    } else {
        seq![cursor]
    }
}

/// The refinement of the first `k` children, concatenated in child order.
pub open spec fn spec_select_children(
    m: Map<Vec3i, Node<VoxelGrid>>,
    viewer: Point3,
    ch: Seq<Vec3i>,
    k: int,
    vd2: int,
    offset: int,
    lod: int,
    max_lod: int,
) -> Seq<Vec3i>
    decreases max_lod - lod, k,
{
    if k <= 0 {
        Seq::empty()
    } else {
        spec_select_children(m, viewer, ch, k - 1, vd2, offset, lod, max_lod) + spec_select(
            m,
            viewer,
            ch[k - 1],
            vd2,
            offset,
            lod,
            max_lod,
        )
    }
}

impl Terrain {
    /// The recursive view-dependent refinement: the chunk coordinates to
    /// display below `cursor` for this viewer position, exactly as
    /// `spec_select` describes them.
    pub fn chunks(
        &self,
        viewer_position: &Point3,
        cursor: &Vec3i,
        chunk_view_distance2: i64,
        chunk_offset: i32,
        chunk_lod: usize,
        max_lod: usize,
    ) -> (r: Vec<Vec3i>)
        requires
            self.octree.wf(),
            viewer_ok(*viewer_position),
            0 <= chunk_offset <= 0x10_0000,
            chunk_lod <= max_lod <= 100,
        ensures
            r@ == spec_select(
                self.octree@,
                *viewer_position,
                *cursor,
                chunk_view_distance2 as int,
                chunk_offset as int,
                chunk_lod as int,
                max_lod as int,
            ),
        decreases max_lod - chunk_lod,
    {
        let center = center_point_exec(cursor);
        let d2 = dist2_i128(&center, viewer_position);
        if chunk_lod < max_lod && d2 < chunk_view_distance2 as i128 {
            match self.octree.children(cursor) {
                Some(children) => {
                    let child_offset = chunk_offset / 4;
                    let co = chunk_offset as i64;
                    proof {
                        assert(0 <= co * co <= 0x100_0000_0000) by (nonlinear_arith)
                            requires
                                0 <= co <= 0x10_0000,
                        ;
                    }
                    let co2 = co * co;
                    let child_view_distance2: i64 = co2 * 393216;
                    let child_lod = chunk_lod + 1;
                    let ghost chs = children@;
                    let ghost m = self.octree@;
                    proof {
                        assert(chs.len() == 8);
                        assert(child_view_distance2 == 6 * (chunk_offset as int) * (chunk_offset
                            as int) * (FP * FP)) by (nonlinear_arith)
                            requires
                                child_view_distance2 == co2 * 393216,
                                co2 == co * co,
                                co == chunk_offset as int,
                                FP == 256,
                        ;
                    }
                    let mut out: Vec<Vec3i> = Vec::new();
                    let mut i: usize = 0;
                    while i < 8
                        invariant
                            self.octree.wf(),
                            m == self.octree@,
                            viewer_ok(*viewer_position),
                            i <= 8,
                            chs.len() == 8,
                            chs == children@,
                            0 <= child_offset <= 0x10_0000,
                            child_lod <= max_lod <= 100,
                            child_lod == chunk_lod + 1,
                            chunk_lod < max_lod,
                            child_view_distance2 == 6 * (chunk_offset as int) * (chunk_offset
                                as int) * (FP * FP),
                            child_offset == chunk_offset as int / 4,
                            out@ == spec_select_children(
                                m,
                                *viewer_position,
                                chs,
                                i as int,
                                child_view_distance2 as int,
                                child_offset as int,
                                child_lod as int,
                                max_lod as int,
                            ),
                        decreases 8 - i,
                    {
                        let mut sub = self.chunks(
                            viewer_position,
                            &children[i],
                            child_view_distance2,
                            child_offset,
                            child_lod,
                            max_lod,
                        );
                        out.append(&mut sub);
                        i = i + 1;
                    }
                    proof {
                        assert(out@ == spec_select(
                            m,
                            *viewer_position,
                            *cursor,
                            chunk_view_distance2 as int,
                            chunk_offset as int,
                            chunk_lod as int,
                            max_lod as int,
                        ));
                    }
                    out
                },
                None => {
                    let mut out: Vec<Vec3i> = Vec::new();
                    out.push(*cursor);
                    proof {
                        assert(out@ =~= seq![*cursor]);
                    }
                    out
                },
            }
        } else {
            let mut out: Vec<Vec3i> = Vec::new();
            out.push(*cursor);
            proof {
                assert(out@ =~= seq![*cursor]);
            }
            out
        }
    }
}


impl Default for Terrain {
    /// The same fresh terrain `new` builds.
    fn default() -> (r: Self)
        ensures
            r.wf(),
            !r.populated,
            r.last_viewer_position is None,
            r.octree.spec_size() == 2048,
    {
        Terrain::new()
    }
}

/// The per-frame chunk cache: one `Chunk` record per coordinate ever
/// selected, viewed as a `Map`.
pub struct Spawner {
    chunks: Vec<(Vec3i, Chunk)>,
}

impl View for Spawner {
    type V = Map<Vec3i, Chunk>;

    closed spec fn view(&self) -> Map<Vec3i, Chunk> {
        crate::octree::entries(self.chunks@)
    }
}

impl Default for Spawner {
    /// An empty cache.
    fn default() -> (r: Self)
        ensures
            r.wf(),
            r@ == Map::<Vec3i, Chunk>::empty(),
    {
        Spawner::new()
    }
}

impl Spawner {
    /// Keys unique.
    pub closed spec fn wf(&self) -> bool {
        crate::octree::unique_keys(self.chunks@)
    }

    /// An empty cache.
    pub fn new() -> (r: Self)
        ensures
            r.wf(),
            r@ == Map::<Vec3i, Chunk>::empty(),
    {
        Spawner { chunks: Vec::new() }
    }

    fn find_index(&self, key: &Vec3i) -> (r: Option<usize>)
        requires
            self.wf(),
        ensures
            match r {
                Some(i) => i < self.chunks@.len() && self.chunks@[i as int].0 == *key
                    && self@.contains_key(*key) && self@[*key] == self.chunks@[i as int].1,
                None => !self@.contains_key(*key),
            },
    {
        let mut i: usize = 0;
        while i < self.chunks.len()
            invariant
                self.wf(),
                i <= self.chunks@.len(),
                forall|j: int| 0 <= j < i ==> (#[trigger] self.chunks@[j]).0 != *key,
            decreases self.chunks@.len() - i,
        {
            if self.chunks[i].0 == *key {
                proof {
                    crate::octree::lemma_entries_index(self.chunks@, i as int);
                }
                return Some(i);
            }
            i = i + 1;
        }
        proof {
            crate::octree::lemma_entries_absent(self.chunks@, *key);
        }
        None
    }

    /// The record for `key`, if one exists.
    pub fn get(&self, key: &Vec3i) -> (r: Option<Chunk>)
        requires
            self.wf(),
        ensures
            match r {
                Some(c) => self@.contains_key(*key) && self@[*key] == c,
                None => !self@.contains_key(*key),
            },
    {
        match self.find_index(key) {
            Some(i) => Some(self.chunks[i].1),
            None => None,
        }
    }

    /// Creates or replaces the record for `key`.
    pub fn set_chunk(&mut self, key: Vec3i, c: Chunk)
        requires
            old(self).wf(),
        ensures
            final(self).wf(),
            final(self)@ == old(self)@.insert(key, c),
    {
        let ghost s0 = self.chunks@;
        match self.find_index(&key) {
            Some(i) => {
                self.chunks.set(i, (key, c));
                proof {
                    assert(self.chunks@ =~= s0.update(i as int, (s0[i as int].0, c)));
                    crate::octree::lemma_entries_update(s0, i as int, c);
                    assert(self@ =~= old(self)@.insert(key, c));
                }
            },
            None => {
                proof {
                    if exists|i: int|
                        0 <= i < self.chunks@.len() && (#[trigger] self.chunks@[i]).0 == key {
                        let i = choose|i: int|
                            0 <= i < self.chunks@.len() && (#[trigger] self.chunks@[i]).0 == key;
                        crate::octree::lemma_entries_index(self.chunks@, i);
                    }
                    crate::octree::lemma_entries_push(self.chunks@, key, c);
                }
                self.chunks.push((key, c));
            },
        }
    }

    /// Records the external mesh handle that was created for `key`'s chunk.
    pub fn set_mesh(&mut self, key: &Vec3i, id: u64)
        requires
            old(self).wf(),
        ensures
            final(self).wf(),
            old(self)@.contains_key(*key) ==> final(self)@ == old(self)@.insert(
                *key,
                (Chunk {
                    position: old(self)@[*key].position,
                    lod: old(self)@[*key].lod,
                    mesh: Some(id),
                    changed: old(self)@[*key].changed,
                    hollow: old(self)@[*key].hollow,
                    disabled: old(self)@[*key].disabled,
                }),
            ),
            !old(self)@.contains_key(*key) ==> final(self)@ == old(self)@,
    {
        match self.get(key) {
            Some(c) => {
                let mut c2 = c;
                c2.mesh = Some(id);
                self.set_chunk(*key, c2);
            },
            None => {
                proof {
                    assert(self@ =~= old(self)@);
                }
            },
        }
    }

    /// Marks every record disabled, as each frame does before re-enabling
    /// what it selects.
    pub fn disable_all(&mut self)
        requires
            old(self).wf(),
        ensures
            final(self).wf(),
            final(self)@.dom() =~= old(self)@.dom(),
            forall|k: Vec3i|
                #[trigger] old(self)@.contains_key(k) ==> final(self)@[k] == (Chunk {
                    position: old(self)@[k].position,
                    lod: old(self)@[k].lod,
                    mesh: old(self)@[k].mesh,
                    changed: old(self)@[k].changed,
                    hollow: old(self)@[k].hollow,
                    disabled: true,
                }),
    {
        let ghost s0 = self.chunks@;
        let len = self.chunks.len();
        let mut i: usize = 0;
        while i < len
            invariant
                len == self.chunks@.len(),
                s0.len() == len,
                i <= len,
                forall|j: int| 0 <= j < len ==> (#[trigger] self.chunks@[j]).0 == s0[j].0,
                forall|j: int|
                    i <= j < len ==> (#[trigger] self.chunks@[j]).1 == s0[j].1,
                forall|j: int|
                    0 <= j < i ==> (#[trigger] self.chunks@[j]).1 == (Chunk {
                        position: s0[j].1.position,
                        lod: s0[j].1.lod,
                        mesh: s0[j].1.mesh,
                        changed: s0[j].1.changed,
                        hollow: s0[j].1.hollow,
                        disabled: true,
                    }),
                crate::octree::unique_keys(s0),
            decreases len - i,
        {
            let (k, c) = self.chunks[i];
            self.chunks.set(
                i,
                (
                    k,
                    Chunk {
                        position: c.position,
                        lod: c.lod,
                        mesh: c.mesh,
                        changed: c.changed,
                        hollow: c.hollow,
                        disabled: true,
                    },
                ),
            );
            i = i + 1;
        }
        proof {
            assert(crate::octree::unique_keys(self.chunks@));
            assert forall|k: Vec3i| #[trigger] crate::octree::entries(s0).contains_key(k) implies {
                &&& self@.contains_key(k)
                &&& self@[k] == (Chunk {
                    position: crate::octree::entries(s0)[k].position,
                    lod: crate::octree::entries(s0)[k].lod,
                    mesh: crate::octree::entries(s0)[k].mesh,
                    changed: crate::octree::entries(s0)[k].changed,
                    hollow: crate::octree::entries(s0)[k].hollow,
                    disabled: true,
                })
            } by {
                crate::octree::lemma_entries_key_to_index(s0, k);
                let j = choose|j: int| 0 <= j < s0.len() && (#[trigger] s0[j]).0 == k;
                crate::octree::lemma_entries_index(s0, j);
                crate::octree::lemma_entries_index(self.chunks@, j);
            }
            assert forall|k: Vec3i| #[trigger] self@.contains_key(k) implies crate::octree::entries(
                s0,
            ).contains_key(k) by {
                crate::octree::lemma_entries_key_to_index(self.chunks@, k);
                let j = choose|j: int|
                    0 <= j < self.chunks@.len() && (#[trigger] self.chunks@[j]).0 == k;
                crate::octree::lemma_entries_index(s0, j);
            }
        }
    }
}

/// The chunk-aligned center coordinate of the viewer's chunk on one axis.
pub open spec fn spec_origin(v: i64, chunk_size: int) -> int {
    v as int / (chunk_size * 256) * chunk_size + chunk_size / 2
}

/// The ring half-width of root-level candidates at a base level.
pub open spec fn spec_limit(lod: int) -> int {
    if lod <= 1 {
        1
    } else {
        2
    }
}

/// The selected keys contributed by the first `k` z-ring candidates at one
/// (x, y) column.
pub open spec fn spec_keys_z(
    m: Map<Vec3i, Node<VoxelGrid>>,
    viewer: Point3,
    x: int,
    y: int,
    oz: int,
    cs: int,
    vd2: int,
    off: int,
    lod: int,
    hi: int,
    limit: int,
    k: int,
) -> Seq<Vec3i>
    decreases k,
{
    if k <= 0 {
        Seq::empty()
    } else {
        spec_keys_z(m, viewer, x, y, oz, cs, vd2, off, lod, hi, limit, k - 1) + spec_select(
            m,
            viewer,
            (Vec3i { x: x as i32, y: y as i32, z: (oz + cs * (k - 1 - limit)) as i32 }),
            vd2,
            off,
            lod,
            hi,
        )
    }
}

/// The selected keys contributed by the first `k` y-ring candidates at one
/// x-plane, each with its full z ring.
pub open spec fn spec_keys_y(
    m: Map<Vec3i, Node<VoxelGrid>>,
    viewer: Point3,
    x: int,
    oy: int,
    oz: int,
    cs: int,
    vd2: int,
    off: int,
    lod: int,
    hi: int,
    limit: int,
    k: int,
) -> Seq<Vec3i>
    decreases k,
{
    if k <= 0 {
        Seq::empty()
    } else {
        spec_keys_y(m, viewer, x, oy, oz, cs, vd2, off, lod, hi, limit, k - 1) + spec_keys_z(
            m,
            viewer,
            x,
            oy + cs * (k - 1 - limit),
            oz,
            cs,
            vd2,
            off,
            lod,
            hi,
            limit,
            2 * limit,
        )
    }
}

/// The selected keys of the first `k` x-ring candidates, each with its
/// full (y, z) ring.
pub open spec fn spec_keys_x(
    m: Map<Vec3i, Node<VoxelGrid>>,
    viewer: Point3,
    ox: int,
    oy: int,
    oz: int,
    cs: int,
    vd2: int,
    off: int,
    lod: int,
    hi: int,
    limit: int,
    k: int,
) -> Seq<Vec3i>
    decreases k,
{
    if k <= 0 {
        Seq::empty()
    } else {
        spec_keys_x(m, viewer, ox, oy, oz, cs, vd2, off, lod, hi, limit, k - 1) + spec_keys_y(
            m,
            viewer,
            ox + cs * (k - 1 - limit),
            oy,
            oz,
            cs,
            vd2,
            off,
            lod,
            hi,
            limit,
            2 * limit,
        )
    }
}

/// Every chunk coordinate one frame selects: the refinement of each
/// candidate in the ring around the viewer's chunk, in (x, y, z) candidate
/// order.
pub open spec fn spec_frame_keys(
    m: Map<Vec3i, Node<VoxelGrid>>,
    viewer: Point3,
    size: int,
    lod: int,
) -> Seq<Vec3i> {
    let cs = size / pow2(lod as nat) as int;
    let off = cs / 2;
    let vd2 = 6 * off * off * (FP * FP);
    let limit = spec_limit(lod);
    spec_keys_x(
        m,
        viewer,
        spec_origin(viewer.x, cs),
        spec_origin(viewer.y, cs),
        spec_origin(viewer.z, cs),
        cs,
        vd2,
        off,
        lod,
        lod + 2,
        limit,
        2 * limit,
    )
}

/// A build job is backed by a selected key that the octree resolved to this
/// job's chunk, and its mesh is exactly that grid's polygonization.
pub open spec fn job_bound(
    m: Map<Vec3i, Node<VoxelGrid>>,
    size: int,
    selected: Seq<Vec3i>,
    j: MeshUpdate,
) -> bool {
    exists|kk: Vec3i|
        #[trigger] selected.contains(kk) && match spec_find(m, kk, size) {
            Some(t) => t.0 == j.position && j.data.positions@ == crate::marching::spec_polygonize(
                &t.2,
                0,
            ),
            None => false,
        }
}

/// The grid crosses the iso-level somewhere: some cell of it carries both a
/// value below zero and one at or above it, so polygonizing it emits
/// triangles.  A grid that does not is hollow.
pub open spec fn grid_mixed(g: VoxelGrid) -> bool {
    exists|a: int, b: int, c: int|
        0 <= a < crate::chunk::CHUNK_SIZE && 0 <= b < crate::chunk::CHUNK_SIZE && 0 <= c
            < crate::chunk::CHUNK_SIZE && #[trigger] crate::marching::cell_mixed(&g, 0, a, b, c)
}

/// Whether a frame still owes this coordinate a mesh build: its cache
/// record is marked changed and not hollow.  A coordinate with no record
/// yet spawns a fresh one, which owes a build.
pub open spec fn needs_build(cache: Map<Vec3i, Chunk>, k: Vec3i) -> bool {
    cache.contains_key(k) ==> (cache[k].changed && !cache[k].hollow)
}

/// The chunk coordinates the octree actually resolves for a selected key
/// list: the best-effort `find` answer of each key that has one.
pub open spec fn resolved_of(
    m: Map<Vec3i, Node<VoxelGrid>>,
    keys: Seq<Vec3i>,
    size: int,
) -> Set<Vec3i>
    decreases keys.len(),
{
    if keys.len() == 0 {
        Set::empty()
    } else {
        let rest = resolved_of(m, keys.drop_last(), size);
        match spec_find(m, keys.last(), size) {
            Some(t) => rest.insert(t.0),
            None => rest,
        }
    }
}

/// Whether one frame skips all work: the viewer stayed inside the movement
/// threshold at an unchanged level of detail.
pub open spec fn spec_skip(t: Terrain, viewer: Point3, lod: int) -> bool {
    match t.last_viewer_position {
        Some(last) => dist2(last, viewer) < t.update_if_moved_by && lod == t.last_lod,
        None => false,
    }
}

/// One mesh build the frame asks the external layer to perform: create a
/// resource when `mesh` is `None`, else overwrite the one it names (the
/// handle stays stable across rebuilds).
pub struct MeshUpdate {
    pub position: Vec3i,
    pub lod: usize,
    pub mesh: Option<u64>,
    pub data: crate::mesh::Mesh,
}

/// What every emitted build job guarantees: a complete, nonempty triangle
/// mesh with matching normals and uvs.
pub open spec fn job_wf(j: MeshUpdate) -> bool {
    &&& j.data.wf()
    &&& j.data.positions@.len() > 0
    &&& j.data.positions@.len() % 3 == 0
    &&& match j.data.normals {
        Some(ns) => ns@.len() == j.data.positions@.len(),
        None => false,
    }
    &&& match j.data.uvs {
        Some(uv) => uv@.len() == j.data.positions@.len(),
        None => false,
    }
}

/// The chunk-aligned coordinate of the chunk containing a fixed-point
/// position: floor to a multiple of `chunk_size`, then move to its center.
fn chunk_origin(v: i64, chunk_size: i32) -> (r: i32)
    requires
        1 <= chunk_size <= 0x10_0000,
        -VIEWER_MAX <= v <= VIEWER_MAX,
    ensures
        r == v as int / (chunk_size as int * 256) * chunk_size + chunk_size as int / 2,
        -0x80_0000 <= r <= 0x80_0000,
{
    let t: i64 = (chunk_size as i64) * 256;
    let q = crate::math::floor_div_i64(v, t);
    proof {
        vstd::arithmetic::div_mod::lemma_fundamental_div_mod(v as int, t as int);
        vstd::arithmetic::div_mod::lemma_mod_bound(v as int, t as int);
        assert(t as int * (q as int) == 256 * (q as int * chunk_size as int)) by (nonlinear_arith)
            requires
                t == chunk_size as int * 256,
        ;
        assert(-0x40_0000 <= q as int * chunk_size as int <= 0x40_0000);
        assert(-0x40_0000 <= q <= 0x40_0000) by (nonlinear_arith)
            requires
                -0x40_0000 <= q as int * chunk_size as int <= 0x40_0000,
                1 <= chunk_size,
        ;
    }
    let qi = q as i32;
    qi * chunk_size + chunk_size / 2
}

/// One frame of the terrain: decide whether the viewer moved far enough,
/// reconcile the chunk cache with the freshly selected visible set, run the
/// polygonizer over every chunk that needs it, and hand back the mesh
/// builds for the external layer to upload.  Moving by less than the
/// movement threshold (at an unchanged level of detail) changes nothing
/// and triggers no build.
pub fn spawn<F: Fn(i32, i32, i32) -> i32>(
    terrain: &mut Terrain,
    cache: &mut Spawner,
    sampler: &F,
    viewer_position: Point3,
    lod: usize,
) -> (jobs: Vec<MeshUpdate>)
    requires
        old(terrain).wf(),
        old(cache).wf(),
        old(terrain).populated || old(terrain).octree.spec_size() >= 32,
        forall|x: i32, y: i32, z: i32| #[trigger] call_requires(*sampler, (x, y, z)),
        viewer_ok(viewer_position),
        lod <= 28,
    ensures
        final(terrain).wf(),
        final(cache).wf(),
        final(terrain).populated,
        final(terrain).octree.spec_size() == old(terrain).octree.spec_size(),
        final(terrain).update_if_moved_by == old(terrain).update_if_moved_by,
        final(terrain).view_distance == old(terrain).view_distance,
        old(terrain).populated ==> final(terrain).octree == old(terrain).octree,
        forall|k: Vec3i|
            #[trigger] old(terrain).octree@.contains_key(k)
                ==> final(terrain).octree@.contains_key(k),
        forall|k: Vec3i|
            #[trigger] old(terrain).octree@.contains_key(k)
                && old(terrain).octree@[k].payload is Some
                ==> final(terrain).octree@.contains_key(k)
                && final(terrain).octree@[k].payload is Some,
        (old(terrain).populated && spec_skip(*old(terrain), viewer_position, lod as int)) ==> {
            &&& *final(terrain) == *old(terrain)
            &&& final(cache)@ == old(cache)@
            &&& jobs@.len() == 0
        },
        !spec_skip(*old(terrain), viewer_position, lod as int) ==> {
            &&& final(terrain).populated
            &&& final(terrain).last_lod == lod
            &&& final(terrain).last_viewer_position == Some(viewer_position)
        },
        (spec_skip(*old(terrain), viewer_position, lod as int) && !old(terrain).populated) ==> {
            &&& jobs@.len() == 0
            &&& final(terrain).populated
            &&& final(cache)@ == old(cache)@
            &&& final(terrain).last_viewer_position == old(terrain).last_viewer_position
            &&& final(terrain).last_lod == old(terrain).last_lod
        },
        forall|i: int| 0 <= i < jobs@.len() ==> job_wf(#[trigger] jobs@[i]),
        forall|i: int|
            0 <= i < jobs@.len() ==> {
                let p = (#[trigger] jobs@[i]).position;
                &&& final(cache)@.contains_key(p)
                &&& final(cache)@[p].changed == false
                &&& final(cache)@[p].disabled == false
            },
        (!spec_skip(*old(terrain), viewer_position, lod as int) && old(terrain).octree.spec_size() / pow2(lod as nat) as int >= 1) ==> {
            let m = final(terrain).octree@;
            let size = final(terrain).octree.spec_size();
            let selected = spec_frame_keys(m, viewer_position, size, lod as int);
            let resolved = resolved_of(m, selected, size);
            &&& final(cache)@.dom() == old(cache)@.dom() + resolved
            &&& forall|k: Vec3i|
                #[trigger] final(cache)@.contains_key(k) ==> (final(cache)@[k].disabled == false
                    <==> resolved.contains(k))
            &&& forall|k: Vec3i|
                #[trigger] old(cache)@.contains_key(k) && !resolved.contains(k) ==> final(cache)@[k] == (Chunk {
                    position: old(cache)@[k].position,
                    lod: old(cache)@[k].lod,
                    mesh: old(cache)@[k].mesh,
                    changed: old(cache)@[k].changed,
                    hollow: old(cache)@[k].hollow,
                    disabled: true,
                })
            &&& forall|k: Vec3i|
                #[trigger] resolved.contains(k) ==> final(cache)@.contains_key(k) && (final(cache)@[k].changed == false || final(cache)@[k].hollow == true)
            &&& forall|i: int, j: int|
                0 <= i < j < jobs@.len() ==> (#[trigger] jobs@[i]).position != (
                #[trigger] jobs@[j]).position
            &&& forall|i: int|
                0 <= i < jobs@.len() ==> #[trigger] job_bound(m, size, selected, jobs@[i])
            &&& forall|k: Vec3i|
                #[trigger] resolved.contains(k) ==> m.contains_key(k) && m[k].payload is Some
            &&& forall|k: Vec3i|
                #[trigger] resolved.contains(k) && needs_build(old(cache)@, k) ==> (match m[k].payload {
                    Some(g) => {
                        &&& final(cache)@[k].hollow == !grid_mixed(g)
                        &&& (grid_mixed(g) ==> exists|i: int|
                            0 <= i < jobs@.len() && (#[trigger] jobs@[i]).position == k
                                && jobs@[i].data.positions@ == crate::marching::spec_polygonize(
                                &g,
                                0,
                            ))
                    },
                    None => false,
                })
        },
{
    if !terrain.populated {
        terrain.populate(sampler);
    }
    match terrain.last_viewer_position {
        Some(last) => {
            let d2 = dist2_i128(&last, &viewer_position);
            if d2 < terrain.update_if_moved_by as i128 && terrain.last_lod == lod {
                return Vec::new();
            }
        },
        None => {},
    }
    terrain.last_lod = lod;
    terrain.last_viewer_position = Some(viewer_position);
    let ghost cache0 = cache@;
    cache.disable_all();
    let ghost cache1 = cache@;
    proof {
        terrain.octree.lemma_wf_bounds();
    }
    let ghost m = terrain.octree@;
    let ghost size = terrain.octree.spec_size();
    let terrain_size = terrain.octree.size() as i32;
    let scale = Lod(lod).scale();
    let chunk_size = terrain_size / scale;
    if chunk_size < 1 {
        return Vec::new();
    }
    let chunk_offset = chunk_size / 2;
    let high_lod = lod + 2;
    let origin_x = chunk_origin(viewer_position.x, chunk_size);
    let origin_y = chunk_origin(viewer_position.y, chunk_size);
    let origin_z = chunk_origin(viewer_position.z, chunk_size);
    let co = chunk_offset as i64;
    proof {
        assert(0 <= co * co <= 0x100_0000_0000) by (nonlinear_arith)
            requires
                0 <= co <= 0x10_0000,
        ;
    }
    let co2 = co * co;
    let chunk_view_distance2: i64 = co2 * 393216;
    let ghost cs = chunk_size as int;
    let ghost off = chunk_offset as int;
    let ghost vd2 = chunk_view_distance2 as int;
    let ghost lodi = lod as int;
    let ghost hi = high_lod as int;
    let ghost ox = origin_x as int;
    let ghost oy = origin_y as int;
    let ghost oz = origin_z as int;
    proof {
        assert(cs == size / pow2(lod as nat) as int);
        assert(vd2 == 6 * off * off * (FP * FP)) by (nonlinear_arith)
            requires
                vd2 == co2 * 393216,
                co2 == co * co,
                co == off,
                FP == 256,
        ;
    }
    let limit: i32 = if lod <= 1 {
        1
    } else {
        2
    };
    let ghost limiti = limit as int;
    let mut keys: Vec<Vec3i> = Vec::new();
    let mut xi: i32 = -limit;
    while xi < limit
        invariant
            terrain.wf(),
            viewer_ok(viewer_position),
            m == terrain.octree@,
            size == terrain.octree.spec_size(),
            -limit <= xi <= limit,
            1 <= limit <= 2,
            limiti == limit as int,
            limiti == spec_limit(lodi),
            1 <= chunk_size <= 0x10_0000,
            0 <= chunk_offset <= 0x10_0000,
            -0x80_0000 <= origin_x <= 0x80_0000,
            -0x80_0000 <= origin_y <= 0x80_0000,
            -0x80_0000 <= origin_z <= 0x80_0000,
            lod <= high_lod <= 30,
            cs == chunk_size as int,
            off == chunk_offset as int,
            vd2 == chunk_view_distance2 as int,
            lodi == lod as int,
            hi == high_lod as int,
            ox == origin_x as int,
            oy == origin_y as int,
            oz == origin_z as int,
            keys@ == spec_keys_x(
                m,
                viewer_position,
                ox,
                oy,
                oz,
                cs,
                vd2,
                off,
                lodi,
                hi,
                limiti,
                xi as int + limiti,
            ),
        decreases limit - xi,
    {
        proof {
            lemma_span_bound(chunk_size as int, xi as int);
        }
        let x = origin_x + chunk_size * xi;
        let mut yi: i32 = -limit;
        while yi < limit
            invariant
                terrain.wf(),
                viewer_ok(viewer_position),
                m == terrain.octree@,
                size == terrain.octree.spec_size(),
                -limit <= yi <= limit,
                -limit <= xi < limit,
                1 <= limit <= 2,
                limiti == limit as int,
                1 <= chunk_size <= 0x10_0000,
                0 <= chunk_offset <= 0x10_0000,
                -0x80_0000 <= origin_y <= 0x80_0000,
                -0x80_0000 <= origin_z <= 0x80_0000,
                lod <= high_lod <= 30,
                cs == chunk_size as int,
                off == chunk_offset as int,
                vd2 == chunk_view_distance2 as int,
                lodi == lod as int,
                hi == high_lod as int,
                oy == origin_y as int,
                oz == origin_z as int,
                x as int == ox + cs * (xi as int),
                keys@ == spec_keys_x(
                    m,
                    viewer_position,
                    ox,
                    oy,
                    oz,
                    cs,
                    vd2,
                    off,
                    lodi,
                    hi,
                    limiti,
                    xi as int + limiti,
                ) + spec_keys_y(
                    m,
                    viewer_position,
                    x as int,
                    oy,
                    oz,
                    cs,
                    vd2,
                    off,
                    lodi,
                    hi,
                    limiti,
                    yi as int + limiti,
                ),
            decreases limit - yi,
        {
            proof {
                lemma_span_bound(chunk_size as int, yi as int);
            }
            let y = origin_y + chunk_size * yi;
            let mut zi: i32 = -limit;
            while zi < limit
                invariant
                    terrain.wf(),
                    viewer_ok(viewer_position),
                    m == terrain.octree@,
                    size == terrain.octree.spec_size(),
                    -limit <= zi <= limit,
                    -limit <= xi < limit,
                    -limit <= yi < limit,
                    1 <= limit <= 2,
                    limiti == limit as int,
                    1 <= chunk_size <= 0x10_0000,
                    0 <= chunk_offset <= 0x10_0000,
                    -0x80_0000 <= origin_z <= 0x80_0000,
                    lod <= high_lod <= 30,
                    cs == chunk_size as int,
                    off == chunk_offset as int,
                    vd2 == chunk_view_distance2 as int,
                    lodi == lod as int,
                    hi == high_lod as int,
                    oz == origin_z as int,
                    y as int == oy + cs * (yi as int),
                    keys@ == spec_keys_x(
                        m,
                        viewer_position,
                        ox,
                        oy,
                        oz,
                        cs,
                        vd2,
                        off,
                        lodi,
                        hi,
                        limiti,
                        xi as int + limiti,
                    ) + spec_keys_y(
                        m,
                        viewer_position,
                        x as int,
                        oy,
                        oz,
                        cs,
                        vd2,
                        off,
                        lodi,
                        hi,
                        limiti,
                        yi as int + limiti,
                    ) + spec_keys_z(
                        m,
                        viewer_position,
                        x as int,
                        y as int,
                        oz,
                        cs,
                        vd2,
                        off,
                        lodi,
                        hi,
                        limiti,
                        zi as int + limiti,
                    ),
                decreases limit - zi,
            {
                proof {
                    lemma_span_bound(chunk_size as int, zi as int);
                }
                let z = origin_z + chunk_size * zi;
                let mut sub = terrain.chunks(
                    &viewer_position,
                    &Vec3i::new(x, y, z),
                    chunk_view_distance2,
                    chunk_offset,
                    lod,
                    high_lod,
                );
                keys.append(&mut sub);
                proof {
                    assert(z as int == oz + cs * (zi as int));
                    assert(keys@ =~= spec_keys_x(
                        m,
                        viewer_position,
                        ox,
                        oy,
                        oz,
                        cs,
                        vd2,
                        off,
                        lodi,
                        hi,
                        limiti,
                        xi as int + limiti,
                    ) + spec_keys_y(
                        m,
                        viewer_position,
                        x as int,
                        oy,
                        oz,
                        cs,
                        vd2,
                        off,
                        lodi,
                        hi,
                        limiti,
                        yi as int + limiti,
                    ) + spec_keys_z(
                        m,
                        viewer_position,
                        x as int,
                        y as int,
                        oz,
                        cs,
                        vd2,
                        off,
                        lodi,
                        hi,
                        limiti,
                        zi as int + limiti + 1,
                    ));
                }
                zi = zi + 1;
            }
            proof {
                assert(keys@ =~= spec_keys_x(
                    m,
                    viewer_position,
                    ox,
                    oy,
                    oz,
                    cs,
                    vd2,
                    off,
                    lodi,
                    hi,
                    limiti,
                    xi as int + limiti,
                ) + spec_keys_y(
                    m,
                    viewer_position,
                    x as int,
                    oy,
                    oz,
                    cs,
                    vd2,
                    off,
                    lodi,
                    hi,
                    limiti,
                    yi as int + limiti + 1,
                ));
            }
            yi = yi + 1;
        }
        proof {
            assert(keys@ =~= spec_keys_x(
                m,
                viewer_position,
                ox,
                oy,
                oz,
                cs,
                vd2,
                off,
                lodi,
                hi,
                limiti,
                xi as int + limiti + 1,
            ));
        }
        xi = xi + 1;
    }
    let ghost selected = spec_frame_keys(m, viewer_position, size, lodi);
    proof {
        assert(keys@ == selected);
    }
    let mut jobs: Vec<MeshUpdate> = Vec::new();
    let mut ki: usize = 0;
    while ki < keys.len()
        invariant
            terrain.wf(),
            cache.wf(),
            m == terrain.octree@,
            size == terrain.octree.spec_size(),
            ki <= keys@.len(),
            keys@ == selected,
            cache@.dom() == cache1.dom() + resolved_of(m, keys@.take(ki as int), size),
            forall|k: Vec3i|
                #[trigger] cache@.contains_key(k) ==> (cache@[k].disabled == false
                    <==> resolved_of(m, keys@.take(ki as int), size).contains(k)),
            forall|k: Vec3i|
                #[trigger] cache1.contains_key(k) && !resolved_of(
                    m,
                    keys@.take(ki as int),
                    size,
                ).contains(k) ==> cache@.contains_key(k) && cache@[k] == cache1[k],
            forall|k: Vec3i|
                #[trigger] resolved_of(m, keys@.take(ki as int), size).contains(k)
                    ==> cache@.contains_key(k) && (cache@[k].changed == false || cache@[k].hollow
                    == true),
            forall|i: int| 0 <= i < jobs@.len() ==> job_wf(#[trigger] jobs@[i]),
            forall|i: int|
                0 <= i < jobs@.len() ==> {
                    let p = (#[trigger] jobs@[i]).position;
                    &&& cache@.contains_key(p)
                    &&& cache@[p].changed == false
                    &&& cache@[p].disabled == false
                },
            forall|i: int, j: int|
                0 <= i < j < jobs@.len() ==> (#[trigger] jobs@[i]).position != (
                #[trigger] jobs@[j]).position,
            forall|i: int|
                0 <= i < jobs@.len() ==> #[trigger] job_bound(m, size, selected, jobs@[i]),
            forall|k: Vec3i|
                #[trigger] resolved_of(m, keys@.take(ki as int), size).contains(k)
                    ==> m.contains_key(k) && m[k].payload is Some,
            forall|k: Vec3i|
                #[trigger] resolved_of(m, keys@.take(ki as int), size).contains(k) && needs_build(
                    cache1,
                    k,
                ) ==> (match m[k].payload {
                    Some(g) => {
                        &&& cache@[k].hollow == !grid_mixed(g)
                        &&& (grid_mixed(g) ==> exists|i: int|
                            0 <= i < jobs@.len() && (#[trigger] jobs@[i]).position == k
                                && jobs@[i].data.positions@
                                == crate::marching::spec_polygonize(&g, 0))
                    },
                    None => false,
                }),
        decreases keys@.len() - ki,
    {
        let key = keys[ki];
        proof {
            assert(keys@.take(ki + 1).drop_last() =~= keys@.take(ki as int));
            assert(keys@.take(ki + 1).last() == key);
        }
        let ghost rprev = resolved_of(m, keys@.take(ki as int), size);
        let ghost rnext = resolved_of(m, keys@.take(ki + 1), size);
        match terrain.octree.find(&key) {
            Some(t) => {
                let index = t.0;
                let lvl = t.1;
                let ghost grid0 = *t.2;
                proof {
                    crate::octree::lemma_find_sound(
                        terrain.octree@,
                        key,
                        terrain.octree.spec_size(),
                    );
                    assert(rnext == rprev.insert(index));
                    assert(m[index].payload == Some(grid0));
                    assert forall|k: Vec3i| #[trigger] rnext.contains(k) implies m.contains_key(k)
                        && m[k].payload is Some by {
                        if k != index {
                            assert(rprev.contains(k));
                        }
                    }
                }
                let got = cache.get(&index);
                let mut chunk = match got {
                    Some(c) => c,
                    None => Chunk::new(index, lvl),
                };
                let ghost fetched = chunk;
                let mut built: Option<crate::mesh::Mesh> = None;
                let mut _ran = false;
                if !chunk.hollow && chunk.changed {
                    built = chunk.polygonize(t.2);
                    _ran = true;
                }
                chunk.disabled = false;
                let mesh_handle = chunk.mesh;
                let clod = chunk.lod;
                let ghost pre_cache = cache@;
                cache.set_chunk(index, chunk);
                proof {
                    assert(cache@.dom() =~= cache1.dom() + rnext);
                    assert forall|k: Vec3i| #[trigger] cache@.contains_key(k) implies (
                    cache@[k].disabled == false <==> rnext.contains(k)) by {
                        if k != index {
                            assert(cache@[k] == pre_cache[k]);
                            assert(rnext.contains(k) <==> rprev.contains(k));
                        }
                    }
                    assert forall|k: Vec3i|
                        #[trigger] cache1.contains_key(k) && !rnext.contains(k) implies cache@
                        .contains_key(k) && cache@[k] == cache1[k] by {
                        assert(k != index);
                        assert(!rprev.contains(k));
                    }
                    assert forall|k: Vec3i| #[trigger] rnext.contains(k) implies cache@
                        .contains_key(k) && (cache@[k].changed == false || cache@[k].hollow
                        == true) by {
                        if k != index {
                            assert(rprev.contains(k));
                            assert(cache@[k] == pre_cache[k]);
                        }
                    }
                }
                match built {
                    Some(mesh_data) => {
                        proof {
                            assert(spec_find(m, key, size) == Some((index, lvl, *t.2)));
                            assert(mesh_data.positions@ == crate::marching::spec_polygonize(
                                t.2,
                                0,
                            ));
                            assert(match spec_find(m, key, size) {
                                Some(tt) => tt.0 == index && mesh_data.positions@
                                    == crate::marching::spec_polygonize(&tt.2, 0),
                                None => false,
                            });
                            assert(fetched.changed == true);
                            assert forall|i: int|
                                0 <= i < jobs@.len() implies (#[trigger] jobs@[i]).position
                                != index by {
                                if jobs@[i].position == index {
                                    assert(pre_cache.contains_key(index));
                                    assert(pre_cache[index].changed == false);
                                    assert(fetched == pre_cache[index]);
                                }
                            }
                            assert(0 <= ki < selected.len() && selected[ki as int] == key);
                            assert(selected.contains(key));
                        }
                        let ghost jobs0 = jobs@;
                        jobs.push(
                            MeshUpdate {
                                position: index,
                                lod: clod,
                                mesh: mesh_handle,
                                data: mesh_data,
                            },
                        );
                        proof {
                            assert forall|i: int|
                                0 <= i < jobs@.len() implies #[trigger] job_bound(
                                m,
                                size,
                                selected,
                                jobs@[i],
                            ) by {
                                if i < jobs0.len() {
                                    assert(jobs@[i] == jobs0[i]);
                                    assert(job_bound(m, size, selected, jobs0[i]));
                                } else {
                                    assert(selected.contains(key) && match spec_find(
                                        m,
                                        key,
                                        size,
                                    ) {
                                        Some(t) => t.0 == jobs@[i].position
                                            && jobs@[i].data.positions@
                                            == crate::marching::spec_polygonize(&t.2, 0),
                                        None => false,
                                    });
                                }
                            }
                            assert(grid_mixed(grid0)) by {
                                if !grid_mixed(grid0) {
                                    assert forall|a: int, b: int, c: int|
                                        0 <= a < crate::chunk::CHUNK_SIZE && 0 <= b
                                            < crate::chunk::CHUNK_SIZE && 0 <= c
                                            < crate::chunk::CHUNK_SIZE implies !#[trigger] crate::marching::cell_mixed(
                                        t.2,
                                        0,
                                        a,
                                        b,
                                        c,
                                    ) by {
                                        assert(!crate::marching::cell_mixed(&grid0, 0, a, b, c));
                                    }
                                    assert(false);
                                }
                            }
                            assert forall|k: Vec3i|
                                #[trigger] rnext.contains(k) && needs_build(cache1, k) implies (
                            match m[k].payload {
                                Some(g) => {
                                    &&& cache@[k].hollow == !grid_mixed(g)
                                    &&& (grid_mixed(g) ==> exists|i: int|
                                        0 <= i < jobs@.len() && (#[trigger] jobs@[i]).position == k
                                            && jobs@[i].data.positions@
                                            == crate::marching::spec_polygonize(&g, 0))
                                },
                                None => false,
                            }) by {
                                if k == index {
                                    assert(m[k].payload == Some(grid0));
                                    assert(fetched.hollow == false);
                                    assert(cache@[k] == chunk);
                                    assert(chunk.hollow == false);
                                    let wi = jobs@.len() - 1;
                                    assert(jobs@[wi].position == index);
                                    assert(jobs@[wi].data.positions@
                                        == crate::marching::spec_polygonize(&grid0, 0));
                                } else {
                                    assert(rprev.contains(k));
                                    assert(cache@[k] == pre_cache[k]);
                                    match m[k].payload {
                                        Some(gk) => {
                                            if grid_mixed(gk) {
                                                let wi = choose|i: int|
                                                    0 <= i < jobs0.len() && (#[trigger] jobs0[i]).position
                                                        == k && jobs0[i].data.positions@
                                                        == crate::marching::spec_polygonize(&gk, 0);
                                                assert(jobs@[wi] == jobs0[wi]);
                                            }
                                        },
                                        None => {},
                                    }
                                }
                            }
                        }
                    },
                    None => {
                        proof {
                            assert forall|i: int|
                                0 <= i < jobs@.len() implies cache@.contains_key(
                                (#[trigger] jobs@[i]).position,
                            ) && cache@[jobs@[i].position].changed == false
                                && cache@[jobs@[i].position].disabled == false by {
                                let p = jobs@[i].position;
                                if p == index {
                                    assert(pre_cache[index].changed == false);
                                    assert(fetched == pre_cache[index]);
                                    assert(!_ran);
                                    assert(chunk.changed == false);
                                }
                                if p != index {
                                    assert(cache@[p] == pre_cache[p]);
                                }
                            }
                            assert forall|k: Vec3i|
                                #[trigger] rnext.contains(k) && needs_build(cache1, k) implies (
                            match m[k].payload {
                                Some(g) => {
                                    &&& cache@[k].hollow == !grid_mixed(g)
                                    &&& (grid_mixed(g) ==> exists|i: int|
                                        0 <= i < jobs@.len() && (#[trigger] jobs@[i]).position == k
                                            && jobs@[i].data.positions@
                                            == crate::marching::spec_polygonize(&g, 0))
                                },
                                None => false,
                            }) by {
                                if k == index {
                                    assert(m[k].payload == Some(grid0));
                                    assert(cache@[k] == chunk);
                                    if _ran {
                                        assert(!grid_mixed(grid0)) by {
                                            if grid_mixed(grid0) {
                                                let (a, b, c) = choose|a: int, b: int, c: int|
                                                    0 <= a < crate::chunk::CHUNK_SIZE && 0 <= b
                                                        < crate::chunk::CHUNK_SIZE && 0 <= c
                                                        < crate::chunk::CHUNK_SIZE
                                                        && #[trigger] crate::marching::cell_mixed(
                                                        &grid0,
                                                        0,
                                                        a,
                                                        b,
                                                        c,
                                                    );
                                                assert(!crate::marching::cell_mixed(
                                                    t.2,
                                                    0,
                                                    a,
                                                    b,
                                                    c,
                                                ));
                                                assert(false);
                                            }
                                        }
                                        assert(chunk.hollow == true);
                                    } else {
                                        if !rprev.contains(index) {
                                            if cache1.contains_key(index) {
                                                assert(fetched == cache1[index]);
                                                assert(fetched.changed && !fetched.hollow);
                                                assert(false);
                                            } else {
                                                assert(!pre_cache.contains_key(index));
                                                assert(fetched.changed && !fetched.hollow);
                                                assert(false);
                                            }
                                        } else {
                                            assert(fetched == pre_cache[index]);
                                            assert(cache@[k].hollow == pre_cache[index].hollow);
                                            assert(pre_cache[index].hollow == !grid_mixed(grid0));
                                        }
                                    }
                                } else {
                                    assert(rprev.contains(k));
                                    assert(cache@[k] == pre_cache[k]);
                                }
                            }
                        }
                    },
                }
            },
            None => {
                proof {
                    assert(rnext =~= rprev);
                }
            },
        }
        ki = ki + 1;
    }
    proof {
        assert(keys@.take(keys@.len() as int) =~= keys@);
        assert(cache@.dom() =~= cache0.dom() + resolved_of(m, selected, size));
        assert forall|k: Vec3i|
            #[trigger] cache0.contains_key(k) && !resolved_of(m, selected, size).contains(k)
            implies cache@[k] == (Chunk {
            position: cache0[k].position,
            lod: cache0[k].lod,
            mesh: cache0[k].mesh,
            changed: cache0[k].changed,
            hollow: cache0[k].hollow,
            disabled: true,
        }) by {
            assert(cache1.contains_key(k));
            assert(cache@[k] == cache1[k]);
        }
        assert forall|k: Vec3i|
            #[trigger] resolved_of(m, selected, size).contains(k) && needs_build(cache0, k)
            implies needs_build(cache1, k) by {
            if cache1.contains_key(k) {
                assert(cache0.contains_key(k));
                assert(cache1[k].changed == cache0[k].changed);
                assert(cache1[k].hollow == cache0[k].hollow);
            }
        }
    }
    jobs
}

/// `chunk_size * k` for a ring index `k` stays small.
proof fn lemma_span_bound(chunk_size: int, k: int)
    requires
        1 <= chunk_size <= 0x10_0000,
        -2 <= k <= 2,
    ensures
        -0x20_0000 <= chunk_size * k <= 0x20_0000,
{
    assert(-0x20_0000 <= chunk_size * k <= 0x20_0000) by (nonlinear_arith)
        requires
            1 <= chunk_size <= 0x10_0000,
            -2 <= k <= 2,
    ;
}

} // verus!
