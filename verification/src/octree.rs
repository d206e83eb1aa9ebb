//! Sparse voxel octree: a lazily built mapping from octant-center keys to
//! nodes, with exact integer octant arithmetic.
//!
//! A node is a leaf (payload set), an interior node on the way to a leaf
//! (children set), or a freshly created node with neither resolved yet.
//! Child coordinates follow one fixed corner ordering, documented by the
//! `LEFT_TOP_BACK` .. `LEFT_BOTTOM_FRONT` indices: top means `+y`, right
//! means `+x`, front means `+z`.

use vstd::prelude::*;
use crate::math::{Vec3i, floor_div};

verus! {

// The canonical corner order: indices into a node's child array.
pub const LEFT_TOP_BACK: usize = 0;
pub const RIGHT_TOP_BACK: usize = 1;
pub const RIGHT_TOP_FRONT: usize = 2;
pub const LEFT_TOP_FRONT: usize = 3;
pub const LEFT_BOTTOM_BACK: usize = 4;
pub const RIGHT_BOTTOM_BACK: usize = 5;
pub const RIGHT_BOTTOM_FRONT: usize = 6;
pub const LEFT_BOTTOM_FRONT: usize = 7;

/// Keys are integer octant centers.
pub type Key = Vec3i;

/// One octree node: its depth, its 8 child centers once it has been split,
/// and its payload once it has been materialized.
pub struct Node<T> {
    pub level: usize,
    pub children: Option<[Vec3i; 8]>,
    pub payload: Option<T>,
}

/// The sparse octree itself: an association list of nodes, viewed as a
/// `Map<Key, Node<T>>`, plus the root cube's edge length in world units.
pub struct Octree<T> {
    nodes: Vec<(Vec3i, Node<T>)>,
    size: usize,
}

/// The mathematical contents of an association list: later entries win,
/// though every container here keeps its keys unique anyway.
pub open spec fn entries<V>(s: Seq<(Vec3i, V)>) -> Map<Vec3i, V>
    decreases s.len(),
{
    if s.len() == 0 {
        Map::empty()
    } else {
        entries(s.drop_last()).insert(s.last().0, s.last().1)
    }
}

/// No key occurs twice in the association list.
pub open spec fn unique_keys<V>(s: Seq<(Vec3i, V)>) -> bool {
    forall|i: int, j: int| 0 <= i < j < s.len() ==> (#[trigger] s[i]).0 != (#[trigger] s[j]).0
}

pub proof fn lemma_entries_index<V>(s: Seq<(Vec3i, V)>, i: int)
    requires
        unique_keys(s),
        0 <= i < s.len(),
    ensures
        entries(s).contains_key(s[i].0),
        entries(s)[s[i].0] == s[i].1,
    decreases s.len(),
{
    if i < s.len() - 1 {
        lemma_entries_index(s.drop_last(), i);
        assert(s.drop_last()[i] == s[i]);
        assert(s[i].0 != s.last().0);
    }
}

pub proof fn lemma_entries_key_to_index<V>(s: Seq<(Vec3i, V)>, k: Vec3i)
    requires
        entries(s).contains_key(k),
    ensures
        exists|i: int| 0 <= i < s.len() && (#[trigger] s[i]).0 == k,
    decreases s.len(),
{
    if s.len() > 0 {
        if s.last().0 == k {
            assert(s[s.len() - 1].0 == k);
        } else {
            lemma_entries_key_to_index(s.drop_last(), k);
            let i = choose|i: int| 0 <= i < s.drop_last().len() && (#[trigger] s.drop_last()[i]).0 == k;
            assert(s[i].0 == k);
        }
    }
}

pub proof fn lemma_entries_absent<V>(s: Seq<(Vec3i, V)>, k: Vec3i)
    requires
        forall|i: int| 0 <= i < s.len() ==> (#[trigger] s[i]).0 != k,
    ensures
        !entries(s).contains_key(k),
{
    if entries(s).contains_key(k) {
        lemma_entries_key_to_index(s, k);
    }
}

pub proof fn lemma_entries_push<V>(s: Seq<(Vec3i, V)>, k: Vec3i, n: V)
    ensures
        entries(s.push((k, n))) == entries(s).insert(k, n),
{
    assert(s.push((k, n)).drop_last() =~= s);
    assert(s.push((k, n)).last() == (k, n));
}

pub proof fn lemma_entries_update<V>(s: Seq<(Vec3i, V)>, i: int, n: V)
    requires
        unique_keys(s),
        0 <= i < s.len(),
    ensures
        entries(s.update(i, (s[i].0, n))) =~= entries(s).insert(s[i].0, n),
    decreases s.len(),
{
    let k = s[i].0;
    let t = s.update(i, (k, n));
    if i == s.len() - 1 {
        assert(t.drop_last() =~= s.drop_last());
    } else {
        lemma_entries_update(s.drop_last(), i, n);
        assert(t.drop_last() =~= s.drop_last().update(i, (k, n)));
        assert(s.drop_last()[i] == s[i]);
        assert(t.last() == s.last());
        assert(k != s.last().0);
        assert(entries(t) =~= entries(s.drop_last()).insert(k, n).insert(s.last().0, s.last().1));
        assert(entries(s).insert(k, n) =~= entries(s.drop_last()).insert(s.last().0, s.last().1).insert(k, n));
    }
}

/// With unique keys, the map's domain has exactly one element per entry.
pub proof fn lemma_entries_len<V>(s: Seq<(Vec3i, V)>)
    requires
        unique_keys(s),
    ensures
        entries(s).dom().finite(),
        entries(s).dom().len() == s.len(),
    decreases s.len(),
{
    if s.len() > 0 {
        lemma_entries_len(s.drop_last());
        lemma_entries_absent(s.drop_last(), s.last().0);
        assert(forall|i: int| 0 <= i < s.drop_last().len() ==> (#[trigger] s.drop_last()[i]).0 != s.last().0);
    }
}

/// A key lies within a root cube of edge length `size` centered at the
/// origin.  Callers must pre-filter keys with this before `store`.
pub open spec fn in_bounds(key: Vec3i, size: int) -> bool {
    &&& -(size / 2) <= key.x <= size / 2
    &&& -(size / 2) <= key.y <= size / 2
    &&& -(size / 2) <= key.z <= size / 2
}

/// The center of the child octant of edge length `size` that contains
/// `target`: exact integer floor-division arithmetic, so repeated descents
/// toward the same coordinate always resolve to the same node.
pub open spec fn child_center(target: Vec3i, size: int) -> Vec3i {
    Vec3i {
        x: (target.x as int / size * size + size / 2) as i32,
        y: (target.y as int / size * size + size / 2) as i32,
        z: (target.z as int / size * size + size / 2) as i32,
    }
}

/// The 8 child centers of `parent` at distance `offset` on each axis, in the
/// canonical corner order.
pub open spec fn children_array(parent: Vec3i, offset: int) -> [Vec3i; 8] {
    [
        Vec3i { x: (parent.x - offset) as i32, y: (parent.y + offset) as i32, z: (parent.z - offset) as i32 },
        Vec3i { x: (parent.x + offset) as i32, y: (parent.y + offset) as i32, z: (parent.z - offset) as i32 },
        Vec3i { x: (parent.x + offset) as i32, y: (parent.y + offset) as i32, z: (parent.z + offset) as i32 },
        Vec3i { x: (parent.x - offset) as i32, y: (parent.y + offset) as i32, z: (parent.z + offset) as i32 },
        Vec3i { x: (parent.x - offset) as i32, y: (parent.y - offset) as i32, z: (parent.z - offset) as i32 },
        Vec3i { x: (parent.x + offset) as i32, y: (parent.y - offset) as i32, z: (parent.z - offset) as i32 },
        Vec3i { x: (parent.x + offset) as i32, y: (parent.y - offset) as i32, z: (parent.z + offset) as i32 },
        Vec3i { x: (parent.x - offset) as i32, y: (parent.y - offset) as i32, z: (parent.z + offset) as i32 },
    ]
}

/// No two of the 8 child centers coincide once the offset is nonzero, and
/// each lies at exactly `offset` from the parent on every axis.  Together
/// with `Node::children` being a pure function of its inputs, this pins the
/// canonical ordering down.
pub proof fn lemma_children_distinct(parent: Vec3i, offset: int)
    requires
        offset != 0,
        i32::MIN <= parent.x - offset <= i32::MAX,
        i32::MIN <= parent.x + offset <= i32::MAX,
        i32::MIN <= parent.y - offset <= i32::MAX,
        i32::MIN <= parent.y + offset <= i32::MAX,
        i32::MIN <= parent.z - offset <= i32::MAX,
        i32::MIN <= parent.z + offset <= i32::MAX,
    ensures
        forall|i: int, j: int|
            0 <= i < j < 8 ==> #[trigger] children_array(parent, offset)@[i]
                != #[trigger] children_array(parent, offset)@[j],
{
    let c = children_array(parent, offset);
    assert forall|i: int, j: int| 0 <= i < j < 8 implies #[trigger] c@[i] != #[trigger] c@[j] by {
        assert(c@[0] == (Vec3i { x: (parent.x - offset) as i32, y: (parent.y + offset) as i32, z: (parent.z - offset) as i32 }));
        assert(c@[1] == (Vec3i { x: (parent.x + offset) as i32, y: (parent.y + offset) as i32, z: (parent.z - offset) as i32 }));
        assert(c@[2] == (Vec3i { x: (parent.x + offset) as i32, y: (parent.y + offset) as i32, z: (parent.z + offset) as i32 }));
        assert(c@[3] == (Vec3i { x: (parent.x - offset) as i32, y: (parent.y + offset) as i32, z: (parent.z + offset) as i32 }));
        assert(c@[4] == (Vec3i { x: (parent.x - offset) as i32, y: (parent.y - offset) as i32, z: (parent.z - offset) as i32 }));
        assert(c@[5] == (Vec3i { x: (parent.x + offset) as i32, y: (parent.y - offset) as i32, z: (parent.z - offset) as i32 }));
        assert(c@[6] == (Vec3i { x: (parent.x + offset) as i32, y: (parent.y - offset) as i32, z: (parent.z + offset) as i32 }));
        assert(c@[7] == (Vec3i { x: (parent.x - offset) as i32, y: (parent.y - offset) as i32, z: (parent.z + offset) as i32 }));
    }
}

impl<T> Node<T> {
    /// The 8 child centers of `parent` at `offset`, in the canonical corner
    /// order `LEFT_TOP_BACK` .. `LEFT_BOTTOM_FRONT`.
    pub fn children(parent: &Vec3i, offset: i32) -> (r: [Vec3i; 8])
        requires
            i32::MIN <= parent.x - offset <= i32::MAX,
            i32::MIN <= parent.x + offset <= i32::MAX,
            i32::MIN <= parent.y - offset <= i32::MAX,
            i32::MIN <= parent.y + offset <= i32::MAX,
            i32::MIN <= parent.z - offset <= i32::MAX,
            i32::MIN <= parent.z + offset <= i32::MAX,
        ensures
            r == children_array(*parent, offset as int),
    {
        let r: [Vec3i; 8] = [
            Vec3i { x: parent.x - offset, y: parent.y + offset, z: parent.z - offset },
            Vec3i { x: parent.x + offset, y: parent.y + offset, z: parent.z - offset },
            Vec3i { x: parent.x + offset, y: parent.y + offset, z: parent.z + offset },
            Vec3i { x: parent.x - offset, y: parent.y + offset, z: parent.z + offset },
            Vec3i { x: parent.x - offset, y: parent.y - offset, z: parent.z - offset },
            Vec3i { x: parent.x + offset, y: parent.y - offset, z: parent.z - offset },
            Vec3i { x: parent.x + offset, y: parent.y - offset, z: parent.z + offset },
            Vec3i { x: parent.x - offset, y: parent.y - offset, z: parent.z + offset },
        ];
        proof {
            assert(r =~= children_array(*parent, offset as int));
        }
        r
    }
}

/// The exec mirror of `child_center`, with overflow ruled out by bounds on
/// the target and the octant size.
fn child_center_exec(target: &Vec3i, size: i32) -> (r: Vec3i)
    requires
        1 <= size <= 0x2000_0000,
        -0x2000_0000 <= target.x <= 0x2000_0000,
        -0x2000_0000 <= target.y <= 0x2000_0000,
        -0x2000_0000 <= target.z <= 0x2000_0000,
    ensures
        r == child_center(*target, size as int),
        -0x4000_0000 <= r.x <= 0x4000_0000,
        -0x4000_0000 <= r.y <= 0x4000_0000,
        -0x4000_0000 <= r.z <= 0x4000_0000,
{
    let x = floor_center(target.x, size);
    let y = floor_center(target.y, size);
    let z = floor_center(target.z, size);
    Vec3i { x, y, z }
}

/// One axis of `child_center`: the center of the length-`size` interval
/// containing `a`.
fn floor_center(a: i32, size: i32) -> (r: i32)
    requires
        1 <= size <= 0x2000_0000,
        -0x2000_0000 <= a <= 0x2000_0000,
    ensures
        r == a as int / size as int * (size as int) + size as int / 2,
        -0x4000_0000 <= r <= 0x4000_0000,
{
    let q = floor_div(a, size);
    proof {
        vstd::arithmetic::div_mod::lemma_fundamental_div_mod(a as int, size as int);
        vstd::arithmetic::div_mod::lemma_mod_bound(a as int, size as int);
    }
    q * size + size / 2
}

/// A node as it is first created during a descent: neither resolved into a
/// leaf nor split yet.
pub open spec fn fresh_node<T>(level: usize) -> Node<T> {
    Node { level, children: None, payload: None }
}

/// What one `store` call does to the node map: descend from octant size
/// `size` toward `target`, creating unresolved nodes and splitting interior
/// ones on the way, until the descent lands exactly on `target`, whose
/// payload is then set.
pub open spec fn spec_store_child<T>(
    m: Map<Vec3i, Node<T>>,
    target: Vec3i,
    payload: T,
    size: int,
    level: usize,
) -> Map<Vec3i, Node<T>>
    decreases size,
{
    if size < 1 {
        m
    } else {
        let node = child_center(target, size);
        let cur = if m.contains_key(node) {
            m[node]
        } else {
            fresh_node(level)
        };
        if node == target {
            m.insert(node, Node { level: cur.level, children: cur.children, payload: Some(payload) })
        } else {
            let cur2 = if cur.children is None {
                Node {
                    level: cur.level,
                    children: Some(children_array(node, size / 2 / 2)),
                    payload: cur.payload,
                }
            } else {
                cur
            };
            spec_store_child(m.insert(node, cur2), target, payload, size / 2, (level + 1) as usize)
        }
    }
}

/// The octant centers a `store` descent toward `target` passes through,
/// stopping where the descent lands on `target` itself.
pub open spec fn path_keys(target: Vec3i, size: int) -> Set<Vec3i>
    decreases size,
{
    if size < 1 {
        Set::empty()
    } else {
        let node = child_center(target, size);
        if node == target {
            Set::empty().insert(node)
        } else {
            path_keys(target, size / 2).insert(node)
        }
    }
}

/// Every octant center on the descent from size `size` toward `target`:
/// the ancestors of `target`, whether or not a `store` would stop early.
pub open spec fn descent_path(target: Vec3i, size: int) -> Set<Vec3i>
    decreases size,
{
    if size < 1 {
        Set::empty()
    } else {
        descent_path(target, size / 2).insert(child_center(target, size))
    }
}

/// A `store` creates exactly the nodes on its descent path: the domain
/// afterwards is the old domain plus `path_keys`.  With the same key stored
/// twice, the second call therefore adds no node at all.
pub proof fn lemma_store_dom<T>(
    m: Map<Vec3i, Node<T>>,
    target: Vec3i,
    payload: T,
    size: int,
    level: usize,
)
    ensures
        spec_store_child(m, target, payload, size, level).dom() =~= m.dom() + path_keys(
            target,
            size,
        ),
    decreases size,
{
    if size >= 1 {
        let node = child_center(target, size);
        let cur = if m.contains_key(node) {
            m[node]
        } else {
            fresh_node(level)
        };
        if node != target {
            let cur2 = if cur.children is None {
                Node {
                    level: cur.level,
                    children: Some(children_array(node, size / 2 / 2)),
                    payload: cur.payload,
                }
            } else {
                cur
            };
            lemma_store_dom(m.insert(node, cur2), target, payload, size / 2, (level + 1) as usize);
        }
    }
}

/// A `store` never un-materializes a node: every key that already carried a
/// payload still carries one afterwards, unchanged unless it is the target.
pub proof fn lemma_store_preserves_payloads<T>(
    m: Map<Vec3i, Node<T>>,
    target: Vec3i,
    payload: T,
    size: int,
    level: usize,
)
    ensures
        forall|k: Vec3i|
            #[trigger] m.contains_key(k) && m[k].payload is Some ==> {
                let m2 = spec_store_child(m, target, payload, size, level);
                m2.contains_key(k) && m2[k].payload is Some
            },
    decreases size,
{
    if size >= 1 {
        let node = child_center(target, size);
        let cur = if m.contains_key(node) {
            m[node]
        } else {
            fresh_node(level)
        };
        if node != target {
            let cur2 = if cur.children is None {
                Node {
                    level: cur.level,
                    children: Some(children_array(node, size / 2 / 2)),
                    payload: cur.payload,
                }
            } else {
                cur
            };
            lemma_store_preserves_payloads(
                m.insert(node, cur2),
                target,
                payload,
                size / 2,
                (level + 1) as usize,
            );
            assert forall|k: Vec3i| #[trigger] m.contains_key(k) && m[k].payload is Some implies {
                let m2 = spec_store_child(m, target, payload, size, level);
                m2.contains_key(k) && m2[k].payload is Some
            } by {
                assert(m.insert(node, cur2).contains_key(k));
                assert(m.insert(node, cur2)[k].payload is Some);
            }
        }
    }
}

/// Exactly what a `store` does to payloads: the target's becomes the stored
/// value, every other node's payload is untouched (and a node created on
/// the way starts with none).
pub proof fn lemma_store_payload_values<T>(
    m: Map<Vec3i, Node<T>>,
    target: Vec3i,
    payload: T,
    size: int,
    level: usize,
)
    requires
        1 <= size,
    ensures
        forall|k: Vec3i|
            #[trigger] spec_store_child(m, target, payload, size, level).contains_key(k) ==> {
                let m2 = spec_store_child(m, target, payload, size, level);
                if k == target {
                    m2[k].payload == Some(payload)
                } else if m.contains_key(k) {
                    m2[k].payload == m[k].payload
                } else {
                    m2[k].payload is None
                }
            },
    decreases size,
{
    lemma_store_then_load(m, target, payload, size, level);
    let node = child_center(target, size);
    let cur = if m.contains_key(node) {
        m[node]
    } else {
        fresh_node(level)
    };
    if node != target {
        if size == 1 {
            lemma_child_center_unit(target);
        }
        let cur2 = if cur.children is None {
            Node {
                level: cur.level,
                children: Some(children_array(node, size / 2 / 2)),
                payload: cur.payload,
            }
        } else {
            cur
        };
        let m1 = m.insert(node, cur2);
        lemma_store_payload_values(m1, target, payload, size / 2, (level + 1) as usize);
        assert forall|k: Vec3i|
            #[trigger] spec_store_child(m, target, payload, size, level).contains_key(k) implies {
            let m2 = spec_store_child(m, target, payload, size, level);
            if k == target {
                m2[k].payload == Some(payload)
            } else if m.contains_key(k) {
                m2[k].payload == m[k].payload
            } else {
                m2[k].payload is None
            }
        } by {
            let m2 = spec_store_child(m, target, payload, size, level);
            assert(m2 == spec_store_child(m1, target, payload, size / 2, (level + 1) as usize));
            assert(m2.contains_key(k));
            if k != target {
                if m1.contains_key(k) {
                    assert(m2[k].payload == m1[k].payload);
                }
            }
        }
    }
}

/// Storing `payload` at `key` and then loading `key` yields exactly that
/// payload, whatever the tree held before.
pub proof fn lemma_store_then_load<T>(
    m: Map<Vec3i, Node<T>>,
    key: Vec3i,
    payload: T,
    size: int,
    level: usize,
)
    requires
        1 <= size,
    ensures
        spec_store_child(m, key, payload, size, level).contains_key(key),
        spec_store_child(m, key, payload, size, level)[key].payload == Some(payload),
    decreases size,
{
    let node = child_center(key, size);
    if node != key {
        if size == 1 {
            lemma_child_center_unit(key);
        }
        let cur = if m.contains_key(node) {
            m[node]
        } else {
            fresh_node(level)
        };
        let cur2 = if cur.children is None {
            Node {
                level: cur.level,
                children: Some(children_array(node, size / 2 / 2)),
                payload: cur.payload,
            }
        } else {
            cur
        };
        lemma_store_then_load(m.insert(node, cur2), key, payload, size / 2, (level + 1) as usize);
    }
}

/// Overwrite semantics: a second `store` at the same key replaces the
/// payload and grows the node map by nothing.
pub proof fn lemma_store_overwrite<T>(
    m: Map<Vec3i, Node<T>>,
    key: Vec3i,
    first: T,
    second: T,
    size: int,
    level: usize,
)
    requires
        1 <= size,
    ensures
        ({
            let m1 = spec_store_child(m, key, first, size, level);
            let m2 = spec_store_child(m1, key, second, size, level);
            &&& m2.contains_key(key)
            &&& m2[key].payload == Some(second)
            &&& m2.dom() =~= m1.dom()
        }),
{
    let m1 = spec_store_child(m, key, first, size, level);
    let m2 = spec_store_child(m1, key, second, size, level);
    lemma_store_then_load(m1, key, second, size, level);
    lemma_store_dom(m, key, first, size, level);
    lemma_store_dom(m1, key, second, size, level);
    assert(m2.dom() =~= m.dom() + path_keys(key, size) + path_keys(key, size));
    assert(m.dom() + path_keys(key, size) + path_keys(key, size) =~= m.dom() + path_keys(
        key,
        size,
    ));
}

/// The populated entry at `k`, shaped as `find` reports it.
pub open spec fn payload_entry<T>(m: Map<Vec3i, Node<T>>, k: Vec3i) -> Option<(Vec3i, usize, T)> {
    if m.contains_key(k) {
        match m[k].payload {
            Some(p) => Some((k, m[k].level, p)),
            None => None,
        }
    } else {
        None
    }
}

/// What `find`'s descent returns: walk toward `target` while split nodes
/// exist on the path; at the first unsplit node report its payload; where
/// the path breaks off, fall back to the last node seen.
pub open spec fn spec_find_child<T>(
    m: Map<Vec3i, Node<T>>,
    target: Vec3i,
    cursor: Vec3i,
    size: int,
) -> Option<(Vec3i, usize, T)>
    decreases size,
{
    if size < 1 {
        payload_entry(m, cursor)
    } else {
        let node = child_center(target, size);
        if m.contains_key(node) {
            if m[node].children is Some && size >= 2 {
                spec_find_child(m, target, node, size / 2)
            } else {
                payload_entry(m, node)
            }
        } else {
            payload_entry(m, cursor)
        }
    }
}

/// What `find` returns: the exact leaf if it is populated, otherwise the
/// best-effort descent from the root, and nothing for keys outside the root
/// bounds.
pub open spec fn spec_find<T>(m: Map<Vec3i, Node<T>>, key: Vec3i, size: int) -> Option<
    (Vec3i, usize, T),
> {
    if m.contains_key(key) && m[key].payload is Some {
        payload_entry(m, key)
    } else if in_bounds(key, size) {
        spec_find_child(m, key, Vec3i { x: 0, y: 0, z: 0 }, size / 2)
    } else {
        None
    }
}

/// Direct hits need no descent: a populated exact key is returned as
/// itself, at its own level.
pub proof fn lemma_find_exact<T>(m: Map<Vec3i, Node<T>>, key: Vec3i, size: int)
    requires
        m.contains_key(key),
        m[key].payload is Some,
    ensures
        spec_find(m, key, size) == payload_entry(m, key),
        spec_find(m, key, size) is Some,
{
}

proof fn lemma_find_child_sound<T>(m: Map<Vec3i, Node<T>>, target: Vec3i, cursor: Vec3i, size: int)
    ensures
        match spec_find_child(m, target, cursor, size) {
            Some(t) => m.contains_key(t.0) && m[t.0].payload == Some(t.2) && m[t.0].level == t.1
                && (t.0 == cursor || descent_path(target, size).contains(t.0)),
            None => true,
        },
    decreases size,
{
    if size >= 1 {
        let node = child_center(target, size);
        if m.contains_key(node) && m[node].children is Some && size >= 2 {
            lemma_find_child_sound(m, target, node, size / 2);
        }
    }
}

/// Soundness of `find`: whenever it answers, the answer is a genuinely
/// populated node, reported with that node's own level and payload, and its
/// key is `key` itself, the root, or an octant center on the descent path
/// toward `key` — never an unrelated node.
pub proof fn lemma_find_sound<T>(m: Map<Vec3i, Node<T>>, key: Vec3i, size: int)
    ensures
        match spec_find(m, key, size) {
            Some(t) => m.contains_key(t.0) && m[t.0].payload == Some(t.2) && m[t.0].level == t.1
                && (t.0 == key || t.0 == (Vec3i { x: 0, y: 0, z: 0 }) || descent_path(
                key,
                size / 2,
            ).contains(t.0)),
            None => true,
        },
{
    if !(m.contains_key(key) && m[key].payload is Some) && in_bounds(key, size) {
        lemma_find_child_sound(m, key, Vec3i { x: 0, y: 0, z: 0 }, size / 2);
    }
}

/// The descent toward `target` from octant size `size` can reach `a`:
/// every center above it on the path is materialized and split.
pub open spec fn walk_reaches<T>(
    m: Map<Vec3i, Node<T>>,
    target: Vec3i,
    size: int,
    a: Vec3i,
) -> bool
    decreases size,
{
    if size < 1 {
        false
    } else {
        let node = child_center(target, size);
        if node == a {
            true
        } else {
            m.contains_key(node) && m[node].children is Some && size >= 2 && walk_reaches(
                m,
                target,
                size / 2,
                a,
            )
        }
    }
}

/// Completeness of the descent: where the chain of split nodes on
/// `target`'s path ends at a populated, unsplit node, `find`'s walk
/// returns exactly that node — its key, its level and its grid.
pub proof fn lemma_find_child_deepest<T>(
    m: Map<Vec3i, Node<T>>,
    target: Vec3i,
    cursor: Vec3i,
    size: int,
    a: Vec3i,
    g: T,
)
    requires
        walk_reaches(m, target, size, a),
        m.contains_key(a),
        m[a].payload == Some(g),
        m[a].children is None,
    ensures
        spec_find_child(m, target, cursor, size) == Some((a, m[a].level, g)),
    decreases size,
{
    let node = child_center(target, size);
    if node != a {
        lemma_find_child_deepest(m, target, node, size / 2, a, g);
    }
}

/// The fallback law of `find`: on a key with no exact payload, the deepest
/// materialized octant on its descent path — the populated, unsplit end of
/// the chain of split nodes — is what comes back.
pub proof fn lemma_find_deepest_ancestor<T>(
    m: Map<Vec3i, Node<T>>,
    target: Vec3i,
    size: int,
    a: Vec3i,
    g: T,
)
    requires
        in_bounds(target, size),
        !(m.contains_key(target) && m[target].payload is Some),
        walk_reaches(m, target, size / 2, a),
        m.contains_key(a),
        m[a].payload == Some(g),
        m[a].children is None,
    ensures
        spec_find(m, target, size) == Some((a, m[a].level, g)),
{
    lemma_find_child_deepest(m, target, Vec3i { x: 0, y: 0, z: 0 }, size / 2, a, g);
}

/// `find` never reports from deeper than the populated ancestors go: if
/// every populated node on `key`'s ancestor chain sits at level `cap` or
/// above it, the reported level is at most `cap`.
pub proof fn lemma_find_level_bound<T>(m: Map<Vec3i, Node<T>>, key: Vec3i, size: int, cap: usize)
    requires
        forall|k: Vec3i|
            ((k == key || k == (Vec3i { x: 0, y: 0, z: 0 }) || descent_path(key, size / 2).contains(
                k,
            )) && #[trigger] m.contains_key(k) && m[k].payload is Some) ==> m[k].level <= cap,
    ensures
        match spec_find(m, key, size) {
            Some(t) => t.1 <= cap,
            None => true,
        },
{
    lemma_find_sound(m, key, size);
}

/// How many halvings a descent from octant size `size` can take.
pub open spec fn descent_depth(size: int) -> nat
    decreases size,
{
    if size < 2 {
        0
    } else {
        1 + descent_depth(size / 2)
    }
}

proof fn lemma_descent_depth_bound(size: int, k: nat)
    requires
        size <= crate::math::pow2(k),
    ensures
        descent_depth(size) <= k,
    decreases k,
{
    if size >= 2 {
        assert(crate::math::pow2(k) >= 2);
        if k == 0 {
            assert(crate::math::pow2(0) == 1);
        }
        vstd::arithmetic::div_mod::lemma_div_is_ordered(size, crate::math::pow2(k) as int, 2);
        lemma_descent_depth_bound(size / 2, (k - 1) as nat);
    }
}

/// At octant size 1 the descent has arrived: the containing "octant" is the
/// target itself.
proof fn lemma_child_center_unit(target: Vec3i)
    ensures
        child_center(target, 1) == target,
{
    vstd::arithmetic::div_mod::lemma_fundamental_div_mod_converse(target.x as int, 1, target.x as int, 0);
    vstd::arithmetic::div_mod::lemma_fundamental_div_mod_converse(target.y as int, 1, target.y as int, 0);
    vstd::arithmetic::div_mod::lemma_fundamental_div_mod_converse(target.z as int, 1, target.z as int, 0);
}

impl<T> View for Octree<T> {
    type V = Map<Vec3i, Node<T>>;

    closed spec fn view(&self) -> Map<Vec3i, Node<T>> {
        entries(self.nodes@)
    }
}

impl<T> Octree<T> {
    /// Structural invariant: keys unique, root present, workable size.
    pub closed spec fn wf(&self) -> bool {
        &&& unique_keys(self.nodes@)
        &&& 2 <= self.size <= 0x4000_0000
    }

    /// The root cube's edge length, fixed at construction.
    pub closed spec fn spec_size(&self) -> int {
        self.size as int
    }

    /// `wf` keeps the size workable; callers outside this module rely on
    /// the bounds for their own overflow arguments.
    pub proof fn lemma_wf_bounds(&self)
        requires
            self.wf(),
        ensures
            2 <= self.spec_size() <= 0x4000_0000,
    {
    }

    /// A tree over a root cube of edge length `size`, holding only the
    /// unresolved root node at the origin.
    pub fn new(size: usize) -> (r: Self)
        requires
            2 <= size <= 0x4000_0000,
        ensures
            r.wf(),
            r.spec_size() == size,
            r@ == Map::<Vec3i, Node<T>>::empty().insert(
                (Vec3i { x: 0, y: 0, z: 0 }),
                fresh_node(0),
            ),
    {
        let mut nodes: Vec<(Vec3i, Node<T>)> = Vec::new();
        nodes.push((Vec3i::new(0, 0, 0), Node { level: 0, children: None, payload: None }));
        proof {
            lemma_entries_push(Seq::<(Vec3i, Node<T>)>::empty(), Vec3i { x: 0, y: 0, z: 0 }, fresh_node(0));
            assert(nodes@.drop_last() =~= Seq::<(Vec3i, Node<T>)>::empty());
        }
        Octree { nodes, size }
    }

    /// Stores `payload` as the grid of the octant centered at `key`,
    /// materializing the descent path from the root on the way.  The caller
    /// must keep `key` inside the root bounds.
    pub fn store(&mut self, key: Vec3i, payload: T)
        requires
            old(self).wf(),
            in_bounds(key, old(self).spec_size()),
        ensures
            final(self).wf(),
            final(self).spec_size() == old(self).spec_size(),
            final(self)@ == spec_store_child(old(self)@, key, payload, old(self).spec_size() / 2, 1),
    {
        let half = self.size / 2;
        proof {
            assert(crate::math::pow2(29) == 0x2000_0000) by {
                reveal_with_fuel(crate::math::pow2, 30);
            }
            lemma_descent_depth_bound(half as int, 29);
        }
        self.store_child(key, payload, half, 1);
    }

    fn store_child(&mut self, target: Vec3i, payload: T, size: usize, level: usize)
        requires
            old(self).wf(),
            1 <= size <= 0x2000_0000,
            -0x2000_0000 <= target.x <= 0x2000_0000,
            -0x2000_0000 <= target.y <= 0x2000_0000,
            -0x2000_0000 <= target.z <= 0x2000_0000,
            level + descent_depth(size as int) <= usize::MAX,
        ensures
            final(self).wf(),
            final(self).spec_size() == old(self).spec_size(),
            final(self)@ == spec_store_child(old(self)@, target, payload, size as int, level),
        decreases size,
    {
        let ghost m = self@;
        let offset = size / 2;
        let node = child_center_exec(&target, size as i32);
        proof {
            if size == 1 {
                lemma_child_center_unit(target);
            }
        }
        match self.find_index(&node) {
            Some(i) => {
                if node == target {
                    self.set_payload_at(i, payload);
                } else {
                    let has_children = self.nodes[i].1.children.is_some();
                    if !has_children {
                        let ch = Node::<T>::children(&node, (offset / 2) as i32);
                        self.set_children_at(i, ch);
                    } else {
                        proof {
                            assert(m.insert(node, m[node]) =~= m);
                        }
                    }
                    self.store_child(target, payload, offset, level + 1);
                }
            },
            None => {
                if node == target {
                    self.insert_node(
                        node,
                        Node { level, children: None, payload: Some(payload) },
                    );
                } else {
                    let ch = Node::<T>::children(&node, (offset / 2) as i32);
                    self.insert_node(node, Node { level, children: Some(ch), payload: None });
                    self.store_child(target, payload, offset, level + 1);
                }
            },
        }
    }

    fn find_index(&self, key: &Vec3i) -> (r: Option<usize>)
        requires
            self.wf(),
        ensures
            match r {
                Some(i) => i < self.nodes@.len() && self.nodes@[i as int].0 == *key
                    && self@.contains_key(*key) && self@[*key] == self.nodes@[i as int].1,
                None => !self@.contains_key(*key),
            },
    {
        let mut i: usize = 0;
        while i < self.nodes.len()
            invariant
                self.wf(),
                i <= self.nodes@.len(),
                forall|j: int| 0 <= j < i ==> (#[trigger] self.nodes@[j]).0 != *key,
            decreases self.nodes@.len() - i,
        {
            if self.nodes[i].0 == *key {
                proof {
                    lemma_entries_index(self.nodes@, i as int);
                }
                return Some(i);
            }
            i = i + 1;
        }
        proof {
            lemma_entries_absent(self.nodes@, *key);
        }
        None
    }

    /// How many nodes exist (root included).
    pub fn node_count(&self) -> (r: usize)
        requires
            self.wf(),
        ensures
            r == self@.dom().len(),
    {
        proof {
            lemma_entries_len(self.nodes@);
        }
        self.nodes.len()
    }

    /// The root cube's edge length in world units.
    pub fn size(&self) -> (r: usize)
        ensures
            r == self.spec_size(),
    {
        self.size
    }

    /// Inserts a fresh, unresolved node for `key`; `key` must be new.
    fn insert_node(&mut self, key: Vec3i, node: Node<T>)
        requires
            old(self).wf(),
            !old(self)@.contains_key(key),
        ensures
            final(self).wf(),
            final(self)@ == old(self)@.insert(key, node),
            final(self).spec_size() == old(self).spec_size(),
    {
        proof {
            if exists|i: int| 0 <= i < self.nodes@.len() && (#[trigger] self.nodes@[i]).0 == key {
                let i = choose|i: int| 0 <= i < self.nodes@.len() && (#[trigger] self.nodes@[i]).0 == key;
                lemma_entries_index(self.nodes@, i);
            }
            lemma_entries_push(self.nodes@, key, node);
        }
        self.nodes.push((key, node));
    }

    /// Sets the payload of the node at list position `i`, keeping its level
    /// and children.
    fn set_payload_at(&mut self, i: usize, payload: T)
        requires
            old(self).wf(),
            i < old(self).nodes@.len(),
        ensures
            final(self).wf(),
            final(self)@ == old(self)@.insert(
                old(self).nodes@[i as int].0,
                (Node {
                    level: old(self).nodes@[i as int].1.level,
                    children: old(self).nodes@[i as int].1.children,
                    payload: Some(payload),
                }),
            ),
            final(self).spec_size() == old(self).spec_size(),
    {
        let ghost s0 = self.nodes@;
        let (k, mut node) = self.nodes.remove(i);
        node.payload = Some(payload);
        let ghost n2 = node;
        self.nodes.insert(i, (k, node));
        proof {
            assert(self.nodes@ =~= s0.update(i as int, (s0[i as int].0, n2)));
            lemma_entries_update(s0, i as int, n2);
            assert(self@ =~= old(self)@.insert(s0[i as int].0, n2));
        }
    }

    /// Sets the child centers of the node at list position `i`, keeping its
    /// level and payload.
    fn set_children_at(&mut self, i: usize, ch: [Vec3i; 8])
        requires
            old(self).wf(),
            i < old(self).nodes@.len(),
        ensures
            final(self).wf(),
            final(self)@ == old(self)@.insert(
                old(self).nodes@[i as int].0,
                (Node {
                    level: old(self).nodes@[i as int].1.level,
                    children: Some(ch),
                    payload: old(self).nodes@[i as int].1.payload,
                }),
            ),
            final(self).spec_size() == old(self).spec_size(),
    {
        let ghost s0 = self.nodes@;
        let (k, mut node) = self.nodes.remove(i);
        node.children = Some(ch);
        let ghost n2 = node;
        self.nodes.insert(i, (k, node));
        proof {
            assert(self.nodes@ =~= s0.update(i as int, (s0[i as int].0, n2)));
            lemma_entries_update(s0, i as int, n2);
            assert(self@ =~= old(self)@.insert(s0[i as int].0, n2));
        }
    }

    /// Best-effort lookup: the payload stored exactly at `key` if there is
    /// one, else the deepest materialized node on the descent path toward
    /// `key` — the nearest available level of detail.
    pub fn find(&self, key: &Vec3i) -> (r: Option<(Vec3i, usize, &T)>)
        requires
            self.wf(),
        ensures
            match r {
                Some(t) => spec_find(self@, *key, self.spec_size()) == Some((t.0, t.1, *t.2)),
                None => spec_find(self@, *key, self.spec_size()) is None,
            },
    {
        if let Some(i) = self.find_index(key) {
            if let Some(p) = self.nodes[i].1.payload.as_ref() {
                return Some((*key, self.nodes[i].1.level, p));
            }
        }
        let half = (self.size / 2) as i32;
        if -half <= key.x && key.x <= half && -half <= key.y && key.y <= half && -half <= key.z
            && key.z <= half {
            self.find_child(key, Vec3i::new(0, 0, 0), self.size / 2)
        } else {
            None
        }
    }

    fn find_child(&self, target: &Vec3i, cursor: Vec3i, size: usize) -> (r: Option<
        (Vec3i, usize, &T),
    >)
        requires
            self.wf(),
            1 <= size <= 0x2000_0000,
            -0x2000_0000 <= target.x <= 0x2000_0000,
            -0x2000_0000 <= target.y <= 0x2000_0000,
            -0x2000_0000 <= target.z <= 0x2000_0000,
        ensures
            match r {
                Some(t) => spec_find_child(self@, *target, cursor, size as int) == Some(
                    (t.0, t.1, *t.2),
                ),
                None => spec_find_child(self@, *target, cursor, size as int) is None,
            },
        decreases size,
    {
        let offset = size / 2;
        let node = child_center_exec(target, size as i32);
        match self.find_index(&node) {
            Some(i) => {
                if self.nodes[i].1.children.is_some() && offset >= 1 {
                    self.find_child(target, node, offset)
                } else {
                    match self.nodes[i].1.payload.as_ref() {
                        Some(p) => Some((node, self.nodes[i].1.level, p)),
                        None => None,
                    }
                }
            },
            None => {
                match self.find_index(&cursor) {
                    Some(j) => match self.nodes[j].1.payload.as_ref() {
                        Some(p) => Some((cursor, self.nodes[j].1.level, p)),
                        None => None,
                    },
                    None => None,
                }
            },
        }
    }

    /// Direct lookup: the payload stored exactly at `key`, if any.
    pub fn load(&self, key: &Vec3i) -> (r: Option<&T>)
        requires
            self.wf(),
        ensures
            match r {
                Some(p) => self@.contains_key(*key) && self@[*key].payload == Some(*p),
                None => !self@.contains_key(*key) || self@[*key].payload is None,
            },
    {
        match self.find_index(key) {
            Some(i) => self.nodes[i].1.payload.as_ref(),
            None => None,
        }
    }

    /// The 8 child centers of the node at `key`, if it has been split.
    pub fn children(&self, key: &Vec3i) -> (r: Option<&[Vec3i; 8]>)
        requires
            self.wf(),
        ensures
            match r {
                Some(c) => self@.contains_key(*key) && self@[*key].children == Some(*c),
                None => !self@.contains_key(*key) || self@[*key].children is None,
            },
    {
        match self.find_index(key) {
            Some(i) => self.nodes[i].1.children.as_ref(),
            None => None,
        }
    }
}

} // verus!
