use terravox::math::Vec3i;
use terravox::octree::{
    LEFT_BOTTOM_BACK, LEFT_BOTTOM_FRONT, LEFT_TOP_BACK, LEFT_TOP_FRONT, Node, Octree,
    RIGHT_BOTTOM_BACK, RIGHT_BOTTOM_FRONT, RIGHT_TOP_BACK, RIGHT_TOP_FRONT,
};

#[test]
fn children_indices_are_correct() {
    let parent = Vec3i::new(0, 0, 0);
    let children = Node::<u32>::children(&parent, 1);
    assert_eq!(children[LEFT_TOP_BACK], Vec3i::new(-1, 1, -1));
    assert_eq!(children[RIGHT_TOP_BACK], Vec3i::new(1, 1, -1));
    assert_eq!(children[RIGHT_TOP_FRONT], Vec3i::new(1, 1, 1));
    assert_eq!(children[LEFT_TOP_FRONT], Vec3i::new(-1, 1, 1));
    assert_eq!(children[LEFT_BOTTOM_BACK], Vec3i::new(-1, -1, -1));
    assert_eq!(children[RIGHT_BOTTOM_BACK], Vec3i::new(1, -1, -1));
    assert_eq!(children[RIGHT_BOTTOM_FRONT], Vec3i::new(1, -1, 1));
    assert_eq!(children[LEFT_BOTTOM_FRONT], Vec3i::new(-1, -1, 1));
}

#[test]
fn can_store_and_load_a_node() {
    let mut octree = Octree::<u32>::new(32);
    octree.store(Vec3i::new(-15, 1, -9), 123);
    assert_eq!(octree.node_count(), 5);
    let payload = octree.load(&Vec3i::new(-15, 1, -9));
    assert_eq!(*payload.unwrap(), 123);
}

#[test]
fn can_find_highest_available_lod() {
    let mut octree = Octree::<u32>::new(32);
    octree.store(Vec3i::new(-15, 1, -9), 1);
    octree.store(Vec3i::new(8, 8, 8), 2);

    let (key, _level, value) = octree.find(&Vec3i::new(-15, 1, -9)).unwrap();
    assert_eq!(key, Vec3i::new(-15, 1, -9));
    assert_eq!(*value, 1);

    let (key, _level, value) = octree.find(&Vec3i::new(4, 0, 4)).unwrap();
    assert_eq!(key, Vec3i::new(8, 8, 8));
    assert_eq!(*value, 2);

    let (key, _level, value) = octree.find(&Vec3i::new(12, 0, 4)).unwrap();
    assert_eq!(key, Vec3i::new(8, 8, 8));
    assert_eq!(*value, 2);
}

#[test]
fn store_then_load_returns_the_stored_payload() {
    let mut octree = Octree::<u32>::new(64);
    let keys = [
        Vec3i::new(0, 0, 0),
        Vec3i::new(16, 16, 16),
        Vec3i::new(-16, 16, -16),
        Vec3i::new(31, -31, 5),
    ];
    for (i, key) in keys.iter().enumerate() {
        octree.store(*key, 1000 + i as u32);
    }
    for (i, key) in keys.iter().enumerate() {
        assert_eq!(*octree.load(key).unwrap(), 1000 + i as u32);
    }
}

#[test]
fn second_store_overwrites_without_new_nodes() {
    let mut octree = Octree::<u32>::new(32);
    let key = Vec3i::new(-15, 1, -9);
    octree.store(key, 7);
    let count_after_first = octree.node_count();
    octree.store(key, 8);
    assert_eq!(octree.node_count(), count_after_first);
    assert_eq!(*octree.load(&key).unwrap(), 8);
}

#[test]
fn children_are_distinct_and_offset_by_half() {
    let parent = Vec3i::new(8, -8, 8);
    let offset = 4;
    let children = Node::<u32>::children(&parent, offset);
    for i in 0..8 {
        for j in (i + 1)..8 {
            assert_ne!(children[i], children[j]);
        }
        assert_eq!((children[i].x - parent.x).abs(), offset);
        assert_eq!((children[i].y - parent.y).abs(), offset);
        assert_eq!((children[i].z - parent.z).abs(), offset);
    }
    // a pure function of its inputs: calling it again gives the same array
    let again = Node::<u32>::children(&parent, offset);
    assert_eq!(children, again);
}

#[test]
fn find_falls_back_to_populated_ancestor_level() {
    let mut octree = Octree::<u32>::new(32);
    // populate only the level-1 octant centered at (8, 8, 8)
    octree.store(Vec3i::new(8, 8, 8), 42);
    // an unpopulated key inside that octant resolves to the ancestor,
    // never to anything deeper than its level
    let (key, level, value) = octree.find(&Vec3i::new(3, 5, 1)).unwrap();
    assert_eq!(key, Vec3i::new(8, 8, 8));
    assert_eq!(level, 1);
    assert_eq!(*value, 42);
}

#[test]
fn find_misses_outside_root_bounds() {
    let mut octree = Octree::<u32>::new(32);
    octree.store(Vec3i::new(8, 8, 8), 42);
    assert!(octree.find(&Vec3i::new(100, 0, 0)).is_none());
}

#[test]
fn load_misses_on_interior_nodes() {
    let mut octree = Octree::<u32>::new(32);
    octree.store(Vec3i::new(-15, 1, -9), 1);
    // the level-1 center on the descent path exists but holds no payload
    assert!(octree.load(&Vec3i::new(-8, 8, -8)).is_none());
    assert!(octree.children(&Vec3i::new(-8, 8, -8)).is_some());
}

#[test]
fn octree_children_query_returns_split_nodes_only() {
    let mut octree = Octree::<u32>::new(32);
    octree.store(Vec3i::new(8, 8, 8), 2);
    // (8,8,8) was stored directly as a leaf: never split
    assert!(octree.children(&Vec3i::new(8, 8, 8)).is_none());
    assert!(octree.children(&Vec3i::new(5, 5, 5)).is_none());
}

#[test]
fn find_is_empty_on_an_unpopulated_tree() {
    let octree = Octree::<u32>::new(32);
    assert!(octree.find(&Vec3i::new(0, 0, 0)).is_none());
    assert!(octree.load(&Vec3i::new(0, 0, 0)).is_none());
}
