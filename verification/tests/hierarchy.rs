use blenvy::hierarchy::{append_entities, Hierarchy, HierarchyNode};

fn node(entity: u64, parent: Option<u64>, children: Vec<u64>, has_blueprint: bool) -> HierarchyNode {
    HierarchyNode {
        entity,
        parent,
        children,
        has_blueprint,
        has_animation_player: false,
        has_animation_infos: false,
        has_spawn_root: false,
    }
}

/// 1 ── 2 ── 4
///   │    └─ 5 ── 7
///   └─ 3 ── 6
fn tree() -> Hierarchy {
    let mut h = Hierarchy::new();
    h.insert(node(1, None, vec![2, 3], true));
    h.insert(node(2, Some(1), vec![4, 5], false));
    h.insert(node(3, Some(1), vec![6], true));
    h.insert(node(4, Some(2), vec![], false));
    h.insert(node(5, Some(2), vec![7], true));
    h.insert(node(6, Some(3), vec![], true));
    h.insert(node(7, Some(5), vec![], false));
    h
}

#[test]
fn ancestors_come_nearest_first() {
    let h = tree();
    assert_eq!(h.iter_ancestors(7), vec![5, 2, 1]);
    assert_eq!(h.iter_ancestors(1), Vec::<u64>::new());
    assert_eq!(h.iter_ancestors(99), Vec::<u64>::new());
}

#[test]
fn descendants_come_level_by_level() {
    let h = tree();
    assert_eq!(h.iter_descendants(1), vec![2, 3, 4, 5, 6, 7]);
    assert_eq!(h.iter_descendants(2), vec![4, 5, 7]);
    assert_eq!(h.iter_descendants(7), Vec::<u64>::new());
    assert_eq!(h.level_below(&vec![2, 3]), vec![4, 5, 6]);
}

#[test]
fn children_without_a_node_of_their_own_are_descendants_too() {
    let mut h = Hierarchy::new();
    h.insert(node(1, None, vec![10, 11, 12], false));
    assert_eq!(h.iter_descendants(1), vec![10, 11, 12]);
    assert_eq!(h.children_of(1), vec![10, 11, 12]);
    assert_eq!(h.children_of(10), Vec::<u64>::new());
}

#[test]
fn walks_end_on_a_cycle() {
    let mut h = Hierarchy::new();
    h.insert(node(1, Some(2), vec![2], false));
    h.insert(node(2, Some(1), vec![1], false));
    assert_eq!(h.iter_ancestors(1), vec![2, 1]);
    assert_eq!(h.iter_descendants(1), vec![2, 1]);
}

#[test]
fn nearest_blueprint_ancestor() {
    let h = tree();
    assert_eq!(h.find_blueprint_ancestor(7), Some(5));
    assert_eq!(h.find_blueprint_ancestor(5), Some(1));
    assert_eq!(h.find_blueprint_ancestor(6), Some(3));
    assert_eq!(h.find_blueprint_ancestor(1), None);
}

#[test]
fn lookups() {
    let h = tree();
    assert_eq!(h.find(3), Some(2));
    assert_eq!(h.find(42), None);
    assert_eq!(h.parent_of(4), Some(2));
    assert_eq!(h.parent_of(1), None);
    assert!(h.has_blueprint(5));
    assert!(!h.has_blueprint(4));
    assert!(!h.has_blueprint(42));
    assert!(!h.has_animation_player(5));
    assert!(!h.has_animation_infos(5));
    let mut out = vec![1];
    append_entities(&mut out, &vec![2, 3]);
    assert_eq!(out, vec![1, 2, 3]);
}

#[test]
fn the_first_node_of_an_entity_counts() {
    let mut h = Hierarchy::new();
    h.insert(node(1, None, vec![2], false));
    h.insert(node(1, Some(9), vec![3], true));
    assert_eq!(h.children_of(1), vec![2]);
    assert_eq!(h.parent_of(1), None);
    assert!(!h.has_blueprint(1));
}
