use primer::node::{Arena, Node};

#[test]
fn parent_found_until_released() {
    let mut arena = Arena::new();
    let p = arena.create(8);
    let c = arena.create(3);
    arena.attach(p, c);

    let children = arena.get(p).unwrap().children.clone();
    assert_eq!(children, vec![c]);
    assert_eq!(arena.get(children[0]).unwrap().value, 3);
    assert_eq!(arena.resolve_parent(c), Some(p));
    assert_eq!(arena.get(arena.resolve_parent(c).unwrap()).unwrap().value, 8);

    assert!(arena.release(p));
    assert!(!arena.is_live(p));
    assert!(arena.get(p).is_none());
    assert_eq!(arena.resolve_parent(c), None);
    assert!(arena.is_live(c));
    assert_eq!(arena.get(c).unwrap().value, 3);
}

#[test]
fn a_new_node_is_detached() {
    let node = Node::new(5);
    assert_eq!(node.value, 5);
    assert!(node.children.is_empty());
    assert_eq!(node.parent, None);

    let mut arena = Arena::new();
    assert_eq!(arena.len(), 0);
    let id = arena.create(-4);
    assert_eq!(id, 0);
    assert_eq!(arena.len(), 1);
    assert!(arena.is_live(id));
    assert_eq!(arena.get(id).unwrap().value, -4);
    assert!(arena.get(id).unwrap().children.is_empty());
    assert_eq!(arena.get(id).unwrap().parent, None);
    assert_eq!(arena.resolve_parent(id), None);
    assert_eq!(arena.handle_count(id), 1);
    assert_eq!(arena.owner_count(id), 0);
}

#[test]
fn attached_child_resolves_to_parent_value() {
    let mut arena = Arena::new();
    let p = arena.create(i32::MAX);
    let a = arena.create(1);
    let b = arena.create(2);
    arena.attach(p, a);
    arena.attach(p, b);
    assert_eq!(arena.get(p).unwrap().children, vec![a, b]);
    for child in [a, b] {
        let parent = arena.resolve_parent(child).unwrap();
        assert_eq!(arena.get(parent).unwrap().value, i32::MAX);
        assert_eq!(arena.owner_count(child), 1);
    }
    // The parent is found as long as anybody holds it.
    assert!(arena.acquire(p));
    assert!(arena.release(p));
    assert_eq!(arena.resolve_parent(a), Some(p));
    assert!(arena.release(p));
    assert_eq!(arena.resolve_parent(a), None);
    assert_eq!(arena.resolve_parent(b), None);
}

#[test]
fn attaching_twice_lists_the_child_once() {
    let mut arena = Arena::new();
    let p = arena.create(8);
    let c = arena.create(3);
    arena.attach(p, c);
    arena.attach(p, c);
    arena.attach(p, c);
    let children = &arena.get(p).unwrap().children;
    assert_eq!(children.iter().filter(|k| **k == c).count(), 1);
    assert_eq!(children.len(), 1);
    assert_eq!(arena.owner_count(c), 1);
    assert_eq!(arena.resolve_parent(c), Some(p));
}

#[test]
fn detaching_what_is_not_listed_changes_nothing() {
    let mut arena = Arena::new();
    let p = arena.create(8);
    let c = arena.create(3);
    let other = arena.create(5);
    arena.attach(p, c);
    arena.detach(p, other);
    arena.detach(c, p);
    arena.detach(99, c);
    arena.detach(p, 99);
    assert_eq!(arena.get(p).unwrap().children, vec![c]);
    assert_eq!(arena.resolve_parent(c), Some(p));
    assert_eq!(arena.owner_count(c), 1);
    assert_eq!(arena.owner_count(other), 0);
    assert!(arena.is_live(other));
    assert_eq!(arena.len(), 3);
}

#[test]
fn detaching_clears_the_way_back() {
    let mut arena = Arena::new();
    let p = arena.create(8);
    let a = arena.create(1);
    let b = arena.create(2);
    let c = arena.create(3);
    arena.attach(p, a);
    arena.attach(p, b);
    arena.attach(p, c);
    arena.detach(p, b);
    assert_eq!(arena.get(p).unwrap().children, vec![a, c]);
    assert_eq!(arena.resolve_parent(b), None);
    assert_eq!(arena.get(b).unwrap().parent, None);
    assert_eq!(arena.owner_count(b), 0);
    assert!(arena.is_live(b));
    assert_eq!(arena.resolve_parent(a), Some(p));
}

#[test]
fn a_child_without_another_holder_goes_with_its_parent() {
    let mut arena = Arena::new();
    let root = arena.create(0);
    let mid = arena.create(1);
    let leaf = arena.create(2);
    let kept = arena.create(3);
    arena.attach(root, mid);
    arena.attach(mid, leaf);
    arena.attach(mid, kept);
    // Only the root and `kept` are still held from outside.
    assert!(arena.release(mid));
    assert!(arena.release(leaf));
    assert!(arena.is_live(mid));
    assert!(arena.is_live(leaf));
    assert_eq!(arena.handle_count(mid), 0);

    assert!(arena.release(root));
    assert!(!arena.is_live(root));
    assert!(!arena.is_live(mid));
    assert!(!arena.is_live(leaf));
    assert!(arena.is_live(kept));
    assert_eq!(arena.owner_count(kept), 0);
    assert_eq!(arena.resolve_parent(kept), None);
    assert_eq!(arena.resolve_parent(leaf), None);
    assert_eq!(arena.len(), 4);
}

#[test]
fn detaching_the_last_holder_reclaims_the_child() {
    let mut arena = Arena::new();
    let p = arena.create(8);
    let c = arena.create(3);
    let g = arena.create(1);
    arena.attach(p, c);
    arena.attach(c, g);
    assert!(arena.release(c));
    assert!(arena.release(g));
    arena.detach(p, c);
    assert!(!arena.is_live(c));
    assert!(!arena.is_live(g));
    assert!(arena.get(p).unwrap().children.is_empty());
    assert!(arena.is_live(p));
}

#[test]
fn stale_addresses_are_harmless() {
    let mut arena = Arena::new();
    let p = arena.create(8);
    let c = arena.create(3);
    assert!(arena.release(c));
    assert!(!arena.release(c));
    assert!(!arena.acquire(c));
    arena.attach(p, c);
    arena.attach(c, p);
    assert!(arena.get(p).unwrap().children.is_empty());
    assert_eq!(arena.resolve_parent(p), None);
    assert_eq!(arena.resolve_parent(c), None);
    assert!(!arena.release(77));
    assert!(!arena.acquire(77));
    assert!(!arena.is_live(77));
    assert!(arena.get(77).is_none());
    assert_eq!(arena.handle_count(77), 0);
    assert_eq!(arena.owner_count(77), 0);
    // A new node never takes the place of a reclaimed one.
    let fresh = arena.create(4);
    assert_eq!(fresh, 2);
    assert!(!arena.is_live(c));
}

#[test]
fn a_node_in_two_lists_outlives_either_parent() {
    let mut arena = Arena::new();
    let p = arena.create(1);
    let q = arena.create(2);
    let c = arena.create(3);
    arena.attach(p, c);
    arena.attach(q, c);
    assert_eq!(arena.owner_count(c), 2);
    assert_eq!(arena.resolve_parent(c), Some(q));
    assert!(arena.release(c));
    assert!(arena.release(p));
    assert!(arena.is_live(c));
    assert_eq!(arena.owner_count(c), 1);
    assert!(arena.release(q));
    assert!(!arena.is_live(c));
}

#[test]
fn a_cycle_of_owners_is_never_reclaimed() {
    let mut arena = Arena::new();
    let a = arena.create(5);
    let b = arena.create(10);
    arena.attach(a, b);
    arena.attach(b, a);
    assert!(arena.release(a));
    assert!(arena.release(b));
    assert!(arena.is_live(a));
    assert!(arena.is_live(b));
    assert_eq!(arena.handle_count(a), 0);
    assert_eq!(arena.handle_count(b), 0);
    assert_eq!(arena.resolve_parent(a), Some(b));
    assert_eq!(arena.resolve_parent(b), Some(a));
}

#[test]
fn a_node_can_own_itself() {
    let mut arena = Arena::new();
    let a = arena.create(5);
    arena.attach(a, a);
    assert_eq!(arena.get(a).unwrap().children, vec![a]);
    assert_eq!(arena.resolve_parent(a), Some(a));
    assert!(arena.release(a));
    assert!(arena.is_live(a));
    arena.detach(a, a);
    assert!(!arena.is_live(a));
}
