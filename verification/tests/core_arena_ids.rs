use ifa::{Arena, NodeId};

#[test]
fn new_arena_is_empty() {
    let arena = Arena::<String>::new();

    assert!(arena.is_empty());
    assert_eq!(arena.len(), 0);
}

#[test]
fn insert_returns_sequential_ids() {
    let mut arena = Arena::new();

    let first = arena.insert("first");
    let second = arena.insert("second");

    assert_eq!(first, NodeId::new(0));
    assert_eq!(second, NodeId::new(1));
    assert_eq!(arena.len(), 2);
}

#[test]
fn retrieves_values_by_id() {
    let mut arena = Arena::new();

    let id = arena.insert("hello");

    assert_eq!(arena.get(id), Some(&"hello"));
}

#[test]
fn unknown_id_returns_none() {
    let arena = Arena::<String>::new();

    assert_eq!(arena.get(NodeId::new(42)), None);
}

#[test]
fn mutable_access_updates_value() {
    let mut arena = Arena::new();

    let id = arena.insert(10);

    *arena.get_mut(id).expect("inserted value must exist") = 20;

    assert_eq!(arena.get(id), Some(&20));
}

#[test]
fn contains_reports_valid_ids() {
    let mut arena = Arena::new();

    let id = arena.insert("value");

    assert!(arena.contains(id));
    assert!(!arena.contains(NodeId::new(42)));
}

#[test]
fn creates_and_reads_id() {
    let id = NodeId::new(42);

    assert_eq!(id.index(), 42);
}

#[test]
fn root_id_is_zero() {
    assert_eq!(NodeId::root().index(), 0);
}

#[test]
fn ids_are_value_types() {
    let a = NodeId::new(7);
    let b = NodeId::new(7);
    let c = NodeId::new(8);

    assert_eq!(a, b);
    assert_ne!(a, c);
}

#[test]
fn debug_representation_is_stable() {
    assert_eq!(format!("{:?}", NodeId::new(42)), "NodeId(42)");
}

#[test]
fn default_arena_is_empty() {
    let arena: Arena<u8> = Arena::default();
    assert!(arena.is_empty());
}

#[test]
fn get_mut_on_unknown_id_is_none() {
    let mut arena = Arena::new();
    arena.insert(1u8);
    assert!(arena.get_mut(NodeId::new(1)).is_none());
    assert_eq!(arena.get(NodeId::new(0)), Some(&1u8));
}

#[test]
fn insert_keeps_earlier_values() {
    let mut arena = Arena::new();
    let a = arena.insert('a');
    let b = arena.insert('b');
    assert_eq!(arena.get(a), Some(&'a'));
    assert_eq!(arena.get(b), Some(&'b'));
    assert_eq!(b.index(), 1);
}
