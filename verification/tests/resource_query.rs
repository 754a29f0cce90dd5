use resource_query::access::TypeAccess;
use resource_query::composite::{CompositeFetch, FetchItem, FetchKind};
use resource_query::fetch::{
    FetchResource, FetchResourceLocalMut, FetchResourceRead, FetchResourceWrite, ResourceQuery,
};
use resource_query::handles::UnsafeClone;
use resource_query::store::{ResourceIndex, Resources};

#[test]
fn shared_access_reads_its_type() {
    let fetch = FetchResourceRead::new(7);
    let access = fetch.access();
    assert!(access.contains_read(7));
    assert!(!access.contains_write(7));
    assert!(!access.contains_read(8));
    assert!(!access.is_empty());
}

#[test]
fn exclusive_access_writes_its_type() {
    let fetch = FetchResourceWrite::new(7);
    let access = fetch.access();
    assert!(access.contains_write(7));
    assert!(!access.contains_read(7));
    assert!(!access.contains_write(8));
}

#[test]
fn local_access_writes_its_type() {
    let fetch = FetchResourceLocalMut::new(7, 0);
    let access = fetch.access();
    assert!(access.contains_write(7));
    assert!(!access.contains_read(7));
}

#[test]
fn union_of_disjoint_descriptors_is_plain_set_union() {
    let mut a = TypeAccess::empty();
    a.insert_read(1);
    a.insert_write(2);
    let mut b = TypeAccess::empty();
    b.insert_read(3);
    b.insert_write(4);
    a.union(&b);
    assert!(a.contains_read(1));
    assert!(a.contains_read(3));
    assert!(a.contains_write(2));
    assert!(a.contains_write(4));
    // no cross-contamination between the read and write sets
    assert!(!a.contains_write(1));
    assert!(!a.contains_write(3));
    assert!(!a.contains_read(2));
    assert!(!a.contains_read(4));
}

#[test]
fn union_with_overlap_keeps_single_membership() {
    let mut a = TypeAccess::empty();
    a.insert_read(1);
    let mut b = TypeAccess::empty();
    b.insert_read(1);
    b.insert_write(1);
    a.union(&b);
    assert!(a.contains_read(1));
    assert!(a.contains_write(1));
}

#[test]
fn default_descriptor_is_empty() {
    let access = TypeAccess::default();
    assert!(access.is_empty());
    assert!(!access.contains_read(0));
    assert!(!access.contains_write(0));
}

#[test]
fn shared_borrow_release_restores_counters() {
    let mut store = Resources::new();
    store.register_global(7, 0);
    let fetch = FetchResourceRead::new(7);
    assert_eq!(store.read_count(7), 0);
    assert!(!store.is_exclusive_borrowed(7));
    assert!(fetch.borrow(&mut store));
    assert_eq!(store.read_count(7), 1);
    assert!(!store.is_exclusive_borrowed(7));
    fetch.release(&mut store);
    assert_eq!(store.read_count(7), 0);
    assert!(!store.is_exclusive_borrowed(7));
}

#[test]
fn exclusive_borrow_release_restores_flags() {
    let mut store = Resources::new();
    store.register_global(7, 0);
    let fetch = FetchResourceWrite::new(7);
    assert!(fetch.borrow(&mut store));
    assert!(store.is_exclusive_borrowed(7));
    assert_eq!(store.read_count(7), 0);
    fetch.release(&mut store);
    assert!(!store.is_exclusive_borrowed(7));
    assert_eq!(store.read_count(7), 0);
}

#[test]
fn local_borrow_release_restores_flags() {
    let mut store = Resources::new();
    let fetch = FetchResourceLocalMut::new(9, 5);
    fetch.initialize(&mut store, Some(3));
    assert!(fetch.borrow(&mut store));
    assert!(store.is_exclusive_borrowed(9));
    fetch.release(&mut store);
    assert!(!store.is_exclusive_borrowed(9));
    assert_eq!(store.read_count(9), 0);
}

#[test]
fn second_exclusive_borrow_fails_while_first_outstanding() {
    let mut store = Resources::new();
    store.register_global(7, 0);
    let first = FetchResourceWrite::new(7);
    let second = FetchResourceWrite::new(7);
    assert!(first.borrow(&mut store));
    assert!(!second.borrow(&mut store));
    // the failed attempt left the store untouched
    assert!(store.is_exclusive_borrowed(7));
    first.release(&mut store);
    assert!(second.borrow(&mut store));
    second.release(&mut store);
}

#[test]
fn shared_borrow_fails_while_exclusive_held() {
    let mut store = Resources::new();
    store.register_global(7, 0);
    let writer = FetchResourceWrite::new(7);
    let reader = FetchResourceRead::new(7);
    assert!(writer.borrow(&mut store));
    assert!(!reader.borrow(&mut store));
    assert_eq!(store.read_count(7), 0);
    writer.release(&mut store);
    assert!(reader.borrow(&mut store));
    reader.release(&mut store);
}

#[test]
fn concurrent_shared_borrows_succeed() {
    let mut store = Resources::new();
    store.register_global(7, 0);
    let a = FetchResourceRead::new(7);
    let b = FetchResourceRead::new(7);
    assert!(a.borrow(&mut store));
    assert!(b.borrow(&mut store));
    assert_eq!(store.read_count(7), 2);
    a.release(&mut store);
    b.release(&mut store);
    assert_eq!(store.read_count(7), 0);
}

#[test]
fn composite_pair_access_and_borrow_state() {
    let mut store = Resources::new();
    store.register_global(1, 10);
    store.register_global(2, 20);
    let mut group = CompositeFetch::new();
    group.push(FetchKind::Read(FetchResourceRead::new(1)));
    group.push(FetchKind::Write(FetchResourceWrite::new(2)));
    let access = group.access();
    assert!(access.contains_read(1));
    assert!(access.contains_write(2));
    assert!(!access.contains_write(1));
    assert!(!access.contains_read(2));
    assert!(group.borrow(&mut store));
    assert_eq!(store.read_count(1), 1);
    assert!(store.is_exclusive_borrowed(2));
    group.release(&mut store);
    assert_eq!(store.read_count(1), 0);
    assert!(!store.is_exclusive_borrowed(2));
}

#[test]
fn composite_borrow_failure_rolls_back_earlier_grants() {
    let mut store = Resources::new();
    store.register_global(1, 0);
    store.register_global(2, 0);
    let blocker = FetchResourceWrite::new(2);
    assert!(blocker.borrow(&mut store));
    let mut group = CompositeFetch::new();
    group.push(FetchKind::Read(FetchResourceRead::new(1)));
    group.push(FetchKind::Write(FetchResourceWrite::new(2)));
    assert!(!group.borrow(&mut store));
    // the shared grant on 1 made before the conflict was rolled back
    assert_eq!(store.read_count(1), 0);
    assert!(store.is_exclusive_borrowed(2));
    blocker.release(&mut store);
}

#[test]
fn composite_get_returns_positional_items() {
    let mut store = Resources::new();
    store.register_global(1, 10);
    store.register_global(2, 20);
    let mut group = CompositeFetch::new();
    group.push(FetchKind::Read(FetchResourceRead::new(1)));
    group.push(FetchKind::Write(FetchResourceWrite::new(2)));
    group.push(FetchKind::LocalMut(FetchResourceLocalMut::new(3, 30)));
    group.initialize(&mut store, Some(5));
    assert!(group.borrow(&mut store));
    let items = group.get(&store, Some(5));
    assert_eq!(items.len(), 3);
    match &items[0] {
        FetchItem::Res(view) => assert_eq!(view.deref(), 10),
        _ => panic!("first item should be a shared view"),
    }
    match &items[1] {
        FetchItem::ResMut(view) => assert_eq!(view.deref(&store), 20),
        _ => panic!("second item should be an exclusive view"),
    }
    match &items[2] {
        FetchItem::Local(view) => assert_eq!(view.deref(&store), 30),
        _ => panic!("third item should be a private view"),
    }
    group.release(&mut store);
}

#[test]
fn initialize_writes_default_only_on_first_call() {
    let mut store = Resources::new();
    let fetch = FetchResourceLocalMut::new(9, 5);
    fetch.initialize(&mut store, Some(3));
    assert_eq!(store.get_slot(9, ResourceIndex::System(3)), Some(5));
    // mutate the private value, then initialize again
    assert!(fetch.borrow(&mut store));
    let handle = fetch.get(&store, Some(3));
    handle.deref_mut(&mut store, 11);
    fetch.release(&mut store);
    fetch.initialize(&mut store, Some(3));
    assert_eq!(store.get_slot(9, ResourceIndex::System(3)), Some(11));
}

#[test]
fn private_slots_are_per_system() {
    let mut store = Resources::new();
    let fetch = FetchResourceLocalMut::new(9, 5);
    fetch.initialize(&mut store, Some(1));
    fetch.initialize(&mut store, Some(2));
    assert!(fetch.borrow(&mut store));
    let first = fetch.get(&store, Some(1));
    first.deref_mut(&mut store, 100);
    fetch.release(&mut store);
    assert_eq!(store.get_slot(9, ResourceIndex::System(1)), Some(100));
    assert_eq!(store.get_slot(9, ResourceIndex::System(2)), Some(5));
}

#[test]
fn empty_composite_is_observable_noop() {
    let mut store = Resources::new();
    store.register_global(7, 0);
    let reader = FetchResourceRead::new(7);
    assert!(reader.borrow(&mut store));
    let group = CompositeFetch::new();
    assert!(group.access().is_empty());
    assert!(group.borrow(&mut store));
    assert_eq!(store.read_count(7), 1);
    assert!(!store.is_exclusive_borrowed(7));
    group.release(&mut store);
    assert_eq!(store.read_count(7), 1);
    let items = group.get(&store, None);
    assert!(items.is_empty());
    reader.release(&mut store);
}

#[test]
fn missing_slot_reads_as_none() {
    let store = Resources::new();
    assert_eq!(store.get_slot(7, ResourceIndex::Global), None);
    assert_eq!(store.get_slot(7, ResourceIndex::System(1)), None);
}

#[test]
fn register_global_overwrites() {
    let mut store = Resources::new();
    store.register_global(7, 1);
    store.register_global(7, 2);
    assert_eq!(store.get_slot(7, ResourceIndex::Global), Some(2));
}

#[test]
fn insert_private_slot_first_writer_wins() {
    let mut store = Resources::new();
    store.insert_private_slot(1, 7, 10);
    store.insert_private_slot(1, 7, 20);
    assert_eq!(store.get_slot(7, ResourceIndex::System(1)), Some(10));
}

#[test]
fn unsafe_clone_duplicates_views() {
    let mut store = Resources::new();
    store.register_global(7, 42);
    let reader = FetchResourceRead::new(7);
    assert!(reader.borrow(&mut store));
    let view = reader.get(&store, None);
    let duplicate = view.unsafe_clone();
    assert_eq!(view.deref(), 42);
    assert_eq!(duplicate.deref(), 42);
    reader.release(&mut store);
}

#[test]
fn end_to_end_counter_scenario() {
    let mut store = Resources::new();
    let counter_type = 1;
    store.register_global(counter_type, 0);

    // system A takes exclusive access and increments the counter
    let system_a = FetchResourceWrite::new(counter_type);
    assert!(system_a.borrow(&mut store));
    let exclusive = system_a.get(&store, Some(1));
    let current = exclusive.deref(&store);
    exclusive.deref_mut(&mut store, current + 1);
    system_a.release(&mut store);

    // system B subsequently observes the increment through shared access
    let system_b = FetchResourceRead::new(counter_type);
    assert!(system_b.borrow(&mut store));
    let shared = system_b.get(&store, Some(2));
    assert_eq!(shared.deref(), 1);
    system_b.release(&mut store);

    // two systems hold shared access simultaneously; a third system's
    // exclusive attempt fails until both release
    let reader_one = FetchResourceRead::new(counter_type);
    let reader_two = FetchResourceRead::new(counter_type);
    let writer = FetchResourceWrite::new(counter_type);
    assert!(reader_one.borrow(&mut store));
    assert!(reader_two.borrow(&mut store));
    assert!(!writer.borrow(&mut store));
    reader_one.release(&mut store);
    assert!(!writer.borrow(&mut store));
    reader_two.release(&mut store);
    assert!(writer.borrow(&mut store));
    writer.release(&mut store);
}
