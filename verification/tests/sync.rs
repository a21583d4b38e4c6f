use erased_set::ErasedSyncSet;
use erased_set::Storable;
use std::any::TypeId;
use std::cell::Cell;

#[derive(Debug, PartialEq)]
struct SharedClick(u32, u32);

#[derive(Debug, PartialEq)]
struct SharedKeyDown(char);

impl Storable for SharedClick {}

impl Storable for SharedKeyDown {}

fn moved_and_shared<S: Send + Sync>(set: S) -> S {
    set
}

#[test]
fn sync_set_is_send_and_sync() {
    let mut set = ErasedSyncSet::new();
    set.insert(1u8);
    let mut set = moved_and_shared(set);
    assert_eq!(set.remove::<u8>(), Some(1));
}

#[test]
fn sync_events_example() {
    let mut set = ErasedSyncSet::new();
    set.insert(SharedClick(128, 256));
    set.insert(SharedKeyDown('z'));

    assert_eq!(set.get::<SharedClick>(), Some(&SharedClick(128, 256)));
    assert_eq!(set.insert(SharedKeyDown('e')), Some(SharedKeyDown('z')));

    set.remove::<SharedClick>();

    assert_eq!(set.len(), 1);
}

#[test]
fn sync_new_and_default_are_empty() {
    let set = ErasedSyncSet::new();
    assert!(set.is_empty());
    assert_eq!(set.len(), 0);
    let set = ErasedSyncSet::default();
    assert!(set.is_empty());
    assert!(set.type_ids().is_empty());
}

#[test]
fn sync_scenario_four_types() {
    let mut set = ErasedSyncSet::new();
    set.insert(10u8);
    set.insert(20u16);
    set.insert(true);
    set.insert("a");
    assert_eq!(set.len(), 4);
    assert!(set.contains::<bool>());
    assert_eq!(set.get::<&str>(), Some(&"a"));
    assert_eq!(set.insert(50u8), Some(10));
    assert_eq!(set.remove::<u16>(), Some(20));
    assert_eq!(set.len(), 3);
}

#[test]
fn sync_scenario_empty() {
    let mut set = ErasedSyncSet::new();
    assert_eq!(set.len(), 0);
    assert!(set.is_empty());
    assert_eq!(set.get::<i32>(), None);
    assert_eq!(set.remove::<i32>(), None);
    assert!(set.get_mut::<i32>().is_none());
    assert!(!set.contains::<i32>());
}

#[test]
fn sync_get_or_insert_keeps_first() {
    let mut set = ErasedSyncSet::new();
    assert_eq!(set.get_or_insert("abc"), &"abc");
    assert_eq!(set.get_or_insert("def"), &"abc");
    assert_eq!(set.get_or_insert_with(|| String::from("abc")), &"abc");
    assert_eq!(set.get_or_insert_with(|| String::from("def")), &"abc");
    assert_eq!(set.len(), 2);
}

#[test]
fn sync_get_or_insert_with_is_lazy() {
    let calls = Cell::new(0u32);
    let mut set = ErasedSyncSet::new();
    set.insert(5u64);
    let got = *set.get_or_insert_with(|| {
        calls.set(calls.get() + 1);
        6u64
    });
    assert_eq!(got, 5);
    assert_eq!(calls.get(), 0);
    let got = *set.get_or_insert_with(|| {
        calls.set(calls.get() + 1);
        7u32
    });
    assert_eq!(got, 7);
    assert_eq!(calls.get(), 1);
}

#[test]
fn sync_get_mut_changes_in_place() {
    let mut set = ErasedSyncSet::new();
    set.insert("a");
    set.insert(1u8);
    if let Some(x) = set.get_mut::<&str>() {
        *x = "b";
    }
    assert!(set.get_mut::<u16>().is_none());
    assert_eq!(set.get::<&str>(), Some(&"b"));
    assert_eq!(set.get::<u8>(), Some(&1));
    assert_eq!(set.len(), 2);
}

#[test]
fn sync_round_trip_and_lengths() {
    let mut set = ErasedSyncSet::new();
    assert_eq!(set.insert(String::from("v")), None);
    assert_eq!(set.len(), 1);
    assert_eq!(set.get::<String>(), Some(&String::from("v")));
    assert_eq!(set.insert(String::from("w")), Some(String::from("v")));
    assert_eq!(set.len(), 1);
    assert_eq!(set.remove::<String>(), Some(String::from("w")));
    assert!(!set.contains::<String>());
    assert_eq!(set.get::<String>(), None);
    assert_eq!(set.len(), 0);
    set.insert(1u8);
    set.insert(2u16);
    set.clear();
    assert_eq!(set.len(), 0);
    assert_eq!(set.get::<u8>(), None);
}

#[test]
fn sync_type_isolation() {
    let mut set = ErasedSyncSet::new();
    set.insert(5u16);
    assert_eq!(set.insert(6u32), None);
    assert_eq!(set.get::<u16>(), Some(&5));
    assert_eq!(set.remove::<u32>(), Some(6));
    assert_eq!(set.get::<u16>(), Some(&5));
    assert_eq!(set.type_ids(), vec![TypeId::of::<u16>()]);
}
