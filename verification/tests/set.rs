use erased_set::set::ErasedSet;
use erased_set::Storable;
use std::any::TypeId;
use std::cell::Cell;
use std::rc::Rc;
use std::sync::Arc;

#[derive(Debug, PartialEq)]
struct ClickEvent(u32, u32);

#[derive(Debug, PartialEq)]
struct KeyDownEvent(char);

impl Storable for ClickEvent {}

impl Storable for KeyDownEvent {}

#[test]
fn events_example() {
    let mut set = ErasedSet::new();
    set.insert(ClickEvent(128, 256));
    set.insert(KeyDownEvent('z'));

    assert_eq!(set.get::<ClickEvent>(), Some(&ClickEvent(128, 256)));
    assert_eq!(set.insert(KeyDownEvent('e')), Some(KeyDownEvent('z')));

    set.remove::<ClickEvent>();

    assert_eq!(set.len(), 1);
}

#[test]
fn new_is_empty() {
    let set = ErasedSet::new();
    assert!(set.is_empty());
    assert_eq!(set.len(), 0);
}

#[test]
fn default_is_empty() {
    let set = ErasedSet::default();
    assert!(set.is_empty());
    assert_eq!(set.len(), 0);
    assert!(!set.contains::<u8>());
}

#[test]
fn len_counts_types() {
    let mut set = ErasedSet::new();
    assert_eq!(set.len(), 0);
    set.insert("a");
    assert_eq!(set.len(), 1);
}

#[test]
fn clear_empties() {
    let mut set = ErasedSet::new();
    set.insert("a");
    set.insert(1u8);
    set.clear();
    assert!(set.is_empty());
    assert_eq!(set.len(), 0);
    assert_eq!(set.get::<&str>(), None);
    assert_eq!(set.get::<u8>(), None);
    assert_eq!(set.insert(2u8), None);
    assert_eq!(set.len(), 1);
}

#[test]
fn contains_after_insert() {
    let mut set = ErasedSet::new();
    set.insert("a");
    assert!(set.contains::<&str>());
    assert!(!set.contains::<String>());
}

#[test]
fn get_present_and_absent() {
    let mut set = ErasedSet::new();
    set.insert("a");
    assert_eq!(set.get::<&str>(), Some(&"a"));
    assert_eq!(set.get::<bool>(), None);
}

#[test]
fn get_or_insert_keeps_first() {
    let mut set = ErasedSet::new();
    assert_eq!(set.get_or_insert("abc"), &"abc");
    assert_eq!(set.get_or_insert("def"), &"abc");
    assert_eq!(set.get::<&str>(), Some(&"abc"));
    assert_eq!(set.len(), 1);
}

#[test]
fn get_or_insert_returns_existing() {
    let mut set = ErasedSet::new();
    set.insert(7u32);
    assert_eq!(set.get_or_insert(9u32), &7);
    assert_eq!(set.get::<u32>(), Some(&7));
    assert_eq!(set.len(), 1);
}

#[test]
fn get_or_insert_with_keeps_first() {
    let mut set = ErasedSet::new();
    assert_eq!(set.get_or_insert_with(|| String::from("abc")), &"abc");
    assert_eq!(set.get_or_insert_with(|| String::from("def")), &"abc");
    assert_eq!(set.len(), 1);
}

#[test]
fn get_or_insert_with_is_lazy() {
    let calls = Cell::new(0u32);
    let mut set = ErasedSet::new();
    let first = *set.get_or_insert_with(|| {
        calls.set(calls.get() + 1);
        10u64
    });
    assert_eq!(first, 10);
    assert_eq!(calls.get(), 1);
    let second = *set.get_or_insert_with(|| {
        calls.set(calls.get() + 1);
        20u64
    });
    assert_eq!(second, 10);
    assert_eq!(calls.get(), 1);
    set.insert(30u64);
    let third = *set.get_or_insert_with(|| {
        calls.set(calls.get() + 1);
        40u64
    });
    assert_eq!(third, 30);
    assert_eq!(calls.get(), 1);
}

#[test]
fn get_or_insert_evaluates_its_argument() {
    let calls = Cell::new(0u32);
    let make = || {
        calls.set(calls.get() + 1);
        5i16
    };
    let mut set = ErasedSet::new();
    set.insert(1i16);
    assert_eq!(set.get_or_insert(make()), &1);
    assert_eq!(calls.get(), 1);
    assert_eq!(set.get::<i16>(), Some(&1));
}

#[test]
fn get_mut_changes_in_place() {
    let mut set = ErasedSet::new();
    set.insert("a");
    if let Some(x) = set.get_mut::<&str>() {
        *x = "b";
    }
    assert_eq!(set.get::<&str>(), Some(&"b"));
    assert_eq!(set.len(), 1);
}

#[test]
fn get_mut_absent() {
    let mut set = ErasedSet::new();
    set.insert(1u8);
    assert!(set.get_mut::<u16>().is_none());
    assert_eq!(set.get::<u8>(), Some(&1));
    assert_eq!(set.len(), 1);
}

#[test]
fn get_mut_leaves_other_types() {
    let mut set = ErasedSet::new();
    set.insert(1u8);
    set.insert(vec![1u32, 2]);
    set.get_mut::<Vec<u32>>().unwrap().push(3);
    assert_eq!(set.get::<Vec<u32>>(), Some(&vec![1, 2, 3]));
    assert_eq!(set.get::<u8>(), Some(&1));
}

#[test]
fn insert_returns_previous() {
    let mut set = ErasedSet::new();
    assert_eq!(set.insert("a"), None);
    assert_eq!(set.insert("b"), Some("a"));
}

#[test]
fn remove_returns_value() {
    let mut set = ErasedSet::new();
    set.insert("a");
    assert_eq!(set.remove::<&str>(), Some("a"));
    assert_eq!(set.remove::<&str>(), None);
}

#[test]
fn type_isolation() {
    let mut set = ErasedSet::new();
    set.insert(5u16);
    assert!(!set.contains::<u32>());
    assert_eq!(set.insert(6u32), None);
    assert!(set.contains::<u16>());
    assert_eq!(set.get::<u16>(), Some(&5));
    assert_eq!(set.insert(7u32), Some(6));
    assert_eq!(set.get::<u16>(), Some(&5));
    assert_eq!(set.remove::<u32>(), Some(7));
    assert_eq!(set.get::<u16>(), Some(&5));
    assert!(!set.contains::<i16>());
    assert_eq!(set.get::<i16>(), None);
}

#[test]
fn wrapped_and_bare_types_are_distinct() {
    let mut set = ErasedSet::new();
    set.insert(1u8);
    set.insert(Box::new(2u8));
    set.insert(Some(3u8));
    set.insert(&4u8);
    set.insert((5u8,));
    assert_eq!(set.len(), 5);
    assert_eq!(set.get::<u8>(), Some(&1));
    assert_eq!(set.get::<Box<u8>>(), Some(&Box::new(2)));
    assert_eq!(set.get::<Option<u8>>(), Some(&Some(3)));
    assert_eq!(set.get::<&u8>(), Some(&&4));
    assert_eq!(set.get::<(u8,)>(), Some(&(5,)));
    assert_eq!(set.get::<i8>(), None);
}

#[test]
fn insert_replace_law() {
    let mut set = ErasedSet::new();
    set.insert(String::from("first"));
    assert_eq!(set.insert(String::from("second")), Some(String::from("first")));
    assert_eq!(set.get::<String>(), Some(&String::from("second")));
}

#[test]
fn round_trip() {
    let mut set = ErasedSet::new();
    set.insert(ClickEvent(1, 2));
    assert_eq!(set.get::<ClickEvent>(), Some(&ClickEvent(1, 2)));
    assert_eq!(set.remove::<ClickEvent>(), Some(ClickEvent(1, 2)));
    assert!(!set.contains::<ClickEvent>());
    assert_eq!(set.get::<ClickEvent>(), None);
    assert!(set.is_empty());
}

#[test]
fn length_invariants() {
    let mut set = ErasedSet::new();
    set.insert(1u8);
    assert_eq!(set.len(), 1);
    set.insert(2u16);
    assert_eq!(set.len(), 2);
    set.insert(3u8);
    assert_eq!(set.len(), 2);
    assert_eq!(set.remove::<u8>(), Some(3));
    assert_eq!(set.len(), 1);
    assert_eq!(set.remove::<u8>(), None);
    assert_eq!(set.len(), 1);
    set.clear();
    assert_eq!(set.len(), 0);
}

#[test]
fn scenario_four_types() {
    let mut set = ErasedSet::new();
    set.insert(10u8);
    set.insert(20u16);
    set.insert(true);
    set.insert("a");
    assert_eq!(set.len(), 4);
    assert!(set.contains::<bool>());
    assert_eq!(set.get::<&str>(), Some(&"a"));
    assert_eq!(set.insert(50u8), Some(10));
    assert_eq!(set.remove::<u16>(), Some(20));
    assert_eq!(set.len(), 3);
    assert_eq!(set.get::<u8>(), Some(&50));
    assert_eq!(set.get::<bool>(), Some(&true));
}

#[test]
fn scenario_empty() {
    let mut set = ErasedSet::new();
    assert_eq!(set.len(), 0);
    assert!(set.is_empty());
    assert_eq!(set.get::<i32>(), None);
    assert_eq!(set.remove::<i32>(), None);
    assert!(set.get_mut::<i32>().is_none());
    assert!(!set.contains::<i32>());
    assert!(set.type_ids().is_empty());
}

#[test]
fn type_ids_lists_each_type_once() {
    let mut set = ErasedSet::new();
    set.insert(1u8);
    set.insert("a");
    set.insert(2u8);
    let ids = set.type_ids();
    assert_eq!(ids.len(), 2);
    assert!(ids.contains(&TypeId::of::<u8>()));
    assert!(ids.contains(&TypeId::of::<&str>()));
    assert!(!ids.contains(&TypeId::of::<u16>()));
    set.remove::<u8>();
    assert_eq!(set.type_ids(), vec![TypeId::of::<&str>()]);
}

#[test]
fn many_types_survive_removals() {
    let mut set = ErasedSet::new();
    set.insert(1u8);
    set.insert(2u16);
    set.insert(3u32);
    set.insert(4u64);
    set.insert(5i8);
    assert_eq!(set.remove::<u32>(), Some(3));
    assert_eq!(set.remove::<u8>(), Some(1));
    assert_eq!(set.get::<u16>(), Some(&2));
    assert_eq!(set.get::<u64>(), Some(&4));
    assert_eq!(set.get::<i8>(), Some(&5));
    assert_eq!(set.len(), 3);
    assert_eq!(set.insert(6u8), None);
    assert_eq!(set.get::<u8>(), Some(&6));
    assert_eq!(set.len(), 4);
}

#[test]
fn values_are_dropped_once() {
    let token = Rc::new(());
    let mut set = ErasedSet::new();
    set.insert(Rc::clone(&token));
    assert_eq!(Rc::strong_count(&token), 2);
    let back = set.insert(Rc::clone(&token));
    assert_eq!(Rc::strong_count(&token), 3);
    drop(back);
    assert_eq!(Rc::strong_count(&token), 2);
    set.clear();
    assert_eq!(Rc::strong_count(&token), 1);
}

#[test]
fn plain_types_are_storable() {
    let mut set = ErasedSet::new();
    set.insert(());
    set.insert('c');
    set.insert(1usize);
    set.insert(-2isize);
    set.insert(3u128);
    set.insert(-4i128);
    set.insert(-5i64);
    set.insert([1u8, 2, 3]);
    set.insert((1u8, 'a'));
    set.insert((1u8, 'a', true));
    set.insert((1u8, 'a', true, String::from("d")));
    set.insert(Ok::<u8, String>(6));
    set.insert(Arc::new(7u8));
    set.insert(vec![Some(Box::new(8u8))]);
    assert_eq!(set.len(), 14);
    assert_eq!(set.get::<()>(), Some(&()));
    assert_eq!(set.get::<char>(), Some(&'c'));
    assert_eq!(set.get::<usize>(), Some(&1));
    assert_eq!(set.get::<isize>(), Some(&-2));
    assert_eq!(set.get::<u128>(), Some(&3));
    assert_eq!(set.get::<i128>(), Some(&-4));
    assert_eq!(set.get::<i64>(), Some(&-5));
    assert_eq!(set.get::<[u8; 3]>(), Some(&[1, 2, 3]));
    assert_eq!(set.get::<[u8; 2]>(), None);
    assert_eq!(set.get::<(u8, char)>(), Some(&(1, 'a')));
    assert_eq!(set.get::<(u8, char, bool)>(), Some(&(1, 'a', true)));
    assert_eq!(
        set.remove::<(u8, char, bool, String)>(),
        Some((1, 'a', true, String::from("d")))
    );
    assert_eq!(set.get::<Result<u8, String>>(), Some(&Ok(6)));
    assert_eq!(set.get::<Arc<u8>>(), Some(&Arc::new(7)));
    assert_eq!(set.get::<Vec<Option<Box<u8>>>>(), Some(&vec![Some(Box::new(8))]));
    assert_eq!(set.len(), 13);
}
