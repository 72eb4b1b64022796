use shared_cell::{Shared, Store};
use std::any::Any;

#[test]
fn it_works() {
    let mut store = Store::new();
    let shared = Shared::new(&mut store, 12);

    assert_eq!(*shared.get(&store), 12);
}

#[test]
fn macro_works() {
    let mut store = Store::new();
    let a = Shared::new(&mut store, 12);
    let b = Shared::new(&mut store, 12);

    assert_eq!(a.type_id(), b.type_id());
    assert_eq!(*a.get(&store), *b.get(&store));
}

#[test]
fn use_count() {
    let mut store = Store::new();
    let a = Shared::new(&mut store, 12);
    let b = a.clone(&mut store);

    assert_eq!(a.use_count(&store), b.use_count(&store));
}

#[test]
fn storage_arrays() {
    let mut store: Store<&[i32]> = Store::new();
    let x = Shared::<&[i32]>::new(&mut store, &[1, 2, 3]);
    let y = Shared::of_ints(&mut store, &[1, 2, 3]);
    assert_eq!(x.type_id(), y.type_id());
}

#[test]
fn array_storage() {
    let mut store: Store<&[i32]> = Store::new();
    let x = Shared::<&[i32]>::new(&mut store, &[1, 2, 3]);
    let y = Shared::of_ints(&mut store, &[1, 2, 3]);
    assert_eq!(x.type_id(), y.type_id());
}

#[test]
fn example() {
    let mut store = Store::new();
    let data = [
        Shared::new(&mut store, 228),
        Shared::new(&mut store, 1337),
        Shared::new(&mut store, 177013),
    ];

    let mut work_zone = vec![
        Shared::new(&mut store, 0), // placeholder
        Shared::new(&mut store, 0), // placeholder
        Shared::new(&mut store, 0), // placeholder
    ];

    for item in data.iter() {
        work_zone.push(item.clone(&mut store));
    }

    for item in work_zone.iter() {
        *item.get_mut(&mut store) += 1;
        let v = *item.get(&store);
        item.set(&mut store, v + 1);
    }

    println!("{:?}", store);
    assert_eq!(*data[0].get(&store), 230);
    assert_eq!(*data[1].get(&store), 1339);
    assert_eq!(*data[2].get(&store), 177015);
    for item in work_zone.iter().take(3) {
        assert_eq!(*item.get(&store), 2);
    }
    for (i, item) in data.iter().enumerate() {
        assert!(*item == work_zone[i + 3]);
        assert_eq!(item.use_count(&store), 2);
    }
}

#[test]
fn new_reads_back_value() {
    let mut store = Store::new();
    let h = Shared::new(&mut store, String::from("hello"));
    assert_eq!(h.get(&store).as_str(), "hello");
    assert_eq!(h.use_count(&store), 1);
}

#[test]
fn clone_is_identity_equal_and_counts_two() {
    let mut store = Store::new();
    let h = Shared::new(&mut store, 7u64);
    let h2 = h.clone(&mut store);
    assert!(h == h2);
    assert_eq!(h.use_count(&store), 2);
    assert_eq!(h2.use_count(&store), 2);
}

#[test]
fn write_through_alias_is_visible() {
    let mut store = Store::new();
    let h1 = Shared::new(&mut store, 0);
    let h2 = h1.clone(&mut store);
    h2.set(&mut store, 5);
    assert_eq!(*h1.get(&store), 5);
}

#[test]
fn equal_values_are_not_identity_equal() {
    let mut store = Store::new();
    let a = Shared::new(&mut store, 12);
    let b = Shared::new(&mut store, 12);
    assert!(a != b);
    assert_eq!(*a.get(&store), *b.get(&store));
}

#[test]
fn default_handles_are_independent() {
    let mut store: Store<i64> = Store::new();
    let a = Shared::default(&mut store);
    let b = Shared::default(&mut store);
    assert!(a != b);
    assert_eq!(*a.get(&store), 0);
    a.set(&mut store, 9);
    assert_eq!(*a.get(&store), 9);
    assert_eq!(*b.get(&store), 0);
    assert_eq!(b.use_count(&store), 1);
}

#[test]
fn slice_helper_wraps_the_values() {
    let mut store: Store<&[i32]> = Store::new();
    let x = Shared::of_ints(&mut store, &[1, 2, 3]);
    assert_eq!(*x.get(&store), &[1, 2, 3][..]);
}

#[test]
fn release_drops_value_with_last_handle() {
    let mut store = Store::new();
    let a = Shared::new(&mut store, 3);
    let b = a.clone(&mut store);
    let c = Shared::new(&mut store, 4);
    b.release(&mut store);
    assert_eq!(a.use_count(&store), 1);
    assert_eq!(*a.get(&store), 3);
    a.release(&mut store);
    assert_eq!(c.use_count(&store), 1);
    assert_eq!(*c.get(&store), 4);
}

#[test]
fn mutable_view_writes_through_aliases() {
    let mut store = Store::new();
    let a = Shared::new(&mut store, vec![1u8]);
    let b = a.clone(&mut store);
    let c = Shared::new(&mut store, vec![1u8]);
    b.get_mut(&mut store).push(2);
    assert_eq!(*a.get(&store), vec![1u8, 2]);
    assert_eq!(*c.get(&store), vec![1u8]);
}

#[test]
fn default_string_handle_is_empty() {
    let mut store: Store<String> = Store::new();
    let a = Shared::default(&mut store);
    let b = Shared::default(&mut store);
    a.set(&mut store, String::from("x"));
    assert_eq!(*b.get(&store), String::new());
    assert_eq!(a.get(&store).as_str(), "x");
}
