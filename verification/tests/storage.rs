use smup_client::storage::{join, NullStorage, Storage, VecStorage};

#[test]
fn new_vec_storage_holds_nothing() {
    let store: VecStorage<u8> = VecStorage::new();
    assert_eq!(store.bound(), 0);
    assert!(!store.contains(0));
    assert_eq!(store.get(0), None);
    assert_eq!(store.get(17), None);
}

#[test]
fn vec_storage_insert_then_get() {
    let mut store: VecStorage<u8> = VecStorage::new();
    assert_eq!(store.insert(3, 30), None);
    assert_eq!(store.get(3), Some(&30));
    assert!(store.contains(3));
    assert!(!store.contains(0));
    assert!(!store.contains(2));
    assert!(!store.contains(4));
    assert_eq!(store.get(2), None);
    assert_eq!(store.bound(), 4);
}

#[test]
fn vec_storage_insert_returns_what_it_replaces() {
    let mut store: VecStorage<u8> = VecStorage::new();
    assert_eq!(store.insert(1, 10), None);
    assert_eq!(store.insert(1, 11), Some(10));
    assert_eq!(store.get(1), Some(&11));
    assert_eq!(store.bound(), 2);
}

#[test]
fn vec_storage_insert_below_the_bound_keeps_the_bound() {
    let mut store: VecStorage<u8> = VecStorage::new();
    store.insert(5, 50);
    store.insert(2, 20);
    assert_eq!(store.bound(), 6);
    assert_eq!(store.get(5), Some(&50));
    assert_eq!(store.get(2), Some(&20));
}

#[test]
fn null_storage_flags_single_ids() {
    let mut store = NullStorage::new();
    assert_eq!(store.bound(), 0);
    assert!(!store.contains(0));
    assert!(!store.insert(2));
    assert!(store.contains(2));
    assert!(!store.contains(0));
    assert!(!store.contains(1));
    assert!(!store.contains(3));
    assert!(store.insert(2));
    assert_eq!(store.bound(), 3);
}

#[test]
fn join_of_empty_stores_is_empty() {
    let a: VecStorage<u8> = VecStorage::new();
    let b = NullStorage::new();
    assert_eq!(join(&a, &b), Vec::<usize>::new());
}

#[test]
fn join_lists_common_ids_in_ascending_order() {
    let mut a: VecStorage<u8> = VecStorage::new();
    let mut b: VecStorage<u16> = VecStorage::new();
    for id in [6usize, 0, 4, 1] {
        a.insert(id, 1);
    }
    for id in [4usize, 9, 0, 6, 3] {
        b.insert(id, 2);
    }
    assert_eq!(join(&a, &b), vec![0, 4, 6]);
    assert_eq!(join(&b, &a), vec![0, 4, 6]);
}

#[test]
fn join_skips_ids_that_only_one_store_holds() {
    let mut a: VecStorage<u8> = VecStorage::new();
    let mut tags = NullStorage::new();
    a.insert(0, 1);
    a.insert(2, 1);
    tags.insert(1);
    tags.insert(3);
    assert_eq!(join(&a, &tags), Vec::<usize>::new());
    tags.insert(2);
    assert_eq!(join(&a, &tags), vec![2]);
}

#[test]
fn join_of_a_store_with_itself_lists_its_members() {
    let mut a: VecStorage<u8> = VecStorage::new();
    a.insert(1, 1);
    a.insert(5, 1);
    assert_eq!(join(&a, &a), vec![1, 5]);
}
