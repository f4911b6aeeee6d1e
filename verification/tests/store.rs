use witness_host::PreimageStore;

fn key_of(first: u8, last: u8) -> [u8; 32] {
    let mut key = [0u8; 32];
    key[0] = first;
    key[31] = last;
    key
}

#[test]
fn new_store_is_empty() {
    let store = PreimageStore::new();
    assert_eq!(store.len(), 0);
    assert!(store.is_empty());
    assert!(store.get(&[0u8; 32]).is_none());
    assert!(!store.contains_key(&[0u8; 32]));

    let store = PreimageStore::with_capacity(1000);
    assert_eq!(store.len(), 0);
    assert!(store.is_empty());
}

#[test]
fn inserted_value_is_found_under_its_key() {
    let mut store = PreimageStore::new();
    assert_eq!(store.insert(key_of(1, 0), vec![1, 2, 3]), None);
    assert_eq!(store.insert(key_of(2, 0), vec![]), None);
    assert_eq!(store.len(), 2);
    assert!(!store.is_empty());
    assert_eq!(store.get(&key_of(1, 0)), Some(&vec![1, 2, 3]));
    assert_eq!(store.get(&key_of(2, 0)), Some(&vec![]));
    assert!(store.get(&key_of(3, 0)).is_none());
    assert!(store.contains_key(&key_of(2, 0)));
    assert!(!store.contains_key(&key_of(3, 0)));
}

#[test]
fn inserting_again_replaces_and_returns_the_old_value() {
    let mut store = PreimageStore::new();
    assert_eq!(store.insert(key_of(9, 9), vec![1]), None);
    assert_eq!(store.insert(key_of(9, 9), vec![2, 2]), Some(vec![1]));
    assert_eq!(store.insert(key_of(9, 9), vec![3, 3, 3]), Some(vec![2, 2]));
    assert_eq!(store.len(), 1);
    assert_eq!(store.get(&key_of(9, 9)), Some(&vec![3, 3, 3]));
}

#[test]
fn keys_that_share_their_first_bytes_are_kept_apart() {
    let mut store = PreimageStore::new();
    for last in 0..50u8 {
        assert_eq!(store.insert(key_of(7, last), vec![last; 3]), None);
    }
    assert_eq!(store.len(), 50);
    for last in 0..50u8 {
        assert_eq!(store.get(&key_of(7, last)), Some(&vec![last; 3]));
    }
    assert!(store.get(&key_of(7, 50)).is_none());
    assert_eq!(store.insert(key_of(7, 20), vec![0xee]), Some(vec![20; 3]));
    assert_eq!(store.len(), 50);
    assert_eq!(store.get(&key_of(7, 20)), Some(&vec![0xee]));
    assert_eq!(store.get(&key_of(7, 19)), Some(&vec![19; 3]));
    assert_eq!(store.get(&key_of(7, 21)), Some(&vec![21; 3]));
    assert_eq!(store.get(&key_of(7, 49)), Some(&vec![49; 3]));
}

#[test]
fn keys_that_differ_in_one_of_the_first_bytes_are_kept_apart() {
    let mut store = PreimageStore::new();
    for position in 0..8usize {
        let mut key = [0u8; 32];
        key[position] = 1;
        assert_eq!(store.insert(key, vec![position as u8]), None);
    }
    assert_eq!(store.insert([0u8; 32], vec![0xff]), None);
    assert_eq!(store.len(), 9);
    for position in 0..8usize {
        let mut key = [0u8; 32];
        key[position] = 1;
        assert_eq!(store.get(&key), Some(&vec![position as u8]));
    }
    assert_eq!(store.get(&[0u8; 32]), Some(&vec![0xff]));
}

#[test]
fn many_entries_are_all_kept() {
    let mut store = PreimageStore::with_capacity(4);
    for n in 0..2000u32 {
        let mut key = [0u8; 32];
        key[..4].copy_from_slice(&n.to_le_bytes());
        key[28..].copy_from_slice(&n.to_be_bytes());
        assert_eq!(store.insert(key, n.to_le_bytes().to_vec()), None);
    }
    assert_eq!(store.len(), 2000);
    for n in 0..2000u32 {
        let mut key = [0u8; 32];
        key[..4].copy_from_slice(&n.to_le_bytes());
        key[28..].copy_from_slice(&n.to_be_bytes());
        assert_eq!(store.get(&key), Some(&n.to_le_bytes().to_vec()));
    }
}
