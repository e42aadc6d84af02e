use db::bytes::{copy_bytes, same_bytes};
use db::{InMemoryDBStruct, InMemoryDBTrait};

#[test]
fn test_in_memory_db_get() {
    let mut in_memory_db = InMemoryDBStruct::new(true);
    in_memory_db
        .insert(b"test-key".to_vec(), b"test-value".to_vec())
        .unwrap();
    let value = in_memory_db.get(b"test-key").unwrap().unwrap();

    assert_eq!(value, b"test-value");
}

#[test]
fn light_store_forgets_removed_key() {
    let mut store = InMemoryDBStruct::new(true);
    store.insert(b"test-key".to_vec(), b"test-value".to_vec()).unwrap();
    assert_eq!(store.get(b"test-key").unwrap(), Some(b"test-value".to_vec()));
    store.remove(b"test-key").unwrap();
    assert_eq!(store.get(b"test-key").unwrap(), None);
    assert!(!store.contains(b"test-key").unwrap());
}

#[test]
fn store_outside_light_mode_keeps_removed_key() {
    let mut store = InMemoryDBStruct::new(false);
    store.insert(b"k".to_vec(), b"v1".to_vec()).unwrap();
    store.remove(b"k").unwrap();
    assert_eq!(store.get(b"k").unwrap(), Some(b"v1".to_vec()));
    assert!(store.contains(b"k").unwrap());
}

#[test]
fn insert_then_get_and_contains() {
    for light in [true, false] {
        let mut store = InMemoryDBStruct::new(light);
        store.insert(vec![0, 1, 2], vec![9, 8]).unwrap();
        assert_eq!(store.get(&[0, 1, 2]).unwrap(), Some(vec![9, 8]));
        assert!(store.contains(&[0, 1, 2]).unwrap());
    }
}

#[test]
fn second_insert_overwrites_first() {
    let mut store = InMemoryDBStruct::new(true);
    store.insert(b"k".to_vec(), b"v1".to_vec()).unwrap();
    store.insert(b"k".to_vec(), b"v2".to_vec()).unwrap();
    assert_eq!(store.get(b"k").unwrap(), Some(b"v2".to_vec()));
    store.remove(b"k").unwrap();
    assert_eq!(store.get(b"k").unwrap(), None);
}

#[test]
fn key_never_inserted_is_absent() {
    let mut store = InMemoryDBStruct::new(false);
    assert_eq!(store.get(b"missing").unwrap(), None);
    assert!(!store.contains(b"missing").unwrap());
    store.insert(b"other".to_vec(), b"x".to_vec()).unwrap();
    store.insert(b"missin".to_vec(), b"x".to_vec()).unwrap();
    store.insert(b"missing!".to_vec(), b"x".to_vec()).unwrap();
    assert_eq!(store.get(b"missing").unwrap(), None);
    assert!(!store.contains(b"missing").unwrap());
}

#[test]
fn empty_key_and_empty_value() {
    let mut store = InMemoryDBStruct::new(true);
    assert!(!store.contains(b"").unwrap());
    store.insert(Vec::new(), Vec::new()).unwrap();
    assert_eq!(store.get(b"").unwrap(), Some(Vec::new()));
    assert!(store.contains(b"").unwrap());
    assert!(!store.contains(b"a").unwrap());
    store.remove(b"").unwrap();
    assert!(!store.contains(b"").unwrap());
}

#[test]
fn remove_of_absent_key_changes_nothing() {
    let mut store = InMemoryDBStruct::new(true);
    store.insert(b"a".to_vec(), b"1".to_vec()).unwrap();
    store.remove(b"b").unwrap();
    assert_eq!(store.get(b"a").unwrap(), Some(b"1".to_vec()));
    assert!(!store.contains(b"b").unwrap());
}

#[test]
fn removal_in_light_mode_keeps_other_keys() {
    let mut store = InMemoryDBStruct::new(true);
    store.insert(b"a".to_vec(), b"1".to_vec()).unwrap();
    store.insert(b"b".to_vec(), b"2".to_vec()).unwrap();
    store.insert(b"c".to_vec(), b"3".to_vec()).unwrap();
    store.remove(b"b").unwrap();
    assert_eq!(store.get(b"a").unwrap(), Some(b"1".to_vec()));
    assert_eq!(store.get(b"b").unwrap(), None);
    assert_eq!(store.get(b"c").unwrap(), Some(b"3".to_vec()));
    store.insert(b"b".to_vec(), b"4".to_vec()).unwrap();
    assert_eq!(store.get(b"b").unwrap(), Some(b"4".to_vec()));
}

#[test]
fn flush_changes_nothing() {
    let mut store = InMemoryDBStruct::new(true);
    store.flush().unwrap();
    store.insert(b"k".to_vec(), b"v".to_vec()).unwrap();
    store.flush().unwrap();
    assert_eq!(store.get(b"k").unwrap(), Some(b"v".to_vec()));
    assert!(store.contains(b"k").unwrap());
    store.remove(b"k").unwrap();
    store.flush().unwrap();
    assert_eq!(store.get(b"k").unwrap(), None);
}

#[test]
fn repeated_reads_agree_with_last_write() {
    let mut store = InMemoryDBStruct::new(false);
    store.insert(b"k".to_vec(), b"v".to_vec()).unwrap();
    for _ in 0..100 {
        assert_eq!(store.get(b"k").unwrap(), Some(b"v".to_vec()));
        assert!(store.contains(b"k").unwrap());
    }
}

#[test]
fn returned_value_is_an_independent_copy() {
    let mut store = InMemoryDBStruct::new(true);
    store.insert(b"k".to_vec(), b"v".to_vec()).unwrap();
    let mut got = store.get(b"k").unwrap().unwrap();
    got.push(b'!');
    assert_eq!(store.get(b"k").unwrap(), Some(b"v".to_vec()));
}

#[test]
fn light_flag_is_reported() {
    assert!(InMemoryDBStruct::new(true).light());
    assert!(!InMemoryDBStruct::new(false).light());
}

#[test]
fn byte_comparison_and_copy() {
    assert!(same_bytes(b"abc", b"abc"));
    assert!(!same_bytes(b"abc", b"abd"));
    assert!(!same_bytes(b"abc", b"ab"));
    assert!(same_bytes(b"", b""));
    assert_eq!(copy_bytes(b"xyz"), b"xyz".to_vec());
    assert_eq!(copy_bytes(b""), Vec::<u8>::new());
}
