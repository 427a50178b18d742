//! The log store.

use raspen::{KvEntry, KvStore, KvStoreOps};

fn open_temp() -> KvStore {
    KvStore::open("db").unwrap()
}

fn make_entry(op_hash: u64, result: u8, prev_hash: raspen::message::Hash) -> KvEntry {
    KvEntry {
        op_hash,
        result: vec![result],
        prev_hash,
    }
}

#[test]
fn test_put_and_get() {
    let mut store = open_temp();
    let entry = make_entry(42, 1, [0u8; 32]);
    store.put(0, &entry).unwrap();

    let got = store.get(0).unwrap().expect("entry should exist");
    assert_eq!(got.op_hash, 42);
    assert_eq!(got.result, vec![1u8]);
}

#[test]
fn test_get_missing() {
    let store = open_temp();
    assert!(store.get(99).unwrap().is_none());
}

#[test]
fn test_put_multiple_and_retrieve() {
    let mut store = open_temp();
    for i in 0u64..5 {
        let entry = make_entry(i * 10, i as u8, [i as u8; 32]);
        store.put(i, &entry).unwrap();
    }
    for i in 0u64..5 {
        let got = store.get(i).unwrap().unwrap();
        assert_eq!(got.op_hash, i * 10);
    }
}

#[test]
fn test_size_empty() {
    let store = open_temp();
    assert_eq!(store.size(), 0);
}

#[test]
fn test_size_after_puts() {
    let mut store = open_temp();
    let entry = make_entry(1, 0, [0u8; 32]);
    store.put(0, &entry).unwrap();
    assert_eq!(store.size(), 1);
    store.put(4, &entry).unwrap();
    assert_eq!(store.size(), 5);
}

#[test]
fn test_size_no_regression_on_overwrite() {
    let mut store = open_temp();
    let entry = make_entry(1, 0, [0u8; 32]);
    store.put(0, &entry).unwrap();
    store.put(1, &entry).unwrap();
    assert_eq!(store.size(), 2);
    store.put(0, &make_entry(99, 0, [0u8; 32])).unwrap();
    assert_eq!(store.size(), 2);
}

#[test]
fn test_top_hash_empty() {
    let store = open_temp();
    assert_eq!(store.top_hash(), [0u8; 32]);
}

#[test]
fn test_top_hash_returns_last_entry_prev_hash() {
    let mut store = open_temp();
    let prev = [0xABu8; 32];
    let entry0 = make_entry(1, 0, [0u8; 32]);
    let entry1 = make_entry(2, 0, prev);
    store.put(0, &entry0).unwrap();
    store.put(1, &entry1).unwrap();
    assert_eq!(store.top_hash(), prev);
}

#[test]
fn test_hash_at_deterministic() {
    let mut store = open_temp();
    let entry = make_entry(7, 3, [0u8; 32]);
    store.put(0, &entry).unwrap();

    let h1 = store.hash_at(0).unwrap();
    let h2 = store.hash_at(0).unwrap();
    assert_eq!(h1, h2);
    assert_ne!(h1, [0u8; 32]);
}

#[test]
fn test_hash_at_missing_returns_error() {
    let store = open_temp();
    assert!(store.hash_at(42).is_err());
}

#[test]
fn test_rebuild_clears_and_repopulates() {
    let mut store = open_temp();
    let e0 = make_entry(1, 0, [0u8; 32]);
    store.put(0, &e0).unwrap();
    store.put(1, &e0).unwrap();
    assert_eq!(store.size(), 2);

    let new_entries = vec![(0u64, make_entry(99, 5, [0xFFu8; 32]))];
    store.rebuild_from_entries(new_entries).unwrap();

    assert_eq!(store.size(), 1);
    let got = store.get(0).unwrap().unwrap();
    assert_eq!(got.op_hash, 99);
    assert!(store.get(1).unwrap().is_none());
}

#[test]
fn test_chkpt_idx_default_zero() {
    let store = open_temp();
    assert_eq!(store.get_chkpt_idx(), 0);
}

#[test]
fn test_chkpt_idx_roundtrip() {
    let mut store = open_temp();
    store.set_chkpt_idx(42);
    assert_eq!(store.get_chkpt_idx(), 42);
}

#[test]
fn test_chkpt_hash_roundtrip() {
    let mut store = open_temp();
    let h = [0xDEu8; 32];
    store.set_chkpt_hash(h);
    assert_eq!(store.get_chkpt_hash(), h);
}
