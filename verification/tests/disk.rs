//! The layout of a log in a key-value database.

use std::collections::BTreeMap;

use raspen::codec::{encode_entry, encode_hash, encode_u64, entry_hash};
use raspen::disk::{
    entry_key, meta_hash, meta_u64, plan_put, plan_rebuild, stored_entry, stored_hash, stored_size,
    stored_top_hash, DiskWrite,
};
use raspen::{KvEntry, KvStoreOps, MemKvStore, StoreError};

fn entry(op_hash: u64, prev: u8) -> KvEntry {
    KvEntry { op_hash, result: vec![prev], prev_hash: [prev; 32] }
}

/// A database in memory.
#[derive(Default)]
struct Database {
    entries: BTreeMap<[u8; 8], Vec<u8>>,
    size: Option<Vec<u8>>,
}

impl Database {
    fn write(&mut self, writes: Vec<DiskWrite>) {
        for w in writes {
            match w {
                DiskWrite::Entry { key, value } => {
                    self.entries.insert(key, value);
                }
                DiskWrite::Size { value } => self.size = Some(value),
            }
        }
    }

    fn size(&self) -> u64 {
        stored_size(self.size.as_deref())
    }

    fn put(&mut self, idx: u64, e: &KvEntry) {
        self.write(plan_put(idx, e, self.size()).unwrap());
    }

    fn cell(&self, idx: u64) -> Option<&[u8]> {
        self.entries.get(&entry_key(idx)).map(|v| v.as_slice())
    }

    fn last(&self) -> Option<&[u8]> {
        self.entries.values().next_back().map(|v| v.as_slice())
    }
}

#[test]
fn keys_are_big_endian() {
    assert_eq!(entry_key(0), [0; 8]);
    assert_eq!(entry_key(0x0102_0304_0506_0708), [1, 2, 3, 4, 5, 6, 7, 8]);
    assert_eq!(entry_key(u64::MAX), [255; 8]);
}

#[test]
fn keys_are_ordered_like_indices() {
    let indices = [0, 1, 255, 256, 257, 65535, 65536, 1 << 32, (1 << 56) - 1, 1 << 56, u64::MAX];
    for a in indices {
        for b in indices {
            assert_eq!(entry_key(a) < entry_key(b), a < b);
            assert_eq!(entry_key(a) == entry_key(b), a == b);
        }
    }
}

#[test]
fn put_writes_the_size_where_it_grows() {
    let e = entry(5, 6);
    let value = encode_entry(&e).unwrap();
    let writes = plan_put(3, &e, 2).unwrap();
    assert_eq!(writes.len(), 2);
    assert!(matches!(&writes[0], DiskWrite::Entry { key, value: v }
        if *key == entry_key(3) && *v == value));
    assert!(matches!(&writes[1], DiskWrite::Size { value } if *value == encode_u64(4)));

    let writes = plan_put(3, &e, 4).unwrap();
    assert_eq!(writes.len(), 1);
    assert!(matches!(&writes[0], DiskWrite::Entry { key, .. } if *key == entry_key(3)));
}

#[test]
fn rebuild_writes_entries_and_size() {
    let writes = plan_rebuild(&vec![(4, entry(1, 1)), (0, entry(2, 2))]).unwrap();
    assert_eq!(writes.len(), 3);
    assert!(matches!(&writes[0], DiskWrite::Entry { key, .. } if *key == entry_key(4)));
    assert!(matches!(&writes[1], DiskWrite::Entry { key, .. } if *key == entry_key(0)));
    assert!(matches!(&writes[2], DiskWrite::Size { value } if *value == encode_u64(5)));

    let writes = plan_rebuild(&vec![]).unwrap();
    assert_eq!(writes.len(), 1);
    assert!(matches!(&writes[0], DiskWrite::Size { value } if *value == encode_u64(0)));
}

#[test]
fn database_behaves_like_the_store_in_memory() {
    let mut database = Database::default();
    let mut store = MemKvStore::new();
    for (idx, e) in [(0, entry(1, 7)), (3, entry(2, 8)), (300, entry(3, 9)), (3, entry(4, 10))] {
        database.put(idx, &e);
        store.put(idx, &e).unwrap();
        assert_eq!(database.size(), store.size());
        assert_eq!(stored_top_hash(database.last()), store.top_hash());
    }
    for idx in [0, 1, 3, 299, 300, 301] {
        assert_eq!(stored_entry(database.cell(idx)), store.get(idx));
        assert_eq!(stored_hash(idx, database.cell(idx)), store.hash_at(idx));
    }

    let entries = vec![(2, entry(20, 1)), (1, entry(21, 2)), (2, entry(22, 3))];
    database.entries.clear();
    database.write(plan_rebuild(&entries).unwrap());
    store.rebuild_from_entries(entries).unwrap();
    assert_eq!(database.size(), 3);
    assert_eq!(store.size(), 3);
    for idx in 0..4 {
        assert_eq!(stored_entry(database.cell(idx)), store.get(idx));
    }
    assert_eq!(stored_top_hash(database.last()), [3; 32]);
}

#[test]
fn cells_that_were_never_written_are_zero() {
    assert_eq!(meta_u64(None), Ok(0));
    assert_eq!(meta_hash(None), Ok([0; 32]));
    assert_eq!(stored_size(None), 0);
    assert_eq!(stored_top_hash(None), [0; 32]);
    assert_eq!(stored_entry(None), Ok(None));
    assert_eq!(stored_hash(9, None), Err(StoreError::NoEntry { idx: 9 }));
}

#[test]
fn cells_are_read() {
    assert_eq!(meta_u64(Some(&encode_u64(70000))), Ok(70000));
    assert_eq!(meta_hash(Some(&encode_hash(&[0xCD; 32]))), Ok([0xCD; 32]));
    let e = entry(77, 0x11);
    let cell = encode_entry(&e).unwrap();
    assert_eq!(stored_hash(9, Some(&cell)), entry_hash(&e));
    assert_eq!(stored_top_hash(Some(&cell)), [0x11; 32]);
}

#[test]
fn cells_that_cannot_be_read() {
    assert_eq!(meta_u64(Some(&[255])), Err(StoreError::Malformed));
    assert_eq!(meta_hash(Some(&[1, 2])), Err(StoreError::Malformed));
    assert_eq!(stored_size(Some(&[255])), 0);
    assert_eq!(stored_top_hash(Some(&[1])), [0; 32]);
    assert_eq!(stored_entry(Some(&[1])), Err(StoreError::Malformed));
    assert_eq!(stored_hash(9, Some(&[1])), Err(StoreError::Malformed));
}
