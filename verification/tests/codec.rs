//! The stored form of entries, and their digests.

use raspen::codec::{
    decode_entry, decode_hash, decode_u64, encode_entry, encode_hash, encode_u64, entry_hash,
    is_storable,
};
use raspen::{KvEntry, StoreError};

fn entry(op_hash: u64, result: Vec<u8>, prev_hash: raspen::message::Hash) -> KvEntry {
    KvEntry { op_hash, result, prev_hash }
}

fn hex(bytes: &[u8]) -> String {
    bytes.iter().map(|b| format!("{b:02x}")).collect()
}

#[test]
fn integers_have_variable_length() {
    assert_eq!(encode_u64(0), vec![0]);
    assert_eq!(encode_u64(250), vec![250]);
    assert_eq!(encode_u64(251), vec![251, 251, 0]);
    assert_eq!(encode_u64(65535), vec![251, 255, 255]);
    assert_eq!(encode_u64(65536), vec![252, 0, 0, 1, 0]);
    assert_eq!(encode_u64(4294967295), vec![252, 255, 255, 255, 255]);
    assert_eq!(encode_u64(4294967296), vec![253, 0, 0, 0, 0, 1, 0, 0, 0]);
    assert_eq!(encode_u64(u64::MAX), vec![253, 255, 255, 255, 255, 255, 255, 255, 255]);
}

#[test]
fn integers_are_read_back() {
    for v in [0, 1, 250, 251, 65535, 65536, 4294967295, 4294967296, u64::MAX] {
        let mut bytes = encode_u64(v);
        assert_eq!(decode_u64(&bytes), Ok(v));
        bytes.push(77);
        assert_eq!(decode_u64(&bytes), Ok(v));
    }
}

#[test]
fn malformed_integers_are_refused() {
    assert_eq!(decode_u64(&[]), Err(StoreError::Malformed));
    assert_eq!(decode_u64(&[251, 1]), Err(StoreError::Malformed));
    assert_eq!(decode_u64(&[253, 1, 2, 3, 4, 5, 6, 7]), Err(StoreError::Malformed));
    assert_eq!(decode_u64(&[254, 0, 0, 0, 0, 0, 0, 0, 0, 0, 0, 0, 0, 0, 0, 0, 0]), Err(StoreError::Malformed));
    assert_eq!(decode_u64(&[255]), Err(StoreError::Malformed));
}

#[test]
fn digests_are_stored_as_they_are() {
    let mut hash = [0u8; 32];
    hash[0] = 1;
    hash[31] = 0xFE;
    assert_eq!(encode_hash(&hash), hash.to_vec());
    assert_eq!(decode_hash(&hash), Ok(hash));
    let mut longer = hash.to_vec();
    longer.push(9);
    assert_eq!(decode_hash(&longer), Ok(hash));
    assert_eq!(decode_hash(&hash[..31]), Err(StoreError::Malformed));
}

#[test]
fn entry_is_stored_field_by_field() {
    let e = entry(300, vec![9, 8], [0xAB; 32]);
    let bytes = encode_entry(&e).unwrap();
    let mut expected = vec![251, 44, 1, 2, 9, 8];
    expected.extend([0xAB; 32]);
    assert_eq!(bytes, expected);
    assert_eq!(decode_entry(&bytes), Ok(e));
}

#[test]
fn entries_are_read_back() {
    for (op_hash, len) in [(0, 0), (7, 1), (251, 250), (u64::MAX, 251), (65536, 70000)] {
        let e = entry(op_hash, vec![0x5A; len], [op_hash as u8; 32]);
        let mut bytes = encode_entry(&e).unwrap();
        assert_eq!(decode_entry(&bytes), Ok(e.clone()));
        bytes.extend([1, 2, 3]);
        assert_eq!(decode_entry(&bytes), Ok(e));
    }
}

#[test]
fn malformed_entries_are_refused() {
    let bytes = encode_entry(&entry(300, vec![9, 8], [0xAB; 32])).unwrap();
    for cut in 0..bytes.len() {
        assert_eq!(decode_entry(&bytes[..cut]), Err(StoreError::Malformed));
    }
    // A length that is larger than all there is.
    assert_eq!(
        decode_entry(&[0, 253, 255, 255, 255, 255, 255, 255, 255, 255, 1, 2, 3]),
        Err(StoreError::Malformed)
    );
}

#[test]
fn digest_of_an_entry_is_the_sha256_of_its_stored_form() {
    assert_eq!(
        hex(&entry_hash(&entry(0, vec![], [0; 32])).unwrap()),
        "eb142b0cae0baa72a767ebc0823d1be94e14c5bfc52d8e417fc4302fceb6240c"
    );
    assert_eq!(
        hex(&entry_hash(&entry(300, vec![9, 8], [0xAB; 32])).unwrap()),
        "71f51db2ba1405ccc66c38f98d56e399cd3daccfb810294e7f96286034ff1817"
    );
}

#[test]
fn different_entries_have_different_stored_forms() {
    let entries = [
        entry(0, vec![], [0; 32]),
        entry(1, vec![], [0; 32]),
        entry(0, vec![0], [0; 32]),
        entry(0, vec![], [1; 32]),
        entry(0, vec![0, 0], [0; 32]),
    ];
    for (i, a) in entries.iter().enumerate() {
        for (j, b) in entries.iter().enumerate() {
            assert_eq!(encode_entry(a) == encode_entry(b), i == j);
            assert_eq!(entry_hash(a) == entry_hash(b), i == j);
        }
    }
}

#[test]
fn results_are_bounded_by_what_can_be_allocated() {
    assert!(is_storable(0));
    assert!(is_storable(1 << 20));
    assert!(!is_storable(usize::MAX));
    assert!(!is_storable(isize::MAX as usize));
}
