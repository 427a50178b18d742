//! The stored form of entries, and their digests.
//!
//! Entries and counters are stored in bincode's standard format: integers have
//! a variable length, a byte vector is preceded by its length, and a digest is
//! its 32 bytes. The digest of an entry is the SHA-256 of its stored form.

use sha2::{Digest, Sha256};
use vstd::prelude::*;

use crate::entry::{EntryView, KvEntry};
use crate::storage_error::StoreError;

verus! {

/// The `n` lowest bytes of `v`, least significant first.
pub open spec fn le_bytes(v: nat, n: nat) -> Seq<u8>
    decreases n,
{
    if n == 0 {
        Seq::empty()
    } else {
        seq![(v % 256) as u8] + le_bytes(v / 256, (n - 1) as nat)
    }
}

/// The number whose bytes, least significant first, are `s`.
pub open spec fn le_value(s: Seq<u8>) -> nat
    decreases s.len(),
{
    if s.len() == 0 {
        0
    } else {
        s[0] as nat + 256 * le_value(s.drop_first())
    }
}

/// A number in the variable-length format: one byte below 251, else a byte
/// that tells the width and the number in two, four or eight bytes.
pub open spec fn varint(v: u64) -> Seq<u8> {
    if v < 251 {
        seq![v as u8]
    } else if v < 0x1_0000 {
        seq![251u8] + le_bytes(v as nat, 2)
    } else if v < 0x1_0000_0000 {
        seq![252u8] + le_bytes(v as nat, 4)
    } else {
        seq![253u8] + le_bytes(v as nat, 8)
    }
}

/// Reads a number in the variable-length format from the front of `s`: its
/// value, and the number of bytes that it takes.
pub open spec fn read_varint(s: Seq<u8>) -> Option<(u64, nat)> {
    if s.len() >= 1 && s[0] < 251 {
        Some((s[0] as u64, 1))
    } else if s.len() >= 3 && s[0] == 251 {
        Some((le_value(s.subrange(1, 3)) as u64, 3))
    } else if s.len() >= 5 && s[0] == 252 {
        Some((le_value(s.subrange(1, 5)) as u64, 5))
    } else if s.len() >= 9 && s[0] == 253 {
        Some((le_value(s.subrange(1, 9)) as u64, 9))
    } else {
        None
    }
}

/// The stored form of an entry.
pub open spec fn entry_bytes(e: EntryView) -> Seq<u8> {
    varint(e.op_hash) + varint(e.result.len() as u64) + e.result + e.prev_hash
}

/// The two numbers at the front of a stored entry, which are the operation and
/// the length of the result, and the number of bytes that they take.
pub open spec fn read_head(s: Seq<u8>) -> Option<(u64, u64, nat)> {
    match read_varint(s) {
        Some((op_hash, used)) => match read_varint(s.skip(used as int)) {
            Some((len, more)) => Some((op_hash, len, used + more)),
            None => None,
        },
        None => None,
    }
}

/// Reads a stored entry from the front of `s`.
pub open spec fn read_entry(s: Seq<u8>) -> Option<EntryView> {
    match read_head(s) {
        Some((op_hash, len, start)) => if start + len + 32 <= s.len() {
            Some(
                EntryView {
                    op_hash,
                    result: s.subrange(start as int, start + len),
                    prev_hash: s.subrange(start + len, start + len + 32),
                },
            )
        } else {
            None
        },
        None => None,
    }
}

/// Reads a stored digest from the front of `s`.
pub open spec fn read_hash(s: Seq<u8>) -> Option<Seq<u8>> {
    if s.len() >= 32 {
        Some(s.take(32))
    } else {
        None
    }
}

/// Whether a result of `len` bytes leaves the stored form of its entry small
/// enough to be allocated and hashed.
pub open spec fn storable(len: nat) -> bool {
    &&& len + 50 <= isize::MAX
    &&& len + 50 < 0x2000_0000_0000_0000
}

/// The SHA-256 digest of `data`.
pub uninterp spec fn sha256(data: Seq<u8>) -> Seq<u8>;

/// The digest of an entry.
pub open spec fn entry_digest(e: EntryView) -> Seq<u8> {
    sha256(entry_bytes(e))
}

/// The error type of bincode's encoder.
#[verifier::external_type_specification]
#[verifier::external_body]
pub struct ExEncodeError(bincode::error::EncodeError);

/// The error type of bincode's decoder.
#[verifier::external_type_specification]
#[verifier::external_body]
pub struct ExDecodeError(bincode::error::DecodeError);

/// Calls `sha2::Sha256::digest`. The result is the digest of the bytes, which
/// is a function of them alone. The bit length of the data has to fit in 64
/// bits.
#[verifier::external_body]
fn sha256_digest(data: &[u8]) -> (r: crate::message::Hash)
    requires
        data@.len() < 0x2000_0000_0000_0000,
    ensures
        r@ == sha256(data@),
{
    Sha256::digest(data).into()
}

/// Calls `bincode::encode_to_vec` on the three fields of an entry, in order, in
/// the standard configuration. Writing to a vector does not fail, and the bytes
/// are those of the format. The bytes have to fit in one allocation.
#[verifier::external_body]
fn bincode_encode_entry(
    op_hash: u64,
    result: &Vec<u8>,
    prev_hash: &crate::message::Hash,
) -> (r: Result<Vec<u8>, bincode::error::EncodeError>)
    requires
        result@.len() + 50 <= isize::MAX,
    ensures
        r is Ok,
        r->Ok_0@ == entry_bytes((EntryView { op_hash, result: result@, prev_hash: prev_hash@ })),
{
    bincode::encode_to_vec((op_hash, result, prev_hash), bincode::config::standard())
}

/// Calls `bincode::encode_to_vec` on an integer, in the standard configuration.
/// Writing to a vector does not fail, and the bytes are those of the format.
#[verifier::external_body]
fn bincode_encode_u64(value: u64) -> (r: Result<Vec<u8>, bincode::error::EncodeError>)
    ensures
        r is Ok,
        r->Ok_0@ == varint(value),
{
    bincode::encode_to_vec(value, bincode::config::standard())
}

/// Calls `bincode::encode_to_vec` on a digest, in the standard configuration.
/// Writing to a vector does not fail, and an array of bytes is stored as it is.
#[verifier::external_body]
fn bincode_encode_hash(hash: &crate::message::Hash) -> (r: Result<
    Vec<u8>,
    bincode::error::EncodeError,
>)
    ensures
        r is Ok,
        r->Ok_0@ == hash@,
{
    bincode::encode_to_vec(hash, bincode::config::standard())
}

/// Calls `bincode::decode_from_slice` for the three fields of an entry, in the
/// standard configuration. It succeeds where the bytes begin with a stored
/// entry, and returns its fields. The decoder allocates the length that the
/// bytes give for the result before it reads the result, so that length may
/// not be more than there are bytes.
#[verifier::external_body]
fn bincode_decode_entry(bytes: &[u8]) -> (r: Result<
    ((u64, Vec<u8>, crate::message::Hash), usize),
    bincode::error::DecodeError,
>)
    requires
        read_head(bytes@) matches Some((_, len, _)) ==> len <= bytes@.len(),
    ensures
        match r {
            Ok((fields, _)) => read_entry(bytes@) == Some(
                EntryView { op_hash: fields.0, result: fields.1@, prev_hash: fields.2@ },
            ),
            Err(_) => read_entry(bytes@) is None,
        },
{
    bincode::decode_from_slice(bytes, bincode::config::standard())
}

/// Calls `bincode::decode_from_slice` for an integer, in the standard
/// configuration. It succeeds where the bytes begin with a number of the
/// format, and returns the number and how many bytes it takes.
#[verifier::external_body]
fn bincode_decode_u64(bytes: &[u8]) -> (r: Result<(u64, usize), bincode::error::DecodeError>)
    ensures
        match r {
            Ok((value, used)) => read_varint(bytes@) == Some((value, used as nat)),
            Err(_) => read_varint(bytes@) is None,
        },
{
    bincode::decode_from_slice(bytes, bincode::config::standard())
}

/// Calls `bincode::decode_from_slice` for a digest, in the standard
/// configuration. It succeeds where there are 32 bytes, and returns the first
/// 32.
#[verifier::external_body]
fn bincode_decode_hash(bytes: &[u8]) -> (r: Result<
    (crate::message::Hash, usize),
    bincode::error::DecodeError,
>)
    ensures
        match r {
            Ok((hash, _)) => read_hash(bytes@) == Some(hash@),
            Err(_) => read_hash(bytes@) is None,
        },
{
    bincode::decode_from_slice(bytes, bincode::config::standard())
}

/// Whether an entry with a result of `len` bytes can be stored.
pub fn is_storable(len: usize) -> (r: bool)
    ensures
        r == storable(len as nat),
{
    len <= (isize::MAX as usize) - 50 && (len as u64) < 0x2000_0000_0000_0000 - 50
}

/// The stored form of `entry`. It fails only on a result that is too large.
pub fn encode_entry(entry: &KvEntry) -> (r: Result<Vec<u8>, StoreError>)
    ensures
        match r {
            Ok(bytes) => storable(entry@.result.len()) && bytes@ == entry_bytes(entry@),
            Err(e) => !storable(entry@.result.len()) && e == StoreError::TooLarge,
        },
{
    if !is_storable(entry.result.len()) {
        return Err(StoreError::TooLarge);
    }
    match bincode_encode_entry(entry.op_hash, &entry.result, &entry.prev_hash) {
        Ok(bytes) => Ok(bytes),
        Err(_) => Err(StoreError::TooLarge),
    }
}

/// The stored form of an integer.
pub fn encode_u64(value: u64) -> (r: Vec<u8>)
    ensures
        r@ == varint(value),
{
    match bincode_encode_u64(value) {
        Ok(bytes) => bytes,
        Err(_) => Vec::new(),
    }
}

/// The stored form of a digest.
pub fn encode_hash(hash: &crate::message::Hash) -> (r: Vec<u8>)
    ensures
        r@ == hash@,
{
    match bincode_encode_hash(hash) {
        Ok(bytes) => bytes,
        Err(_) => Vec::new(),
    }
}

/// Reads a stored integer from the front of `bytes`.
pub fn decode_u64(bytes: &[u8]) -> (r: Result<u64, StoreError>)
    ensures
        match r {
            Ok(value) => read_varint(bytes@) matches Some((v, _)) && v == value,
            Err(e) => read_varint(bytes@) is None && e == StoreError::Malformed,
        },
{
    match bincode_decode_u64(bytes) {
        Ok((value, _)) => Ok(value),
        Err(_) => Err(StoreError::Malformed),
    }
}

/// Reads a stored digest from the front of `bytes`.
pub fn decode_hash(bytes: &[u8]) -> (r: Result<crate::message::Hash, StoreError>)
    ensures
        match r {
            Ok(hash) => read_hash(bytes@) == Some(hash@),
            Err(e) => read_hash(bytes@) is None && e == StoreError::Malformed,
        },
{
    match bincode_decode_hash(bytes) {
        Ok((hash, _)) => Ok(hash),
        Err(_) => Err(StoreError::Malformed),
    }
}

/// Reads a stored entry from the front of `bytes`.
pub fn decode_entry(bytes: &[u8]) -> (r: Result<KvEntry, StoreError>)
    ensures
        match r {
            Ok(entry) => read_entry(bytes@) == Some(entry@),
            Err(e) => read_entry(bytes@) is None && e == StoreError::Malformed,
        },
{
    let used: usize = match bincode_decode_u64(bytes) {
        Ok((_, used)) => used,
        Err(_) => {
            return Err(StoreError::Malformed);
        },
    };
    let rest = vstd::slice::slice_subrange(bytes, used, bytes.len());
    assert(rest@ =~= bytes@.skip(used as int));
    let len: u64 = match bincode_decode_u64(rest) {
        Ok((len, _)) => len,
        Err(_) => {
            return Err(StoreError::Malformed);
        },
    };
    if len > bytes.len() as u64 {
        return Err(StoreError::Malformed);
    }
    match bincode_decode_entry(bytes) {
        Ok((fields, _)) => Ok(
            KvEntry { op_hash: fields.0, result: fields.1, prev_hash: fields.2 },
        ),
        Err(_) => Err(StoreError::Malformed),
    }
}

/// The digest of `entry`. It fails only on a result that is too large.
pub fn entry_hash(entry: &KvEntry) -> (r: Result<crate::message::Hash, StoreError>)
    ensures
        match r {
            Ok(hash) => storable(entry@.result.len()) && hash@ == entry_digest(entry@),
            Err(e) => !storable(entry@.result.len()) && e == StoreError::TooLarge,
        },
{
    match encode_entry(entry) {
        Ok(bytes) => {
            proof {
                lemma_varint_len(entry.op_hash);
                lemma_varint_len(entry@.result.len() as u64);
            }
            Ok(sha256_digest(bytes.as_slice()))
        },
        Err(e) => Err(e),
    }
}

proof fn lemma_le_bytes_len(v: nat, n: nat)
    ensures
        le_bytes(v, n).len() == n,
    decreases n,
{
    if n > 0 {
        lemma_le_bytes_len(v / 256, (n - 1) as nat);
    }
}

proof fn lemma_le_value(v: nat, n: nat)
    requires
        v < vstd::arithmetic::power::pow(256, n),
    ensures
        le_value(le_bytes(v, n)) == v,
    decreases n,
{
    reveal(vstd::arithmetic::power::pow);
    lemma_le_bytes_len(v, n);
    if n > 0 {
        let m = (n - 1) as nat;
        let limit = vstd::arithmetic::power::pow(256, m);
        assert(vstd::arithmetic::power::pow(256, n) == 256 * limit);
        assert(v / 256 < limit);
        lemma_le_value(v / 256, m);
        assert(le_bytes(v, n).drop_first() =~= le_bytes(v / 256, m));
    }
}

proof fn lemma_varint_len(v: u64)
    ensures
        1 <= varint(v).len() <= 9,
{
    lemma_le_bytes_len(v as nat, 2);
    lemma_le_bytes_len(v as nat, 4);
    lemma_le_bytes_len(v as nat, 8);
}

/// Reading a stored number gives back the number, whatever follows it.
pub proof fn law_varint_round_trip(v: u64, rest: Seq<u8>)
    ensures
        read_varint(varint(v) + rest) == Some((v, varint(v).len())),
{
    assert(vstd::arithmetic::power::pow(256, 2) == 0x1_0000 && vstd::arithmetic::power::pow(256, 4)
        == 0x1_0000_0000 && vstd::arithmetic::power::pow(256, 8) == 0x1_0000_0000_0000_0000) by {
        reveal_with_fuel(vstd::arithmetic::power::pow, 9);
    }
    lemma_le_bytes_len(v as nat, 2);
    lemma_le_bytes_len(v as nat, 4);
    lemma_le_bytes_len(v as nat, 8);
    let s = varint(v) + rest;
    if v < 251 {
    } else if v < 0x1_0000 {
        lemma_le_value(v as nat, 2);
        assert(s.subrange(1, 3) =~= le_bytes(v as nat, 2));
    } else if v < 0x1_0000_0000 {
        lemma_le_value(v as nat, 4);
        assert(s.subrange(1, 5) =~= le_bytes(v as nat, 4));
    } else {
        lemma_le_value(v as nat, 8);
        assert(s.subrange(1, 9) =~= le_bytes(v as nat, 8));
    }
}

/// Reading a stored entry gives back the entry, whatever follows it.
pub proof fn law_entry_round_trip(e: EntryView, rest: Seq<u8>)
    requires
        e.prev_hash.len() == 32,
        e.result.len() <= u64::MAX,
    ensures
        read_entry(entry_bytes(e) + rest) == Some(e),
{
    let len = e.result.len() as u64;
    let s = entry_bytes(e) + rest;
    let after_op = varint(len) + e.result + e.prev_hash + rest;
    let after_len = e.result + e.prev_hash + rest;
    law_varint_round_trip(e.op_hash, after_op);
    law_varint_round_trip(len, after_len);
    let first = varint(e.op_hash).len();
    let start = first + varint(len).len();
    assert(s =~= varint(e.op_hash) + after_op);
    assert(s.skip(first as int) =~= varint(len) + after_len);
    assert(s.subrange(start as int, start + len) =~= e.result);
    assert(s.subrange(start + len, start + len + 32) =~= e.prev_hash);
}

/// Different entries have different stored forms, so the digest of an entry
/// covers all of it.
pub proof fn law_entry_bytes_injective(a: EntryView, b: EntryView)
    requires
        a.prev_hash.len() == 32,
        a.result.len() <= u64::MAX,
        b.prev_hash.len() == 32,
        b.result.len() <= u64::MAX,
        entry_bytes(a) == entry_bytes(b),
    ensures
        a == b,
{
    law_entry_round_trip(a, Seq::empty());
    law_entry_round_trip(b, Seq::empty());
}

/// Reading a stored digest gives back the digest, whatever follows it.
pub proof fn law_hash_round_trip(hash: Seq<u8>, rest: Seq<u8>)
    requires
        hash.len() == 32,
    ensures
        read_hash(hash + rest) == Some(hash),
{
    assert((hash + rest).take(32) =~= hash);
}

} // verus!
