//! Log entries.

use vstd::prelude::*;

verus! {

/// One entry of the replicated log: the operation, its result, and the digest
/// of the entry before it.
#[derive(Debug, PartialEq, Eq)]
pub struct KvEntry {
    /// The operation.
    pub op_hash: u64,
    /// The result of executing it.
    pub result: Vec<u8>,
    /// SHA-256 of the previous entry; all zeros in the first entry.
    pub prev_hash: crate::message::Hash,
}

/// The value of a [`KvEntry`].
#[verifier::ext_equal]
pub struct EntryView {
    pub op_hash: u64,
    pub result: Seq<u8>,
    pub prev_hash: Seq<u8>,
}

impl View for KvEntry {
    type V = EntryView;

    open spec fn view(&self) -> EntryView {
        EntryView { op_hash: self.op_hash, result: self.result@, prev_hash: self.prev_hash@ }
    }
}

impl Clone for KvEntry {
    /// A copy with the same value.
    fn clone(&self) -> (r: Self)
        ensures
            r@ == self@,
    {
        let r = KvEntry {
            op_hash: self.op_hash,
            result: self.result.clone(),
            prev_hash: self.prev_hash,
        };
        assert(r@ =~= self@);
        r
    }
}

/// The entry that stands for operation `k` in a log rebuilt from an agreed
/// length alone: it has no result, and its predecessor digest repeats the low
/// byte of `k`.
pub open spec fn synthetic_entry(k: u64) -> EntryView {
    EntryView {
        op_hash: k,
        result: Seq::empty(),
        prev_hash: Seq::new(32, |i: int| (k % 256) as u8),
    }
}

/// Builds the synthetic entry of `k`.
pub fn make_synthetic_entry(k: u64) -> (r: KvEntry)
    ensures
        r@ == synthetic_entry(k),
{
    let low: u8 = (k % 256) as u8;
    let r = KvEntry { op_hash: k, result: Vec::new(), prev_hash: [low; 32] };
    assert(r@ =~= synthetic_entry(k));
    r
}

} // verus!
