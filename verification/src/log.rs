//! The mathematical log: a finite map from indices to entries.

use vstd::prelude::*;

use crate::codec::{entry_digest, storable};
use crate::entry::{synthetic_entry, EntryView};
use crate::message::zero_hash;

verus! {

/// Whether `k` is the highest index of the log.
pub open spec fn is_top(log: Map<u64, EntryView>, k: u64) -> bool {
    &&& log.contains_key(k)
    &&& forall|j: u64| #[trigger] log.contains_key(j) ==> j <= k
}

/// The highest index of the log, if there is one.
pub open spec fn top_index(log: Map<u64, EntryView>) -> Option<u64> {
    if exists|k: u64| is_top(log, k) {
        Some(choose|k: u64| is_top(log, k))
    } else {
        None
    }
}

/// The size of the log: its highest index and one more, or zero.
pub open spec fn log_size(log: Map<u64, EntryView>) -> nat {
    match top_index(log) {
        Some(k) => k as nat + 1,
        None => 0,
    }
}

/// The hash that a log is compared by: the predecessor digest that its last
/// entry holds, or zeros where there is no entry.
pub open spec fn top_hash(log: Map<u64, EntryView>) -> Seq<u8> {
    match top_index(log) {
        Some(k) => log[k].prev_hash,
        None => zero_hash(),
    }
}

/// The digest of the entry at `idx`, if there is one that can be hashed.
pub open spec fn digest_at(log: Map<u64, EntryView>, idx: u64) -> Option<Seq<u8>> {
    if log.contains_key(idx) && storable(log[idx].result.len()) {
        Some(entry_digest(log[idx]))
    } else {
        None
    }
}

/// The digest of the entry at `idx`, or zeros.
pub open spec fn digest_or_zero(log: Map<u64, EntryView>, idx: u64) -> Seq<u8> {
    match digest_at(log, idx) {
        Some(h) => h,
        None => zero_hash(),
    }
}

/// The log that a list of entries makes: of two entries at one index the later
/// one stays.
pub open spec fn log_of(entries: Seq<(u64, EntryView)>) -> Map<u64, EntryView>
    decreases entries.len(),
{
    if entries.len() == 0 {
        Map::empty()
    } else {
        log_of(entries.drop_last()).insert(entries.last().0, entries.last().1)
    }
}

/// The log of synthetic entries at the indices below `n`.
pub open spec fn synthetic_log(n: nat) -> Map<u64, EntryView> {
    Map::new(|k: u64| k < n, |k: u64| synthetic_entry(k))
}

/// The log holds an entry at every index below `size`, and at no other.
pub open spec fn dense(log: Map<u64, EntryView>, size: u64) -> bool {
    forall|k: u64| #[trigger] log.contains_key(k) <==> k < size
}

/// Every entry below `size` but the first holds the digest of the one before
/// it, and the first holds zeros.
pub open spec fn chained(log: Map<u64, EntryView>, size: u64) -> bool {
    forall|k: u64|
        k < size ==> (#[trigger] log[k]).prev_hash == (if k == 0 {
            zero_hash()
        } else {
            entry_digest(log[(k - 1) as u64])
        })
}

/// A log has one highest index.
pub proof fn lemma_top_index(log: Map<u64, EntryView>, k: u64)
    requires
        is_top(log, k),
    ensures
        top_index(log) == Some(k),
        log_size(log) == k + 1,
        top_hash(log) == log[k].prev_hash,
{
    let t = choose|t: u64| is_top(log, t);
    assert(is_top(log, t));
    assert(log.contains_key(t) && log.contains_key(k));
}

/// The empty log has no highest index.
pub proof fn lemma_empty_log(log: Map<u64, EntryView>)
    requires
        forall|k: u64| !#[trigger] log.contains_key(k),
    ensures
        top_index(log) is None,
        log_size(log) == 0,
        top_hash(log) == zero_hash(),
{
    if exists|k: u64| is_top(log, k) {
        let k = choose|k: u64| is_top(log, k);
        assert(log.contains_key(k));
    }
}

/// A dense log has the size that it is dense up to.
pub proof fn lemma_dense_size(log: Map<u64, EntryView>, size: u64)
    requires
        dense(log, size),
    ensures
        log_size(log) == size,
{
    if size == 0 {
        lemma_empty_log(log);
    } else {
        let k = (size - 1) as u64;
        assert(log.contains_key(k));
        lemma_top_index(log, k);
    }
}

/// A log that is not empty has a highest index.
pub proof fn lemma_has_top(log: Map<u64, EntryView>, bound: nat)
    requires
        forall|j: u64| #[trigger] log.contains_key(j) ==> j < bound,
        bound <= u64::MAX + 1,
    ensures
        (exists|k: u64| is_top(log, k)) || forall|k: u64| !#[trigger] log.contains_key(k),
    decreases bound,
{
    if bound > 0 {
        let last = (bound - 1) as u64;
        if log.contains_key(last) {
            assert(is_top(log, last));
        } else {
            lemma_has_top(log, (bound - 1) as nat);
        }
    }
}

/// Writing an entry makes the log as long as the entry needs, and never
/// shorter.
pub proof fn law_put_size(log: Map<u64, EntryView>, idx: u64, e: EntryView)
    ensures
        log_size(log.insert(idx, e)) == (if idx + 1 > log_size(log) {
            (idx + 1) as nat
        } else {
            log_size(log)
        }),
{
    lemma_has_top(log, u64::MAX as nat + 1);
    let after = log.insert(idx, e);
    if exists|k: u64| is_top(log, k) {
        let k = choose|k: u64| is_top(log, k);
        lemma_top_index(log, k);
        if idx > k {
            assert(is_top(after, idx));
            lemma_top_index(after, idx);
        } else {
            assert(is_top(after, k));
            lemma_top_index(after, k);
        }
    } else {
        lemma_empty_log(log);
        assert(is_top(after, idx));
        lemma_top_index(after, idx);
    }
}

/// Writing at the top or past it decides the hash of the log; writing below it
/// does not change it.
pub proof fn law_put_top_hash(log: Map<u64, EntryView>, idx: u64, e: EntryView)
    ensures
        top_hash(log.insert(idx, e)) == (if idx + 1 >= log_size(log) {
            e.prev_hash
        } else {
            top_hash(log)
        }),
{
    lemma_has_top(log, u64::MAX as nat + 1);
    let after = log.insert(idx, e);
    if exists|k: u64| is_top(log, k) {
        let k = choose|k: u64| is_top(log, k);
        lemma_top_index(log, k);
        if idx >= k {
            assert(is_top(after, idx));
            lemma_top_index(after, idx);
        } else {
            assert(is_top(after, k));
            lemma_top_index(after, k);
        }
    } else {
        lemma_empty_log(log);
        assert(is_top(after, idx));
        lemma_top_index(after, idx);
    }
}

/// A read gives back the last write at its index, and is not disturbed by
/// writes at others.
pub proof fn law_read_after_write(log: Map<u64, EntryView>, idx: u64, e: EntryView, other: u64)
    ensures
        log.insert(idx, e).contains_key(idx),
        log.insert(idx, e)[idx] == e,
        other != idx ==> (log.insert(idx, e).contains_key(other) <==> log.contains_key(other)),
        other != idx && log.contains_key(other) ==> log.insert(idx, e)[other] == log[other],
{
}

/// A rebuilt log holds what it was rebuilt from and nothing else: an entry is
/// there where one was given, and of several at one index it is the last.
pub proof fn law_rebuilt_log(entries: Seq<(u64, EntryView)>, idx: u64)
    ensures
        log_of(entries).contains_key(idx) <==> exists|i: int|
            0 <= i < entries.len() && (#[trigger] entries[i]).0 == idx,
        forall|i: int|
            0 <= i < entries.len() && (#[trigger] entries[i]).0 == idx && (forall|j: int|
                i < j < entries.len() ==> (#[trigger] entries[j]).0 != idx) ==> log_of(
                entries,
            )[idx] == entries[i].1,
    decreases entries.len(),
{
    if entries.len() > 0 {
        let rest = entries.drop_last();
        let last = entries.len() - 1;
        law_rebuilt_log(rest, idx);
        assert(forall|i: int| 0 <= i < last ==> rest[i] == #[trigger] entries[i]);
        if entries[last].0 == idx {
            assert(log_of(entries).contains_key(idx));
        } else {
            assert(log_of(entries).contains_key(idx) == log_of(rest).contains_key(idx));
            if log_of(rest).contains_key(idx) {
                let i = choose|i: int| 0 <= i < rest.len() && (#[trigger] rest[i]).0 == idx;
                assert(entries[i].0 == idx);
            }
            assert forall|i: int|
                0 <= i < entries.len() && (#[trigger] entries[i]).0 == idx && (forall|j: int|
                    i < j < entries.len() ==> (#[trigger] entries[j]).0 != idx) implies log_of(
                entries,
            )[idx] == entries[i].1 by {
                assert(i < last);
                assert(rest[i].0 == idx);
                assert(forall|j: int| i < j < rest.len() ==> (#[trigger] rest[j]).0 != idx);
            }
        }
    }
}

/// A log of synthetic entries has the length that it was made with.
pub proof fn law_synthetic_size(n: nat)
    requires
        n <= u64::MAX,
    ensures
        dense(synthetic_log(n), n as u64),
        log_size(synthetic_log(n)) == n,
{
    lemma_dense_size(synthetic_log(n), n as u64);
}

} // verus!
