//! The layout of a log in an ordered key-value database.
//!
//! The default column family holds the entries: the key is the index in eight
//! bytes, most significant first, so that the order of the keys is the order of
//! the indices, and the value is the stored entry. The column family `meta`
//! holds the log size, the checkpoint index and the checkpoint hash.
//!
//! The functions here decide what is read out of the stored bytes and what is
//! written; the reads and writes themselves are left to the caller.

use vstd::prelude::*;

use crate::codec::{
    decode_entry, decode_hash, decode_u64, encode_entry, encode_u64, entry_bytes, entry_digest,
    entry_hash, law_entry_round_trip, law_varint_round_trip, read_entry, read_hash, read_varint,
    storable, varint,
};
use crate::entry::{EntryView, KvEntry};
use crate::log::{
    is_top, law_put_size, lemma_empty_log, lemma_has_top, lemma_top_index, log_of, log_size,
    top_hash,
};
use crate::message::{no_hash, zero_hash};
use crate::storage::entry_values;
use crate::storage_error::StoreError;

verus! {

/// The key of the entry at `idx`.
#[verifier::opaque]
pub open spec fn key_bytes(idx: u64) -> Seq<u8> {
    seq![
        (idx / 0x100_0000_0000_0000) as u8,
        (idx / 0x1_0000_0000_0000 % 256) as u8,
        (idx / 0x100_0000_0000 % 256) as u8,
        (idx / 0x1_0000_0000 % 256) as u8,
        (idx / 0x100_0000 % 256) as u8,
        (idx / 0x1_0000 % 256) as u8,
        (idx / 0x100 % 256) as u8,
        (idx % 256) as u8,
    ]
}

/// Whether key `a` comes before key `b`: they agree up to some byte, which is
/// smaller in `a`.
pub open spec fn key_before(a: Seq<u8>, b: Seq<u8>) -> bool {
    exists|i: int|
        0 <= i < a.len() && i < b.len() && #[trigger] a[i] < b[i] && a.take(i) == b.take(i)
}

/// The key of the entry at `idx`.
pub fn entry_key(idx: u64) -> (r: [u8; 8])
    ensures
        r@ == key_bytes(idx),
{
    let r: [u8; 8] = [
        (idx / 0x100_0000_0000_0000) as u8,
        (idx / 0x1_0000_0000_0000 % 256) as u8,
        (idx / 0x100_0000_0000 % 256) as u8,
        (idx / 0x1_0000_0000 % 256) as u8,
        (idx / 0x100_0000 % 256) as u8,
        (idx / 0x1_0000 % 256) as u8,
        (idx / 0x100 % 256) as u8,
        (idx % 256) as u8,
    ];
    assert(r@ =~= key_bytes(idx)) by {
        reveal(key_bytes);
    }
    r
}

/// A write to the database.
#[derive(Debug)]
pub enum DiskWrite {
    /// An entry, in the default column family.
    Entry { key: [u8; 8], value: Vec<u8> },
    /// The log size, in the column family `meta`.
    Size { value: Vec<u8> },
}

/// The value of a [`DiskWrite`].
pub enum WriteView {
    Entry { key: Seq<u8>, value: Seq<u8> },
    Size { value: Seq<u8> },
}

impl View for DiskWrite {
    type V = WriteView;

    open spec fn view(&self) -> WriteView {
        match *self {
            DiskWrite::Entry { key, value } => WriteView::Entry { key: key@, value: value@ },
            DiskWrite::Size { value } => WriteView::Size { value: value@ },
        }
    }
}

/// The values of a list of writes, in order.
pub open spec fn write_values(writes: Seq<DiskWrite>) -> Seq<WriteView> {
    writes.map_values(|w: DiskWrite| w@)
}

/// The part of the database that holds the log.
#[verifier::ext_equal]
pub struct DiskView {
    pub entries: Map<Seq<u8>, Seq<u8>>,
    pub size: Option<Seq<u8>>,
}

/// The database after one write.
pub open spec fn after_write(d: DiskView, w: WriteView) -> DiskView {
    match w {
        WriteView::Entry { key, value } => DiskView { entries: d.entries.insert(key, value), ..d },
        WriteView::Size { value } => DiskView { size: Some(value), ..d },
    }
}

/// The database after a batch of writes, in order.
pub open spec fn after_writes(d: DiskView, writes: Seq<WriteView>) -> DiskView
    decreases writes.len(),
{
    if writes.len() == 0 {
        d
    } else {
        after_write(after_writes(d, writes.drop_last()), writes.last())
    }
}

/// The stored log size; a size that was never written is zero.
pub open spec fn read_size(size: Option<Seq<u8>>) -> Option<u64> {
    match size {
        Some(bytes) => match read_varint(bytes) {
            Some((n, _)) => Some(n),
            None => None,
        },
        None => Some(0),
    }
}

/// The database holds exactly the given log, and its size.
pub open spec fn holds(d: DiskView, log: Map<u64, EntryView>) -> bool {
    &&& forall|key: Seq<u8>| #[trigger]
        d.entries.contains_key(key) ==> exists|idx: u64| #[trigger]
            log.contains_key(idx) && key_bytes(idx) == key
    &&& forall|idx: u64| #[trigger]
        log.contains_key(idx) ==> d.entries.contains_key(key_bytes(idx))
            && d.entries[key_bytes(idx)] == entry_bytes(log[idx])
    &&& read_size(d.size) == Some(log_size(log) as u64)
    &&& !log.contains_key(u64::MAX)
}

/// The integer in a cell of the column family `meta`; a cell that was never
/// written holds zero.
pub fn meta_u64(value: Option<&[u8]>) -> (r: Result<u64, StoreError>)
    ensures
        match r {
            Ok(n) => match value {
                Some(bytes) => read_varint(bytes@) matches Some((v, _)) && v == n,
                None => n == 0,
            },
            Err(e) => e == StoreError::Malformed && value is Some && read_varint(value->0@) is None,
        },
{
    match value {
        Some(bytes) => decode_u64(bytes),
        None => Ok(0),
    }
}

/// The digest in a cell of the column family `meta`; a cell that was never
/// written holds zeros.
pub fn meta_hash(value: Option<&[u8]>) -> (r: Result<crate::message::Hash, StoreError>)
    ensures
        match r {
            Ok(h) => match value {
                Some(bytes) => read_hash(bytes@) == Some(h@),
                None => h@ == zero_hash(),
            },
            Err(e) => e == StoreError::Malformed && value is Some && read_hash(value->0@) is None,
        },
{
    match value {
        Some(bytes) => decode_hash(bytes),
        None => Ok(no_hash()),
    }
}

/// The log size in its cell; zero where there is none that can be read.
pub fn stored_size(value: Option<&[u8]>) -> (r: u64)
    ensures
        r == (match value {
            Some(bytes) => match read_varint(bytes@) {
                Some((n, _)) => n,
                None => 0,
            },
            None => 0,
        }),
{
    match meta_u64(value) {
        Ok(n) => n,
        Err(_) => 0,
    }
}

/// The entry in a cell of the default column family.
pub fn stored_entry(value: Option<&[u8]>) -> (r: Result<Option<KvEntry>, StoreError>)
    ensures
        match r {
            Ok(Some(entry)) => value is Some && read_entry(value->0@) == Some(entry@),
            Ok(None) => value is None,
            Err(e) => e == StoreError::Malformed && value is Some && read_entry(value->0@) is None,
        },
{
    match value {
        Some(bytes) => match decode_entry(bytes) {
            Ok(entry) => Ok(Some(entry)),
            Err(e) => Err(e),
        },
        None => Ok(None),
    }
}

/// The hash that the log is compared by, given the cell with the highest key:
/// zeros where there is none that can be read.
pub fn stored_top_hash(last: Option<&[u8]>) -> (r: crate::message::Hash)
    ensures
        r@ == (match last {
            Some(bytes) => match read_entry(bytes@) {
                Some(entry) => entry.prev_hash,
                None => zero_hash(),
            },
            None => zero_hash(),
        }),
{
    match stored_entry(last) {
        Ok(Some(entry)) => entry.prev_hash,
        _ => no_hash(),
    }
}

/// The digest of the entry at `idx`, given its cell.
pub fn stored_hash(idx: u64, value: Option<&[u8]>) -> (r: Result<crate::message::Hash, StoreError>)
    ensures
        match r {
            Ok(h) => value is Some && (read_entry(value->0@) matches Some(entry) && storable(
                entry.result.len(),
            ) && h@ == entry_digest(entry)),
            Err(StoreError::NoEntry { idx: i }) => i == idx && value is None,
            Err(StoreError::Malformed) => value is Some && read_entry(value->0@) is None,
            Err(StoreError::TooLarge) => value is Some && (read_entry(value->0@) matches Some(entry)
                && !storable(entry.result.len())),
        },
{
    match stored_entry(value) {
        Ok(Some(entry)) => entry_hash(&entry),
        Ok(None) => Err(StoreError::NoEntry { idx }),
        Err(e) => Err(e),
    }
}

/// The writes that put `entry` at `idx` into a log of the given size.
pub open spec fn put_writes(idx: u64, entry: EntryView, size: u64) -> Seq<WriteView> {
    let write = WriteView::Entry { key: key_bytes(idx), value: entry_bytes(entry) };
    if idx >= size {
        seq![write, WriteView::Size { value: varint((idx + 1) as u64) }]
    } else {
        seq![write]
    }
}

/// The writes that put `entry` at `idx` into a log of the given size. The size
/// is written where it grows.
pub fn plan_put(idx: u64, entry: &KvEntry, size: u64) -> (r: Result<Vec<DiskWrite>, StoreError>)
    requires
        idx < u64::MAX,
    ensures
        match r {
            Ok(writes) => storable(entry@.result.len()) && write_values(writes@) == put_writes(
                idx,
                entry@,
                size,
            ),
            Err(e) => !storable(entry@.result.len()) && e == StoreError::TooLarge,
        },
{
    let value = encode_entry(entry)?;
    let mut writes: Vec<DiskWrite> = Vec::new();
    writes.push(DiskWrite::Entry { key: entry_key(idx), value });
    if idx >= size {
        writes.push(DiskWrite::Size { value: encode_u64(idx + 1) });
    }
    assert(write_values(writes@) =~= put_writes(idx, entry@, size));
    Ok(writes)
}

/// The size of a log of the given entries: one more than the highest index.
pub open spec fn entries_size(entries: Seq<(u64, EntryView)>) -> nat
    decreases entries.len(),
{
    if entries.len() == 0 {
        0
    } else {
        let rest = entries_size(entries.drop_last());
        let last = entries.last().0 as nat + 1;
        if last > rest {
            last
        } else {
            rest
        }
    }
}

/// The writes of the given entries.
pub open spec fn entry_writes(entries: Seq<(u64, EntryView)>) -> Seq<WriteView> {
    entries.map_values(
        |p: (u64, EntryView)| WriteView::Entry { key: key_bytes(p.0), value: entry_bytes(p.1) },
    )
}

/// The writes that fill an empty database with the given entries.
pub open spec fn rebuild_writes(entries: Seq<(u64, EntryView)>) -> Seq<WriteView> {
    entry_writes(entries).push(WriteView::Size { value: varint(entries_size(entries) as u64) })
}

/// The writes that fill an empty database with the given entries. It fails on an
/// entry that is too large.
pub fn plan_rebuild(entries: &Vec<(u64, KvEntry)>) -> (r: Result<Vec<DiskWrite>, StoreError>)
    requires
        forall|i: int| 0 <= i < entries@.len() ==> (#[trigger] entries@[i]).0 < u64::MAX,
    ensures
        match r {
            Ok(writes) => (forall|i: int|
                0 <= i < entries@.len() ==> storable((#[trigger] entries@[i]).1@.result.len()))
                && write_values(writes@) == rebuild_writes(entry_values(entries@)),
            Err(e) => e == StoreError::TooLarge && exists|i: int|
                0 <= i < entries@.len() && !storable((#[trigger] entries@[i]).1@.result.len()),
        },
{
    let mut writes: Vec<DiskWrite> = Vec::new();
    let mut size: u64 = 0;
    let mut i: usize = 0;
    let ghost all = entry_values(entries@);
    while i < entries.len()
        invariant
            i <= entries@.len(),
            all == entry_values(entries@),
            forall|j: int| 0 <= j < entries@.len() ==> (#[trigger] entries@[j]).0 < u64::MAX,
            forall|j: int| 0 <= j < i ==> storable((#[trigger] entries@[j]).1@.result.len()),
            size == entries_size(all.take(i as int)),
            write_values(writes@) == entry_writes(all.take(i as int)),
        decreases entries@.len() - i,
    {
        let value = match encode_entry(&entries[i].1) {
            Ok(value) => value,
            Err(e) => {
                assert(!storable(entries@[i as int].1@.result.len()));
                return Err(e);
            },
        };
        let idx: u64 = entries[i].0;
        let write = DiskWrite::Entry { key: entry_key(idx), value };
        let ghost written = write_values(writes@).push(write@);
        writes.push(write);
        assert(write_values(writes@) =~= written);
        assert(all.take(i + 1) =~= all.take(i as int).push((idx, entries@[i as int].1@)));
        assert(all.take(i + 1).drop_last() =~= all.take(i as int));
        assert(written =~= entry_writes(all.take(i + 1)));
        if idx + 1 > size {
            size = idx + 1;
        }
        i = i + 1;
    }
    assert(all.take(i as int) =~= all);
    writes.push(DiskWrite::Size { value: encode_u64(size) });
    assert(write_values(writes@) =~= rebuild_writes(all));
    Ok(writes)
}

/// A key is its index in base 256.
proof fn lemma_key_value(idx: u64)
    ensures
        key_bytes(idx).len() == 8,
        idx == key_bytes(idx)[0] * 0x100_0000_0000_0000 + key_bytes(idx)[1] * 0x1_0000_0000_0000
            + key_bytes(idx)[2] * 0x100_0000_0000 + key_bytes(idx)[3] * 0x1_0000_0000 + key_bytes(
            idx,
        )[4] * 0x100_0000 + key_bytes(idx)[5] * 0x1_0000 + key_bytes(idx)[6] * 0x100 + key_bytes(
            idx,
        )[7],
{
    reveal(key_bytes);
    let b0 = (idx / 0x100_0000_0000_0000) as u8;
    let b1 = (idx / 0x1_0000_0000_0000 % 256) as u8;
    let b2 = (idx / 0x100_0000_0000 % 256) as u8;
    let b3 = (idx / 0x1_0000_0000 % 256) as u8;
    let b4 = (idx / 0x100_0000 % 256) as u8;
    let b5 = (idx / 0x1_0000 % 256) as u8;
    let b6 = (idx / 0x100 % 256) as u8;
    let b7 = (idx % 256) as u8;
    let q1 = idx / 0x100;
    let q2 = idx / 0x1_0000;
    let q3 = idx / 0x100_0000;
    let q4 = idx / 0x1_0000_0000;
    let q5 = idx / 0x100_0000_0000;
    let q6 = idx / 0x1_0000_0000_0000;
    let q7 = idx / 0x100_0000_0000_0000;
    assert(q2 == q1 / 256 && q3 == q2 / 256 && q4 == q3 / 256 && q5 == q4 / 256 && q6 == q5 / 256
        && q7 == q6 / 256 && q7 < 256);
}

/// Different indices have different keys.
pub proof fn law_key_injective(a: u64, b: u64)
    requires
        key_bytes(a) == key_bytes(b),
    ensures
        a == b,
{
    lemma_key_value(a);
    lemma_key_value(b);
}

/// The order of the keys is the order of the indices.
pub proof fn law_key_order(a: u64, b: u64)
    ensures
        key_before(key_bytes(a), key_bytes(b)) <==> a < b,
{
    let x = key_bytes(a);
    let y = key_bytes(b);
    lemma_key_value(a);
    lemma_key_value(b);
    if key_before(x, y) {
        let i = choose|i: int|
            0 <= i < x.len() && i < y.len() && #[trigger] x[i] < y[i] && x.take(i) == y.take(i);
        assert(forall|j: int| 0 <= j < i ==> x[j] == x.take(i)[j] && y[j] == y.take(i)[j]);
        assert(forall|j: int| 0 <= j < i ==> x[j] == y[j]);
    }
    if a < b {
        let i: int = if x[0] != y[0] {
            0
        } else if x[1] != y[1] {
            1
        } else if x[2] != y[2] {
            2
        } else if x[3] != y[3] {
            3
        } else if x[4] != y[4] {
            4
        } else if x[5] != y[5] {
            5
        } else if x[6] != y[6] {
            6
        } else {
            7
        };
        assert(x.take(i) =~= y.take(i));
        assert(x[i] < y[i]);
    }
}

/// The planned writes of an entry turn a database that holds a log into one that
/// holds the log with that entry.
pub proof fn law_put_on_disk(d: DiskView, log: Map<u64, EntryView>, idx: u64, e: EntryView)
    requires
        holds(d, log),
        idx < u64::MAX,
    ensures
        holds(after_writes(d, put_writes(idx, e, log_size(log) as u64)), log.insert(idx, e)),
{
    let size = log_size(log) as u64;
    let writes = put_writes(idx, e, size);
    let after = after_writes(d, writes);
    let new_log = log.insert(idx, e);
    lemma_size_fits(log);
    law_put_size(log, idx, e);
    let write = WriteView::Entry { key: key_bytes(idx), value: entry_bytes(e) };
    let entries = d.entries.insert(key_bytes(idx), entry_bytes(e));
    if idx >= size {
        let grown = varint((idx + 1) as u64);
        let size_write = WriteView::Size { value: grown };
        assert(writes.drop_last() =~= seq![write]);
        assert(seq![write].drop_last() =~= Seq::empty());
        reveal_with_fuel(after_writes, 3);
        assert(after.entries == entries);
        assert(after.size == Some(grown));
        law_varint_round_trip((idx + 1) as u64, Seq::empty());
        assert(grown + Seq::<u8>::empty() =~= grown);
    } else {
        assert(writes.drop_last() =~= Seq::empty());
        reveal_with_fuel(after_writes, 2);
        assert(after.entries == entries);
        assert(after.size == d.size);
    }
    assert forall|key: Seq<u8>| #[trigger] after.entries.contains_key(key) implies exists|i: u64|
        #[trigger]
        new_log.contains_key(i) && key_bytes(i) == key by {
        if key == key_bytes(idx) {
            assert(new_log.contains_key(idx));
        } else {
            let i = choose|i: u64| #[trigger] log.contains_key(i) && key_bytes(i) == key;
            assert(new_log.contains_key(i));
        }
    }
    assert forall|i: u64| #[trigger] new_log.contains_key(i) implies after.entries.contains_key(
        key_bytes(i),
    ) && after.entries[key_bytes(i)] == entry_bytes(new_log[i]) by {
        if i != idx {
            assert(log.contains_key(i));
            if key_bytes(i) == key_bytes(idx) {
                law_key_injective(i, idx);
            }
        }
    }
}

/// A log without an entry at the last index has a size that fits.
proof fn lemma_size_fits(log: Map<u64, EntryView>)
    requires
        !log.contains_key(u64::MAX),
    ensures
        log_size(log) <= u64::MAX,
{
    lemma_has_top(log, u64::MAX as nat + 1);
    if exists|k: u64| is_top(log, k) {
        let k = choose|k: u64| is_top(log, k);
        lemma_top_index(log, k);
        assert(log.contains_key(k));
    } else {
        lemma_empty_log(log);
    }
}

/// The planned writes of a list of entries turn a database without entries into
/// one that holds the log of those entries.
pub proof fn law_rebuild_on_disk(d: DiskView, entries: Seq<(u64, EntryView)>)
    requires
        d.entries == Map::<Seq<u8>, Seq<u8>>::empty(),
        forall|i: int| 0 <= i < entries.len() ==> (#[trigger] entries[i]).0 < u64::MAX,
    ensures
        holds(after_writes(d, rebuild_writes(entries)), log_of(entries)),
{
    let writes = rebuild_writes(entries);
    assert(writes.drop_last() =~= entry_writes(entries));
    lemma_entries_written(d, entries);
    let n = entries_size(entries) as u64;
    law_varint_round_trip(n, Seq::empty());
    assert(varint(n) + Seq::<u8>::empty() =~= varint(n));
}

/// Writing the entries alone makes the database hold all of the log but its
/// size, and the size is computed right.
proof fn lemma_entries_written(d: DiskView, entries: Seq<(u64, EntryView)>)
    requires
        d.entries == Map::<Seq<u8>, Seq<u8>>::empty(),
        forall|i: int| 0 <= i < entries.len() ==> (#[trigger] entries[i]).0 < u64::MAX,
    ensures
        ({
            let after = after_writes(d, entry_writes(entries));
            let log = log_of(entries);
            &&& forall|key: Seq<u8>| #[trigger]
                after.entries.contains_key(key) ==> exists|idx: u64| #[trigger]
                    log.contains_key(idx) && key_bytes(idx) == key
            &&& forall|idx: u64| #[trigger]
                log.contains_key(idx) ==> after.entries.contains_key(key_bytes(idx))
                    && after.entries[key_bytes(idx)] == entry_bytes(log[idx])
            &&& log_size(log) == entries_size(entries)
            &&& entries_size(entries) <= u64::MAX
            &&& !log.contains_key(u64::MAX)
        }),
    decreases entries.len(),
{
    let after = after_writes(d, entry_writes(entries));
    let log = log_of(entries);
    if entries.len() == 0 {
        assert(entry_writes(entries) =~= Seq::empty());
        lemma_empty_log(log);
    } else {
        let rest = entries.drop_last();
        let (idx, e) = entries.last();
        assert forall|i: int| 0 <= i < rest.len() implies (#[trigger] rest[i]).0 < u64::MAX by {
            assert(rest[i] == entries[i]);
        }
        lemma_entries_written(d, rest);
        assert(entry_writes(entries).drop_last() =~= entry_writes(rest));
        let before = after_writes(d, entry_writes(rest));
        let old_log = log_of(rest);
        assert(after.entries == before.entries.insert(key_bytes(idx), entry_bytes(e)));
        law_put_size(old_log, idx, e);
        assert(entries[entries.len() - 1].0 < u64::MAX);
        assert forall|key: Seq<u8>| #[trigger] after.entries.contains_key(key) implies exists|
            i: u64,
        | #[trigger]
            log.contains_key(i) && key_bytes(i) == key by {
            if key == key_bytes(idx) {
                assert(log.contains_key(idx));
            } else {
                let i = choose|i: u64| #[trigger] old_log.contains_key(i) && key_bytes(i) == key;
                assert(log.contains_key(i));
            }
        }
        assert forall|i: u64| #[trigger] log.contains_key(i) implies after.entries.contains_key(
            key_bytes(i),
        ) && after.entries[key_bytes(i)] == entry_bytes(log[i]) by {
            if i != idx {
                assert(old_log.contains_key(i));
                if key_bytes(i) == key_bytes(idx) {
                    law_key_injective(i, idx);
                }
            }
        }
    }
}

/// What is read from a database that holds a log is the log: the cell of an
/// index gives back its entry, and there is a cell only where there is an entry.
pub proof fn law_read_from_disk(d: DiskView, log: Map<u64, EntryView>, idx: u64)
    requires
        holds(d, log),
        log.contains_key(idx) ==> log[idx].prev_hash.len() == 32 && log[idx].result.len()
            <= u64::MAX,
    ensures
        d.entries.contains_key(key_bytes(idx)) <==> log.contains_key(idx),
        log.contains_key(idx) ==> read_entry(d.entries[key_bytes(idx)]) == Some(log[idx]),
        read_size(d.size) == Some(log_size(log) as u64),
{
    if log.contains_key(idx) {
        law_entry_round_trip(log[idx], Seq::empty());
        assert(entry_bytes(log[idx]) + Seq::<u8>::empty() =~= entry_bytes(log[idx]));
    } else if d.entries.contains_key(key_bytes(idx)) {
        let i = choose|i: u64| #[trigger] log.contains_key(i) && key_bytes(i) == key_bytes(idx);
        law_key_injective(i, idx);
    }
}

/// The cell with the highest key is that of the log top, so its entry has the
/// hash that the log is compared by.
pub proof fn law_last_cell_is_top(d: DiskView, log: Map<u64, EntryView>, last: Seq<u8>)
    requires
        holds(d, log),
        d.entries.contains_key(last),
        forall|key: Seq<u8>| #[trigger]
            d.entries.contains_key(key) ==> key == last || key_before(key, last),
        forall|idx: u64| #[trigger]
            log.contains_key(idx) ==> log[idx].prev_hash.len() == 32 && log[idx].result.len()
                <= u64::MAX,
    ensures
        read_entry(d.entries[last]) matches Some(e) && e.prev_hash == top_hash(log),
{
    let k = choose|k: u64| #[trigger] log.contains_key(k) && key_bytes(k) == last;
    assert forall|j: u64| #[trigger] log.contains_key(j) implies j <= k by {
        assert(d.entries.contains_key(key_bytes(j)));
        if key_bytes(j) == last {
            law_key_injective(j, k);
        } else {
            law_key_order(j, k);
        }
    }
    assert(is_top(log, k));
    lemma_top_index(log, k);
    law_read_from_disk(d, log, k);
}

} // verus!
