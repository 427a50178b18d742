//! Log stores.

use std::collections::BTreeMap;
use vstd::prelude::*;

use crate::codec::{entry_hash, storable};
use crate::entry::{EntryView, KvEntry};
use crate::log::{
    digest_at, is_top, lemma_empty_log, lemma_top_index, log_of, log_size, top_hash,
};
use crate::message::{no_hash, zero_hash};
use crate::storage_error::StoreError;

verus! {

/// The values of a list of indexed entries.
pub open spec fn entry_values(entries: Seq<(u64, KvEntry)>) -> Seq<(u64, EntryView)> {
    entries.map_values(|p: (u64, KvEntry)| (p.0, p.1@))
}

/// A store of log entries by index.
///
/// A store does not lose writes: a store whose medium fails has to stop rather
/// than return.
pub trait KvStoreOps: Send + Sync {
    /// The entries held. Stores in verified code define it.
    open spec fn entries(&self) -> Map<u64, EntryView> {
        arbitrary()
    }

    /// The entry at `idx`, if there is one.
    fn get(&self, idx: u64) -> (r: Result<Option<KvEntry>, StoreError>)
        ensures
            match r {
                Ok(Some(e)) => self.entries().contains_key(idx) && self.entries()[idx] == e@,
                Ok(None) => !self.entries().contains_key(idx),
                Err(_) => false,
            },
    ;

    /// Writes `entry` at `idx`, over what was there.
    fn put(&mut self, idx: u64, entry: &KvEntry) -> (r: Result<(), StoreError>)
        ensures
            r is Ok,
            final(self).entries() == old(self).entries().insert(idx, entry@),
    ;

    /// The highest index and one more, or zero where there is no entry.
    fn size(&self) -> (r: u64)
        requires
            !self.entries().contains_key(u64::MAX),
        ensures
            r == log_size(self.entries()),
    ;

    /// The predecessor digest in the entry at the highest index, or zeros where
    /// there is no entry.
    fn top_hash(&self) -> (r: crate::message::Hash)
        ensures
            r@ == top_hash(self.entries()),
    ;

    /// The digest of the entry at `idx`. It fails where there is no entry, or
    /// one that is too large.
    fn hash_at(&self, idx: u64) -> (r: Result<crate::message::Hash, StoreError>)
        ensures
            match r {
                Ok(h) => digest_at(self.entries(), idx) == Some(h@),
                Err(StoreError::NoEntry { idx: i }) => i == idx && !self.entries().contains_key(
                    idx,
                ),
                Err(StoreError::TooLarge) => self.entries().contains_key(idx) && !storable(
                    self.entries()[idx].result.len(),
                ),
                Err(StoreError::Malformed) => false,
            },
    ;

    /// Drops all entries and writes the given ones, in order.
    fn rebuild_from_entries(&mut self, entries: Vec<(u64, KvEntry)>) -> (r: Result<(), StoreError>)
        ensures
            r is Ok,
            final(self).entries() == log_of(entry_values(entries@)),
    ;
}

/// A store in memory, with the checkpoint that it was last told.
#[derive(Debug)]
pub struct MemKvStore {
    entries: BTreeMap<u64, KvEntry>,
    /// The highest index in `entries`.
    top: Option<u64>,
    chkpt_idx: u64,
    chkpt_hash: crate::message::Hash,
}

/// The store that replicas open.
pub type KvStore = MemKvStore;

impl MemKvStore {
    #[verifier::type_invariant]
    spec fn top_is_highest(self) -> bool {
        match self.top {
            Some(k) => is_top(self.held(), k),
            None => forall|k: u64| !#[trigger] self.held().contains_key(k),
        }
    }

    /// The entries held.
    pub closed spec fn held(self) -> Map<u64, EntryView> {
        self.entries@.map_values(|e: KvEntry| e@)
    }

    /// The checkpoint index that the store was last told.
    pub closed spec fn checkpoint_idx(self) -> u64 {
        self.chkpt_idx
    }

    /// The checkpoint hash that the store was last told.
    pub closed spec fn checkpoint_hash(self) -> Seq<u8> {
        self.chkpt_hash@
    }

    /// An empty store, with checkpoint zero.
    pub fn new() -> (r: Self)
        ensures
            r.held() == Map::<u64, EntryView>::empty(),
            r.checkpoint_idx() == 0,
            r.checkpoint_hash() == zero_hash(),
    {
        let r = MemKvStore {
            entries: BTreeMap::new(),
            top: None,
            chkpt_idx: 0,
            chkpt_hash: no_hash(),
        };
        assert(r.held() =~= Map::<u64, EntryView>::empty());
        r
    }

    /// The checkpoint index that was last set.
    pub fn get_chkpt_idx(&self) -> (r: u64)
        ensures
            r == self.checkpoint_idx(),
    {
        self.chkpt_idx
    }

    /// Sets the checkpoint index.
    pub fn set_chkpt_idx(&mut self, idx: u64)
        ensures
            final(self).checkpoint_idx() == idx,
            final(self).checkpoint_hash() == old(self).checkpoint_hash(),
            final(self).held() == old(self).held(),
    {
        proof {
            use_type_invariant(&*self);
        }
        assert((MemKvStore { chkpt_idx: idx, ..*self }).held() == self.held());
        self.chkpt_idx = idx;
    }

    /// The checkpoint hash that was last set.
    pub fn get_chkpt_hash(&self) -> (r: crate::message::Hash)
        ensures
            r@ == self.checkpoint_hash(),
    {
        self.chkpt_hash
    }

    /// Sets the checkpoint hash.
    pub fn set_chkpt_hash(&mut self, hash: crate::message::Hash)
        ensures
            final(self).checkpoint_hash() == hash@,
            final(self).checkpoint_idx() == old(self).checkpoint_idx(),
            final(self).held() == old(self).held(),
    {
        proof {
            use_type_invariant(&*self);
        }
        assert((MemKvStore { chkpt_hash: hash, ..*self }).held() == self.held());
        self.chkpt_hash = hash;
    }

    /// Writes `entry` at `idx`, over what was there.
    fn write(&mut self, idx: u64, entry: KvEntry)
        ensures
            final(self).held() == old(self).held().insert(idx, entry@),
            final(self).checkpoint_idx() == old(self).checkpoint_idx(),
            final(self).checkpoint_hash() == old(self).checkpoint_hash(),
    {
        broadcast use vstd::laws_cmp::group_laws_cmp;
        broadcast use vstd::std_specs::btree::group_btree_axioms;

        proof {
            use_type_invariant(&*self);
        }
        let ghost before = self.held();
        let ghost value = entry@;
        let top = match self.top {
            Some(k) => if k < idx {
                Some(idx)
            } else {
                Some(k)
            },
            None => Some(idx),
        };
        let mut replaced = MemKvStore::new();
        std::mem::swap(self, &mut replaced);
        let MemKvStore { entries, top: _, chkpt_idx, chkpt_hash } = replaced;
        let mut entries = entries;
        entries.insert(idx, entry);
        assert(entries@.map_values(|e: KvEntry| e@) =~= before.insert(idx, value));
        *self = MemKvStore { entries, top, chkpt_idx, chkpt_hash };
        assert(self.held() =~= before.insert(idx, value));
    }
}

impl KvStore {
    /// Opens the store at `path`. A store in memory has no use for the path.
    pub fn open(path: &str) -> (r: Result<Self, StoreError>)
        ensures
            r is Ok,
            r->Ok_0.held() == Map::<u64, EntryView>::empty(),
            r->Ok_0.checkpoint_idx() == 0,
            r->Ok_0.checkpoint_hash() == zero_hash(),
    {
        Ok(MemKvStore::new())
    }
}

impl KvStoreOps for MemKvStore {
    open spec fn entries(&self) -> Map<u64, EntryView> {
        self.held()
    }

    fn get(&self, idx: u64) -> (r: Result<Option<KvEntry>, StoreError>) {
        broadcast use vstd::laws_cmp::group_laws_cmp;
        broadcast use vstd::std_specs::btree::group_btree_axioms;

        match self.entries.get(&idx) {
            Some(e) => Ok(Some(e.clone())),
            None => Ok(None),
        }
    }

    fn put(&mut self, idx: u64, entry: &KvEntry) -> (r: Result<(), StoreError>)
        ensures
            final(self).checkpoint_idx() == old(self).checkpoint_idx(),
            final(self).checkpoint_hash() == old(self).checkpoint_hash(),
    {
        self.write(idx, entry.clone());
        Ok(())
    }

    fn size(&self) -> (r: u64) {
        proof {
            use_type_invariant(self);
            if self.top is None {
                lemma_empty_log(self.held());
            } else {
                lemma_top_index(self.held(), self.top->0);
            }
        }
        match self.top {
            Some(k) => k + 1,
            None => 0,
        }
    }

    fn top_hash(&self) -> (r: crate::message::Hash) {
        broadcast use vstd::laws_cmp::group_laws_cmp;
        broadcast use vstd::std_specs::btree::group_btree_axioms;

        proof {
            use_type_invariant(self);
            if self.top is None {
                lemma_empty_log(self.held());
            } else {
                lemma_top_index(self.held(), self.top->0);
            }
        }
        match self.top {
            Some(k) => match self.entries.get(&k) {
                Some(e) => e.prev_hash,
                None => no_hash(),
            },
            None => no_hash(),
        }
    }

    fn hash_at(&self, idx: u64) -> (r: Result<crate::message::Hash, StoreError>) {
        match self.get(idx)? {
            Some(e) => entry_hash(&e),
            None => Err(StoreError::NoEntry { idx }),
        }
    }

    fn rebuild_from_entries(&mut self, entries: Vec<(u64, KvEntry)>) -> (r: Result<(), StoreError>)
        ensures
            final(self).checkpoint_idx() == old(self).checkpoint_idx(),
            final(self).checkpoint_hash() == old(self).checkpoint_hash(),
    {
        let mut fresh = MemKvStore::new();
        fresh.set_chkpt_idx(self.chkpt_idx);
        fresh.set_chkpt_hash(self.chkpt_hash);
        let mut i: usize = 0;
        while i < entries.len()
            invariant
                i <= entries.len(),
                fresh.held() == log_of(entry_values(entries@).take(i as int)),
                fresh.checkpoint_idx() == old(self).checkpoint_idx(),
                fresh.checkpoint_hash() == old(self).checkpoint_hash(),
            decreases entries.len() - i,
        {
            let ghost upto = entry_values(entries@).take(i + 1);
            assert(upto.drop_last() =~= entry_values(entries@).take(i as int));
            assert(upto.last() == (entries@[i as int].0, entries@[i as int].1@));
            fresh.write(entries[i].0, entries[i].1.clone());
            i = i + 1;
        }
        assert(entry_values(entries@).take(i as int) =~= entry_values(entries@));
        *self = fresh;
        Ok(())
    }
}

impl Default for MemKvStore {
    /// An empty store.
    fn default() -> (r: Self)
        ensures
            r.held() == Map::<u64, EntryView>::empty(),
            r.checkpoint_idx() == 0,
            r.checkpoint_hash() == zero_hash(),
    {
        MemKvStore::new()
    }
}

} // verus!
