//! Speculative execution, the fast path.
//!
//! A sequenced request is appended to the log at the next free index. The new
//! entry holds the digest of the entry before it, and a SPEC-REPLY with the
//! digest of the new entry goes to the client, who commits once `n - p` replies
//! agree.

use vstd::prelude::*;

use crate::codec::entry_digest;
use crate::effect::{effect_values, one_effect, Effect, EffectView};
use crate::entry::{EntryView, KvEntry};
use crate::log::digest_or_zero;
use crate::message::{no_hash, zero_hash, Message, MessageView};
use crate::phase::Phase;
use crate::replica::Replica;
use crate::state::{Outcome, StateView};

verus! {

/// The index of the entry that `m` adds: a request is executed in the
/// speculative phase only, at the first unused index.
pub open spec fn speculate_guard(s: StateView, m: MessageView) -> Option<u64> {
    if m is Speculate && s.phase == Phase::Speculative {
        Some(s.kv_size)
    } else {
        None
    }
}

/// The predecessor digest of an entry at `log_idx`: zeros for the first entry.
pub open spec fn prev_digest(s: StateView, log_idx: u64) -> Seq<u8> {
    if log_idx == 0 {
        zero_hash()
    } else {
        digest_or_zero(s.log, (log_idx - 1) as u64)
    }
}

/// The entry of operation `log_idx`, chained to the given digest.
pub open spec fn chained_entry(log_idx: u64, prev_hash: Seq<u8>) -> EntryView {
    EntryView { op_hash: log_idx, result: Seq::empty(), prev_hash }
}

/// The state with one more entry, at `log_idx`.
pub open spec fn appended(s: StateView, log_idx: u64, prev_hash: Seq<u8>) -> StateView {
    StateView {
        log: s.log.insert(log_idx, chained_entry(log_idx, prev_hash)),
        kv_size: (s.kv_size + 1) as u64,
        ..s
    }
}

/// The reply for the entry at `log_idx` with digest `log_hash`.
pub open spec fn reply_of(s: StateView, log_idx: u64, log_hash: Seq<u8>) -> EffectView {
    EffectView::Broadcast(
        MessageView::SpecReply { from: s.node_id, round: s.round, log_idx, log_hash },
    )
}

/// The transition: append the entry, broadcast its digest.
pub open spec fn speculate_step(s: StateView, log_idx: u64) -> Outcome {
    let prev = prev_digest(s, log_idx);
    Outcome {
        state: appended(s, log_idx, prev),
        effects: seq![reply_of(s, log_idx, entry_digest(chained_entry(log_idx, prev)))],
    }
}

/// The fast path on `m`.
pub open spec fn speculate_received(s: StateView, m: MessageView) -> Outcome {
    match speculate_guard(s, m) {
        Some(log_idx) => speculate_step(s, log_idx),
        None => Outcome::quiet(s),
    }
}

/// The index at which `msg` adds an entry, if it does.
pub fn can_speculate(replica: &Replica, msg: &Message) -> (r: Option<u64>)
    ensures
        r == speculate_guard(replica.state@, msg@),
{
    if !matches!(msg, Message::Speculate { .. }) {
        return None;
    }
    if replica.state.phase != Phase::Speculative {
        return None;
    }
    Some(replica.state.kv_size)
}

/// Appends the entry of operation `log_idx`, chained to `prev_hash`.
pub fn append_entry(replica: &mut Replica, log_idx: u64, prev_hash: crate::message::Hash)
    requires
        old(replica).state.kv_size < u64::MAX,
    ensures
        final(replica).state@ == appended(old(replica).state@, log_idx, prev_hash@),
        final(replica).config == old(replica).config,
{
    let entry = KvEntry { op_hash: log_idx, result: Vec::new(), prev_hash };
    assert(entry@ =~= chained_entry(log_idx, prev_hash@));
    let _ = replica.state.kv_store.put(log_idx, &entry);
    replica.state.kv_size = replica.state.kv_size + 1;
}

/// The SPEC-REPLY for the entry at `log_idx` with digest `log_hash`.
pub fn spec_reply(replica: &Replica, log_idx: u64, log_hash: crate::message::Hash) -> (r: Vec<
    Effect,
>)
    ensures
        effect_values(r@) == seq![reply_of(replica.state@, log_idx, log_hash@)],
{
    one_effect(
        Effect::Broadcast(
            Message::SpecReply {
                from: replica.state.node_id.clone(),
                round: replica.state.round,
                log_idx,
                log_hash,
            },
        ),
    )
}

/// Appends a log entry at `log_idx` and broadcasts a SPEC-REPLY with its
/// digest.
pub fn handle_speculate(replica: &mut Replica, log_idx: u64) -> (r: Vec<Effect>)
    requires
        old(replica).state.kv_size < u64::MAX,
    ensures
        final(replica).state@ == speculate_step(old(replica).state@, log_idx).state,
        effect_values(r@) == speculate_step(old(replica).state@, log_idx).effects,
        final(replica).config == old(replica).config,
{
    let prev_hash = if log_idx > 0 {
        match replica.state.kv_store.hash_at(log_idx - 1) {
            Ok(h) => h,
            Err(_) => no_hash(),
        }
    } else {
        no_hash()
    };
    append_entry(replica, log_idx, prev_hash);
    let new_hash = match replica.state.kv_store.hash_at(log_idx) {
        Ok(h) => h,
        Err(_) => no_hash(),
    };
    spec_reply(replica, log_idx, new_hash)
}

} // verus!
