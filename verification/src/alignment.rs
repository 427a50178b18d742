//! Alignment.
//!
//! A replica notices that it has diverged when `f + 1` replicas have sent CHECKPOINTs
//! at its own checkpoint index that conflict with its log: they carry another hash,
//! or its log does not reach that far. It stops, broadcasts a STATE-REQUEST, and on
//! the first STATE-REPLY rebuilds its log from the recovered checkpoint and goes on.

use vstd::prelude::*;

use crate::config::ConfigView;
use crate::effect::{effect_values, no_effects, one_effect, Effect, EffectView};
use crate::entry::{make_synthetic_entry, synthetic_entry, EntryView, KvEntry};
use crate::log::{digest_or_zero, log_of, synthetic_log};
use crate::message::{no_hash, Message, MessageView, NodeId};
use crate::phase::Phase;
use crate::quorum::{supporters, with_message, Ballot, BallotView};
use crate::replica::Replica;
use crate::state::{Outcome, StateView};
use crate::storage::entry_values;

verus! {

/// The hash that `s` holds at its checkpoint index, if its log reaches there.
pub open spec fn held_hash(s: StateView) -> Option<Seq<u8>> {
    if s.kv_size > s.chkpt_idx {
        Some(s.chkpt_hash)
    } else {
        None
    }
}

/// The CHECKPOINTs at the checkpoint index of `s` that conflict with its log.
pub open spec fn conflicting_checkpoints(s: StateView) -> BallotView {
    BallotView::ConflictingCheckpoints {
        round: s.round,
        log_idx: s.chkpt_idx,
        held: held_hash(s),
    }
}

/// The checkpoint index to align at: the replica's own, once `f + 1` replicas
/// have sent a CHECKPOINT for it that conflicts with the log.
pub open spec fn align_guard(c: ConfigView, s: StateView) -> Option<u64> {
    if s.phase == Phase::Speculative && supporters(
        s.chkpt_msgs,
        conflicting_checkpoints(s),
    ).len() >= c.f_plus_1 {
        Some(s.chkpt_idx)
    } else {
        None
    }
}

/// The transition: stop and ask for the state.
pub open spec fn enter_align_step(s: StateView, chkpt_idx: u64) -> Outcome {
    Outcome {
        state: StateView { phase: Phase::Aligning, ..s },
        effects: seq![
            EffectView::Broadcast(MessageView::StateRequest { from: s.node_id, chkpt_idx }),
        ],
    }
}

/// The state with `m` among the CHECKPOINTs, if it is one.
pub open spec fn with_checkpoint(s: StateView, m: MessageView) -> StateView {
    if m is Checkpoint {
        StateView { chkpt_msgs: with_message(s.chkpt_msgs, m), ..s }
    } else {
        s
    }
}

/// Alignment entry on `m`.
pub open spec fn checkpoint_received(c: ConfigView, s: StateView, m: MessageView) -> Outcome {
    let t = with_checkpoint(s, m);
    match align_guard(c, t) {
        Some(chkpt_idx) => enter_align_step(t, chkpt_idx),
        None => Outcome::quiet(t),
    }
}

/// Who asks for the state by sending `m`.
pub open spec fn state_request_guard(m: MessageView) -> Option<Seq<char>> {
    match m {
        MessageView::StateRequest { from, .. } => Some(from),
        _ => None,
    }
}

/// The transition: send the checkpoint to the requester and change nothing.
pub open spec fn state_request_step(s: StateView, requester: Seq<char>) -> Outcome {
    Outcome {
        state: s,
        effects: seq![
            EffectView::Send {
                to: requester,
                message: MessageView::StateReply {
                    from: s.node_id,
                    chkpt_idx: s.chkpt_idx,
                    chkpt_hash: s.chkpt_hash,
                },
            },
        ],
    }
}

/// The answer to `m`, whatever the phase.
pub open spec fn state_request_received(s: StateView, m: MessageView) -> Outcome {
    match state_request_guard(m) {
        Some(requester) => state_request_step(s, requester),
        None => Outcome::quiet(s),
    }
}

/// The checkpoint index that `m` recovers, while aligning.
pub open spec fn state_reply_guard(s: StateView, m: MessageView) -> Option<u64> {
    match m {
        MessageView::StateReply { chkpt_idx, .. } => if s.phase == Phase::Aligning {
            Some(chkpt_idx)
        } else {
            None
        },
        _ => None,
    }
}

/// The state back on the fast path at a recovered checkpoint.
pub open spec fn aligned(s: StateView, chkpt_idx: u64, chkpt_hash: Seq<u8>) -> StateView {
    StateView {
        phase: Phase::Speculative,
        chkpt_idx,
        chkpt_hash,
        kv_size: (chkpt_idx + 1) as u64,
        start_idx: chkpt_idx,
        ..s
    }
}

/// The transition: rebuild the log as the synthetic entries up to the
/// checkpoint, and return to the fast path. The checkpoint hash is the digest of
/// the last rebuilt entry.
pub open spec fn state_reply_step(s: StateView, chkpt_idx: u64) -> Outcome {
    let log = synthetic_log(chkpt_idx as nat + 1);
    Outcome::quiet(
        aligned(StateView { log, ..s }, chkpt_idx, digest_or_zero(log, chkpt_idx)),
    )
}

/// Recovery on `m`.
pub open spec fn state_reply_received(s: StateView, m: MessageView) -> Outcome {
    match state_reply_guard(s, m) {
        Some(chkpt_idx) => state_reply_step(s, chkpt_idx),
        None => Outcome::quiet(s),
    }
}

/// The checkpoint index to align at, if the replica has to.
pub fn can_enter_align(replica: &Replica) -> (r: Option<u64>)
    ensures
        r == align_guard(replica.config@, replica.state@),
{
    if replica.state.phase != Phase::Speculative {
        return None;
    }
    let chkpt_idx: u64 = replica.state.chkpt_idx;
    let held = if replica.state.kv_size > chkpt_idx {
        Some(replica.state.chkpt_hash)
    } else {
        None
    };
    let ballot = Ballot::ConflictingCheckpoints {
        round: replica.state.round,
        log_idx: chkpt_idx,
        held,
    };
    assert(ballot@ == conflicting_checkpoints(replica.state@));
    if replica.state.chkpt_msgs.count(&ballot) >= replica.config.f_plus_1 {
        Some(chkpt_idx)
    } else {
        None
    }
}

/// Stops processing requests and broadcasts a STATE-REQUEST.
pub fn handle_enter_align(replica: &mut Replica, chkpt_idx: u64) -> (r: Vec<Effect>)
    ensures
        final(replica).state@ == enter_align_step(old(replica).state@, chkpt_idx).state,
        effect_values(r@) == enter_align_step(old(replica).state@, chkpt_idx).effects,
        final(replica).config == old(replica).config,
{
    replica.state.phase = Phase::Aligning;
    one_effect(
        Effect::Broadcast(
            Message::StateRequest { from: replica.state.node_id.clone(), chkpt_idx },
        ),
    )
}

/// Keeps `msg` if it is a CHECKPOINT, and starts to align where that is due.
pub fn on_receive_checkpoint(replica: &mut Replica, msg: &Message) -> (r: Vec<Effect>)
    ensures
        final(replica).state@ == checkpoint_received(
            old(replica).config@,
            old(replica).state@,
            msg@,
        ).state,
        effect_values(r@) == checkpoint_received(
            old(replica).config@,
            old(replica).state@,
            msg@,
        ).effects,
        final(replica).config == old(replica).config,
{
    if matches!(msg, Message::Checkpoint { .. }) {
        replica.state.chkpt_msgs.insert(msg.clone());
    }
    assert(replica.state@ =~= with_checkpoint(old(replica).state@, msg@));
    if let Some(chkpt_idx) = can_enter_align(replica) {
        handle_enter_align(replica, chkpt_idx)
    } else {
        no_effects()
    }
}

/// The sender of a STATE-REQUEST; every STATE-REQUEST is answered.
pub fn can_state_request(msg: &Message) -> (r: Option<NodeId>)
    ensures
        match r {
            Some(who) => state_request_guard(msg@) == Some(who@),
            None => state_request_guard(msg@) is None,
        },
{
    if let Message::StateRequest { from, .. } = msg {
        Some(from.clone())
    } else {
        None
    }
}

/// Sends the checkpoint index and hash to `requester`.
pub fn handle_state_request(replica: &Replica, requester: NodeId) -> (r: Vec<Effect>)
    ensures
        effect_values(r@) == state_request_step(replica.state@, requester@).effects,
        replica.state@ == state_request_step(replica.state@, requester@).state,
{
    one_effect(
        Effect::Send {
            to: requester,
            message: Message::StateReply {
                from: replica.state.node_id.clone(),
                chkpt_idx: replica.state.chkpt_idx,
                chkpt_hash: replica.state.chkpt_hash,
            },
        },
    )
}

/// The checkpoint index of a STATE-REPLY that arrives while aligning.
pub fn can_state_reply(replica: &Replica, msg: &Message) -> (r: Option<u64>)
    ensures
        r == state_reply_guard(replica.state@, msg@),
{
    if replica.state.phase != Phase::Aligning {
        return None;
    }
    if let Message::StateReply { chkpt_idx, .. } = msg {
        Some(*chkpt_idx)
    } else {
        None
    }
}

/// The synthetic entries of the indices below `n`, in order.
pub fn synthetic_entries(n: u64) -> (r: Vec<(u64, KvEntry)>)
    ensures
        entry_values(r@) == Seq::new(n as nat, |k: int| (k as u64, synthetic_entry(k as u64))),
        log_of(entry_values(r@)) == synthetic_log(n as nat),
{
    let mut r: Vec<(u64, KvEntry)> = Vec::new();
    let mut k: u64 = 0;
    assert(synthetic_log(0) =~= Map::<u64, EntryView>::empty());
    while k < n
        invariant
            k <= n,
            r@.len() == k,
            forall|j: int|
                0 <= j < k ==> (#[trigger] r@[j]).0 == j && r@[j].1@ == synthetic_entry(j as u64),
            log_of(entry_values(r@)) == synthetic_log(k as nat),
        decreases n - k,
    {
        let ghost before = entry_values(r@);
        r.push((k, make_synthetic_entry(k)));
        assert(entry_values(r@).drop_last() =~= before);
        assert(synthetic_log(k as nat + 1) =~= synthetic_log(k as nat).insert(
            k,
            synthetic_entry(k),
        ));
        k = k + 1;
    }
    assert(entry_values(r@) =~= Seq::new(
        n as nat,
        |j: int| (j as u64, synthetic_entry(j as u64)),
    ));
    r
}

/// Rebuilds the log as the synthetic entries of the indices below `n`.
pub fn rebuild_log(replica: &mut Replica, n: u64)
    ensures
        final(replica).state@ == (StateView {
            log: synthetic_log(n as nat),
            ..old(replica).state@
        }),
        final(replica).config == old(replica).config,
{
    let entries = synthetic_entries(n);
    let _ = replica.state.kv_store.rebuild_from_entries(entries);
}

/// Returns to the fast path at the recovered checkpoint, over the log as it is.
pub fn finish_alignment(replica: &mut Replica, chkpt_idx: u64, chkpt_hash: crate::message::Hash)
    requires
        chkpt_idx < u64::MAX,
    ensures
        final(replica).state@ == aligned(old(replica).state@, chkpt_idx, chkpt_hash@),
        final(replica).config == old(replica).config,
{
    replica.state.phase = Phase::Speculative;
    replica.state.chkpt_idx = chkpt_idx;
    replica.state.chkpt_hash = chkpt_hash;
    replica.state.kv_size = chkpt_idx + 1;
    replica.state.start_idx = chkpt_idx;
}

/// Rebuilds the log up to the recovered checkpoint and returns to the fast
/// path.
pub fn handle_state_reply(replica: &mut Replica, chkpt_idx: u64) -> (r: Vec<Effect>)
    requires
        chkpt_idx < u64::MAX,
    ensures
        final(replica).state@ == state_reply_step(old(replica).state@, chkpt_idx).state,
        effect_values(r@) == state_reply_step(old(replica).state@, chkpt_idx).effects,
        final(replica).config == old(replica).config,
{
    rebuild_log(replica, chkpt_idx + 1);
    let chkpt_hash = match replica.state.kv_store.hash_at(chkpt_idx) {
        Ok(h) => h,
        Err(_) => no_hash(),
    };
    finish_alignment(replica, chkpt_idx, chkpt_hash);
    no_effects()
}

} // verus!
