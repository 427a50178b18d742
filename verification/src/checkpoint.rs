//! Checkpoints.
//!
//! On a timer, and whenever the log has grown past the last checkpoint, a
//! replica broadcasts a SYNC with its log index and top hash. Once `n - p`
//! replicas have sent SYNCs that match its own log, the log is consistent up to
//! that index: the replica records the checkpoint and broadcasts a CHECKPOINT,
//! by which peers notice that they have diverged.

use vstd::prelude::*;

use crate::config::ConfigView;
use crate::effect::{effect_values, no_effects, one_effect, Effect, EffectView};
use crate::event::Event;
use crate::log::top_hash;
use crate::message::{Message, MessageView};
use crate::phase::Phase;
use crate::quorum::{supporters, with_message, Ballot, BallotView};
use crate::replica::Replica;
use crate::state::{Outcome, StateView};

verus! {

/// The SYNC index when the sync timer fires: the top of a log that is not
/// empty, in the speculative phase.
pub open spec fn sync_event_guard(s: StateView, e: Event) -> Option<u64> {
    if e == Event::SyncTimeout && s.phase == Phase::Speculative && s.kv_size > 0 {
        Some((s.kv_size - 1) as u64)
    } else {
        None
    }
}

/// The SYNC index when the log has grown past the last checkpoint.
pub open spec fn sync_threshold_guard(s: StateView) -> Option<u64> {
    if s.phase == Phase::Speculative && s.kv_size > s.chkpt_idx {
        Some((s.kv_size - 1) as u64)
    } else {
        None
    }
}

/// The SYNC for `log_idx`: it carries the top hash and the largest sequence
/// number seen.
pub open spec fn sync_of(s: StateView, log_idx: u64) -> EffectView {
    EffectView::Broadcast(
        MessageView::Sync {
            from: s.node_id,
            round: s.round,
            log_idx,
            log_hash: top_hash(s.log),
            eta_star: s.eta_star,
        },
    )
}

/// The transition: broadcast the SYNC and change nothing.
pub open spec fn send_sync_step(s: StateView, log_idx: u64) -> Outcome {
    Outcome { state: s, effects: seq![sync_of(s, log_idx)] }
}

/// What the growth of the log leads to.
pub open spec fn sync_threshold_passed(s: StateView) -> Outcome {
    match sync_threshold_guard(s) {
        Some(log_idx) => send_sync_step(s, log_idx),
        None => Outcome::quiet(s),
    }
}

/// The SYNCs that agree with the whole log of `s`.
pub open spec fn matching_syncs(s: StateView) -> BallotView {
    BallotView::MatchingSyncs {
        round: s.round,
        log_idx: (s.kv_size - 1) as u64,
        log_hash: top_hash(s.log),
    }
}

/// The index of the checkpoint that can be formed: that of the log top, once a
/// fast quorum of replicas has sent a SYNC that agrees with the log.
pub open spec fn checkpoint_guard(c: ConfigView, s: StateView) -> Option<u64> {
    if s.phase == Phase::Speculative && s.kv_size > 0 && supporters(
        s.sync_msgs,
        matching_syncs(s),
    ).len() >= c.fast_quorum {
        Some((s.kv_size - 1) as u64)
    } else {
        None
    }
}

/// The transition: record the checkpoint and broadcast it.
pub open spec fn form_checkpoint_step(s: StateView, log_idx: u64) -> Outcome {
    let log_hash = top_hash(s.log);
    Outcome {
        state: StateView { chkpt_idx: log_idx, chkpt_hash: log_hash, ..s },
        effects: seq![
            EffectView::Broadcast(
                MessageView::Checkpoint { from: s.node_id, round: s.round, log_idx, log_hash },
            ),
        ],
    }
}

/// The state with `m` among the SYNCs, if it is one.
pub open spec fn with_sync(s: StateView, m: MessageView) -> StateView {
    if m is Sync {
        StateView { sync_msgs: with_message(s.sync_msgs, m), ..s }
    } else {
        s
    }
}

/// Checkpoint formation on `m`.
pub open spec fn sync_received(c: ConfigView, s: StateView, m: MessageView) -> Outcome {
    let t = with_sync(s, m);
    match checkpoint_guard(c, t) {
        Some(log_idx) => form_checkpoint_step(t, log_idx),
        None => Outcome::quiet(t),
    }
}

/// The index to send a SYNC for when `event` fires, if there is one.
pub fn can_send_sync_on_event(replica: &Replica, event: &Event) -> (r: Option<u64>)
    ensures
        r == sync_event_guard(replica.state@, *event),
{
    if !matches!(event, Event::SyncTimeout) {
        return None;
    }
    if replica.state.phase != Phase::Speculative {
        return None;
    }
    if replica.state.kv_size == 0 {
        return None;
    }
    Some(replica.state.kv_size - 1)
}

/// The index to send a SYNC for because the log has grown past the last
/// checkpoint, if it has.
pub fn can_send_sync_threshold(replica: &Replica) -> (r: Option<u64>)
    ensures
        r == sync_threshold_guard(replica.state@),
{
    if replica.state.phase != Phase::Speculative {
        return None;
    }
    if replica.state.kv_size == 0 {
        return None;
    }
    if replica.state.kv_size <= replica.state.chkpt_idx {
        return None;
    }
    Some(replica.state.kv_size - 1)
}

/// Broadcasts a SYNC for `log_idx`.
pub fn handle_send_sync(replica: &Replica, log_idx: u64) -> (r: Vec<Effect>)
    ensures
        effect_values(r@) == send_sync_step(replica.state@, log_idx).effects,
        replica.state@ == send_sync_step(replica.state@, log_idx).state,
{
    one_effect(
        Effect::Broadcast(
            Message::Sync {
                from: replica.state.node_id.clone(),
                round: replica.state.round,
                log_idx,
                log_hash: replica.state.kv_store.top_hash(),
                eta_star: replica.state.eta_star,
            },
        ),
    )
}

/// The index of the checkpoint that can be formed, if one can.
pub fn can_form_checkpoint(replica: &Replica) -> (r: Option<u64>)
    ensures
        r == checkpoint_guard(replica.config@, replica.state@),
{
    if replica.state.phase != Phase::Speculative {
        return None;
    }
    if replica.state.kv_size == 0 {
        return None;
    }
    let log_idx: u64 = replica.state.kv_size - 1;
    let ballot = Ballot::MatchingSyncs {
        round: replica.state.round,
        log_idx,
        log_hash: replica.state.kv_store.top_hash(),
    };
    assert(ballot@ == matching_syncs(replica.state@));
    if replica.state.sync_msgs.count(&ballot) >= replica.config.fast_quorum {
        Some(log_idx)
    } else {
        None
    }
}

/// Records the checkpoint at `log_idx` and broadcasts it.
pub fn handle_form_checkpoint(replica: &mut Replica, log_idx: u64) -> (r: Vec<Effect>)
    ensures
        final(replica).state@ == form_checkpoint_step(old(replica).state@, log_idx).state,
        effect_values(r@) == form_checkpoint_step(old(replica).state@, log_idx).effects,
        final(replica).config == old(replica).config,
{
    let log_hash = replica.state.kv_store.top_hash();
    replica.state.chkpt_idx = log_idx;
    replica.state.chkpt_hash = log_hash;
    one_effect(
        Effect::Broadcast(
            Message::Checkpoint {
                from: replica.state.node_id.clone(),
                round: replica.state.round,
                log_idx,
                log_hash,
            },
        ),
    )
}

/// Keeps `msg` if it is a SYNC, and forms a checkpoint where that is possible.
pub fn on_receive_sync(replica: &mut Replica, msg: &Message) -> (r: Vec<Effect>)
    ensures
        final(replica).state@ == sync_received(
            old(replica).config@,
            old(replica).state@,
            msg@,
        ).state,
        effect_values(r@) == sync_received(old(replica).config@, old(replica).state@, msg@).effects,
        final(replica).config == old(replica).config,
{
    if matches!(msg, Message::Sync { .. }) {
        replica.state.sync_msgs.insert(msg.clone());
    }
    assert(replica.state@ =~= with_sync(old(replica).state@, msg@));
    if let Some(log_idx) = can_form_checkpoint(replica) {
        handle_form_checkpoint(replica, log_idx)
    } else {
        no_effects()
    }
}

} // verus!
