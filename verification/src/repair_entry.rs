//! Entry into REPAIR.
//!
//! There are two ways in. A replica that holds SYNCs of `n - f` replicas, too few
//! of which agree with its own log, broadcasts a CONFLICT-PROOF. A replica whose
//! checkpoint timer expires broadcasts a TIMEOUT, and once `f + 1` replicas have
//! done so a TIMEOUT-PROOF is broadcast. Whoever receives a proof broadcasts it
//! again and enters REPAIR too, so that all correct replicas enter together.

use vstd::prelude::*;

use crate::checkpoint::matching_syncs;
use crate::config::ConfigView;
use crate::effect::{
    append_effects, effect_values, no_effects, one_effect, two_effects, Effect, EffectView,
};
use crate::event::Event;
use crate::log::top_hash;
use crate::message::{Message, MessageView};
use crate::phase::Phase;
use crate::quorum::{supporters, with_message, Ballot, BallotView};
use crate::replica::Replica;
use crate::state::{Outcome, StateView};

verus! {

/// All SYNCs at the log top of `s`.
pub open spec fn all_syncs(s: StateView) -> BallotView {
    BallotView::Syncs { round: s.round, log_idx: (s.kv_size - 1) as u64 }
}

/// The index at which no checkpoint can be formed: a Byzantine quorum of
/// replicas has sent a SYNC for the log top, and those that agree with the log
/// are short of a fast quorum.
pub open spec fn conflict_guard(c: ConfigView, s: StateView) -> Option<u64> {
    if s.phase == Phase::Speculative && s.kv_size > 0 && !s.in_repair && supporters(
        s.sync_msgs,
        all_syncs(s),
    ).len() >= c.byz_quorum && supporters(s.sync_msgs, matching_syncs(s)).len() < c.fast_quorum {
        Some((s.kv_size - 1) as u64)
    } else {
        None
    }
}

/// The LOG of `s` for the given view: its log summary for the leader.
pub open spec fn log_summary(s: StateView, view: u64) -> EffectView {
    EffectView::Broadcast(
        MessageView::LogMsg {
            from: s.node_id,
            view,
            round: s.round,
            log_hash: top_hash(s.log),
        },
    )
}

/// The state of a replica that has just entered REPAIR.
pub open spec fn repairing_state(s: StateView) -> StateView {
    StateView { phase: Phase::CollectingLogs, in_repair: true, ..s }
}

/// The transition: broadcast the proof and the log summary, enter REPAIR.
pub open spec fn conflict_proof_step(s: StateView, log_idx: u64) -> Outcome {
    Outcome {
        state: repairing_state(s),
        effects: seq![
            EffectView::Broadcast(MessageView::ConflictProof { round: s.round, log_idx }),
            log_summary(s, s.view),
        ],
    }
}

/// What the SYNCs collected so far lead to.
pub open spec fn conflict_checked(c: ConfigView, s: StateView) -> Outcome {
    match conflict_guard(c, s) {
        Some(log_idx) => conflict_proof_step(s, log_idx),
        None => Outcome::quiet(s),
    }
}

/// The index to time out at when `e` fires: in the speculative phase only.
pub open spec fn chkpt_timeout_guard(s: StateView, e: Event) -> Option<u64> {
    match e {
        Event::ChkptTimeout { log_idx } => if s.phase == Phase::Speculative && !s.in_repair {
            Some(log_idx)
        } else {
            None
        },
        _ => None,
    }
}

/// The transition: broadcast the TIMEOUT and change nothing.
pub open spec fn chkpt_timeout_step(s: StateView, log_idx: u64) -> Outcome {
    Outcome {
        state: s,
        effects: seq![
            EffectView::Broadcast(
                MessageView::TimeoutMsg { from: s.node_id, round: s.round, log_idx },
            ),
        ],
    }
}

/// The TIMEOUTs at the log top of `s`.
pub open spec fn top_timeouts(s: StateView) -> BallotView {
    BallotView::Timeouts { round: s.round, log_idx: (s.kv_size - 1) as u64 }
}

/// The index of the log top, once `f + 1` replicas have timed out there.
pub open spec fn timeout_proof_guard(c: ConfigView, s: StateView) -> Option<u64> {
    if s.phase == Phase::Speculative && !s.in_repair && s.kv_size > 0 && supporters(
        s.timeout_msgs,
        top_timeouts(s),
    ).len() >= c.f_plus_1 {
        Some((s.kv_size - 1) as u64)
    } else {
        None
    }
}

/// The transition: broadcast the proof and the log summary, enter REPAIR.
pub open spec fn timeout_proof_step(s: StateView, log_idx: u64) -> Outcome {
    Outcome {
        state: repairing_state(s),
        effects: seq![
            EffectView::Broadcast(MessageView::TimeoutProof { round: s.round, log_idx }),
            log_summary(s, s.view),
        ],
    }
}

/// The state with `m` among the TIMEOUTs, if it is one.
pub open spec fn with_timeout(s: StateView, m: MessageView) -> StateView {
    if m is TimeoutMsg {
        StateView { timeout_msgs: with_message(s.timeout_msgs, m), ..s }
    } else {
        s
    }
}

/// Timeout proof formation on `m`.
pub open spec fn timeout_received(c: ConfigView, s: StateView, m: MessageView) -> Outcome {
    let t = with_timeout(s, m);
    match timeout_proof_guard(c, t) {
        Some(log_idx) => timeout_proof_step(t, log_idx),
        None => Outcome::quiet(t),
    }
}

/// The round in which `m` makes the replica enter REPAIR: `m` is a proof, and
/// the replica is not in REPAIR yet.
pub open spec fn enter_repair_guard(s: StateView, m: MessageView) -> Option<u64> {
    if !s.in_repair && (m is TimeoutProof || m is ConflictProof) {
        Some(s.round)
    } else {
        None
    }
}

/// The transition: broadcast the log summary, enter REPAIR.
pub open spec fn enter_repair_step(s: StateView) -> Outcome {
    Outcome { state: repairing_state(s), effects: seq![log_summary(s, s.view)] }
}

/// REPAIR entry on `m`: the proof is passed on first.
pub open spec fn proof_received(s: StateView, m: MessageView) -> Outcome {
    match enter_repair_guard(s, m) {
        Some(_) => Outcome {
            state: repairing_state(s),
            effects: seq![EffectView::Broadcast(m), log_summary(s, s.view)],
        },
        None => Outcome::quiet(s),
    }
}

/// The index at which a checkpoint is impossible, if there is one.
pub fn can_conflict_proof(replica: &Replica) -> (r: Option<u64>)
    ensures
        r == conflict_guard(replica.config@, replica.state@),
{
    if replica.state.phase != Phase::Speculative {
        return None;
    }
    if replica.state.kv_size == 0 {
        return None;
    }
    if replica.state.in_repair {
        return None;
    }
    let log_idx: u64 = replica.state.kv_size - 1;
    let round: u64 = replica.state.round;
    let every = Ballot::Syncs { round, log_idx };
    let matching = Ballot::MatchingSyncs {
        round,
        log_idx,
        log_hash: replica.state.kv_store.top_hash(),
    };
    assert(every@ == all_syncs(replica.state@));
    assert(matching@ == matching_syncs(replica.state@));
    let total: usize = replica.state.sync_msgs.count(&every);
    let consistent: usize = replica.state.sync_msgs.count(&matching);
    if total >= replica.config.byz_quorum && consistent < replica.config.fast_quorum {
        Some(log_idx)
    } else {
        None
    }
}

/// The LOG message of the replica for the given view.
pub fn make_log_msg(replica: &Replica, view: u64) -> (r: Effect)
    ensures
        r@ == log_summary(replica.state@, view),
{
    Effect::Broadcast(
        Message::LogMsg {
            from: replica.state.node_id.clone(),
            view,
            round: replica.state.round,
            log_hash: replica.state.kv_store.top_hash(),
        },
    )
}

/// Broadcasts a CONFLICT-PROOF and the log summary, and enters REPAIR.
pub fn handle_conflict_proof(replica: &mut Replica, log_idx: u64) -> (r: Vec<Effect>)
    ensures
        final(replica).state@ == conflict_proof_step(old(replica).state@, log_idx).state,
        effect_values(r@) == conflict_proof_step(old(replica).state@, log_idx).effects,
        final(replica).config == old(replica).config,
{
    replica.state.phase = Phase::CollectingLogs;
    replica.state.in_repair = true;
    two_effects(
        Effect::Broadcast(Message::ConflictProof { round: replica.state.round, log_idx }),
        make_log_msg(replica, replica.state.view),
    )
}

/// The index to time out at when `event` fires, if there is one.
pub fn can_chkpt_timeout(replica: &Replica, event: &Event) -> (r: Option<u64>)
    ensures
        r == chkpt_timeout_guard(replica.state@, *event),
{
    if replica.state.phase != Phase::Speculative {
        return None;
    }
    if replica.state.in_repair {
        return None;
    }
    match event {
        Event::ChkptTimeout { log_idx } => Some(*log_idx),
        _ => None,
    }
}

/// Broadcasts a TIMEOUT for `log_idx`.
pub fn handle_chkpt_timeout(replica: &Replica, log_idx: u64) -> (r: Vec<Effect>)
    ensures
        effect_values(r@) == chkpt_timeout_step(replica.state@, log_idx).effects,
        replica.state@ == chkpt_timeout_step(replica.state@, log_idx).state,
{
    one_effect(
        Effect::Broadcast(
            Message::TimeoutMsg {
                from: replica.state.node_id.clone(),
                round: replica.state.round,
                log_idx,
            },
        ),
    )
}

/// The log top, if `f + 1` replicas have timed out there.
pub fn can_timeout_proof(replica: &Replica) -> (r: Option<u64>)
    ensures
        r == timeout_proof_guard(replica.config@, replica.state@),
{
    if replica.state.phase != Phase::Speculative {
        return None;
    }
    if replica.state.in_repair {
        return None;
    }
    if replica.state.kv_size == 0 {
        return None;
    }
    let log_idx: u64 = replica.state.kv_size - 1;
    let ballot = Ballot::Timeouts { round: replica.state.round, log_idx };
    assert(ballot@ == top_timeouts(replica.state@));
    if replica.state.timeout_msgs.count(&ballot) >= replica.config.f_plus_1 {
        Some(log_idx)
    } else {
        None
    }
}

/// Broadcasts a TIMEOUT-PROOF and the log summary, and enters REPAIR.
pub fn handle_timeout_proof(replica: &mut Replica, log_idx: u64) -> (r: Vec<Effect>)
    ensures
        final(replica).state@ == timeout_proof_step(old(replica).state@, log_idx).state,
        effect_values(r@) == timeout_proof_step(old(replica).state@, log_idx).effects,
        final(replica).config == old(replica).config,
{
    replica.state.phase = Phase::CollectingLogs;
    replica.state.in_repair = true;
    two_effects(
        Effect::Broadcast(Message::TimeoutProof { round: replica.state.round, log_idx }),
        make_log_msg(replica, replica.state.view),
    )
}

/// Keeps `msg` if it is a TIMEOUT, and forms a proof where that is possible.
pub fn on_receive_timeout(replica: &mut Replica, msg: &Message) -> (r: Vec<Effect>)
    ensures
        final(replica).state@ == timeout_received(
            old(replica).config@,
            old(replica).state@,
            msg@,
        ).state,
        effect_values(r@) == timeout_received(
            old(replica).config@,
            old(replica).state@,
            msg@,
        ).effects,
        final(replica).config == old(replica).config,
{
    if matches!(msg, Message::TimeoutMsg { .. }) {
        replica.state.timeout_msgs.insert(msg.clone());
    }
    assert(replica.state@ =~= with_timeout(old(replica).state@, msg@));
    if let Some(log_idx) = can_timeout_proof(replica) {
        handle_timeout_proof(replica, log_idx)
    } else {
        no_effects()
    }
}

/// The current round, if `msg` is a proof that makes the replica enter REPAIR.
pub fn can_enter_repair(replica: &Replica, msg: &Message) -> (r: Option<u64>)
    ensures
        r == enter_repair_guard(replica.state@, msg@),
{
    if replica.state.in_repair {
        return None;
    }
    if matches!(msg, Message::TimeoutProof { .. } | Message::ConflictProof { .. }) {
        Some(replica.state.round)
    } else {
        None
    }
}

/// Broadcasts the log summary and enters REPAIR.
pub fn handle_enter_repair(replica: &mut Replica, _round: u64) -> (r: Vec<Effect>)
    ensures
        final(replica).state@ == enter_repair_step(old(replica).state@).state,
        effect_values(r@) == enter_repair_step(old(replica).state@).effects,
        final(replica).config == old(replica).config,
{
    replica.state.phase = Phase::CollectingLogs;
    replica.state.in_repair = true;
    one_effect(make_log_msg(replica, replica.state.view))
}

/// Passes a proof on and enters REPAIR, unless the replica is there already.
pub fn on_receive_proof(replica: &mut Replica, msg: &Message) -> (r: Vec<Effect>)
    ensures
        final(replica).state@ == proof_received(old(replica).state@, msg@).state,
        effect_values(r@) == proof_received(old(replica).state@, msg@).effects,
        final(replica).config == old(replica).config,
{
    if let Some(round) = can_enter_repair(replica, msg) {
        let mut effects = one_effect(Effect::Broadcast(msg.clone()));
        append_effects(&mut effects, handle_enter_repair(replica, round));
        effects
    } else {
        no_effects()
    }
}

} // verus!
