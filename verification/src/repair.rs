//! The REPAIR agreement.
//!
//! The leader of the view collects LOGs of `n - f` replicas and proposes a
//! history. All replicas vote on it in two phases, prepare and commit, each with
//! a quorum of `n - f`. A replica that commits rebuilds its log from the history,
//! starts the next round and broadcasts REPAIR-DONE; one that has fallen behind
//! leaves REPAIR once it holds the history and REPAIR-DONEs of `f + 1` replicas.
//! A leader who does not propose in time is replaced by the next one.

use vstd::prelude::*;

use crate::alignment::rebuild_log;
use crate::config::ConfigView;
use crate::effect::{
    effect_values, no_effects, one_effect, two_effects, Effect, EffectView,
};
use crate::event::Event;
use crate::log::synthetic_log;
use crate::message::{Message, MessageView};
use crate::phase::Phase;
use crate::quorum::{first_proposal, supporters, with_message, Ballot, BallotView};
use crate::repair_entry::{log_summary, make_log_msg};
use crate::replica::{leads, Replica};
use crate::state::{Outcome, StateView};

verus! {

/// The LOGs of the current view and round.
pub open spec fn current_logs(s: StateView) -> BallotView {
    BallotView::Logs { view: s.view, round: s.round }
}

/// The history that the leader proposes once a Byzantine quorum of replicas has
/// sent its log: it is named by the number of those replicas.
pub open spec fn broadcast_history_guard(c: ConfigView, s: StateView) -> Option<u64> {
    let senders = supporters(s.log_msgs, current_logs(s)).len();
    if s.phase == Phase::CollectingLogs && leads(c, s) && senders >= c.byz_quorum {
        Some(senders as u64)
    } else {
        None
    }
}

/// The state of a replica that votes on a history.
pub open spec fn preparing_state(s: StateView, history_hash: u64) -> StateView {
    StateView { phase: Phase::PreparePhase, proposed_history_hash: history_hash, ..s }
}

/// The transition: propose the history and wait for votes.
pub open spec fn broadcast_history_step(s: StateView, history_hash: u64) -> Outcome {
    Outcome {
        state: preparing_state(s, history_hash),
        effects: seq![
            EffectView::Broadcast(
                MessageView::RepairHistory {
                    from: s.node_id,
                    view: s.view,
                    round: s.round,
                    history_hash,
                },
            ),
        ],
    }
}

/// The state with `m` among the LOGs, if it is one.
pub open spec fn with_log(s: StateView, m: MessageView) -> StateView {
    if m is LogMsg {
        StateView { log_msgs: with_message(s.log_msgs, m), ..s }
    } else {
        s
    }
}

/// History proposal on `m`.
pub open spec fn log_received(c: ConfigView, s: StateView, m: MessageView) -> Outcome {
    let t = with_log(s, m);
    match broadcast_history_guard(c, t) {
        Some(history_hash) => broadcast_history_step(t, history_hash),
        None => Outcome::quiet(t),
    }
}

/// The history that the leader of the current view has proposed for the current
/// round, if it has: its first proposal counts.
pub open spec fn leaders_proposal(c: ConfigView, s: StateView) -> Option<u64> {
    first_proposal(s.repair_history_msgs, s.view, s.round, c.leader(s.view))
}

/// The history to vote for: the proposal of the leader. It may arrive before or
/// after the prepare phase begins.
pub open spec fn prepare_guard(c: ConfigView, s: StateView) -> Option<u64> {
    if s.phase == Phase::CollectingLogs || s.phase == Phase::PreparePhase {
        leaders_proposal(c, s)
    } else {
        None
    }
}

/// The transition: vote for the history.
pub open spec fn prepare_step(s: StateView, history_hash: u64) -> Outcome {
    Outcome {
        state: preparing_state(s, history_hash),
        effects: seq![
            EffectView::Broadcast(
                MessageView::RepairPrepare {
                    from: s.node_id,
                    view: s.view,
                    round: s.round,
                    history_hash,
                },
            ),
        ],
    }
}

/// The state with `m` among the proposals, if it is one.
pub open spec fn with_history(s: StateView, m: MessageView) -> StateView {
    if m is RepairHistory {
        StateView { repair_history_msgs: with_message(s.repair_history_msgs, m), ..s }
    } else {
        s
    }
}

/// The prepare vote on `m`.
pub open spec fn history_received(c: ConfigView, s: StateView, m: MessageView) -> Outcome {
    let t = with_history(s, m);
    match prepare_guard(c, t) {
        Some(history_hash) => prepare_step(t, history_hash),
        None => Outcome::quiet(t),
    }
}

/// The prepare votes for the proposed history.
pub open spec fn current_prepares(s: StateView) -> BallotView {
    BallotView::Prepares {
        view: s.view,
        round: s.round,
        history_hash: s.proposed_history_hash,
    }
}

/// The history to commit: the proposed one, once a Byzantine quorum of replicas
/// has prepared it.
pub open spec fn commit_guard(c: ConfigView, s: StateView) -> Option<u64> {
    if s.phase == Phase::PreparePhase && supporters(
        s.repair_prepare_msgs,
        current_prepares(s),
    ).len() >= c.byz_quorum {
        Some(s.proposed_history_hash)
    } else {
        None
    }
}

/// The transition: cast the commit vote.
pub open spec fn commit_step(s: StateView, history_hash: u64) -> Outcome {
    Outcome {
        state: StateView { phase: Phase::CommitPhase, ..s },
        effects: seq![
            EffectView::Broadcast(
                MessageView::RepairCommit {
                    from: s.node_id,
                    view: s.view,
                    round: s.round,
                    history_hash,
                },
            ),
        ],
    }
}

/// The state with `m` among the prepare votes, if it is one.
pub open spec fn with_prepare(s: StateView, m: MessageView) -> StateView {
    if m is RepairPrepare {
        StateView { repair_prepare_msgs: with_message(s.repair_prepare_msgs, m), ..s }
    } else {
        s
    }
}

/// The commit vote on `m`.
pub open spec fn prepare_received(c: ConfigView, s: StateView, m: MessageView) -> Outcome {
    let t = with_prepare(s, m);
    match commit_guard(c, t) {
        Some(history_hash) => commit_step(t, history_hash),
        None => Outcome::quiet(t),
    }
}

/// The commit votes for the proposed history.
pub open spec fn current_commits(s: StateView) -> BallotView {
    BallotView::Commits {
        view: s.view,
        round: s.round,
        history_hash: s.proposed_history_hash,
    }
}

/// The history to apply: the proposed one, once a Byzantine quorum of replicas
/// has committed it.
pub open spec fn apply_guard(c: ConfigView, s: StateView) -> Option<u64> {
    if s.phase == Phase::CommitPhase && supporters(
        s.repair_commit_msgs,
        current_commits(s),
    ).len() >= c.byz_quorum {
        Some(s.proposed_history_hash)
    } else {
        None
    }
}

/// The state at the start of the next round, outside of REPAIR.
pub open spec fn next_round(s: StateView, start_idx: u64) -> StateView {
    StateView {
        phase: Phase::Speculative,
        round: (s.round + 1) as u64,
        start_idx,
        eta_star: 0,
        in_repair: false,
        proposed_history_hash: 0,
        ..s
    }
}

/// The transition: rebuild the log as long as the history says, start the next
/// round, and tell the other replicas and the clients.
pub open spec fn apply_step(s: StateView, history_hash: u64) -> Outcome {
    Outcome {
        state: StateView {
            log: synthetic_log(history_hash as nat),
            kv_size: history_hash,
            ..next_round(s, history_hash)
        },
        effects: seq![
            EffectView::Broadcast(
                MessageView::RepairDone {
                    from: s.node_id,
                    view: s.view,
                    round: s.round,
                    history_hash,
                },
            ),
            EffectView::Broadcast(
                MessageView::CommittedReply {
                    from: s.node_id,
                    round: s.round,
                    log_idx: s.kv_size,
                },
            ),
        ],
    }
}

/// The state with `m` among the commit votes, if it is one.
pub open spec fn with_commit(s: StateView, m: MessageView) -> StateView {
    if m is RepairCommit {
        StateView { repair_commit_msgs: with_message(s.repair_commit_msgs, m), ..s }
    } else {
        s
    }
}

/// The end of the agreement on `m`.
pub open spec fn commit_received(c: ConfigView, s: StateView, m: MessageView) -> Outcome {
    let t = with_commit(s, m);
    match apply_guard(c, t) {
        Some(history_hash) => apply_step(t, history_hash),
        None => Outcome::quiet(t),
    }
}

/// The REPAIR-DONEs of the current view and round.
pub open spec fn current_dones(s: StateView) -> BallotView {
    BallotView::Dones { view: s.view, round: s.round }
}

/// The round that a replica in REPAIR can leave, once `f + 1` replicas are done
/// and the leader's proposal for the current view and round is known.
pub open spec fn catchup_guard(c: ConfigView, s: StateView) -> Option<u64> {
    if s.phase.repairing() && supporters(s.repair_done_msgs, current_dones(s)).len() >= c.f_plus_1
        && leaders_proposal(c, s) is Some {
        Some(s.round)
    } else {
        None
    }
}

/// The transition: start the next round over the log as it is.
pub open spec fn catchup_step(s: StateView) -> Outcome {
    Outcome::quiet(next_round(s, s.kv_size))
}

/// The state with `m` among the REPAIR-DONEs, if it is one.
pub open spec fn with_done(s: StateView, m: MessageView) -> StateView {
    if m is RepairDone {
        StateView { repair_done_msgs: with_message(s.repair_done_msgs, m), ..s }
    } else {
        s
    }
}

/// Catching up on `m`.
pub open spec fn done_received(c: ConfigView, s: StateView, m: MessageView) -> Outcome {
    let t = with_done(s, m);
    match catchup_guard(c, t) {
        Some(_) => catchup_step(t),
        None => Outcome::quiet(t),
    }
}

/// The view to change to when `e` fires: only while logs are collected.
pub open spec fn view_change_guard(s: StateView, e: Event) -> Option<u64> {
    if s.phase == Phase::CollectingLogs && e == Event::RepairViewTimeout {
        Some((s.view + 1) as u64)
    } else {
        None
    }
}

/// The transition: send the log summary to the leader of the new view.
pub open spec fn view_change_step(s: StateView, new_view: u64) -> Outcome {
    Outcome {
        state: StateView { view: new_view, ..s },
        effects: seq![log_summary(s, new_view)],
    }
}

/// The history to propose, if this replica has to propose one.
pub fn can_broadcast_history(replica: &Replica) -> (r: Option<u64>)
    ensures
        r == broadcast_history_guard(replica.config@, replica.state@),
{
    if replica.state.phase != Phase::CollectingLogs {
        return None;
    }
    if !replica.is_leader() {
        return None;
    }
    let ballot = Ballot::Logs { view: replica.state.view, round: replica.state.round };
    assert(ballot@ == current_logs(replica.state@));
    let senders: usize = replica.state.log_msgs.count(&ballot);
    if senders >= replica.config.byz_quorum {
        Some(senders as u64)
    } else {
        None
    }
}

/// Proposes a history and advances to the prepare phase.
pub fn handle_broadcast_history(replica: &mut Replica, history_hash: u64) -> (r: Vec<Effect>)
    ensures
        final(replica).state@ == broadcast_history_step(old(replica).state@, history_hash).state,
        effect_values(r@) == broadcast_history_step(old(replica).state@, history_hash).effects,
        final(replica).config == old(replica).config,
{
    replica.state.phase = Phase::PreparePhase;
    replica.state.proposed_history_hash = history_hash;
    one_effect(
        Effect::Broadcast(
            Message::RepairHistory {
                from: replica.state.node_id.clone(),
                view: replica.state.view,
                round: replica.state.round,
                history_hash,
            },
        ),
    )
}

/// Keeps `msg` if it is a LOG, and proposes a history where that is due.
pub fn on_receive_log_msg(replica: &mut Replica, msg: &Message) -> (r: Vec<Effect>)
    ensures
        final(replica).state@ == log_received(
            old(replica).config@,
            old(replica).state@,
            msg@,
        ).state,
        effect_values(r@) == log_received(old(replica).config@, old(replica).state@, msg@).effects,
        final(replica).config == old(replica).config,
{
    if matches!(msg, Message::LogMsg { .. }) {
        replica.state.log_msgs.insert(msg.clone());
    }
    assert(replica.state@ =~= with_log(old(replica).state@, msg@));
    if let Some(history_hash) = can_broadcast_history(replica) {
        handle_broadcast_history(replica, history_hash)
    } else {
        no_effects()
    }
}

/// The history that the leader of the current view has proposed for the current
/// round, if it has.
pub fn find_leaders_proposal(replica: &Replica) -> (r: Option<u64>)
    ensures
        r == leaders_proposal(replica.config@, replica.state@),
{
    replica.state.repair_history_msgs.find_proposal(
        replica.state.view,
        replica.state.round,
        replica.leader(),
    )
}

/// The history to vote for, if the leader has proposed one.
pub fn can_repair_prepare(replica: &Replica) -> (r: Option<u64>)
    ensures
        r == prepare_guard(replica.config@, replica.state@),
{
    if replica.state.phase != Phase::CollectingLogs && replica.state.phase
        != Phase::PreparePhase {
        return None;
    }
    find_leaders_proposal(replica)
}

/// Votes for the history and advances to the prepare phase.
pub fn handle_repair_prepare(replica: &mut Replica, history_hash: u64) -> (r: Vec<Effect>)
    ensures
        final(replica).state@ == prepare_step(old(replica).state@, history_hash).state,
        effect_values(r@) == prepare_step(old(replica).state@, history_hash).effects,
        final(replica).config == old(replica).config,
{
    replica.state.phase = Phase::PreparePhase;
    replica.state.proposed_history_hash = history_hash;
    one_effect(
        Effect::Broadcast(
            Message::RepairPrepare {
                from: replica.state.node_id.clone(),
                view: replica.state.view,
                round: replica.state.round,
                history_hash,
            },
        ),
    )
}

/// Keeps `msg` if it is a REPAIR-HISTORY, and votes where that is possible.
pub fn on_receive_repair_history(replica: &mut Replica, msg: &Message) -> (r: Vec<Effect>)
    ensures
        final(replica).state@ == history_received(
            old(replica).config@,
            old(replica).state@,
            msg@,
        ).state,
        effect_values(r@) == history_received(
            old(replica).config@,
            old(replica).state@,
            msg@,
        ).effects,
        final(replica).config == old(replica).config,
{
    if matches!(msg, Message::RepairHistory { .. }) {
        replica.state.repair_history_msgs.insert(msg.clone());
    }
    assert(replica.state@ =~= with_history(old(replica).state@, msg@));
    if let Some(history_hash) = can_repair_prepare(replica) {
        handle_repair_prepare(replica, history_hash)
    } else {
        no_effects()
    }
}

/// The history to cast a commit vote for, if it is prepared.
pub fn can_repair_commit(replica: &Replica) -> (r: Option<u64>)
    ensures
        r == commit_guard(replica.config@, replica.state@),
{
    if replica.state.phase != Phase::PreparePhase {
        return None;
    }
    let history_hash: u64 = replica.state.proposed_history_hash;
    let ballot = Ballot::Prepares {
        view: replica.state.view,
        round: replica.state.round,
        history_hash,
    };
    assert(ballot@ == current_prepares(replica.state@));
    if replica.state.repair_prepare_msgs.count(&ballot) >= replica.config.byz_quorum {
        Some(history_hash)
    } else {
        None
    }
}

/// Casts the commit vote and advances to the commit phase.
pub fn handle_repair_commit(replica: &mut Replica, history_hash: u64) -> (r: Vec<Effect>)
    ensures
        final(replica).state@ == commit_step(old(replica).state@, history_hash).state,
        effect_values(r@) == commit_step(old(replica).state@, history_hash).effects,
        final(replica).config == old(replica).config,
{
    replica.state.phase = Phase::CommitPhase;
    one_effect(
        Effect::Broadcast(
            Message::RepairCommit {
                from: replica.state.node_id.clone(),
                view: replica.state.view,
                round: replica.state.round,
                history_hash,
            },
        ),
    )
}

/// Keeps `msg` if it is a REPAIR-PREPARE, and casts the commit vote where that
/// is possible.
pub fn on_receive_repair_prepare(replica: &mut Replica, msg: &Message) -> (r: Vec<Effect>)
    ensures
        final(replica).state@ == prepare_received(
            old(replica).config@,
            old(replica).state@,
            msg@,
        ).state,
        effect_values(r@) == prepare_received(
            old(replica).config@,
            old(replica).state@,
            msg@,
        ).effects,
        final(replica).config == old(replica).config,
{
    if matches!(msg, Message::RepairPrepare { .. }) {
        replica.state.repair_prepare_msgs.insert(msg.clone());
    }
    assert(replica.state@ =~= with_prepare(old(replica).state@, msg@));
    if let Some(history_hash) = can_repair_commit(replica) {
        handle_repair_commit(replica, history_hash)
    } else {
        no_effects()
    }
}

/// The history to apply, if it is committed.
pub fn can_apply_repair(replica: &Replica) -> (r: Option<u64>)
    ensures
        r == apply_guard(replica.config@, replica.state@),
{
    if replica.state.phase != Phase::CommitPhase {
        return None;
    }
    let history_hash: u64 = replica.state.proposed_history_hash;
    let ballot = Ballot::Commits {
        view: replica.state.view,
        round: replica.state.round,
        history_hash,
    };
    assert(ballot@ == current_commits(replica.state@));
    if replica.state.repair_commit_msgs.count(&ballot) >= replica.config.byz_quorum {
        Some(history_hash)
    } else {
        None
    }
}

/// Starts the next round outside of REPAIR, with `start_idx` as its first
/// index.
fn enter_next_round(replica: &mut Replica, start_idx: u64)
    requires
        old(replica).state.round < u64::MAX,
    ensures
        final(replica).state@ == next_round(old(replica).state@, start_idx),
        final(replica).config == old(replica).config,
{
    replica.state.phase = Phase::Speculative;
    replica.state.round = replica.state.round + 1;
    replica.state.start_idx = start_idx;
    replica.state.eta_star = 0;
    replica.state.in_repair = false;
    replica.state.proposed_history_hash = 0;
}

/// Applies the agreed history, starts the next round, and broadcasts
/// REPAIR-DONE and COMMITTED-REPLY.
pub fn handle_apply_repair(replica: &mut Replica, history_hash: u64) -> (r: Vec<Effect>)
    requires
        old(replica).state.round < u64::MAX,
    ensures
        final(replica).state@ == apply_step(old(replica).state@, history_hash).state,
        effect_values(r@) == apply_step(old(replica).state@, history_hash).effects,
        final(replica).config == old(replica).config,
{
    let old_round: u64 = replica.state.round;
    let old_kv_size: u64 = replica.state.kv_size;
    rebuild_log(replica, history_hash);
    enter_next_round(replica, history_hash);
    replica.state.kv_size = history_hash;
    two_effects(
        Effect::Broadcast(
            Message::RepairDone {
                from: replica.state.node_id.clone(),
                view: replica.state.view,
                round: old_round,
                history_hash,
            },
        ),
        Effect::Broadcast(
            Message::CommittedReply {
                from: replica.state.node_id.clone(),
                round: old_round,
                log_idx: old_kv_size,
            },
        ),
    )
}

/// Keeps `msg` if it is a REPAIR-COMMIT.
pub fn keep_commit(replica: &mut Replica, msg: &Message)
    ensures
        final(replica).state@ == with_commit(old(replica).state@, msg@),
        final(replica).config == old(replica).config,
{
    if matches!(msg, Message::RepairCommit { .. }) {
        replica.state.repair_commit_msgs.insert(msg.clone());
    }
    assert(replica.state@ =~= with_commit(old(replica).state@, msg@));
}

/// Keeps `msg` if it is a REPAIR-COMMIT, and applies the history where it is
/// committed.
pub fn on_receive_repair_commit(replica: &mut Replica, msg: &Message) -> (r: Vec<Effect>)
    requires
        apply_guard(old(replica).config@, with_commit(old(replica).state@, msg@)) is Some
            ==> old(replica).state.round < u64::MAX,
    ensures
        final(replica).state@ == commit_received(
            old(replica).config@,
            old(replica).state@,
            msg@,
        ).state,
        effect_values(r@) == commit_received(
            old(replica).config@,
            old(replica).state@,
            msg@,
        ).effects,
        final(replica).config == old(replica).config,
{
    keep_commit(replica, msg);
    if let Some(history_hash) = can_apply_repair(replica) {
        handle_apply_repair(replica, history_hash)
    } else {
        no_effects()
    }
}

/// The round to leave, if enough replicas are done.
pub fn can_repair_done_catchup(replica: &Replica) -> (r: Option<u64>)
    ensures
        r == catchup_guard(replica.config@, replica.state@),
{
    if !replica.state.phase.is_repairing() {
        return None;
    }
    let view: u64 = replica.state.view;
    let round: u64 = replica.state.round;
    let ballot = Ballot::Dones { view, round };
    assert(ballot@ == current_dones(replica.state@));
    let done: usize = replica.state.repair_done_msgs.count(&ballot);
    let history = find_leaders_proposal(replica);
    if done >= replica.config.f_plus_1 && history.is_some() {
        Some(round)
    } else {
        None
    }
}

/// Leaves REPAIR and starts the next round over the log as it is.
pub fn handle_repair_done_catchup(replica: &mut Replica, _round: u64) -> (r: Vec<Effect>)
    requires
        old(replica).state.round < u64::MAX,
    ensures
        final(replica).state@ == catchup_step(old(replica).state@).state,
        effect_values(r@) == catchup_step(old(replica).state@).effects,
        final(replica).config == old(replica).config,
{
    let start_idx: u64 = replica.state.kv_size;
    enter_next_round(replica, start_idx);
    no_effects()
}

/// Keeps `msg` if it is a REPAIR-DONE.
pub fn keep_done(replica: &mut Replica, msg: &Message)
    ensures
        final(replica).state@ == with_done(old(replica).state@, msg@),
        final(replica).config == old(replica).config,
{
    if matches!(msg, Message::RepairDone { .. }) {
        replica.state.repair_done_msgs.insert(msg.clone());
    }
    assert(replica.state@ =~= with_done(old(replica).state@, msg@));
}

/// Keeps `msg` if it is a REPAIR-DONE, and catches up where that is possible.
pub fn on_receive_repair_done(replica: &mut Replica, msg: &Message) -> (r: Vec<Effect>)
    requires
        catchup_guard(old(replica).config@, with_done(old(replica).state@, msg@)) is Some
            ==> old(replica).state.round < u64::MAX,
    ensures
        final(replica).state@ == done_received(
            old(replica).config@,
            old(replica).state@,
            msg@,
        ).state,
        effect_values(r@) == done_received(old(replica).config@, old(replica).state@, msg@).effects,
        final(replica).config == old(replica).config,
{
    keep_done(replica, msg);
    if let Some(round) = can_repair_done_catchup(replica) {
        handle_repair_done_catchup(replica, round)
    } else {
        no_effects()
    }
}

/// The view to change to when `event` fires, if the view changes.
pub fn can_view_change(replica: &Replica, event: &Event) -> (r: Option<u64>)
    requires
        view_change_guard(replica.state@, *event) is Some ==> replica.state.view < u64::MAX,
    ensures
        r == view_change_guard(replica.state@, *event),
{
    if replica.state.phase != Phase::CollectingLogs {
        return None;
    }
    if matches!(event, Event::RepairViewTimeout) {
        Some(replica.state.view + 1)
    } else {
        None
    }
}

/// Enters the new view and sends the log summary to its leader.
pub fn handle_view_change(replica: &mut Replica, new_view: u64) -> (r: Vec<Effect>)
    ensures
        final(replica).state@ == view_change_step(old(replica).state@, new_view).state,
        effect_values(r@) == view_change_step(old(replica).state@, new_view).effects,
        final(replica).config == old(replica).config,
{
    replica.state.view = new_view;
    one_effect(make_log_msg(replica, new_view))
}

} // verus!
