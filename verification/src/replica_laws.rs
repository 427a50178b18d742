//! What holds of every replica, whatever it receives.

use vstd::prelude::*;

use crate::alignment::{
    align_guard, checkpoint_received, conflicting_checkpoints, state_reply_guard,
    state_reply_received, state_reply_step, state_request_received, with_checkpoint,
};
use crate::checkpoint::{checkpoint_guard, sync_received, sync_threshold_passed};
use crate::codec::{entry_digest, storable};
use crate::config::ConfigView;
use crate::effect::EffectView;
use crate::entry::EntryView;
use crate::event::Event;
use crate::fast_path::{
    chained_entry, prev_digest, reply_of, speculate_guard, speculate_received, speculate_step,
};
use crate::log::{
    chained, dense, digest_or_zero, law_synthetic_size, lemma_dense_size, log_size,
};
use crate::message::{zero_hash, MessageView};
use crate::phase::Phase;
use crate::quorum::{first_proposal, proposal, supporters, with_message, BallotView};
use crate::quorum_laws::{law_message_is_kept, law_votes_grow};
use crate::repair::{
    apply_guard, catchup_guard, commit_received, done_received, history_received, log_received,
    leaders_proposal, prepare_guard, prepare_received, with_commit, with_done,
};
use crate::repair_entry::{
    conflict_checked, conflict_guard, proof_received, timeout_received,
};
use crate::replica::{
    applied_history, before_exit, before_votes, entry_outcome, event_fits, event_outcome,
    fast_path_outcome, initial_state, leads, message_fits, message_outcome, noted,
    overflow_state, room_for, vote_outcome,
};
use crate::state::{Outcome, StateView};

verus! {

/// Every message is kept in the set of its kind.
pub open spec fn messages_in_place(s: StateView) -> bool {
    &&& forall|i: int| 0 <= i < s.sync_msgs.len() ==> (#[trigger] s.sync_msgs[i]) is Sync
    &&& forall|i: int| 0 <= i < s.ack_msgs.len() ==> (#[trigger] s.ack_msgs[i]) is SpecReply
    &&& forall|i: int| 0 <= i < s.chkpt_msgs.len() ==> (#[trigger] s.chkpt_msgs[i]) is Checkpoint
    &&& forall|i: int|
        0 <= i < s.timeout_msgs.len() ==> (#[trigger] s.timeout_msgs[i]) is TimeoutMsg
    &&& forall|i: int| 0 <= i < s.log_msgs.len() ==> (#[trigger] s.log_msgs[i]) is LogMsg
    &&& forall|i: int|
        0 <= i < s.repair_history_msgs.len() ==> (#[trigger] s.repair_history_msgs[i])
            is RepairHistory
    &&& forall|i: int|
        0 <= i < s.repair_prepare_msgs.len() ==> (#[trigger] s.repair_prepare_msgs[i])
            is RepairPrepare
    &&& forall|i: int|
        0 <= i < s.repair_commit_msgs.len() ==> (#[trigger] s.repair_commit_msgs[i])
            is RepairCommit
    &&& forall|i: int|
        0 <= i < s.repair_done_msgs.len() ==> (#[trigger] s.repair_done_msgs[i]) is RepairDone
}

/// What holds of a replica between messages: `in_repair` tells whether the phase
/// is one of REPAIR, a history is proposed only while it is voted on, the round
/// starts inside the log, and messages are kept by kind.
pub open spec fn well_formed(s: StateView) -> bool {
    &&& s.in_repair == s.phase.repairing()
    &&& s.proposed_history_hash != 0 ==> s.phase == Phase::PreparePhase || s.phase
        == Phase::CommitPhase
    &&& s.start_idx <= s.kv_size
    &&& messages_in_place(s)
}

/// What no message changes: who the replica is, its view, and that a message once
/// received is kept, in its place.
pub open spec fn keeps_identity(s: StateView, t: StateView) -> bool {
    &&& t.node_id == s.node_id
    &&& t.view == s.view
    &&& s.sync_msgs.is_prefix_of(t.sync_msgs)
    &&& s.ack_msgs.is_prefix_of(t.ack_msgs)
    &&& s.chkpt_msgs.is_prefix_of(t.chkpt_msgs)
    &&& s.timeout_msgs.is_prefix_of(t.timeout_msgs)
    &&& s.log_msgs.is_prefix_of(t.log_msgs)
    &&& s.repair_history_msgs.is_prefix_of(t.repair_history_msgs)
    &&& s.repair_prepare_msgs.is_prefix_of(t.repair_prepare_msgs)
    &&& s.repair_commit_msgs.is_prefix_of(t.repair_commit_msgs)
    &&& s.repair_done_msgs.is_prefix_of(t.repair_done_msgs)
}

/// What a transition within a round keeps.
pub open spec fn stays_in_round(s: StateView, t: StateView) -> bool {
    &&& keeps_identity(s, t)
    &&& t.round == s.round
    &&& t.eta_star >= s.eta_star
    &&& well_formed(s) ==> well_formed(t)
}

proof fn lemma_prefix(msgs: Seq<MessageView>, m: MessageView)
    ensures
        msgs.is_prefix_of(with_message(msgs, m)),
{
    assert(msgs =~= with_message(msgs, m).take(msgs.len() as int));
}

proof fn lemma_stays_transitive(s: StateView, t: StateView, u: StateView)
    requires
        stays_in_round(s, t),
        stays_in_round(t, u),
    ensures
        stays_in_round(s, u),
{
}

proof fn lemma_speculate_stays(s: StateView, m: MessageView)
    requires
        speculate_guard(s, m) is Some ==> s.kv_size < u64::MAX,
    ensures
        stays_in_round(s, speculate_received(noted(s, m), m).state),
{
    lemma_prefix(s.ack_msgs, m);
}

proof fn lemma_sync_stays(c: ConfigView, s: StateView, m: MessageView)
    ensures
        stays_in_round(s, sync_threshold_passed(s).state),
        stays_in_round(s, sync_received(c, s, m).state),
{
    lemma_prefix(s.sync_msgs, m);
}

proof fn lemma_checkpoint_stays(c: ConfigView, s: StateView, m: MessageView)
    ensures
        stays_in_round(s, checkpoint_received(c, s, m).state),
{
    lemma_prefix(s.chkpt_msgs, m);
}

proof fn lemma_entry_stays(c: ConfigView, s: StateView, m: MessageView)
    ensures
        stays_in_round(s, conflict_checked(c, s).state),
        stays_in_round(s, timeout_received(c, s, m).state),
        stays_in_round(s, proof_received(s, m).state),
        stays_in_round(s, state_request_received(s, m).state),
{
    lemma_prefix(s.timeout_msgs, m);
}

proof fn lemma_reply_stays(s: StateView, m: MessageView)
    requires
        state_reply_guard(s, m) != Some(u64::MAX),
    ensures
        stays_in_round(s, state_reply_received(s, m).state),
{
}

proof fn lemma_log_stays(c: ConfigView, s: StateView, m: MessageView)
    ensures
        stays_in_round(s, log_received(c, s, m).state),
{
    lemma_prefix(s.log_msgs, m);
}

proof fn lemma_history_stays(c: ConfigView, s: StateView, m: MessageView)
    ensures
        stays_in_round(s, history_received(c, s, m).state),
{
    lemma_prefix(s.repair_history_msgs, m);
}

proof fn lemma_prepare_stays(c: ConfigView, s: StateView, m: MessageView)
    ensures
        stays_in_round(s, prepare_received(c, s, m).state),
{
    lemma_prefix(s.repair_prepare_msgs, m);
}

/// Up to the end of REPAIR a message keeps the round.
pub proof fn lemma_before_exit_stays(c: ConfigView, s: StateView, m: MessageView)
    requires
        speculate_guard(s, m) is Some ==> s.kv_size < u64::MAX,
        state_reply_guard(before_votes(c, s, m), m) != Some(u64::MAX),
    ensures
        stays_in_round(s, before_exit(c, s, m)),
{
    let a1 = speculate_received(noted(s, m), m).state;
    let a2 = sync_threshold_passed(a1).state;
    let a3 = sync_received(c, a2, m).state;
    let a4 = checkpoint_received(c, a3, m).state;
    lemma_speculate_stays(s, m);
    lemma_sync_stays(c, a1, m);
    lemma_stays_transitive(s, a1, a2);
    lemma_sync_stays(c, a2, m);
    lemma_stays_transitive(s, a2, a3);
    lemma_checkpoint_stays(c, a3, m);
    lemma_stays_transitive(s, a3, a4);
    let b1 = conflict_checked(c, a4).state;
    let b2 = timeout_received(c, b1, m).state;
    let b3 = proof_received(b2, m).state;
    let b4 = state_request_received(b3, m).state;
    lemma_entry_stays(c, a4, m);
    lemma_stays_transitive(s, a4, b1);
    lemma_entry_stays(c, b1, m);
    lemma_stays_transitive(s, b1, b2);
    lemma_entry_stays(c, b2, m);
    lemma_stays_transitive(s, b2, b3);
    lemma_entry_stays(c, b3, m);
    lemma_stays_transitive(s, b3, b4);
    let d1 = state_reply_received(b4, m).state;
    let d2 = log_received(c, d1, m).state;
    let d3 = history_received(c, d2, m).state;
    let d4 = prepare_received(c, d3, m).state;
    lemma_reply_stays(b4, m);
    lemma_stays_transitive(s, b4, d1);
    lemma_log_stays(c, d1, m);
    lemma_stays_transitive(s, d1, d2);
    lemma_history_stays(c, d2, m);
    lemma_stays_transitive(s, d2, d3);
    lemma_prepare_stays(c, d3, m);
    lemma_stays_transitive(s, d3, d4);
}

/// What the end of REPAIR keeps: the replica stays in its round, or it leaves
/// REPAIR and starts the next one.
pub open spec fn may_leave_round(s: StateView, t: StateView) -> bool {
    &&& keeps_identity(s, t)
    &&& well_formed(s) ==> well_formed(t)
    &&& t.round == s.round ==> t.eta_star == s.eta_star && t.phase == s.phase && t.in_repair
        == s.in_repair && t.proposed_history_hash == s.proposed_history_hash
    &&& t.round != s.round ==> t.round == s.round + 1 && s.phase.repairing() && t.phase
        == Phase::Speculative && !t.in_repair && t.eta_star == 0
}

pub proof fn lemma_commit_exit(c: ConfigView, s: StateView, m: MessageView)
    requires
        apply_guard(c, with_commit(s, m)) is Some ==> s.round < u64::MAX,
    ensures
        may_leave_round(s, commit_received(c, s, m).state),
{
    lemma_prefix(s.repair_commit_msgs, m);
}

pub proof fn lemma_done_exit(c: ConfigView, s: StateView, m: MessageView)
    requires
        catchup_guard(c, with_done(s, m)) is Some ==> s.round < u64::MAX,
    ensures
        may_leave_round(s, done_received(c, s, m).state),
{
    lemma_prefix(s.repair_done_msgs, m);
}

/// What a message does to a replica as a whole.
pub proof fn lemma_message(c: ConfigView, s: StateView, m: MessageView)
    requires
        message_fits(c, s, m),
    ensures
        stays_in_round(s, before_exit(c, s, m)),
        may_leave_round(before_exit(c, s, m), message_outcome(c, s, m).state),
{
    let t = before_exit(c, s, m);
    let u = commit_received(c, t, m).state;
    lemma_before_exit_stays(c, s, m);
    lemma_commit_exit(c, t, m);
    lemma_done_exit(c, u, m);
}

/// Nothing before the end of REPAIR takes a replica out of it.
proof fn lemma_stays_in_repair(c: ConfigView, s: StateView, m: MessageView)
    requires
        well_formed(s),
        s.in_repair,
    ensures
        before_exit(c, s, m).in_repair,
{
    let a = fast_path_outcome(c, s, m).state;
    assert(a.phase == s.phase && a.in_repair);
    let b = entry_outcome(c, a, m).state;
    assert(b.phase == s.phase && b.in_repair);
}

/// A new replica is well formed. It stands at the start of the first round and view,
/// on the fast path; its log is empty, its checkpoint is at zero, and it has heard
/// nothing.
pub proof fn law_initial_state(node_id: Seq<char>)
    ensures
        well_formed(initial_state(node_id)),
        dense(initial_state(node_id).log, initial_state(node_id).kv_size),
        ({
            let s = initial_state(node_id);
            &&& s.node_id == node_id && s.phase == Phase::Speculative && !s.in_repair
            &&& s.round == 0 && s.view == 0 && s.eta_star == 0 && s.proposed_history_hash == 0
            &&& s.kv_size == 0 && s.start_idx == 0 && s.log.dom() =~= Set::<u64>::empty()
            &&& s.chkpt_idx == 0 && s.chkpt_hash.len() == 32 && forall|i: int|
                0 <= i < 32 ==> #[trigger] s.chkpt_hash[i] == 0
            &&& s.sync_msgs.len() == 0 && s.ack_msgs.len() == 0 && s.chkpt_msgs.len() == 0
                && s.timeout_msgs.len() == 0
            &&& s.log_msgs.len() == 0 && s.repair_history_msgs.len() == 0
                && s.repair_prepare_msgs.len() == 0 && s.repair_commit_msgs.len() == 0
                && s.repair_done_msgs.len() == 0
        }),
{
}

/// A replica can process any message while its counters are below their limits.
pub proof fn law_room_is_enough(c: ConfigView, s: StateView, m: MessageView)
    requires
        room_for(s, m),
    ensures
        message_fits(c, s, m),
{
    let t = before_exit(c, s, m);
    lemma_before_exit_stays(c, s, m);
    lemma_commit_exit(c, t, m);
}

/// There is room for a message as long as the round and the length of the log can
/// grow by one, and so can the index of a STATE-REPLY.
pub proof fn law_room_ends_at_the_limits(c: ConfigView, s: StateView, m: MessageView)
    ensures
        room_for(s, m) <==> s.round + 1 <= u64::MAX && s.kv_size + 1 <= u64::MAX && (m matches
            MessageView::StateReply { chkpt_idx, .. } ==> chkpt_idx + 1 <= u64::MAX),
        room_for(s, m) ==> message_fits(c, s, m),
{
    if room_for(s, m) {
        law_room_is_enough(c, s, m);
    }
}

/// A message is refused only for a counter at its limit, and before that counter is
/// moved: the length of a log that a request would extend, the index of a STATE-REPLY
/// to an aligning replica, or the round that a replica in REPAIR would leave. The
/// replica keeps its name, its view and its round, and the vote that it cannot act on.
pub proof fn law_refusals_name_a_limit(c: ConfigView, s: StateView, m: MessageView)
    requires
        !message_fits(c, s, m),
    ensures
        ({
            let o = overflow_state(c, s, m);
            ||| m is Speculate && s.phase == Phase::Speculative && s.kv_size == u64::MAX && o == s
            ||| (m matches MessageView::StateReply { chkpt_idx, .. } && chkpt_idx == u64::MAX)
                && o.phase == Phase::Aligning && o.log == s.log && o.node_id == s.node_id && o.view
                == s.view && o.round == s.round
            ||| s.round == u64::MAX && o.phase.repairing() && o.node_id == s.node_id && o.view
                == s.view && o.round == s.round && (m is RepairCommit
                ==> o.repair_commit_msgs.contains(m)) && (m is RepairDone
                ==> o.repair_done_msgs.contains(m) || o.phase == Phase::CommitPhase && supporters(
                o.repair_commit_msgs,
                BallotView::Commits {
                    view: s.view,
                    round: s.round,
                    history_hash: o.proposed_history_hash,
                },
            ).len() >= c.byz_quorum)
        }),
{
    if speculate_guard(s, m) is Some && s.kv_size == u64::MAX {
    } else if state_reply_guard(before_votes(c, s, m), m) == Some(u64::MAX) {
        lemma_reply_arrives(c, s, m);
    } else {
        let t = before_exit(c, s, m);
        lemma_before_exit_stays(c, s, m);
        law_message_is_kept(t.repair_commit_msgs, m);
        law_message_is_kept(commit_received(c, t, m).state.repair_done_msgs, m);
        if applied_history(c, s, m) is Some && t.round == u64::MAX {
        } else {
            lemma_commit_exit(c, t, m);
        }
    }
}

/// A STATE-REPLY finds the log and the place of the replica as they were.
proof fn lemma_reply_arrives(c: ConfigView, s: StateView, m: MessageView)
    requires
        m is StateReply,
    ensures
        ({
            let t = before_votes(c, s, m);
            t.log == s.log && t.node_id == s.node_id && t.view == s.view && t.round == s.round
        }),
{
    let a = fast_path_outcome(c, s, m).state;
    assert(a.log == s.log && a.node_id == s.node_id && a.view == s.view && a.round == s.round);
}

/// An event is refused only where the view timer fires at the last view.
pub proof fn law_refused_events_name_a_limit(s: StateView, e: Event)
    ensures
        event_fits(s, e) <==> !(e == Event::RepairViewTimeout && s.phase == Phase::CollectingLogs
            && s.view == u64::MAX),
{
}

/// A message leaves a well-formed replica well formed.
pub proof fn law_message_keeps_well_formed(c: ConfigView, s: StateView, m: MessageView)
    requires
        well_formed(s),
        message_fits(c, s, m),
    ensures
        well_formed(message_outcome(c, s, m).state),
{
    lemma_message(c, s, m);
}

/// A message changes neither who the replica is nor its view, and no message is
/// forgotten.
pub proof fn law_message_keeps_identity(c: ConfigView, s: StateView, m: MessageView)
    requires
        message_fits(c, s, m),
    ensures
        keeps_identity(s, message_outcome(c, s, m).state),
{
    lemma_message(c, s, m);
}

/// Rounds never go back and are never skipped: a message leaves the round as it
/// is, or the replica starts the next round on the fast path, outside of REPAIR.
pub proof fn law_round_moves_by_one(c: ConfigView, s: StateView, m: MessageView)
    requires
        message_fits(c, s, m),
    ensures
        ({
            let t = message_outcome(c, s, m).state;
            t.round == s.round || (t.round == s.round + 1 && t.phase == Phase::Speculative
                && !t.in_repair && t.eta_star == 0)
        }),
{
    lemma_message(c, s, m);
}

/// The largest sequence number of a round never falls, and no request of the
/// round has a larger one.
pub proof fn law_eta_star_is_largest(c: ConfigView, s: StateView, m: MessageView)
    requires
        message_fits(c, s, m),
        message_outcome(c, s, m).state.round == s.round,
    ensures
        message_outcome(c, s, m).state.eta_star >= s.eta_star,
        m matches MessageView::Speculate { eta, .. } ==> message_outcome(c, s, m).state.eta_star
            >= eta,
{
    lemma_message(c, s, m);
    if let MessageView::Speculate { eta, .. } = m {
        let noted_state = noted(s, m);
        assert(noted_state.eta_star >= eta);
        assert(noted(noted_state, m) =~= noted_state);
        assert(message_outcome(c, noted_state, m) == message_outcome(c, s, m));
        lemma_message(c, noted_state, m);
    }
}

/// A replica leaves REPAIR only by starting the next round.
pub proof fn law_repair_ends_the_round(c: ConfigView, s: StateView, m: MessageView)
    requires
        well_formed(s),
        s.in_repair,
        message_fits(c, s, m),
    ensures
        message_outcome(c, s, m).state.in_repair || message_outcome(c, s, m).state.round == s.round
            + 1,
{
    lemma_message(c, s, m);
    lemma_stays_in_repair(c, s, m);
}

/// An event leaves a well-formed replica well formed.
pub proof fn law_event_keeps_well_formed(s: StateView, e: Event)
    requires
        well_formed(s),
        event_fits(s, e),
    ensures
        well_formed(event_outcome(s, e).state),
{
}

/// The sync and checkpoint timers change nothing; they only make the replica
/// speak.
pub proof fn law_timers_change_nothing(s: StateView, e: Event)
    requires
        e != Event::RepairViewTimeout,
    ensures
        event_outcome(s, e).state == s,
{
}

/// The view timer moves a replica that collects logs to the next view, and
/// changes nothing else.
pub proof fn law_view_moves_by_one(s: StateView)
    requires
        event_fits(s, Event::RepairViewTimeout),
    ensures
        event_outcome(s, Event::RepairViewTimeout).state == (if s.phase == Phase::CollectingLogs {
            StateView { view: (s.view + 1) as u64, ..s }
        } else {
            s
        }),
{
}

/// The log holds `kv_size` entries, without gaps, and a message keeps that.
pub proof fn law_log_has_no_gaps(c: ConfigView, s: StateView, m: MessageView)
    requires
        dense(s.log, s.kv_size),
        message_fits(c, s, m),
    ensures
        dense(message_outcome(c, s, m).state.log, message_outcome(c, s, m).state.kv_size),
        log_size(message_outcome(c, s, m).state.log) == message_outcome(c, s, m).state.kv_size,
{
    let a = fast_path_outcome(c, s, m).state;
    assert(dense(a.log, a.kv_size));
    let b = entry_outcome(c, a, m).state;
    assert(b.log == a.log && b.kv_size == a.kv_size);
    let d = vote_outcome(c, b, m).state;
    if state_reply_guard(b, m) is Some {
        law_synthetic_size((state_reply_guard(b, m)->0 + 1) as nat);
    }
    assert(dense(d.log, d.kv_size));
    let t = commit_received(c, d, m).state;
    if let Some(h) = applied_history(c, s, m) {
        law_synthetic_size(h as nat);
    }
    assert(dense(t.log, t.kv_size));
    let u = message_outcome(c, s, m).state;
    assert(u.log == t.log && u.kv_size == t.kv_size);
    lemma_dense_size(u.log, u.kv_size);
}

/// What has been executed stays: as long as the log is not rebuilt, by a recovery
/// or a repair, a message changes no entry of it.
pub proof fn law_log_is_append_only(c: ConfigView, s: StateView, m: MessageView, k: u64)
    requires
        dense(s.log, s.kv_size),
        message_fits(c, s, m),
        state_reply_guard(before_votes(c, s, m), m) is None,
        applied_history(c, s, m) is None,
        k < s.kv_size,
    ensures
        message_outcome(c, s, m).state.log.contains_key(k),
        message_outcome(c, s, m).state.log[k] == s.log[k],
        message_outcome(c, s, m).state.kv_size >= s.kv_size,
{
    let a = fast_path_outcome(c, s, m).state;
    assert(a.log.contains_key(k) && a.log[k] == s.log[k] && a.kv_size >= s.kv_size);
    let b = entry_outcome(c, a, m).state;
    assert(b.log == a.log && b.kv_size == a.kv_size);
    let d = vote_outcome(c, b, m).state;
    assert(d.log == b.log && d.kv_size == b.kv_size);
}

/// Requests are executed on the fast path only: in any other phase the log stays
/// as it is, unless it is rebuilt.
pub proof fn law_only_the_fast_path_executes(c: ConfigView, s: StateView, m: MessageView)
    requires
        s.phase != Phase::Speculative,
        message_fits(c, s, m),
        state_reply_guard(before_votes(c, s, m), m) is None,
        applied_history(c, s, m) is None,
    ensures
        message_outcome(c, s, m).state.log == s.log,
        message_outcome(c, s, m).state.kv_size == s.kv_size,
{
    let a = fast_path_outcome(c, s, m).state;
    assert(a.log == s.log && a.kv_size == s.kv_size);
    let b = entry_outcome(c, a, m).state;
    assert(b.log == a.log && b.kv_size == a.kv_size);
    let d = vote_outcome(c, b, m).state;
    assert(d.log == b.log && d.kv_size == b.kv_size);
}

/// The log of a replica that has executed `k` requests and done nothing else.
pub open spec fn executed_log(k: nat) -> Map<u64, EntryView>
    decreases k,
{
    if k == 0 {
        Map::empty()
    } else {
        let rest = executed_log((k - 1) as nat);
        let idx = (k - 1) as u64;
        rest.insert(
            idx,
            chained_entry(
                idx,
                if idx == 0 {
                    zero_hash()
                } else {
                    digest_or_zero(rest, (idx - 1) as u64)
                },
            ),
        )
    }
}

/// Correct replicas that execute the same number of requests have the same log:
/// execution goes from the log of `k` requests to the log of one more, whichever
/// the request is.
pub proof fn law_execution_is_deterministic(s: StateView)
    requires
        s.log == executed_log(s.kv_size as nat),
        s.kv_size < u64::MAX,
    ensures
        speculate_step(s, s.kv_size).state.kv_size == s.kv_size + 1,
        speculate_step(s, s.kv_size).state.log == executed_log(s.kv_size as nat + 1),
{
}

/// The log of executed requests is a hash chain: every entry holds the digest of
/// the one before it, and the first holds zeros.
#[verifier::rlimit(40)]
pub proof fn law_executed_log_is_chained(k: nat)
    requires
        k <= u64::MAX,
    ensures
        dense(executed_log(k), k as u64),
        chained(executed_log(k), k as u64),
        forall|i: u64| #[trigger]
            executed_log(k).contains_key(i) ==> executed_log(k)[i].op_hash == i && executed_log(
                k,
            )[i].result.len() == 0,
    decreases k,
{
    if k > 0 {
        let rest = executed_log((k - 1) as nat);
        let log = executed_log(k);
        let idx = (k - 1) as u64;
        law_executed_log_is_chained((k - 1) as nat);
        assert forall|i: u64| i < k implies (#[trigger] log[i]).prev_hash == (if i == 0 {
            zero_hash()
        } else {
            entry_digest(log[(i - 1) as u64])
        }) by {
            if i < idx {
                assert(rest[i].prev_hash == log[i].prev_hash);
            } else if i > 0 {
                let prev = (i - 1) as u64;
                assert(rest.contains_key(prev));
                assert(rest[prev].result.len() == 0);
                assert(storable(0));
            }
        }
    }
}

/// Execution extends the hash chain: where the log is a chain of entries that can
/// be hashed, it is one with the new entry.
#[verifier::rlimit(40)]
pub proof fn law_execution_extends_the_chain(s: StateView)
    requires
        dense(s.log, s.kv_size),
        chained(s.log, s.kv_size),
        forall|i: u64| #[trigger] s.log.contains_key(i) ==> storable(s.log[i].result.len()),
        s.kv_size < u64::MAX,
    ensures
        ({
            let t = speculate_step(s, s.kv_size).state;
            &&& dense(t.log, t.kv_size)
            &&& chained(t.log, t.kv_size)
            &&& forall|i: u64| #[trigger] t.log.contains_key(i) ==> storable(t.log[i].result.len())
        }),
{
    let t = speculate_step(s, s.kv_size).state;
    assert(storable(0));
    assert forall|i: u64| i < t.kv_size implies (#[trigger] t.log[i]).prev_hash == (if i == 0 {
        zero_hash()
    } else {
        entry_digest(t.log[(i - 1) as u64])
    }) by {
        if i < s.kv_size {
            assert(s.log[i].prev_hash == t.log[i].prev_hash);
        } else if i > 0 {
            assert(s.log.contains_key((i - 1) as u64));
        }
    }
}

/// A log top never counts both as a checkpoint and as a conflict.
pub proof fn law_checkpoint_or_conflict(c: ConfigView, s: StateView)
    ensures
        !(checkpoint_guard(c, s) is Some && conflict_guard(c, s) is Some),
{
}

/// A replica that aligns executes nothing: a request changes only the largest
/// sequence number, and has no effect.
pub proof fn law_aligning_executes_nothing(c: ConfigView, s: StateView, m: MessageView)
    requires
        s.phase == Phase::Aligning,
        m is Speculate,
    ensures
        message_outcome(c, s, m).state == noted(s, m),
        message_outcome(c, s, m).effects == Seq::<EffectView>::empty(),
{
}

/// Every state request is answered, in any phase, with the checkpoint of the
/// replica.
pub proof fn law_state_request_is_answered(c: ConfigView, s: StateView, m: MessageView)
    requires
        m is StateRequest,
    ensures
        ({
            let o = message_outcome(c, s, m);
            o.effects.contains(
                EffectView::Send {
                    to: m->StateRequest_from,
                    message: MessageView::StateReply {
                        from: s.node_id,
                        chkpt_idx: o.state.chkpt_idx,
                        chkpt_hash: o.state.chkpt_hash,
                    },
                },
            )
        }),
{
    let a = fast_path_outcome(c, s, m);
    let b1 = conflict_checked(c, a.state);
    let b2 = timeout_received(c, b1.state, m);
    let b3 = proof_received(b2.state, m);
    let b4 = state_request_received(b3.state, m);
    let b = entry_outcome(c, a.state, m);
    let o = message_outcome(c, s, m);
    let answer = b4.effects[0];
    let before = a.effects + (b1.effects + b2.effects + b3.effects);
    assert(o.effects[before.len() as int] == answer);
    assert(o.state.chkpt_idx == b3.state.chkpt_idx);
    assert(o.state.chkpt_hash == b3.state.chkpt_hash);
    assert(b3.state.node_id == s.node_id);
}

/// Whether the effect is a commit vote.
pub open spec fn is_commit_vote(e: EffectView) -> bool {
    e matches EffectView::Broadcast(m) && m is RepairCommit
}

pub proof fn lemma_contains_sum(a: Seq<EffectView>, b: Seq<EffectView>, e: EffectView)
    ensures
        (a + b).contains(e) <==> a.contains(e) || b.contains(e),
{
    let sum = a + b;
    if a.contains(e) {
        let i = choose|i: int| 0 <= i < a.len() && a[i] == e;
        assert(sum[i] == e);
    }
    if b.contains(e) {
        let i = choose|i: int| 0 <= i < b.len() && b[i] == e;
        assert(sum[a.len() + i] == e);
    }
    if sum.contains(e) {
        let i = choose|i: int| 0 <= i < sum.len() && sum[i] == e;
        if i < a.len() {
            assert(a[i] == e);
        } else {
            assert(b[i - a.len()] == e);
        }
    }
}

/// The states that a message leads through, one for each transition that it is
/// tried on.
#[verifier::ext_equal]
pub struct Trace {
    pub at_sync: StateView,
    pub at_syncs: StateView,
    pub at_checkpoint: StateView,
    pub at_conflict: StateView,
    pub at_timeout: StateView,
    pub at_proof: StateView,
    pub at_request: StateView,
    pub at_reply: StateView,
    pub at_log: StateView,
    pub at_history: StateView,
    pub at_prepare: StateView,
    pub at_commit: StateView,
    pub at_done: StateView,
}

/// The trace of a message.
pub open spec fn trace(c: ConfigView, s: StateView, m: MessageView) -> Trace {
    let at_sync = speculate_received(noted(s, m), m).state;
    let at_syncs = sync_threshold_passed(at_sync).state;
    let at_checkpoint = sync_received(c, at_syncs, m).state;
    let at_conflict = checkpoint_received(c, at_checkpoint, m).state;
    let at_timeout = conflict_checked(c, at_conflict).state;
    let at_proof = timeout_received(c, at_timeout, m).state;
    let at_request = proof_received(at_proof, m).state;
    let at_reply = state_request_received(at_request, m).state;
    let at_log = state_reply_received(at_reply, m).state;
    let at_history = log_received(c, at_log, m).state;
    let at_prepare = history_received(c, at_history, m).state;
    let at_commit = prepare_received(c, at_prepare, m).state;
    let at_done = commit_received(c, at_commit, m).state;
    Trace {
        at_sync,
        at_syncs,
        at_checkpoint,
        at_conflict,
        at_timeout,
        at_proof,
        at_request,
        at_reply,
        at_log,
        at_history,
        at_prepare,
        at_commit,
        at_done,
    }
}

/// What kinds of effects the transitions have.
proof fn lemma_effect_kinds(c: ConfigView, s: StateView, m: MessageView, e: EffectView)
    requires
        e matches EffectView::Broadcast(x) && (x is RepairCommit || x is RepairHistory),
    ensures
        !speculate_received(s, m).effects.contains(e),
        !sync_threshold_passed(s).effects.contains(e),
        !sync_received(c, s, m).effects.contains(e),
        !checkpoint_received(c, s, m).effects.contains(e),
        !conflict_checked(c, s).effects.contains(e),
        !timeout_received(c, s, m).effects.contains(e),
        !proof_received(s, m).effects.contains(e),
        !state_request_received(s, m).effects.contains(e),
        !history_received(c, s, m).effects.contains(e),
        !commit_received(c, s, m).effects.contains(e),
        log_received(c, s, m).effects.contains(e) ==> e->Broadcast_0 is RepairHistory,
        prepare_received(c, s, m).effects.contains(e) ==> e->Broadcast_0 is RepairCommit,
{
}

/// Where the proposals and the commit votes among the effects come from.
proof fn lemma_vote_origin(c: ConfigView, s: StateView, m: MessageView, e: EffectView)
    requires
        e matches EffectView::Broadcast(x) && (x is RepairCommit || x is RepairHistory),
        message_outcome(c, s, m).effects.contains(e),
    ensures
        e->Broadcast_0 is RepairHistory ==> log_received(
            c,
            trace(c, s, m).at_log,
            m,
        ).effects.contains(e),
        e->Broadcast_0 is RepairCommit ==> prepare_received(
            c,
            trace(c, s, m).at_prepare,
            m,
        ).effects.contains(e),
{
    let t = trace(c, s, m);
    lemma_effect_origin(c, s, m, e);
    lemma_effect_kinds(c, noted(s, m), m, e);
    lemma_effect_kinds(c, t.at_sync, m, e);
    lemma_effect_kinds(c, t.at_syncs, m, e);
    lemma_effect_kinds(c, t.at_checkpoint, m, e);
    lemma_effect_kinds(c, t.at_conflict, m, e);
    lemma_effect_kinds(c, t.at_timeout, m, e);
    lemma_effect_kinds(c, t.at_proof, m, e);
    lemma_effect_kinds(c, t.at_request, m, e);
    lemma_effect_kinds(c, t.at_log, m, e);
    lemma_effect_kinds(c, t.at_history, m, e);
    lemma_effect_kinds(c, t.at_prepare, m, e);
    lemma_effect_kinds(c, t.at_commit, m, e);
}

/// The state when the commit vote is due has the identity and the round of the
/// state that the message came to.
proof fn lemma_at_prepare(c: ConfigView, s: StateView, m: MessageView)
    requires
        speculate_guard(s, m) is Some ==> s.kv_size < u64::MAX,
        state_reply_guard(before_votes(c, s, m), m) != Some(u64::MAX),
    ensures
        before_exit(c, s, m) == trace(c, s, m).at_commit,
        trace(c, s, m).at_commit.log_msgs == log_received(
            c,
            trace(c, s, m).at_log,
            m,
        ).state.log_msgs,
        trace(c, s, m).at_commit.node_id == s.node_id,
        trace(c, s, m).at_commit.view == s.view,
        trace(c, s, m).at_commit.round == s.round,
{
    lemma_before_exit_stays(c, s, m);
}

/// An effect of a message is an effect of one of the transitions.
pub proof fn lemma_effect_origin(c: ConfigView, s: StateView, m: MessageView, e: EffectView)
    requires
        message_outcome(c, s, m).effects.contains(e),
    ensures
        ({
            let t = trace(c, s, m);
            ||| speculate_received(noted(s, m), m).effects.contains(e)
            ||| sync_threshold_passed(t.at_sync).effects.contains(e)
            ||| sync_received(c, t.at_syncs, m).effects.contains(e)
            ||| checkpoint_received(c, t.at_checkpoint, m).effects.contains(e)
            ||| conflict_checked(c, t.at_conflict).effects.contains(e)
            ||| timeout_received(c, t.at_timeout, m).effects.contains(e)
            ||| proof_received(t.at_proof, m).effects.contains(e)
            ||| state_request_received(t.at_request, m).effects.contains(e)
            ||| log_received(c, t.at_log, m).effects.contains(e)
            ||| history_received(c, t.at_history, m).effects.contains(e)
            ||| prepare_received(c, t.at_prepare, m).effects.contains(e)
            ||| commit_received(c, t.at_commit, m).effects.contains(e)
        }),
{
    let t = trace(c, s, m);
    let a1 = speculate_received(noted(s, m), m).effects;
    let a2 = sync_threshold_passed(t.at_sync).effects;
    let a3 = sync_received(c, t.at_syncs, m).effects;
    let a4 = checkpoint_received(c, t.at_checkpoint, m).effects;
    lemma_contains_sum(a1, a2, e);
    lemma_contains_sum(a1 + a2, a3, e);
    lemma_contains_sum(a1 + a2 + a3, a4, e);
    let b1 = conflict_checked(c, t.at_conflict).effects;
    let b2 = timeout_received(c, t.at_timeout, m).effects;
    let b3 = proof_received(t.at_proof, m).effects;
    let b4 = state_request_received(t.at_request, m).effects;
    lemma_contains_sum(b1, b2, e);
    lemma_contains_sum(b1 + b2, b3, e);
    lemma_contains_sum(b1 + b2 + b3, b4, e);
    let d1 = state_reply_received(t.at_reply, m).effects;
    let d2 = log_received(c, t.at_log, m).effects;
    let d3 = history_received(c, t.at_history, m).effects;
    let d4 = prepare_received(c, t.at_prepare, m).effects;
    lemma_contains_sum(d1, d2, e);
    lemma_contains_sum(d1 + d2, d3, e);
    lemma_contains_sum(d1 + d2 + d3, d4, e);
    let x1 = commit_received(c, t.at_commit, m).effects;
    let x2 = done_received(c, t.at_done, m).effects;
    lemma_contains_sum(x1, x2, e);
    let a = a1 + a2 + a3 + a4;
    let b = b1 + b2 + b3 + b4;
    let d = d1 + d2 + d3 + d4;
    lemma_contains_sum(a, b, e);
    lemma_contains_sum(a + b, d, e);
    lemma_contains_sum(a + b + d, x1 + x2, e);
    assert(message_outcome(c, s, m).effects == a + b + d + (x1 + x2));
    assert(!d1.contains(e));
    assert(!x2.contains(e));
}

/// A commit vote that is cast on `s`.
proof fn lemma_prepare_votes(
    c: ConfigView,
    s: StateView,
    m: MessageView,
    from: Seq<char>,
    view: u64,
    round: u64,
    history_hash: u64,
)
    requires
        prepare_received(c, s, m).effects.contains(
            EffectView::Broadcast(MessageView::RepairCommit { from, view, round, history_hash }),
        ),
    ensures
        ({
            let t = prepare_received(c, s, m).state;
            &&& from == t.node_id && view == t.view && round == t.round
            &&& t.phase == Phase::CommitPhase && t.proposed_history_hash == history_hash
        }),
{
}

/// A proposal that is made on `s`.
proof fn lemma_proposal(
    c: ConfigView,
    s: StateView,
    m: MessageView,
    from: Seq<char>,
    view: u64,
    round: u64,
    history_hash: u64,
)
    requires
        log_received(c, s, m).effects.contains(
            EffectView::Broadcast(MessageView::RepairHistory { from, view, round, history_hash }),
        ),
    ensures
        ({
            let t = log_received(c, s, m).state;
            let logs = supporters(t.log_msgs, BallotView::Logs { view, round });
            &&& from == t.node_id && view == t.view && round == t.round && leads(c, t)
            &&& logs.len() >= c.byz_quorum && history_hash == logs.len() as u64
        }),
{
}

/// The votes after a proposal change neither who the replica is nor where it is.
proof fn lemma_later_votes(c: ConfigView, s: StateView, m: MessageView)
    ensures
        ({
            let t = prepare_received(c, history_received(c, s, m).state, m).state;
            t.node_id == s.node_id && t.view == s.view && t.round == s.round
        }),
{
}

proof fn lemma_exit_keeps_logs(c: ConfigView, s: StateView, m: MessageView)
    ensures
        done_received(c, commit_received(c, s, m).state, m).state.log_msgs == s.log_msgs,
{
}

/// A commit vote is cast for the view and round of the replica, and locks it: it
/// stays in the commit phase, on the history that it voted for, or it leaves the
/// round.
pub proof fn law_commit_vote_locks(
    c: ConfigView,
    s: StateView,
    m: MessageView,
    from: Seq<char>,
    view: u64,
    round: u64,
    history_hash: u64,
)
    requires
        message_fits(c, s, m),
        message_outcome(c, s, m).effects.contains(
            EffectView::Broadcast(MessageView::RepairCommit { from, view, round, history_hash }),
        ),
    ensures
        from == s.node_id && view == s.view && round == s.round,
        ({
            let t = message_outcome(c, s, m).state;
            t.round == s.round + 1 || (t.round == s.round && t.phase == Phase::CommitPhase
                && t.proposed_history_hash == history_hash)
        }),
{
    let e = EffectView::Broadcast(MessageView::RepairCommit { from, view, round, history_hash });
    let t = trace(c, s, m);
    lemma_vote_origin(c, s, m, e);
    lemma_message(c, s, m);
    lemma_at_prepare(c, s, m);
    lemma_prepare_votes(c, t.at_prepare, m, from, view, round, history_hash);
}

/// A replica in the commit phase does not vote again, and does not change the
/// history, in its view and round: so it votes for one history at most.
pub proof fn law_commit_is_final(c: ConfigView, s: StateView, m: MessageView, e: EffectView)
    requires
        well_formed(s),
        s.phase == Phase::CommitPhase,
        message_fits(c, s, m),
        is_commit_vote(e),
    ensures
        !message_outcome(c, s, m).effects.contains(e),
        ({
            let t = message_outcome(c, s, m).state;
            t.round == s.round + 1 || (t.round == s.round && t.phase == Phase::CommitPhase
                && t.proposed_history_hash == s.proposed_history_hash && t.view == s.view)
        }),
{
    if message_outcome(c, s, m).effects.contains(e) {
        lemma_vote_origin(c, s, m, e);
    }
    lemma_message(c, s, m);
    let a = fast_path_outcome(c, s, m).state;
    assert(a.phase == s.phase && a.in_repair && a.proposed_history_hash
        == s.proposed_history_hash);
    let b = entry_outcome(c, a, m).state;
    assert(b.phase == s.phase && b.proposed_history_hash == s.proposed_history_hash);
    let d = before_exit(c, s, m);
    assert(d.phase == s.phase && d.proposed_history_hash == s.proposed_history_hash);
}

/// Timers do not vote, and do not move a replica out of the commit phase.
pub proof fn law_timers_do_not_vote(s: StateView, t: Event, e: EffectView)
    requires
        is_commit_vote(e),
    ensures
        !event_outcome(s, t).effects.contains(e),
        s.phase == Phase::CommitPhase ==> event_outcome(s, t).state == s,
{
}

/// Nobody enters REPAIR in silence: a replica that goes into it broadcasts a
/// proof that makes the others follow, and its log summary.
pub proof fn law_repair_entry_is_announced(c: ConfigView, s: StateView, m: MessageView)
    requires
        well_formed(s),
        !s.in_repair,
        before_votes(c, s, m).in_repair,
    ensures
        exists|i: int|
            0 <= i < message_outcome(c, s, m).effects.len() && (
            #[trigger] message_outcome(c, s, m).effects[i] matches EffectView::Broadcast(x) && (x
                is TimeoutProof || x is ConflictProof)),
        exists|i: int|
            0 <= i < message_outcome(c, s, m).effects.len() && (
            #[trigger] message_outcome(c, s, m).effects[i] matches EffectView::Broadcast(x) && x
                is LogMsg),
{
    let a = fast_path_outcome(c, s, m);
    assert(!a.state.in_repair);
    let b1 = conflict_checked(c, a.state);
    let b2 = timeout_received(c, b1.state, m);
    let b3 = proof_received(b2.state, m);
    let b = entry_outcome(c, a.state, m);
    let o = message_outcome(c, s, m);
    let at: int = if b1.state.in_repair {
        0
    } else if b2.state.in_repair {
        b1.effects.len() as int
    } else {
        b1.effects.len() + b2.effects.len() as int
    };
    assert(b.effects[at] matches EffectView::Broadcast(x) && (x is TimeoutProof || x
        is ConflictProof));
    assert(b.effects[at + 1] matches EffectView::Broadcast(x) && x is LogMsg);
    assert(o.effects[a.effects.len() + at] == b.effects[at]);
    assert(o.effects[a.effects.len() + at + 1] == b.effects[at + 1]);
}

/// A proof takes every replica into REPAIR: once it has been handled, the replica
/// is in REPAIR, or has already gone through it into the next round.
pub proof fn law_proof_leads_into_repair(c: ConfigView, s: StateView, m: MessageView)
    requires
        well_formed(s),
        m is TimeoutProof || m is ConflictProof,
        message_fits(c, s, m),
    ensures
        message_outcome(c, s, m).state.in_repair || message_outcome(c, s, m).state.round == s.round
            + 1,
{
    lemma_message(c, s, m);
    let a = fast_path_outcome(c, s, m).state;
    let b = entry_outcome(c, a, m).state;
    assert(b.in_repair);
    let d = before_exit(c, s, m);
    assert(d.in_repair);
}

/// Only the leader of the view proposes a history, and it proposes the number of
/// replicas whose logs it holds.
pub proof fn law_only_the_leader_proposes(
    c: ConfigView,
    s: StateView,
    m: MessageView,
    from: Seq<char>,
    view: u64,
    round: u64,
    history_hash: u64,
)
    requires
        message_fits(c, s, m),
        message_outcome(c, s, m).effects.contains(
            EffectView::Broadcast(MessageView::RepairHistory { from, view, round, history_hash }),
        ),
    ensures
        leads(c, s),
        from == s.node_id && view == s.view && round == s.round,
        ({
            let logs = supporters(
                message_outcome(c, s, m).state.log_msgs,
                BallotView::Logs { view, round },
            );
            logs.len() >= c.byz_quorum && history_hash == logs.len() as u64
        }),
{
    let e = EffectView::Broadcast(MessageView::RepairHistory { from, view, round, history_hash });
    let t = trace(c, s, m);
    lemma_vote_origin(c, s, m, e);
    lemma_at_prepare(c, s, m);
    lemma_proposal(c, t.at_log, m, from, view, round, history_hash);
    lemma_later_votes(c, t.at_history, m);
    lemma_exit_keeps_logs(c, t.at_commit, m);
}

/// A request that arrives on the fast path is executed and answered at once, at
/// the end of the log.
pub proof fn law_request_is_executed(c: ConfigView, s: StateView, m: MessageView)
    requires
        s.phase == Phase::Speculative,
        m is Speculate,
    ensures
        message_outcome(c, s, m).effects.len() >= 1,
        message_outcome(c, s, m).effects[0] == reply_of(
            s,
            s.kv_size,
            entry_digest(chained_entry(s.kv_size, prev_digest(s, s.kv_size))),
        ),
{
}

/// The first STATE-REPLY ends the alignment: the replica is back on the fast path,
/// with a log that ends at the recovered checkpoint.
pub proof fn law_recovery_resumes(c: ConfigView, s: StateView, m: MessageView, chkpt_idx: u64)
    requires
        s.phase == Phase::Aligning,
        state_reply_guard(s, m) == Some(chkpt_idx),
        chkpt_idx < u64::MAX,
    ensures
        message_outcome(c, s, m) == state_reply_step(s, chkpt_idx),
        message_outcome(c, s, m).state.phase == Phase::Speculative,
        message_outcome(c, s, m).state.chkpt_idx == chkpt_idx,
        log_size(message_outcome(c, s, m).state.log) == chkpt_idx + 1,
{
    law_synthetic_size((chkpt_idx + 1) as nat);
    assert(message_outcome(c, s, m).effects =~= Seq::<EffectView>::empty());
}

/// A CHECKPOINT that agrees with the replica does not bring it closer to an
/// alignment: it is kept, and nothing else happens, where no alignment was due.
pub proof fn law_agreement_does_not_align(
    c: ConfigView,
    s: StateView,
    from: Seq<char>,
    round: u64,
)
    requires
        s.kv_size > s.chkpt_idx,
        align_guard(c, s) is None,
    ensures
        ({
            let m = MessageView::Checkpoint {
                from,
                round,
                log_idx: s.chkpt_idx,
                log_hash: s.chkpt_hash,
            };
            checkpoint_received(c, s, m) == Outcome::quiet(with_checkpoint(s, m))
        }),
{
    let m = MessageView::Checkpoint {
        from,
        round,
        log_idx: s.chkpt_idx,
        log_hash: s.chkpt_hash,
    };
    law_votes_grow(s.chkpt_msgs, m, conflicting_checkpoints(s));
}

/// Only the proposal of the leader is voted for, and only with it can a replica
/// catch up: the replica holds a REPAIR-HISTORY that the leader of its view has
/// sent for its view and round.
pub proof fn law_only_the_leader_is_followed(c: ConfigView, s: StateView)
    requires
        prepare_guard(c, s) is Some || catchup_guard(c, s) is Some,
    ensures
        c.leader(s.view) matches Some(leader) && exists|history_hash: u64| #[trigger]
            s.repair_history_msgs.contains(
                MessageView::RepairHistory {
                    from: leader,
                    view: s.view,
                    round: s.round,
                    history_hash,
                },
            ) && leaders_proposal(c, s) == Some(history_hash),
{
    lemma_first_proposal(s.repair_history_msgs, s.view, s.round, c.leader(s.view));
}

/// The leader's proposal is a message that the leader has sent.
pub proof fn lemma_first_proposal(
    msgs: Seq<MessageView>,
    view: u64,
    round: u64,
    leader: Option<Seq<char>>,
)
    requires
        first_proposal(msgs, view, round, leader) is Some,
    ensures
        leader is Some,
        msgs.contains(
            MessageView::RepairHistory {
                from: leader->0,
                view,
                round,
                history_hash: first_proposal(msgs, view, round, leader)->0,
            },
        ),
    decreases msgs.len(),
{
    if proposal(msgs[0], view, round, leader) is Some {
        assert(msgs.contains(msgs[0]));
    } else {
        let rest = msgs.drop_first();
        lemma_first_proposal(rest, view, round, leader);
        let m = MessageView::RepairHistory {
            from: leader->0,
            view,
            round,
            history_hash: first_proposal(msgs, view, round, leader)->0,
        };
        let i = choose|i: int| 0 <= i < rest.len() && rest[i] == m;
        assert(msgs[i + 1] == m);
    }
}

} // verus!
