//! What a message or a timer does to a replica, as its peers can tell: which votes
//! stand behind each thing that it says, and that it says what the votes it holds
//! oblige it to say.

use vstd::prelude::*;

use crate::alignment::{
    checkpoint_received, state_reply_guard, state_reply_received, state_reply_step,
    state_request_received,
};
use crate::checkpoint::{sync_received, sync_threshold_passed};
use crate::codec::{entry_bytes, sha256, storable};
use crate::config::ConfigView;
use crate::effect::EffectView;
use crate::entry::EntryView;
use crate::event::Event;
use crate::fast_path::speculate_received;
use crate::log::{dense, is_top, lemma_empty_log, lemma_top_index, top_hash};
use crate::message::{zero_hash, MessageView};
use crate::phase::Phase;
use crate::quorum::{
    first_proposal, lemma_supporters_finite, supporters, with_message, BallotView,
};
use crate::quorum_laws::{law_one_is_correct, law_votes_grow};
use crate::repair::{
    apply_guard, catchup_guard, commit_received, done_received, history_received, log_received,
    prepare_received, with_commit, with_done,
};
use crate::repair_entry::{conflict_checked, proof_received, timeout_received};
use crate::replica::{
    before_votes, event_fits, event_outcome, message_fits, message_outcome, noted,
};
use crate::replica_laws::{
    law_log_has_no_gaps, law_recovery_resumes, law_state_request_is_answered,
    lemma_before_exit_stays,
    lemma_commit_exit, lemma_contains_sum, lemma_done_exit, lemma_effect_origin,
    lemma_first_proposal, trace,
};
use crate::state::StateView;

verus! {

/// The log of the replica has `kv_size` entries, and the last of them can be
/// hashed.
pub open spec fn healthy(s: StateView) -> bool {
    &&& dense(s.log, s.kv_size)
    &&& s.kv_size > 0 ==> storable(s.log[(s.kv_size - 1) as u64].result.len())
}

/// Whether the message is a request that the replica executes.
pub open spec fn is_executed(s: StateView, m: MessageView) -> bool {
    m is Speculate && s.phase == Phase::Speculative
}

/// The number of entries once the message has been executed, if it is.
pub open spec fn length_after(s: StateView, m: MessageView) -> int {
    if is_executed(s, m) {
        s.kv_size + 1
    } else {
        s.kv_size as int
    }
}

/// The predecessor digest of the last entry once the message has been executed,
/// if it is; zeros where there is no entry.
pub open spec fn tip_after(s: StateView, m: MessageView) -> Seq<u8> {
    if s.kv_size == 0 {
        zero_hash()
    } else {
        let last = s.log[(s.kv_size - 1) as u64];
        if is_executed(s, m) {
            sha256(entry_bytes(last))
        } else {
            last.prev_hash
        }
    }
}

/// The replica says `x` to all.
pub open spec fn says(effects: Seq<EffectView>, x: MessageView) -> bool {
    effects.contains(EffectView::Broadcast(x))
}

/// The hash of a log without gaps is the predecessor digest of its last entry.
proof fn lemma_dense_tip(log: Map<u64, EntryView>, size: u64)
    requires
        dense(log, size),
    ensures
        top_hash(log) == (if size == 0 {
            zero_hash()
        } else {
            log[(size - 1) as u64].prev_hash
        }),
{
    if size == 0 {
        lemma_empty_log(log);
    } else {
        let k = (size - 1) as u64;
        assert(log.contains_key(k));
        assert(is_top(log, k));
        lemma_top_index(log, k);
    }
}

/// Which transitions have which effects.
proof fn lemma_kinds(c: ConfigView, s: StateView, m: MessageView, x: MessageView)
    ensures
        says(speculate_received(s, m).effects, x) ==> x is SpecReply,
        says(sync_threshold_passed(s).effects, x) ==> x is Sync,
        says(sync_received(c, s, m).effects, x) ==> x is Checkpoint,
        says(checkpoint_received(c, s, m).effects, x) ==> x is StateRequest,
        says(conflict_checked(c, s).effects, x) ==> x is ConflictProof || x is LogMsg,
        says(timeout_received(c, s, m).effects, x) ==> x is TimeoutProof || x is LogMsg,
        says(proof_received(s, m).effects, x) ==> x is ConflictProof || x is TimeoutProof || x
            is LogMsg,
        !says(state_request_received(s, m).effects, x),
        says(log_received(c, s, m).effects, x) ==> x is RepairHistory,
        says(history_received(c, s, m).effects, x) ==> x is RepairPrepare,
        says(prepare_received(c, s, m).effects, x) ==> x is RepairCommit,
        says(commit_received(c, s, m).effects, x) ==> x is RepairDone || x is CommittedReply,
{
}

/// Where a broadcast comes from.
proof fn lemma_origin(c: ConfigView, s: StateView, m: MessageView, x: MessageView)
    requires
        says(message_outcome(c, s, m).effects, x),
    ensures
        ({
            let t = trace(c, s, m);
            match x {
                MessageView::SpecReply { .. } => says(
                    speculate_received(noted(s, m), m).effects,
                    x,
                ),
                MessageView::Sync { .. } => says(sync_threshold_passed(t.at_sync).effects, x),
                MessageView::Checkpoint { .. } => says(sync_received(c, t.at_syncs, m).effects, x),
                MessageView::StateRequest { .. } => says(
                    checkpoint_received(c, t.at_checkpoint, m).effects,
                    x,
                ),
                MessageView::ConflictProof { .. } => says(
                    conflict_checked(c, t.at_conflict).effects,
                    x,
                ) || says(proof_received(t.at_proof, m).effects, x),
                MessageView::TimeoutProof { .. } => says(
                    timeout_received(c, t.at_timeout, m).effects,
                    x,
                ) || says(proof_received(t.at_proof, m).effects, x),
                MessageView::LogMsg { .. } => says(conflict_checked(c, t.at_conflict).effects, x)
                    || says(timeout_received(c, t.at_timeout, m).effects, x) || says(
                    proof_received(t.at_proof, m).effects,
                    x,
                ),
                MessageView::RepairHistory { .. } => says(log_received(c, t.at_log, m).effects, x),
                MessageView::RepairPrepare { .. } => says(
                    history_received(c, t.at_history, m).effects,
                    x,
                ),
                MessageView::RepairCommit { .. } => says(
                    prepare_received(c, t.at_prepare, m).effects,
                    x,
                ),
                MessageView::RepairDone { .. } => says(
                    commit_received(c, t.at_commit, m).effects,
                    x,
                ),
                MessageView::CommittedReply { .. } => says(
                    commit_received(c, t.at_commit, m).effects,
                    x,
                ),
                _ => false,
            }
        }),
{
    let t = trace(c, s, m);
    lemma_effect_origin(c, s, m, EffectView::Broadcast(x));
    lemma_kinds(c, noted(s, m), m, x);
    lemma_kinds(c, t.at_sync, m, x);
    lemma_kinds(c, t.at_syncs, m, x);
    lemma_kinds(c, t.at_checkpoint, m, x);
    lemma_kinds(c, t.at_conflict, m, x);
    lemma_kinds(c, t.at_timeout, m, x);
    lemma_kinds(c, t.at_proof, m, x);
    lemma_kinds(c, t.at_request, m, x);
    lemma_kinds(c, t.at_log, m, x);
    lemma_kinds(c, t.at_history, m, x);
    lemma_kinds(c, t.at_prepare, m, x);
    lemma_kinds(c, t.at_commit, m, x);
}

/// What a transition says, the replica says.
proof fn lemma_said(c: ConfigView, s: StateView, m: MessageView, x: MessageView)
    ensures
        ({
            let t = trace(c, s, m);
            let all = message_outcome(c, s, m).effects;
            &&& says(speculate_received(noted(s, m), m).effects, x) ==> says(all, x)
            &&& says(sync_threshold_passed(t.at_sync).effects, x) ==> says(all, x)
            &&& says(sync_received(c, t.at_syncs, m).effects, x) ==> says(all, x)
            &&& says(checkpoint_received(c, t.at_checkpoint, m).effects, x) ==> says(all, x)
            &&& says(conflict_checked(c, t.at_conflict).effects, x) ==> says(all, x)
            &&& says(timeout_received(c, t.at_timeout, m).effects, x) ==> says(all, x)
            &&& says(proof_received(t.at_proof, m).effects, x) ==> says(all, x)
            &&& says(log_received(c, t.at_log, m).effects, x) ==> says(all, x)
            &&& says(history_received(c, t.at_history, m).effects, x) ==> says(all, x)
            &&& says(prepare_received(c, t.at_prepare, m).effects, x) ==> says(all, x)
            &&& says(commit_received(c, t.at_commit, m).effects, x) ==> says(all, x)
        }),
{
    let e = EffectView::Broadcast(x);
    let t = trace(c, s, m);
    let a1 = speculate_received(noted(s, m), m).effects;
    let a2 = sync_threshold_passed(t.at_sync).effects;
    let a3 = sync_received(c, t.at_syncs, m).effects;
    let a4 = checkpoint_received(c, t.at_checkpoint, m).effects;
    lemma_contains_sum(a1, a2, e);
    lemma_contains_sum(a1 + a2, a3, e);
    lemma_contains_sum(a1 + a2 + a3, a4, e);
    let b1 = conflict_checked(c, t.at_conflict).effects;
    let b2 = timeout_received(c, t.at_timeout, m).effects;
    let b3 = proof_received(t.at_proof, m).effects;
    let b4 = state_request_received(t.at_request, m).effects;
    lemma_contains_sum(b1, b2, e);
    lemma_contains_sum(b1 + b2, b3, e);
    lemma_contains_sum(b1 + b2 + b3, b4, e);
    let d1 = state_reply_received(t.at_reply, m).effects;
    let d2 = log_received(c, t.at_log, m).effects;
    let d3 = history_received(c, t.at_history, m).effects;
    let d4 = prepare_received(c, t.at_prepare, m).effects;
    lemma_contains_sum(d1, d2, e);
    lemma_contains_sum(d1 + d2, d3, e);
    lemma_contains_sum(d1 + d2 + d3, d4, e);
    let x1 = commit_received(c, t.at_commit, m).effects;
    let x2 = done_received(c, t.at_done, m).effects;
    lemma_contains_sum(x1, x2, e);
    let a = a1 + a2 + a3 + a4;
    let b = b1 + b2 + b3 + b4;
    let d = d1 + d2 + d3 + d4;
    lemma_contains_sum(a, b, e);
    lemma_contains_sum(a + b, d, e);
    lemma_contains_sum(a + b + d, x1 + x2, e);
    assert(message_outcome(c, s, m).effects == a + b + d + (x1 + x2));
}

/// Who the replica is and where it stands in the protocol is the same in both
/// states.
spec fn same_place(s: StateView, t: StateView) -> bool {
    t.node_id == s.node_id && t.view == s.view && t.round == s.round
}

/// The two states hold the same messages, but for some kinds.
spec fn same_votes(s: StateView, t: StateView) -> bool {
    &&& t.log_msgs == s.log_msgs && t.repair_history_msgs == s.repair_history_msgs
    &&& t.repair_prepare_msgs == s.repair_prepare_msgs && t.repair_commit_msgs
        == s.repair_commit_msgs && t.repair_done_msgs == s.repair_done_msgs
}

spec fn same_reports(s: StateView, t: StateView) -> bool {
    t.sync_msgs == s.sync_msgs && t.chkpt_msgs == s.chkpt_msgs && t.timeout_msgs == s.timeout_msgs
        && t.ack_msgs == s.ack_msgs
}

/// The log, its length and its start are the same in both states.
spec fn same_log(s: StateView, t: StateView) -> bool {
    t.log == s.log && t.kv_size == s.kv_size && t.start_idx == s.start_idx
}

spec fn same_checkpoint(s: StateView, t: StateView) -> bool {
    t.chkpt_idx == s.chkpt_idx && t.chkpt_hash == s.chkpt_hash
}

spec fn same_phase(s: StateView, t: StateView) -> bool {
    t.phase == s.phase && t.in_repair == s.in_repair && t.proposed_history_hash
        == s.proposed_history_hash
}

/// The state once the message has been executed.
proof fn lemma_at_sync(c: ConfigView, s: StateView, m: MessageView)
    requires
        healthy(s),
        message_fits(c, s, m),
    ensures
        ({
            let t = trace(c, s, m).at_sync;
            &&& same_place(s, t) && same_phase(s, t) && same_checkpoint(s, t) && same_votes(s, t)
            &&& t.start_idx == s.start_idx
            &&& t.sync_msgs == s.sync_msgs && t.chkpt_msgs == s.chkpt_msgs && t.timeout_msgs
                == s.timeout_msgs
            &&& t.kv_size == length_after(s, m)
            &&& dense(t.log, t.kv_size)
            &&& top_hash(t.log) == tip_after(s, m)
            &&& is_executed(s, m) ==> t.log == s.log.insert(
                s.kv_size,
                EntryView {
                    op_hash: s.kv_size,
                    result: Seq::empty(),
                    prev_hash: tip_after(s, m),
                },
            )
            &&& !is_executed(s, m) ==> t.log == s.log
            &&& trace(c, s, m).at_syncs == t
        }),
{
    let t = trace(c, s, m).at_sync;
    assert(dense(t.log, t.kv_size));
    lemma_dense_tip(t.log, t.kv_size);
}

/// The rest of the fast path.
proof fn lemma_fast_frames(c: ConfigView, s: StateView, m: MessageView)
    ensures
        ({
            let t = sync_received(c, s, m).state;
            &&& same_place(s, t) && same_phase(s, t) && same_log(s, t) && same_votes(s, t)
            &&& t.chkpt_msgs == s.chkpt_msgs && t.timeout_msgs == s.timeout_msgs && t.eta_star
                == s.eta_star && t.ack_msgs == s.ack_msgs
            &&& m !is Sync ==> t.sync_msgs == s.sync_msgs
        }),
        ({
            let t = checkpoint_received(c, s, m).state;
            &&& same_place(s, t) && same_log(s, t) && same_checkpoint(s, t) && same_votes(s, t)
            &&& t.sync_msgs == s.sync_msgs && t.timeout_msgs == s.timeout_msgs && t.eta_star
                == s.eta_star && t.ack_msgs == s.ack_msgs && t.in_repair == s.in_repair
                && t.proposed_history_hash == s.proposed_history_hash
            &&& m !is Checkpoint ==> t.chkpt_msgs == s.chkpt_msgs
        }),
{
}

/// The entry into REPAIR.
proof fn lemma_entry_frames(c: ConfigView, s: StateView, m: MessageView)
    ensures
        ({
            let t = conflict_checked(c, s).state;
            &&& same_place(s, t) && same_log(s, t) && same_checkpoint(s, t) && same_votes(s, t)
                && same_reports(s, t)
            &&& t.eta_star == s.eta_star && t.proposed_history_hash == s.proposed_history_hash
        }),
        ({
            let t = timeout_received(c, s, m).state;
            &&& same_place(s, t) && same_log(s, t) && same_checkpoint(s, t) && same_votes(s, t)
            &&& t.sync_msgs == s.sync_msgs && t.chkpt_msgs == s.chkpt_msgs && t.eta_star
                == s.eta_star && t.ack_msgs == s.ack_msgs && t.proposed_history_hash
                == s.proposed_history_hash
            &&& m !is TimeoutMsg ==> t.timeout_msgs == s.timeout_msgs
        }),
        ({
            let t = proof_received(s, m).state;
            &&& same_place(s, t) && same_log(s, t) && same_checkpoint(s, t) && same_votes(s, t)
                && same_reports(s, t)
            &&& t.eta_star == s.eta_star && t.proposed_history_hash == s.proposed_history_hash
        }),
        state_request_received(s, m).state == s,
{
}

/// Recovery and the votes.
proof fn lemma_vote_frames(c: ConfigView, s: StateView, m: MessageView)
    ensures
        ({
            let t = state_reply_received(s, m).state;
            &&& same_place(s, t) && same_votes(s, t) && same_reports(s, t)
            &&& t.eta_star == s.eta_star && t.in_repair == s.in_repair && t.proposed_history_hash
                == s.proposed_history_hash
            &&& m !is StateReply ==> t == s
        }),
        ({
            let t = log_received(c, s, m).state;
            &&& same_place(s, t) && same_log(s, t) && same_checkpoint(s, t) && same_reports(s, t)
            &&& t.repair_history_msgs == s.repair_history_msgs && t.repair_prepare_msgs
                == s.repair_prepare_msgs && t.repair_commit_msgs == s.repair_commit_msgs
                && t.repair_done_msgs == s.repair_done_msgs && t.eta_star == s.eta_star
                && t.in_repair == s.in_repair
            &&& m !is LogMsg ==> t.log_msgs == s.log_msgs
        }),
        ({
            let t = history_received(c, s, m).state;
            &&& same_place(s, t) && same_log(s, t) && same_checkpoint(s, t) && same_reports(s, t)
            &&& t.log_msgs == s.log_msgs && t.repair_prepare_msgs == s.repair_prepare_msgs
                && t.repair_commit_msgs == s.repair_commit_msgs && t.repair_done_msgs
                == s.repair_done_msgs && t.eta_star == s.eta_star && t.in_repair == s.in_repair
            &&& m !is RepairHistory ==> t.repair_history_msgs == s.repair_history_msgs
        }),
        ({
            let t = prepare_received(c, s, m).state;
            &&& same_place(s, t) && same_log(s, t) && same_checkpoint(s, t) && same_reports(s, t)
            &&& t.log_msgs == s.log_msgs && t.repair_history_msgs == s.repair_history_msgs
                && t.repair_commit_msgs == s.repair_commit_msgs && t.repair_done_msgs
                == s.repair_done_msgs && t.eta_star == s.eta_star && t.in_repair == s.in_repair
                && t.proposed_history_hash == s.proposed_history_hash
            &&& m !is RepairPrepare ==> t.repair_prepare_msgs == s.repair_prepare_msgs
        }),
{
}

/// The end of REPAIR.
proof fn lemma_exit_frames(c: ConfigView, s: StateView, m: MessageView)
    ensures
        ({
            let t = commit_received(c, s, m).state;
            &&& t.node_id == s.node_id && t.view == s.view && same_checkpoint(s, t) && same_reports(
                s,
                t,
            )
            &&& t.log_msgs == s.log_msgs && t.repair_history_msgs == s.repair_history_msgs
                && t.repair_prepare_msgs == s.repair_prepare_msgs && t.repair_done_msgs
                == s.repair_done_msgs
            &&& m !is RepairCommit ==> t.repair_commit_msgs == s.repair_commit_msgs
        }),
        ({
            let t = done_received(c, s, m).state;
            &&& t.node_id == s.node_id && t.view == s.view && same_checkpoint(s, t) && same_reports(
                s,
                t,
            ) && t.log == s.log && t.kv_size == s.kv_size
            &&& t.log_msgs == s.log_msgs && t.repair_history_msgs == s.repair_history_msgs
                && t.repair_prepare_msgs == s.repair_prepare_msgs && t.repair_commit_msgs
                == s.repair_commit_msgs
            &&& m !is RepairDone ==> t.repair_done_msgs == s.repair_done_msgs
        }),
{
}

/// How the states of the trace hang together, from the conflict check on.
proof fn lemma_trace(c: ConfigView, s: StateView, m: MessageView)
    requires
        healthy(s),
        message_fits(c, s, m),
    ensures
        ({
            let t = trace(c, s, m);
            let o = message_outcome(c, s, m).state;
            &&& same_place(s, t.at_sync) && same_place(s, t.at_checkpoint) && same_place(
                s,
                t.at_conflict,
            ) && same_place(s, t.at_timeout) && same_place(s, t.at_proof) && same_place(
                s,
                t.at_request,
            ) && same_place(s, t.at_reply) && same_place(s, t.at_log) && same_place(s, t.at_history)
                && same_place(s, t.at_prepare) && same_place(s, t.at_commit)
            &&& o.node_id == s.node_id && o.view == s.view
            &&& same_log(t.at_sync, t.at_checkpoint) && same_log(t.at_sync, t.at_conflict)
                && same_log(t.at_sync, t.at_timeout) && same_log(t.at_sync, t.at_proof) && same_log(
                t.at_sync,
                t.at_reply,
            )
            &&& same_log(t.at_log, t.at_commit)
            &&& t.at_checkpoint.sync_msgs == o.sync_msgs && t.at_conflict.sync_msgs == o.sync_msgs
            &&& t.at_conflict.chkpt_msgs == o.chkpt_msgs
            &&& same_checkpoint(t.at_checkpoint, t.at_reply) && same_checkpoint(
                t.at_checkpoint,
                t.at_conflict,
            )
            &&& same_checkpoint(t.at_log, o)
            &&& t.at_proof.timeout_msgs == o.timeout_msgs
            &&& t.at_history.log_msgs == o.log_msgs
            &&& t.at_prepare.repair_history_msgs == o.repair_history_msgs
                && t.at_done.repair_history_msgs == o.repair_history_msgs
            &&& t.at_commit.repair_prepare_msgs == o.repair_prepare_msgs
            &&& t.at_done.repair_commit_msgs == o.repair_commit_msgs
            &&& t.at_sync.phase == s.phase && t.at_checkpoint.phase == s.phase
                && t.at_conflict.in_repair == s.in_repair
            &&& m !is StateReply ==> t.at_log == t.at_reply
            &&& t.at_request == t.at_reply
            &&& o == done_received(c, t.at_done, m).state
        }),
{
    let t = trace(c, s, m);
    lemma_at_sync(c, s, m);
    lemma_fast_frames(c, t.at_syncs, m);
    lemma_fast_frames(c, t.at_checkpoint, m);
    lemma_entry_frames(c, t.at_conflict, m);
    lemma_entry_frames(c, t.at_timeout, m);
    lemma_entry_frames(c, t.at_proof, m);
    lemma_entry_frames(c, t.at_request, m);
    lemma_vote_frames(c, t.at_reply, m);
    lemma_vote_frames(c, t.at_log, m);
    lemma_vote_frames(c, t.at_history, m);
    lemma_vote_frames(c, t.at_prepare, m);
    lemma_exit_frames(c, t.at_commit, m);
    lemma_exit_frames(c, t.at_done, m);
}

/// A SPEC-REPLY is sent for a request that arrives on the fast path, and for nothing
/// else. It names the first free index, and carries the digest of an entry that is
/// chained to the one before it.
pub proof fn law_replies(
    c: ConfigView,
    s: StateView,
    m: MessageView,
    from: Seq<char>,
    round: u64,
    log_idx: u64,
    log_hash: Seq<u8>,
)
    requires
        healthy(s),
        message_fits(c, s, m),
    ensures
        says(
            message_outcome(c, s, m).effects,
            MessageView::SpecReply { from, round, log_idx, log_hash },
        ) <==> (is_executed(s, m) && from == s.node_id && round == s.round && log_idx == s.kv_size
            && log_hash == sha256(
            entry_bytes(
                EntryView {
                    op_hash: s.kv_size,
                    result: Seq::empty(),
                    prev_hash: tip_after(s, m),
                },
            ),
        )),
{
    let x = MessageView::SpecReply { from, round, log_idx, log_hash };
    if says(message_outcome(c, s, m).effects, x) {
        lemma_origin(c, s, m, x);
    }
    lemma_said(c, s, m, x);
    let stage = speculate_received(noted(s, m), m).effects;
    if stage.len() > 0 {
        assert(stage.contains(stage[0]));
    }
}

/// A SYNC is sent on the fast path whenever the log has grown past the checkpoint,
/// and never else. It names the last index of the log, and carries the predecessor
/// digest of the entry there and the largest sequence number.
pub proof fn law_syncs(
    c: ConfigView,
    s: StateView,
    m: MessageView,
    from: Seq<char>,
    round: u64,
    log_idx: u64,
    log_hash: Seq<u8>,
    eta_star: u64,
)
    requires
        healthy(s),
        message_fits(c, s, m),
    ensures
        says(
            message_outcome(c, s, m).effects,
            MessageView::Sync { from, round, log_idx, log_hash, eta_star },
        ) <==> (s.phase == Phase::Speculative && length_after(s, m) > s.chkpt_idx && from
            == s.node_id && round == s.round && log_idx == length_after(s, m) - 1 && log_hash
            == tip_after(s, m) && eta_star == (match m {
            MessageView::Speculate { eta, .. } if eta > s.eta_star => eta,
            _ => s.eta_star,
        })),
{
    let x = MessageView::Sync { from, round, log_idx, log_hash, eta_star };
    let t = trace(c, s, m);
    if says(message_outcome(c, s, m).effects, x) {
        lemma_origin(c, s, m, x);
    }
    lemma_said(c, s, m, x);
    lemma_at_sync(c, s, m);
    let stage = sync_threshold_passed(t.at_sync).effects;
    if stage.len() > 0 {
        assert(stage.contains(stage[0]));
    }
}

/// The sync timer makes a replica on the fast path send the same SYNC for the last
/// index of a log that is not empty, and nothing else sends one on a timer.
pub proof fn law_syncs_on_the_timer(
    s: StateView,
    e: Event,
    from: Seq<char>,
    round: u64,
    log_idx: u64,
    log_hash: Seq<u8>,
    eta_star: u64,
)
    requires
        healthy(s),
    ensures
        says(
            event_outcome(s, e).effects,
            MessageView::Sync { from, round, log_idx, log_hash, eta_star },
        ) <==> (e == Event::SyncTimeout && s.phase == Phase::Speculative && s.kv_size > 0 && from
            == s.node_id && round == s.round && log_idx == s.kv_size - 1 && log_hash
            == s.log[log_idx].prev_hash && eta_star == s.eta_star),
{
    lemma_dense_tip(s.log, s.kv_size);
    let all = event_outcome(s, e).effects;
    if all.len() > 0 {
        assert(all.contains(all[0]));
    }
}

/// Replicas with the same log agree: the SYNC of one is a matching vote for every
/// replica in the same round that has the same log.
pub proof fn law_equal_logs_match(
    c: ConfigView,
    s: StateView,
    m: MessageView,
    x: MessageView,
    peer: StateView,
)
    requires
        healthy(s),
        message_fits(c, s, m),
        m !is StateReply,
        x is Sync,
        says(message_outcome(c, s, m).effects, x),
        message_outcome(c, s, m).state.round == s.round,
        peer.round == s.round,
        peer.log == message_outcome(c, s, m).state.log,
        peer.kv_size == message_outcome(c, s, m).state.kv_size,
    ensures
        (BallotView::MatchingSyncs {
            round: peer.round,
            log_idx: (peer.kv_size - 1) as u64,
            log_hash: peer.log[(peer.kv_size - 1) as u64].prev_hash,
        }).voter(x) == Some(s.node_id),
{
    if let MessageView::Sync { from, round, log_idx, log_hash, eta_star } = x {
        law_syncs(c, s, m, from, round, log_idx, log_hash, eta_star);
        law_log_of_a_round(c, s, m);
    }
}

/// What happens to the log within a round: a request on the fast path adds one
/// entry at its end, chained to the last one, and nothing else changes it, but for
/// the answer to a state request.
pub proof fn law_log_of_a_round(c: ConfigView, s: StateView, m: MessageView)
    requires
        healthy(s),
        message_fits(c, s, m),
        m !is StateReply,
        message_outcome(c, s, m).state.round == s.round,
    ensures
        ({
            let o = message_outcome(c, s, m).state;
            &&& o.kv_size == length_after(s, m)
            &&& o.start_idx == s.start_idx
            &&& is_executed(s, m) ==> o.log == s.log.insert(
                s.kv_size,
                EntryView {
                    op_hash: s.kv_size,
                    result: Seq::empty(),
                    prev_hash: tip_after(s, m),
                },
            )
            &&& !is_executed(s, m) ==> o.log == s.log
        }),
{
    lemma_at_sync(c, s, m);
    lemma_trace(c, s, m);
    lemma_same_round(c, s, m);
}

/// Within a round the end of REPAIR changes nothing.
proof fn lemma_same_round(c: ConfigView, s: StateView, m: MessageView)
    requires
        message_fits(c, s, m),
        message_outcome(c, s, m).state.round == s.round,
    ensures
        ({
            let o = message_outcome(c, s, m).state;
            let t = trace(c, s, m);
            &&& same_log(t.at_commit, t.at_done) && same_log(t.at_commit, o)
            &&& same_phase(t.at_commit, t.at_done) && same_phase(t.at_commit, o)
            &&& o.round == t.at_done.round && o.round == t.at_commit.round && o.eta_star
                == t.at_commit.eta_star
        }),
{
    let t = trace(c, s, m);
    lemma_before_exit_stays(c, s, m);
    lemma_commit_exit(c, t.at_commit, m);
    lemma_done_exit(c, t.at_done, m);
}

/// A CHECKPOINT is sent on the fast path as soon as a fast quorum of replicas has
/// sent SYNCs that name the last index and the hash of the log, and never else. It
/// names that index and that hash.
pub proof fn law_checkpoints(
    c: ConfigView,
    s: StateView,
    m: MessageView,
    from: Seq<char>,
    round: u64,
    log_idx: u64,
    log_hash: Seq<u8>,
)
    requires
        healthy(s),
        message_fits(c, s, m),
    ensures
        says(
            message_outcome(c, s, m).effects,
            MessageView::Checkpoint { from, round, log_idx, log_hash },
        ) <==> (s.phase == Phase::Speculative && length_after(s, m) > 0 && supporters(
            message_outcome(c, s, m).state.sync_msgs,
            BallotView::MatchingSyncs { round, log_idx, log_hash },
        ).len() >= c.fast_quorum && from == s.node_id && round == s.round && log_idx
            == length_after(s, m) - 1 && log_hash == tip_after(s, m)),
{
    let x = MessageView::Checkpoint { from, round, log_idx, log_hash };
    let t = trace(c, s, m);
    if says(message_outcome(c, s, m).effects, x) {
        lemma_origin(c, s, m, x);
    }
    lemma_said(c, s, m, x);
    lemma_at_sync(c, s, m);
    lemma_trace(c, s, m);
    lemma_sync_received(c, t.at_syncs, m);
}

proof fn lemma_sync_received(c: ConfigView, s: StateView, m: MessageView)
    ensures
        ({
            let o = sync_received(c, s, m);
            let x = MessageView::Checkpoint {
                from: s.node_id,
                round: s.round,
                log_idx: (s.kv_size - 1) as u64,
                log_hash: top_hash(s.log),
            };
            let quorum = s.phase == Phase::Speculative && s.kv_size > 0 && supporters(
                o.state.sync_msgs,
                BallotView::MatchingSyncs {
                    round: s.round,
                    log_idx: (s.kv_size - 1) as u64,
                    log_hash: top_hash(s.log),
                },
            ).len() >= c.fast_quorum;
            &&& quorum ==> o.effects =~= seq![EffectView::Broadcast(x)] && says(o.effects, x)
                && o.state.chkpt_idx == s.kv_size - 1 && o.state.chkpt_hash == top_hash(s.log)
            &&& !quorum ==> o.effects.len() == 0 && same_checkpoint(s, o.state)
        }),
{
    let o = sync_received(c, s, m);
    if o.effects.len() > 0 {
        assert(o.effects.contains(o.effects[0]));
    }
}

/// The checkpoint of a replica is the last one that it has announced: a CHECKPOINT
/// that is sent moves it to the index and hash that are named, and otherwise it
/// stays, but for a recovery.
pub proof fn law_checkpoint_follows_the_announcement(
    c: ConfigView,
    s: StateView,
    m: MessageView,
    log_idx: u64,
    log_hash: Seq<u8>,
)
    requires
        healthy(s),
        message_fits(c, s, m),
        m !is StateReply,
    ensures
        ({
            let o = message_outcome(c, s, m);
            let x = MessageView::Checkpoint { from: s.node_id, round: s.round, log_idx, log_hash };
            &&& says(o.effects, x) ==> o.state.chkpt_idx == log_idx && o.state.chkpt_hash
                == log_hash
            &&& o.state.chkpt_idx == s.chkpt_idx && o.state.chkpt_hash == s.chkpt_hash || says(
                o.effects,
                MessageView::Checkpoint {
                    from: s.node_id,
                    round: s.round,
                    log_idx: o.state.chkpt_idx,
                    log_hash: o.state.chkpt_hash,
                },
            )
        }),
{
    let o = message_outcome(c, s, m);
    let t = trace(c, s, m);
    law_checkpoints(c, s, m, s.node_id, s.round, log_idx, log_hash);
    law_checkpoints(c, s, m, s.node_id, s.round, o.state.chkpt_idx, o.state.chkpt_hash);
    lemma_at_sync(c, s, m);
    lemma_trace(c, s, m);
    lemma_sync_received(c, t.at_syncs, m);
}

/// Alignment on one message.
proof fn lemma_checkpoint_received(c: ConfigView, s: StateView, m: MessageView)
    ensures
        ({
            let o = checkpoint_received(c, s, m);
            let x = MessageView::StateRequest { from: s.node_id, chkpt_idx: s.chkpt_idx };
            let quorum = s.phase == Phase::Speculative && supporters(
                o.state.chkpt_msgs,
                BallotView::ConflictingCheckpoints {
                    round: s.round,
                    log_idx: s.chkpt_idx,
                    held: if s.kv_size > s.chkpt_idx {
                        Some(s.chkpt_hash)
                    } else {
                        None
                    },
                },
            ).len() >= c.f_plus_1;
            &&& quorum ==> o.effects =~= seq![EffectView::Broadcast(x)] && says(o.effects, x)
                && o.state.phase == Phase::Aligning
            &&& !quorum ==> o.effects.len() == 0 && o.state.phase == s.phase
        }),
{
    let o = checkpoint_received(c, s, m);
    if o.effects.len() > 0 {
        assert(o.effects.contains(o.effects[0]));
    }
}

/// A STATE-REQUEST is sent only by a replica on the fast path, for its checkpoint
/// index, and only where `f + 1` replicas have sent CHECKPOINTs for its round and
/// that index whose hash is not the one that it holds there. The checkpoint is the
/// one that it had, or one that it announces with the same message.
pub proof fn law_state_requests_need_a_conflict(
    c: ConfigView,
    s: StateView,
    m: MessageView,
    from: Seq<char>,
    chkpt_idx: u64,
) -> (held: Seq<u8>)
    requires
        healthy(s),
        message_fits(c, s, m),
        says(
            message_outcome(c, s, m).effects,
            MessageView::StateRequest { from, chkpt_idx },
        ),
    ensures
        s.phase == Phase::Speculative,
        from == s.node_id,
        ({
            ||| chkpt_idx == s.chkpt_idx && held == s.chkpt_hash
            ||| says(
                message_outcome(c, s, m).effects,
                MessageView::Checkpoint {
                    from: s.node_id,
                    round: s.round,
                    log_idx: chkpt_idx,
                    log_hash: held,
                },
            )
        }),
        supporters(
            message_outcome(c, s, m).state.chkpt_msgs,
            BallotView::ConflictingCheckpoints {
                round: s.round,
                log_idx: chkpt_idx,
                held: if length_after(s, m) > chkpt_idx {
                    Some(held)
                } else {
                    None
                },
            },
        ).len() >= c.f_plus_1,
{
    let x = MessageView::StateRequest { from, chkpt_idx };
    let t = trace(c, s, m);
    lemma_origin(c, s, m, x);
    lemma_at_sync(c, s, m);
    lemma_trace(c, s, m);
    lemma_sync_received(c, t.at_syncs, m);
    lemma_checkpoint_received(c, t.at_checkpoint, m);
    let held = t.at_checkpoint.chkpt_hash;
    law_checkpoints(c, s, m, s.node_id, s.round, chkpt_idx, held);
    assert(chkpt_idx == t.at_checkpoint.chkpt_idx);
    held
}

/// A replica on the fast path that holds conflicting CHECKPOINTs of `f + 1`
/// replicas, for its round and its checkpoint index, asks for the state and goes to
/// align, unless a proof takes it into REPAIR.
pub proof fn law_conflicting_checkpoints_align(c: ConfigView, s: StateView, m: MessageView)
    requires
        healthy(s),
        message_fits(c, s, m),
        s.phase == Phase::Speculative,
        m !is StateReply,
        ({
            let o = message_outcome(c, s, m).state;
            supporters(
                o.chkpt_msgs,
                BallotView::ConflictingCheckpoints {
                    round: s.round,
                    log_idx: o.chkpt_idx,
                    held: if length_after(s, m) > o.chkpt_idx {
                        Some(o.chkpt_hash)
                    } else {
                        None
                    },
                },
            ).len() >= c.f_plus_1
        }),
    ensures
        says(
            message_outcome(c, s, m).effects,
            MessageView::StateRequest {
                from: s.node_id,
                chkpt_idx: message_outcome(c, s, m).state.chkpt_idx,
            },
        ),
        m !is TimeoutProof && m !is ConflictProof ==> message_outcome(c, s, m).state.phase
            == Phase::Aligning,
{
    let o = message_outcome(c, s, m).state;
    let x = MessageView::StateRequest { from: s.node_id, chkpt_idx: o.chkpt_idx };
    let t = trace(c, s, m);
    lemma_at_sync(c, s, m);
    lemma_trace(c, s, m);
    lemma_checkpoint_received(c, t.at_checkpoint, m);
    lemma_said(c, s, m, x);
    lemma_aligning_stays(c, s, m);
}

/// A replica that aligns goes on aligning until a proof or an answer comes.
proof fn lemma_aligning_stays(c: ConfigView, s: StateView, m: MessageView)
    ensures
        ({
            let t = trace(c, s, m);
            t.at_conflict.phase == Phase::Aligning ==> {
                &&& t.at_timeout == t.at_conflict
                &&& t.at_proof.phase == Phase::Aligning && t.at_proof.in_repair
                    == t.at_conflict.in_repair
                &&& m !is TimeoutProof && m !is ConflictProof ==> t.at_reply.phase
                    == Phase::Aligning
                &&& m !is TimeoutProof && m !is ConflictProof && m !is StateReply
                    ==> message_outcome(c, s, m).state.phase == Phase::Aligning
            }
        }),
{
    let t = trace(c, s, m);
    if t.at_conflict.phase == Phase::Aligning {
        assert(t.at_timeout == t.at_conflict);
        assert(t.at_proof.phase == Phase::Aligning);
        if m !is TimeoutProof && m !is ConflictProof {
            assert(t.at_reply.phase == Phase::Aligning);
            if m !is StateReply {
                assert(t.at_log.phase == Phase::Aligning);
                assert(t.at_history.phase == Phase::Aligning);
                assert(t.at_prepare.phase == Phase::Aligning);
                assert(t.at_commit.phase == Phase::Aligning);
                assert(t.at_done.phase == Phase::Aligning);
            }
        }
    }
}

/// The answer to a state request takes an aligning replica back to the fast path,
/// over a log that ends at the index of the answer: the entry at each index up to
/// there stands for the operation of that number, without a result, and the
/// checkpoint is the last of them.
pub proof fn law_recovery_rebuilds_the_log(
    c: ConfigView,
    s: StateView,
    from: Seq<char>,
    chkpt_idx: u64,
    chkpt_hash: Seq<u8>,
    k: u64,
)
    requires
        s.phase == Phase::Aligning,
        chkpt_idx < u64::MAX,
    ensures
        ({
            let o = message_outcome(
                c,
                s,
                MessageView::StateReply { from, chkpt_idx, chkpt_hash },
            );
            &&& o.effects.len() == 0
            &&& o.state.phase == Phase::Speculative
            &&& o.state.kv_size == chkpt_idx + 1
            &&& o.state.start_idx == chkpt_idx
            &&& o.state.chkpt_idx == chkpt_idx
            &&& o.state.chkpt_hash == sha256(entry_bytes(o.state.log[chkpt_idx]))
            &&& o.state.log.contains_key(k) <==> k <= chkpt_idx
            &&& k <= chkpt_idx ==> o.state.log[k].op_hash == k && o.state.log[k].result.len() == 0
                && o.state.log[k].prev_hash.len() == 32 && forall|i: int|
                0 <= i < 32 ==> #[trigger] o.state.log[k].prev_hash[i] == k % 256
            &&& o.state.node_id == s.node_id && o.state.view == s.view && o.state.round == s.round
            &&& o.state.in_repair == s.in_repair
                && o.state.proposed_history_hash == s.proposed_history_hash && o.state.eta_star
                == s.eta_star
        }),
{
    let m = MessageView::StateReply { from, chkpt_idx, chkpt_hash };
    law_recovery_resumes(c, s, m, chkpt_idx);
    lemma_recovered(s, chkpt_idx, k);
}

proof fn lemma_recovered(s: StateView, chkpt_idx: u64, k: u64)
    requires
        chkpt_idx < u64::MAX,
    ensures
        ({
            let o = state_reply_step(s, chkpt_idx);
            &&& o.effects.len() == 0
            &&& o.state.phase == Phase::Speculative
            &&& o.state.kv_size == chkpt_idx + 1
            &&& o.state.start_idx == chkpt_idx
            &&& o.state.chkpt_idx == chkpt_idx
            &&& o.state.chkpt_hash == sha256(entry_bytes(o.state.log[chkpt_idx]))
            &&& o.state.log.contains_key(k) <==> k <= chkpt_idx
            &&& k <= chkpt_idx ==> o.state.log[k].op_hash == k && o.state.log[k].result.len() == 0
                && o.state.log[k].prev_hash.len() == 32 && forall|i: int|
                0 <= i < 32 ==> #[trigger] o.state.log[k].prev_hash[i] == k % 256
            &&& o.state.node_id == s.node_id && o.state.view == s.view && o.state.round == s.round
            &&& o.state.in_repair == s.in_repair && o.state.proposed_history_hash
                == s.proposed_history_hash && o.state.eta_star == s.eta_star
        }),
{
    assert(storable(0));
}

/// A message is sent to one replica only as the answer to its state request, and
/// every state request is answered. The answer is the checkpoint that the replica
/// has afterwards.
pub proof fn law_answers(
    c: ConfigView,
    s: StateView,
    m: MessageView,
    to: Seq<char>,
    message: MessageView,
)
    requires
        healthy(s),
        message_fits(c, s, m),
    ensures
        message_outcome(c, s, m).effects.contains(EffectView::Send { to, message }) <==> (m matches
            MessageView::StateRequest { from, .. } && from == to && message == (
        MessageView::StateReply {
            from: s.node_id,
            chkpt_idx: message_outcome(c, s, m).state.chkpt_idx,
            chkpt_hash: message_outcome(c, s, m).state.chkpt_hash,
        })),
{
    let e = EffectView::Send { to, message };
    let t = trace(c, s, m);
    lemma_at_sync(c, s, m);
    lemma_trace(c, s, m);
    if message_outcome(c, s, m).effects.contains(e) {
        lemma_effect_origin(c, s, m, e);
        lemma_no_send(c, noted(s, m), m, e);
        lemma_no_send(c, t.at_sync, m, e);
        lemma_no_send(c, t.at_syncs, m, e);
        lemma_no_send(c, t.at_checkpoint, m, e);
        lemma_no_send(c, t.at_conflict, m, e);
        lemma_no_send(c, t.at_timeout, m, e);
        lemma_no_send(c, t.at_proof, m, e);
        lemma_no_send(c, t.at_log, m, e);
        lemma_no_send(c, t.at_history, m, e);
        lemma_no_send(c, t.at_prepare, m, e);
        lemma_no_send(c, t.at_commit, m, e);
    }
    if m is StateRequest {
        law_state_request_is_answered(c, s, m);
    }
}

proof fn lemma_no_send(c: ConfigView, s: StateView, m: MessageView, e: EffectView)
    requires
        e is Send,
    ensures
        !speculate_received(s, m).effects.contains(e),
        !sync_threshold_passed(s).effects.contains(e),
        !sync_received(c, s, m).effects.contains(e),
        !checkpoint_received(c, s, m).effects.contains(e),
        !conflict_checked(c, s).effects.contains(e),
        !timeout_received(c, s, m).effects.contains(e),
        !proof_received(s, m).effects.contains(e),
        !log_received(c, s, m).effects.contains(e),
        !history_received(c, s, m).effects.contains(e),
        !prepare_received(c, s, m).effects.contains(e),
        !commit_received(c, s, m).effects.contains(e),
{
}

/// An answer that comes unasked is ignored: where the replica neither aligns nor
/// asks for the state, a STATE-REPLY leaves its log as it is.
pub proof fn law_unasked_answers_are_ignored(c: ConfigView, s: StateView, m: MessageView)
    requires
        healthy(s),
        message_fits(c, s, m),
        m is StateReply,
        s.phase != Phase::Aligning,
        forall|idx: u64|
            !#[trigger] says(
                message_outcome(c, s, m).effects,
                MessageView::StateRequest { from: s.node_id, chkpt_idx: idx },
            ),
        message_outcome(c, s, m).state.round == s.round,
    ensures
        ({
            let o = message_outcome(c, s, m).state;
            o.log == s.log && o.kv_size == s.kv_size && o.start_idx == s.start_idx && o.phase
                != Phase::Aligning
        }),
{
    let t = trace(c, s, m);
    lemma_at_sync(c, s, m);
    lemma_trace(c, s, m);
    lemma_same_round(c, s, m);
    lemma_no_request(c, s, m);
    assert(t.at_reply.phase != Phase::Aligning);
    assert(t.at_log == t.at_reply);
}

/// A replica that asks for no state does not go to align.
proof fn lemma_no_request(c: ConfigView, s: StateView, m: MessageView)
    requires
        healthy(s),
        message_fits(c, s, m),
        forall|idx: u64|
            !#[trigger] says(
                message_outcome(c, s, m).effects,
                MessageView::StateRequest { from: s.node_id, chkpt_idx: idx },
            ),
    ensures
        trace(c, s, m).at_conflict.phase == s.phase,
{
    let t = trace(c, s, m);
    lemma_trace(c, s, m);
    lemma_checkpoint_received(c, t.at_checkpoint, m);
    let x = MessageView::StateRequest { from: s.node_id, chkpt_idx: t.at_checkpoint.chkpt_idx };
    lemma_said(c, s, m, x);
    assert(!says(message_outcome(c, s, m).effects, x));
}

/// The conflict check, as its votes tell.
proof fn lemma_conflict_checked(c: ConfigView, s: StateView)
    ensures
        ({
            let o = conflict_checked(c, s);
            let top = (s.kv_size - 1) as u64;
            let x = MessageView::ConflictProof { round: s.round, log_idx: top };
            let y = MessageView::LogMsg {
                from: s.node_id,
                view: s.view,
                round: s.round,
                log_hash: top_hash(s.log),
            };
            let proved = s.phase == Phase::Speculative && !s.in_repair && s.kv_size > 0
                && supporters(
                s.sync_msgs,
                BallotView::Syncs { round: s.round, log_idx: top },
            ).len() >= c.byz_quorum && supporters(
                s.sync_msgs,
                BallotView::MatchingSyncs {
                    round: s.round,
                    log_idx: top,
                    log_hash: top_hash(s.log),
                },
            ).len() < c.fast_quorum;
            &&& proved ==> o.effects =~= seq![EffectView::Broadcast(x), EffectView::Broadcast(y)]
                && says(o.effects, x) && says(o.effects, y) && o.state.phase
                == Phase::CollectingLogs && o.state.in_repair
            &&& !proved ==> o.effects.len() == 0 && o.state == s
        }),
{
    let o = conflict_checked(c, s);
    if o.effects.len() > 0 {
        assert(o.effects.contains(o.effects[0]));
        assert(o.effects.contains(o.effects[1]));
    }
}

/// The timeout check, as its votes tell.
proof fn lemma_timeout_received(c: ConfigView, s: StateView, m: MessageView)
    ensures
        ({
            let o = timeout_received(c, s, m);
            let top = (s.kv_size - 1) as u64;
            let x = MessageView::TimeoutProof { round: s.round, log_idx: top };
            let y = MessageView::LogMsg {
                from: s.node_id,
                view: s.view,
                round: s.round,
                log_hash: top_hash(s.log),
            };
            let proved = s.phase == Phase::Speculative && !s.in_repair && s.kv_size > 0
                && supporters(
                o.state.timeout_msgs,
                BallotView::Timeouts { round: s.round, log_idx: top },
            ).len() >= c.f_plus_1;
            &&& proved ==> o.effects =~= seq![EffectView::Broadcast(x), EffectView::Broadcast(y)]
                && says(o.effects, x) && says(o.effects, y) && o.state.phase
                == Phase::CollectingLogs && o.state.in_repair
            &&& !proved ==> o.effects.len() == 0 && o.state.phase == s.phase && o.state.in_repair
                == s.in_repair
        }),
{
    let o = timeout_received(c, s, m);
    if o.effects.len() > 0 {
        assert(o.effects.contains(o.effects[0]));
        assert(o.effects.contains(o.effects[1]));
    }
}

/// A proof that arrives.
proof fn lemma_proof_received(s: StateView, m: MessageView)
    ensures
        ({
            let o = proof_received(s, m);
            let y = MessageView::LogMsg {
                from: s.node_id,
                view: s.view,
                round: s.round,
                log_hash: top_hash(s.log),
            };
            let entered = !s.in_repair && (m is TimeoutProof || m is ConflictProof);
            &&& entered ==> o.effects =~= seq![EffectView::Broadcast(m), EffectView::Broadcast(y)]
                && says(o.effects, m) && says(o.effects, y) && o.state.phase
                == Phase::CollectingLogs && o.state.in_repair
            &&& !entered ==> o.effects.len() == 0 && o.state == s
        }),
{
    let o = proof_received(s, m);
    if o.effects.len() > 0 {
        assert(o.effects.contains(o.effects[0]));
        assert(o.effects.contains(o.effects[1]));
    }
}

/// A CONFLICT-PROOF is sent only by a replica that is not in REPAIR. It is one that
/// has just arrived, or it is for the last index of the log, where a Byzantine
/// quorum of replicas has sent SYNCs, of which fewer than a fast quorum carry the
/// hash of the log.
pub proof fn law_conflict_proofs_are_founded(
    c: ConfigView,
    s: StateView,
    m: MessageView,
    round: u64,
    log_idx: u64,
)
    requires
        healthy(s),
        message_fits(c, s, m),
        says(message_outcome(c, s, m).effects, MessageView::ConflictProof { round, log_idx }),
    ensures
        !s.in_repair,
        m == (MessageView::ConflictProof { round, log_idx }) || (s.phase == Phase::Speculative
            && round == s.round && log_idx == length_after(s, m) - 1 && supporters(
            message_outcome(c, s, m).state.sync_msgs,
            BallotView::Syncs { round, log_idx },
        ).len() >= c.byz_quorum && supporters(
            message_outcome(c, s, m).state.sync_msgs,
            BallotView::MatchingSyncs { round, log_idx, log_hash: tip_after(s, m) },
        ).len() < c.fast_quorum),
{
    let t = trace(c, s, m);
    lemma_origin(c, s, m, MessageView::ConflictProof { round, log_idx });
    lemma_at_sync(c, s, m);
    lemma_trace(c, s, m);
    lemma_checkpoint_received(c, t.at_checkpoint, m);
    lemma_conflict_checked(c, t.at_conflict);
    lemma_timeout_received(c, t.at_timeout, m);
    lemma_proof_received(t.at_proof, m);
}

/// A replica that holds SYNCs of a Byzantine quorum for the last index of its log,
/// too few of which carry the hash of the log, sends a CONFLICT-PROOF for that
/// index, unless it is in REPAIR or goes to align.
pub proof fn law_conflicts_are_proved(c: ConfigView, s: StateView, m: MessageView)
    requires
        healthy(s),
        message_fits(c, s, m),
        s.phase == Phase::Speculative,
        !s.in_repair,
        length_after(s, m) > 0,
        forall|idx: u64|
            !#[trigger] says(
                message_outcome(c, s, m).effects,
                MessageView::StateRequest { from: s.node_id, chkpt_idx: idx },
            ),
        supporters(
            message_outcome(c, s, m).state.sync_msgs,
            BallotView::Syncs { round: s.round, log_idx: (length_after(s, m) - 1) as u64 },
        ).len() >= c.byz_quorum,
        supporters(
            message_outcome(c, s, m).state.sync_msgs,
            BallotView::MatchingSyncs {
                round: s.round,
                log_idx: (length_after(s, m) - 1) as u64,
                log_hash: tip_after(s, m),
            },
        ).len() < c.fast_quorum,
    ensures
        says(
            message_outcome(c, s, m).effects,
            MessageView::ConflictProof {
                round: s.round,
                log_idx: (length_after(s, m) - 1) as u64,
            },
        ),
{
    let x = MessageView::ConflictProof {
        round: s.round,
        log_idx: (length_after(s, m) - 1) as u64,
    };
    let t = trace(c, s, m);
    lemma_at_sync(c, s, m);
    lemma_trace(c, s, m);
    lemma_no_request(c, s, m);
    lemma_conflict_checked(c, t.at_conflict);
    lemma_said(c, s, m, x);
}

/// A TIMEOUT-PROOF is sent only by a replica that is not in REPAIR. It is one that
/// has just arrived, or it is for the last index of the log, where `f + 1` replicas
/// have timed out.
#[verifier::rlimit(40)]
pub proof fn law_timeout_proofs_are_founded(
    c: ConfigView,
    s: StateView,
    m: MessageView,
    round: u64,
    log_idx: u64,
)
    requires
        healthy(s),
        message_fits(c, s, m),
        says(message_outcome(c, s, m).effects, MessageView::TimeoutProof { round, log_idx }),
    ensures
        !s.in_repair,
        m == (MessageView::TimeoutProof { round, log_idx }) || (s.phase == Phase::Speculative
            && round == s.round && log_idx == length_after(s, m) - 1 && supporters(
            message_outcome(c, s, m).state.timeout_msgs,
            BallotView::Timeouts { round, log_idx },
        ).len() >= c.f_plus_1),
{
    let t = trace(c, s, m);
    lemma_origin(c, s, m, MessageView::TimeoutProof { round, log_idx });
    lemma_at_sync(c, s, m);
    lemma_trace(c, s, m);
    lemma_checkpoint_received(c, t.at_checkpoint, m);
    lemma_conflict_checked(c, t.at_conflict);
    lemma_timeout_received(c, t.at_timeout, m);
    lemma_proof_received(t.at_proof, m);
}

/// A replica that holds TIMEOUTs of `f + 1` replicas for the last index of its log
/// sends a TIMEOUT-PROOF for that index, unless it is in REPAIR, goes to align, or
/// proves a conflict there.
pub proof fn law_timeouts_are_proved(c: ConfigView, s: StateView, m: MessageView)
    requires
        healthy(s),
        message_fits(c, s, m),
        s.phase == Phase::Speculative,
        !s.in_repair,
        length_after(s, m) > 0,
        forall|idx: u64|
            !#[trigger] says(
                message_outcome(c, s, m).effects,
                MessageView::StateRequest { from: s.node_id, chkpt_idx: idx },
            ),
        supporters(
            message_outcome(c, s, m).state.timeout_msgs,
            BallotView::Timeouts { round: s.round, log_idx: (length_after(s, m) - 1) as u64 },
        ).len() >= c.f_plus_1,
    ensures
        ({
            let all = message_outcome(c, s, m).effects;
            let top = (length_after(s, m) - 1) as u64;
            says(all, MessageView::TimeoutProof { round: s.round, log_idx: top }) || says(
                all,
                MessageView::ConflictProof { round: s.round, log_idx: top },
            )
        }),
{
    let top = (length_after(s, m) - 1) as u64;
    let t = trace(c, s, m);
    lemma_at_sync(c, s, m);
    lemma_trace(c, s, m);
    lemma_no_request(c, s, m);
    lemma_conflict_checked(c, t.at_conflict);
    lemma_timeout_received(c, t.at_timeout, m);
    lemma_said(c, s, m, MessageView::TimeoutProof { round: s.round, log_idx: top });
    lemma_said(c, s, m, MessageView::ConflictProof { round: s.round, log_idx: top });
}

/// A proof is passed on by every replica that is not in REPAIR yet, unless it sends
/// a proof of its own for the last index of its log.
pub proof fn law_proofs_are_passed_on(c: ConfigView, s: StateView, m: MessageView)
    requires
        healthy(s),
        message_fits(c, s, m),
        m is TimeoutProof || m is ConflictProof,
        !s.in_repair,
    ensures
        ({
            let all = message_outcome(c, s, m).effects;
            let top = (length_after(s, m) - 1) as u64;
            says(all, m) || says(all, MessageView::TimeoutProof { round: s.round, log_idx: top })
                || says(all, MessageView::ConflictProof { round: s.round, log_idx: top })
        }),
{
    let top = (length_after(s, m) - 1) as u64;
    let t = trace(c, s, m);
    lemma_at_sync(c, s, m);
    lemma_trace(c, s, m);
    lemma_conflict_checked(c, t.at_conflict);
    lemma_timeout_received(c, t.at_timeout, m);
    lemma_proof_received(t.at_proof, m);
    lemma_said(c, s, m, MessageView::TimeoutProof { round: s.round, log_idx: top });
    lemma_said(c, s, m, MessageView::ConflictProof { round: s.round, log_idx: top });
    lemma_said(c, s, m, m);
}

/// What the three ways into REPAIR come to.
proof fn lemma_ways_in(c: ConfigView, s: StateView, m: MessageView)
    requires
        healthy(s),
        message_fits(c, s, m),
    ensures
        ({
            let t = trace(c, s, m);
            let y = MessageView::LogMsg {
                from: s.node_id,
                view: s.view,
                round: s.round,
                log_hash: tip_after(s, m),
            };
            let a = conflict_checked(c, t.at_conflict).effects;
            let b = timeout_received(c, t.at_timeout, m).effects;
            let d = proof_received(t.at_proof, m).effects;
            &&& before_votes(c, s, m) == t.at_reply
            &&& (a.len() > 0 || b.len() > 0 || d.len() > 0) <==> (!s.in_repair
                && t.at_reply.in_repair)
            &&& a.len() > 0 ==> says(a, y) && exists|x: MessageView| x is ConflictProof
                && #[trigger] says(a, x)
            &&& b.len() > 0 ==> says(b, y) && exists|x: MessageView| x is TimeoutProof
                && #[trigger] says(b, x)
            &&& d.len() > 0 ==> says(d, y) && says(d, m) && (m is TimeoutProof || m
                is ConflictProof)
            &&& forall|x: MessageView| x is LogMsg && (says(a, x) || says(b, x) || says(d, x))
                ==> #[trigger] is_same(x, y)
        }),
{
    let t = trace(c, s, m);
    lemma_at_sync(c, s, m);
    lemma_trace(c, s, m);
    lemma_checkpoint_received(c, t.at_checkpoint, m);
    lemma_conflict_checked(c, t.at_conflict);
    lemma_timeout_received(c, t.at_timeout, m);
    lemma_proof_received(t.at_proof, m);
}

spec fn is_same(x: MessageView, y: MessageView) -> bool {
    x == y
}

/// A replica sends its log summary exactly when it enters REPAIR. It is for its own
/// view and round, and carries the hash of its log.
pub proof fn law_log_summaries(
    c: ConfigView,
    s: StateView,
    m: MessageView,
    from: Seq<char>,
    view: u64,
    round: u64,
    log_hash: Seq<u8>,
)
    requires
        healthy(s),
        message_fits(c, s, m),
    ensures
        says(
            message_outcome(c, s, m).effects,
            MessageView::LogMsg { from, view, round, log_hash },
        ) <==> (from == s.node_id && view == s.view && round == s.round && log_hash == tip_after(
            s,
            m,
        ) && !s.in_repair && before_votes(c, s, m).in_repair),
{
    let x = MessageView::LogMsg { from, view, round, log_hash };
    let y = MessageView::LogMsg {
        from: s.node_id,
        view: s.view,
        round: s.round,
        log_hash: tip_after(s, m),
    };
    if says(message_outcome(c, s, m).effects, x) {
        lemma_origin(c, s, m, x);
    }
    lemma_said(c, s, m, x);
    lemma_ways_in(c, s, m);
    assert(is_same(x, y) == (x == y));
}

/// A replica enters REPAIR exactly when it sends a proof.
pub proof fn law_repair_is_entered_with_a_proof(c: ConfigView, s: StateView, m: MessageView)
    requires
        healthy(s),
        message_fits(c, s, m),
    ensures
        (!s.in_repair && before_votes(c, s, m).in_repair) <==> exists|x: MessageView|
            (x is TimeoutProof || x is ConflictProof) && #[trigger] says(
                message_outcome(c, s, m).effects,
                x,
            ),
{
    let all = message_outcome(c, s, m).effects;
    if !s.in_repair && before_votes(c, s, m).in_repair {
        let x = lemma_entry_is_said(c, s, m);
        assert(says(all, x));
    }
    if exists|x: MessageView| (x is TimeoutProof || x is ConflictProof) && #[trigger] says(all, x) {
        let x = choose|x: MessageView|
            (x is TimeoutProof || x is ConflictProof) && #[trigger] says(all, x);
        lemma_proof_means_entry(c, s, m, x);
    }
}

proof fn lemma_entry_is_said(c: ConfigView, s: StateView, m: MessageView) -> (x: MessageView)
    requires
        healthy(s),
        message_fits(c, s, m),
        !s.in_repair && before_votes(c, s, m).in_repair,
    ensures
        x is TimeoutProof || x is ConflictProof,
        says(message_outcome(c, s, m).effects, x),
{
    let t = trace(c, s, m);
    lemma_ways_in(c, s, m);
    let a = conflict_checked(c, t.at_conflict).effects;
    let b = timeout_received(c, t.at_timeout, m).effects;
    let x = if a.len() > 0 {
        choose|x: MessageView| x is ConflictProof && #[trigger] says(a, x)
    } else if b.len() > 0 {
        choose|x: MessageView| x is TimeoutProof && #[trigger] says(b, x)
    } else {
        m
    };
    lemma_said(c, s, m, x);
    x
}

proof fn lemma_proof_means_entry(c: ConfigView, s: StateView, m: MessageView, x: MessageView)
    requires
        healthy(s),
        message_fits(c, s, m),
        x is TimeoutProof || x is ConflictProof,
        says(message_outcome(c, s, m).effects, x),
    ensures
        !s.in_repair && before_votes(c, s, m).in_repair,
{
    lemma_proof_origin(c, s, m, x);
    lemma_ways_in(c, s, m);
}

/// A proof is said by a stage at which REPAIR is entered.
proof fn lemma_proof_origin(c: ConfigView, s: StateView, m: MessageView, x: MessageView)
    requires
        x is TimeoutProof || x is ConflictProof,
        says(message_outcome(c, s, m).effects, x),
    ensures
        ({
            let t = trace(c, s, m);
            ||| conflict_checked(c, t.at_conflict).effects.len() > 0
            ||| timeout_received(c, t.at_timeout, m).effects.len() > 0
            ||| proof_received(t.at_proof, m).effects.len() > 0
        }),
{
    lemma_origin(c, s, m, x);
}

/// The view timer makes a replica that collects logs send its log summary for the
/// next view, and nothing else sends one on a timer.
pub proof fn law_log_summaries_on_the_timer(
    s: StateView,
    e: Event,
    from: Seq<char>,
    view: u64,
    round: u64,
    log_hash: Seq<u8>,
)
    requires
        healthy(s),
        event_fits(s, e),
    ensures
        says(
            event_outcome(s, e).effects,
            MessageView::LogMsg { from, view, round, log_hash },
        ) <==> (e == Event::RepairViewTimeout && s.phase == Phase::CollectingLogs && from
            == s.node_id && view == s.view + 1 && round == s.round && log_hash == (if s.kv_size
            == 0 {
            zero_hash()
        } else {
            s.log[(s.kv_size - 1) as u64].prev_hash
        })),
        event_outcome(s, e).state.view == (if e == Event::RepairViewTimeout && s.phase
            == Phase::CollectingLogs {
            s.view + 1
        } else {
            s.view as int
        }),
{
    lemma_dense_tip(s.log, s.kv_size);
    let all = event_outcome(s, e).effects;
    if all.len() > 0 {
        assert(all.contains(all[0]));
    }
}

/// The checkpoint timer makes a replica on the fast path, outside of REPAIR, send a
/// TIMEOUT for the index of the timer, and nothing else sends one.
pub proof fn law_timeouts_on_the_timer(
    s: StateView,
    e: Event,
    from: Seq<char>,
    round: u64,
    log_idx: u64,
)
    ensures
        says(
            event_outcome(s, e).effects,
            MessageView::TimeoutMsg { from, round, log_idx },
        ) <==> (e == (Event::ChkptTimeout { log_idx }) && s.phase == Phase::Speculative
            && !s.in_repair && from == s.node_id && round == s.round),
{
    let all = event_outcome(s, e).effects;
    if all.len() > 0 {
        assert(all.contains(all[0]));
    }
}

/// A timer makes a replica say one thing at most: a SYNC, a TIMEOUT or its log
/// summary, to all.
pub proof fn law_timers_say_one_thing(s: StateView, e: Event)
    ensures
        event_outcome(s, e).effects.len() <= 1,
        forall|x: EffectView| #[trigger]
            event_outcome(s, e).effects.contains(x) ==> (x matches EffectView::Broadcast(y) && (y
                is Sync || y is TimeoutMsg || y is LogMsg)),
        event_fits(s, e) <==> !(e == Event::RepairViewTimeout && s.phase == Phase::CollectingLogs
            && s.view == u64::MAX),
{
}

/// The proposal, as its votes tell.
proof fn lemma_log_received(c: ConfigView, s: StateView, m: MessageView)
    ensures
        ({
            let o = log_received(c, s, m);
            let n = supporters(
                o.state.log_msgs,
                BallotView::Logs { view: s.view, round: s.round },
            ).len();
            let x = MessageView::RepairHistory {
                from: s.node_id,
                view: s.view,
                round: s.round,
                history_hash: n as u64,
            };
            let due = s.phase == Phase::CollectingLogs && c.leader(s.view) == Some(s.node_id) && n
                >= c.byz_quorum;
            &&& due ==> o.effects =~= seq![EffectView::Broadcast(x)] && says(o.effects, x)
                && o.state.phase == Phase::PreparePhase && o.state.proposed_history_hash == n as u64
            &&& !due ==> o.effects.len() == 0 && o.state.phase == s.phase
                && o.state.proposed_history_hash == s.proposed_history_hash
        }),
{
    let o = log_received(c, s, m);
    if o.effects.len() > 0 {
        assert(o.effects.contains(o.effects[0]));
    }
}

/// The prepare vote.
proof fn lemma_history_received(c: ConfigView, s: StateView, m: MessageView)
    ensures
        ({
            let o = history_received(c, s, m);
            let p = first_proposal(
                o.state.repair_history_msgs,
                s.view,
                s.round,
                c.leader(s.view),
            );
            let x = MessageView::RepairPrepare {
                from: s.node_id,
                view: s.view,
                round: s.round,
                history_hash: p->0,
            };
            let due = (s.phase == Phase::CollectingLogs || s.phase == Phase::PreparePhase) && p
                is Some;
            &&& due ==> o.effects =~= seq![EffectView::Broadcast(x)] && says(o.effects, x)
                && o.state.phase == Phase::PreparePhase && o.state.proposed_history_hash == p->0
            &&& !due ==> o.effects.len() == 0 && o.state.phase == s.phase
                && o.state.proposed_history_hash == s.proposed_history_hash
        }),
{
    let o = history_received(c, s, m);
    if o.effects.len() > 0 {
        assert(o.effects.contains(o.effects[0]));
    }
}

/// The commit vote.
proof fn lemma_prepare_received(c: ConfigView, s: StateView, m: MessageView)
    ensures
        ({
            let o = prepare_received(c, s, m);
            let h = s.proposed_history_hash;
            let x = MessageView::RepairCommit {
                from: s.node_id,
                view: s.view,
                round: s.round,
                history_hash: h,
            };
            let due = s.phase == Phase::PreparePhase && supporters(
                o.state.repair_prepare_msgs,
                BallotView::Prepares { view: s.view, round: s.round, history_hash: h },
            ).len() >= c.byz_quorum;
            &&& due ==> o.effects =~= seq![EffectView::Broadcast(x)] && says(o.effects, x)
                && o.state.phase == Phase::CommitPhase
            &&& !due ==> o.effects.len() == 0 && o.state.phase == s.phase
        }),
{
    let o = prepare_received(c, s, m);
    if o.effects.len() > 0 {
        assert(o.effects.contains(o.effects[0]));
    }
}

/// The end of the agreement.
proof fn lemma_commit_received(c: ConfigView, s: StateView, m: MessageView, k: u64)
    requires
        apply_guard(c, with_commit(s, m)) is Some ==> s.round < u64::MAX,
    ensures
        ({
            let o = commit_received(c, s, m);
            let h = s.proposed_history_hash;
            let x = MessageView::RepairDone {
                from: s.node_id,
                view: s.view,
                round: s.round,
                history_hash: h,
            };
            let y = MessageView::CommittedReply {
                from: s.node_id,
                round: s.round,
                log_idx: s.kv_size,
            };
            let due = s.phase == Phase::CommitPhase && supporters(
                o.state.repair_commit_msgs,
                BallotView::Commits { view: s.view, round: s.round, history_hash: h },
            ).len() >= c.byz_quorum;
            &&& due ==> {
                &&& o.effects =~= seq![EffectView::Broadcast(x), EffectView::Broadcast(y)]
                &&& says(o.effects, x) && says(o.effects, y)
                &&& o.state.phase == Phase::Speculative && !o.state.in_repair
                    && o.state.proposed_history_hash == 0 && o.state.eta_star == 0
                &&& o.state.round == s.round + 1 && o.state.kv_size == h && o.state.start_idx == h
                &&& o.state.log.contains_key(k) <==> k < h
                &&& k < h ==> o.state.log[k].op_hash == k && o.state.log[k].result.len() == 0
                    && o.state.log[k].prev_hash.len() == 32 && forall|i: int|
                    0 <= i < 32 ==> #[trigger] o.state.log[k].prev_hash[i] == k % 256
            }
            &&& !due ==> o.effects.len() == 0 && same_phase(s, o.state) && same_log(s, o.state)
                && o.state.round == s.round && o.state.eta_star == s.eta_star
        }),
{
    let o = commit_received(c, s, m);
    if o.effects.len() > 0 {
        assert(o.effects.contains(o.effects[0]));
        assert(o.effects.contains(o.effects[1]));
    }
}

/// Catching up.
proof fn lemma_done_received(c: ConfigView, s: StateView, m: MessageView)
    requires
        catchup_guard(c, with_done(s, m)) is Some ==> s.round < u64::MAX,
    ensures
        ({
            let o = done_received(c, s, m);
            let due = s.phase.repairing() && supporters(
                o.state.repair_done_msgs,
                BallotView::Dones { view: s.view, round: s.round },
            ).len() >= c.f_plus_1 && first_proposal(
                s.repair_history_msgs,
                s.view,
                s.round,
                c.leader(s.view),
            ) is Some;
            &&& o.effects.len() == 0
            &&& due ==> o.state.phase == Phase::Speculative && !o.state.in_repair
                && o.state.proposed_history_hash == 0 && o.state.eta_star == 0 && o.state.round
                == s.round + 1 && o.state.start_idx == s.kv_size && o.state.kv_size == s.kv_size
                && o.state.log == s.log
            &&& !due ==> same_phase(s, o.state) && same_log(s, o.state) && o.state.round == s.round
                && o.state.eta_star == s.eta_star
        }),
{
}

/// A prepare vote is cast by the replica itself, for its own view and round, and for
/// the history that the leader of that view has proposed for that view and round.
/// The replica stays with that history, and its vote counts for it.
pub proof fn law_prepare_votes_follow_the_leader(
    c: ConfigView,
    s: StateView,
    m: MessageView,
    from: Seq<char>,
    view: u64,
    round: u64,
    history_hash: u64,
) -> (leader: Seq<char>)
    requires
        healthy(s),
        message_fits(c, s, m),
        says(
            message_outcome(c, s, m).effects,
            MessageView::RepairPrepare { from, view, round, history_hash },
        ),
    ensures
        from == s.node_id && view == s.view && round == s.round,
        c.leader(view) == Some(leader),
        message_outcome(c, s, m).state.repair_history_msgs.contains(
            MessageView::RepairHistory { from: leader, view, round, history_hash },
        ),
        first_proposal(
            message_outcome(c, s, m).state.repair_history_msgs,
            view,
            round,
            Some(leader),
        ) == Some(history_hash),
        ({
            let o = message_outcome(c, s, m).state;
            o.round == s.round ==> (o.phase == Phase::PreparePhase || o.phase == Phase::CommitPhase)
                && o.proposed_history_hash == history_hash && supporters(
                with_message(
                    o.repair_prepare_msgs,
                    MessageView::RepairPrepare { from, view, round, history_hash },
                ),
                BallotView::Prepares {
                    view: o.view,
                    round: o.round,
                    history_hash: o.proposed_history_hash,
                },
            ).contains(s.node_id)
        }),
{
    let x = MessageView::RepairPrepare { from, view, round, history_hash };
    let o = message_outcome(c, s, m).state;
    let t = trace(c, s, m);
    lemma_origin(c, s, m, x);
    lemma_trace(c, s, m);
    lemma_history_received(c, t.at_history, m);
    lemma_prepare_received(c, t.at_prepare, m);
    if o.round == s.round {
        lemma_same_round(c, s, m);
        lemma_vote_frames(c, t.at_prepare, m);
    }
    lemma_first_proposal(o.repair_history_msgs, view, round, c.leader(view));
    law_votes_grow(o.repair_prepare_msgs, x, BallotView::Prepares { view, round, history_hash });
    c.leader(view)->0
}

/// A proposal of the leader is voted on: a replica that still prepares has cast its
/// vote for the leader's proposal, if it holds one, and a replica that still
/// collects logs holds none.
pub proof fn law_proposals_are_voted_on(
    c: ConfigView,
    s: StateView,
    m: MessageView,
    history_hash: u64,
)
    requires
        healthy(s),
        message_fits(c, s, m),
        ({
            let o = message_outcome(c, s, m).state;
            &&& o.round == s.round
            &&& o.phase == Phase::CollectingLogs || o.phase == Phase::PreparePhase
            &&& first_proposal(o.repair_history_msgs, s.view, s.round, c.leader(s.view)) == Some(
                history_hash,
            )
        }),
    ensures
        says(
            message_outcome(c, s, m).effects,
            MessageView::RepairPrepare {
                from: s.node_id,
                view: s.view,
                round: s.round,
                history_hash,
            },
        ),
        message_outcome(c, s, m).state.phase == Phase::PreparePhase,
        message_outcome(c, s, m).state.proposed_history_hash == history_hash,
{
    let x = MessageView::RepairPrepare {
        from: s.node_id,
        view: s.view,
        round: s.round,
        history_hash,
    };
    let t = trace(c, s, m);
    lemma_trace(c, s, m);
    lemma_same_round(c, s, m);
    lemma_log_received(c, t.at_log, m);
    lemma_history_received(c, t.at_history, m);
    lemma_prepare_received(c, t.at_prepare, m);
    lemma_vote_frames(c, t.at_prepare, m);
    lemma_said(c, s, m, x);
}

/// The leader proposes as soon as it can: where it still collects logs, it holds
/// those of fewer than a Byzantine quorum of replicas.
pub proof fn law_leader_proposes_in_time(c: ConfigView, s: StateView, m: MessageView)
    requires
        healthy(s),
        message_fits(c, s, m),
        message_outcome(c, s, m).state.round == s.round,
        message_outcome(c, s, m).state.phase == Phase::CollectingLogs,
        c.leader(s.view) == Some(s.node_id),
    ensures
        supporters(
            message_outcome(c, s, m).state.log_msgs,
            BallotView::Logs { view: s.view, round: s.round },
        ).len() < c.byz_quorum,
{
    let t = trace(c, s, m);
    lemma_trace(c, s, m);
    lemma_same_round(c, s, m);
    lemma_log_received(c, t.at_log, m);
    lemma_history_received(c, t.at_history, m);
    lemma_prepare_received(c, t.at_prepare, m);
}

/// A commit vote is cast only for a history that a Byzantine quorum of replicas has
/// prepared in the view and round of the vote.
pub proof fn law_commit_votes_need_a_quorum(
    c: ConfigView,
    s: StateView,
    m: MessageView,
    from: Seq<char>,
    view: u64,
    round: u64,
    history_hash: u64,
)
    requires
        healthy(s),
        message_fits(c, s, m),
        says(
            message_outcome(c, s, m).effects,
            MessageView::RepairCommit { from, view, round, history_hash },
        ),
    ensures
        from == s.node_id && view == s.view && round == s.round,
        supporters(
            message_outcome(c, s, m).state.repair_prepare_msgs,
            BallotView::Prepares { view, round, history_hash },
        ).len() >= c.byz_quorum,
        (BallotView::Commits { view: s.view, round: s.round, history_hash }).voter(
            MessageView::RepairCommit { from, view, round, history_hash },
        ) == Some(s.node_id),
        message_outcome(c, s, m).state.round == s.round ==> message_outcome(c, s, m).state.phase
            == Phase::CommitPhase && message_outcome(c, s, m).state.proposed_history_hash
            == history_hash,
{
    let x = MessageView::RepairCommit { from, view, round, history_hash };
    let t = trace(c, s, m);
    lemma_origin(c, s, m, x);
    lemma_trace(c, s, m);
    lemma_prepare_received(c, t.at_prepare, m);
    lemma_vote_frames(c, t.at_prepare, m);
    if message_outcome(c, s, m).state.round == s.round {
        lemma_same_round(c, s, m);
    }
}

/// A prepared history is voted to commit: a replica that still prepares holds
/// prepare votes of fewer than a Byzantine quorum for its history, and one that has
/// come to the commit phase has cast its commit vote for its history.
pub proof fn law_prepared_histories_are_committed(c: ConfigView, s: StateView, m: MessageView)
    requires
        healthy(s),
        message_fits(c, s, m),
        message_outcome(c, s, m).state.round == s.round,
    ensures
        ({
            let o = message_outcome(c, s, m);
            let h = o.state.proposed_history_hash;
            &&& o.state.phase == Phase::PreparePhase ==> supporters(
                o.state.repair_prepare_msgs,
                BallotView::Prepares { view: s.view, round: s.round, history_hash: h },
            ).len() < c.byz_quorum
            &&& o.state.phase == Phase::CommitPhase && s.phase != Phase::CommitPhase ==> says(
                o.effects,
                MessageView::RepairCommit {
                    from: s.node_id,
                    view: s.view,
                    round: s.round,
                    history_hash: h,
                },
            )
        }),
{
    let o = message_outcome(c, s, m);
    let x = MessageView::RepairCommit {
        from: s.node_id,
        view: s.view,
        round: s.round,
        history_hash: o.state.proposed_history_hash,
    };
    let t = trace(c, s, m);
    lemma_trace(c, s, m);
    lemma_same_round(c, s, m);
    lemma_checkpoint_received(c, t.at_checkpoint, m);
    lemma_conflict_checked(c, t.at_conflict);
    lemma_timeout_received(c, t.at_timeout, m);
    lemma_proof_received(t.at_proof, m);
    lemma_log_received(c, t.at_log, m);
    lemma_history_received(c, t.at_history, m);
    lemma_prepare_received(c, t.at_prepare, m);
    lemma_vote_frames(c, t.at_prepare, m);
    lemma_said(c, s, m, x);
}

/// A replica that agrees on a history still has the log of before the message, with
/// the request of the message, if it was one.
proof fn lemma_length_in_repair(c: ConfigView, s: StateView, m: MessageView)
    requires
        healthy(s),
        message_fits(c, s, m),
        trace(c, s, m).at_commit.phase.repairing(),
    ensures
        trace(c, s, m).at_commit.kv_size == length_after(s, m),
        trace(c, s, m).at_commit.log == trace(c, s, m).at_sync.log,
{
    let t = trace(c, s, m);
    lemma_at_sync(c, s, m);
    lemma_trace(c, s, m);
    lemma_reply_outside_of_alignment(t.at_reply, m);
    lemma_log_received(c, t.at_log, m);
    lemma_history_received(c, t.at_history, m);
    lemma_prepare_received(c, t.at_prepare, m);
}

/// Only an aligning replica takes a STATE-REPLY up, and only to go back to the fast
/// path.
proof fn lemma_reply_outside_of_alignment(s: StateView, m: MessageView)
    ensures
        state_reply_received(s, m).state.phase.repairing() ==> state_reply_received(s, m).state
            == s,
{
}

/// A REPAIR-DONE is sent by the replica itself, for its own view and round, and only
/// with a history that a Byzantine quorum of replicas has committed there. The next
/// round starts with a log of the length that the history names, outside of REPAIR
/// and on the fast path.
pub proof fn law_repair_ends_with_a_commit(
    c: ConfigView,
    s: StateView,
    m: MessageView,
    from: Seq<char>,
    view: u64,
    round: u64,
    history_hash: u64,
    k: u64,
)
    requires
        healthy(s),
        message_fits(c, s, m),
        says(
            message_outcome(c, s, m).effects,
            MessageView::RepairDone { from, view, round, history_hash },
        ),
    ensures
        from == s.node_id && view == s.view && round == s.round,
        ({
            let o = message_outcome(c, s, m).state;
            &&& supporters(
                o.repair_commit_msgs,
                BallotView::Commits { view, round, history_hash },
            ).len() >= c.byz_quorum
            &&& o.round == s.round + 1 && o.phase == Phase::Speculative && !o.in_repair
                && o.proposed_history_hash == 0 && o.eta_star == 0
            &&& o.kv_size == history_hash && o.start_idx == history_hash
            &&& o.log.contains_key(k) <==> k < history_hash
            &&& k < history_hash ==> o.log[k].op_hash == k && o.log[k].result.len() == 0
                && o.log[k].prev_hash.len() == 32 && forall|i: int|
                0 <= i < 32 ==> #[trigger] o.log[k].prev_hash[i] == k % 256
        }),
{
    let x = MessageView::RepairDone { from, view, round, history_hash };
    let t = trace(c, s, m);
    lemma_origin(c, s, m, x);
    lemma_trace(c, s, m);
    lemma_ending(c, s, m);
    lemma_commit_received(c, t.at_commit, m, k);
    lemma_done_received(c, t.at_done, m);
}

/// There is room for the next round where one is started.
proof fn lemma_ending(c: ConfigView, s: StateView, m: MessageView)
    requires
        message_fits(c, s, m),
    ensures
        ({
            let t = trace(c, s, m);
            &&& apply_guard(c, with_commit(t.at_commit, m)) is Some ==> t.at_commit.round
                < u64::MAX
            &&& catchup_guard(c, with_done(t.at_done, m)) is Some ==> t.at_done.round < u64::MAX
            &&& t.at_done == commit_received(c, t.at_commit, m).state
        }),
{
}

/// The clients are told that the round is committed only when the replica is done
/// with REPAIR through a committed history. The reply names the replica, the round
/// and the length that its log had.
pub proof fn law_committed_replies_are_founded(
    c: ConfigView,
    s: StateView,
    m: MessageView,
    from: Seq<char>,
    round: u64,
    log_idx: u64,
) -> (history_hash: u64)
    requires
        healthy(s),
        message_fits(c, s, m),
        says(
            message_outcome(c, s, m).effects,
            MessageView::CommittedReply { from, round, log_idx },
        ),
    ensures
        from == s.node_id && round == s.round && log_idx == length_after(s, m),
        says(
            message_outcome(c, s, m).effects,
            MessageView::RepairDone {
                from: s.node_id,
                view: s.view,
                round: s.round,
                history_hash,
            },
        ),
{
    let t = trace(c, s, m);
    let h = t.at_commit.proposed_history_hash;
    lemma_origin(c, s, m, MessageView::CommittedReply { from, round, log_idx });
    lemma_trace(c, s, m);
    lemma_ending(c, s, m);
    lemma_commit_received(c, t.at_commit, m, 0);
    lemma_length_in_repair(c, s, m);
    lemma_said(
        c,
        s,
        m,
        MessageView::RepairDone { from, view: s.view, round, history_hash: h },
    );
    h
}

/// A replica that tells its peers that it is done with REPAIR tells the clients that
/// the round is committed.
pub proof fn law_clients_are_told(
    c: ConfigView,
    s: StateView,
    m: MessageView,
    from: Seq<char>,
    view: u64,
    round: u64,
    history_hash: u64,
)
    requires
        healthy(s),
        message_fits(c, s, m),
        says(
            message_outcome(c, s, m).effects,
            MessageView::RepairDone { from, view, round, history_hash },
        ),
    ensures
        says(
            message_outcome(c, s, m).effects,
            MessageView::CommittedReply {
                from: s.node_id,
                round: s.round,
                log_idx: length_after(s, m) as u64,
            },
        ),
{
    let t = trace(c, s, m);
    lemma_origin(c, s, m, MessageView::RepairDone { from, view, round, history_hash });
    lemma_trace(c, s, m);
    lemma_ending(c, s, m);
    lemma_commit_received(c, t.at_commit, m, 0);
    lemma_length_in_repair(c, s, m);
    lemma_said(
        c,
        s,
        m,
        MessageView::CommittedReply {
            from: s.node_id,
            round: s.round,
            log_idx: length_after(s, m) as u64,
        },
    );
}

/// A committed history is applied: a replica that stays in the commit phase holds
/// commit votes of fewer than a Byzantine quorum for its history.
pub proof fn law_committed_histories_are_applied(c: ConfigView, s: StateView, m: MessageView)
    requires
        healthy(s),
        message_fits(c, s, m),
        message_outcome(c, s, m).state.round == s.round,
        message_outcome(c, s, m).state.phase == Phase::CommitPhase,
    ensures
        supporters(
            message_outcome(c, s, m).state.repair_commit_msgs,
            BallotView::Commits {
                view: s.view,
                round: s.round,
                history_hash: message_outcome(c, s, m).state.proposed_history_hash,
            },
        ).len() < c.byz_quorum,
{
    let t = trace(c, s, m);
    lemma_trace(c, s, m);
    lemma_same_round(c, s, m);
    lemma_ending(c, s, m);
    lemma_commit_received(c, t.at_commit, m, 0);
}

/// A replica catches up, that is, it leaves its round without a committed history of
/// its own, only where at least `f + 1` replicas have sent it a REPAIR-DONE for its
/// view and round and the leader of the view has proposed a history. It keeps its log
/// and starts the next round behind it. With at most `f` faulty replicas, a correct
/// one is done.
pub proof fn law_catching_up_needs_a_correct_replica(
    c: ConfigView,
    s: StateView,
    m: MessageView,
    faulty: Set<Seq<char>>,
) -> (leader: Seq<char>)
    requires
        healthy(s),
        message_fits(c, s, m),
        message_outcome(c, s, m).state.round != s.round,
        forall|x: MessageView|
            x is RepairDone ==> !#[trigger] says(message_outcome(c, s, m).effects, x),
    ensures
        ({
            let o = message_outcome(c, s, m).state;
            let done = supporters(
                o.repair_done_msgs,
                BallotView::Dones { view: s.view, round: s.round },
            );
            let proposal = first_proposal(o.repair_history_msgs, s.view, s.round, Some(leader));
            &&& done.len() >= c.f_plus_1
            &&& faulty.finite() && faulty.len() < c.f_plus_1 ==> exists|who: Seq<char>|
                done.contains(who) && !#[trigger] faulty.contains(who)
            &&& c.leader(s.view) == Some(leader) && proposal is Some
            &&& o.repair_history_msgs.contains(
                MessageView::RepairHistory {
                    from: leader,
                    view: s.view,
                    round: s.round,
                    history_hash: proposal->0,
                },
            )
            &&& o.round == s.round + 1 && o.phase == Phase::Speculative && !o.in_repair
                && o.proposed_history_hash == 0 && o.eta_star == 0
            &&& o.kv_size == length_after(s, m) && o.start_idx == o.kv_size
            &&& !is_executed(s, m) ==> o.log == s.log
            &&& is_executed(s, m) ==> o.log == s.log.insert(
                s.kv_size,
                EntryView {
                    op_hash: s.kv_size,
                    result: Seq::empty(),
                    prev_hash: tip_after(s, m),
                },
            )
        }),
{
    let t = trace(c, s, m);
    let o = message_outcome(c, s, m).state;
    let done = supporters(o.repair_done_msgs, BallotView::Dones { view: s.view, round: s.round });
    lemma_catching_up(c, s, m);
    lemma_first_proposal(o.repair_history_msgs, s.view, s.round, c.leader(s.view));
    lemma_supporters_finite(
        o.repair_done_msgs,
        BallotView::Dones { view: s.view, round: s.round },
    );
    if faulty.finite() && faulty.len() < c.f_plus_1 {
        law_one_is_correct(done, faulty, (c.f_plus_1 - 1) as nat);
    }
    c.leader(s.view)->0
}

/// A round that ends without a REPAIR-DONE of the replica ends by catching up.
proof fn lemma_catching_up(c: ConfigView, s: StateView, m: MessageView)
    requires
        healthy(s),
        message_fits(c, s, m),
        message_outcome(c, s, m).state.round != s.round,
        forall|x: MessageView|
            x is RepairDone ==> !#[trigger] says(message_outcome(c, s, m).effects, x),
    ensures
        ({
            let o = message_outcome(c, s, m).state;
            &&& supporters(
                o.repair_done_msgs,
                BallotView::Dones { view: s.view, round: s.round },
            ).len() >= c.f_plus_1
            &&& first_proposal(
                o.repair_history_msgs,
                s.view,
                s.round,
                c.leader(s.view),
            ) is Some
            &&& o.round == s.round + 1 && o.phase == Phase::Speculative && !o.in_repair
                && o.proposed_history_hash == 0 && o.eta_star == 0
            &&& o.kv_size == length_after(s, m) && o.start_idx == o.kv_size
            &&& !is_executed(s, m) ==> o.log == s.log
            &&& is_executed(s, m) ==> o.log == s.log.insert(
                s.kv_size,
                EntryView {
                    op_hash: s.kv_size,
                    result: Seq::empty(),
                    prev_hash: tip_after(s, m),
                },
            )
        }),
{
    let t = trace(c, s, m);
    let x = MessageView::RepairDone {
        from: s.node_id,
        view: s.view,
        round: s.round,
        history_hash: t.at_commit.proposed_history_hash,
    };
    lemma_at_sync(c, s, m);
    lemma_trace(c, s, m);
    lemma_ending(c, s, m);
    lemma_commit_received(c, t.at_commit, m, 0);
    lemma_exit_frames(c, t.at_commit, m);
    lemma_done_received(c, t.at_done, m);
    lemma_said(c, s, m, x);
    if t.at_commit.phase.repairing() {
        lemma_length_in_repair(c, s, m);
    }
}

/// A replica does not stay behind: while it is still in REPAIR, it holds REPAIR-DONEs
/// of at most `f` replicas for its view and round, or no proposal of the leader.
pub proof fn law_done_replicas_are_followed(c: ConfigView, s: StateView, m: MessageView)
    requires
        healthy(s),
        message_fits(c, s, m),
        message_outcome(c, s, m).state.round == s.round,
        message_outcome(c, s, m).state.phase.repairing(),
    ensures
        ({
            let o = message_outcome(c, s, m).state;
            ||| supporters(
                o.repair_done_msgs,
                BallotView::Dones { view: s.view, round: s.round },
            ).len() < c.f_plus_1
            ||| first_proposal(
                o.repair_history_msgs,
                s.view,
                s.round,
                c.leader(s.view),
            ) is None
        }),
{
    let t = trace(c, s, m);
    lemma_trace(c, s, m);
    lemma_same_round(c, s, m);
    lemma_ending(c, s, m);
    lemma_exit_frames(c, t.at_commit, m);
    lemma_done_received(c, t.at_done, m);
}

/// A set of messages before and after `m` arrives: where `m` is of the kind that the
/// set is for, `m` is kept, once and behind those that came before it, and else
/// nothing changes.
pub open spec fn takes(
    before: Seq<MessageView>,
    after: Seq<MessageView>,
    m: MessageView,
    of_kind: bool,
) -> bool {
    after =~= if of_kind && !before.contains(m) {
        before.push(m)
    } else {
        before
    }
}

/// Every vote and report that arrives is kept among those of its kind, whatever the
/// phase, and the messages of the other kinds stay as they are.
pub proof fn law_messages_are_sorted_by_kind(c: ConfigView, s: StateView, m: MessageView)
    requires
        healthy(s),
        message_fits(c, s, m),
    ensures
        ({
            let o = message_outcome(c, s, m).state;
            &&& takes(s.sync_msgs, o.sync_msgs, m, m is Sync)
            &&& takes(s.ack_msgs, o.ack_msgs, m, m is SpecReply)
            &&& takes(s.chkpt_msgs, o.chkpt_msgs, m, m is Checkpoint)
            &&& takes(s.timeout_msgs, o.timeout_msgs, m, m is TimeoutMsg)
            &&& takes(s.log_msgs, o.log_msgs, m, m is LogMsg)
            &&& takes(s.repair_history_msgs, o.repair_history_msgs, m, m is RepairHistory)
            &&& takes(s.repair_prepare_msgs, o.repair_prepare_msgs, m, m is RepairPrepare)
            &&& takes(s.repair_commit_msgs, o.repair_commit_msgs, m, m is RepairCommit)
            &&& takes(s.repair_done_msgs, o.repair_done_msgs, m, m is RepairDone)
        }),
{
    lemma_reports_kept(c, s, m);
    lemma_votes_kept(c, s, m);
}

proof fn lemma_reports_kept(c: ConfigView, s: StateView, m: MessageView)
    requires
        healthy(s),
        message_fits(c, s, m),
    ensures
        ({
            let o = message_outcome(c, s, m).state;
            &&& takes(s.sync_msgs, o.sync_msgs, m, m is Sync)
            &&& takes(s.ack_msgs, o.ack_msgs, m, m is SpecReply)
            &&& takes(s.chkpt_msgs, o.chkpt_msgs, m, m is Checkpoint)
            &&& takes(s.timeout_msgs, o.timeout_msgs, m, m is TimeoutMsg)
        }),
{
    let t = trace(c, s, m);
    lemma_at_sync(c, s, m);
    lemma_trace(c, s, m);
    lemma_fast_frames(c, t.at_syncs, m);
    lemma_fast_frames(c, t.at_checkpoint, m);
    lemma_entry_frames(c, t.at_conflict, m);
    lemma_entry_frames(c, t.at_timeout, m);
    lemma_entry_frames(c, t.at_proof, m);
    lemma_vote_frames(c, t.at_reply, m);
    lemma_vote_frames(c, t.at_log, m);
    lemma_vote_frames(c, t.at_history, m);
    lemma_vote_frames(c, t.at_prepare, m);
    lemma_exit_frames(c, t.at_commit, m);
    lemma_exit_frames(c, t.at_done, m);
    lemma_report_taken(c, t.at_syncs, m);
    lemma_report_taken(c, t.at_checkpoint, m);
    lemma_report_taken(c, t.at_timeout, m);
    assert(t.at_sync.ack_msgs == noted(s, m).ack_msgs);
}

proof fn lemma_report_taken(c: ConfigView, s: StateView, m: MessageView)
    ensures
        takes(s.sync_msgs, sync_received(c, s, m).state.sync_msgs, m, m is Sync),
        takes(s.chkpt_msgs, checkpoint_received(c, s, m).state.chkpt_msgs, m, m is Checkpoint),
        takes(s.timeout_msgs, timeout_received(c, s, m).state.timeout_msgs, m, m is TimeoutMsg),
{
}

proof fn lemma_votes_kept(c: ConfigView, s: StateView, m: MessageView)
    requires
        healthy(s),
        message_fits(c, s, m),
    ensures
        ({
            let o = message_outcome(c, s, m).state;
            &&& takes(s.log_msgs, o.log_msgs, m, m is LogMsg)
            &&& takes(s.repair_history_msgs, o.repair_history_msgs, m, m is RepairHistory)
            &&& takes(s.repair_prepare_msgs, o.repair_prepare_msgs, m, m is RepairPrepare)
            &&& takes(s.repair_commit_msgs, o.repair_commit_msgs, m, m is RepairCommit)
            &&& takes(s.repair_done_msgs, o.repair_done_msgs, m, m is RepairDone)
        }),
{
    let t = trace(c, s, m);
    lemma_at_sync(c, s, m);
    lemma_trace(c, s, m);
    lemma_fast_frames(c, t.at_syncs, m);
    lemma_fast_frames(c, t.at_checkpoint, m);
    lemma_entry_frames(c, t.at_conflict, m);
    lemma_entry_frames(c, t.at_timeout, m);
    lemma_entry_frames(c, t.at_proof, m);
    lemma_vote_frames(c, t.at_reply, m);
    lemma_vote_frames(c, t.at_log, m);
    lemma_vote_frames(c, t.at_history, m);
    lemma_vote_frames(c, t.at_prepare, m);
    lemma_exit_frames(c, t.at_commit, m);
    lemma_exit_frames(c, t.at_done, m);
    lemma_vote_taken(c, t.at_log, m);
    lemma_vote_taken(c, t.at_history, m);
    lemma_vote_taken(c, t.at_prepare, m);
    lemma_vote_taken(c, t.at_commit, m);
    lemma_vote_taken(c, t.at_done, m);
}

proof fn lemma_vote_taken(c: ConfigView, s: StateView, m: MessageView)
    ensures
        takes(s.log_msgs, log_received(c, s, m).state.log_msgs, m, m is LogMsg),
        takes(
            s.repair_history_msgs,
            history_received(c, s, m).state.repair_history_msgs,
            m,
            m is RepairHistory,
        ),
        takes(
            s.repair_prepare_msgs,
            prepare_received(c, s, m).state.repair_prepare_msgs,
            m,
            m is RepairPrepare,
        ),
        takes(
            s.repair_commit_msgs,
            commit_received(c, s, m).state.repair_commit_msgs,
            m,
            m is RepairCommit,
        ),
        takes(
            s.repair_done_msgs,
            done_received(c, s, m).state.repair_done_msgs,
            m,
            m is RepairDone,
        ),
{
}

/// Within a round the largest sequence number is that of the requests seen so far:
/// a larger one takes its place, and nothing else changes it.
pub proof fn law_eta_star_follows_the_requests(c: ConfigView, s: StateView, m: MessageView)
    requires
        healthy(s),
        message_fits(c, s, m),
        message_outcome(c, s, m).state.round == s.round,
    ensures
        message_outcome(c, s, m).state.eta_star == match m {
            MessageView::Speculate { eta, .. } if eta > s.eta_star => eta,
            _ => s.eta_star,
        },
{
    let t = trace(c, s, m);
    lemma_trace(c, s, m);
    lemma_same_round(c, s, m);
    lemma_fast_frames(c, t.at_syncs, m);
    lemma_fast_frames(c, t.at_checkpoint, m);
    lemma_entry_frames(c, t.at_conflict, m);
    lemma_entry_frames(c, t.at_timeout, m);
    lemma_entry_frames(c, t.at_proof, m);
    lemma_vote_frames(c, t.at_reply, m);
    lemma_vote_frames(c, t.at_log, m);
    lemma_vote_frames(c, t.at_history, m);
    lemma_vote_frames(c, t.at_prepare, m);
    assert(t.at_syncs.eta_star == noted(s, m).eta_star);
}

/// No phase begins in silence. Within a round, a replica that begins to align has
/// asked for the state, one that begins to prepare has proposed a history or voted
/// for one, and one that begins to commit has cast its commit vote; one that comes to
/// the fast path has been answered. The history that it votes on is the one it has
/// last spoken of.
pub proof fn law_phases_are_announced(c: ConfigView, s: StateView, m: MessageView)
    requires
        healthy(s),
        message_fits(c, s, m),
        message_outcome(c, s, m).state.round == s.round,
    ensures
        ({
            let o = message_outcome(c, s, m);
            let h = o.state.proposed_history_hash;
            let begins = o.state.phase != s.phase;
            let voted = says(
                o.effects,
                MessageView::RepairPrepare {
                    from: s.node_id,
                    view: s.view,
                    round: s.round,
                    history_hash: h,
                },
            );
            let proposed = says(
                o.effects,
                MessageView::RepairHistory {
                    from: s.node_id,
                    view: s.view,
                    round: s.round,
                    history_hash: h,
                },
            );
            &&& begins && o.state.phase == Phase::Speculative ==> m is StateReply && s.phase
                == Phase::Aligning
            &&& begins && o.state.phase == Phase::Aligning ==> s.phase == Phase::Speculative
                && says(
                o.effects,
                MessageView::StateRequest { from: s.node_id, chkpt_idx: o.state.chkpt_idx },
            )
            &&& begins && o.state.phase == Phase::PreparePhase ==> voted || proposed
            &&& begins && o.state.phase == Phase::CommitPhase ==> says(
                o.effects,
                MessageView::RepairCommit {
                    from: s.node_id,
                    view: s.view,
                    round: s.round,
                    history_hash: h,
                },
            )
            &&& h != s.proposed_history_hash ==> voted || proposed
        }),
{
    let t = trace(c, s, m);
    let o = message_outcome(c, s, m);
    let h = o.state.proposed_history_hash;
    lemma_at_sync(c, s, m);
    lemma_trace(c, s, m);
    lemma_same_round(c, s, m);
    lemma_phase_of_votes(c, s, m);
    lemma_phase_of_entry(c, s, m);
    lemma_said(
        c,
        s,
        m,
        MessageView::StateRequest { from: s.node_id, chkpt_idx: o.state.chkpt_idx },
    );
    lemma_said(
        c,
        s,
        m,
        MessageView::RepairPrepare {
            from: s.node_id,
            view: s.view,
            round: s.round,
            history_hash: h,
        },
    );
    lemma_said(
        c,
        s,
        m,
        MessageView::RepairHistory {
            from: s.node_id,
            view: s.view,
            round: s.round,
            history_hash: h,
        },
    );
    lemma_said(
        c,
        s,
        m,
        MessageView::RepairCommit {
            from: s.node_id,
            view: s.view,
            round: s.round,
            history_hash: h,
        },
    );
}

/// The phases up to the votes.
proof fn lemma_phase_of_entry(c: ConfigView, s: StateView, m: MessageView)
    requires
        healthy(s),
        message_fits(c, s, m),
    ensures
        ({
            let t = trace(c, s, m);
            let x = MessageView::StateRequest {
                from: s.node_id,
                chkpt_idx: t.at_checkpoint.chkpt_idx,
            };
            &&& t.at_log.proposed_history_hash == s.proposed_history_hash
            &&& t.at_log.phase == s.phase || t.at_log.phase == Phase::CollectingLogs
                || t.at_log.phase == Phase::Aligning && s.phase == Phase::Speculative && says(
                checkpoint_received(c, t.at_checkpoint, m).effects,
                x,
            ) && m !is StateReply || t.at_log.phase == Phase::Speculative && m is StateReply
                && s.phase == Phase::Aligning
        }),
{
    let t = trace(c, s, m);
    lemma_at_sync(c, s, m);
    lemma_trace(c, s, m);
    lemma_fast_frames(c, t.at_syncs, m);
    lemma_fast_frames(c, t.at_checkpoint, m);
    lemma_entry_frames(c, t.at_conflict, m);
    lemma_entry_frames(c, t.at_timeout, m);
    lemma_entry_frames(c, t.at_proof, m);
    lemma_vote_frames(c, t.at_reply, m);
    lemma_checkpoint_received(c, t.at_checkpoint, m);
    lemma_conflict_checked(c, t.at_conflict);
    lemma_timeout_received(c, t.at_timeout, m);
    lemma_proof_received(t.at_proof, m);
    lemma_reply_phase(t.at_reply, m);
}

proof fn lemma_reply_phase(s: StateView, m: MessageView)
    ensures
        ({
            let t = state_reply_received(s, m).state;
            t.phase == s.phase || s.phase == Phase::Aligning && t.phase == Phase::Speculative
                && m is StateReply
        }),
        m is StateReply && s.phase == Phase::Aligning ==> state_reply_received(s, m).state.phase
            == Phase::Speculative,
{
}

/// The phases from the votes on.
proof fn lemma_phase_of_votes(c: ConfigView, s: StateView, m: MessageView)
    requires
        healthy(s),
        message_fits(c, s, m),
    ensures
        ({
            let t = trace(c, s, m);
            let h = t.at_commit.proposed_history_hash;
            let voted = says(
                history_received(c, t.at_history, m).effects,
                MessageView::RepairPrepare {
                    from: s.node_id,
                    view: s.view,
                    round: s.round,
                    history_hash: h,
                },
            );
            let proposed = says(
                log_received(c, t.at_log, m).effects,
                MessageView::RepairHistory {
                    from: s.node_id,
                    view: s.view,
                    round: s.round,
                    history_hash: h,
                },
            );
            &&& h != t.at_log.proposed_history_hash ==> voted || proposed
            &&& t.at_commit.phase != t.at_log.phase ==> t.at_commit.phase == Phase::PreparePhase
                && (voted || proposed) || t.at_commit.phase == Phase::CommitPhase && says(
                prepare_received(c, t.at_prepare, m).effects,
                MessageView::RepairCommit {
                    from: s.node_id,
                    view: s.view,
                    round: s.round,
                    history_hash: h,
                },
            )
        }),
{
    let t = trace(c, s, m);
    lemma_trace(c, s, m);
    lemma_log_received(c, t.at_log, m);
    lemma_history_received(c, t.at_history, m);
    lemma_prepare_received(c, t.at_prepare, m);
    lemma_vote_frames(c, t.at_prepare, m);
}

/// A replica that has voted for a history and then receives its own vote counts itself
/// among those who have prepared the history of its state, in its view and round.
pub proof fn law_own_vote_is_counted(
    c: ConfigView,
    s: StateView,
    m: MessageView,
    from: Seq<char>,
    view: u64,
    round: u64,
    history_hash: u64,
)
    requires
        healthy(s),
        message_fits(c, s, m),
        message_outcome(c, s, m).state.round == s.round,
        says(
            message_outcome(c, s, m).effects,
            MessageView::RepairPrepare { from, view, round, history_hash },
        ),
        message_fits(
            c,
            message_outcome(c, s, m).state,
            MessageView::RepairPrepare { from, view, round, history_hash },
        ),
    ensures
        ({
            let o = message_outcome(c, s, m).state;
            let t = message_outcome(
                c,
                o,
                MessageView::RepairPrepare { from, view, round, history_hash },
            ).state;
            supporters(
                t.repair_prepare_msgs,
                BallotView::Prepares {
                    view: s.view,
                    round: s.round,
                    history_hash: o.proposed_history_hash,
                },
            ).contains(s.node_id)
        }),
{
    let x = MessageView::RepairPrepare { from, view, round, history_hash };
    let o = message_outcome(c, s, m).state;
    law_prepare_votes_follow_the_leader(c, s, m, from, view, round, history_hash);
    law_health_is_kept(c, s, m);
    law_messages_are_sorted_by_kind(c, o, x);
    let t = message_outcome(c, o, x).state;
    assert(t.repair_prepare_msgs == with_message(o.repair_prepare_msgs, x));
}

/// A message leaves the log without gaps, and its last entry one that can be hashed.
pub proof fn law_health_is_kept(c: ConfigView, s: StateView, m: MessageView)
    requires
        healthy(s),
        message_fits(c, s, m),
    ensures
        healthy(message_outcome(c, s, m).state),
{
    let t = trace(c, s, m);
    let o = message_outcome(c, s, m).state;
    law_log_has_no_gaps(c, s, m);
    assert(storable(0));
    lemma_at_sync(c, s, m);
    lemma_trace(c, s, m);
    lemma_ending(c, s, m);
    lemma_recovered_or_same(t.at_reply, m);
    let k = (o.kv_size - 1) as u64;
    lemma_commit_received(c, t.at_commit, m, k);
    lemma_done_received(c, t.at_done, m);
}

/// A recovered log ends in an entry without a result.
proof fn lemma_recovered_or_same(s: StateView, m: MessageView)
    requires
        state_reply_guard(s, m) != Some(u64::MAX),
    ensures
        ({
            let t = state_reply_received(s, m).state;
            same_log(s, t) || t.kv_size > 0 && t.log[(t.kv_size - 1) as u64].result.len() == 0
        }),
{
    if let Some(chkpt_idx) = state_reply_guard(s, m) {
        lemma_recovered(s, chkpt_idx, chkpt_idx);
    }
}

} // verus!
