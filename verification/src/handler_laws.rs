//! What the handlers say, as those who hear it count it: each vote that a replica casts
//! is one of its own, in the ballot that its argument and its place in the protocol
//! name.

use vstd::prelude::*;

use crate::alignment::{enter_align_step, state_reply_received, state_request_step};
use crate::checkpoint::{form_checkpoint_step, send_sync_step};
use crate::codec::{entry_bytes, sha256, storable};
use crate::config::ConfigView;
use crate::effect::EffectView;
use crate::fast_path::speculate_step;
use crate::log::top_hash;
use crate::message::MessageView;
use crate::phase::Phase;
use crate::quorum::{first_proposal, BallotView};
use crate::repair::{
    apply_step, broadcast_history_step, catchup_guard, commit_step, prepare_step,
    view_change_step,
};
use crate::repair_entry::{
    chkpt_timeout_step, conflict_proof_step, enter_repair_guard, enter_repair_step,
    timeout_proof_step,
};
use crate::state::StateView;

verus! {

/// The effect is a message to all that counts as a vote of `who`.
pub open spec fn casts(e: EffectView, ballot: BallotView, who: Seq<char>) -> bool {
    e matches EffectView::Broadcast(m) && ballot.voter(m) == Some(who)
}

/// A request is executed at the index it is given: the reply carries the digest of the
/// entry that is now there, and that entry carries the digest of the one before it.
pub proof fn law_reply_matches_the_entry(s: StateView, log_idx: u64)
    ensures
        ({
            let o = speculate_step(s, log_idx);
            &&& o.state.log.contains_key(log_idx)
            &&& o.effects =~= seq![
                EffectView::Broadcast(
                    MessageView::SpecReply {
                        from: s.node_id,
                        round: s.round,
                        log_idx,
                        log_hash: sha256(entry_bytes(o.state.log[log_idx])),
                    },
                ),
            ]
            &&& log_idx > 0 && s.log.contains_key((log_idx - 1) as u64) && storable(
                s.log[(log_idx - 1) as u64].result.len(),
            ) ==> o.state.log[log_idx].prev_hash == sha256(
                entry_bytes(o.state.log[(log_idx - 1) as u64]),
            )
        }),
{
}

/// A SYNC for an index is a vote of its sender for that index and for the hash of its
/// log, in its round.
pub proof fn law_sync_vouches_for_the_log(s: StateView, log_idx: u64)
    ensures
        ({
            let o = send_sync_step(s, log_idx);
            &&& o.state == s
            &&& o.effects.len() == 1
            &&& casts(o.effects[0], BallotView::Syncs { round: s.round, log_idx }, s.node_id)
            &&& casts(
                o.effects[0],
                BallotView::MatchingSyncs {
                    round: s.round,
                    log_idx,
                    log_hash: top_hash(s.log),
                },
                s.node_id,
            )
            &&& o.effects[0] matches EffectView::Broadcast(m) && m->Sync_eta_star == s.eta_star
        }),
{
}

/// A checkpoint is recorded as it is announced: the announcement does not conflict with
/// what the sender now holds, and it conflicts with any other hash at its index.
pub proof fn law_checkpoint_agrees_with_its_sender(s: StateView, log_idx: u64, other: Seq<u8>)
    ensures
        ({
            let o = form_checkpoint_step(s, log_idx);
            &&& o.state.chkpt_idx == log_idx && o.state.chkpt_hash == top_hash(s.log)
            &&& o.effects.len() == 1
            &&& !casts(
                o.effects[0],
                BallotView::ConflictingCheckpoints {
                    round: s.round,
                    log_idx,
                    held: Some(o.state.chkpt_hash),
                },
                s.node_id,
            )
            &&& other != o.state.chkpt_hash ==> casts(
                o.effects[0],
                BallotView::ConflictingCheckpoints { round: s.round, log_idx, held: Some(other) },
                s.node_id,
            )
        }),
{
}

/// A replica that begins to align asks for the state of the index it is given.
pub proof fn law_alignment_asks(s: StateView, chkpt_idx: u64)
    ensures
        enter_align_step(s, chkpt_idx).state.phase == Phase::Aligning,
        enter_align_step(s, chkpt_idx).effects =~= seq![
            EffectView::Broadcast(MessageView::StateRequest { from: s.node_id, chkpt_idx }),
        ],
{
}

/// The answer to a state request goes to the one who asked, and takes an aligning
/// replica to the checkpoint of the one who answers.
pub proof fn law_answer_brings_the_checkpoint(s: StateView, requester: Seq<char>, t: StateView)
    requires
        t.phase == Phase::Aligning,
    ensures
        ({
            let o = state_request_step(s, requester);
            &&& o.state == s
            &&& o.effects.len() == 1
            &&& o.effects[0] matches EffectView::Send { to, message } && to == requester
                && message is StateReply && message->StateReply_from == s.node_id
                && message->StateReply_chkpt_hash == s.chkpt_hash && state_reply_received(
                t,
                message,
            ).state.chkpt_idx == s.chkpt_idx
        }),
{
}

/// A TIMEOUT for an index is a vote of its sender for that index, in its round.
pub proof fn law_timeout_is_a_vote(s: StateView, log_idx: u64)
    ensures
        chkpt_timeout_step(s, log_idx).state == s,
        chkpt_timeout_step(s, log_idx).effects.len() == 1,
        casts(
            chkpt_timeout_step(s, log_idx).effects[0],
            BallotView::Timeouts { round: s.round, log_idx },
            s.node_id,
        ),
{
}

/// Whichever way a replica enters REPAIR, its log summary is a vote of its own in its
/// view and round, and a proof that it forms names its round and the index it is given.
pub proof fn law_entry_sends_the_log(s: StateView, log_idx: u64)
    ensures
        ({
            let logs = BallotView::Logs { view: s.view, round: s.round };
            let a = conflict_proof_step(s, log_idx);
            let b = timeout_proof_step(s, log_idx);
            let d = enter_repair_step(s);
            &&& a.effects.len() == 2 && casts(a.effects[1], logs, s.node_id)
            &&& b.effects.len() == 2 && casts(b.effects[1], logs, s.node_id)
            &&& d.effects.len() == 1 && casts(d.effects[0], logs, s.node_id)
            &&& a.effects[0] == EffectView::Broadcast(
                MessageView::ConflictProof { round: s.round, log_idx },
            )
            &&& b.effects[0] == EffectView::Broadcast(
                MessageView::TimeoutProof { round: s.round, log_idx },
            )
            &&& a.effects[1] == d.effects[0] && b.effects[1] == d.effects[0]
            &&& a.state == d.state && b.state == d.state && d.state.in_repair && d.state.phase
                == Phase::CollectingLogs
        }),
{
}

/// After a view change the log summary counts in the view that the replica is now in.
pub proof fn law_view_change_sends_the_log(s: StateView, new_view: u64)
    ensures
        ({
            let o = view_change_step(s, new_view);
            &&& o.state.view == new_view && o.state.round == s.round && o.state.phase == s.phase
            &&& o.effects.len() == 1
            &&& casts(
                o.effects[0],
                BallotView::Logs { view: new_view, round: s.round },
                s.node_id,
            )
        }),
{
}

/// A proposal that is broadcast is what a replica that knows its sender as the leader
/// takes from it, and what the sender now votes on.
pub proof fn law_proposal_is_taken_up(s: StateView, history_hash: u64)
    ensures
        ({
            let o = broadcast_history_step(s, history_hash);
            &&& o.state.proposed_history_hash == history_hash && o.state.phase
                == Phase::PreparePhase
            &&& o.effects.len() == 1
            &&& o.effects[0] matches EffectView::Broadcast(m) && first_proposal(
                seq![m],
                s.view,
                s.round,
                Some(s.node_id),
            ) == Some(history_hash)
        }),
{
}

/// The two votes on a history are votes of their sender for that history, in its view
/// and round.
pub proof fn law_votes_count_for_their_history(s: StateView, history_hash: u64)
    ensures
        ({
            let o = prepare_step(s, history_hash);
            &&& o.state.proposed_history_hash == history_hash && o.state.phase
                == Phase::PreparePhase
            &&& o.effects.len() == 1
            &&& casts(
                o.effects[0],
                BallotView::Prepares { view: s.view, round: s.round, history_hash },
                s.node_id,
            )
        }),
        ({
            let o = commit_step(s, history_hash);
            &&& o.state.phase == Phase::CommitPhase
            &&& o.effects.len() == 1
            &&& casts(
                o.effects[0],
                BallotView::Commits { view: s.view, round: s.round, history_hash },
                s.node_id,
            )
        }),
{
}

/// A replica that applies a history helps others in its view and round to catch up, and
/// tells them the history; its log then has the length that the history names.
pub proof fn law_done_counts_for_catching_up(s: StateView, history_hash: u64, k: u64)
    requires
        s.round < u64::MAX,
    ensures
        ({
            let o = apply_step(s, history_hash);
            &&& o.effects.len() == 2
            &&& casts(
                o.effects[0],
                BallotView::Dones { view: s.view, round: s.round },
                s.node_id,
            )
            &&& o.effects[0] matches EffectView::Broadcast(m) && m->RepairDone_history_hash
                == history_hash
            &&& o.effects[1] == EffectView::Broadcast(
                MessageView::CommittedReply {
                    from: s.node_id,
                    round: s.round,
                    log_idx: s.kv_size,
                },
            )
            &&& o.state.log.contains_key(k) <==> k < o.state.kv_size
            &&& o.state.kv_size == history_hash && o.state.start_idx == history_hash
            &&& o.state.round == s.round + 1
        }),
{
}

/// A replica enters or leaves REPAIR in its own round: that is the round it is given.
pub proof fn law_repair_is_in_the_own_round(c: ConfigView, s: StateView, m: MessageView)
    ensures
        catchup_guard(c, s) is Some ==> catchup_guard(c, s) == Some(s.round),
        enter_repair_guard(s, m) is Some ==> enter_repair_guard(s, m) == Some(s.round),
{
}

} // verus!
