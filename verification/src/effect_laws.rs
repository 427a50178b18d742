//! The order in which a replica speaks.

use vstd::prelude::*;

use crate::alignment::{checkpoint_received, state_reply_received, state_request_received};
use crate::checkpoint::{sync_received, sync_threshold_passed};
use crate::config::ConfigView;
use crate::effect::EffectView;
use crate::fast_path::speculate_received;
use crate::message::MessageView;
use crate::repair::{
    commit_received, done_received, history_received, log_received, prepare_received,
};
use crate::repair_entry::{conflict_checked, proof_received, timeout_received};
use crate::replica::{
    entry_outcome, exit_outcome, fast_path_outcome, message_outcome, noted, vote_outcome,
};
use crate::state::StateView;

verus! {

/// The place of an effect in what a replica does on one message.
pub open spec fn place(e: EffectView) -> int {
    match e {
        EffectView::Broadcast(m) => match m {
            MessageView::SpecReply { .. } => 0,
            MessageView::Sync { .. } => 1,
            MessageView::Checkpoint { .. } => 2,
            MessageView::StateRequest { .. } => 3,
            MessageView::TimeoutProof { .. } => 4,
            MessageView::ConflictProof { .. } => 4,
            MessageView::LogMsg { .. } => 5,
            MessageView::RepairHistory { .. } => 7,
            MessageView::RepairPrepare { .. } => 8,
            MessageView::RepairCommit { .. } => 9,
            MessageView::RepairDone { .. } => 10,
            MessageView::CommittedReply { .. } => 11,
            _ => 13,
        },
        EffectView::Send { message, .. } => if message is StateReply {
            6
        } else {
            13
        },
    }
}

/// Each effect has a place from `low` on and below `high`, after that of the effect
/// before it.
pub open spec fn in_order(effects: Seq<EffectView>, low: int, high: int) -> bool {
    &&& forall|i: int| 0 <= i < effects.len() ==> low <= #[trigger] place(effects[i]) < high
    &&& forall|i: int, j: int|
        0 <= i < j < effects.len() ==> #[trigger] place(effects[i]) < #[trigger] place(effects[j])
}

proof fn lemma_in_order(a: Seq<EffectView>, b: Seq<EffectView>, low: int, middle: int, high: int)
    requires
        in_order(a, low, middle),
        in_order(b, middle, high),
        low <= middle <= high,
    ensures
        in_order(a + b, low, high),
{
    let all = a + b;
    assert forall|i: int| 0 <= i < all.len() implies low <= #[trigger] place(all[i]) < high by {
        if i < a.len() {
            assert(low <= place(a[i]) < middle);
        } else {
            assert(middle <= place(b[i - a.len()]) < high);
        }
    }
    assert forall|i: int, j: int| 0 <= i < j < all.len() implies #[trigger] place(all[i])
        < #[trigger] place(all[j]) by {
        if j < a.len() {
            assert(place(a[i]) < place(a[j]));
        } else if i < a.len() {
            assert(place(a[i]) < middle);
            assert(middle <= place(b[j - a.len()]));
        } else {
            assert(place(b[i - a.len()]) < place(b[j - a.len()]));
        }
    }
}

proof fn lemma_fast_order(c: ConfigView, s: StateView, m: MessageView)
    ensures
        in_order(speculate_received(s, m).effects, 0, 1),
        in_order(sync_threshold_passed(s).effects, 1, 2),
        in_order(sync_received(c, s, m).effects, 2, 3),
        in_order(checkpoint_received(c, s, m).effects, 3, 4),
{
}

proof fn lemma_entry_order(c: ConfigView, s: StateView, m: MessageView)
    ensures
        in_order(conflict_checked(c, s).effects, 4, 6),
        in_order(timeout_received(c, s, m).effects, 4, 6),
        in_order(proof_received(s, m).effects, 4, 6),
        in_order(state_request_received(s, m).effects, 6, 7),
        conflict_checked(c, s).effects.len() > 0 ==> conflict_checked(c, s).state.in_repair,
        timeout_received(c, s, m).effects.len() > 0 ==> timeout_received(c, s, m).state.in_repair,
        s.in_repair ==> timeout_received(c, s, m).effects.len() == 0 && timeout_received(
            c,
            s,
            m,
        ).state.in_repair,
        s.in_repair ==> proof_received(s, m).effects.len() == 0,
{
}

proof fn lemma_vote_order(c: ConfigView, s: StateView, m: MessageView)
    ensures
        state_reply_received(s, m).effects.len() == 0,
        in_order(log_received(c, s, m).effects, 7, 8),
        in_order(history_received(c, s, m).effects, 8, 9),
        in_order(prepare_received(c, s, m).effects, 9, 10),
        in_order(commit_received(c, s, m).effects, 10, 12),
        done_received(c, s, m).effects.len() == 0,
{
}

proof fn lemma_fast_path_order(c: ConfigView, s: StateView, m: MessageView)
    ensures
        in_order(fast_path_outcome(c, s, m).effects, 0, 4),
{
    let o1 = speculate_received(noted(s, m), m);
    let o2 = sync_threshold_passed(o1.state);
    let o3 = sync_received(c, o2.state, m);
    let o4 = checkpoint_received(c, o3.state, m);
    lemma_fast_order(c, noted(s, m), m);
    lemma_fast_order(c, o1.state, m);
    lemma_fast_order(c, o2.state, m);
    lemma_fast_order(c, o3.state, m);
    lemma_in_order(o1.effects, o2.effects, 0, 1, 2);
    lemma_in_order(o1.effects + o2.effects, o3.effects, 0, 2, 3);
    lemma_in_order(o1.effects + o2.effects + o3.effects, o4.effects, 0, 3, 4);
}

proof fn lemma_entry_path_order(c: ConfigView, s: StateView, m: MessageView)
    ensures
        in_order(entry_outcome(c, s, m).effects, 4, 7),
{
    let o1 = conflict_checked(c, s);
    let o2 = timeout_received(c, o1.state, m);
    let o3 = proof_received(o2.state, m);
    let o4 = state_request_received(o3.state, m);
    lemma_entry_order(c, s, m);
    lemma_entry_order(c, o1.state, m);
    lemma_entry_order(c, o2.state, m);
    lemma_entry_order(c, o3.state, m);
    let entered = o1.effects + o2.effects + o3.effects;
    if o1.effects.len() > 0 {
        assert(entered =~= o1.effects);
    } else if o2.effects.len() > 0 {
        assert(entered =~= o2.effects);
    } else {
        assert(entered =~= o3.effects);
    }
    lemma_in_order(entered, o4.effects, 4, 6, 7);
}

proof fn lemma_vote_path_order(c: ConfigView, s: StateView, m: MessageView)
    ensures
        in_order(vote_outcome(c, s, m).effects, 7, 10),
{
    let o1 = state_reply_received(s, m);
    let o2 = log_received(c, o1.state, m);
    let o3 = history_received(c, o2.state, m);
    let o4 = prepare_received(c, o3.state, m);
    lemma_vote_order(c, s, m);
    lemma_vote_order(c, o1.state, m);
    lemma_vote_order(c, o2.state, m);
    lemma_vote_order(c, o3.state, m);
    assert(o1.effects + o2.effects =~= o2.effects);
    lemma_in_order(o2.effects, o3.effects, 7, 8, 9);
    lemma_in_order(o2.effects + o3.effects, o4.effects, 7, 9, 10);
}

proof fn lemma_exit_order(c: ConfigView, s: StateView, m: MessageView)
    ensures
        in_order(exit_outcome(c, s, m).effects, 10, 12),
{
    let o1 = commit_received(c, s, m);
    lemma_vote_order(c, s, m);
    lemma_vote_order(c, o1.state, m);
    assert(exit_outcome(c, s, m).effects =~= o1.effects);
}

/// On one message a replica says each thing once at most, and in the order of the
/// protocol: the reply to the client, the SYNC, the checkpoint, the request for the
/// state, the proof and the log summary that come with REPAIR, the answer to a state
/// request, the proposal, the two votes, and that it is done.
pub proof fn law_effects_come_in_order(c: ConfigView, s: StateView, m: MessageView)
    ensures
        in_order(message_outcome(c, s, m).effects, 0, 12),
{
    let a = fast_path_outcome(c, s, m);
    let b = entry_outcome(c, a.state, m);
    let d = vote_outcome(c, b.state, m);
    let e = exit_outcome(c, d.state, m);
    lemma_fast_path_order(c, s, m);
    lemma_entry_path_order(c, a.state, m);
    lemma_vote_path_order(c, b.state, m);
    lemma_exit_order(c, d.state, m);
    lemma_in_order(a.effects, b.effects, 0, 4, 7);
    lemma_in_order(a.effects + b.effects, d.effects, 0, 7, 10);
    lemma_in_order(a.effects + b.effects + d.effects, e.effects, 0, 10, 12);
    assert(message_outcome(c, s, m).effects == a.effects + b.effects + d.effects + e.effects);
}

} // verus!
