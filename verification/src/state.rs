//! The state of one replica.

use vstd::prelude::*;

use crate::effect::EffectView;
use crate::entry::EntryView;
use crate::message::{MessageView, NodeId};
use crate::phase::Phase;
use crate::quorum::MessageSet;
use crate::storage::KvStoreOps;

verus! {

/// The mutable state of a replica: the protocol phase, the log and its
/// checkpoint, and the received messages of each category.
pub struct ReplicaState {
    /// Identity of this replica.
    pub node_id: NodeId,
    /// Current protocol phase.
    pub phase: Phase,
    /// Current round.
    pub round: u64,
    /// View of the REPAIR sub-protocol; it decides who leads.
    pub view: u64,
    /// First uncommitted log index of this round.
    pub start_idx: u64,
    /// Number of log entries held.
    pub kv_size: u64,
    /// The log.
    pub kv_store: Box<dyn KvStoreOps>,
    /// Index of the latest checkpoint.
    pub chkpt_idx: u64,
    /// Hash of the latest checkpoint.
    pub chkpt_hash: crate::message::Hash,
    /// Largest sequence number seen this round.
    pub eta_star: u64,
    /// Whether the REPAIR sub-protocol is active.
    pub in_repair: bool,
    /// The history being voted on during REPAIR.
    pub proposed_history_hash: u64,
    /// Received SYNC messages.
    pub sync_msgs: MessageSet,
    /// Received SPEC-REPLY messages.
    pub ack_msgs: MessageSet,
    /// Received CHECKPOINT messages.
    pub chkpt_msgs: MessageSet,
    /// Received TIMEOUT messages.
    pub timeout_msgs: MessageSet,
    /// Received LOG messages.
    pub log_msgs: MessageSet,
    /// Received REPAIR-HISTORY proposals.
    pub repair_history_msgs: MessageSet,
    /// Received REPAIR-PREPARE votes.
    pub repair_prepare_msgs: MessageSet,
    /// Received REPAIR-COMMIT votes.
    pub repair_commit_msgs: MessageSet,
    /// Received REPAIR-DONE notifications.
    pub repair_done_msgs: MessageSet,
}

/// The value of a [`ReplicaState`]: the log as a map, each set of messages as
/// a sequence in order of arrival.
#[verifier::ext_equal]
pub struct StateView {
    pub node_id: Seq<char>,
    pub phase: Phase,
    pub round: u64,
    pub view: u64,
    pub start_idx: u64,
    pub kv_size: u64,
    pub log: Map<u64, EntryView>,
    pub chkpt_idx: u64,
    pub chkpt_hash: Seq<u8>,
    pub eta_star: u64,
    pub in_repair: bool,
    pub proposed_history_hash: u64,
    pub sync_msgs: Seq<MessageView>,
    pub ack_msgs: Seq<MessageView>,
    pub chkpt_msgs: Seq<MessageView>,
    pub timeout_msgs: Seq<MessageView>,
    pub log_msgs: Seq<MessageView>,
    pub repair_history_msgs: Seq<MessageView>,
    pub repair_prepare_msgs: Seq<MessageView>,
    pub repair_commit_msgs: Seq<MessageView>,
    pub repair_done_msgs: Seq<MessageView>,
}

/// What a transition leads to: the state after it, and the effects to carry
/// out.
#[verifier::ext_equal]
pub struct Outcome {
    pub state: StateView,
    pub effects: Seq<EffectView>,
}

impl Outcome {
    /// Nothing to carry out.
    pub open spec fn quiet(state: StateView) -> Outcome {
        Outcome { state, effects: Seq::empty() }
    }
}

impl View for ReplicaState {
    type V = StateView;

    open spec fn view(&self) -> StateView {
        StateView {
            node_id: self.node_id@,
            phase: self.phase,
            round: self.round,
            view: self.view,
            start_idx: self.start_idx,
            kv_size: self.kv_size,
            log: self.kv_store.entries(),
            chkpt_idx: self.chkpt_idx,
            chkpt_hash: self.chkpt_hash@,
            eta_star: self.eta_star,
            in_repair: self.in_repair,
            proposed_history_hash: self.proposed_history_hash,
            sync_msgs: self.sync_msgs@,
            ack_msgs: self.ack_msgs@,
            chkpt_msgs: self.chkpt_msgs@,
            timeout_msgs: self.timeout_msgs@,
            log_msgs: self.log_msgs@,
            repair_history_msgs: self.repair_history_msgs@,
            repair_prepare_msgs: self.repair_prepare_msgs@,
            repair_commit_msgs: self.repair_commit_msgs@,
            repair_done_msgs: self.repair_done_msgs@,
        }
    }
}

} // verus!
