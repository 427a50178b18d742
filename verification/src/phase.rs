//! The protocol phase of a replica.

use vstd::prelude::*;

verus! {

/// A replica's phase decides which transitions are enabled.
///
/// A replica starts in `Speculative`. It moves to `Aligning` when its log has
/// diverged, and into the three REPAIR phases when a checkpoint fails.
#[non_exhaustive]
#[derive(Debug, Clone, Copy, PartialEq, Eq, Hash, Structural)]
pub enum Phase {
    /// Normal operation: requests are executed speculatively.
    Speculative,
    /// Waiting for the state of a checkpoint holder.
    Aligning,
    /// REPAIR: LOG messages are collected before a history is proposed.
    CollectingLogs,
    /// REPAIR: votes for a proposed history are collected.
    PreparePhase,
    /// REPAIR: commit votes are collected.
    CommitPhase,
}

impl Phase {
    /// The three phases of the REPAIR sub-protocol.
    pub open spec fn repairing(self) -> bool {
        self == Phase::CollectingLogs || self == Phase::PreparePhase || self == Phase::CommitPhase
    }

    /// Whether the phase belongs to the REPAIR sub-protocol.
    pub fn is_repairing(self) -> (r: bool)
        ensures
            r == self.repairing(),
    {
        matches!(self, Phase::CollectingLogs | Phase::PreparePhase | Phase::CommitPhase)
    }
}

} // verus!
