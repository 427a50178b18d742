//! Timer events delivered to a replica.

use vstd::prelude::*;

verus! {

/// The three timers that drive the sub-protocols.
#[non_exhaustive]
#[derive(Debug, Clone, Copy, PartialEq, Eq, Hash, Structural)]
pub enum Event {
    /// The periodic sync timer: broadcast a SYNC for the current log tip.
    SyncTimeout,
    /// The checkpoint deadline of `log_idx` expired: send a TIMEOUT vote.
    ChkptTimeout { log_idx: u64 },
    /// The repair leader has not proposed in time: change the view.
    RepairViewTimeout,
}

} // verus!
