//! The protocol messages.
//!
//! There is one message for each step of the fast path, the checkpoint,
//! alignment, repair entry and repair agreement sub-protocols, and one,
//! `Speculate`, by which the sequencer starts speculative execution.

use vstd::prelude::*;

verus! {

/// A SHA-256 digest.
pub type Hash = [u8; 32];

/// The name of a replica.
pub type NodeId = String;

/// A sequence number (eta) given out by the sequencer.
pub type Eta = u64;

/// The digest of nothing: the predecessor of the first log entry.
pub open spec fn zero_hash() -> Seq<u8> {
    Seq::new(32, |i: int| 0u8)
}

/// The all-zero digest.
pub fn no_hash() -> (r: crate::message::Hash)
    ensures
        r@ == zero_hash(),
{
    let r = [0u8; 32];
    assert(r@ =~= zero_hash());
    r
}

/// All protocol messages.
#[non_exhaustive]
#[derive(Debug, PartialEq, Eq, Hash)]
pub enum Message {
    /// Sequencer to replicas: execute an operation speculatively.
    Speculate { from_seq: NodeId, round: u64, op_hash: Hash, eta: Eta },
    /// Replica to client: the entry at `log_idx` was executed speculatively.
    SpecReply { from: NodeId, round: u64, log_idx: u64, log_hash: Hash },
    /// A replica's current log tip, from which peers form a checkpoint.
    Sync { from: NodeId, round: u64, log_idx: u64, log_hash: Hash, eta_star: u64 },
    /// A fast quorum of matching SYNC messages was collected.
    Checkpoint { from: NodeId, round: u64, log_idx: u64, log_hash: Hash },
    /// A diverged replica asks for the state of a checkpoint.
    StateRequest { from: NodeId, chkpt_idx: u64 },
    /// The answer to a STATE-REQUEST.
    StateReply { from: NodeId, chkpt_idx: u64, chkpt_hash: Hash },
    /// A vote that the checkpoint at `log_idx` is late.
    TimeoutMsg { from: NodeId, round: u64, log_idx: u64 },
    /// Proof that f+1 replicas timed out at `log_idx`.
    TimeoutProof { round: u64, log_idx: u64 },
    /// Proof that logs conflict at `log_idx`.
    ConflictProof { round: u64, log_idx: u64 },
    /// A log summary for the repair leader.
    LogMsg { from: NodeId, view: u64, round: u64, log_hash: Hash },
    /// The repair leader's proposal.
    RepairHistory { from: NodeId, view: u64, round: u64, history_hash: u64 },
    /// A prepare vote for the proposed history.
    RepairPrepare { from: NodeId, view: u64, round: u64, history_hash: u64 },
    /// A commit vote, sent after a prepare quorum.
    RepairCommit { from: NodeId, view: u64, round: u64, history_hash: u64 },
    /// The sender has applied the agreed history.
    RepairDone { from: NodeId, view: u64, round: u64, history_hash: u64 },
    /// Replica to client: a committed (not speculative) execution.
    CommittedReply { from: NodeId, round: u64, log_idx: u64 },
}

/// The value of a [`Message`]: names as character sequences, digests as byte
/// sequences.
pub enum MessageView {
    Speculate { from_seq: Seq<char>, round: u64, op_hash: Seq<u8>, eta: u64 },
    SpecReply { from: Seq<char>, round: u64, log_idx: u64, log_hash: Seq<u8> },
    Sync { from: Seq<char>, round: u64, log_idx: u64, log_hash: Seq<u8>, eta_star: u64 },
    Checkpoint { from: Seq<char>, round: u64, log_idx: u64, log_hash: Seq<u8> },
    StateRequest { from: Seq<char>, chkpt_idx: u64 },
    StateReply { from: Seq<char>, chkpt_idx: u64, chkpt_hash: Seq<u8> },
    TimeoutMsg { from: Seq<char>, round: u64, log_idx: u64 },
    TimeoutProof { round: u64, log_idx: u64 },
    ConflictProof { round: u64, log_idx: u64 },
    LogMsg { from: Seq<char>, view: u64, round: u64, log_hash: Seq<u8> },
    RepairHistory { from: Seq<char>, view: u64, round: u64, history_hash: u64 },
    RepairPrepare { from: Seq<char>, view: u64, round: u64, history_hash: u64 },
    RepairCommit { from: Seq<char>, view: u64, round: u64, history_hash: u64 },
    RepairDone { from: Seq<char>, view: u64, round: u64, history_hash: u64 },
    CommittedReply { from: Seq<char>, round: u64, log_idx: u64 },
}

impl View for Message {
    type V = MessageView;

    open spec fn view(&self) -> MessageView {
        match *self {
            Message::Speculate { from_seq, round, op_hash, eta } => MessageView::Speculate {
                from_seq: from_seq@,
                round,
                op_hash: op_hash@,
                eta,
            },
            Message::SpecReply { from, round, log_idx, log_hash } => MessageView::SpecReply {
                from: from@,
                round,
                log_idx,
                log_hash: log_hash@,
            },
            Message::Sync { from, round, log_idx, log_hash, eta_star } => MessageView::Sync {
                from: from@,
                round,
                log_idx,
                log_hash: log_hash@,
                eta_star,
            },
            Message::Checkpoint { from, round, log_idx, log_hash } => MessageView::Checkpoint {
                from: from@,
                round,
                log_idx,
                log_hash: log_hash@,
            },
            Message::StateRequest { from, chkpt_idx } => MessageView::StateRequest {
                from: from@,
                chkpt_idx,
            },
            Message::StateReply { from, chkpt_idx, chkpt_hash } => MessageView::StateReply {
                from: from@,
                chkpt_idx,
                chkpt_hash: chkpt_hash@,
            },
            Message::TimeoutMsg { from, round, log_idx } => MessageView::TimeoutMsg {
                from: from@,
                round,
                log_idx,
            },
            Message::TimeoutProof { round, log_idx } => MessageView::TimeoutProof {
                round,
                log_idx,
            },
            Message::ConflictProof { round, log_idx } => MessageView::ConflictProof {
                round,
                log_idx,
            },
            Message::LogMsg { from, view, round, log_hash } => MessageView::LogMsg {
                from: from@,
                view,
                round,
                log_hash: log_hash@,
            },
            Message::RepairHistory { from, view, round, history_hash } =>
                MessageView::RepairHistory { from: from@, view, round, history_hash },
            Message::RepairPrepare { from, view, round, history_hash } =>
                MessageView::RepairPrepare { from: from@, view, round, history_hash },
            Message::RepairCommit { from, view, round, history_hash } =>
                MessageView::RepairCommit { from: from@, view, round, history_hash },
            Message::RepairDone { from, view, round, history_hash } =>
                MessageView::RepairDone { from: from@, view, round, history_hash },
            Message::CommittedReply { from, round, log_idx } => MessageView::CommittedReply {
                from: from@,
                round,
                log_idx,
            },
        }
    }
}

/// Whether two digests are equal.
pub fn same_hash(a: &Hash, b: &Hash) -> (r: bool)
    ensures
        r == (a@ == b@),
{
    let mut i: usize = 0;
    while i < 32
        invariant
            i <= 32,
            a@.take(i as int) == b@.take(i as int),
        decreases 32 - i,
    {
        if a[i] != b[i] {
            assert(a@[i as int] != b@[i as int]);
            return false;
        }
        assert(a@.take(i + 1) == a@.take(i as int).push(a@[i as int]));
        assert(b@.take(i + 1) == b@.take(i as int).push(b@[i as int]));
        i = i + 1;
    }
    assert(a@.take(32) == a@);
    assert(b@.take(32) == b@);
    true
}

impl Clone for Message {
    /// A copy with the same value.
    fn clone(&self) -> (r: Self)
        ensures
            r@ == self@,
    {
        match self {
            Message::Speculate { from_seq, round, op_hash, eta } => Message::Speculate {
                from_seq: from_seq.clone(),
                round: *round,
                op_hash: *op_hash,
                eta: *eta,
            },
            Message::SpecReply { from, round, log_idx, log_hash } => Message::SpecReply {
                from: from.clone(),
                round: *round,
                log_idx: *log_idx,
                log_hash: *log_hash,
            },
            Message::Sync { from, round, log_idx, log_hash, eta_star } => Message::Sync {
                from: from.clone(),
                round: *round,
                log_idx: *log_idx,
                log_hash: *log_hash,
                eta_star: *eta_star,
            },
            Message::Checkpoint { from, round, log_idx, log_hash } => Message::Checkpoint {
                from: from.clone(),
                round: *round,
                log_idx: *log_idx,
                log_hash: *log_hash,
            },
            Message::StateRequest { from, chkpt_idx } => Message::StateRequest {
                from: from.clone(),
                chkpt_idx: *chkpt_idx,
            },
            Message::StateReply { from, chkpt_idx, chkpt_hash } => Message::StateReply {
                from: from.clone(),
                chkpt_idx: *chkpt_idx,
                chkpt_hash: *chkpt_hash,
            },
            Message::TimeoutMsg { from, round, log_idx } => Message::TimeoutMsg {
                from: from.clone(),
                round: *round,
                log_idx: *log_idx,
            },
            Message::TimeoutProof { round, log_idx } => Message::TimeoutProof {
                round: *round,
                log_idx: *log_idx,
            },
            Message::ConflictProof { round, log_idx } => Message::ConflictProof {
                round: *round,
                log_idx: *log_idx,
            },
            Message::LogMsg { from, view, round, log_hash } => Message::LogMsg {
                from: from.clone(),
                view: *view,
                round: *round,
                log_hash: *log_hash,
            },
            Message::RepairHistory { from, view, round, history_hash } => Message::RepairHistory {
                from: from.clone(),
                view: *view,
                round: *round,
                history_hash: *history_hash,
            },
            Message::RepairPrepare { from, view, round, history_hash } => Message::RepairPrepare {
                from: from.clone(),
                view: *view,
                round: *round,
                history_hash: *history_hash,
            },
            Message::RepairCommit { from, view, round, history_hash } => Message::RepairCommit {
                from: from.clone(),
                view: *view,
                round: *round,
                history_hash: *history_hash,
            },
            Message::RepairDone { from, view, round, history_hash } => Message::RepairDone {
                from: from.clone(),
                view: *view,
                round: *round,
                history_hash: *history_hash,
            },
            Message::CommittedReply { from, round, log_idx } => Message::CommittedReply {
                from: from.clone(),
                round: *round,
                log_idx: *log_idx,
            },
        }
    }
}

impl Message {
    /// Whether two messages have the same value.
    pub fn same(&self, other: &Message) -> (r: bool)
        ensures
            r == (self@ == other@),
    {
        match (self, other) {
            (
                Message::Speculate { from_seq: a, round: b, op_hash: c, eta: d },
                Message::Speculate { from_seq: e, round: f, op_hash: g, eta: h },
            ) => *a == *e && *b == *f && same_hash(c, g) && *d == *h,
            (
                Message::SpecReply { from: a, round: b, log_idx: c, log_hash: d },
                Message::SpecReply { from: e, round: f, log_idx: g, log_hash: h },
            ) => *a == *e && *b == *f && *c == *g && same_hash(d, h),
            (
                Message::Sync { from: a, round: b, log_idx: c, log_hash: d, eta_star: i },
                Message::Sync { from: e, round: f, log_idx: g, log_hash: h, eta_star: j },
            ) => *a == *e && *b == *f && *c == *g && same_hash(d, h) && *i == *j,
            (
                Message::Checkpoint { from: a, round: b, log_idx: c, log_hash: d },
                Message::Checkpoint { from: e, round: f, log_idx: g, log_hash: h },
            ) => *a == *e && *b == *f && *c == *g && same_hash(d, h),
            (
                Message::StateRequest { from: a, chkpt_idx: b },
                Message::StateRequest { from: e, chkpt_idx: f },
            ) => *a == *e && *b == *f,
            (
                Message::StateReply { from: a, chkpt_idx: b, chkpt_hash: c },
                Message::StateReply { from: e, chkpt_idx: f, chkpt_hash: g },
            ) => *a == *e && *b == *f && same_hash(c, g),
            (
                Message::TimeoutMsg { from: a, round: b, log_idx: c },
                Message::TimeoutMsg { from: e, round: f, log_idx: g },
            ) => *a == *e && *b == *f && *c == *g,
            (
                Message::TimeoutProof { round: b, log_idx: c },
                Message::TimeoutProof { round: f, log_idx: g },
            ) => *b == *f && *c == *g,
            (
                Message::ConflictProof { round: b, log_idx: c },
                Message::ConflictProof { round: f, log_idx: g },
            ) => *b == *f && *c == *g,
            (
                Message::LogMsg { from: a, view: b, round: c, log_hash: d },
                Message::LogMsg { from: e, view: f, round: g, log_hash: h },
            ) => *a == *e && *b == *f && *c == *g && same_hash(d, h),
            (
                Message::RepairHistory { from: a, view: b, round: c, history_hash: d },
                Message::RepairHistory { from: e, view: f, round: g, history_hash: h },
            ) => *a == *e && *b == *f && *c == *g && *d == *h,
            (
                Message::RepairPrepare { from: a, view: b, round: c, history_hash: d },
                Message::RepairPrepare { from: e, view: f, round: g, history_hash: h },
            ) => *a == *e && *b == *f && *c == *g && *d == *h,
            (
                Message::RepairCommit { from: a, view: b, round: c, history_hash: d },
                Message::RepairCommit { from: e, view: f, round: g, history_hash: h },
            ) => *a == *e && *b == *f && *c == *g && *d == *h,
            (
                Message::RepairDone { from: a, view: b, round: c, history_hash: d },
                Message::RepairDone { from: e, view: f, round: g, history_hash: h },
            ) => *a == *e && *b == *f && *c == *g && *d == *h,
            (
                Message::CommittedReply { from: a, round: b, log_idx: c },
                Message::CommittedReply { from: e, round: f, log_idx: g },
            ) => *a == *e && *b == *f && *c == *g,
            _ => false,
        }
    }
}

} // verus!
