//! A Byzantine fault-tolerant replicated state machine with a speculative fast
//! path.
//!
//! A sequencer gives every request a sequence number and broadcasts it. Each
//! replica executes it at once, appends it to its log and replies; the client
//! commits once `n - p` replies agree. The rest keeps the logs together:
//!
//! 1. Fast path ([`fast_path`]): requests are executed in the order of their
//!    arrival, and every log entry holds the digest of the one before it.
//! 2. Checkpoints ([`checkpoint`]): replicas compare their logs by SYNC messages;
//!    `n - p` that agree make a checkpoint.
//! 3. Alignment ([`alignment`]): a replica that sees conflicting checkpoints of
//!    `f + 1` others asks for their state and rebuilds its log.
//! 4. REPAIR ([`repair_entry`], [`repair`]): when a checkpoint fails, the replicas
//!    agree in two phases on a merged history and start the next round from it.
//!
//! [`replica`] puts the parts together. A replica is a state machine: it takes one
//! message or timer event and returns the effects for the network to carry out.
//! Its behaviour is stated as functions on a mathematical state,
//! [`state::StateView`]; each handler is proved to compute exactly its function.
//! [`replica_laws`], [`protocol_laws`], [`handler_laws`], [`effect_laws`] and
//! [`quorum_laws`] prove what follows for all messages.

pub mod alignment;
pub mod checkpoint;
pub mod codec;
pub mod config;
pub mod disk;
pub mod effect;
pub mod effect_laws;
pub mod entry;
pub mod eta;
pub mod event;
pub mod fast_path;
pub mod handler_laws;
pub mod log;
pub mod message;
pub mod node;
pub mod phase;
pub mod protocol_laws;
pub mod quorum;
pub mod quorum_laws;
pub mod repair;
pub mod repair_entry;
pub mod replica;
pub mod replica_laws;
pub mod sequencer;
pub mod state;
pub mod state_machine;
pub mod storage;
pub mod storage_error;
pub mod transport;

pub use config::Config;
pub use effect::Effect;
pub use entry::KvEntry;
pub use eta::EtaAssigner;
pub use event::Event;
pub use message::{Eta, Message, NodeId};
pub use phase::Phase;
pub use replica::Replica;
pub use sequencer::Sequencer;
pub use state::ReplicaState;
pub use state_machine::{CheckedMachine, StateMachine};
pub use storage::{KvStore, KvStoreOps, MemKvStore};
pub use storage_error::StoreError;
pub use transport::Transport;
