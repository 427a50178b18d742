//! The replica.

use vstd::prelude::*;

use crate::alignment::{
    can_state_reply, can_state_request, checkpoint_received, handle_state_reply,
    handle_state_request, on_receive_checkpoint, state_reply_guard, state_reply_received,
    state_request_received,
};
use crate::checkpoint::{
    can_send_sync_on_event, can_send_sync_threshold, handle_send_sync, on_receive_sync,
    send_sync_step, sync_event_guard, sync_received, sync_threshold_passed,
};
use crate::config::{Config, ConfigView};
use crate::effect::{append_effects, effect_values, no_effects, Effect};
use crate::event::Event;
use crate::fast_path::{can_speculate, handle_speculate, speculate_guard, speculate_received};
use crate::message::{no_hash, zero_hash, Message, MessageView, NodeId};
use crate::phase::Phase;
use crate::quorum::{name_of, with_message, MessageSet};
use crate::repair::{
    apply_guard, can_apply_repair, can_repair_done_catchup, can_view_change, catchup_guard,
    commit_received, done_received, handle_apply_repair, handle_repair_done_catchup,
    handle_view_change, history_received, keep_commit, keep_done, log_received,
    on_receive_log_msg,
    on_receive_repair_commit, on_receive_repair_done, on_receive_repair_history,
    on_receive_repair_prepare, prepare_received, view_change_guard, view_change_step,
    with_commit, with_done,
};
use crate::repair_entry::{
    can_chkpt_timeout, can_conflict_proof, chkpt_timeout_guard, chkpt_timeout_step,
    conflict_checked, handle_chkpt_timeout, handle_conflict_proof, on_receive_proof,
    on_receive_timeout, proof_received, timeout_received,
};
use crate::replica_laws::law_room_is_enough;
use crate::state::{Outcome, ReplicaState, StateView};
use crate::storage::{KvStore, KvStoreOps, MemKvStore};
use crate::storage_error::StoreError;

verus! {

/// A replica: its state and the configuration that it runs under.
pub struct Replica {
    pub state: ReplicaState,
    pub config: Config,
}

/// The initial state: in the speculative phase, with an empty log and no
/// messages.
pub open spec fn initial_state(node_id: Seq<char>) -> StateView {
    StateView {
        node_id,
        phase: Phase::Speculative,
        round: 0,
        view: 0,
        start_idx: 0,
        kv_size: 0,
        log: Map::empty(),
        chkpt_idx: 0,
        chkpt_hash: zero_hash(),
        eta_star: 0,
        in_repair: false,
        proposed_history_hash: 0,
        sync_msgs: Seq::empty(),
        ack_msgs: Seq::empty(),
        chkpt_msgs: Seq::empty(),
        timeout_msgs: Seq::empty(),
        log_msgs: Seq::empty(),
        repair_history_msgs: Seq::empty(),
        repair_prepare_msgs: Seq::empty(),
        repair_commit_msgs: Seq::empty(),
        repair_done_msgs: Seq::empty(),
    }
}

/// The state once `m` has arrived: the largest sequence number is brought up to
/// date, and a SPEC-REPLY is kept.
pub open spec fn noted(s: StateView, m: MessageView) -> StateView {
    match m {
        MessageView::Speculate { eta, .. } => StateView {
            eta_star: if eta > s.eta_star {
                eta
            } else {
                s.eta_star
            },
            ..s
        },
        MessageView::SpecReply { .. } => StateView {
            ack_msgs: with_message(s.ack_msgs, m),
            ..s
        },
        _ => s,
    }
}

/// What `m` leads to on the fast path: execution, SYNCs and checkpoints.
pub open spec fn fast_path_outcome(c: ConfigView, s: StateView, m: MessageView) -> Outcome {
    let o1 = speculate_received(noted(s, m), m);
    let o2 = sync_threshold_passed(o1.state);
    let o3 = sync_received(c, o2.state, m);
    let o4 = checkpoint_received(c, o3.state, m);
    Outcome { state: o4.state, effects: o1.effects + o2.effects + o3.effects + o4.effects }
}

/// What `m` leads to next: entry into REPAIR, and the answer to a state request.
pub open spec fn entry_outcome(c: ConfigView, s: StateView, m: MessageView) -> Outcome {
    let o1 = conflict_checked(c, s);
    let o2 = timeout_received(c, o1.state, m);
    let o3 = proof_received(o2.state, m);
    let o4 = state_request_received(o3.state, m);
    Outcome { state: o4.state, effects: o1.effects + o2.effects + o3.effects + o4.effects }
}

/// What `m` leads to after that: recovery of the log, and the votes in REPAIR.
pub open spec fn vote_outcome(c: ConfigView, s: StateView, m: MessageView) -> Outcome {
    let o1 = state_reply_received(s, m);
    let o2 = log_received(c, o1.state, m);
    let o3 = history_received(c, o2.state, m);
    let o4 = prepare_received(c, o3.state, m);
    Outcome { state: o4.state, effects: o1.effects + o2.effects + o3.effects + o4.effects }
}

/// What `m` leads to last: the end of REPAIR.
pub open spec fn exit_outcome(c: ConfigView, s: StateView, m: MessageView) -> Outcome {
    let o1 = commit_received(c, s, m);
    let o2 = done_received(c, o1.state, m);
    Outcome { state: o2.state, effects: o1.effects + o2.effects }
}

/// What a message leads to: every transition that it enables, in a fixed order,
/// each on the state that the one before it left.
pub open spec fn message_outcome(c: ConfigView, s: StateView, m: MessageView) -> Outcome {
    let o1 = fast_path_outcome(c, s, m);
    let o2 = entry_outcome(c, o1.state, m);
    let o3 = vote_outcome(c, o2.state, m);
    let o4 = exit_outcome(c, o3.state, m);
    Outcome { state: o4.state, effects: o1.effects + o2.effects + o3.effects + o4.effects }
}

/// The state on which `m` is taken as a STATE-REPLY.
pub open spec fn before_votes(c: ConfigView, s: StateView, m: MessageView) -> StateView {
    entry_outcome(c, fast_path_outcome(c, s, m).state, m).state
}

/// The state on which `m` is taken as a commit vote.
pub open spec fn before_exit(c: ConfigView, s: StateView, m: MessageView) -> StateView {
    vote_outcome(c, before_votes(c, s, m), m).state
}

/// The history that `m` makes the replica apply, if it does.
pub open spec fn applied_history(c: ConfigView, s: StateView, m: MessageView) -> Option<u64> {
    apply_guard(c, with_commit(before_exit(c, s, m), m))
}

/// No counter overflows on the way: the log size on the fast path and in a
/// recovery, and the round at the end of REPAIR.
pub open spec fn message_fits(c: ConfigView, s: StateView, m: MessageView) -> bool {
    let t = before_exit(c, s, m);
    let u = commit_received(c, t, m).state;
    &&& speculate_guard(s, m) is Some ==> s.kv_size < u64::MAX
    &&& state_reply_guard(before_votes(c, s, m), m) != Some(u64::MAX)
    &&& applied_history(c, s, m) is Some ==> t.round < u64::MAX
    &&& catchup_guard(c, with_done(u, m)) is Some ==> u.round < u64::MAX
}

/// The state before the transition on which a counter overflows.
pub open spec fn overflow_state(c: ConfigView, s: StateView, m: MessageView) -> StateView {
    let t = before_exit(c, s, m);
    if speculate_guard(s, m) is Some && s.kv_size == u64::MAX {
        s
    } else if state_reply_guard(before_votes(c, s, m), m) == Some(u64::MAX) {
        before_votes(c, s, m)
    } else if applied_history(c, s, m) is Some && t.round == u64::MAX {
        with_commit(t, m)
    } else {
        with_done(commit_received(c, t, m).state, m)
    }
}

/// The counters are below their limits, and so is the index of a STATE-REPLY.
pub open spec fn room_for(s: StateView, m: MessageView) -> bool {
    &&& s.round < u64::MAX
    &&& s.kv_size < u64::MAX
    &&& m matches MessageView::StateReply { chkpt_idx, .. } ==> chkpt_idx < u64::MAX
}

/// What a timer event leads to. An event enables one transition at most.
pub open spec fn event_outcome(s: StateView, e: Event) -> Outcome {
    match (sync_event_guard(s, e), chkpt_timeout_guard(s, e), view_change_guard(s, e)) {
        (Some(log_idx), _, _) => send_sync_step(s, log_idx),
        (_, Some(log_idx), _) => chkpt_timeout_step(s, log_idx),
        (_, _, Some(new_view)) => view_change_step(s, new_view),
        _ => Outcome::quiet(s),
    }
}

/// No counter overflows on the way: the view of a view change.
pub open spec fn event_fits(s: StateView, e: Event) -> bool {
    view_change_guard(s, e) is Some ==> s.view < u64::MAX
}

/// Whether `node_id` leads the view of `s`.
pub open spec fn leads(c: ConfigView, s: StateView) -> bool {
    c.leader(s.view) == Some(s.node_id)
}

impl Replica {
    /// A replica in its initial state, over the store opened at `db_path`.
    pub fn new(config: Config, node_id: NodeId, db_path: &str) -> (r: Result<Self, StoreError>)
        ensures
            r is Ok,
            r->Ok_0.config == config,
            r->Ok_0.state@ == initial_state(node_id@),
    {
        let kv_store = KvStore::open(db_path)?;
        let mut r = Replica::initial(config, node_id);
        r.state.kv_store = Box::new(kv_store);
        assert(r.state@ =~= initial_state(node_id@));
        Ok(r)
    }

    /// A replica in its initial state, over the log in the given store.
    pub fn with_store(config: Config, node_id: NodeId, kv_store: Box<dyn KvStoreOps>) -> (r:
        Replica)
        ensures
            r.config == config,
            r.state@ == (StateView { log: kv_store.entries(), ..initial_state(node_id@) }),
    {
        let mut store = kv_store;
        let mut r = Replica::initial(config, node_id);
        std::mem::swap(&mut r.state.kv_store, &mut store);
        assert(r.state@ =~= (StateView { log: kv_store.entries(), ..initial_state(node_id@) }));
        r
    }

    /// A replica in its initial state, over an empty store in memory.
    fn initial(config: Config, node_id: NodeId) -> (r: Replica)
        ensures
            r.config == config,
            r.state@ == initial_state(node_id@),
    {
        let r = Replica {
            state: ReplicaState {
                node_id,
                phase: Phase::Speculative,
                round: 0,
                view: 0,
                start_idx: 0,
                kv_size: 0,
                kv_store: Box::new(MemKvStore::new()),
                chkpt_idx: 0,
                chkpt_hash: no_hash(),
                eta_star: 0,
                in_repair: false,
                proposed_history_hash: 0,
                sync_msgs: MessageSet::new(),
                ack_msgs: MessageSet::new(),
                chkpt_msgs: MessageSet::new(),
                timeout_msgs: MessageSet::new(),
                log_msgs: MessageSet::new(),
                repair_history_msgs: MessageSet::new(),
                repair_prepare_msgs: MessageSet::new(),
                repair_commit_msgs: MessageSet::new(),
                repair_done_msgs: MessageSet::new(),
            },
            config,
        };
        assert(r.state@ =~= initial_state(node_id@));
        r
    }

    /// Brings the largest sequence number up to date, and keeps a SPEC-REPLY.
    fn note_receipt(&mut self, msg: &Message)
        ensures
            final(self).state@ == noted(old(self).state@, msg@),
            final(self).config == old(self).config,
    {
        match msg {
            Message::Speculate { eta, .. } => {
                if *eta > self.state.eta_star {
                    self.state.eta_star = *eta;
                }
            },
            Message::SpecReply { .. } => {
                self.state.ack_msgs.insert(msg.clone());
            },
            _ => {},
        }
    }

    /// The fast path, the SYNCs and the checkpoints.
    fn run_fast_path(&mut self, msg: &Message) -> (r: Vec<Effect>)
        requires
            speculate_guard(old(self).state@, msg@) is Some ==> old(self).state.kv_size < u64::MAX,
        ensures
            final(self).state@ == fast_path_outcome(
                old(self).config@,
                old(self).state@,
                msg@,
            ).state,
            effect_values(r@) == fast_path_outcome(
                old(self).config@,
                old(self).state@,
                msg@,
            ).effects,
            final(self).config == old(self).config,
    {
        let mut effects = no_effects();
        self.note_receipt(msg);
        if let Some(log_idx) = can_speculate(self, msg) {
            append_effects(&mut effects, handle_speculate(self, log_idx));
        }
        if let Some(log_idx) = can_send_sync_threshold(self) {
            append_effects(&mut effects, handle_send_sync(self, log_idx));
        }
        append_effects(&mut effects, on_receive_sync(self, msg));
        append_effects(&mut effects, on_receive_checkpoint(self, msg));
        effects
    }

    /// Entry into REPAIR, and the answer to a state request.
    fn run_entry(&mut self, msg: &Message) -> (r: Vec<Effect>)
        ensures
            final(self).state@ == entry_outcome(old(self).config@, old(self).state@, msg@).state,
            effect_values(r@) == entry_outcome(old(self).config@, old(self).state@, msg@).effects,
            final(self).config == old(self).config,
    {
        let mut effects = no_effects();
        if let Some(log_idx) = can_conflict_proof(self) {
            append_effects(&mut effects, handle_conflict_proof(self, log_idx));
        }
        append_effects(&mut effects, on_receive_timeout(self, msg));
        append_effects(&mut effects, on_receive_proof(self, msg));
        if let Some(requester) = can_state_request(msg) {
            append_effects(&mut effects, handle_state_request(self, requester));
        }
        effects
    }

    /// Recovery of the log, and the votes in REPAIR.
    fn run_votes(&mut self, msg: &Message) -> (r: Vec<Effect>)
        requires
            state_reply_guard(old(self).state@, msg@) != Some(u64::MAX),
        ensures
            final(self).state@ == vote_outcome(old(self).config@, old(self).state@, msg@).state,
            effect_values(r@) == vote_outcome(old(self).config@, old(self).state@, msg@).effects,
            final(self).config == old(self).config,
    {
        let mut effects = no_effects();
        if let Some(chkpt_idx) = can_state_reply(self, msg) {
            append_effects(&mut effects, handle_state_reply(self, chkpt_idx));
        }
        append_effects(&mut effects, on_receive_log_msg(self, msg));
        append_effects(&mut effects, on_receive_repair_history(self, msg));
        append_effects(&mut effects, on_receive_repair_prepare(self, msg));
        effects
    }

    /// The end of REPAIR.
    fn run_exit(&mut self, msg: &Message) -> (r: Vec<Effect>)
        requires
            apply_guard(old(self).config@, with_commit(old(self).state@, msg@)) is Some
                ==> old(self).state.round < u64::MAX,
            ({
                let t = commit_received(old(self).config@, old(self).state@, msg@).state;
                catchup_guard(old(self).config@, with_done(t, msg@)) is Some ==> t.round < u64::MAX
            }),
        ensures
            final(self).state@ == exit_outcome(old(self).config@, old(self).state@, msg@).state,
            effect_values(r@) == exit_outcome(old(self).config@, old(self).state@, msg@).effects,
            final(self).config == old(self).config,
    {
        let mut effects = on_receive_repair_commit(self, msg);
        append_effects(&mut effects, on_receive_repair_done(self, msg));
        effects
    }

    /// Whether the counters are below their limits, so that the message can be
    /// processed whatever it leads to.
    pub fn has_room(&self, msg: &Message) -> (r: bool)
        ensures
            r == room_for(self.state@, msg@),
            r ==> message_fits(self.config@, self.state@, msg@),
    {
        let reply_fits = match msg {
            Message::StateReply { chkpt_idx, .. } => *chkpt_idx < u64::MAX,
            _ => true,
        };
        let r = self.state.round < u64::MAX && self.state.kv_size < u64::MAX && reply_fits;
        proof {
            if r {
                law_room_is_enough(self.config@, self.state@, msg@);
            }
        }
        r
    }

    /// Handles a message: tries every transition in order and collects the
    /// effects of those that are enabled.
    ///
    /// The effects have to be carried out; the protocol stalls if they are
    /// dropped.
    #[must_use]
    pub fn process_message(&mut self, msg: Message) -> (r: Vec<Effect>)
        requires
            message_fits(old(self).config@, old(self).state@, msg@),
        ensures
            final(self).state@ == message_outcome(old(self).config@, old(self).state@, msg@).state,
            effect_values(r@) == message_outcome(old(self).config@, old(self).state@, msg@).effects,
            final(self).config == old(self).config,
    {
        let mut effects = self.run_fast_path(&msg);
        append_effects(&mut effects, self.run_entry(&msg));
        append_effects(&mut effects, self.run_votes(&msg));
        append_effects(&mut effects, self.run_exit(&msg));
        effects
    }

    /// Handles a message unless a counter would overflow on the way; then the
    /// replica stops short of the transition that cannot be made.
    #[must_use]
    pub fn try_process_message(&mut self, msg: Message) -> (r: Option<Vec<Effect>>)
        ensures
            r is Some <==> message_fits(old(self).config@, old(self).state@, msg@),
            final(self).config == old(self).config,
            match r {
                Some(effects) => ({
                    let o = message_outcome(old(self).config@, old(self).state@, msg@);
                    final(self).state@ == o.state && effect_values(effects@) == o.effects
                }),
                None => final(self).state@ == overflow_state(
                    old(self).config@,
                    old(self).state@,
                    msg@,
                ),
            },
    {
        if self.has_room(&msg) {
            return Some(self.process_message(msg));
        }
        if can_speculate(self, &msg).is_some() && self.state.kv_size == u64::MAX {
            return None;
        }
        let mut effects = self.run_fast_path(&msg);
        append_effects(&mut effects, self.run_entry(&msg));
        if let Some(chkpt_idx) = can_state_reply(self, &msg) {
            if chkpt_idx == u64::MAX {
                return None;
            }
        }
        append_effects(&mut effects, self.run_votes(&msg));
        let ghost t = self.state@;
        keep_commit(self, &msg);
        let mut last = no_effects();
        if let Some(history_hash) = can_apply_repair(self) {
            if self.state.round == u64::MAX {
                return None;
            }
            append_effects(&mut last, handle_apply_repair(self, history_hash));
        }
        assert(self.state@ == commit_received(old(self).config@, t, msg@).state);
        keep_done(self, &msg);
        if let Some(round) = can_repair_done_catchup(self) {
            if self.state.round == u64::MAX {
                return None;
            }
            append_effects(&mut last, handle_repair_done_catchup(self, round));
        }
        append_effects(&mut effects, last);
        Some(effects)
    }

    /// Handles a timer event.
    ///
    /// The effects have to be carried out; the protocol stalls if they are
    /// dropped.
    #[must_use]
    pub fn handle_event(&mut self, event: Event) -> (r: Vec<Effect>)
        requires
            event_fits(old(self).state@, event),
        ensures
            final(self).state@ == event_outcome(old(self).state@, event).state,
            effect_values(r@) == event_outcome(old(self).state@, event).effects,
            final(self).config == old(self).config,
    {
        let mut effects = no_effects();
        if let Some(log_idx) = can_send_sync_on_event(self, &event) {
            append_effects(&mut effects, handle_send_sync(self, log_idx));
        }
        if let Some(log_idx) = can_chkpt_timeout(self, &event) {
            append_effects(&mut effects, handle_chkpt_timeout(self, log_idx));
        }
        if let Some(new_view) = can_view_change(self, &event) {
            append_effects(&mut effects, handle_view_change(self, new_view));
        }
        effects
    }

    /// Handles a timer event unless the view would overflow; then nothing changes.
    #[must_use]
    pub fn try_handle_event(&mut self, event: Event) -> (r: Option<Vec<Effect>>)
        ensures
            r is Some <==> event_fits(old(self).state@, event),
            final(self).config == old(self).config,
            match r {
                Some(effects) => ({
                    let o = event_outcome(old(self).state@, event);
                    final(self).state@ == o.state && effect_values(effects@) == o.effects
                }),
                None => final(self).state@ == old(self).state@,
            },
    {
        if self.state.view == u64::MAX && self.state.phase == Phase::CollectingLogs && matches!(
            event,
            Event::RepairViewTimeout,
        ) {
            return None;
        }
        Some(self.handle_event(event))
    }

    /// The leader of the current repair view, where there are any replicas: the
    /// replicas of `nodes_ordered` lead in turn.
    pub fn leader(&self) -> (r: Option<&NodeId>)
        ensures
            name_of(r) == self.config@.leader(self.state.view),
    {
        let n = self.config.nodes_ordered.len();
        if n == 0 {
            return None;
        }
        let i: usize = (self.state.view % n as u64) as usize;
        Some(&self.config.nodes_ordered[i])
    }

    /// Whether this replica leads the current repair view.
    pub fn is_leader(&self) -> (r: bool)
        ensures
            r == leads(self.config@, self.state@),
    {
        match self.leader() {
            Some(leader) => *leader == self.state.node_id,
            None => false,
        }
    }
}

} // verus!
