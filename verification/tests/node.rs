//! One step of a node.

use raspen::node::{drive, drive_all, step, try_drive, ReplicaInput};
use raspen::{Config, Effect, Event, Message, NodeId, Replica, Transport};

/// Records what is sent, and how often a batch came.
struct RecordingTransport {
    effects: Vec<Effect>,
    batches: usize,
}

impl RecordingTransport {
    fn new() -> Self {
        Self { effects: vec![], batches: 0 }
    }

    fn recv(&mut self) -> Vec<Effect> {
        self.effects.drain(..).collect()
    }
}

impl Transport for RecordingTransport {
    fn broadcast(&mut self, msg: Message) {
        self.effects.push(Effect::Broadcast(msg));
    }

    fn send(&mut self, to: NodeId, message: Message) {
        self.effects.push(Effect::Send { to, message });
    }

    fn execute(&mut self, batch: Vec<Effect>) {
        self.effects.extend(batch);
        self.batches += 1;
    }
}

/// Relies on the way in which effects are carried out by default.
struct PlainTransport {
    log: Vec<String>,
}

impl Transport for PlainTransport {
    fn broadcast(&mut self, msg: Message) {
        self.log.push(format!("all {msg:?}"));
    }

    fn send(&mut self, to: NodeId, message: Message) {
        self.log.push(format!("{to} {message:?}"));
    }
}

fn make_replica() -> Replica {
    Replica::new(Config::for_test(6, 1, 1), "n0".to_string(), "db").unwrap()
}

fn speculate() -> Message {
    Message::Speculate { eta: 0, op_hash: [0u8; 32], from_seq: "seq".to_string(), round: 0 }
}

#[test]
fn test_submit_message_speculate() {
    let mut replica = make_replica();
    let mut transport = RecordingTransport::new();

    drive(&mut replica, &mut transport, ReplicaInput::Message(speculate()));
    let effects = transport.recv();

    let has_spec_reply = effects.iter().any(
        |e| matches!(e, Effect::Broadcast(Message::SpecReply { log_idx, .. }) if *log_idx == 0),
    );
    assert!(has_spec_reply, "expected SpecReply; got: {effects:?}");

    let has_sync = effects.iter().any(|e| matches!(e, Effect::Broadcast(Message::Sync { .. })));
    assert!(has_sync, "expected Sync (threshold branch); got: {effects:?}");
}

#[test]
fn test_submit_event_sync_timeout() {
    let mut replica = make_replica();
    let mut transport = RecordingTransport::new();

    drive(&mut replica, &mut transport, ReplicaInput::Message(speculate()));
    let _ = transport.recv();

    drive(&mut replica, &mut transport, ReplicaInput::Event(Event::SyncTimeout));
    let effects = transport.recv();
    let has_sync = effects.iter().any(|e| matches!(e, Effect::Broadcast(Message::Sync { .. })));
    assert!(has_sync, "expected Sync broadcast from SyncTimeout; got: {effects:?}");
}

#[test]
fn quiet_inputs_do_not_reach_the_transport() {
    let mut replica = make_replica();
    let mut transport = RecordingTransport::new();
    drive(&mut replica, &mut transport, ReplicaInput::Event(Event::SyncTimeout));
    assert_eq!(transport.batches, 0);
    assert!(transport.recv().is_empty());
}

#[test]
fn effects_are_carried_out_in_order() {
    let mut transport = PlainTransport { log: vec![] };
    let proof = Message::TimeoutProof { round: 1, log_idx: 2 };
    let reply = Message::StateReply { from: "a".to_string(), chkpt_idx: 3, chkpt_hash: [0u8; 32] };
    transport.execute(vec![
        Effect::Broadcast(proof.clone()),
        Effect::Send { to: "b".to_string(), message: reply.clone() },
        Effect::Broadcast(proof.clone()),
    ]);
    assert_eq!(
        transport.log,
        vec![format!("all {proof:?}"), format!("b {reply:?}"), format!("all {proof:?}")]
    );
}

#[test]
fn inputs_are_taken_in_order() {
    let mut one = make_replica();
    let mut all = make_replica();
    let mut first = RecordingTransport::new();
    let mut second = RecordingTransport::new();
    let inputs = vec![
        ReplicaInput::Event(Event::SyncTimeout),
        ReplicaInput::Message(speculate()),
        ReplicaInput::Event(Event::SyncTimeout),
        ReplicaInput::Message(Message::TimeoutProof { round: 0, log_idx: 0 }),
        ReplicaInput::Event(Event::RepairViewTimeout),
    ];
    for input in &inputs {
        drive(&mut one, &mut first, input.clone());
    }
    drive_all(&mut all, &mut second, &inputs);
    // The first input has no effect; each of the others makes one batch.
    assert_eq!((first.batches, second.batches), (4, 4));
    assert_eq!(first.recv(), second.recv());
    assert_eq!((all.state.view, all.state.kv_size, all.state.in_repair), (1, 1, true));
    assert_eq!((one.state.view, one.state.kv_size, one.state.in_repair), (1, 1, true));
}

#[test]
fn a_step_returns_the_whole_batch() {
    let mut replica = make_replica();
    assert!(step(&mut replica, ReplicaInput::Event(Event::SyncTimeout)).is_none());
    assert_eq!(step(&mut replica, ReplicaInput::Message(speculate())).unwrap().len(), 2);
}

#[test]
fn an_input_that_cannot_be_taken_is_refused() {
    let mut replica = make_replica();
    let mut transport = RecordingTransport::new();
    assert!(try_drive(&mut replica, &mut transport, ReplicaInput::Message(speculate())));
    assert_eq!(transport.batches, 1);
    replica.state.kv_size = u64::MAX;
    assert!(!try_drive(&mut replica, &mut transport, ReplicaInput::Message(speculate())));
    assert_eq!(transport.batches, 1);
    assert!(try_drive(&mut replica, &mut transport, ReplicaInput::Event(Event::SyncTimeout)));
    assert_eq!(transport.batches, 2);
}
