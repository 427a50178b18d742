//! Speculative execution.

use raspen::fast_path::{can_speculate, handle_speculate};
use raspen::{Config, Effect, Message, Phase, Replica};

fn make_replica(phase: Phase) -> Replica {
    let config = Config::for_test(6, 1, 1);
    let mut replica = Replica::new(config, "n0".to_string(), "db").unwrap();
    replica.state.phase = phase;
    replica
}

fn speculate_msg() -> Message {
    Message::Speculate {
        eta: 0,
        op_hash: [0u8; 32],
        from_seq: "seq".to_string(),
        round: 0,
    }
}

#[test]
fn guard_passes_when_speculative() {
    let replica = make_replica(Phase::Speculative);
    let msg = speculate_msg();
    assert_eq!(can_speculate(&replica, &msg), Some(0));
}

#[test]
fn guard_fails_when_aligning() {
    let replica = make_replica(Phase::Aligning);
    let msg = speculate_msg();
    assert_eq!(can_speculate(&replica, &msg), None);
}

#[test]
fn guard_fails_for_non_speculate_message() {
    let replica = make_replica(Phase::Speculative);
    let msg = Message::SpecReply {
        from: "x".to_string(),
        round: 0,
        log_idx: 0,
        log_hash: [0u8; 32],
    };
    assert_eq!(can_speculate(&replica, &msg), None);
}

#[test]
fn first_speculate_writes_genesis_entry() {
    let mut replica = make_replica(Phase::Speculative);
    let effects = handle_speculate(&mut replica, 0);

    assert_eq!(replica.state.kv_size, 1);
    assert_eq!(replica.state.kv_store.size(), 1);

    assert_eq!(effects.len(), 1);
    match &effects[0] {
        Effect::Broadcast(Message::SpecReply {
            log_idx,
            from,
            log_hash,
            ..
        }) => {
            assert_eq!(*log_idx, 0);
            assert_eq!(from, "n0");
            assert_ne!(*log_hash, [0u8; 32], "hash must be non-zero for a real entry");
        }
        other => panic!("unexpected effect: {other:?}"),
    }
    let entry = replica.state.kv_store.get(0).unwrap().unwrap();
    assert_eq!(entry.prev_hash, [0u8; 32]);
    assert_eq!(entry.op_hash, 0);
}

#[test]
fn second_speculate_chains_prev_hash() {
    let mut replica = make_replica(Phase::Speculative);

    handle_speculate(&mut replica, 0);
    let hash_0 = replica.state.kv_store.hash_at(0).unwrap();

    handle_speculate(&mut replica, 1);
    let entry_1 = replica.state.kv_store.get(1).unwrap().unwrap();
    assert_eq!(entry_1.prev_hash, hash_0);
    assert_eq!(replica.state.kv_size, 2);
}
