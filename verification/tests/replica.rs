//! Message dispatch.

use raspen::{Config, Effect, Message, Phase, Replica};

fn make_replica() -> Replica {
    Replica::new(Config::for_test(6, 1, 1), "n0".to_string(), "db").unwrap()
}
#[test]
fn test_speculate_produces_spec_reply() {
    let mut replica = make_replica();

    let msg = Message::Speculate {
        eta: 0,
        op_hash: [0u8; 32],
        from_seq: "seq".to_string(),
        round: 0,
    };

    let effects = replica.process_message(msg);
    let has_spec_reply = effects.iter().any(|e| {
        matches!(e, Effect::Broadcast(Message::SpecReply { log_idx, from, .. })
            if *log_idx == 0 && from == "n0")
    });
    assert!(has_spec_reply, "expected SpecReply in effects; got: {effects:?}");

    let has_sync = effects.iter().any(|e| {
        matches!(e, Effect::Broadcast(Message::Sync { log_idx, .. }) if *log_idx == 0)
    });
    assert!(has_sync, "expected Sync in effects (threshold branch); got: {effects:?}");

    assert_eq!(replica.state.kv_size, 1);
    assert_eq!(replica.state.kv_store.size(), 1);
}
#[test]
fn test_second_speculate_uses_log_idx_1() {
    let mut replica = make_replica();

    let msg1 = Message::Speculate {
        eta: 0,
        op_hash: [0u8; 32],
        from_seq: "seq".to_string(),
        round: 0,
    };
    let _ = replica.process_message(msg1);

    let msg2 = Message::Speculate {
        eta: 1,
        op_hash: [1u8; 32],
        from_seq: "seq".to_string(),
        round: 0,
    };
    let effects2 = replica.process_message(msg2);
    let has_spec_reply = effects2.iter().any(|e| {
        matches!(e, Effect::Broadcast(Message::SpecReply { log_idx, .. }) if *log_idx == 1)
    });
    assert!(has_spec_reply, "expected SpecReply(log_idx=1) in effects; got: {effects2:?}");

    assert_eq!(replica.state.kv_size, 2);
}
#[test]
fn test_speculate_ignored_when_not_speculative() {
    let mut replica = make_replica();
    replica.state.phase = Phase::Aligning;

    let msg = Message::Speculate {
        eta: 0,
        op_hash: [0u8; 32],
        from_seq: "seq".to_string(),
        round: 0,
    };

    let effects = replica.process_message(msg);
    assert!(effects.is_empty(), "expected no effects when not Speculative");
    assert_eq!(replica.state.kv_size, 0);
}
