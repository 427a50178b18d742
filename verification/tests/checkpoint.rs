//! Checkpoints.

use raspen::checkpoint::handle_send_sync;
use raspen::fast_path::handle_speculate;
use raspen::{Config, Effect, Event, Message, Replica};

fn make_replica() -> Replica {
    Replica::new(Config::for_test(6, 1, 1), "n0".to_string(), "db").unwrap()
}
fn do_speculate(replica: &mut Replica) {
    handle_speculate(replica, 0);
}

#[test]
fn test_sync_on_event() {
    let mut replica = make_replica();
    do_speculate(&mut replica);
    assert_eq!(replica.state.kv_size, 1);
    let effects = replica.handle_event(Event::SyncTimeout);

    assert_eq!(effects.len(), 1, "expected exactly one effect");
    match &effects[0] {
        Effect::Broadcast(Message::Sync {
            from,
            round,
            log_idx,
            eta_star,
            ..
        }) => {
            assert_eq!(from, "n0");
            assert_eq!(*round, 0);
            assert_eq!(*log_idx, 0);
            assert_eq!(*eta_star, 0);
        }
        other => panic!("unexpected effect: {other:?}"),
    }
}
#[test]
fn test_no_sync_when_empty() {
    let mut replica = make_replica();

    let effects = replica.handle_event(Event::SyncTimeout);
    assert!(effects.is_empty(), "expected no effects when kv_size == 0");
}
#[test]
fn test_send_sync_no_state_change() {
    let mut replica = make_replica();
    do_speculate(&mut replica);

    let kv_size_before = replica.state.kv_size;
    let chkpt_idx_before = replica.state.chkpt_idx;

    handle_send_sync(&mut replica, 0);

    assert_eq!(replica.state.kv_size, kv_size_before, "kv_size must not change");
    assert_eq!(replica.state.chkpt_idx, chkpt_idx_before, "chkpt_idx must not change");
}
#[test]
fn test_sync_threshold_via_process_message() {
    let mut replica = make_replica();

    let speculate_msg = Message::Speculate {
        eta: 0,
        op_hash: [0u8; 32],
        from_seq: "seq".to_string(),
        round: 0,
    };
    let effects = replica.process_message(speculate_msg);
    let has_sync = effects.iter().any(|e| matches!(e, Effect::Broadcast(Message::Sync { .. })));
    assert!(has_sync, "expected a Sync broadcast after kv_size > chkpt_idx");
}

#[test]
fn test_checkpoint_forms_after_quorum() {
    let mut replica = make_replica();
    do_speculate(&mut replica);
    let expected_hash = replica.state.kv_store.top_hash();
    let fast_quorum = replica.config.fast_quorum as usize;
    let mut final_effects = vec![];
    for i in 0..fast_quorum {
        let sync_msg = Message::Sync {
            from: format!("n{i}"),
            round: 0,
            log_idx: 0,
            log_hash: expected_hash,
            eta_star: 0,
        };
        let effects = replica.process_message(sync_msg);
        final_effects = effects;
    }
    let has_checkpoint = final_effects.iter().any(|e| {
        matches!(e, Effect::Broadcast(Message::Checkpoint { log_idx, log_hash, .. })
            if *log_idx == 0 && *log_hash == expected_hash)
    });
    assert!(has_checkpoint, "expected Checkpoint broadcast after fast_quorum Sync messages");
    assert_eq!(replica.state.chkpt_idx, 0, "chkpt_idx must be updated to log_idx");
    assert_eq!(replica.state.chkpt_hash, expected_hash, "chkpt_hash must be updated");
}
#[test]
fn test_no_checkpoint_below_quorum() {
    let mut replica = make_replica();
    do_speculate(&mut replica);
    let expected_hash = replica.state.kv_store.top_hash();
    let fast_quorum = replica.config.fast_quorum as usize;
    let mut all_effects = vec![];
    for i in 0..(fast_quorum - 1) {
        let sync_msg = Message::Sync {
            from: format!("n{i}"),
            round: 0,
            log_idx: 0,
            log_hash: expected_hash,
            eta_star: 0,
        };
        let effects = replica.process_message(sync_msg);
        all_effects.extend(effects);
    }

    let has_checkpoint = all_effects.iter().any(|e| {
        matches!(e, Effect::Broadcast(Message::Checkpoint { .. }))
    });
    assert!(!has_checkpoint, "must not form checkpoint below fast_quorum");
    assert_eq!(replica.state.chkpt_idx, 0);
}
#[test]
fn test_mismatched_sync_does_not_count() {
    let mut replica = make_replica();
    do_speculate(&mut replica);
    let fast_quorum = replica.config.fast_quorum as usize;
    let mut all_effects = vec![];
    for i in 0..fast_quorum {
        let sync_msg = Message::Sync {
            from: format!("n{i}"),
            round: 0,
            log_idx: 0,
            log_hash: [0xFFu8; 32],
            eta_star: 0,
        };
        let effects = replica.process_message(sync_msg);
        all_effects.extend(effects);
    }

    let has_checkpoint = all_effects.iter().any(|e| {
        matches!(e, Effect::Broadcast(Message::Checkpoint { .. }))
    });
    assert!(!has_checkpoint, "mismatched log_hash must not form checkpoint");
}
