//! Alignment.

use raspen::alignment::{
    can_enter_align, can_state_reply, can_state_request, handle_state_reply, handle_state_request,
};
use raspen::{Config, Effect, Message, Phase, Replica};

fn make_replica() -> Replica {
    Replica::new(Config::for_test(6, 1, 1), "n0".to_string(), "db").unwrap()
}

#[test]
fn test_enter_align_after_f_plus_1_checkpoints() {
    let mut replica = make_replica();
    assert_eq!(replica.state.phase, Phase::Speculative);
    let f_plus_1 = replica.config.f_plus_1;
    let mut final_effects = vec![];
    for i in 0..f_plus_1 {
        let chkpt_msg = Message::Checkpoint {
            from: format!("n{i}"),
            round: 0,
            log_idx: 0,
            log_hash: [0u8; 32],
        };
        let effects = replica.process_message(chkpt_msg);
        final_effects = effects;
    }
    let has_state_request = final_effects.iter().any(|e| {
        matches!(e, Effect::Broadcast(Message::StateRequest { from, chkpt_idx })
            if from == "n0" && *chkpt_idx == 0)
    });
    assert!(
        has_state_request,
        "expected StateRequest broadcast after f+1 Checkpoints; got: {final_effects:?}"
    );
    assert_eq!(
        replica.state.phase,
        Phase::Aligning,
        "phase must be Aligning after enter_align"
    );
}
#[test]
fn test_enter_align_below_threshold_no_effect() {
    let mut replica = make_replica();
    let f_plus_1 = replica.config.f_plus_1;
    let mut all_effects = vec![];
    for i in 0..(f_plus_1 - 1) {
        let chkpt_msg = Message::Checkpoint {
            from: format!("n{i}"),
            round: 0,
            log_idx: 0,
            log_hash: [0u8; 32],
        };
        all_effects.extend(replica.process_message(chkpt_msg));
    }

    let has_state_request = all_effects
        .iter()
        .any(|e| matches!(e, Effect::Broadcast(Message::StateRequest { .. })));
    assert!(
        !has_state_request,
        "must not enter align below f+1 threshold"
    );
    assert_eq!(replica.state.phase, Phase::Speculative);
}
#[test]
fn test_enter_align_guard_fails_wrong_phase() {
    let mut replica = make_replica();
    replica.state.phase = Phase::Aligning;

    let result = can_enter_align(&replica);
    assert_eq!(result, None, "must not trigger when already Aligning");
}
#[test]
fn test_state_request_triggers_reply() {
    let replica = make_replica();
    let msg = Message::StateRequest {
        from: "n1".to_string(),
        chkpt_idx: 0,
    };

    let effects = handle_state_request(&replica, "n1".to_string());
    assert_eq!(effects.len(), 1);
    match &effects[0] {
        Effect::Send { to, message } => {
            assert_eq!(to, "n1");
            assert!(matches!(message, Message::StateReply { from, .. } if from == "n0"));
        }
        other => panic!("unexpected effect: {other:?}"),
    }
    let requester = can_state_request(&msg);
    assert_eq!(requester, Some("n1".to_string()));
}
#[test]
fn test_state_request_guard_fails_for_other_messages() {
    let msg = Message::Speculate {
        eta: 0,
        op_hash: [0u8; 32],
        from_seq: "s".to_string(),
        round: 0,
    };
    assert_eq!(can_state_request(&msg), None);
}
#[test]
fn test_state_reply_rebuilds_store_and_returns_speculative() {
    let mut replica = make_replica();
    replica.state.phase = Phase::Aligning;

    let msg = Message::StateReply {
        from: "n1".to_string(),
        chkpt_idx: 3,
        chkpt_hash: [0u8; 32],
    };

    let chkpt_idx = can_state_reply(&replica, &msg).expect("guard must fire");
    assert_eq!(chkpt_idx, 3);

    let effects = handle_state_reply(&mut replica, chkpt_idx);
    assert!(effects.is_empty(), "state_reply must produce no effects");

    assert_eq!(replica.state.phase, Phase::Speculative);
    assert_eq!(replica.state.chkpt_idx, 3);
    assert_eq!(replica.state.kv_size, 4);
    assert_eq!(replica.state.start_idx, 3);
    assert_eq!(replica.state.kv_store.size(), 4);
}
#[test]
fn test_state_reply_guard_fails_when_not_aligning() {
    let replica = make_replica();
    let msg = Message::StateReply {
        from: "n1".to_string(),
        chkpt_idx: 0,
        chkpt_hash: [0u8; 32],
    };
    assert_eq!(
        can_state_reply(&replica, &msg),
        None,
        "must not fire when not Aligning"
    );
}
