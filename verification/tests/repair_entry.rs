//! Entry into REPAIR.

use raspen::fast_path::handle_speculate;
use raspen::repair_entry::can_enter_repair;
use raspen::{Config, Effect, Event, Message, Phase, Replica};

fn make_replica() -> Replica {
    Replica::new(Config::for_test(6, 1, 1), "n0".to_string(), "db").unwrap()
}

fn do_speculate(replica: &mut Replica) {
    handle_speculate(replica, 0);
}

#[test]
fn test_chkpt_timeout_broadcasts_timeout_msg() {
    let mut replica = make_replica();
    assert_eq!(replica.state.phase, Phase::Speculative);

    let effects = replica.handle_event(Event::ChkptTimeout { log_idx: 5 });

    assert_eq!(effects.len(), 1, "expected exactly one effect");
    match &effects[0] {
        Effect::Broadcast(Message::TimeoutMsg { from, round, log_idx }) => {
            assert_eq!(from, "n0");
            assert_eq!(*round, 0);
            assert_eq!(*log_idx, 5);
        }
        other => panic!("unexpected effect: {other:?}"),
    }
    assert_eq!(replica.state.phase, Phase::Speculative);
}
#[test]
fn test_chkpt_timeout_guard_fails_wrong_phase() {
    let mut replica = make_replica();
    replica.state.phase = Phase::Aligning;

    let effects = replica.handle_event(Event::ChkptTimeout { log_idx: 0 });
    assert!(
        effects.is_empty(),
        "must not fire when not Speculative"
    );
}
#[test]
fn test_chkpt_timeout_guard_fails_when_in_repair() {
    let mut replica = make_replica();
    replica.state.in_repair = true;

    let effects = replica.handle_event(Event::ChkptTimeout { log_idx: 0 });
    assert!(
        effects.is_empty(),
        "must not fire when in_repair"
    );
}

#[test]
fn test_timeout_proof_after_f_plus_1_timeouts() {
    let mut replica = make_replica();
    do_speculate(&mut replica);
    let f_plus_1 = replica.config.f_plus_1;

    let mut final_effects = vec![];
    for i in 0..f_plus_1 {
        let msg = Message::TimeoutMsg {
            from: format!("n{i}"),
            round: 0,
            log_idx: 0,
        };
        let effects = replica.process_message(msg);
        final_effects = effects;
    }

    let has_timeout_proof = final_effects.iter().any(|e| {
        matches!(e, Effect::Broadcast(Message::TimeoutProof { round: 0, log_idx: 0 }))
    });
    assert!(has_timeout_proof, "expected TimeoutProof; got: {final_effects:?}");

    let has_log_msg = final_effects
        .iter()
        .any(|e| matches!(e, Effect::Broadcast(Message::LogMsg { .. })));
    assert!(has_log_msg, "expected LogMsg broadcast with TimeoutProof");

    assert_eq!(replica.state.phase, Phase::CollectingLogs);
    assert!(replica.state.in_repair);
}
#[test]
fn test_timeout_proof_below_threshold() {
    let mut replica = make_replica();
    do_speculate(&mut replica);
    let f_plus_1 = replica.config.f_plus_1;

    let mut all_effects = vec![];
    for i in 0..(f_plus_1 - 1) {
        let msg = Message::TimeoutMsg {
            from: format!("n{i}"),
            round: 0,
            log_idx: 0,
        };
        all_effects.extend(replica.process_message(msg));
    }

    let has_timeout_proof = all_effects
        .iter()
        .any(|e| matches!(e, Effect::Broadcast(Message::TimeoutProof { .. })));
    assert!(!has_timeout_proof, "must not form timeout proof below f+1");
    assert_eq!(replica.state.phase, Phase::Speculative);
}
#[test]
fn test_enter_repair_on_timeout_proof() {
    let mut replica = make_replica();
    assert!(!replica.state.in_repair);

    let msg = Message::TimeoutProof {
        round: 0,
        log_idx: 0,
    };
    let effects = replica.process_message(msg);

    let has_log_msg = effects
        .iter()
        .any(|e| matches!(e, Effect::Broadcast(Message::LogMsg { .. })));
    assert!(has_log_msg, "expected LogMsg from enter_repair; got: {effects:?}");
    assert_eq!(replica.state.phase, Phase::CollectingLogs);
    assert!(replica.state.in_repair);
}
#[test]
fn test_enter_repair_guard_fails_when_in_repair() {
    let mut replica = make_replica();
    replica.state.in_repair = true;
    replica.state.phase = Phase::CollectingLogs;

    let msg = Message::TimeoutProof {
        round: 0,
        log_idx: 0,
    };
    let result = can_enter_repair(&replica, &msg);
    assert_eq!(result, None, "must not fire when already in_repair");
}
#[test]
fn test_enter_repair_on_conflict_proof() {
    let mut replica = make_replica();

    let msg = Message::ConflictProof {
        round: 0,
        log_idx: 0,
    };
    let effects = replica.process_message(msg);

    let has_log_msg = effects
        .iter()
        .any(|e| matches!(e, Effect::Broadcast(Message::LogMsg { .. })));
    assert!(has_log_msg, "ConflictProof must trigger enter_repair");
}
