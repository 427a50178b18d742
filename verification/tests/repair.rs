//! The REPAIR agreement.

use raspen::{Config, Effect, Event, Message, Phase, Replica};

fn make_replica() -> Replica {
    Replica::new(Config::for_test(6, 1, 1), "r0".to_string(), "db").unwrap()
}

fn make_non_leader_replica() -> Replica {
    Replica::new(Config::for_test(6, 1, 1), "r1".to_string(), "db").unwrap()
}

#[test]
fn test_view_change_on_repair_timeout() {
    let mut replica = make_replica();
    replica.state.phase = Phase::CollectingLogs;
    assert_eq!(replica.state.view, 0);

    let effects = replica.handle_event(Event::RepairViewTimeout);

    assert_eq!(effects.len(), 1, "expected exactly one effect");
    match &effects[0] {
        Effect::Broadcast(Message::LogMsg { from, view, .. }) => {
            assert_eq!(from, "r0");
            assert_eq!(*view, 1);
        }
        other => panic!("unexpected effect: {other:?}"),
    }
    assert_eq!(replica.state.view, 1, "view must increment");
}
#[test]
fn test_view_change_guard_fails_wrong_phase() {
    let mut replica = make_replica();

    let effects = replica.handle_event(Event::RepairViewTimeout);
    assert!(effects.is_empty(), "must not fire when not CollectingLogs");
}

#[test]
fn test_full_repair_protocol() {
    let mut leader = make_replica();
    leader.state.phase = Phase::CollectingLogs;
    leader.state.in_repair = true;
    leader.state.kv_size = 3;

    let byz_quorum = leader.config.byz_quorum;
    let view = leader.state.view;
    let round = leader.state.round;
    let mut step1_effects = vec![];
    for i in 0..byz_quorum {
        let msg = Message::LogMsg {
            from: format!("r{i}"),
            view,
            round,
            log_hash: [0u8; 32],
        };
        let effects = leader.process_message(msg);
        step1_effects = effects;
    }
    let repair_history_effect = step1_effects.iter().find(|e| {
        matches!(e, Effect::Broadcast(Message::RepairHistory { .. }))
    });
    assert!(
        repair_history_effect.is_some(),
        "leader must broadcast RepairHistory after byz_quorum LogMsgs; got: {step1_effects:?}"
    );
    assert_eq!(
        leader.state.phase,
        Phase::PreparePhase,
        "leader must move to PreparePhase"
    );
    let history_hash = leader.state.proposed_history_hash;
    let hist_msg = Message::RepairHistory {
        from: "r0".to_string(),
        view,
        round,
        history_hash,
    };
    let step2_effects = leader.process_message(hist_msg);
    let has_prepare = step2_effects.iter().any(|e| {
        matches!(e, Effect::Broadcast(Message::RepairPrepare { history_hash: h, .. })
            if *h == history_hash)
    });
    assert!(
        has_prepare,
        "leader must broadcast RepairPrepare after receiving RepairHistory; got: {step2_effects:?}"
    );
    let mut step3_effects = vec![];
    for i in 0..byz_quorum {
        let msg = Message::RepairPrepare {
            from: format!("r{i}"),
            view,
            round,
            history_hash,
        };
        let effects = leader.process_message(msg);
        step3_effects = effects;
    }

    let has_commit = step3_effects.iter().any(|e| {
        matches!(e, Effect::Broadcast(Message::RepairCommit { history_hash: h, .. })
            if *h == history_hash)
    });
    assert!(
        has_commit,
        "must broadcast RepairCommit after byz_quorum RepairPrepares; got: {step3_effects:?}"
    );
    assert_eq!(leader.state.phase, Phase::CommitPhase);
    let mut step4_effects = vec![];
    for i in 0..byz_quorum {
        let msg = Message::RepairCommit {
            from: format!("r{i}"),
            view,
            round,
            history_hash,
        };
        let effects = leader.process_message(msg);
        step4_effects = effects;
    }

    let has_repair_done = step4_effects.iter().any(|e| {
        matches!(e, Effect::Broadcast(Message::RepairDone { round: r, history_hash: h, .. })
            if *r == round && *h == history_hash)
    });
    assert!(
        has_repair_done,
        "must broadcast RepairDone after byz_quorum RepairCommits; got: {step4_effects:?}"
    );

    let has_committed_reply = step4_effects
        .iter()
        .any(|e| matches!(e, Effect::Broadcast(Message::CommittedReply { .. })));
    assert!(has_committed_reply, "must broadcast CommittedReply after apply_repair");

    assert_eq!(
        leader.state.phase,
        Phase::Speculative,
        "phase must return to Speculative"
    );
    assert_eq!(leader.state.round, 1, "round must increment after repair");
    assert!(!leader.state.in_repair, "in_repair must be false after repair");
    assert_eq!(leader.state.proposed_history_hash, 0);
}
#[test]
fn test_broadcast_history_only_for_leader() {
    let mut non_leader = make_non_leader_replica();
    non_leader.state.phase = Phase::CollectingLogs;
    non_leader.state.in_repair = true;

    let byz_quorum = non_leader.config.byz_quorum;
    let view = non_leader.state.view;
    let round = non_leader.state.round;

    let mut all_effects = vec![];
    for i in 0..byz_quorum {
        let msg = Message::LogMsg {
            from: format!("r{i}"),
            view,
            round,
            log_hash: [0u8; 32],
        };
        all_effects.extend(non_leader.process_message(msg));
    }

    let has_repair_history = all_effects
        .iter()
        .any(|e| matches!(e, Effect::Broadcast(Message::RepairHistory { .. })));
    assert!(
        !has_repair_history,
        "non-leader must not broadcast RepairHistory"
    );
}
#[test]
fn test_repair_done_catchup() {
    let mut replica = make_non_leader_replica();
    let view = replica.state.view;
    let round = replica.state.round;
    let f_plus_1 = replica.config.f_plus_1;
    replica.state.phase = Phase::PreparePhase;
    replica.state.in_repair = true;
    replica.state.proposed_history_hash = 5;
    replica.state.phase = Phase::CommitPhase;

    let hist_msg = Message::RepairHistory {
        from: "r0".to_string(),
        view,
        round,
        history_hash: 5,
    };
    replica.state.repair_history_msgs.insert(hist_msg);
    let mut final_effects = vec![];
    for i in 0..f_plus_1 {
        let msg = Message::RepairDone {
            from: format!("r{i}"),
            view,
            round,
            history_hash: 5,
        };
        let effects = replica.process_message(msg);
        final_effects = effects;
    }
    assert!(
        final_effects.is_empty(),
        "catchup must produce no effects; got: {final_effects:?}"
    );
    assert_eq!(replica.state.phase, Phase::Speculative);
    assert_eq!(replica.state.round, 1);
    assert!(!replica.state.in_repair);
}
