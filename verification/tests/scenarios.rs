//! Replicas from their initial state on.

use raspen::{Config, Effect, Message, Phase, Replica};

fn make_replica(config: Config, node_id: &str) -> Replica {
    Replica::new(config, node_id.to_string(), "db").expect("Replica::new")
}

/// All broadcast messages among the effects.
fn collect_broadcasts(effects: &[Effect]) -> Vec<Message> {
    effects
        .iter()
        .filter_map(|e| if let Effect::Broadcast(m) = e { Some(m.clone()) } else { None })
        .collect()
}

#[test]
fn mbt_init_state() {
    let config = Config::for_test(6, 1, 1);
    let replica = make_replica(config, "r0");
    assert_eq!(replica.state.phase, Phase::Speculative);
    assert_eq!(replica.state.kv_size, 0);
    assert_eq!(replica.state.round, 0);
    assert_eq!(replica.state.view, 0);
    assert_eq!(replica.state.start_idx, 0);
    assert_eq!(replica.state.kv_store.size(), 0);
    assert_eq!(replica.state.chkpt_idx, 0);
    assert_eq!(replica.state.chkpt_hash, [0u8; 32]);
    assert_eq!(replica.state.eta_star, 0);
    assert!(!replica.state.in_repair);
    assert_eq!(replica.state.proposed_history_hash, 0);
}

#[test]
fn mbt_can_speculate() {
    let config = Config::for_test(6, 1, 1);
    let mut replica = make_replica(config, "n0");
    assert_eq!(replica.state.kv_size, 0, "pre: kv_size must be 0 on init");

    let speculate = Message::Speculate {
        eta: 0,
        op_hash: [0u8; 32],
        from_seq: "seq".to_string(),
        round: 0,
    };
    let effects = replica.process_message(speculate);

    assert!(replica.state.kv_size > 0, "kv_size must be > 0 after one speculate step");
    assert!(
        effects
            .iter()
            .any(|e| matches!(e, Effect::Broadcast(Message::SpecReply { log_idx: 0, .. }))),
        "should broadcast SpecReply with log_idx=0; got: {effects:?}"
    );
}

/// Three rounds of message delivery among six replicas.
#[test]
fn mbt_can_take_steps() {
    let node_ids = ["r0", "r1", "r2", "r3", "r4", "r5"];
    let mut replicas: Vec<Replica> =
        node_ids.iter().map(|id| make_replica(Config::for_test(6, 1, 1), id)).collect();

    let speculate = Message::Speculate {
        eta: 0,
        op_hash: [0u8; 32],
        from_seq: "seq".to_string(),
        round: 0,
    };

    let mut step1_effects: Vec<Effect> = Vec::new();
    for replica in replicas.iter_mut() {
        step1_effects.extend(replica.process_message(speculate.clone()));
    }
    assert!(!step1_effects.is_empty(), "Step 1 must produce effects; got none");

    let step1_msgs = collect_broadcasts(&step1_effects);
    let mut step2_effects: Vec<Effect> = Vec::new();
    for msg in &step1_msgs {
        for replica in replicas.iter_mut() {
            step2_effects.extend(replica.process_message(msg.clone()));
        }
    }

    let step2_msgs = collect_broadcasts(&step2_effects);
    for msg in &step2_msgs {
        for replica in replicas.iter_mut() {
            let _ = replica.process_message(msg.clone());
        }
    }

    for replica in &replicas {
        assert!(replica.state.kv_size as i64 >= 0, "kv_size must be non-negative");
        assert!(replica.state.round as i64 >= 0, "round must be non-negative");
    }
    assert!(
        replicas.iter().any(|r| r.state.kv_size > 0),
        "At least one replica must have kv_size > 0 after 3 steps"
    );
}
