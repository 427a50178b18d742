//! What holds of every replica, on examples.

use raspen::fast_path::{append_entry, handle_speculate, spec_reply};
use raspen::alignment::{finish_alignment, synthetic_entries};
use raspen::repair::{handle_apply_repair, handle_repair_done_catchup};
use raspen::repair_entry::handle_enter_repair;
use raspen::{Config, Effect, Event, KvEntry, KvStoreOps, Message, Phase, Replica};

fn replica(node_id: &str) -> Replica {
    Replica::new(Config::spec_default(), node_id.to_string(), "db").unwrap()
}

fn speculate(eta: u64) -> Message {
    Message::Speculate { eta, op_hash: [eta as u8; 32], from_seq: "seq".to_string(), round: 0 }
}

fn hex(bytes: &[u8]) -> String {
    bytes.iter().map(|b| format!("{b:02x}")).collect()
}

const GENESIS: &str = "eb142b0cae0baa72a767ebc0823d1be94e14c5bfc52d8e417fc4302fceb6240c";
const SECOND: &str = "b7dabc1fceab170d8d2bc4586c48319c0d7c6ecfe5b6f20de0b20e0ceed31759";

#[test]
fn entries_form_a_hash_chain() {
    let mut r = replica("n0");
    let mut replies = vec![];
    for k in 0..3 {
        replies.extend(handle_speculate(&mut r, k));
    }
    let hashes: Vec<String> = replies
        .iter()
        .map(|e| match e {
            Effect::Broadcast(Message::SpecReply { log_hash, .. }) => hex(log_hash),
            other => panic!("unexpected effect: {other:?}"),
        })
        .collect();
    assert_eq!(hashes[0], GENESIS);
    assert_eq!(hashes[1], SECOND);
    for k in 0..3u64 {
        let e = r.state.kv_store.get(k).unwrap().unwrap();
        assert_eq!(e.op_hash, k);
        assert!(e.result.is_empty());
        let prev = if k == 0 { "00".repeat(32) } else { hashes[k as usize - 1].clone() };
        assert_eq!(hex(&e.prev_hash), prev);
        assert_eq!(hex(&r.state.kv_store.hash_at(k).unwrap()), hashes[k as usize]);
    }
}

#[test]
fn an_entry_without_a_predecessor_is_chained_to_zeros() {
    let mut r = replica("n0");
    handle_speculate(&mut r, 5);
    let e = r.state.kv_store.get(5).unwrap().unwrap();
    assert_eq!(e, KvEntry { op_hash: 5, result: vec![], prev_hash: [0; 32] });
    assert_eq!(r.state.kv_size, 1);
}

#[test]
fn parts_of_an_execution() {
    let mut r = replica("n0");
    r.state.round = 4;
    append_entry(&mut r, 0, [7; 32]);
    assert_eq!(r.state.kv_size, 1);
    assert_eq!(r.state.kv_store.top_hash(), [7; 32]);
    let effects = spec_reply(&r, 0, [8; 32]);
    assert_eq!(
        effects,
        vec![Effect::Broadcast(Message::SpecReply {
            from: "n0".to_string(),
            round: 4,
            log_idx: 0,
            log_hash: [8; 32],
        })]
    );
}

#[test]
fn replicas_that_execute_as_many_requests_have_the_same_log() {
    let mut a = replica("a");
    let mut b = replica("b");
    for k in 0..5 {
        let _ = a.process_message(speculate(k));
        let _ = b.process_message(speculate(100 - k));
    }
    assert_eq!(a.state.kv_size, 5);
    for k in 0..5 {
        assert_eq!(a.state.kv_store.get(k), b.state.kv_store.get(k));
    }
    assert_eq!(a.state.kv_store.top_hash(), b.state.kv_store.top_hash());
}

#[test]
fn largest_sequence_number_is_sent_along() {
    let mut r = replica("n0");
    for (eta, expected) in [(3, 3), (9, 9), (5, 9)] {
        let effects = r.process_message(speculate(eta));
        assert_eq!(r.state.eta_star, expected);
        assert!(effects.iter().any(|e| matches!(e,
            Effect::Broadcast(Message::Sync { eta_star, .. }) if *eta_star == expected)));
    }
    r.state.phase = Phase::Aligning;
    assert!(r.process_message(speculate(20)).is_empty());
    assert_eq!(r.state.eta_star, 20);
    assert_eq!(r.state.kv_size, 3);
}

#[test]
fn largest_sequence_number_starts_over_with_the_round() {
    let mut r = replica("n0");
    let _ = r.process_message(speculate(9));
    handle_repair_done_catchup(&mut r, 0);
    assert_eq!((r.state.round, r.state.eta_star), (1, 0));
    let _ = r.process_message(speculate(4));
    assert_eq!(r.state.eta_star, 4);
    handle_apply_repair(&mut r, 2);
    assert_eq!((r.state.round, r.state.eta_star), (2, 0));
}

#[test]
fn replies_are_kept() {
    let mut r = replica("n0");
    let reply =
        Message::SpecReply { from: "n1".to_string(), round: 0, log_idx: 0, log_hash: [1; 32] };
    assert!(r.process_message(reply.clone()).is_empty());
    assert!(r.process_message(reply.clone()).is_empty());
    assert_eq!(r.state.ack_msgs.len(), 1);
    assert!(r.state.ack_msgs.contains(&reply));
}

#[test]
fn a_proof_is_passed_on() {
    for proof in [
        Message::TimeoutProof { round: 0, log_idx: 4 },
        Message::ConflictProof { round: 0, log_idx: 4 },
    ] {
        let mut r = replica("n0");
        let effects = r.process_message(proof.clone());
        let log = Message::LogMsg { from: "n0".to_string(), view: 0, round: 0, log_hash: [0; 32] };
        assert_eq!(effects, vec![Effect::Broadcast(proof.clone()), Effect::Broadcast(log)]);
        assert!(r.state.in_repair);
        assert!(r.process_message(proof).is_empty());
    }
}

#[test]
fn entering_a_repair_sends_the_log() {
    let mut r = replica("n0");
    r.state.view = 3;
    handle_speculate(&mut r, 0);
    handle_speculate(&mut r, 1);
    let effects = handle_enter_repair(&mut r, 0);
    match effects.as_slice() {
        [Effect::Broadcast(Message::LogMsg { from, view: 3, round: 0, log_hash })] => {
            assert_eq!(from, "n0");
            assert_eq!(hex(log_hash), GENESIS);
        }
        other => panic!("unexpected effects: {other:?}"),
    }
}

#[test]
fn a_conflict_is_proved_and_announced() {
    let mut r = replica("n0");
    let _ = r.process_message(speculate(0));
    let mut last = vec![];
    for i in 1..6 {
        last = r.process_message(Message::Sync {
            from: format!("n{i}"),
            round: 0,
            log_idx: 0,
            log_hash: if i < 4 { [0; 32] } else { [9; 32] },
            eta_star: 0,
        });
        assert_eq!(r.state.in_repair, i == 5);
    }
    assert!(last
        .contains(&Effect::Broadcast(Message::ConflictProof { round: 0, log_idx: 0 })));
    assert!(last.iter().any(|e| matches!(e, Effect::Broadcast(Message::LogMsg { .. }))));
    assert_eq!(r.state.phase, Phase::CollectingLogs);
}

#[test]
fn a_state_request_is_answered_in_every_phase() {
    for phase in [
        Phase::Speculative,
        Phase::Aligning,
        Phase::CollectingLogs,
        Phase::PreparePhase,
        Phase::CommitPhase,
    ] {
        let mut r = replica("n0");
        r.state.phase = phase;
        r.state.in_repair = phase.is_repairing();
        r.state.chkpt_idx = 6;
        r.state.chkpt_hash = [6; 32];
        let effects =
            r.process_message(Message::StateRequest { from: "n4".to_string(), chkpt_idx: 1 });
        assert_eq!(
            effects,
            vec![Effect::Send {
                to: "n4".to_string(),
                message: Message::StateReply {
                    from: "n0".to_string(),
                    chkpt_idx: 6,
                    chkpt_hash: [6; 32],
                },
            }]
        );
    }
}

#[test]
fn recovery_takes_the_digest_of_the_last_rebuilt_entry() {
    let mut r = replica("n0");
    r.state.phase = Phase::Aligning;
    let effects = r.process_message(Message::StateReply {
        from: "n1".to_string(),
        chkpt_idx: 3,
        chkpt_hash: [0xEE; 32],
    });
    assert!(effects.is_empty());
    assert_eq!(
        hex(&r.state.chkpt_hash),
        "e850e2e38eff959ad1d80498c3df8197b4bea0e46064732079adfe95179d2f24"
    );
    assert_eq!(r.state.kv_store.top_hash(), [3; 32]);
    assert_eq!((r.state.kv_size, r.state.start_idx, r.state.chkpt_idx), (4, 3, 3));
}

#[test]
fn parts_of_a_recovery() {
    let entries = synthetic_entries(300);
    assert_eq!(entries.len(), 300);
    assert_eq!(entries[258].0, 258);
    assert_eq!(entries[258].1, KvEntry { op_hash: 258, result: vec![], prev_hash: [2; 32] });
    let mut r = replica("n0");
    r.state.phase = Phase::Aligning;
    finish_alignment(&mut r, 7, [5; 32]);
    assert_eq!(r.state.phase, Phase::Speculative);
    assert_eq!((r.state.kv_size, r.state.start_idx, r.state.chkpt_idx), (8, 7, 7));
    assert_eq!(r.state.chkpt_hash, [5; 32]);
}

#[test]
fn a_repair_rebuilds_the_log() {
    let mut r = replica("n0");
    for k in 0..3 {
        handle_speculate(&mut r, k);
    }
    let effects = handle_apply_repair(&mut r, 5);
    assert_eq!(
        effects,
        vec![
            Effect::Broadcast(Message::RepairDone {
                from: "n0".to_string(),
                view: 0,
                round: 0,
                history_hash: 5,
            }),
            Effect::Broadcast(Message::CommittedReply {
                from: "n0".to_string(),
                round: 0,
                log_idx: 3,
            }),
        ]
    );
    assert_eq!((r.state.kv_size, r.state.start_idx, r.state.round), (5, 5, 1));
    assert_eq!(r.state.kv_store.size(), 5);
    assert_eq!(r.state.kv_store.top_hash(), [4; 32]);
}

#[test]
fn a_repair_of_length_zero_empties_the_log() {
    let mut r = replica("r0");
    handle_speculate(&mut r, 0);
    handle_apply_repair(&mut r, 0);
    assert_eq!((r.state.kv_size, r.state.start_idx, r.state.round), (0, 0, 1));
    assert_eq!(r.state.kv_store.size(), 0);
    assert_eq!(r.state.kv_store.get(0), Ok(None));
}

#[test]
fn catching_up_keeps_the_log() {
    let mut r = replica("n0");
    handle_speculate(&mut r, 0);
    handle_speculate(&mut r, 1);
    r.state.phase = Phase::CommitPhase;
    r.state.in_repair = true;
    r.state.proposed_history_hash = 8;
    assert!(handle_repair_done_catchup(&mut r, 0).is_empty());
    assert_eq!((r.state.kv_size, r.state.start_idx, r.state.round), (2, 2, 1));
    assert_eq!((r.state.phase, r.state.in_repair), (Phase::Speculative, false));
    assert_eq!(r.state.proposed_history_hash, 0);
}

#[test]
fn a_commit_vote_is_final() {
    let mut r = replica("r1");
    r.state.phase = Phase::CommitPhase;
    r.state.in_repair = true;
    r.state.proposed_history_hash = 5;
    for i in 0..6 {
        let effects = r.process_message(Message::RepairPrepare {
            from: format!("r{i}"),
            view: 0,
            round: 0,
            history_hash: 6,
        });
        assert!(effects.is_empty());
        let effects = r.process_message(Message::RepairHistory {
            from: format!("r{i}"),
            view: 0,
            round: 0,
            history_hash: 6,
        });
        assert!(effects.is_empty());
    }
    assert_eq!((r.state.phase, r.state.proposed_history_hash), (Phase::CommitPhase, 5));
}

#[test]
fn a_history_is_voted_on_in_two_phases() {
    let mut r = replica("r1");
    let _ = r.process_message(Message::TimeoutProof { round: 0, log_idx: 0 });
    let effects = r.process_message(Message::RepairHistory {
        from: "r0".to_string(),
        view: 0,
        round: 0,
        history_hash: 5,
    });
    let vote = Message::RepairPrepare {
        from: "r1".to_string(),
        view: 0,
        round: 0,
        history_hash: 5,
    };
    assert_eq!(effects, vec![Effect::Broadcast(vote)]);
    assert_eq!((r.state.phase, r.state.proposed_history_hash), (Phase::PreparePhase, 5));
}

#[test]
fn timers_change_no_more_than_the_view() {
    let mut r = replica("n0");
    handle_speculate(&mut r, 0);
    assert_eq!(r.handle_event(Event::SyncTimeout).len(), 1);
    assert_eq!(r.handle_event(Event::ChkptTimeout { log_idx: 3 }).len(), 1);
    assert!(r.handle_event(Event::RepairViewTimeout).is_empty());
    assert_eq!((r.state.view, r.state.round, r.state.kv_size), (0, 0, 1));
    let _ = r.process_message(Message::TimeoutProof { round: 0, log_idx: 0 });
    assert!(r.handle_event(Event::SyncTimeout).is_empty());
    assert!(r.handle_event(Event::ChkptTimeout { log_idx: 3 }).is_empty());
    assert_eq!(r.handle_event(Event::RepairViewTimeout).len(), 1);
    assert_eq!((r.state.view, r.state.phase), (1, Phase::CollectingLogs));
}

#[test]
fn the_last_of_several_entries_stays() {
    let mut store = raspen::MemKvStore::default();
    let entry = |op_hash| KvEntry { op_hash, result: vec![], prev_hash: [op_hash as u8; 32] };
    store.set_chkpt_idx(4);
    store.set_chkpt_hash([4; 32]);
    store.rebuild_from_entries(vec![(7, entry(1)), (2, entry(2)), (7, entry(3))]).unwrap();
    assert_eq!(store.size(), 8);
    assert_eq!(store.get(7).unwrap().unwrap().op_hash, 3);
    assert_eq!(store.top_hash(), [3; 32]);
    store.put(2, &entry(9)).unwrap();
    assert_eq!(store.top_hash(), [3; 32]);
    assert_eq!(store.size(), 8);
    assert_eq!((store.get_chkpt_idx(), store.get_chkpt_hash()), (4, [4; 32]));
    assert_eq!(store.hash_at(3), Err(raspen::StoreError::NoEntry { idx: 3 }));
}

#[test]
fn a_replica_without_room_is_left_alone() {
    let mut r = replica("n0");
    r.state.kv_size = u64::MAX;
    assert!(!r.has_room(&speculate(0)));
    assert!(r.try_process_message(speculate(3)).is_none());
    assert_eq!((r.state.kv_size, r.state.eta_star), (u64::MAX, 0));

    let mut r = replica("n0");
    let reply = |chkpt_idx| Message::StateReply {
        from: "n1".to_string(),
        chkpt_idx,
        chkpt_hash: [0; 32],
    };
    assert!(!r.has_room(&reply(u64::MAX)));
    assert!(r.has_room(&reply(u64::MAX - 1)));
    let effects = r.try_process_message(speculate(0)).unwrap();
    assert_eq!(effects.len(), 2);
    // The last round has no next one, but goes on otherwise.
    r.state.round = u64::MAX;
    assert!(!r.has_room(&speculate(1)));
    assert_eq!(r.try_process_message(speculate(1)).unwrap().len(), 2);
    assert_eq!(r.state.kv_size, 2);
    // A reply with the largest index counts only while aligning.
    assert_eq!(r.try_process_message(reply(u64::MAX)).unwrap().len(), 1);
    r.state.phase = Phase::Aligning;
    assert!(r.try_process_message(reply(u64::MAX)).is_none());
    assert_eq!((r.state.phase, r.state.kv_size), (Phase::Aligning, 2));
}

#[test]
fn the_last_round_cannot_be_left() {
    let mut r = replica("r1");
    r.state.round = u64::MAX;
    r.state.phase = Phase::CommitPhase;
    r.state.in_repair = true;
    r.state.proposed_history_hash = 4;
    for i in 0..5 {
        let effects = r.try_process_message(Message::RepairCommit {
            from: format!("r{i}"),
            view: 0,
            round: u64::MAX,
            history_hash: 4,
        });
        assert_eq!(effects, if i < 4 { Some(vec![]) } else { None });
    }
    assert_eq!((r.state.phase, r.state.round), (Phase::CommitPhase, u64::MAX));
    assert_eq!(r.state.repair_commit_msgs.len(), 5);
}

#[test]
fn the_last_view_cannot_be_left() {
    let mut r = replica("r1");
    r.state.view = u64::MAX;
    assert_eq!(r.try_handle_event(Event::RepairViewTimeout), Some(vec![]));
    assert_eq!(r.try_handle_event(Event::ChkptTimeout { log_idx: 1 }).unwrap().len(), 1);
    r.state.phase = Phase::CollectingLogs;
    assert_eq!(r.try_handle_event(Event::RepairViewTimeout), None);
    assert_eq!(r.try_handle_event(Event::SyncTimeout), Some(vec![]));
    r.state.view = 8;
    assert_eq!(r.try_handle_event(Event::RepairViewTimeout).unwrap().len(), 1);
    assert_eq!(r.state.view, 9);
}

#[test]
fn a_replica_works_over_the_store_it_is_given() {
    let mut store = raspen::MemKvStore::new();
    let entry = KvEntry { op_hash: 0, result: vec![1], prev_hash: [6; 32] };
    store.put(0, &entry).unwrap();
    let mut r =
        Replica::with_store(Config::spec_default(), "n0".to_string(), Box::new(store));
    assert_eq!(r.state.kv_store.get(0), Ok(Some(entry)));
    assert_eq!((r.state.kv_size, r.state.phase, r.state.round), (0, Phase::Speculative, 0));
    handle_speculate(&mut r, 0);
    assert_eq!(r.state.kv_store.top_hash(), [0; 32]);
}

#[test]
fn requests_are_executed_on_the_fast_path_only() {
    for phase in
        [Phase::Aligning, Phase::CollectingLogs, Phase::PreparePhase, Phase::CommitPhase]
    {
        let mut r = replica("n0");
        handle_speculate(&mut r, 0);
        r.state.phase = phase;
        r.state.in_repair = phase.is_repairing();
        assert!(r.process_message(speculate(1)).is_empty());
        assert_eq!(r.state.kv_size, 1);
        assert_eq!(r.state.kv_store.size(), 1);
    }
}

#[test]
fn messages_are_kept_by_kind() {
    let mut r = replica("n0");
    let from = || "n1".to_string();
    let vote = (0, 7, 3);
    let (view, round, history_hash) = vote;
    let messages = vec![
        Message::Sync { from: from(), round, log_idx: 1, log_hash: [0; 32], eta_star: 0 },
        Message::SpecReply { from: from(), round, log_idx: 1, log_hash: [0; 32] },
        Message::Checkpoint { from: from(), round, log_idx: 1, log_hash: [0; 32] },
        Message::TimeoutMsg { from: from(), round, log_idx: 1 },
        Message::LogMsg { from: from(), view, round, log_hash: [0; 32] },
        Message::RepairHistory { from: from(), view, round, history_hash },
        Message::RepairPrepare { from: from(), view, round, history_hash },
        Message::RepairCommit { from: from(), view, round, history_hash },
        Message::RepairDone { from: from(), view, round, history_hash },
    ];
    for _ in 0..2 {
        for m in &messages {
            assert!(r.process_message(m.clone()).is_empty());
        }
    }
    let s = &r.state;
    let sets = [
        &s.sync_msgs,
        &s.ack_msgs,
        &s.chkpt_msgs,
        &s.timeout_msgs,
        &s.log_msgs,
        &s.repair_history_msgs,
        &s.repair_prepare_msgs,
        &s.repair_commit_msgs,
        &s.repair_done_msgs,
    ];
    for (set, m) in sets.iter().zip(&messages) {
        assert_eq!(set.len(), 1);
        assert!(set.contains(m));
    }
    assert_eq!((s.node_id.as_str(), s.view, s.round), ("n0", 0, 0));
}

#[test]
fn a_repair_moves_the_round_by_one() {
    let mut r = replica("r0");
    for eta in 0..3 {
        let _ = r.process_message(speculate(eta));
    }
    let mut rounds = vec![];
    for round in 0..3 {
        let _ = r.process_message(Message::TimeoutProof { round, log_idx: 0 });
        assert!(r.state.in_repair);
        for i in 0..5 {
            let (from, view) = (format!("r{i}"), 0);
            let _ = r.process_message(Message::LogMsg { from, view, round, log_hash: [0; 32] });
        }
        assert_eq!((r.state.phase, r.state.proposed_history_hash), (Phase::PreparePhase, 5));
        for i in 0..5 {
            let (from, view, history_hash) = (format!("r{i}"), 0, 5);
            let _ = r.process_message(Message::RepairPrepare { from, view, round, history_hash });
        }
        for i in 0..5 {
            let (from, view, history_hash) = (format!("r{i}"), 0, 5);
            let _ = r.process_message(Message::RepairCommit { from, view, round, history_hash });
        }
        rounds.push(r.state.round);
        assert_eq!((r.state.phase, r.state.in_repair), (Phase::Speculative, false));
        assert_eq!((r.state.kv_size, r.state.kv_store.size()), (5, 5));
    }
    assert_eq!(rounds, vec![1, 2, 3]);
}
