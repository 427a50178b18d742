//! Who counts in a vote, and who leads.

use raspen::alignment::{can_enter_align, on_receive_checkpoint};
use raspen::checkpoint::{can_form_checkpoint, handle_form_checkpoint};
use raspen::fast_path::handle_speculate;
use raspen::quorum::{Ballot, MessageSet};
use raspen::repair::{can_broadcast_history, can_repair_done_catchup, can_repair_prepare};
use raspen::repair_entry::can_conflict_proof;
use raspen::{Config, Message, Phase, Replica};

fn replica(node_id: &str) -> Replica {
    Replica::new(Config::spec_default(), node_id.to_string(), "db").unwrap()
}

fn sync(from: &str, log_hash: u8, eta_star: u64) -> Message {
    Message::Sync { from: from.to_string(), round: 0, log_idx: 0, log_hash: [log_hash; 32], eta_star }
}

fn checkpoint(from: &str, log_hash: u8) -> Message {
    Message::Checkpoint { from: from.to_string(), round: 0, log_idx: 0, log_hash: [log_hash; 32] }
}

#[test]
fn a_message_is_kept_once() {
    let mut set = MessageSet::new();
    assert!(set.insert(sync("a", 0, 0)));
    assert!(!set.insert(sync("a", 0, 0)));
    assert!(set.insert(sync("a", 1, 0)));
    assert_eq!(set.len(), 2);
    assert!(set.contains(&sync("a", 1, 0)));
    assert!(!set.contains(&sync("b", 1, 0)));
}

#[test]
fn a_sender_counts_once_in_a_ballot() {
    let mut set = MessageSet::new();
    set.insert(sync("a", 0, 0));
    set.insert(sync("a", 0, 1));
    set.insert(sync("a", 1, 0));
    set.insert(sync("b", 1, 0));
    assert_eq!(set.count(&Ballot::Syncs { round: 0, log_idx: 0 }), 2);
    assert_eq!(set.count(&Ballot::Syncs { round: 1, log_idx: 0 }), 0);
    assert_eq!(set.count(&Ballot::MatchingSyncs { round: 0, log_idx: 0, log_hash: [1; 32] }), 2);
    assert_eq!(set.count(&Ballot::MatchingSyncs { round: 0, log_idx: 0, log_hash: [0; 32] }), 1);
    assert_eq!(set.count(&Ballot::Timeouts { round: 0, log_idx: 0 }), 0);
}

#[test]
fn the_earliest_proposal_wins() {
    let proposal = |view, history_hash| Message::RepairHistory {
        from: "r0".to_string(),
        view,
        round: 2,
        history_hash,
    };
    let mut set = MessageSet::new();
    set.insert(proposal(0, 9));
    set.insert(proposal(1, 5));
    set.insert(proposal(1, 6));
    let leader = "r0".to_string();
    assert_eq!(set.find_proposal(1, 2, Some(&leader)), Some(5));
    assert_eq!(set.find_proposal(1, 3, Some(&leader)), None);
    assert_eq!(set.find_proposal(1, 2, Some(&"r1".to_string())), None);
    assert_eq!(set.find_proposal(1, 2, None), None);
}

#[test]
fn one_replica_cannot_form_a_checkpoint_alone() {
    let mut r = replica("n0");
    handle_speculate(&mut r, 0);
    for eta_star in 0..10 {
        r.state.sync_msgs.insert(sync("n1", 0, eta_star));
    }
    assert_eq!(can_form_checkpoint(&r), None);
    for from in ["n2", "n3", "n4", "n5"] {
        r.state.sync_msgs.insert(sync(from, 0, 0));
    }
    assert_eq!(can_form_checkpoint(&r), Some(0));
}

#[test]
fn one_replica_cannot_force_an_alignment_alone() {
    let mut r = replica("n0");
    for log_hash in 0..10 {
        r.state.chkpt_msgs.insert(checkpoint("n1", log_hash));
    }
    assert_eq!(can_enter_align(&r), None);
    r.state.chkpt_msgs.insert(checkpoint("n2", 0));
    assert_eq!(can_enter_align(&r), Some(0));
}

#[test]
fn one_replica_cannot_prove_a_conflict_alone() {
    let mut r = replica("n0");
    handle_speculate(&mut r, 0);
    for log_hash in 0..10 {
        r.state.sync_msgs.insert(sync("n1", log_hash, 0));
    }
    assert_eq!(can_conflict_proof(&r), None);
    for from in ["n2", "n3", "n4"] {
        r.state.sync_msgs.insert(sync(from, 0, 0));
    }
    assert_eq!(can_conflict_proof(&r), None);
    r.state.sync_msgs.insert(sync("n5", 1, 0));
    assert_eq!(can_conflict_proof(&r), Some(0));
    // A sixth SYNC that agrees makes a fast quorum after all.
    r.state.sync_msgs.insert(sync("n6", 0, 0));
    assert_eq!(can_conflict_proof(&r), None);
    assert_eq!(can_form_checkpoint(&r), Some(0));
}

#[test]
fn one_replica_cannot_end_a_repair_alone() {
    let mut r = replica("r1");
    r.state.phase = Phase::CommitPhase;
    r.state.in_repair = true;
    let done = |from: &str, history_hash| Message::RepairDone {
        from: from.to_string(),
        view: 0,
        round: 0,
        history_hash,
    };
    for history_hash in 0..10 {
        r.state.repair_done_msgs.insert(done("r2", history_hash));
    }
    r.state.repair_done_msgs.insert(done("r3", 5));
    // Enough replicas are done, but the history is not known.
    assert_eq!(can_repair_done_catchup(&r), None);
    r.state.repair_history_msgs.insert(Message::RepairHistory {
        from: "r0".to_string(),
        view: 0,
        round: 0,
        history_hash: 5,
    });
    assert_eq!(can_repair_done_catchup(&r), Some(0));
    r.state.phase = Phase::Speculative;
    assert_eq!(can_repair_done_catchup(&r), None);
}

#[test]
fn only_the_leader_is_followed() {
    let mut r = replica("r1");
    r.state.phase = Phase::CollectingLogs;
    let proposal = |from: &str, view, history_hash| Message::RepairHistory {
        from: from.to_string(),
        view,
        round: 0,
        history_hash,
    };
    r.state.repair_history_msgs.insert(proposal("r3", 0, 5));
    assert_eq!(can_repair_prepare(&r), None);
    for from in ["r2", "r4"] {
        r.state.repair_done_msgs.insert(Message::RepairDone {
            from: from.to_string(),
            view: 0,
            round: 0,
            history_hash: 5,
        });
    }
    assert_eq!(can_repair_done_catchup(&r), None);
    r.state.repair_history_msgs.insert(proposal("r0", 0, 6));
    assert_eq!(can_repair_prepare(&r), Some(6));
    assert_eq!(can_repair_done_catchup(&r), Some(0));
    r.state.view = 3;
    assert_eq!(can_repair_prepare(&r), None);
    r.state.repair_history_msgs.insert(proposal("r3", 3, 7));
    assert_eq!(can_repair_prepare(&r), Some(7));
}

#[test]
fn agreeing_checkpoints_do_not_align() {
    let mut r = replica("n0");
    handle_speculate(&mut r, 0);
    handle_form_checkpoint(&mut r, 0);
    for from in ["n1", "n2", "n3"] {
        assert!(on_receive_checkpoint(&mut r, &checkpoint(from, 0)).is_empty());
        assert_eq!(r.state.phase, Phase::Speculative);
    }
    assert_eq!(r.state.chkpt_msgs.len(), 3);
    // One that conflicts is not enough, two are.
    assert!(on_receive_checkpoint(&mut r, &checkpoint("n4", 9)).is_empty());
    assert_eq!(r.state.phase, Phase::Speculative);
    assert_eq!(on_receive_checkpoint(&mut r, &checkpoint("n5", 8)).len(), 1);
    assert_eq!(r.state.phase, Phase::Aligning);
}

#[test]
fn checkpoints_beyond_the_log_conflict() {
    let mut r = replica("n0");
    assert!(on_receive_checkpoint(&mut r, &checkpoint("n1", 0)).is_empty());
    assert_eq!(on_receive_checkpoint(&mut r, &checkpoint("n2", 0)).len(), 1);
    assert_eq!(r.state.phase, Phase::Aligning);
}

#[test]
fn the_history_is_the_number_of_logs() {
    let mut r = replica("r0");
    r.state.phase = Phase::CollectingLogs;
    for (i, log_hash) in [(0, 0), (0, 1), (1, 0), (2, 0), (3, 0)] {
        r.state.log_msgs.insert(Message::LogMsg {
            from: format!("r{i}"),
            view: 0,
            round: 0,
            log_hash: [log_hash; 32],
        });
    }
    assert_eq!(can_broadcast_history(&r), None);
    for i in 4..6 {
        r.state.log_msgs.insert(Message::LogMsg {
            from: format!("r{i}"),
            view: 0,
            round: 0,
            log_hash: [0; 32],
        });
    }
    assert_eq!(can_broadcast_history(&r), Some(6));
}

#[test]
fn replicas_lead_in_turn() {
    for view in 0..14u64 {
        let leaders: Vec<usize> = (0..6)
            .filter(|i| {
                let mut r = replica(&format!("r{i}"));
                r.state.view = view;
                r.is_leader()
            })
            .collect();
        assert_eq!(leaders, vec![(view % 6) as usize]);
    }
    let mut r = replica("r3");
    r.state.view = u64::MAX;
    assert!(r.is_leader());
    assert_eq!(r.leader(), Some(&"r3".to_string()));
    r.config.nodes_ordered.clear();
    assert!(!r.is_leader());
    assert_eq!(r.leader(), None);
}

#[test]
fn quorum_sizes_follow_from_the_parameters() {
    let c = Config::for_test(12, 3, 2);
    assert_eq!((c.n, c.f, c.p), (12, 3, 2));
    assert_eq!((c.fast_quorum, c.byz_quorum, c.f_plus_1), (10, 9, 4));
    let names: Vec<&str> = c.nodes_ordered.iter().map(|s| s.as_str()).collect();
    assert_eq!(
        names,
        vec!["r0", "r1", "r2", "r3", "r4", "r5", "r6", "r7", "r8", "r9", "r10", "r11"]
    );
    let d = Config::default();
    assert_eq!((d.n, d.f, d.p, d.fast_quorum, d.byz_quorum, d.f_plus_1), (6, 1, 1, 5, 5, 2));
    assert_eq!(d.clone().nodes_ordered, d.nodes_ordered);
}

#[test]
fn quorums_share_a_correct_replica() {
    let c = Config::spec_default();
    let members = |set: u32| (0..c.n).filter(|i| set & (1 << i) != 0).count();
    let sets: Vec<u32> = (0..1 << c.n).collect();
    for a in &sets {
        for b in &sets {
            for faulty in sets.iter().filter(|s| members(**s) <= c.f) {
                if members(*a) >= c.byz_quorum && members(*b) >= c.byz_quorum {
                    assert_ne!(a & b & !faulty, 0);
                }
                if members(*a) >= c.fast_quorum && members(*b) >= c.fast_quorum {
                    assert_ne!(a & b & !faulty, 0);
                }
                if members(*a) >= c.f_plus_1 {
                    assert_ne!(a & !faulty, 0);
                }
            }
        }
    }
}

#[test]
fn a_checkpoint_stays_out_of_reach() {
    let mut r = replica("n0");
    handle_speculate(&mut r, 0);
    // Two of the six replicas dissent, one more than may have diverged.
    r.state.sync_msgs.insert(sync("n0", 9, 0));
    r.state.sync_msgs.insert(sync("n1", 9, 0));
    for from in ["n2", "n3", "n4", "n5"] {
        r.state.sync_msgs.insert(sync(from, 0, 0));
        assert_eq!(can_form_checkpoint(&r), None);
    }
    assert_eq!(can_conflict_proof(&r), Some(0));
}
