//! The sequencer.

use raspen::{EtaAssigner, Message, Sequencer};

#[test]
fn test_submit_increments_eta_monotonically() {
    let mut seq = Sequencer::new();

    let op1 = [0x01u8; 32];
    let op2 = [0x02u8; 32];

    let (eta1, msg1) = seq.submit(op1);
    let (eta2, msg2) = seq.submit(op2);

    assert_eq!(eta2, eta1 + 1, "second ETA must equal first ETA + 1");

    match msg1 {
        Message::Speculate { eta, .. } => assert_eq!(eta, eta1),
        other => panic!("expected Speculate, got {other:?}"),
    }
    match msg2 {
        Message::Speculate { eta, .. } => assert_eq!(eta, eta2),
        other => panic!("expected Speculate, got {other:?}"),
    }
}

#[test]
fn test_subscribe_receives_speculate() {
    let mut seq = Sequencer::new();
    let (eta, msg) = seq.submit([0xAAu8; 32]);

    assert!(matches!(msg, Message::Speculate { .. }));
    if let Message::Speculate { eta: received_eta, op_hash, .. } = msg {
        assert_eq!(received_eta, eta);
        assert_eq!(op_hash, [0xAAu8; 32]);
    }
}

#[test]
fn requests_are_signed_by_the_sequencer() {
    let mut seq = Sequencer::new();
    let (eta, msg) = seq.submit([7u8; 32]);
    assert_eq!(eta, 0);
    assert_eq!(
        msg,
        Message::Speculate {
            from_seq: "sequencer".to_string(),
            round: 0,
            op_hash: [7u8; 32],
            eta: 0,
        }
    );
}

#[test]
fn counter_gives_out_consecutive_numbers() {
    let mut eta = EtaAssigner::default();
    let given: Vec<u64> = (0..4).map(|_| eta.next()).collect();
    assert_eq!(given, vec![0, 1, 2, 3]);
    assert_eq!(EtaAssigner::new().next(), 0);
}
