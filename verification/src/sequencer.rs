//! The sequencer, which orders client requests.

use vstd::prelude::*;
use vstd::string::*;

use crate::eta::EtaAssigner;
use crate::message::{Eta, Message, MessageView};

verus! {

/// The sequencer: it gives each request a sequence number and makes the SPECULATE
/// message that starts its execution at every replica.
#[derive(Debug)]
pub struct Sequencer {
    eta: EtaAssigner,
}

impl View for Sequencer {
    type V = u64;

    /// The sequence number of the next request.
    closed spec fn view(&self) -> u64 {
        self.eta@
    }
}

/// The name that the sequencer signs with.
pub open spec fn sequencer_name() -> Seq<char> {
    "sequencer"@
}

impl Sequencer {
    /// A sequencer that starts at zero.
    pub fn new() -> (r: Self)
        ensures
            r@ == 0,
    {
        Sequencer { eta: EtaAssigner::new() }
    }

    /// Gives the next sequence number to the operation. Returns the number and
    /// the SPECULATE message to broadcast.
    pub fn submit(&mut self, op_hash: crate::message::Hash) -> (r: (Eta, Message))
        ensures
            r.0 == old(self)@,
            r.1@ == (MessageView::Speculate {
                from_seq: sequencer_name(),
                round: 0,
                op_hash: op_hash@,
                eta: old(self)@,
            }),
            final(self)@ == (old(self)@ + 1) % 0x1_0000_0000_0000_0000,
    {
        let eta: Eta = self.eta.next();
        let mut from_seq: String = String::new();
        from_seq.append("sequencer");
        assert(from_seq@ =~= sequencer_name());
        (eta, Message::Speculate { from_seq, round: 0, op_hash, eta })
    }
}

} // verus!
