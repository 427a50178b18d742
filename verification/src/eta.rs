//! The sequence number counter.

use vstd::prelude::*;

use crate::message::Eta;

verus! {

/// A counter that gives out sequence numbers, each one higher than the last. It
/// starts over after the highest one.
#[derive(Debug)]
pub struct EtaAssigner {
    next_eta: Eta,
}

impl View for EtaAssigner {
    type V = u64;

    /// The next number to be given out.
    closed spec fn view(&self) -> u64 {
        self.next_eta
    }
}

impl EtaAssigner {
    /// A counter at zero.
    pub fn new() -> (r: Self)
        ensures
            r@ == 0,
    {
        EtaAssigner { next_eta: 0 }
    }

    /// Gives out the current number and moves on to the next.
    pub fn next(&mut self) -> (r: Eta)
        ensures
            r == old(self)@,
            final(self)@ == (old(self)@ + 1) % 0x1_0000_0000_0000_0000,
    {
        let eta: Eta = self.next_eta;
        self.next_eta = eta.wrapping_add(1);
        eta
    }
}

impl Default for EtaAssigner {
    /// A counter at zero.
    fn default() -> (r: Self)
        ensures
            r@ == 0,
    {
        EtaAssigner::new()
    }
}

/// The sequence number of request `k`, where the first request is request zero.
pub open spec fn eta_at(k: nat) -> u64 {
    (k % 0x1_0000_0000_0000_0000) as u64
}

/// A counter that gives out the number of request `k` goes on to that of the
/// next request.
pub proof fn law_etas_follow_the_requests(k: nat)
    ensures
        eta_at(0) == 0,
        eta_at(k + 1) == (eta_at(k) + 1) % 0x1_0000_0000_0000_0000,
{
}

/// No two requests get the same number, unless the counter has started over in
/// between, and until then later requests get larger numbers.
pub proof fn law_etas_are_unique(i: nat, j: nat)
    requires
        i < j < i + 0x1_0000_0000_0000_0000,
    ensures
        eta_at(i) != eta_at(j),
        j < 0x1_0000_0000_0000_0000 ==> eta_at(i) < eta_at(j),
{
}

} // verus!
