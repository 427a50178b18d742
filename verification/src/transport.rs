//! The network, as the protocol sees it.

use vstd::prelude::*;

use crate::effect::{effect_values, Effect, EffectView};
use crate::message::{Message, NodeId};

verus! {

/// Carries out effects.
pub trait Transport: Send + Sized + 'static {
    /// What has been sent so far, in order. Transports in verified code define it.
    open spec fn sent(&self) -> Seq<EffectView> {
        arbitrary()
    }

    /// Sends `msg` to all replicas.
    fn broadcast(&mut self, msg: Message)
        ensures
            final(self).sent() == old(self).sent().push(EffectView::Broadcast(msg@)),
    ;

    /// Sends `message` to the replica `to`.
    fn send(&mut self, to: NodeId, message: Message)
        ensures
            final(self).sent() == old(self).sent().push(
                (EffectView::Send { to: to@, message: message@ }),
            ),
    ;

    /// Carries out the effects, all of them, each once and in order.
    fn execute(&mut self, effects: Vec<Effect>)
        ensures
            final(self).sent() == old(self).sent() + effect_values(effects@),
    {
        let ghost all = effect_values(effects@);
        let mut i: usize = 0;
        assert(self.sent() =~= old(self).sent() + all.take(0));
        while i < effects.len()
            invariant
                i <= effects@.len(),
                all == effect_values(effects@),
                self.sent() == old(self).sent() + all.take(i as int),
            decreases effects@.len() - i,
        {
            match &effects[i] {
                Effect::Broadcast(msg) => {
                    self.broadcast(msg.clone());
                },
                Effect::Send { to, message } => {
                    self.send(to.clone(), message.clone());
                },
            }
            assert(all.take(i + 1) =~= all.take(i as int).push(effects@[i as int]@));
            assert(self.sent() =~= old(self).sent() + all.take(i + 1));
            i = i + 1;
        }
        assert(all.take(i as int) =~= all);
    }
}

} // verus!
