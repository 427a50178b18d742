//! The interface between the protocol and whoever drives it.

use vstd::prelude::*;

use crate::effect::{effect_values, Effect, EffectView};
use crate::event::Event;
use crate::message::{Message, MessageView};
use crate::replica::{event_fits, event_outcome, message_fits, message_outcome, Replica};

verus! {

/// A synchronous protocol state machine.
///
/// What a machine does is up to it: it says in `message_step` and `event_step`
/// which steps it may take, and from where in `message_ready` and `event_ready`.
/// A machine that says nothing takes everything, and may do anything.
pub trait StateMachine: Send + Sized + 'static {
    /// Whether the machine can take the message.
    open spec fn message_ready(&self, m: MessageView) -> bool {
        true
    }

    /// Whether the message may lead to `next`, with the given effects.
    open spec fn message_step(&self, m: MessageView, next: Self, effects: Seq<EffectView>) -> bool {
        true
    }

    /// Whether the machine can take the event.
    open spec fn event_ready(&self, e: Event) -> bool {
        true
    }

    /// Whether the event may lead to `next`, with the given effects.
    open spec fn event_step(&self, e: Event, next: Self, effects: Seq<EffectView>) -> bool {
        true
    }

    /// Handles a message.
    #[must_use]
    fn process_message(&mut self, msg: Message) -> (r: Vec<Effect>)
        requires
            old(self).message_ready(msg@),
        ensures
            old(self).message_step(msg@, *final(self), effect_values(r@)),
    ;

    /// Handles a timer event.
    #[must_use]
    fn handle_event(&mut self, event: Event) -> (r: Vec<Effect>)
        requires
            old(self).event_ready(event),
        ensures
            old(self).event_step(event, *final(self), effect_values(r@)),
    ;
}

impl StateMachine for Replica {
    open spec fn message_ready(&self, m: MessageView) -> bool {
        message_fits(self.config@, self.state@, m)
    }

    open spec fn message_step(
        &self,
        m: MessageView,
        next: Self,
        effects: Seq<EffectView>,
    ) -> bool {
        let o = message_outcome(self.config@, self.state@, m);
        next.config == self.config && next.state@ == o.state && effects == o.effects
    }

    open spec fn event_ready(&self, e: Event) -> bool {
        event_fits(self.state@, e)
    }

    open spec fn event_step(&self, e: Event, next: Self, effects: Seq<EffectView>) -> bool {
        let o = event_outcome(self.state@, e);
        next.config == self.config && next.state@ == o.state && effects == o.effects
    }

    fn process_message(&mut self, msg: Message) -> (r: Vec<Effect>) {
        Replica::process_message(self, msg)
    }

    fn handle_event(&mut self, event: Event) -> (r: Vec<Effect>) {
        Replica::handle_event(self, event)
    }
}

/// A state machine that can refuse an input that it cannot take.
pub trait CheckedMachine: StateMachine {
    /// Handles a message, if the machine can take it.
    #[must_use]
    fn try_message(&mut self, msg: Message) -> (r: Option<Vec<Effect>>)
        ensures
            match r {
                Some(effects) => old(self).message_ready(msg@) && old(self).message_step(
                    msg@,
                    *final(self),
                    effect_values(effects@),
                ),
                None => !old(self).message_ready(msg@),
            },
    ;

    /// Handles a timer event, if the machine can take it.
    #[must_use]
    fn try_event(&mut self, event: Event) -> (r: Option<Vec<Effect>>)
        ensures
            match r {
                Some(effects) => old(self).event_ready(event) && old(self).event_step(
                    event,
                    *final(self),
                    effect_values(effects@),
                ),
                None => !old(self).event_ready(event),
            },
    ;
}

impl CheckedMachine for Replica {
    fn try_message(&mut self, msg: Message) -> (r: Option<Vec<Effect>>) {
        self.try_process_message(msg)
    }

    fn try_event(&mut self, event: Event) -> (r: Option<Vec<Effect>>) {
        self.try_handle_event(event)
    }
}

} // verus!
