//! The work of a node: inputs go to the state machine one after the other, and the
//! effects of each go to the transport before the next input is taken.

use vstd::prelude::*;

use crate::config::ConfigView;
use crate::effect::{effect_values, Effect, EffectView};
use crate::event::Event;
use crate::message::{Message, MessageView};
use crate::replica::{event_outcome, message_outcome, Replica};
use crate::state::{Outcome, StateView};
use crate::state_machine::{CheckedMachine, StateMachine};
use crate::transport::Transport;

verus! {

/// What a node is given to work on.
#[derive(Debug)]
pub enum ReplicaInput {
    /// A message from the network.
    Message(Message),
    /// A timer event.
    Event(Event),
}

/// The value of a [`ReplicaInput`].
pub enum InputView {
    Message(MessageView),
    Event(Event),
}

impl View for ReplicaInput {
    type V = InputView;

    open spec fn view(&self) -> InputView {
        match *self {
            ReplicaInput::Message(m) => InputView::Message(m@),
            ReplicaInput::Event(e) => InputView::Event(e),
        }
    }
}

impl Clone for ReplicaInput {
    /// A copy with the same value.
    fn clone(&self) -> (r: Self)
        ensures
            r@ == self@,
    {
        match self {
            ReplicaInput::Message(m) => ReplicaInput::Message(m.clone()),
            ReplicaInput::Event(e) => ReplicaInput::Event(*e),
        }
    }
}

/// The values of a list of inputs, in order.
pub open spec fn input_values(inputs: Seq<ReplicaInput>) -> Seq<InputView> {
    inputs.map_values(|i: ReplicaInput| i@)
}

/// Whether the machine can take the input.
pub open spec fn input_ready<S: StateMachine>(machine: S, input: InputView) -> bool {
    match input {
        InputView::Message(m) => machine.message_ready(m),
        InputView::Event(e) => machine.event_ready(e),
    }
}

/// Whether the input may lead to `next`, with the given effects.
pub open spec fn input_step<S: StateMachine>(
    machine: S,
    input: InputView,
    next: S,
    effects: Seq<EffectView>,
) -> bool {
    match input {
        InputView::Message(m) => machine.message_step(m, next, effects),
        InputView::Event(e) => machine.event_step(e, next, effects),
    }
}

/// Whether one input may lead from the machine and transport before to those
/// after: the machine makes one step, and exactly the effects of that step are
/// sent. A transport that is given nothing is left alone.
#[verifier::opaque]
pub open spec fn drives<S: StateMachine, T: Transport>(
    machine: S,
    transport: T,
    input: InputView,
    next: S,
    after: T,
) -> bool {
    exists|effects: Seq<EffectView>| #[trigger]
        input_step(machine, input, next, effects) && after.sent() == transport.sent() + effects && (
        effects.len() == 0 ==> after == transport)
}

/// Whether the inputs may lead from the machine and transport before to those
/// after: each input is taken once, in order, from where the one before it led.
pub open spec fn runs<S: StateMachine, T: Transport>(
    machine: S,
    transport: T,
    inputs: Seq<InputView>,
    next: S,
    after: T,
) -> bool
    decreases inputs.len(),
{
    if inputs.len() == 0 {
        next == machine && after == transport
    } else {
        exists|m: S, t: T|
            runs(machine, transport, inputs.drop_last(), m, t) && #[trigger] drives(
                m,
                t,
                inputs.last(),
                next,
                after,
            )
    }
}

/// Whether the machine can take the inputs one after the other, wherever each of
/// them leads.
pub open spec fn run_ready<S: StateMachine>(machine: S, inputs: Seq<InputView>) -> bool
    decreases inputs.len(),
{
    inputs.len() == 0 || (input_ready(machine, inputs[0]) && forall|
        next: S,
        effects: Seq<EffectView>,
    | #[trigger]
        input_step(machine, inputs[0], next, effects) ==> run_ready(next, inputs.drop_first()))
}

/// Hands one input to the machine. Returns the effects of its step, all of them,
/// as the batch to carry out, and nothing where there are none.
pub fn step<S: StateMachine>(machine: &mut S, input: ReplicaInput) -> (r: Option<Vec<Effect>>)
    requires
        input_ready(*old(machine), input@),
    ensures
        match r {
            Some(batch) => batch@.len() > 0 && input_step(
                *old(machine),
                input@,
                *final(machine),
                effect_values(batch@),
            ),
            None => input_step(*old(machine), input@, *final(machine), Seq::empty()),
        },
{
    let effects = match input {
        ReplicaInput::Message(msg) => machine.process_message(msg),
        ReplicaInput::Event(event) => machine.handle_event(event),
    };
    if effects.len() > 0 {
        Some(effects)
    } else {
        assert(effect_values(effects@) =~= Seq::empty());
        None
    }
}

/// Hands one input to the machine and carries out all its effects, in order: by one
/// call of `execute` with the whole batch, or by none where there are no effects.
pub fn drive<S: StateMachine, T: Transport>(
    machine: &mut S,
    transport: &mut T,
    input: ReplicaInput,
)
    requires
        input_ready(*old(machine), input@),
    ensures
        drives(*old(machine), *old(transport), input@, *final(machine), *final(transport)),
        ({
            ||| input_step(*old(machine), input@, *final(machine), Seq::empty())
                && *final(transport) == *old(transport)
            ||| exists|t: &mut T, batch: Vec<Effect>|
                *t == *old(transport) && *final(t) == *final(transport) && batch@.len() > 0
                    && input_step(
                    *old(machine),
                    input@,
                    *final(machine),
                    effect_values(batch@),
                ) && #[trigger] call_ensures(T::execute, (t, batch), ())
        }),
{
    reveal(drives);
    let ghost value = input@;
    match step(machine, input) {
        Some(batch) => {
            let ghost effects = effect_values(batch@);
            transport.execute(batch);
            assert(input_step(*old(machine), value, *machine, effects));
        },
        None => {
            assert(input_step(*old(machine), value, *machine, Seq::empty()));
            assert(transport.sent() =~= transport.sent() + Seq::empty());
        },
    }
}

/// The machines and transports of a run, from the first to the last.
pub open spec fn is_path<S, T>(
    machines: Seq<S>,
    transports: Seq<T>,
    steps: nat,
    machine: S,
    transport: T,
    next: S,
    after: T,
) -> bool {
    &&& machines.len() == steps + 1 && machines[0] == machine && machines[steps as int] == next
    &&& transports.len() == steps + 1 && transports[0] == transport && transports[steps as int]
        == after
}

/// Hands the inputs to the machine one after the other, and carries out the
/// effects of each before the next one is taken.
pub fn drive_all<S: StateMachine, T: Transport>(
    machine: &mut S,
    transport: &mut T,
    inputs: &Vec<ReplicaInput>,
)
    requires
        run_ready(*old(machine), input_values(inputs@)),
    ensures
        runs(
            *old(machine),
            *old(transport),
            input_values(inputs@),
            *final(machine),
            *final(transport),
        ),
        exists|ms: Seq<S>, ts: Seq<T>| #[trigger]
            is_path(
                ms,
                ts,
                inputs@.len(),
                *old(machine),
                *old(transport),
                *final(machine),
                *final(transport),
            ) && forall|k: int|
                0 <= k < inputs@.len() ==> ({
                    ||| input_step(ms[k], #[trigger] input_values(inputs@)[k], ms[k + 1], Seq::empty()) && ts[k + 1]
                        == ts[k]
                    ||| exists|t: &mut T, batch: Vec<Effect>|
                        *t == ts[k] && *final(t) == ts[k + 1] && batch@.len() > 0 && input_step(
                            ms[k],
                            input_values(inputs@)[k],
                            ms[k + 1],
                            effect_values(batch@),
                        ) && #[trigger] call_ensures(T::execute, (t, batch), ())
                }),
{
    let ghost all = input_values(inputs@);
    let mut i: usize = 0;
    assert(all.skip(0) =~= all);
    let ghost mut ms = seq![*machine];
    let ghost mut ts = seq![*transport];
    while i < inputs.len()
        invariant
            i <= inputs@.len(),
            all == input_values(inputs@),
            runs(*old(machine), *old(transport), all.take(i as int), *machine, *transport),
            run_ready(*machine, all.skip(i as int)),
            is_path(
                ms,
                ts,
                i as nat,
                *old(machine),
                *old(transport),
                *machine,
                *transport,
            ),
            forall|k: int|
                0 <= k < i ==> ({
                    ||| input_step(ms[k], #[trigger] all[k], ms[k + 1], Seq::empty()) && ts[k + 1]
                        == ts[k]
                    ||| exists|t: &mut T, batch: Vec<Effect>|
                        *t == ts[k] && *final(t) == ts[k + 1] && batch@.len() > 0 && input_step(
                            ms[k],
                            all[k],
                            ms[k + 1],
                            effect_values(batch@),
                        ) && #[trigger] call_ensures(T::execute, (t, batch), ())
                }),
        decreases inputs@.len() - i,
    {
        let ghost m = *machine;
        let ghost t = *transport;
        let ghost rest = all.skip(i as int);
        let ghost upto = all.take(i + 1);
        assert(rest[0] == all[i as int]);
        assert(rest.drop_first() =~= all.skip(i + 1));
        drive(machine, transport, inputs[i].clone());
        assert(run_ready(*machine, all.skip(i + 1))) by {
            reveal(drives);
        }
        assert(upto.drop_last() =~= all.take(i as int));
        assert(upto.last() == all[i as int]);
        assert(drives(m, t, upto.last(), *machine, *transport));
        proof {
            ms = ms.push(*machine);
            ts = ts.push(*transport);
        }
        i = i + 1;
    }
    assert(all.take(i as int) =~= all);
}

/// Hands one input to the machine, if it can take it, and carries out all its
/// effects. Returns whether it could.
#[must_use]
pub fn try_drive<S: CheckedMachine, T: Transport>(
    machine: &mut S,
    transport: &mut T,
    input: ReplicaInput,
) -> (r: bool)
    ensures
        r == input_ready(*old(machine), input@),
        r ==> drives(*old(machine), *old(transport), input@, *final(machine), *final(transport)),
        r ==> ({
            ||| input_step(*old(machine), input@, *final(machine), Seq::empty())
                && *final(transport) == *old(transport)
            ||| exists|t: &mut T, batch: Vec<Effect>|
                *t == *old(transport) && *final(t) == *final(transport) && batch@.len() > 0
                    && input_step(
                    *old(machine),
                    input@,
                    *final(machine),
                    effect_values(batch@),
                ) && #[trigger] call_ensures(T::execute, (t, batch), ())
        }),
        !r ==> *final(transport) == *old(transport),
{
    reveal(drives);
    let ghost value = input@;
    let result = match input {
        ReplicaInput::Message(msg) => machine.try_message(msg),
        ReplicaInput::Event(event) => machine.try_event(event),
    };
    match result {
        Some(batch) => {
            let ghost effects = effect_values(batch@);
            assert(input_step(*old(machine), value, *machine, effects));
            if batch.len() > 0 {
                transport.execute(batch);
            } else {
                assert(effects =~= Seq::empty());
                assert(transport.sent() =~= transport.sent() + effects);
            }
            true
        },
        None => false,
    }
}

/// What an input leads a replica to.
#[verifier::opaque]
pub open spec fn input_outcome(c: ConfigView, s: StateView, input: InputView) -> Outcome {
    match input {
        InputView::Message(m) => message_outcome(c, s, m),
        InputView::Event(e) => event_outcome(s, e),
    }
}

/// What a run of inputs leads a replica to.
pub open spec fn run_outcome(c: ConfigView, s: StateView, inputs: Seq<InputView>) -> Outcome
    decreases inputs.len(),
{
    if inputs.len() == 0 {
        Outcome::quiet(s)
    } else {
        let before = run_outcome(c, s, inputs.drop_last());
        let last = input_outcome(c, before.state, inputs.last());
        Outcome { state: last.state, effects: before.effects + last.effects }
    }
}

/// What one input does to a replica and a transport.
proof fn lemma_drives_a_replica<T: Transport>(
    replica: Replica,
    transport: T,
    input: InputView,
    next: Replica,
    after: T,
)
    requires
        drives(replica, transport, input, next, after),
    ensures
        next.config == replica.config,
        next.state@ == input_outcome(replica.config@, replica.state@, input).state,
        after.sent() == transport.sent() + input_outcome(
            replica.config@,
            replica.state@,
            input,
        ).effects,
{
    reveal(drives);
    reveal(input_outcome);
    let effects = choose|effects: Seq<EffectView>| #[trigger]
        input_step(replica, input, next, effects) && after.sent() == transport.sent() + effects && (
        effects.len() == 0 ==> after == transport);
    assert(input_step(replica, input, next, effects));
}

/// The inputs fix what a node does with a replica: the state that it ends in, and
/// everything that it sends, in order.
pub proof fn law_run_is_fixed_by_inputs<T: Transport>(
    replica: Replica,
    transport: T,
    inputs: Seq<InputView>,
    next: Replica,
    after: T,
)
    requires
        runs(replica, transport, inputs, next, after),
    ensures
        next.config == replica.config,
        next.state@ == run_outcome(replica.config@, replica.state@, inputs).state,
        after.sent() == transport.sent() + run_outcome(
            replica.config@,
            replica.state@,
            inputs,
        ).effects,
    decreases inputs.len(),
{
    if inputs.len() == 0 {
        assert(transport.sent() =~= transport.sent() + Seq::empty());
    } else {
        let (m, t) = choose|m: Replica, t: T|
            runs(replica, transport, inputs.drop_last(), m, t) && #[trigger] drives(
                m,
                t,
                inputs.last(),
                next,
                after,
            );
        law_run_is_fixed_by_inputs(replica, transport, inputs.drop_last(), m, t);
        lemma_drives_a_replica(m, t, inputs.last(), next, after);
        let before = run_outcome(replica.config@, replica.state@, inputs.drop_last());
        let last = input_outcome(replica.config@, before.state, inputs.last());
        assert(after.sent() =~= transport.sent() + (before.effects + last.effects));
    }
}

} // verus!
