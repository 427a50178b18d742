//! What a replica asks the network to do.

use vstd::prelude::*;

use crate::message::{Message, MessageView, NodeId};

verus! {

/// An effect of a transition. Handlers return effects; whoever drives the
/// replica has to carry them out.
#[non_exhaustive]
#[derive(Debug, PartialEq, Eq)]
pub enum Effect {
    /// Send the message to all replicas.
    Broadcast(Message),
    /// Send the message to one replica.
    Send { to: NodeId, message: Message },
}

/// The value of an [`Effect`].
pub enum EffectView {
    Broadcast(MessageView),
    Send { to: Seq<char>, message: MessageView },
}

impl View for Effect {
    type V = EffectView;

    open spec fn view(&self) -> EffectView {
        match *self {
            Effect::Broadcast(m) => EffectView::Broadcast(m@),
            Effect::Send { to, message } => EffectView::Send { to: to@, message: message@ },
        }
    }
}

impl Clone for Effect {
    /// A copy with the same value.
    fn clone(&self) -> (r: Self)
        ensures
            r@ == self@,
    {
        match self {
            Effect::Broadcast(m) => Effect::Broadcast(m.clone()),
            Effect::Send { to, message } => Effect::Send {
                to: to.clone(),
                message: message.clone(),
            },
        }
    }
}

/// The values of a sequence of effects, in order.
pub open spec fn effect_values(effects: Seq<Effect>) -> Seq<EffectView> {
    effects.map_values(|e: Effect| e@)
}

/// A list of no effects.
pub fn no_effects() -> (r: Vec<Effect>)
    ensures
        effect_values(r@) == Seq::<EffectView>::empty(),
{
    let r: Vec<Effect> = Vec::new();
    assert(effect_values(r@) == Seq::<EffectView>::empty());
    r
}

/// A list of one effect.
pub fn one_effect(e: Effect) -> (r: Vec<Effect>)
    ensures
        effect_values(r@) == seq![e@],
{
    let mut r: Vec<Effect> = Vec::new();
    r.push(e);
    assert(effect_values(r@) == seq![e@]);
    r
}

/// A list of two effects.
pub fn two_effects(first: Effect, second: Effect) -> (r: Vec<Effect>)
    ensures
        effect_values(r@) == seq![first@, second@],
{
    let mut r: Vec<Effect> = Vec::new();
    r.push(first);
    r.push(second);
    assert(effect_values(r@) == seq![first@, second@]);
    r
}

/// Appends `more` to `effects`.
pub fn append_effects(effects: &mut Vec<Effect>, more: Vec<Effect>)
    ensures
        effect_values(final(effects)@) == effect_values(old(effects)@) + effect_values(more@),
{
    let ghost appended = more@;
    let mut rest = more;
    effects.append(&mut rest);
    assert(effect_values(effects@) == effect_values(old(effects)@) + effect_values(appended));
}

} // verus!
