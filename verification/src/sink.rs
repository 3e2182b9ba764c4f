//! The effect buffer that is handed to every handler.

use crate::buffer;
use crate::vocabulary::Effect;
use vstd::prelude::*;

verus! {

/// How many effects one event can produce. The busiest handler emits three, so there
/// is plenty of room; an effect beyond the limit is dropped.
pub const EFFECT_CAP: usize = 8;

/// The effect buffer handed to every handler.
///
/// All that a handler can do to the outside is to [`emit`](Sink::emit) an effect. Each
/// event gets a fresh sink, and the effects are read out of it afterwards, so the
/// machine itself stores none.
pub struct Sink {
    effects: heapless::Vec<Effect, EFFECT_CAP>,
}

impl View for Sink {
    type V = Seq<Effect>;

    /// The effects added so far, in order.
    closed spec fn view(&self) -> Seq<Effect> {
        buffer::contents(self.effects)
    }
}

impl Sink {
    /// A sink that holds nothing.
    pub(crate) fn new() -> (sink: Self)
        ensures
            sink@ == Seq::<Effect>::empty(),
    {
        Self { effects: buffer::empty_vec() }
    }

    /// Adds one effect; with the buffer full, the effect is dropped.
    pub fn emit(&mut self, effect: Effect)
        ensures
            final(self)@ == buffer::filled(old(self)@, seq![effect], EFFECT_CAP as int),
    {
        let _ = buffer::push(&mut self.effects, effect);
    }

    /// The effects added while handling this event, in order.
    pub fn effects(&self) -> (effects: &[Effect])
        ensures
            effects@ == self@,
            effects@.len() <= EFFECT_CAP,
    {
        buffer::as_slice(&self.effects)
    }
}

/// A sink has room for eight effects: with fewer in it, one more comes last, and with eight
/// in it nothing changes.
pub proof fn a_sink_holds_eight(held: Seq<Effect>, effect: Effect)
    ensures
        held.len() < 8 ==> buffer::filled(held, seq![effect], EFFECT_CAP as int) == held.push(
            effect,
        ),
        held.len() >= 8 ==> buffer::filled(held, seq![effect], EFFECT_CAP as int) == held,
{
    assert(held + seq![effect] =~= held.push(effect));
}

} // verus!
