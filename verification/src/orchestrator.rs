//! The dispatch loop.

use crate::buffer;
use crate::laws;
use crate::machine::Machine;
use crate::model;
use crate::model::MachineView;
use crate::rot::Rot;
use crate::seams;
use crate::seams::{EventSource, OnEffect, Platform};
use crate::sink::{Sink, EFFECT_CAP};
use crate::vocabulary::{ComponentId, Effect, Event, State};
use vstd::prelude::*;

verus! {

/// How many events can be waiting while one outside event is being handled: the event
/// itself and the follow-ups it asks for. A handler asks for one at most.
pub const PENDING_CAP: usize = 8;

/// A handle to a running machine that a caller's own loop steps once per event.
///
/// The loop lives outside; it delivers events and routes effects. The board supplies the
/// trust chain and names the components; the core works with the opaque ids alone.
#[verifier::reject_recursive_types(N)]
pub struct Orchestrator<const N: usize> {
    machine: Machine<N>,
}

impl<const N: usize> View for Orchestrator<N> {
    type V = MachineView;

    /// The machine that is being run.
    closed spec fn view(&self) -> MachineView {
        self.machine@
    }
}

impl<const N: usize> Orchestrator<N> {
    /// The machine inside is well-formed.
    pub closed spec fn machine_wf(self) -> bool {
        self.machine.wf()
    }

    /// The machine inside is well-formed, and what holds of every machine between two
    /// events holds of it.
    pub open spec fn wf(self) -> bool {
        self.machine_wf() && model::valid(self@)
    }

    /// Builds an orchestrator from the board's trust `chain` and its limit on recovery
    /// attempts. Nothing runs yet.
    pub fn new(chain: heapless::Vec<ComponentId, N>, max_retry: u8) -> (orch: Self)
        ensures
            orch.wf(),
            orch@ == model::initial(buffer::contents(chain), max_retry as int),
    {
        Self { machine: Machine::new(Rot::new(chain, max_retry)) }
    }

    /// The state the machine is in right now.
    pub fn state(&self) -> (state: State)
        ensures
            state == self@.state,
    {
        self.machine.state()
    }

    /// Handles one event all the way through, the follow-up events that it asks for
    /// included, and returns the outside effects that are owed, in the order in which they
    /// were emitted.
    fn settle(&mut self, event: Event) -> (owed: Sink)
        requires
            old(self).wf(),
        ensures
            final(self).wf(),
            final(self)@ == model::settled(old(self)@, event),
            owed@ == model::settled_effects(old(self)@, event),
    {
        let ghost m = self@;
        let mut owed = Sink::new();
        let mut pending: heapless::Vec<Event, PENDING_CAP> = buffer::empty_vec();
        let _ = buffer::push(&mut pending, event);
        proof {
            laws::validity_lasts(m, event);
            assert(buffer::contents(pending) =~= seq![event]);
        }
        let mut i: usize = 0;
        while i < buffer::as_slice(&pending).len()
            invariant
                self.machine.wf(),
                progress(m, event, i as int, self@, buffer::contents(pending), owed@),
            decreases PENDING_CAP - i,
        {
            let next = buffer::as_slice(&pending)[i];
            i += 1;
            let ghost waiting = buffer::contents(pending);
            let ghost earlier = owed@;
            proof {
                progress_goes_on(m, event, i - 1, self@, waiting, earlier);
                laws::three_effects_at_most(self@, next);
            }
            let mut sink = Sink::new();
            self.machine.handle(next, &mut sink);
            let effects = sink.effects();
            let mut j: usize = 0;
            while j < effects.len()
                invariant
                    j <= effects.len(),
                    buffer::contents(pending) == buffer::filled(
                        waiting,
                        model::follow_ups(effects@.take(j as int)),
                        PENDING_CAP as int,
                    ),
                    owed@ == buffer::filled(
                        earlier,
                        model::outside(effects@.take(j as int)),
                        EFFECT_CAP as int,
                    ),
                decreases effects.len() - j,
            {
                proof {
                    assert(effects@.take(j + 1).drop_last() =~= effects@.take(j as int));
                }
                match effects[j] {
                    // Stays inside: it is queued, and handled next.
                    Effect::Emit(internal) => {
                        proof {
                            buffer::filling_goes_on(
                                waiting,
                                model::follow_ups(effects@.take(j as int)),
                                seq![internal],
                                PENDING_CAP as int,
                            );
                        }
                        let _ = buffer::push(&mut pending, internal);
                    },
                    // Goes outside, in order.
                    external => {
                        proof {
                            buffer::filling_goes_on(
                                earlier,
                                model::outside(effects@.take(j as int)),
                                seq![external],
                                EFFECT_CAP as int,
                            );
                        }
                        owed.emit(external);
                    },
                }
                j += 1;
            }
            proof {
                assert(effects@.take(j as int) =~= effects@);
            }
        }
        proof {
            progress_ends(m, event, i as int, self@, buffer::contents(pending), owed@);
        }
        owed
    }

    /// Handles one event all the way through, calling `on_effect` once for each outside
    /// effect, in the order in which they were emitted. Follow-up events are handled here
    /// too before this returns, so one call fully settles the machine. No [`Platform`] is
    /// needed: a closure will do.
    ///
    /// The receiver as it is `after` the last of these calls is the one that is dropped
    /// here: nothing happens to it any more, so what it borrowed is left as it left it.
    pub fn dispatch_with<T: OnEffect>(&mut self, event: Event, on_effect: T)
        requires
            old(self).wf(),
            forall|i: int|
                0 <= i < model::settled_effects(old(self)@, event).len() ==> on_effect.accepts(
                    #[trigger] model::settled_effects(old(self)@, event)[i],
                ),
        ensures
            final(self).wf(),
            final(self)@ == model::settled(old(self)@, event),
            exists|after: T| #[trigger]
                seams::handed_over(on_effect, model::settled_effects(old(self)@, event), after)
                    && has_resolved(after),
    {
        let mut receiver = on_effect;
        let owed = self.settle(event);
        let effects = owed.effects();
        let mut i: usize = 0;
        while i < effects.len()
            invariant
                i <= effects.len(),
                forall|j: int|
                    0 <= j < effects.len() ==> receiver.accepts(#[trigger] effects[j]),
                seams::handed_over(on_effect, effects@.take(i as int), receiver),
            decreases effects.len() - i,
        {
            let ghost between = receiver;
            receiver.take(effects[i]);
            proof {
                let done = effects@.take(i + 1);
                assert(done.drop_last() =~= effects@.take(i as int));
                assert(T::takes(&between, done.last(), &receiver));
            }
            i += 1;
        }
        proof {
            assert(effects@.take(i as int) =~= effects@);
        }
    }

    /// Handles one event all the way through, as
    /// [`dispatch_with`](Orchestrator::dispatch_with) does, and has the platform carry out
    /// each outside effect, in the order in which they were emitted.
    pub fn dispatch<P: Platform>(&mut self, platform: &mut P, event: Event)
        requires
            old(self).wf(),
        ensures
            final(self).wf(),
            final(self)@ == model::settled(old(self)@, event),
            seams::carries_out(
                *old(platform),
                model::settled_effects(old(self)@, event),
                *final(platform),
            ),
    {
        let ghost start = *platform;
        let owed = self.settle(event);
        let effects = owed.effects();
        let mut i: usize = 0;
        while i < effects.len()
            invariant
                i <= effects.len(),
                seams::carries_out(start, effects@.take(i as int), *platform),
            decreases effects.len() - i,
        {
            let ghost between = *platform;
            platform.execute(effects[i]);
            proof {
                let done = effects@.take(i + 1);
                assert(done.drop_last() =~= effects@.take(i as int));
                assert(P::executes(&between, done.last(), &*platform));
            }
            i += 1;
        }
        proof {
            assert(effects@.take(i as int) =~= effects@);
        }
    }
}

/// One turn of a loop that fetches its own events: waits for the next event, and handles
/// it all the way through.
pub fn run_once<const N: usize, IO: Platform + EventSource>(
    io: &mut IO,
    orch: &mut Orchestrator<N>,
)
    requires
        old(orch).wf(),
    ensures
        final(orch).wf(),
        exists|event: Event| #[trigger]
            seams::takes_turn((*old(io), old(orch)@), event, (*final(io), final(orch)@)),
{
    let ghost before = *io;
    let ghost m = orch@;
    let event = io.next_event();
    let ghost between = *io;
    orch.dispatch(io, event);
    proof {
        seams::a_turn_is_taken(before, m, event, between, *io);
    }
}

/// How far the handling of `event` has come once `i` waiting events are handled: the
/// machine as it is `now`, the events that were or are `waiting`, and the outside effects
/// that are `done`.
spec fn progress(
    m: MachineView,
    event: Event,
    i: int,
    now: MachineView,
    waiting: Seq<Event>,
    done: Seq<Effect>,
) -> bool {
    let later = model::follow_ups(model::step_effects(m, event));
    ||| i == 0 && now == m && waiting == seq![event] && done == Seq::<Effect>::empty()
    ||| i == 1 && now == model::stepped(m, event) && waiting == seq![event] + later && done
        == model::outside(model::step_effects(m, event))
    ||| i == 2 && later.len() == 1 && now == model::settled(m, event) && waiting == seq![event]
        + later && done == model::settled_effects(m, event)
}

/// Handling the next waiting event brings the handling of `event` one step further.
proof fn progress_goes_on(
    m: MachineView,
    event: Event,
    i: int,
    now: MachineView,
    waiting: Seq<Event>,
    done: Seq<Effect>,
)
    requires
        progress(m, event, i, now, waiting, done),
        0 <= i < waiting.len(),
    ensures
        i < 2,
        progress(
            m,
            event,
            i + 1,
            model::stepped(now, waiting[i]),
            buffer::filled(
                waiting,
                model::follow_ups(model::step_effects(now, waiting[i])),
                PENDING_CAP as int,
            ),
            buffer::filled(
                done,
                model::outside(model::step_effects(now, waiting[i])),
                EFFECT_CAP as int,
            ),
        ),
{
    laws::one_follow_up_settles(m, event);
    laws::three_effects_at_most(m, event);
    let later = model::follow_ups(model::step_effects(m, event));
    let now_out = model::outside(model::step_effects(now, waiting[i]));
    assert(buffer::filled(done, now_out, EFFECT_CAP as int) =~= done + now_out);
    if i == 0 {
        assert(done + now_out =~= now_out);
        assert(buffer::filled(seq![event], later, PENDING_CAP as int) =~= seq![event] + later);
    } else {
        assert(waiting[1] == later[0]);
        assert(buffer::filled(waiting, Seq::<Event>::empty(), PENDING_CAP as int) =~= waiting);
    }
}

/// With no event left waiting, the event is handled all the way through.
proof fn progress_ends(
    m: MachineView,
    event: Event,
    i: int,
    now: MachineView,
    waiting: Seq<Event>,
    done: Seq<Effect>,
)
    requires
        progress(m, event, i, now, waiting, done),
        i >= waiting.len(),
    ensures
        now == model::settled(m, event),
        done == model::settled_effects(m, event),
{
    laws::one_follow_up_settles(m, event);
}

} // verus!
