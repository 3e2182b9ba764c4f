//! How the core touches the outside world, and what it puts the world through.

use crate::model;
use crate::model::MachineView;
use crate::vocabulary::{Effect, Event};
use vstd::prelude::*;

verus! {

/// How the core reaches the outside world: carry out one effect. This is the only
/// outward connection; the world talks back through [`Event`]s alone. It is never
/// called with [`Effect::Emit`].
pub trait Platform {
    /// Whether carrying out `effect` can take the platform from `before` to `after`. A
    /// platform may say so; one that does not promises nothing.
    open spec fn executes(before: &Self, effect: Effect, after: &Self) -> bool {
        true
    }

    /// Carries out one effect.
    fn execute(&mut self, effect: Effect)
        ensures
            Self::executes(&*old(self), effect, &*final(self)),
    ;
}

/// Who is handed the outside effects of a dispatch, where there is no [`Platform`]. Every
/// closure that takes an effect is one.
pub trait OnEffect: Sized {
    /// Whether the effect may be handed over.
    open spec fn accepts(&self, effect: Effect) -> bool {
        true
    }

    /// Whether taking `effect` can bring the receiver from `before` to `after`. A receiver
    /// may say so; one that does not promises nothing.
    open spec fn takes(before: &Self, effect: Effect, after: &Self) -> bool {
        true
    }

    /// Takes one effect. What was accepted before still is afterwards.
    fn take(&mut self, effect: Effect)
        requires
            old(self).accepts(effect),
        ensures
            Self::takes(&*old(self), effect, &*final(self)),
            forall|e: Effect| old(self).accepts(e) ==> #[trigger] final(self).accepts(e),
    ;
}

/// A closure takes an effect by being called with it.
impl<F: FnMut(Effect)> OnEffect for F {
    open spec fn accepts(&self, effect: Effect) -> bool {
        call_requires(*self, (effect,))
    }

    open spec fn takes(before: &Self, effect: Effect, after: &Self) -> bool {
        call_ensures(*before, (effect,), ()) && before == after
    }

    fn take(&mut self, effect: Effect) {
        self(effect);
    }
}

/// Whether handing over the effects, each of them once, one after the other and in this
/// order, can bring the receiver from `before` to `after`.
pub open spec fn handed_over<T: OnEffect>(before: T, effects: Seq<Effect>, after: T) -> bool
    decreases effects.len(),
{
    if effects.len() == 0 {
        before == after
    } else {
        exists|between: T|
            #![trigger T::takes(&between, effects.last(), &after)]
            handed_over(before, effects.drop_last(), between) && T::takes(
                &between,
                effects.last(),
                &after,
            )
    }
}

/// A closure accepts the effects that it can be called with.
pub proof fn closures_accept<F: FnMut(Effect)>(f: F)
    ensures
        forall|effect: Effect| #[trigger] f.accepts(effect) <==> call_requires(f, (effect,)),
{
}

/// A closure that the effects were handed over to was called with each of them.
pub proof fn closures_are_called<F: FnMut(Effect)>(f: F, effects: Seq<Effect>, after: F)
    requires
        handed_over(f, effects, after),
    ensures
        after == f,
        forall|i: int|
            0 <= i < effects.len() ==> call_ensures(f, (#[trigger] effects[i],), ()),
    decreases effects.len(),
{
    if effects.len() > 0 {
        let latest = choose|latest: F|
            #![trigger F::takes(&latest, effects.last(), &after)]
            handed_over(f, effects.drop_last(), latest) && F::takes(
                &latest,
                effects.last(),
                &after,
            );
        closures_are_called(f, effects.drop_last(), latest);
        assert forall|i: int| 0 <= i < effects.len() implies call_ensures(
            f,
            (#[trigger] effects[i],),
            (),
        ) by {
            if i < effects.len() - 1 {
                assert(effects.drop_last()[i] == effects[i]);
            }
        }
    }
}

/// How events get in, for a loop that fetches them itself. A loop that is handed its
/// events needs none.
pub trait EventSource {
    /// Whether waiting for an event can give `event` and take the source from `before`
    /// to `after`. A source may say so; one that does not promises nothing.
    open spec fn yields(before: &Self, event: Event, after: &Self) -> bool {
        true
    }

    /// Waits for and returns the next event.
    fn next_event(&mut self) -> (event: Event)
        ensures
            Self::yields(&*old(self), event, &*final(self)),
    ;
}

/// Whether carrying out the effects, one after the other and in this order, can take the
/// platform from `before` to `after`.
pub open spec fn carries_out<P: Platform>(before: P, effects: Seq<Effect>, after: P) -> bool
    decreases effects.len(),
{
    if effects.len() == 0 {
        before == after
    } else {
        exists|between: P|
            #![trigger P::executes(&between, effects.last(), &after)]
            carries_out(before, effects.drop_last(), between) && P::executes(
                &between,
                effects.last(),
                &after,
            )
    }
}

/// One call that the core makes on a board that is both platform and event source.
pub enum Call {
    /// The board was asked for its next event, and this is what it gave.
    NextEvent(Event),
    /// The board was to carry out this effect.
    Execute(Effect),
}

/// Whether one call can take the board from `before` to `after`.
pub open spec fn answers<IO: Platform + EventSource>(before: IO, call: Call, after: IO) -> bool {
    match call {
        Call::NextEvent(event) => IO::yields(&before, event, &after),
        Call::Execute(effect) => IO::executes(&before, effect, &after),
    }
}

/// Whether the calls, one after the other, in this order and with none in between, can
/// take the board from `before` to `after`.
pub open spec fn goes_through<IO: Platform + EventSource>(
    before: IO,
    calls: Seq<Call>,
    after: IO,
) -> bool
    decreases calls.len(),
{
    if calls.len() == 0 {
        before == after
    } else {
        exists|between: IO|
            #![trigger answers(between, calls.last(), after)]
            goes_through(before, calls.drop_last(), between) && answers(
                between,
                calls.last(),
                after,
            )
    }
}

/// The calls by which the effects are carried out.
pub open spec fn executions(effects: Seq<Effect>) -> Seq<Call> {
    effects.map_values(|effect: Effect| Call::Execute(effect))
}

/// The calls of one turn in which the board gave `event`: the event is asked for once, and
/// then each of its outside effects is carried out, in order.
pub open spec fn turn(m: MachineView, event: Event) -> Seq<Call> {
    seq![Call::NextEvent(event)] + executions(model::settled_effects(m, event))
}

/// Whether one turn in which the board gave `event` can take the board and the machine
/// from `before` to `after`.
pub open spec fn takes_turn<IO: Platform + EventSource>(
    before: (IO, MachineView),
    event: Event,
    after: (IO, MachineView),
) -> bool {
    &&& goes_through(before.0, turn(before.1, event), after.0)
    &&& after.1 == model::settled(before.1, event)
}

/// Effects carried out in two goes are carried out in one.
pub proof fn carrying_out_joins<P: Platform>(
    before: P,
    first: Seq<Effect>,
    between: P,
    second: Seq<Effect>,
    after: P,
)
    requires
        carries_out(before, first, between),
        carries_out(between, second, after),
    ensures
        carries_out(before, first + second, after),
    decreases second.len(),
{
    if second.len() == 0 {
        assert(first + second =~= first);
    } else {
        let latest = choose|latest: P|
            #![trigger P::executes(&latest, second.last(), &after)]
            carries_out(between, second.drop_last(), latest) && P::executes(
                &latest,
                second.last(),
                &after,
            );
        carrying_out_joins(before, first, between, second.drop_last(), latest);
        assert((first + second).drop_last() =~= first + second.drop_last());
        assert((first + second).last() == second.last());
        assert(P::executes(&latest, (first + second).last(), &after));
    }
}

/// Effects handed over in two goes are handed over in one.
pub proof fn handing_over_joins<T: OnEffect>(
    before: T,
    first: Seq<Effect>,
    between: T,
    second: Seq<Effect>,
    after: T,
)
    requires
        handed_over(before, first, between),
        handed_over(between, second, after),
    ensures
        handed_over(before, first + second, after),
    decreases second.len(),
{
    if second.len() == 0 {
        assert(first + second =~= first);
    } else {
        let latest = choose|latest: T|
            #![trigger T::takes(&latest, second.last(), &after)]
            handed_over(between, second.drop_last(), latest) && T::takes(
                &latest,
                second.last(),
                &after,
            );
        handing_over_joins(before, first, between, second.drop_last(), latest);
        assert((first + second).drop_last() =~= first + second.drop_last());
        assert((first + second).last() == second.last());
        assert(T::takes(&latest, (first + second).last(), &after));
    }
}

/// Calls gone through in two goes are gone through in one.
pub proof fn going_through_joins<IO: Platform + EventSource>(
    before: IO,
    first: Seq<Call>,
    between: IO,
    second: Seq<Call>,
    after: IO,
)
    requires
        goes_through(before, first, between),
        goes_through(between, second, after),
    ensures
        goes_through(before, first + second, after),
    decreases second.len(),
{
    if second.len() == 0 {
        assert(first + second =~= first);
    } else {
        let latest = choose|latest: IO|
            #![trigger answers(latest, second.last(), after)]
            goes_through(between, second.drop_last(), latest) && answers(
                latest,
                second.last(),
                after,
            );
        going_through_joins(before, first, between, second.drop_last(), latest);
        assert((first + second).drop_last() =~= first + second.drop_last());
        assert((first + second).last() == second.last());
        assert(answers(latest, (first + second).last(), after));
    }
}

/// A board that carries out the effects goes through the calls for them.
proof fn carrying_out_is_going_through<IO: Platform + EventSource>(
    before: IO,
    effects: Seq<Effect>,
    after: IO,
)
    requires
        carries_out(before, effects, after),
    ensures
        goes_through(before, executions(effects), after),
    decreases effects.len(),
{
    let calls = executions(effects);
    if effects.len() > 0 {
        let latest = choose|latest: IO|
            #![trigger IO::executes(&latest, effects.last(), &after)]
            carries_out(before, effects.drop_last(), latest) && IO::executes(
                &latest,
                effects.last(),
                &after,
            );
        carrying_out_is_going_through(before, effects.drop_last(), latest);
        assert(calls.drop_last() =~= executions(effects.drop_last()));
        assert(calls.last() == Call::Execute(effects.last()));
        assert(answers(latest, calls.last(), after));
    }
}

/// A board that gives `event` and then carries out its outside effects takes a turn.
pub(crate) proof fn a_turn_is_taken<IO: Platform + EventSource>(
    before: IO,
    m: MachineView,
    event: Event,
    between: IO,
    after: IO,
)
    requires
        IO::yields(&before, event, &between),
        carries_out(between, model::settled_effects(m, event), after),
    ensures
        takes_turn((before, m), event, (after, model::settled(m, event))),
{
    let ask = seq![Call::NextEvent(event)];
    let effects = model::settled_effects(m, event);
    reveal_with_fuel(goes_through, 2);
    assert(ask.drop_last() =~= Seq::<Call>::empty());
    assert(answers(before, ask.last(), between));
    assert(goes_through(before, ask, between));
    carrying_out_is_going_through(between, effects, after);
    going_through_joins(before, ask, between, executions(effects), after);
}

// ---------------------------------------------------------------------------
// What it is to be put through effects and calls
// ---------------------------------------------------------------------------

/// Carrying out one effect is what the platform says of that effect, and carrying out none
/// leaves the platform as it was.
pub proof fn carrying_out_one_effect<P: Platform>(before: P, effect: Effect, after: P)
    ensures
        carries_out(before, seq![effect], after) <==> P::executes(&before, effect, &after),
        carries_out(before, Seq::<Effect>::empty(), after) <==> before == after,
{
    reveal_with_fuel(carries_out, 2);
    assert(seq![effect].drop_last() =~= Seq::<Effect>::empty());
    assert(seq![effect].last() == effect);
    if P::executes(&before, effect, &after) {
        assert(P::executes(&before, seq![effect].last(), &after));
    }
}

/// Carrying out effects goes step by step: there is a platform for every step, each of them
/// the one before with one more effect carried out, in order, none left out and none added.
pub proof fn carrying_out_goes_step_by_step<P: Platform>(
    before: P,
    effects: Seq<Effect>,
    after: P,
) -> (steps: Seq<P>)
    requires
        carries_out(before, effects, after),
    ensures
        steps.len() == effects.len() + 1,
        steps[0] == before,
        steps[effects.len() as int] == after,
        forall|i: int|
            0 <= i < effects.len() ==> P::executes(
                &steps[i],
                #[trigger] effects[i],
                &steps[i + 1],
            ),
    decreases effects.len(),
{
    if effects.len() == 0 {
        seq![before]
    } else {
        let latest = choose|latest: P|
            #![trigger P::executes(&latest, effects.last(), &after)]
            carries_out(before, effects.drop_last(), latest) && P::executes(
                &latest,
                effects.last(),
                &after,
            );
        let shorter = carrying_out_goes_step_by_step(before, effects.drop_last(), latest);
        let steps = shorter.push(after);
        assert forall|i: int| 0 <= i < effects.len() implies P::executes(
            &steps[i],
            #[trigger] effects[i],
            &steps[i + 1],
        ) by {
            if i < effects.len() - 1 {
                assert(effects.drop_last()[i] == effects[i]);
            }
        }
        steps
    }
}

/// A platform with a log of what it carried out, to which each effect is added, has in its
/// log afterwards what it had before and then the effects, in order.
pub proof fn carrying_out_is_logged<P: Platform>(
    log: spec_fn(P) -> Seq<Effect>,
    before: P,
    effects: Seq<Effect>,
    after: P,
)
    requires
        forall|b: P, effect: Effect, a: P| #[trigger]
            P::executes(&b, effect, &a) ==> log(a) == log(b).push(effect),
        carries_out(before, effects, after),
    ensures
        log(after) == log(before) + effects,
    decreases effects.len(),
{
    if effects.len() == 0 {
        assert(log(before) + effects =~= log(before));
    } else {
        let latest = choose|latest: P|
            #![trigger P::executes(&latest, effects.last(), &after)]
            carries_out(before, effects.drop_last(), latest) && P::executes(
                &latest,
                effects.last(),
                &after,
            );
        carrying_out_is_logged(log, before, effects.drop_last(), latest);
        assert(log(after) =~= log(before) + effects);
    }
}

/// Handing over one effect is what the receiver says of that effect, and handing over none
/// leaves the receiver as it was.
pub proof fn handing_over_one_effect<T: OnEffect>(before: T, effect: Effect, after: T)
    ensures
        handed_over(before, seq![effect], after) <==> T::takes(&before, effect, &after),
        handed_over(before, Seq::<Effect>::empty(), after) <==> before == after,
{
    reveal_with_fuel(handed_over, 2);
    assert(seq![effect].drop_last() =~= Seq::<Effect>::empty());
    assert(seq![effect].last() == effect);
    if T::takes(&before, effect, &after) {
        assert(T::takes(&before, seq![effect].last(), &after));
    }
}

/// Handing over effects goes step by step: there is a receiver for every step, each of them
/// the one before with one more effect taken, in order, none left out and none added.
pub proof fn handing_over_goes_step_by_step<T: OnEffect>(
    before: T,
    effects: Seq<Effect>,
    after: T,
) -> (steps: Seq<T>)
    requires
        handed_over(before, effects, after),
    ensures
        steps.len() == effects.len() + 1,
        steps[0] == before,
        steps[effects.len() as int] == after,
        forall|i: int|
            0 <= i < effects.len() ==> T::takes(&steps[i], #[trigger] effects[i], &steps[i + 1]),
    decreases effects.len(),
{
    if effects.len() == 0 {
        seq![before]
    } else {
        let latest = choose|latest: T|
            #![trigger T::takes(&latest, effects.last(), &after)]
            handed_over(before, effects.drop_last(), latest) && T::takes(
                &latest,
                effects.last(),
                &after,
            );
        let shorter = handing_over_goes_step_by_step(before, effects.drop_last(), latest);
        let steps = shorter.push(after);
        assert forall|i: int| 0 <= i < effects.len() implies T::takes(
            &steps[i],
            #[trigger] effects[i],
            &steps[i + 1],
        ) by {
            if i < effects.len() - 1 {
                assert(effects.drop_last()[i] == effects[i]);
            }
        }
        steps
    }
}

/// A receiver with a log of what it took, to which each effect is added, has in its log
/// afterwards what it had before and then the effects, in order.
pub proof fn handing_over_is_logged<T: OnEffect>(
    log: spec_fn(T) -> Seq<Effect>,
    before: T,
    effects: Seq<Effect>,
    after: T,
)
    requires
        forall|b: T, effect: Effect, a: T| #[trigger]
            T::takes(&b, effect, &a) ==> log(a) == log(b).push(effect),
        handed_over(before, effects, after),
    ensures
        log(after) == log(before) + effects,
    decreases effects.len(),
{
    if effects.len() == 0 {
        assert(log(before) + effects =~= log(before));
    } else {
        let latest = choose|latest: T|
            #![trigger T::takes(&latest, effects.last(), &after)]
            handed_over(before, effects.drop_last(), latest) && T::takes(
                &latest,
                effects.last(),
                &after,
            );
        handing_over_is_logged(log, before, effects.drop_last(), latest);
        assert(log(after) =~= log(before) + effects);
    }
}

/// Going through one call is what the board says of that call, and going through none
/// leaves the board as it was.
pub proof fn going_through_one_call<IO: Platform + EventSource>(before: IO, call: Call, after: IO)
    ensures
        goes_through(before, seq![call], after) <==> match call {
            Call::NextEvent(event) => IO::yields(&before, event, &after),
            Call::Execute(effect) => IO::executes(&before, effect, &after),
        },
        goes_through(before, Seq::<Call>::empty(), after) <==> before == after,
{
    reveal_with_fuel(goes_through, 2);
    assert(seq![call].drop_last() =~= Seq::<Call>::empty());
    assert(seq![call].last() == call);
    if answers(before, call, after) {
        assert(answers(before, seq![call].last(), after));
    }
}

/// A board that goes through calls is somewhere in between after the first of them.
pub proof fn going_through_splits<IO: Platform + EventSource>(
    before: IO,
    first: Seq<Call>,
    second: Seq<Call>,
    after: IO,
) -> (between: IO)
    requires
        goes_through(before, first + second, after),
    ensures
        goes_through(before, first, between),
        goes_through(between, second, after),
    decreases second.len(),
{
    if second.len() == 0 {
        assert(first + second =~= first);
        after
    } else {
        let calls = first + second;
        let latest = choose|latest: IO|
            #![trigger answers(latest, calls.last(), after)]
            goes_through(before, calls.drop_last(), latest) && answers(
                latest,
                calls.last(),
                after,
            );
        assert(calls.drop_last() =~= first + second.drop_last());
        assert(calls.last() == second.last());
        let between = going_through_splits(before, first, second.drop_last(), latest);
        assert(answers(latest, second.last(), after));
        between
    }
}

/// A turn is one call for the event and then one call for each outside effect, in order.
pub proof fn turn_calls(m: MachineView, event: Event)
    ensures
        turn(m, event).len() == 1 + model::settled_effects(m, event).len(),
        turn(m, event)[0] == Call::NextEvent(event),
        forall|i: int|
            0 <= i < model::settled_effects(m, event).len() ==> turn(m, event)[i + 1]
                == Call::Execute(#[trigger] model::settled_effects(m, event)[i]),
{
}

/// A board with a log of the calls made on it, to which each call is added, has in its log
/// afterwards what it had before and then the calls, in order.
pub proof fn going_through_is_logged<IO: Platform + EventSource>(
    log: spec_fn(IO) -> Seq<Call>,
    before: IO,
    calls: Seq<Call>,
    after: IO,
)
    requires
        forall|b: IO, event: Event, a: IO| #[trigger]
            IO::yields(&b, event, &a) ==> log(a) == log(b).push(Call::NextEvent(event)),
        forall|b: IO, effect: Effect, a: IO| #[trigger]
            IO::executes(&b, effect, &a) ==> log(a) == log(b).push(Call::Execute(effect)),
        goes_through(before, calls, after),
    ensures
        log(after) == log(before) + calls,
    decreases calls.len(),
{
    if calls.len() == 0 {
        assert(log(before) + calls =~= log(before));
    } else {
        let latest = choose|latest: IO|
            #![trigger answers(latest, calls.last(), after)]
            goes_through(before, calls.drop_last(), latest) && answers(
                latest,
                calls.last(),
                after,
            );
        going_through_is_logged(log, before, calls.drop_last(), latest);
        assert(log(after) == log(latest).push(calls.last()));
        assert(log(after) =~= log(before) + calls);
    }
}

/// A board that takes a turn has then been asked for the event once, and after that has
/// carried out the outside effects of that event, each once and in order, and no other call
/// was made on it; and the machine has settled that event.
pub proof fn a_turn_is_logged<IO: Platform + EventSource>(
    log: spec_fn(IO) -> Seq<Call>,
    before: (IO, MachineView),
    event: Event,
    after: (IO, MachineView),
)
    requires
        forall|b: IO, e: Event, a: IO| #[trigger]
            IO::yields(&b, e, &a) ==> log(a) == log(b).push(Call::NextEvent(e)),
        forall|b: IO, effect: Effect, a: IO| #[trigger]
            IO::executes(&b, effect, &a) ==> log(a) == log(b).push(Call::Execute(effect)),
        takes_turn(before, event, after),
    ensures
        after.1 == model::settled(before.1, event),
        log(after.0) == log(before.0) + (seq![Call::NextEvent(event)] + Seq::new(
            model::settled_effects(before.1, event).len(),
            |i: int| Call::Execute(model::settled_effects(before.1, event)[i]),
        )),
{
    going_through_is_logged(log, before.0, turn(before.1, event), after.0);
    assert(turn(before.1, event) =~= seq![Call::NextEvent(event)] + Seq::new(
        model::settled_effects(before.1, event).len(),
        |i: int| Call::Execute(model::settled_effects(before.1, event)[i]),
    ));
}

} // verus!
