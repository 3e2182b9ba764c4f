//! The machine that the `statig` engine drives, and what the library trusts of that
//! engine.
//!
//! The engine calls the handlers and entry actions of [`crate::rot`], whose contracts
//! are proved there. The trusted functions below say in which order, and when, it calls
//! them: an event goes to the state first and to the group of the state only where the
//! state left it; a change of state leaves the old state and enters the new one.

use crate::buffer;
use crate::model;
use crate::model::{MachineView, RotView};
use crate::rot::Rot;
use crate::sink::{Sink, EFFECT_CAP};
use crate::vocabulary::{Effect, Event, State};
use statig::blocking::{
    IntoStateMachine, State as StatigState, StateExt, Superstate as StatigSuperstate,
};
use statig::Outcome;
use vstd::prelude::*;

verus! {

/// How many levels there are from the top down to the state: the state itself, and its
/// group if it has one.
pub open spec fn depth_of(state: State) -> usize {
    if model::operational(state) {
        2
    } else {
        1
    }
}

/// How many levels are left, and how many entered, on the way between two states. A
/// group that holds both is neither left nor entered; from a state to itself, that
/// state is left and entered again.
pub open spec fn levels_between(source: State, target: State) -> (usize, usize) {
    if source == target || (model::operational(source) && model::operational(target)) {
        (1, 1)
    } else {
        (depth_of(source), depth_of(target))
    }
}

/// Trusted: `statig::blocking::StateExt::depth` counts the state and the groups above
/// it.
#[verifier::external_body]
fn depth<const N: usize>(state: &mut State) -> (levels: usize)
    ensures
        *final(state) == *old(state),
        levels == depth_of(*old(state)),
{
    <State as StateExt<'_, Rot<N>>>::depth(state)
}

/// Whether the state and its group, handling the event, return this outcome, and leave
/// the storage and the effect buffer like this.
spec fn handled(
    state: State,
    event: Event,
    before: (RotView, Seq<Effect>),
    outcome: Outcome<State>,
    after: (RotView, Seq<Effect>),
) -> bool {
    let r = model::reaction(state, before.0, event);
    &&& outcome == r.outcome
    &&& after.0 == r.rot
    &&& after.1 == buffer::filled(before.1, r.effects, EFFECT_CAP as int)
}

/// Trusted: `statig::blocking::StateExt::handle` lets the handler of the state handle
/// the event; where that handler returns `Super` and the state has a group, the handler
/// of the group handles it.
#[verifier::external_body]
fn handle<const N: usize>(
    state: &mut State,
    rot: &mut Rot<N>,
    event: &Event,
    ctx: &mut Sink,
) -> (outcome: Outcome<State>)
    ensures
        *final(state) == *old(state),
        handled(
            *old(state),
            *event,
            (old(rot)@, old(ctx)@),
            outcome,
            (final(rot)@, final(ctx)@),
        ),
{
    StateExt::handle(state, rot, event, ctx)
}

/// The order of calls that [`handle`] trusts the engine with, written out. The machine
/// leaves these calls to the engine; that they meet the same contract shows that it rests
/// on no more than that order and the contracts of the handlers.
#[allow(dead_code)]
fn handle_in_order<const N: usize>(
    state: &mut State,
    rot: &mut Rot<N>,
    event: &Event,
    ctx: &mut Sink,
) -> (outcome: Outcome<State>)
    ensures
        *final(state) == *old(state),
        handled(
            *old(state),
            *event,
            (old(rot)@, old(ctx)@),
            outcome,
            (final(rot)@, final(ctx)@),
        ),
{
    proof {
        let leaf = model::leaf_reaction(*state, rot@, *event);
        buffer::filling_goes_on(
            ctx@,
            leaf.effects,
            model::group_reaction(leaf.rot, *event).effects,
            EFFECT_CAP as int,
        );
    }
    match state.call_handler(rot, event, ctx) {
        Outcome::Super => match state.superstate() {
            Some(mut group) => group.call_handler(rot, event, ctx),
            None => Outcome::Super,
        },
        outcome => outcome,
    }
}

/// Trusted: `statig::blocking::StateExt::transition_path` gives the levels to leave and
/// to enter on the way from one state to another.
#[verifier::external_body]
fn transition_path<const N: usize>(source: &mut State, target: &mut State) -> (levels: (
    usize,
    usize,
))
    ensures
        *final(source) == *old(source),
        *final(target) == *old(target),
        levels == levels_between(*old(source), *old(target)),
{
    <State as StateExt<'_, Rot<N>>>::transition_path(source, target)
}

/// Trusted: `statig::blocking::StateExt::exit` calls the exit actions of the state and of
/// the groups above it, over so many levels. Neither the states nor the group have one,
/// so nothing changes.
#[verifier::external_body]
fn exit<const N: usize>(state: &mut State, rot: &mut Rot<N>, ctx: &mut Sink, levels: usize)
    ensures
        *final(state) == *old(state),
        *final(rot) == *old(rot),
        *final(ctx) == *old(ctx),
{
    StateExt::exit(state, rot, ctx, levels)
}

/// Whether entering the state leaves the storage and the effect buffer like this.
spec fn entered(
    state: State,
    before: (RotView, Seq<Effect>),
    after: (RotView, Seq<Effect>),
) -> bool {
    &&& after.0 == model::entered_rot(state, before.0)
    &&& after.1 == buffer::filled(
        before.1,
        model::entry_effects(state, before.0),
        EFFECT_CAP as int,
    )
}

/// Trusted: `statig::blocking::StateExt::enter` calls the entry actions of the groups
/// above the state and then that of the state itself, over so many levels. The group has
/// no entry action, so with one level or more that of the state is all that happens.
#[verifier::external_body]
fn enter<const N: usize>(state: &mut State, rot: &mut Rot<N>, ctx: &mut Sink, levels: usize)
    requires
        levels > 0,
    ensures
        *final(state) == *old(state),
        entered(*old(state), (old(rot)@, old(ctx)@), (final(rot)@, final(ctx)@)),
{
    StateExt::enter(state, rot, ctx, levels)
}

/// The one call that [`enter`] trusts the engine with, written out. It meets the same
/// contract by that of the entry action alone.
#[allow(dead_code)]
fn enter_in_order<const N: usize>(state: &mut State, rot: &mut Rot<N>, ctx: &mut Sink)
    ensures
        *final(state) == *old(state),
        entered(*old(state), (old(rot)@, old(ctx)@), (final(rot)@, final(ctx)@)),
{
    state.call_entry_action(rot, ctx);
}

/// A state machine that is started by the first event it handles: starting it runs the
/// entry actions towards the state it begins in.
#[verifier::reject_recursive_types(N)]
pub struct Machine<const N: usize> {
    /// The data that lives between events.
    rot: Rot<N>,
    /// The state the machine is in.
    state: State,
    /// Whether the entry actions towards the first state have run.
    started: bool,
}

impl<const N: usize> View for Machine<N> {
    type V = MachineView;

    closed spec fn view(&self) -> MachineView {
        MachineView { state: self.state, rot: self.rot@ }
    }
}

impl<const N: usize> Machine<N> {
    /// A machine that has not been started is in the state it begins in.
    pub closed spec fn wf(self) -> bool {
        self.started || self.state is PowerOnReset
    }

    /// Makes a machine out of its data. Nothing runs yet.
    pub fn new(rot: Rot<N>) -> (machine: Self)
        ensures
            machine.wf(),
            machine@ == (MachineView { state: State::PowerOnReset, rot: rot@ }),
    {
        Self { rot, state: Rot::<N>::initial(), started: false }
    }

    /// The state the machine is in.
    pub fn state(&self) -> (state: State)
        ensures
            state == self@.state,
    {
        self.state
    }

    /// Handles one event: starts the machine if need be, lets the state and its group
    /// handle the event, and changes the state if they ask for it.
    pub fn handle(&mut self, event: Event, ctx: &mut Sink)
        requires
            old(self).wf(),
        ensures
            final(self).wf(),
            final(self)@ == model::stepped(old(self)@, event),
            final(ctx)@ == buffer::filled(
                old(ctx)@,
                model::step_effects(old(self)@, event),
                EFFECT_CAP as int,
            ),
    {
        if !self.started {
            let levels = depth::<N>(&mut self.state);
            enter(&mut self.state, &mut self.rot, ctx, levels);
            self.started = true;
        }
        match handle(&mut self.state, &mut self.rot, &event, ctx) {
            Outcome::Transition(target) => {
                proof {
                    let r = model::reaction(old(self)@.state, old(self)@.rot, event);
                    buffer::filling_goes_on(
                        old(ctx)@,
                        r.effects,
                        model::entry_effects(target, r.rot),
                        EFFECT_CAP as int,
                    );
                }
                self.transition(target, ctx);
            },
            _ => {},
        }
    }

    /// Changes the state: leaves the old one, and enters the new one.
    fn transition(&mut self, target: State, ctx: &mut Sink)
        requires
            old(self).started,
        ensures
            final(self).started,
            final(self)@ == (MachineView {
                state: target,
                rot: model::entered_rot(target, old(self)@.rot),
            }),
            final(ctx)@ == buffer::filled(
                old(ctx)@,
                model::entry_effects(target, old(self)@.rot),
                EFFECT_CAP as int,
            ),
    {
        let mut target = target;
        let (left, entered) = transition_path::<N>(&mut self.state, &mut target);
        exit(&mut self.state, &mut self.rot, ctx, left);
        self.state = target;
        enter(&mut self.state, &mut self.rot, ctx, entered);
    }
}

} // verus!
