//! The shared storage of the machine, and the handlers of its states.

use crate::buffer;
use crate::model;
use crate::model::RotView;
use crate::sink::{Sink, EFFECT_CAP};
use crate::vocabulary::{ComponentId, Effect, Event, Provisioning, State, Superstate};
use core::marker::PhantomData;
use statig::blocking::{
    IntoStateMachine, State as StatigState, Superstate as StatigSuperstate,
};
use statig::Outcome;
use vstd::prelude::*;

verus! {

/// `statig::Outcome`, what a handler returns to the engine: its variants are public and
/// are read as they stand.
#[verifier::external_type_specification]
#[verifier::reject_recursive_types(S)]
pub struct ExOutcome<S>(statig::Outcome<S>);

/// The data that lives between events: everything the machine has to remember from
/// one event to the next. There are no effects in it; those live in the [`Sink`].
///
/// `N` is how many components the chain can hold, which is for the board to choose.
#[verifier::reject_recursive_types(N)]
pub struct Rot<const N: usize> {
    /// The trust chain, in the order that the board gave it.
    chain: heapless::Vec<ComponentId, N>,
    /// Where the walk is in `chain`. It survives across events, because the walk is
    /// handled without a change of state.
    cursor: usize,
    /// The component that failed and set off the recovery under way; none while all is
    /// well.
    failed: Option<ComponentId>,
    /// How many restores have been tried since the machine was last ready.
    retry_count: u8,
    /// How many restores are allowed before the machine locks down.
    max_retry: u8,
}

impl<const N: usize> View for Rot<N> {
    type V = RotView;

    closed spec fn view(&self) -> RotView {
        RotView {
            chain: buffer::contents(self.chain),
            cursor: self.cursor as int,
            failed: self.failed,
            retry_count: self.retry_count as int,
            max_retry: self.max_retry as int,
        }
    }
}

impl<const N: usize> Rot<N> {
    /// Builds the machine's data from the board's trust `chain` and its limit on
    /// recovery attempts.
    pub fn new(chain: heapless::Vec<ComponentId, N>, max_retry: u8) -> (rot: Self)
        ensures
            rot@ == model::fresh(buffer::contents(chain), max_retry as int),
    {
        Self { chain, cursor: 0, failed: None, retry_count: 0, max_retry }
    }
}

/// The counts are bytes and the place in the chain is an index, so each of them is within
/// the bounds of its type.
pub proof fn counts_fit<const N: usize>(rot: Rot<N>)
    ensures
        0 <= rot@.cursor <= usize::MAX,
        0 <= rot@.retry_count <= u8::MAX,
        0 <= rot@.max_retry <= u8::MAX,
{
}

impl<const N: usize> IntoStateMachine for Rot<N> {
    type Event<'evt> = Event;

    type Context<'ctx> = Sink;

    type State = State;

    type Superstate<'leaf> = Superstate<'leaf>;

    fn initial() -> (state: State)
        ensures
            state is PowerOnReset,
    {
        State::PowerOnReset
    }
}

impl State {
    /// The group that the state belongs to, if any.
    pub fn superstate(&mut self) -> (group: Option<Superstate<'_>>)
        ensures
            group is Some <==> model::operational(*old(self)),
            *final(self) == *old(self),
    {
        match *self {
            State::Ready | State::Updating | State::Recovering => Some(
                Superstate::Operational(PhantomData),
            ),
            _ => None,
        }
    }
}

impl<const N: usize> StatigState<Rot<N>> for State {
    /// What the state does with an event; what it returns `Super` for goes to its group.
    fn call_handler(&mut self, rot: &mut Rot<N>, event: &Event, ctx: &mut Sink) -> (outcome:
        Outcome<State>)
        ensures
            *final(self) == *old(self),
            outcome == model::leaf_reaction(*old(self), old(rot)@, *event).outcome,
            final(rot)@ == model::leaf_reaction(*old(self), old(rot)@, *event).rot,
            final(ctx)@ == buffer::filled(
                old(ctx)@,
                model::leaf_reaction(*old(self), old(rot)@, *event).effects,
                EFFECT_CAP as int,
            ),
    {
        match *self {
            State::PowerOnReset => match *event {
                Event::PowerGood(Provisioning::Provisioned) => {
                    Outcome::Transition(State::MeasuringPlatform)
                },
                // Not provisioned, so it cannot be a root of trust.
                Event::PowerGood(Provisioning::Unprovisioned) => {
                    Outcome::Transition(State::Locked)
                },
                _ => Outcome::Super,
            },
            // The walk stays in this state: a change of state would reset the cursor.
            State::MeasuringPlatform => match *event {
                Event::PlatformMeasured(id) => {
                    let chain = buffer::as_slice(&rot.chain);
                    if rot.cursor < chain.len() && chain[rot.cursor] == id {
                        ctx.emit(Effect::ReleaseReset(id));
                        if rot.cursor + 1 < chain.len() {
                            let next = chain[rot.cursor + 1];
                            rot.cursor += 1;
                            ctx.emit(Effect::MeasurePlatformFirmware(next));
                            ctx.emit(Effect::CompareToRim(next));
                            Outcome::Handled
                        } else {
                            Outcome::Transition(State::Ready)
                        }
                    } else {
                        // Stale or misdirected: it is another component's turn.
                        Outcome::Handled
                    }
                },
                Event::PlatformMismatch(id) => {
                    rot.failed = Some(id);
                    Outcome::Transition(State::Recovering)
                },
                _ => Outcome::Super,
            },
            State::Ready => match *event {
                Event::UpdateRequest => Outcome::Transition(State::Updating),
                _ => Outcome::Super,
            },
            State::Updating => match *event {
                Event::UpdateVerified => {
                    ctx.emit(Effect::ActivateUpdate);
                    Outcome::Transition(State::Ready)
                },
                // A rejected update is undone; it is no corruption.
                Event::UpdateRejected => {
                    ctx.emit(Effect::DiscardStaged);
                    Outcome::Transition(State::Ready)
                },
                _ => Outcome::Super,
            },
            State::Recovering => match *event {
                Event::Restored(_) => {
                    rot.retry_count = rot.retry_count.saturating_add(1);
                    if rot.retry_count >= rot.max_retry {
                        // Out of attempts: the follow-up event leads to lockdown.
                        ctx.emit(Effect::Emit(Event::RecoveryFailed));
                        Outcome::Handled
                    } else {
                        // Start the chain over from the top.
                        Outcome::Transition(State::MeasuringPlatform)
                    }
                },
                Event::RecoveryFailed => Outcome::Transition(State::Locked),
                _ => Outcome::Super,
            },
            // The end state swallows every event.
            State::Locked => Outcome::Super,
        }
    }

    /// What happens on entering the state.
    fn call_entry_action(&mut self, rot: &mut Rot<N>, ctx: &mut Sink)
        ensures
            *final(self) == *old(self),
            final(rot)@ == model::entered_rot(*old(self), old(rot)@),
            final(ctx)@ == buffer::filled(
                old(ctx)@,
                model::entry_effects(*old(self), old(rot)@),
                EFFECT_CAP as int,
            ),
    {
        match *self {
            // Start the walk at the first component.
            State::MeasuringPlatform => {
                rot.cursor = 0;
                let chain = buffer::as_slice(&rot.chain);
                if chain.len() > 0 {
                    let first = chain[0];
                    ctx.emit(Effect::MeasurePlatformFirmware(first));
                    ctx.emit(Effect::CompareToRim(first));
                }
            },
            // All is well: no recovery is under way, and no restore counts any more.
            State::Ready => {
                rot.failed = None;
                rot.retry_count = 0;
            },
            State::Updating => {
                ctx.emit(Effect::AuthenticateUpdate);
                ctx.emit(Effect::StageUpdate);
            },
            State::Recovering => {
                if let Some(failed) = rot.failed {
                    ctx.emit(Effect::RestoreGoldenImage(failed));
                }
            },
            State::Locked => {
                ctx.emit(Effect::LatchLockdown);
            },
            _ => {},
        }
    }

    /// The group that the state belongs to, if any.
    fn superstate(&mut self) -> (group: Option<Superstate<'_>>)
        ensures
            group is Some <==> model::operational(*old(self)),
            *final(self) == *old(self),
    {
        State::superstate(self)
    }
}

impl<const N: usize> StatigSuperstate<Rot<N>> for Superstate<'_> {
    /// What the group does with an event that one of its states left to it.
    fn call_handler(&mut self, rot: &mut Rot<N>, event: &Event, ctx: &mut Sink) -> (outcome:
        Outcome<State>)
        ensures
            outcome == model::group_reaction(old(rot)@, *event).outcome,
            final(rot)@ == model::group_reaction(old(rot)@, *event).rot,
            final(ctx)@ == buffer::filled(
                old(ctx)@,
                model::group_reaction(old(rot)@, *event).effects,
                EFFECT_CAP as int,
            ),
    {
        match *event {
            Event::AttestationChallenge => {
                ctx.emit(Effect::SignAttestation);
                Outcome::Handled
            },
            // Corruption while running: recover that component.
            Event::CorruptionDetected(id) => {
                rot.failed = Some(id);
                Outcome::Transition(State::Recovering)
            },
            _ => Outcome::Super,
        }
    }
}

} // verus!
