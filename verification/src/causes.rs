//! What every effect and every change comes from: for each effect the one reason for which
//! it goes outside, for each state the ways into it and out of it, and for each thing that
//! the machine remembers what changes it. Every statement speaks of the machine's state, of
//! what it remembers and of the event as they stand.

use crate::laws;
use crate::model;
use crate::model::{MachineView, RotView};
use crate::vocabulary::{ComponentId, Effect, Event, Provisioning, State};
use statig::Outcome;
use vstd::prelude::*;

verus! {

// ---------------------------------------------------------------------------
// The machine that is built
// ---------------------------------------------------------------------------

/// A board's machine waits for power at the start of the board's own chain, with the
/// board's own limit, no failed component and no restore counted.
pub proof fn built_machine_is_the_boards(chain: Seq<ComponentId>, max_retry: int)
    ensures
        model::initial(chain, max_retry).state == State::PowerOnReset,
        model::initial(chain, max_retry).rot == model::fresh(chain, max_retry),
        model::fresh(chain, max_retry).chain == chain,
        model::fresh(chain, max_retry).cursor == 0,
        model::fresh(chain, max_retry).failed == None::<ComponentId>,
        model::fresh(chain, max_retry).retry_count == 0,
        model::fresh(chain, max_retry).max_retry == max_retry,
{
}

// ---------------------------------------------------------------------------
// Effects
// ---------------------------------------------------------------------------

/// A component is let out of reset exactly when, during a walk, the news is that it matched
/// and it stands in the chain at the place that the walk has come to.
pub proof fn why_release(m: MachineView, event: Event, id: ComponentId)
    ensures
        model::settled_effects(m, event).contains(Effect::ReleaseReset(id)) <==> (m.state
            == State::MeasuringPlatform && event == Event::PlatformMeasured(id) && 0 <= m.rot.cursor
            < m.rot.chain.len() && m.rot.chain[m.rot.cursor] == id),
{
    laws::dispatch_in_short(m, event);
    each_is_contained(model::settled_effects(m, event));
}

/// The measurement of a component is asked for exactly when a walk begins and it is the
/// first of the chain, or when the component right ahead of it in the chain matched in its
/// turn. The comparison is asked for exactly when the measurement is.
pub proof fn why_measure(m: MachineView, event: Event, id: ComponentId)
    ensures
        model::settled_effects(m, event).contains(Effect::MeasurePlatformFirmware(id)) <==> {
            ||| m.state == State::PowerOnReset && event == Event::PowerGood(
                Provisioning::Provisioned,
            ) && m.rot.chain.len() > 0 && m.rot.chain[0] == id
            ||| m.state == State::Recovering && event is Restored && m.rot.retry_count + 1
                < m.rot.max_retry && m.rot.chain.len() > 0 && m.rot.chain[0] == id
            ||| m.state == State::MeasuringPlatform && 0 <= m.rot.cursor && m.rot.cursor + 1
                < m.rot.chain.len() && event == Event::PlatformMeasured(m.rot.chain[m.rot.cursor])
                && m.rot.chain[m.rot.cursor + 1] == id
        },
        model::settled_effects(m, event).contains(Effect::CompareToRim(id))
            <==> model::settled_effects(m, event).contains(Effect::MeasurePlatformFirmware(id)),
{
    laws::dispatch_in_short(m, event);
    each_is_contained(model::settled_effects(m, event));
}

/// An attestation is signed exactly when it is asked for in a state of the group.
pub proof fn why_sign(m: MachineView, event: Event)
    ensures
        model::settled_effects(m, event).contains(Effect::SignAttestation) <==> (event
            == Event::AttestationChallenge && (m.state == State::Ready || m.state == State::Updating
            || m.state == State::Recovering)),
{
    laws::dispatch_in_short(m, event);
    each_is_contained(model::settled_effects(m, event));
}

/// An update is authenticated and staged exactly when it is asked for while the machine is
/// ready. It is activated exactly when it was verified, and discarded exactly when it was
/// rejected, while it is under way.
pub proof fn why_update(m: MachineView, event: Event)
    ensures
        model::settled_effects(m, event).contains(Effect::AuthenticateUpdate) <==> (m.state
            == State::Ready && event == Event::UpdateRequest),
        model::settled_effects(m, event).contains(Effect::StageUpdate) <==> (m.state
            == State::Ready && event == Event::UpdateRequest),
        model::settled_effects(m, event).contains(Effect::ActivateUpdate) <==> (m.state
            == State::Updating && event == Event::UpdateVerified),
        model::settled_effects(m, event).contains(Effect::DiscardStaged) <==> (m.state
            == State::Updating && event == Event::UpdateRejected),
{
    laws::dispatch_in_short(m, event);
    each_is_contained(model::settled_effects(m, event));
}

/// The golden image of a component is restored exactly when its corruption is reported in a
/// state of the group, or its mismatch during a walk.
pub proof fn why_restore(m: MachineView, event: Event, id: ComponentId)
    ensures
        model::settled_effects(m, event).contains(Effect::RestoreGoldenImage(id)) <==> {
            ||| event == Event::CorruptionDetected(id) && (m.state == State::Ready || m.state
                == State::Updating || m.state == State::Recovering)
            ||| event == Event::PlatformMismatch(id) && m.state == State::MeasuringPlatform
        },
{
    laws::dispatch_in_short(m, event);
    each_is_contained(model::settled_effects(m, event));
}

/// The lockdown is latched exactly when the device turns out not to be provisioned, when
/// recovery is reported to have failed, or when the last restore allowed was made.
pub proof fn why_latch(m: MachineView, event: Event)
    ensures
        model::settled_effects(m, event).contains(Effect::LatchLockdown) <==> {
            ||| m.state == State::PowerOnReset && event == Event::PowerGood(
                Provisioning::Unprovisioned,
            )
            ||| m.state == State::Recovering && event == Event::RecoveryFailed
            ||| m.state == State::Recovering && event is Restored && m.rot.retry_count + 1
                >= m.rot.max_retry
        },
{
    laws::dispatch_in_short(m, event);
    each_is_contained(model::settled_effects(m, event));
}

/// No request for a follow-up event goes outside.
pub proof fn nothing_internal_goes_outside(m: MachineView, event: Event, internal: Event)
    ensures
        !model::settled_effects(m, event).contains(Effect::Emit(internal)),
{
    laws::dispatch_in_short(m, event);
}

/// No effect goes outside twice in one dispatch. Where several do, a release comes before
/// everything else, the authentication of an update comes first and its staging last, and
/// the comparison of a component comes last, after its measurement.
pub proof fn effects_are_in_order(m: MachineView, event: Event)
    ensures
        forall|i: int, j: int|
            #![trigger model::settled_effects(m, event)[i], model::settled_effects(m, event)[j]]
            0 <= i < j < model::settled_effects(m, event).len() ==> {
                let earlier = model::settled_effects(m, event)[i];
                let later = model::settled_effects(m, event)[j];
                &&& earlier != later
                &&& !(later is ReleaseReset)
                &&& !(later is AuthenticateUpdate)
                &&& !(earlier is StageUpdate)
                &&& !(earlier is CompareToRim)
            },
{
    laws::dispatch_in_short(m, event);
}

/// Each of the first three effects is among the effects.
proof fn each_is_contained(effects: Seq<Effect>)
    ensures
        effects.len() > 0 ==> effects.contains(effects[0]),
        effects.len() > 1 ==> effects.contains(effects[1]),
        effects.len() > 2 ==> effects.contains(effects[2]),
{
}

// ---------------------------------------------------------------------------
// States
// ---------------------------------------------------------------------------

/// The machine waits for power exactly as long as it has been told of no power: nothing
/// leads back there.
pub proof fn when_waiting_for_power(m: MachineView, event: Event)
    ensures
        model::settled(m, event).state == State::PowerOnReset <==> (m.state == State::PowerOnReset
            && !(event is PowerGood)),
{
    laws::dispatch_in_short(m, event);
}

/// The machine is walking the chain exactly when a walk begins, or when one is under way
/// and the event is neither a mismatch nor the match of the last component in its turn.
pub proof fn when_walking(m: MachineView, event: Event)
    ensures
        model::settled(m, event).state == State::MeasuringPlatform <==> {
            ||| m.state == State::PowerOnReset && event == Event::PowerGood(
                Provisioning::Provisioned,
            )
            ||| m.state == State::Recovering && event is Restored && m.rot.retry_count + 1
                < m.rot.max_retry
            ||| m.state == State::MeasuringPlatform && !(event is PlatformMismatch) && !(
            m.rot.chain.len() > 0 && m.rot.cursor == m.rot.chain.len() - 1 && event
                == Event::PlatformMeasured(m.rot.chain[m.rot.chain.len() - 1]))
        },
{
    laws::dispatch_in_short(m, event);
}

/// The machine is ready exactly when the last component of the chain matched in its turn,
/// when an update was verified or rejected, or when it was ready and neither an update is
/// asked for nor corruption reported.
pub proof fn when_ready(m: MachineView, event: Event)
    ensures
        model::settled(m, event).state == State::Ready <==> {
            ||| m.state == State::MeasuringPlatform && m.rot.chain.len() > 0 && m.rot.cursor
                == m.rot.chain.len() - 1 && event == Event::PlatformMeasured(
                m.rot.chain[m.rot.chain.len() - 1],
            )
            ||| m.state == State::Updating && (event == Event::UpdateVerified || event
                == Event::UpdateRejected)
            ||| m.state == State::Ready && event != Event::UpdateRequest && !(event is
                CorruptionDetected)
        },
{
    laws::dispatch_in_short(m, event);
}

/// The machine is updating exactly when an update is asked for while it is ready, or when
/// one is under way that was neither verified nor rejected, with no corruption reported.
pub proof fn when_updating(m: MachineView, event: Event)
    ensures
        model::settled(m, event).state == State::Updating <==> {
            ||| m.state == State::Ready && event == Event::UpdateRequest
            ||| m.state == State::Updating && event != Event::UpdateVerified && event
                != Event::UpdateRejected && !(event is CorruptionDetected)
        },
{
    laws::dispatch_in_short(m, event);
}

/// The machine is recovering exactly when a mismatch is reported during a walk, when
/// corruption is reported while ready or updating, or when it was recovering and is told
/// neither that a restore is done nor that recovery failed.
pub proof fn when_recovering(m: MachineView, event: Event)
    ensures
        model::settled(m, event).state == State::Recovering <==> {
            ||| m.state == State::MeasuringPlatform && event is PlatformMismatch
            ||| (m.state == State::Ready || m.state == State::Updating) && event is
                CorruptionDetected
            ||| m.state == State::Recovering && !(event is Restored) && event
                != Event::RecoveryFailed
        },
{
    laws::dispatch_in_short(m, event);
}

/// The machine is locked exactly when it was, when the device turns out not to be
/// provisioned, when recovery is reported to have failed, or when the last restore allowed
/// was made.
pub proof fn when_locked(m: MachineView, event: Event)
    ensures
        model::settled(m, event).state == State::Locked <==> {
            ||| m.state == State::Locked
            ||| m.state == State::PowerOnReset && event == Event::PowerGood(
                Provisioning::Unprovisioned,
            )
            ||| m.state == State::Recovering && event == Event::RecoveryFailed
            ||| m.state == State::Recovering && event is Restored && m.rot.retry_count + 1
                >= m.rot.max_retry
        },
{
    laws::dispatch_in_short(m, event);
}

// ---------------------------------------------------------------------------
// What is remembered
// ---------------------------------------------------------------------------

/// The chain and the limit are the board's for good. The place in the chain goes back to
/// the first when a walk begins, moves on by one when a component that has a successor
/// matched in its turn, and else stays where it is.
pub proof fn what_moves_the_walk(m: MachineView, event: Event)
    ensures
        model::settled(m, event).rot.chain == m.rot.chain,
        model::settled(m, event).rot.max_retry == m.rot.max_retry,
        model::settled(m, event).rot.cursor == (if (m.state == State::PowerOnReset && event
            == Event::PowerGood(Provisioning::Provisioned)) || (m.state == State::Recovering
            && event is Restored && m.rot.retry_count + 1 < m.rot.max_retry) {
            0
        } else if m.state == State::MeasuringPlatform && 0 <= m.rot.cursor && m.rot.cursor + 1
            < m.rot.chain.len() && event == Event::PlatformMeasured(m.rot.chain[m.rot.cursor]) {
            m.rot.cursor + 1
        } else {
            m.rot.cursor
        }),
{
    laws::dispatch_in_short(m, event);
}

/// The failed component is the one that was last named in a mismatch during a walk or in
/// corruption while operational; it is forgotten when the machine becomes ready.
pub proof fn what_names_the_failed(m: MachineView, event: Event)
    ensures
        m.state == State::MeasuringPlatform ==> (event matches Event::PlatformMismatch(id)
            ==> model::settled(m, event).rot.failed == Some(id)),
        m.state == State::Ready || m.state == State::Updating || m.state == State::Recovering ==> (
        event matches Event::CorruptionDetected(id) ==> model::settled(m, event).rot.failed == Some(
            id,
        )),
        m.state != State::Ready && model::settled(m, event).state == State::Ready
            ==> model::settled(m, event).rot.failed == None::<ComponentId>,
        model::settled(m, event).rot.failed != m.rot.failed ==> {
            ||| m.state == State::MeasuringPlatform && event is PlatformMismatch
            ||| event is CorruptionDetected && (m.state == State::Ready || m.state
                == State::Updating || m.state == State::Recovering)
            ||| m.state != State::Ready && model::settled(m, event).state == State::Ready
        },
{
    laws::dispatch_in_short(m, event);
}

/// The count of restores goes up by one, as far as a byte can count, with each restore done
/// while recovering, goes back to none when the machine becomes ready, and else stays.
pub proof fn what_counts_as_restore(m: MachineView, event: Event)
    ensures
        model::settled(m, event).rot.retry_count == (if m.state == State::Recovering && event is
            Restored {
            if m.rot.retry_count < 255 {
                m.rot.retry_count + 1
            } else {
                255
            }
        } else if m.state != State::Ready && model::settled(m, event).state == State::Ready {
            0
        } else {
            m.rot.retry_count
        }),
{
    laws::dispatch_in_short(m, event);
}

// ---------------------------------------------------------------------------
// What a state has no use for
// ---------------------------------------------------------------------------

/// Whether a state has a use for an event, by itself or through its group.
pub open spec fn has_use(state: State, event: Event) -> bool {
    match event {
        Event::PowerGood(_) => state == State::PowerOnReset,
        Event::PlatformMeasured(_) => state == State::MeasuringPlatform,
        Event::PlatformMismatch(_) => state == State::MeasuringPlatform,
        Event::UpdateRequest => state == State::Ready,
        Event::UpdateVerified => state == State::Updating,
        Event::UpdateRejected => state == State::Updating,
        Event::Restored(_) => state == State::Recovering,
        Event::RecoveryFailed => state == State::Recovering,
        Event::AttestationChallenge => state == State::Ready || state == State::Updating || state
            == State::Recovering,
        Event::CorruptionDetected(_) => state == State::Ready || state == State::Updating || state
            == State::Recovering,
    }
}

/// An event for which the state has no use changes nothing and has no effects, whatever the
/// machine remembers.
pub proof fn useless_events_change_nothing(m: MachineView, event: Event)
    requires
        !has_use(m.state, event),
    ensures
        model::settled(m, event) == m,
        model::settled_effects(m, event).len() == 0,
{
    laws::dispatch_in_short(m, event);
}

/// Power-good is acted on while the machine waits for power and at no other time.
pub proof fn power_good_counts_once(m: MachineView, provisioning: Provisioning)
    requires
        m.state != State::PowerOnReset,
    ensures
        model::settled(m, Event::PowerGood(provisioning)) == m,
        model::settled_effects(m, Event::PowerGood(provisioning)).len() == 0,
{
    laws::dispatch_in_short(m, Event::PowerGood(provisioning));
}

/// A walk under way takes note of matches and mismatches alone, wherever it has come to,
/// and is left for ready or for recovery and for nothing else.
pub proof fn walk_is_not_disturbed(m: MachineView, event: Event)
    requires
        m.state == State::MeasuringPlatform,
    ensures
        !(event is PlatformMeasured) && !(event is PlatformMismatch) ==> {
            &&& model::settled(m, event) == m
            &&& model::settled_effects(m, event).len() == 0
        },
        model::settled(m, event).state != State::MeasuringPlatform ==> {
            ||| model::settled(m, event).state == State::Ready && event is PlatformMeasured
            ||| model::settled(m, event).state == State::Recovering && event is PlatformMismatch
        },
{
    laws::dispatch_in_short(m, event);
}

/// A ready machine is left for an update that is asked for, or for the recovery of a
/// component whose corruption is reported; it answers challenges, and nothing else changes
/// it or gets anything out of it.
pub proof fn ready_is_not_disturbed(m: MachineView, event: Event)
    requires
        m.state == State::Ready,
    ensures
        model::settled(m, event).state != State::Ready ==> {
            ||| model::settled(m, event).state == State::Updating && event == Event::UpdateRequest
            ||| model::settled(m, event).state == State::Recovering && event is
                CorruptionDetected
        },
        event != Event::UpdateRequest && !(event is CorruptionDetected) ==> model::settled(m, event)
            == m,
        event != Event::UpdateRequest && !(event is CorruptionDetected) && event
            != Event::AttestationChallenge ==> model::settled_effects(m, event).len() == 0,
{
    laws::dispatch_in_short(m, event);
}

/// An update under way waits until it is decided: it is left for ready once it was verified or
/// rejected, or for the recovery of a component whose corruption is reported. Asked for
/// again, it is neither staged again nor activated; nothing but a challenge gets anything
/// out of it.
pub proof fn update_waits_until_it_is_decided(m: MachineView, event: Event)
    requires
        m.state == State::Updating,
    ensures
        model::settled(m, event).state != State::Updating ==> {
            ||| model::settled(m, event).state == State::Ready && (event == Event::UpdateVerified
                || event == Event::UpdateRejected)
            ||| model::settled(m, event).state == State::Recovering && event is
                CorruptionDetected
        },
        event != Event::UpdateVerified && event != Event::UpdateRejected && !(event is
            CorruptionDetected) ==> model::settled(m, event) == m,
        event != Event::UpdateVerified && event != Event::UpdateRejected && !(event is
            CorruptionDetected) && event != Event::AttestationChallenge ==> model::settled_effects(
            m,
            event,
        ).len() == 0,
{
    laws::dispatch_in_short(m, event);
}

/// A recovery waits for its restore: it is left only once a restore is done or recovery is
/// reported to have failed. Corruption reported meanwhile turns it to the component that was
/// named, a challenge is answered, and nothing else changes it or gets anything out of it.
pub proof fn recovery_waits_for_its_restore(m: MachineView, event: Event)
    requires
        m.state == State::Recovering,
    ensures
        model::settled(m, event).state != State::Recovering ==> event is Restored || event
            == Event::RecoveryFailed,
        !(event is Restored) && event != Event::RecoveryFailed && !(event is CorruptionDetected)
            ==> model::settled(m, event) == m,
        !(event is Restored) && event != Event::RecoveryFailed && !(event is CorruptionDetected)
            && event != Event::AttestationChallenge ==> model::settled_effects(m, event).len() == 0,
{
    laws::dispatch_in_short(m, event);
}

// ---------------------------------------------------------------------------
// Handlers
// ---------------------------------------------------------------------------

/// Only the ready, the updating and the recovering state have the group above them.
pub proof fn who_is_operational(state: State)
    ensures
        model::operational(state) <==> (state == State::Ready || state == State::Updating || state
            == State::Recovering),
{
}

/// A state leaves to its group exactly the events that are not its own, untouched.
pub proof fn what_a_state_leaves_to_its_group(state: State, rot: RotView, event: Event)
    ensures
        model::leaf_reaction(state, rot, event).outcome is Super <==> {
            ||| !has_use(state, event)
            ||| event == Event::AttestationChallenge
            ||| event is CorruptionDetected
        },
        model::leaf_reaction(state, rot, event).outcome is Super ==> {
            &&& model::leaf_reaction(state, rot, event).rot == rot
            &&& model::leaf_reaction(state, rot, event).effects.len() == 0
        },
{
}

/// The group answers a challenge on the spot, turns to the recovery of a component whose
/// corruption is reported, and leaves every other event untouched.
pub proof fn what_the_group_does(rot: RotView, event: Event)
    ensures
        event == Event::AttestationChallenge ==> {
            &&& model::group_reaction(rot, event).outcome is Handled
            &&& model::group_reaction(rot, event).rot == rot
            &&& model::group_reaction(rot, event).effects == seq![Effect::SignAttestation]
        },
        event matches Event::CorruptionDetected(id) ==> {
            &&& model::group_reaction(rot, event).outcome == Outcome::Transition(State::Recovering)
            &&& model::group_reaction(rot, event).rot == RotView { failed: Some(id), ..rot }
            &&& model::group_reaction(rot, event).effects.len() == 0
        },
        event != Event::AttestationChallenge && !(event is CorruptionDetected) ==> {
            &&& model::group_reaction(rot, event).outcome is Super
            &&& model::group_reaction(rot, event).rot == rot
            &&& model::group_reaction(rot, event).effects.len() == 0
        },
{
}

/// A walk is moved on without a change of state, which would begin it again; and the last
/// restore allowed asks for lockdown by a follow-up event, with the machine still
/// recovering.
pub proof fn what_stays_in_its_state(rot: RotView, id: ComponentId)
    ensures
        model::leaf_reaction(
            State::MeasuringPlatform,
            rot,
            Event::PlatformMeasured(id),
        ).outcome is Transition <==> (rot.chain.len() > 0 && rot.cursor == rot.chain.len() - 1
            && rot.chain[rot.cursor] == id),
        rot.retry_count + 1 >= rot.max_retry ==> {
            let r = model::leaf_reaction(State::Recovering, rot, Event::Restored(id));
            &&& r.outcome is Handled
            &&& r.effects == seq![Effect::Emit(Event::RecoveryFailed)]
        },
{
}

/// Entering a state changes this of what is remembered and nothing else: a walk goes back to
/// the first component, and a machine that is ready forgets its recovery.
pub proof fn what_entering_changes(state: State, rot: RotView)
    ensures
        model::entered_rot(state, rot).chain == rot.chain,
        model::entered_rot(state, rot).max_retry == rot.max_retry,
        model::entered_rot(state, rot).cursor == (if state == State::MeasuringPlatform {
            0
        } else {
            rot.cursor
        }),
        model::entered_rot(state, rot).failed == (if state == State::Ready {
            None
        } else {
            rot.failed
        }),
        model::entered_rot(state, rot).retry_count == (if state == State::Ready {
            0
        } else {
            rot.retry_count
        }),
{
}

/// What entering a state asks for.
pub proof fn what_entering_asks_for(state: State, rot: RotView)
    ensures
        state == State::MeasuringPlatform && rot.chain.len() > 0 ==> model::entry_effects(
            state,
            rot,
        ) == seq![
            Effect::MeasurePlatformFirmware(rot.chain[0]),
            Effect::CompareToRim(rot.chain[0]),
        ],
        state == State::Updating ==> model::entry_effects(state, rot) == seq![
            Effect::AuthenticateUpdate,
            Effect::StageUpdate,
        ],
        state == State::Recovering ==> (rot.failed matches Some(id) ==> model::entry_effects(
            state,
            rot,
        ) == seq![Effect::RestoreGoldenImage(id)]),
        state == State::Locked ==> model::entry_effects(state, rot) == seq![Effect::LatchLockdown],
        state == State::PowerOnReset || state == State::Ready || (state == State::MeasuringPlatform
            && rot.chain.len() == 0) || (state == State::Recovering && rot.failed is None)
            ==> model::entry_effects(state, rot).len() == 0,
{
}

} // verus!
