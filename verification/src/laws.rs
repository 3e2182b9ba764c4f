//! What holds of every event, whatever the machine.

use crate::model;
use crate::model::{MachineView, RotView};
use crate::vocabulary::{ComponentId, Effect, Event, Provisioning, State};
use statig::Outcome;
use vstd::prelude::*;

verus! {

// ---------------------------------------------------------------------------
// One dispatch
// ---------------------------------------------------------------------------

/// Whether the event is the last restore allowed.
pub open spec fn exhausts(m: MachineView, event: Event) -> bool {
    m.state is Recovering && event is Restored && !model::may_retry(m.rot)
}

/// A dispatch in short: the last restore allowed counts and then locks down; every other
/// event does what its handlers do, and all its effects go outside.
pub proof fn dispatch_in_short(m: MachineView, event: Event)
    ensures
        exhausts(m, event) ==> {
            &&& model::follow_ups(model::step_effects(m, event)) == seq![Event::RecoveryFailed]
            &&& model::follow_ups(
                model::step_effects(model::stepped(m, event), Event::RecoveryFailed),
            ) == Seq::<Event>::empty()
            &&& model::settled(m, event) == MachineView {
                state: State::Locked,
                rot: RotView { retry_count: model::one_more_retry(m.rot), ..m.rot },
            }
            &&& model::settled_effects(m, event) == seq![Effect::LatchLockdown]
        },
        !exhausts(m, event) ==> {
            &&& model::follow_ups(model::step_effects(m, event)) == Seq::<Event>::empty()
            &&& model::settled(m, event) == model::stepped(m, event)
            &&& model::settled_effects(m, event) == model::step_effects(m, event)
        },
{
    let now = model::step_effects(m, event);
    if exhausts(m, event) {
        reveal_with_fuel(model::follow_ups, 2);
        reveal_with_fuel(model::outside, 2);
        assert(now =~= seq![Effect::Emit(Event::RecoveryFailed)]);
        assert(now.drop_last() =~= Seq::<Effect>::empty());
        let last = model::step_effects(model::stepped(m, event), Event::RecoveryFailed);
        assert(last =~= seq![Effect::LatchLockdown]);
        model::all_go_outside(last);
    } else {
        model::all_go_outside(now);
    }
}

/// One dispatch settles the machine. An event asks for one follow-up event at most, and
/// only a restore that was the last allowed does; the follow-up asks for none.
pub proof fn one_follow_up_settles(m: MachineView, event: Event)
    ensures
        model::follow_ups(model::step_effects(m, event)).len() <= 1,
        model::follow_ups(model::step_effects(m, event)).len() == 1 <==> m.state is Recovering
            && event is Restored && !model::may_retry(m.rot),
        model::follow_ups(model::step_effects(m, event)).len() == 1 ==> {
            let later = model::follow_ups(model::step_effects(m, event))[0];
            &&& later is RecoveryFailed
            &&& model::follow_ups(
                model::step_effects(model::stepped(m, event), later),
            ) == Seq::<Event>::empty()
        },
{
    dispatch_in_short(m, event);
}

/// Every event produces three effects at most, the inside ones included, so neither the
/// effect buffer nor the queue of waiting events ever drops anything.
pub proof fn three_effects_at_most(m: MachineView, event: Event)
    ensures
        model::step_effects(m, event).len() <= 3,
        model::settled_effects(m, event).len() <= 3,
{
    dispatch_in_short(m, event);
}

/// What holds of a machine between two events holds of it after the next one too.
pub proof fn validity_lasts(m: MachineView, event: Event)
    requires
        model::valid(m),
    ensures
        model::valid(model::settled(m, event)),
{
    dispatch_in_short(m, event);
}

/// An event for which neither the state nor its group has a use changes nothing and
/// has no effects.
pub proof fn events_without_use_are_dropped(m: MachineView, event: Event)
    requires
        model::reaction(m.state, m.rot, event).outcome is Super,
    ensures
        model::settled(m, event) == m,
        model::settled_effects(m, event) == Seq::<Effect>::empty(),
{
    dispatch_in_short(m, event);
}

/// No inside effect ever reaches the platform.
pub proof fn inside_effects_stay_inside(m: MachineView, event: Event, i: int)
    requires
        0 <= i < model::settled_effects(m, event).len(),
    ensures
        !(model::settled_effects(m, event)[i] is Emit),
{
    dispatch_in_short(m, event);
}

/// The chain and the limit on restores, which the board chose, never change.
pub proof fn board_choices_stay(m: MachineView, event: Event)
    ensures
        model::settled(m, event).rot.chain == m.rot.chain,
        model::settled(m, event).rot.max_retry == m.rot.max_retry,
{
}

// ---------------------------------------------------------------------------
// Boot
// ---------------------------------------------------------------------------

/// A provisioned power-on begins the walk at the first component, and goes nowhere else.
pub proof fn provisioned_power_on_starts_the_walk(m: MachineView)
    requires
        m.state is PowerOnReset,
    ensures
        model::settled(m, Event::PowerGood(Provisioning::Provisioned)) == (MachineView {
            state: State::MeasuringPlatform,
            rot: RotView { cursor: 0, ..m.rot },
        }),
        model::settled_effects(m, Event::PowerGood(Provisioning::Provisioned)) == (
        if m.rot.chain.len() > 0 {
            model::measure(m.rot.chain[0])
        } else {
            Seq::empty()
        }),
{
    dispatch_in_short(m, Event::PowerGood(Provisioning::Provisioned));
}

/// An unprovisioned power-on locks the platform down at once; no component is measured
/// or released.
pub proof fn unprovisioned_power_on_locks_down(m: MachineView)
    requires
        m.state is PowerOnReset,
    ensures
        model::settled(m, Event::PowerGood(Provisioning::Unprovisioned)) == (MachineView {
            state: State::Locked,
            ..m
        }),
        model::settled_effects(m, Event::PowerGood(Provisioning::Unprovisioned)) == seq![
            Effect::LatchLockdown,
        ],
{
    dispatch_in_short(m, Event::PowerGood(Provisioning::Unprovisioned));
}

/// Nothing happens before power-good: every other event leaves the machine as it was.
pub proof fn nothing_happens_before_power_good(m: MachineView, event: Event)
    requires
        m.state is PowerOnReset,
        !(event is PowerGood),
    ensures
        model::settled(m, event) == m,
        model::settled_effects(m, event) == Seq::<Effect>::empty(),
{
    dispatch_in_short(m, event);
}

/// A component is released only in answer to the news that its own measurement matched,
/// and only while it is the one under measurement.
pub proof fn release_answers_a_measurement(m: MachineView, event: Event, id: ComponentId)
    requires
        model::settled_effects(m, event).contains(Effect::ReleaseReset(id)),
    ensures
        m.state is MeasuringPlatform,
        event == Event::PlatformMeasured(id),
        model::under_measurement(m.rot, id),
{
    dispatch_in_short(m, event);
}

/// The news that a component matched which is not the one under measurement is stale or
/// misdirected: it releases nothing, moves the walk nowhere and changes nothing.
pub proof fn misdirected_reports_are_dropped(m: MachineView, id: ComponentId)
    requires
        !(m.state is MeasuringPlatform && model::under_measurement(m.rot, id)),
    ensures
        model::settled(m, Event::PlatformMeasured(id)) == m,
        model::settled_effects(m, Event::PlatformMeasured(id)) == Seq::<Effect>::empty(),
{
    dispatch_in_short(m, Event::PlatformMeasured(id));
}

/// The news that the component under measurement matched releases that component, and
/// then moves the walk to the next component of the chain, or ends it at the last one.
pub proof fn walk_moves_to_the_next_component(m: MachineView, id: ComponentId)
    requires
        m.state is MeasuringPlatform,
        model::under_measurement(m.rot, id),
    ensures
        model::more_to_measure(m.rot) ==> {
            &&& model::settled(m, Event::PlatformMeasured(id)) == MachineView {
                rot: RotView { cursor: m.rot.cursor + 1, ..m.rot },
                ..m
            }
            &&& model::settled_effects(m, Event::PlatformMeasured(id)) == seq![
                Effect::ReleaseReset(id),
            ] + model::measure(m.rot.chain[m.rot.cursor + 1])
        },
        !model::more_to_measure(m.rot) ==> {
            &&& model::settled(m, Event::PlatformMeasured(id)) == MachineView {
                state: State::Ready,
                rot: RotView { failed: None, retry_count: 0, ..m.rot },
            }
            &&& model::settled_effects(m, Event::PlatformMeasured(id)) == seq![
                Effect::ReleaseReset(id),
            ]
        },
{
    dispatch_in_short(m, Event::PlatformMeasured(id));
}

/// The machine becomes ready only on the news that the last component of the chain
/// matched, when its turn has come, or when an update is over.
pub proof fn ready_needs_the_whole_chain(m: MachineView, event: Event)
    requires
        model::settled(m, event).state is Ready,
        !(m.state is Ready),
    ensures
        (m.state is MeasuringPlatform && m.rot.chain.len() > 0 && m.rot.cursor
            == m.rot.chain.len() - 1 && event == Event::PlatformMeasured(m.rot.chain.last())) || (
        m.state is Updating && (event is UpdateVerified || event is UpdateRejected)),
{
    dispatch_in_short(m, event);
}

// ---------------------------------------------------------------------------
// Update
// ---------------------------------------------------------------------------

/// An update request leads from ready to the authentication and staging of the update.
pub proof fn update_is_authenticated_and_staged(m: MachineView)
    requires
        m.state is Ready,
    ensures
        model::settled(m, Event::UpdateRequest) == (MachineView { state: State::Updating, ..m }),
        model::settled_effects(m, Event::UpdateRequest) == seq![
            Effect::AuthenticateUpdate,
            Effect::StageUpdate,
        ],
{
    dispatch_in_short(m, Event::UpdateRequest);
}

/// A rejected update is thrown away, a verified one is activated, and the machine is
/// ready again; all else is as it was.
pub proof fn update_ends_in_ready(m: MachineView)
    requires
        m.state is Updating,
    ensures
        model::settled(m, Event::UpdateRejected) == (MachineView {
            state: State::Ready,
            rot: RotView { failed: None, retry_count: 0, ..m.rot },
        }),
        model::settled_effects(m, Event::UpdateRejected) == seq![Effect::DiscardStaged],
        model::settled(m, Event::UpdateVerified) == (MachineView {
            state: State::Ready,
            rot: RotView { failed: None, retry_count: 0, ..m.rot },
        }),
        model::settled_effects(m, Event::UpdateVerified) == seq![Effect::ActivateUpdate],
{
    dispatch_in_short(m, Event::UpdateRejected);
    dispatch_in_short(m, Event::UpdateVerified);
}

/// No event about an update ever leads to recovery or to lockdown.
pub proof fn updates_never_lead_to_recovery(m: MachineView, event: Event)
    requires
        event is UpdateRequest || event is UpdateVerified || event is UpdateRejected,
        model::settled(m, event).state is Recovering || model::settled(m, event).state is Locked,
    ensures
        model::settled(m, event) == m,
        model::settled_effects(m, event) == Seq::<Effect>::empty(),
{
    dispatch_in_short(m, event);
}

// ---------------------------------------------------------------------------
// Recovery
// ---------------------------------------------------------------------------

/// Corruption noticed in any operational state starts the recovery of the component that
/// was named, and of no other.
pub proof fn corruption_recovers_the_named_component(m: MachineView, id: ComponentId)
    requires
        model::operational(m.state),
    ensures
        model::settled(m, Event::CorruptionDetected(id)) == (MachineView {
            state: State::Recovering,
            rot: RotView { failed: Some(id), ..m.rot },
        }),
        model::settled_effects(m, Event::CorruptionDetected(id)) == seq![
            Effect::RestoreGoldenImage(id),
        ],
{
    dispatch_in_short(m, Event::CorruptionDetected(id));
}

/// A mismatch during the walk starts the recovery of the component that was named.
pub proof fn mismatch_recovers_the_named_component(m: MachineView, id: ComponentId)
    requires
        m.state is MeasuringPlatform,
    ensures
        model::settled(m, Event::PlatformMismatch(id)) == (MachineView {
            state: State::Recovering,
            rot: RotView { failed: Some(id), ..m.rot },
        }),
        model::settled_effects(m, Event::PlatformMismatch(id)) == seq![
            Effect::RestoreGoldenImage(id),
        ],
{
    dispatch_in_short(m, Event::PlatformMismatch(id));
}

/// A golden image is restored only for a component of which corruption or a mismatch was
/// reported just now.
pub proof fn restore_answers_a_report(m: MachineView, event: Event, id: ComponentId)
    requires
        model::settled_effects(m, event).contains(Effect::RestoreGoldenImage(id)),
    ensures
        (model::operational(m.state) && event == Event::CorruptionDetected(id)) || (
        m.state is MeasuringPlatform && event == Event::PlatformMismatch(id)),
{
    dispatch_in_short(m, event);
}

/// After a restore with another one left, the walk starts over from the first component.
pub proof fn restore_starts_the_walk_over(m: MachineView, id: ComponentId)
    requires
        model::valid(m),
        m.state is Recovering,
        model::may_retry(m.rot),
    ensures
        model::settled(m, Event::Restored(id)) == (MachineView {
            state: State::MeasuringPlatform,
            rot: RotView { cursor: 0, retry_count: m.rot.retry_count + 1, ..m.rot },
        }),
        model::settled_effects(m, Event::Restored(id)) == (if m.rot.chain.len() > 0 {
            model::measure(m.rot.chain[0])
        } else {
            Seq::empty()
        }),
{
    dispatch_in_short(m, Event::Restored(id));
}

/// After the last restore allowed, the machine locks itself down within the same
/// dispatch, with no word from outside that recovery failed.
pub proof fn last_restore_locks_down(m: MachineView, id: ComponentId)
    requires
        m.state is Recovering,
        !model::may_retry(m.rot),
    ensures
        model::settled(m, Event::Restored(id)).state is Locked,
        model::settled_effects(m, Event::Restored(id)) == seq![Effect::LatchLockdown],
{
    dispatch_in_short(m, Event::Restored(id));
}

/// A machine that becomes ready forgets the component that had failed and the restores that
/// it took.
pub proof fn becoming_ready_forgets_the_recovery(m: MachineView, event: Event)
    requires
        model::settled(m, event).state is Ready,
        !(m.state is Ready),
    ensures
        model::settled(m, event).rot.failed is None,
        model::settled(m, event).rot.retry_count == 0,
{
    dispatch_in_short(m, event);
}

/// The machine locks down for three reasons alone: it is not provisioned, recovery is
/// reported to have failed, or the last restore allowed was made.
pub proof fn lockdown_has_a_reason(m: MachineView, event: Event)
    requires
        model::settled(m, event).state is Locked,
        !(m.state is Locked),
    ensures
        (m.state is PowerOnReset && event == Event::PowerGood(Provisioning::Unprovisioned)) || (
        m.state is Recovering && event is RecoveryFailed) || (m.state is Recovering
            && event is Restored && !model::may_retry(m.rot)),
        model::settled_effects(m, event) == seq![Effect::LatchLockdown],
{
    dispatch_in_short(m, event);
}

/// The lockdown is latched on the way into lockdown and never otherwise.
pub proof fn latching_means_lockdown(m: MachineView, event: Event)
    requires
        model::settled_effects(m, event).contains(Effect::LatchLockdown),
    ensures
        !(m.state is Locked),
        model::settled(m, event).state is Locked,
{
    dispatch_in_short(m, event);
}

// ---------------------------------------------------------------------------
// Attestation
// ---------------------------------------------------------------------------

/// A challenge is answered in every operational state, and changes nothing; in every
/// other state it is dropped.
pub proof fn attestation_is_answered_while_operational(m: MachineView)
    ensures
        model::settled(m, Event::AttestationChallenge) == m,
        model::settled_effects(m, Event::AttestationChallenge) == (if model::operational(m.state) {
            seq![Effect::SignAttestation]
        } else {
            Seq::empty()
        }),
{
    dispatch_in_short(m, Event::AttestationChallenge);
}

/// A signature is given in answer to a challenge in an operational state and never
/// otherwise; and then it is all that is done.
pub proof fn signature_answers_a_challenge(m: MachineView, event: Event)
    ensures
        model::settled_effects(m, event).contains(Effect::SignAttestation) <==> (
        event is AttestationChallenge && model::operational(m.state)),
        model::settled_effects(m, event).contains(Effect::SignAttestation) ==> {
            &&& model::settled(m, event) == m
            &&& model::settled_effects(m, event) == seq![Effect::SignAttestation]
        },
{
    dispatch_in_short(m, event);
    if event is AttestationChallenge && model::operational(m.state) {
        attestation_is_answered_while_operational(m);
        assert(model::settled_effects(m, event)[0] == Effect::SignAttestation);
    }
}

// ---------------------------------------------------------------------------
// Component ids
// ---------------------------------------------------------------------------

/// The event with every component id put through `f`.
pub open spec fn renamed_event(event: Event, f: spec_fn(ComponentId) -> ComponentId) -> Event {
    match event {
        Event::PlatformMeasured(id) => Event::PlatformMeasured(f(id)),
        Event::PlatformMismatch(id) => Event::PlatformMismatch(f(id)),
        Event::CorruptionDetected(id) => Event::CorruptionDetected(f(id)),
        Event::Restored(id) => Event::Restored(f(id)),
        _ => event,
    }
}

/// The effect with every component id put through `f`.
pub open spec fn renamed_effect(effect: Effect, f: spec_fn(ComponentId) -> ComponentId) -> Effect {
    match effect {
        Effect::MeasurePlatformFirmware(id) => Effect::MeasurePlatformFirmware(f(id)),
        Effect::CompareToRim(id) => Effect::CompareToRim(f(id)),
        Effect::ReleaseReset(id) => Effect::ReleaseReset(f(id)),
        Effect::RestoreGoldenImage(id) => Effect::RestoreGoldenImage(f(id)),
        Effect::Emit(event) => Effect::Emit(renamed_event(event, f)),
        _ => effect,
    }
}

/// The effects with every component id put through `f`.
pub open spec fn renamed_effects(
    effects: Seq<Effect>,
    f: spec_fn(ComponentId) -> ComponentId,
) -> Seq<Effect> {
    effects.map_values(|effect: Effect| renamed_effect(effect, f))
}

/// What the machine remembers, with every component id put through `f`.
pub open spec fn renamed_rot(rot: RotView, f: spec_fn(ComponentId) -> ComponentId) -> RotView {
    RotView {
        chain: rot.chain.map_values(f),
        failed: match rot.failed {
            Some(id) => Some(f(id)),
            None => None,
        },
        ..rot
    }
}

/// The machine with every component id put through `f`.
pub open spec fn renamed(m: MachineView, f: spec_fn(ComponentId) -> ComponentId) -> MachineView {
    MachineView { state: m.state, rot: renamed_rot(m.rot, f) }
}

/// Whether `f` gives different ids to different components.
pub open spec fn tells_apart(f: spec_fn(ComponentId) -> ComponentId) -> bool {
    forall|a: ComponentId, b: ComponentId| #[trigger] f(a) == #[trigger] f(b) ==> a == b
}

/// The core carries component ids and tells whether two are the same, and never looks
/// inside one: whatever other ids the board puts in their place, the machine does the
/// same with them.
pub proof fn ids_are_opaque(m: MachineView, event: Event, f: spec_fn(ComponentId) -> ComponentId)
    requires
        tells_apart(f),
    ensures
        model::settled(renamed(m, f), renamed_event(event, f)) == renamed(
            model::settled(m, event),
            f,
        ),
        model::settled_effects(renamed(m, f), renamed_event(event, f)) == renamed_effects(
            model::settled_effects(m, event),
            f,
        ),
{
    dispatch_in_short(m, event);
    dispatch_in_short(renamed(m, f), renamed_event(event, f));
    if exhausts(m, event) {
        assert(renamed_effects(seq![Effect::LatchLockdown], f) =~= seq![Effect::LatchLockdown]);
    } else {
        let r = model::reaction(m.state, m.rot, event);
        reactions_commute(m.state, m.rot, event, f);
        if let Outcome::Transition(target) = r.outcome {
            entries_commute(target, r.rot, f);
            let entry = model::entry_effects(target, r.rot);
            assert(renamed_effects(r.effects + entry, f) =~= renamed_effects(r.effects, f)
                + renamed_effects(entry, f));
        }
    }
}

proof fn reactions_commute(
    state: State,
    rot: RotView,
    event: Event,
    f: spec_fn(ComponentId) -> ComponentId,
)
    requires
        tells_apart(f),
    ensures
        ({
            let r = model::reaction(state, rot, event);
            let s = model::reaction(state, renamed_rot(rot, f), renamed_event(event, f));
            &&& s.outcome == r.outcome
            &&& s.rot == renamed_rot(r.rot, f)
            &&& s.effects == renamed_effects(r.effects, f)
        }),
{
    let r = model::reaction(state, rot, event);
    let s = model::reaction(state, renamed_rot(rot, f), renamed_event(event, f));
    assert(s.rot =~= renamed_rot(r.rot, f));
    assert(s.effects.len() == r.effects.len());
    assert(s.effects =~= renamed_effects(r.effects, f));
}

proof fn entries_commute(state: State, rot: RotView, f: spec_fn(ComponentId) -> ComponentId)
    ensures
        model::entered_rot(state, renamed_rot(rot, f)) == renamed_rot(
            model::entered_rot(state, rot),
            f,
        ),
        model::entry_effects(state, renamed_rot(rot, f)) == renamed_effects(
            model::entry_effects(state, rot),
            f,
        ),
{
    assert(model::entry_effects(state, renamed_rot(rot, f)) =~= renamed_effects(
        model::entry_effects(state, rot),
        f,
    ));
}

} // verus!
