//! The mathematical model of the machine: what each handler decides, what one event
//! does, and what a script of events does.

use crate::vocabulary::{ComponentId, Effect, Event, Provisioning, State};
use statig::Outcome;
use vstd::prelude::*;

verus! {

/// What the machine remembers between events.
#[verifier::ext_equal]
pub struct RotView {
    /// The trust chain, in order.
    pub chain: Seq<ComponentId>,
    /// The place in the chain of the component that is being measured.
    pub cursor: int,
    /// The component that set off the recovery under way; none while all is well.
    pub failed: Option<ComponentId>,
    /// How many restores have been tried since the machine was last ready.
    pub retry_count: int,
    /// How many restores are allowed before the machine locks down.
    pub max_retry: int,
}

/// A machine: the state it is in and what it remembers.
#[verifier::ext_equal]
pub struct MachineView {
    /// The state the machine is in.
    pub state: State,
    /// What it remembers.
    pub rot: RotView,
}

/// What a handler does with an event.
#[verifier::ext_equal]
pub struct Reaction {
    /// Whether the event is handled, deferred to the group, or leads to another state.
    pub outcome: Outcome<State>,
    /// What the machine remembers afterwards.
    pub rot: RotView,
    /// The effects emitted, in order.
    pub effects: Seq<Effect>,
}

/// What a machine remembers when the board has just built it.
pub open spec fn fresh(chain: Seq<ComponentId>, max_retry: int) -> RotView {
    RotView { chain, cursor: 0, failed: None, retry_count: 0, max_retry }
}

/// The machine that a board has just built.
pub open spec fn initial(chain: Seq<ComponentId>, max_retry: int) -> MachineView {
    MachineView { state: State::PowerOnReset, rot: fresh(chain, max_retry) }
}

/// Whether the state belongs to the `Operational` group.
pub open spec fn operational(state: State) -> bool {
    state is Ready || state is Updating || state is Recovering
}

/// The two effects by which the measurement of a component is set going.
pub open spec fn measure(id: ComponentId) -> Seq<Effect> {
    seq![Effect::MeasurePlatformFirmware(id), Effect::CompareToRim(id)]
}

/// Whether the component is the one that is being measured: the chain holds it at the
/// place that the walk has come to.
pub open spec fn under_measurement(rot: RotView, id: ComponentId) -> bool {
    0 <= rot.cursor < rot.chain.len() && rot.chain[rot.cursor] == id
}

/// Whether the component under measurement has a successor in the chain.
pub open spec fn more_to_measure(rot: RotView) -> bool {
    rot.cursor + 1 < rot.chain.len()
}

/// Whether another restore may be tried after one more has been made.
pub open spec fn may_retry(rot: RotView) -> bool {
    rot.retry_count + 1 < rot.max_retry
}

/// The count of restores after one more, which stops at the largest number that fits.
pub open spec fn one_more_retry(rot: RotView) -> int {
    if rot.retry_count < u8::MAX {
        rot.retry_count + 1
    } else {
        u8::MAX as int
    }
}

/// A handler that leaves the event to the group.
pub open spec fn deferred(rot: RotView) -> Reaction {
    Reaction { outcome: Outcome::Super, rot, effects: Seq::empty() }
}

/// A handler that stays in its state.
pub open spec fn stayed(rot: RotView, effects: Seq<Effect>) -> Reaction {
    Reaction { outcome: Outcome::Handled, rot, effects }
}

/// A handler that leads to another state.
pub open spec fn moved(target: State, rot: RotView, effects: Seq<Effect>) -> Reaction {
    Reaction { outcome: Outcome::Transition(target), rot, effects }
}

/// What the handler of a state does with an event.
pub open spec fn leaf_reaction(state: State, rot: RotView, event: Event) -> Reaction {
    match (state, event) {
        (State::PowerOnReset, Event::PowerGood(Provisioning::Provisioned)) => moved(
            State::MeasuringPlatform,
            rot,
            Seq::empty(),
        ),
        (State::PowerOnReset, Event::PowerGood(Provisioning::Unprovisioned)) => moved(
            State::Locked,
            rot,
            Seq::empty(),
        ),
        (State::MeasuringPlatform, Event::PlatformMeasured(id)) => if !under_measurement(rot, id) {
            stayed(rot, Seq::empty())
        } else if more_to_measure(rot) {
            stayed(
                RotView { cursor: rot.cursor + 1, ..rot },
                seq![Effect::ReleaseReset(id)] + measure(rot.chain[rot.cursor + 1]),
            )
        } else {
            moved(State::Ready, rot, seq![Effect::ReleaseReset(id)])
        },
        (State::MeasuringPlatform, Event::PlatformMismatch(id)) => moved(
            State::Recovering,
            RotView { failed: Some(id), ..rot },
            Seq::empty(),
        ),
        (State::Ready, Event::UpdateRequest) => moved(State::Updating, rot, Seq::empty()),
        (State::Updating, Event::UpdateVerified) => moved(
            State::Ready,
            rot,
            seq![Effect::ActivateUpdate],
        ),
        (State::Updating, Event::UpdateRejected) => moved(
            State::Ready,
            rot,
            seq![Effect::DiscardStaged],
        ),
        (State::Recovering, Event::Restored(_)) => {
            let counted = RotView { retry_count: one_more_retry(rot), ..rot };
            if may_retry(rot) {
                moved(State::MeasuringPlatform, counted, Seq::empty())
            } else {
                stayed(counted, seq![Effect::Emit(Event::RecoveryFailed)])
            }
        },
        (State::Recovering, Event::RecoveryFailed) => moved(State::Locked, rot, Seq::empty()),
        _ => deferred(rot),
    }
}

/// What the `Operational` group does with an event that a state left to it.
pub open spec fn group_reaction(rot: RotView, event: Event) -> Reaction {
    match event {
        Event::AttestationChallenge => stayed(rot, seq![Effect::SignAttestation]),
        Event::CorruptionDetected(id) => moved(
            State::Recovering,
            RotView { failed: Some(id), ..rot },
            Seq::empty(),
        ),
        _ => deferred(rot),
    }
}

/// What a state does with an event, its group included.
pub open spec fn reaction(state: State, rot: RotView, event: Event) -> Reaction {
    let leaf = leaf_reaction(state, rot, event);
    if leaf.outcome is Super && operational(state) {
        let group = group_reaction(leaf.rot, event);
        Reaction { effects: leaf.effects + group.effects, ..group }
    } else {
        leaf
    }
}

/// What the machine remembers once it has entered a state.
pub open spec fn entered_rot(state: State, rot: RotView) -> RotView {
    match state {
        State::MeasuringPlatform => RotView { cursor: 0, ..rot },
        State::Ready => RotView { failed: None, retry_count: 0, ..rot },
        _ => rot,
    }
}

/// The effects emitted on entering a state, in order.
pub open spec fn entry_effects(state: State, rot: RotView) -> Seq<Effect> {
    match state {
        State::MeasuringPlatform => if rot.chain.len() > 0 {
            measure(rot.chain[0])
        } else {
            Seq::empty()
        },
        State::Updating => seq![Effect::AuthenticateUpdate, Effect::StageUpdate],
        State::Recovering => match rot.failed {
            Some(id) => seq![Effect::RestoreGoldenImage(id)],
            None => Seq::empty(),
        },
        State::Locked => seq![Effect::LatchLockdown],
        _ => Seq::empty(),
    }
}

/// The machine after one event, follow-up events left aside.
pub open spec fn stepped(m: MachineView, event: Event) -> MachineView {
    let r = reaction(m.state, m.rot, event);
    match r.outcome {
        Outcome::Transition(target) => MachineView {
            state: target,
            rot: entered_rot(target, r.rot),
        },
        _ => MachineView { state: m.state, rot: r.rot },
    }
}

/// The effects of one event in order, the inside ones included.
pub open spec fn step_effects(m: MachineView, event: Event) -> Seq<Effect> {
    let r = reaction(m.state, m.rot, event);
    match r.outcome {
        Outcome::Transition(target) => r.effects + entry_effects(target, r.rot),
        _ => r.effects,
    }
}

/// The effects that go outside, in order.
pub open spec fn outside(effects: Seq<Effect>) -> Seq<Effect>
    decreases effects.len(),
{
    if effects.len() == 0 {
        Seq::empty()
    } else if effects.last() is Emit {
        outside(effects.drop_last())
    } else {
        outside(effects.drop_last()).push(effects.last())
    }
}

/// The events that the inside effects carry, in order.
pub open spec fn follow_ups(effects: Seq<Effect>) -> Seq<Event>
    decreases effects.len(),
{
    if effects.len() == 0 {
        Seq::empty()
    } else {
        match effects.last() {
            Effect::Emit(event) => follow_ups(effects.drop_last()).push(event),
            _ => follow_ups(effects.drop_last()),
        }
    }
}

/// Effects none of which is an inside one all go outside, and carry no follow-up.
pub proof fn all_go_outside(effects: Seq<Effect>)
    requires
        forall|i: int| 0 <= i < effects.len() ==> !(#[trigger] effects[i] is Emit),
    ensures
        outside(effects) == effects,
        follow_ups(effects) == Seq::<Event>::empty(),
    decreases effects.len(),
{
    if effects.len() > 0 {
        all_go_outside(effects.drop_last());
        assert(effects.drop_last().push(effects.last()) =~= effects);
    }
}

/// The machine once an event is handled all the way through: the event itself, and
/// then the follow-up event it asked for, if any.
pub open spec fn settled(m: MachineView, event: Event) -> MachineView {
    let later = follow_ups(step_effects(m, event));
    if later.len() == 0 {
        stepped(m, event)
    } else {
        stepped(stepped(m, event), later[0])
    }
}

/// The effects that go outside while an event is handled all the way through.
pub open spec fn settled_effects(m: MachineView, event: Event) -> Seq<Effect> {
    let now = step_effects(m, event);
    let later = follow_ups(now);
    if later.len() == 0 {
        outside(now)
    } else {
        outside(now) + outside(step_effects(stepped(m, event), later[0]))
    }
}

/// The machine after a script of events, each handled all the way through.
pub open spec fn run(m: MachineView, script: Seq<Event>) -> MachineView
    decreases script.len(),
{
    if script.len() == 0 {
        m
    } else {
        settled(run(m, script.drop_last()), script.last())
    }
}

/// The effects that go outside in the course of a script, in order.
pub open spec fn trace(m: MachineView, script: Seq<Event>) -> Seq<Effect>
    decreases script.len(),
{
    if script.len() == 0 {
        Seq::empty()
    } else {
        trace(m, script.drop_last()) + settled_effects(run(m, script.drop_last()), script.last())
    }
}

/// What holds of every machine between two events.
pub open spec fn valid(m: MachineView) -> bool {
    // The cursor points into the chain.
    &&& 0 <= m.rot.cursor < m.rot.chain.len() || m.rot.cursor == 0
    // A recovery is always that of some component.
    &&& m.state is Recovering ==> m.rot.failed is Some
    // While all is well there is none.
    &&& m.state is PowerOnReset || m.state is Ready || m.state is Updating ==> m.rot.failed is None
    // A machine that is not locked has a restore left, or has tried none.
    &&& 0 <= m.rot.retry_count <= u8::MAX
    &&& 0 <= m.rot.max_retry <= u8::MAX
    &&& !(m.state is Locked) ==> m.rot.retry_count < m.rot.max_retry || m.rot.retry_count == 0
    // Restores are counted from the last time the machine was ready.
    &&& m.state is Ready || m.state is Updating ==> m.rot.retry_count == 0
}

} // verus!
