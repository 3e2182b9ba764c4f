//! What holds of every script of events.

use crate::laws;
use crate::model;
use crate::model::{MachineView, RotView};
use crate::seams;
use crate::seams::{Call, EventSource, OnEffect, Platform};
use crate::vocabulary::{ComponentId, Effect, Event, Provisioning, State};
use vstd::prelude::*;

verus! {

// ---------------------------------------------------------------------------
// Runs as such
// ---------------------------------------------------------------------------

/// A run is determined by the machine and its script: the same events give the same
/// machine and the same effects in the same order, every time.
pub proof fn replay_gives_the_same_run(
    m: MachineView,
    again: MachineView,
    script: Seq<Event>,
    replayed: Seq<Event>,
)
    requires
        m == again,
        script =~= replayed,
    ensures
        model::run(m, script) == model::run(again, replayed),
        model::trace(m, script) == model::trace(again, replayed),
{
}

/// Running two scripts one after the other is running them joined.
pub proof fn runs_join(m: MachineView, first: Seq<Event>, second: Seq<Event>)
    ensures
        model::run(m, first + second) == model::run(model::run(m, first), second),
        model::trace(m, first + second) == model::trace(m, first) + model::trace(
            model::run(m, first),
            second,
        ),
    decreases second.len(),
{
    if second.len() == 0 {
        assert(first + second =~= first);
        assert(model::trace(m, first) + Seq::<Effect>::empty() =~= model::trace(m, first));
    } else {
        let shorter = second.drop_last();
        let middle = model::run(m, first);
        let latest = model::settled_effects(model::run(middle, shorter), second.last());
        runs_join(m, first, shorter);
        assert((first + second).drop_last() =~= first + shorter);
        assert((first + second).last() == second.last());
        joining_is_associative(model::trace(m, first), model::trace(middle, shorter), latest);
    }
}

proof fn joining_is_associative(a: Seq<Effect>, b: Seq<Effect>, c: Seq<Effect>)
    ensures
        (a + b) + c == a + (b + c),
{
    assert((a + b) + c =~= a + (b + c));
}

/// A script of one event is that event.
pub proof fn run_of_one(m: MachineView, event: Event)
    ensures
        model::run(m, seq![event]) == model::settled(m, event),
        model::trace(m, seq![event]) == model::settled_effects(m, event),
{
    assert(seq![event].drop_last() =~= Seq::<Event>::empty());
    reveal_with_fuel(model::run, 2);
    reveal_with_fuel(model::trace, 2);
    assert(Seq::<Effect>::empty() + model::settled_effects(m, event) =~= model::settled_effects(
        m,
        event,
    ));
}

/// What the board chose stays as it was through every script.
pub proof fn board_choices_stay_throughout(m: MachineView, script: Seq<Event>)
    ensures
        model::run(m, script).rot.chain == m.rot.chain,
        model::run(m, script).rot.max_retry == m.rot.max_retry,
    decreases script.len(),
{
    if script.len() > 0 {
        board_choices_stay_throughout(m, script.drop_last());
        laws::board_choices_stay(model::run(m, script.drop_last()), script.last());
    }
}

/// Every machine that a valid one can become is valid.
pub proof fn every_machine_is_valid(m: MachineView, script: Seq<Event>)
    requires
        model::valid(m),
    ensures
        model::valid(model::run(m, script)),
    decreases script.len(),
{
    if script.len() > 0 {
        every_machine_is_valid(m, script.drop_last());
        laws::validity_lasts(model::run(m, script.drop_last()), script.last());
    }
}

/// The machine that a board builds is valid.
pub proof fn built_machine_is_valid(chain: Seq<ComponentId>, max_retry: u8)
    ensures
        model::valid(model::initial(chain, max_retry as int)),
{
}

/// The script with every component id put through `f`.
pub open spec fn renamed_script(
    script: Seq<Event>,
    f: spec_fn(ComponentId) -> ComponentId,
) -> Seq<Event> {
    script.map_values(|event: Event| laws::renamed_event(event, f))
}

/// The core never looks inside a component id, through every script: with other ids in
/// their place, in the chain and in the events, the machine does the same with them.
pub proof fn ids_are_opaque_throughout(
    m: MachineView,
    script: Seq<Event>,
    f: spec_fn(ComponentId) -> ComponentId,
)
    requires
        laws::tells_apart(f),
    ensures
        model::run(laws::renamed(m, f), renamed_script(script, f)) == laws::renamed(
            model::run(m, script),
            f,
        ),
        model::trace(laws::renamed(m, f), renamed_script(script, f)) == laws::renamed_effects(
            model::trace(m, script),
            f,
        ),
    decreases script.len(),
{
    let script2 = renamed_script(script, f);
    if script.len() == 0 {
        assert(laws::renamed_effects(Seq::empty(), f) =~= Seq::<Effect>::empty());
    } else {
        let shorter = script.drop_last();
        let before = model::run(m, shorter);
        let earlier = model::trace(m, shorter);
        let latest = model::settled_effects(before, script.last());
        ids_are_opaque_throughout(m, shorter, f);
        laws::ids_are_opaque(before, script.last(), f);
        assert(script2.drop_last() =~= renamed_script(shorter, f));
        assert(script2.last() == laws::renamed_event(script.last(), f));
        assert(laws::renamed_effects(earlier + latest, f) =~= laws::renamed_effects(earlier, f)
            + laws::renamed_effects(latest, f));
    }
}

/// No component is released before its measurement matched: whatever part of a script has
/// run, what it released it was told of.
pub proof fn no_release_without_measurement(m: MachineView, script: Seq<Event>, id: ComponentId)
    requires
        model::trace(m, script).contains(Effect::ReleaseReset(id)),
    ensures
        script.contains(Event::PlatformMeasured(id)),
    decreases script.len(),
{
    let shorter = script.drop_last();
    let before = model::run(m, shorter);
    let earlier = model::trace(m, shorter);
    let latest = model::settled_effects(before, script.last());
    let k = choose|k: int|
        0 <= k < model::trace(m, script).len() && model::trace(m, script)[k]
            == Effect::ReleaseReset(id);
    assert(model::trace(m, script) == earlier + latest);
    if k < earlier.len() {
        assert(earlier[k] == Effect::ReleaseReset(id));
        no_release_without_measurement(m, shorter, id);
        let j = choose|j: int|
            0 <= j < shorter.len() && shorter[j] == Event::PlatformMeasured(id);
        assert(script[j] == Event::PlatformMeasured(id));
    } else {
        assert(latest[k - earlier.len()] == Effect::ReleaseReset(id));
        laws::release_answers_a_measurement(before, script.last(), id);
        assert(script[script.len() - 1] == Event::PlatformMeasured(id));
    }
}

// ---------------------------------------------------------------------------
// Lockdown
// ---------------------------------------------------------------------------

/// Lockdown is for good: no script changes a locked machine or gets an effect out of it.
/// So what is held in reset stays there.
pub proof fn lockdown_is_final(m: MachineView, script: Seq<Event>)
    requires
        m.state is Locked,
    ensures
        model::run(m, script) == m,
        model::trace(m, script) == Seq::<Effect>::empty(),
    decreases script.len(),
{
    if script.len() > 0 {
        lockdown_is_final(m, script.drop_last());
        laws::events_without_use_are_dropped(m, script.last());
    }
}

/// The lockdown is latched exactly when the machine is locked: once, and as the last
/// effect of all.
pub proof fn lockdown_is_latched_once(m: MachineView, script: Seq<Event>)
    requires
        !(m.state is Locked),
    ensures
        model::run(m, script).state is Locked ==> model::trace(m, script).len() > 0 && model::trace(
            m,
            script,
        ).last() is LatchLockdown,
        forall|i: int|
            0 <= i < model::trace(m, script).len() && #[trigger] model::trace(m, script)[i] is
                LatchLockdown ==> model::run(m, script).state is Locked && i == model::trace(
                m,
                script,
            ).len() - 1,
    decreases script.len(),
{
    if script.len() > 0 {
        let shorter = script.drop_last();
        let before = model::run(m, shorter);
        let event = script.last();
        let earlier = model::trace(m, shorter);
        let latest = model::settled_effects(before, event);
        let whole = model::trace(m, script);
        lockdown_is_latched_once(m, shorter);
        assert(whole == earlier + latest);
        if before.state is Locked {
            laws::events_without_use_are_dropped(before, event);
            assert(whole =~= earlier);
        } else {
            if model::settled(before, event).state is Locked {
                laws::lockdown_has_a_reason(before, event);
            }
            assert forall|i: int|
                0 <= i < whole.len() && #[trigger] whole[i] is LatchLockdown implies model::run(
                m,
                script,
            ).state is Locked && i == whole.len() - 1 by {
                if i < earlier.len() {
                    assert(earlier[i] is LatchLockdown);
                } else {
                    assert(latest[i - earlier.len()] == Effect::LatchLockdown);
                    laws::latching_means_lockdown(before, event);
                }
            }
        }
    }
}

// ---------------------------------------------------------------------------
// The walk
// ---------------------------------------------------------------------------

/// The script by which each component of the chain is reported to match, in chain order.
pub open spec fn all_measured(chain: Seq<ComponentId>) -> Seq<Event> {
    Seq::new(chain.len(), |i: int| Event::PlatformMeasured(chain[i]))
}

/// The effects of a walk down the chain: each component in its turn is measured, compared
/// and released.
pub open spec fn walked(chain: Seq<ComponentId>) -> Seq<Effect>
    decreases chain.len(),
{
    if chain.len() == 0 {
        Seq::empty()
    } else {
        walked(chain.drop_last()) + model::measure(chain.last()) + seq![
            Effect::ReleaseReset(chain.last()),
        ]
    }
}

/// The effects of a walk that has come to the component at `k`, those of its start
/// included.
pub open spec fn walked_to(chain: Seq<ComponentId>, k: int) -> Seq<Effect> {
    if k < chain.len() {
        walked(chain.take(k)) + model::measure(chain[k])
    } else {
        walked(chain)
    }
}

/// One more match takes the walk to the next place, or to its end.
proof fn walk_grows(chain: Seq<ComponentId>, k: int)
    requires
        0 <= k < chain.len(),
    ensures
        k + 1 < chain.len() ==> walked_to(chain, k + 1) == walked_to(chain, k) + (seq![
            Effect::ReleaseReset(chain[k]),
        ] + model::measure(chain[k + 1])),
        k + 1 == chain.len() ==> walked(chain) == walked_to(chain, k) + seq![
            Effect::ReleaseReset(chain[k]),
        ],
{
    let upto = chain.take(k + 1);
    assert(upto.drop_last() =~= chain.take(k));
    assert(upto.last() == chain[k]);
    assert(walked(upto) =~= walked_to(chain, k) + seq![Effect::ReleaseReset(chain[k])]);
    if k + 1 < chain.len() {
        assert(walked_to(chain, k + 1) =~= walked_to(chain, k) + (seq![
            Effect::ReleaseReset(chain[k]),
        ] + model::measure(chain[k + 1])));
    } else {
        assert(upto =~= chain);
    }
}

/// However far the walk has come, the components before that place, and no others, have
/// been released, each after it was measured, in the order of the chain; and the next one
/// is being measured. At the end of the chain the machine is ready.
pub proof fn walk_goes_in_chain_order(m: MachineView, k: int)
    requires
        m.state is MeasuringPlatform,
        m.rot.cursor == 0,
        0 <= k <= m.rot.chain.len(),
        m.rot.chain.len() > 0,
    ensures
        model::measure(m.rot.chain[0]) + model::trace(m, all_measured(m.rot.chain).take(k))
            == walked_to(m.rot.chain, k),
        model::run(m, all_measured(m.rot.chain).take(k)) == (if k < m.rot.chain.len() {
            MachineView { rot: RotView { cursor: k, ..m.rot }, ..m }
        } else {
            MachineView {
                state: State::Ready,
                rot: RotView { cursor: k - 1, failed: None, retry_count: 0, ..m.rot },
            }
        }),
    decreases k,
{
    let chain = m.rot.chain;
    let script = all_measured(chain);
    if k == 0 {
        assert(script.take(0) =~= Seq::<Event>::empty());
        assert(chain.take(0) =~= Seq::<ComponentId>::empty());
        assert(model::measure(chain[0]) + Seq::<Effect>::empty() =~= Seq::<Effect>::empty()
            + model::measure(chain[0]));
    } else {
        walk_goes_in_chain_order(m, k - 1);
        let before = model::run(m, script.take(k - 1));
        assert(script.take(k).drop_last() =~= script.take(k - 1));
        assert(script.take(k).last() == Event::PlatformMeasured(chain[k - 1]));
        laws::walk_moves_to_the_next_component(before, chain[k - 1]);
        walk_grows(chain, k - 1);
        let latest = model::settled_effects(before, script.take(k).last());
        assert(model::measure(chain[0]) + model::trace(m, script.take(k)) =~= walked_to(
            chain,
            k - 1,
        ) + latest);
    }
}

/// A cold boot walks the chain in order: after a provisioned power-on and the news that
/// each component matched, every component was measured, compared and released in its
/// turn, and the machine is ready.
pub proof fn cold_boot_walks_the_chain(chain: Seq<ComponentId>, max_retry: int)
    requires
        chain.len() > 0,
    ensures
        ({
            let m = model::initial(chain, max_retry);
            let script = seq![Event::PowerGood(Provisioning::Provisioned)] + all_measured(chain);
            &&& model::run(m, script).state is Ready
            &&& model::trace(m, script) == walked(chain)
        }),
{
    let m = model::initial(chain, max_retry);
    let boot = Event::PowerGood(Provisioning::Provisioned);
    let started = model::settled(m, boot);
    laws::provisioned_power_on_starts_the_walk(m);
    run_of_one(m, boot);
    runs_join(m, seq![boot], all_measured(chain));
    walk_goes_in_chain_order(started, chain.len() as int);
    assert(all_measured(chain).take(chain.len() as int) =~= all_measured(chain));
}

/// A recovery that succeeds walks the whole chain again from the top: corruption of a
/// component while running restores that component alone, measures, compares and
/// releases every component in its turn, and leaves the machine ready with no failed
/// component and no restore counted against it.
pub proof fn recovery_walks_the_chain_again(m: MachineView, id: ComponentId, restored: ComponentId)
    requires
        model::valid(m),
        model::operational(m.state),
        model::may_retry(m.rot),
        m.rot.chain.len() > 0,
    ensures
        ({
            let script = seq![Event::CorruptionDetected(id), Event::Restored(restored)]
                + all_measured(m.rot.chain);
            &&& model::run(m, script) == MachineView {
                state: State::Ready,
                rot: RotView {
                    cursor: m.rot.chain.len() - 1,
                    failed: None,
                    retry_count: 0,
                    ..m.rot
                },
            }
            &&& model::trace(m, script) == seq![Effect::RestoreGoldenImage(id)] + walked(
                m.rot.chain,
            )
        }),
{
    let chain = m.rot.chain;
    let broken = model::settled(m, Event::CorruptionDetected(id));
    let again = model::settled(broken, Event::Restored(restored));
    laws::corruption_recovers_the_named_component(m, id);
    laws::restore_starts_the_walk_over(broken, restored);
    run_of_one(m, Event::CorruptionDetected(id));
    run_of_one(broken, Event::Restored(restored));
    runs_join(m, seq![Event::CorruptionDetected(id)], seq![Event::Restored(restored)]);
    let start = seq![Event::CorruptionDetected(id), Event::Restored(restored)];
    assert(seq![Event::CorruptionDetected(id)] + seq![Event::Restored(restored)] =~= start);
    runs_join(m, start, all_measured(chain));
    walk_goes_in_chain_order(again, chain.len() as int);
    assert(all_measured(chain).take(chain.len() as int) =~= all_measured(chain));
    assert(model::trace(m, start + all_measured(chain)) =~= seq![Effect::RestoreGoldenImage(id)]
        + (model::measure(chain[0]) + model::trace(again, all_measured(chain))));
}

/// The components that the effects release, in order.
pub open spec fn releases(effects: Seq<Effect>) -> Seq<ComponentId>
    decreases effects.len(),
{
    if effects.len() == 0 {
        Seq::empty()
    } else {
        match effects.last() {
            Effect::ReleaseReset(id) => releases(effects.drop_last()).push(id),
            _ => releases(effects.drop_last()),
        }
    }
}

/// The components released since the latest walk down the chain began, in order.
pub open spec fn released_in_walk(m: MachineView, script: Seq<Event>) -> Seq<ComponentId>
    decreases script.len(),
{
    if script.len() == 0 {
        Seq::empty()
    } else {
        let before = model::run(m, script.drop_last());
        let after = model::run(m, script);
        let earlier = if !(before.state is MeasuringPlatform) && after.state is MeasuringPlatform {
            Seq::empty()
        } else {
            released_in_walk(m, script.drop_last())
        };
        earlier + releases(model::settled_effects(before, script.last()))
    }
}

/// The order of the chain is respected through every script. At any time the components
/// released since the latest walk began are the first ones of the chain, in its order:
/// none is skipped, and none is released before the one ahead of it. During the walk they
/// are those before the one under measurement; a machine that is ready or updating has
/// released them all.
pub proof fn chain_order_is_respected(chain: Seq<ComponentId>, max_retry: int, script: Seq<Event>)
    ensures
        ({
            let now = model::run(model::initial(chain, max_retry), script);
            let out = released_in_walk(model::initial(chain, max_retry), script);
            &&& out.len() <= chain.len() && out == chain.take(out.len() as int)
            &&& now.state is MeasuringPlatform ==> out.len() == now.rot.cursor
            &&& now.state is Ready || now.state is Updating ==> out == chain
        }),
    decreases script.len(),
{
    let m = model::initial(chain, max_retry);
    if script.len() > 0 {
        let shorter = script.drop_last();
        let before = model::run(m, shorter);
        let event = script.last();
        let latest = model::settled_effects(before, event);
        let out = released_in_walk(m, shorter);
        chain_order_is_respected(chain, max_retry, shorter);
        board_choices_stay_throughout(m, shorter);
        laws::dispatch_in_short(before, event);
        assert(chain.take(0) =~= Seq::<ComponentId>::empty());
        if releases_one(before, event) {
            let id = event->PlatformMeasured_0;
            laws::walk_moves_to_the_next_component(before, id);
            releases_of_a_match(id, latest);
            assert(out + seq![id] =~= chain.take((out.len() + 1) as int));
        } else {
            nothing_else_releases(before, event);
            assert(out + Seq::<ComponentId>::empty() =~= out);
        }
    } else {
        assert(chain.take(0) =~= Seq::<ComponentId>::empty());
    }
}

/// The effects since the latest walk down the chain began, those of its start included.
pub open spec fn effects_of_walk(m: MachineView, script: Seq<Event>) -> Seq<Effect>
    decreases script.len(),
{
    if script.len() == 0 {
        Seq::empty()
    } else {
        let before = model::run(m, script.drop_last());
        let after = model::run(m, script);
        let earlier = if !(before.state is MeasuringPlatform) && after.state is MeasuringPlatform {
            Seq::empty()
        } else {
            effects_of_walk(m, script.drop_last())
        };
        earlier + model::settled_effects(before, script.last())
    }
}

/// Every walk goes down the chain in its order, whatever is reported meanwhile: during the
/// walk, its effects are that each component before the place it has come to was measured,
/// compared and released, one after the other, and that the next one is being measured; and
/// a machine that is ready or updating has first gone through all of that to the end of the
/// chain.
pub proof fn every_walk_goes_in_chain_order(
    chain: Seq<ComponentId>,
    max_retry: int,
    script: Seq<Event>,
)
    ensures
        ({
            let now = model::run(model::initial(chain, max_retry), script);
            let out = effects_of_walk(model::initial(chain, max_retry), script);
            &&& now.state is MeasuringPlatform ==> out == walked_to(chain, now.rot.cursor)
            &&& now.state is Ready || now.state is Updating ==> walked(chain).is_prefix_of(out)
        }),
    decreases script.len(),
{
    let m = model::initial(chain, max_retry);
    if script.len() > 0 {
        let shorter = script.drop_last();
        let before = model::run(m, shorter);
        let event = script.last();
        let latest = model::settled_effects(before, event);
        let out = effects_of_walk(m, shorter);
        every_walk_goes_in_chain_order(chain, max_retry, shorter);
        board_choices_stay_throughout(m, shorter);
        laws::dispatch_in_short(before, event);
        assert(out + Seq::<Effect>::empty() =~= out);
        if releases_one(before, event) {
            laws::walk_moves_to_the_next_component(before, event->PlatformMeasured_0);
            walk_grows(chain, before.rot.cursor);
            assert(walked(chain).is_prefix_of(walked(chain)));
        } else if model::run(m, script).state is MeasuringPlatform {
            if !(before.state is MeasuringPlatform) {
                assert(chain.take(0) =~= Seq::<ComponentId>::empty());
                assert(Seq::<Effect>::empty() + latest =~= latest);
                assert(latest =~= walked_to(chain, 0));
            }
        } else if before.state is Ready || before.state is Updating {
            assert(walked(chain) =~= (out + latest).subrange(0, walked(chain).len() as int));
        }
    }
}

/// Whether the event is the news that the component under measurement matched.
spec fn releases_one(m: MachineView, event: Event) -> bool {
    m.state is MeasuringPlatform && match event {
        Event::PlatformMeasured(id) => model::under_measurement(m.rot, id),
        _ => false,
    }
}

/// A match releases the component that it is about, and no other.
proof fn releases_of_a_match(id: ComponentId, effects: Seq<Effect>)
    requires
        effects.len() > 0,
        effects[0] == Effect::ReleaseReset(id),
        forall|i: int| 1 <= i < effects.len() ==> !(#[trigger] effects[i] is ReleaseReset),
    ensures
        releases(effects) == seq![id],
    decreases effects.len(),
{
    let shorter = effects.drop_last();
    if effects.len() == 1 {
        reveal_with_fuel(releases, 2);
        assert(effects.last() == effects[0]);
        assert(shorter =~= Seq::<Effect>::empty());
        assert(releases(effects) =~= seq![id]);
    } else {
        releases_of_a_match(id, shorter);
        assert(!(effects[effects.len() - 1] is ReleaseReset));
    }
}

/// No event releases anything but the news that the component under measurement matched.
proof fn nothing_else_releases(m: MachineView, event: Event)
    requires
        !releases_one(m, event),
    ensures
        releases(model::settled_effects(m, event)) == Seq::<ComponentId>::empty(),
{
    let effects = model::settled_effects(m, event);
    assert forall|i: int| 0 <= i < effects.len() implies !(#[trigger] effects[i] is
        ReleaseReset) by {
        if effects[i] is ReleaseReset {
            laws::release_answers_a_measurement(m, event, effects[i]->ReleaseReset_0);
        }
    }
    no_release_in(effects);
}

proof fn no_release_in(effects: Seq<Effect>)
    requires
        forall|i: int| 0 <= i < effects.len() ==> !(#[trigger] effects[i] is ReleaseReset),
    ensures
        releases(effects) == Seq::<ComponentId>::empty(),
    decreases effects.len(),
{
    if effects.len() > 0 {
        assert(!(effects[effects.len() - 1] is ReleaseReset));
        no_release_in(effects.drop_last());
    }
}

// ---------------------------------------------------------------------------
// The limit on restores
// ---------------------------------------------------------------------------

/// A script of restores each of which is followed by a mismatch. The pairs name the
/// component that was restored and the one that then did not match.
pub open spec fn failing(pairs: Seq<(ComponentId, ComponentId)>) -> Seq<Event>
    decreases pairs.len(),
{
    if pairs.len() == 0 {
        Seq::empty()
    } else {
        failing(pairs.drop_last()) + seq![
            Event::Restored(pairs.last().0),
            Event::PlatformMismatch(pairs.last().1),
        ]
    }
}

/// Restores that fail are counted one by one, as long as they stay below the limit.
pub proof fn failing_restores_count(m: MachineView, pairs: Seq<(ComponentId, ComponentId)>)
    requires
        model::valid(m),
        m.state is Recovering,
        pairs.len() > 0 ==> m.rot.retry_count + pairs.len() < m.rot.max_retry,
    ensures
        model::valid(model::run(m, failing(pairs))),
        model::run(m, failing(pairs)).state is Recovering,
        model::run(m, failing(pairs)).rot.retry_count == m.rot.retry_count + pairs.len(),
        model::run(m, failing(pairs)).rot.max_retry == m.rot.max_retry,
    decreases pairs.len(),
{
    if pairs.len() > 0 {
        let shorter = pairs.drop_last();
        let restored = Event::Restored(pairs.last().0);
        let mismatch = Event::PlatformMismatch(pairs.last().1);
        failing_restores_count(m, shorter);
        let before = model::run(m, failing(shorter));
        let walking = model::settled(before, restored);
        laws::restore_starts_the_walk_over(before, pairs.last().0);
        laws::mismatch_recovers_the_named_component(walking, pairs.last().1);
        laws::validity_lasts(before, restored);
        laws::validity_lasts(walking, mismatch);
        run_of_one(before, restored);
        run_of_one(walking, mismatch);
        runs_join(before, seq![restored], seq![mismatch]);
        assert(seq![restored] + seq![mismatch] =~= seq![restored, mismatch]);
        runs_join(m, failing(shorter), seq![restored, mismatch]);
    }
}

/// The limit on restores is enforced in the core: after as many restores in a row as are
/// allowed, all of them failing, the machine locks itself down with no word from outside
/// that recovery failed, and not before. A machine on its first restore is allowed
/// `max_retry` of them, and never fewer than one.
pub proof fn restores_in_a_row_lock_down(
    m: MachineView,
    pairs: Seq<(ComponentId, ComponentId)>,
    restored: ComponentId,
)
    requires
        model::valid(m),
        m.state is Recovering,
        m.rot.retry_count == 0,
        pairs.len() + 1 == (if m.rot.max_retry > 0 {
            m.rot.max_retry
        } else {
            1
        }),
    ensures
        !(model::run(m, failing(pairs)).state is Locked),
        model::run(m, failing(pairs) + seq![Event::Restored(restored)]).state is Locked,
        model::trace(m, failing(pairs) + seq![Event::Restored(restored)]).last() is LatchLockdown,
        !failing(pairs).contains(Event::RecoveryFailed),
{
    failing_restores_count(m, pairs);
    let before = model::run(m, failing(pairs));
    laws::last_restore_locks_down(before, restored);
    run_of_one(before, Event::Restored(restored));
    runs_join(m, failing(pairs), seq![Event::Restored(restored)]);
    failing_says_nothing_else(pairs);
}

proof fn failing_says_nothing_else(pairs: Seq<(ComponentId, ComponentId)>)
    ensures
        forall|i: int|
            0 <= i < failing(pairs).len() ==> (#[trigger] failing(pairs)[i] is Restored || failing(
                pairs,
            )[i] is PlatformMismatch),
    decreases pairs.len(),
{
    if pairs.len() > 0 {
        failing_says_nothing_else(pairs.drop_last());
    }
}

/// How many restores have been made since the machine was last ready.
pub open spec fn restores_since_ready(m: MachineView, script: Seq<Event>) -> int
    decreases script.len(),
{
    if script.len() == 0 {
        0
    } else {
        let before = model::run(m, script.drop_last());
        let after = model::run(m, script);
        if after.state is Ready {
            0
        } else if before.state is Recovering && script.last() is Restored {
            restores_since_ready(m, script.drop_last()) + 1
        } else {
            restores_since_ready(m, script.drop_last())
        }
    }
}

/// Only restores in a row count, through every script: the machine remembers how many
/// were made since it was last ready, is locked as soon as they are as many as the limit
/// allows, and never makes more.
pub proof fn restores_are_counted_since_ready(
    chain: Seq<ComponentId>,
    max_retry: u8,
    script: Seq<Event>,
)
    ensures
        ({
            let now = model::run(model::initial(chain, max_retry as int), script);
            let made = restores_since_ready(model::initial(chain, max_retry as int), script);
            &&& now.rot.retry_count == made
            &&& made > 0 && made >= max_retry ==> now.state is Locked
            &&& 0 <= made <= max_retry || made == 1
        }),
    decreases script.len(),
{
    let m = model::initial(chain, max_retry as int);
    if script.len() > 0 {
        let shorter = script.drop_last();
        let before = model::run(m, shorter);
        restores_are_counted_since_ready(chain, max_retry, shorter);
        board_choices_stay_throughout(m, shorter);
        laws::dispatch_in_short(before, script.last());
    }
}

/// When a machine that is not locked locks down, and when it does not: it does where it
/// turns out not to be provisioned, where recovery is reported to have failed, and where the
/// restores made since it was last ready are as many as the limit allows. The lockdown is
/// then latched, which is all that is done, and it is latched at no other time.
pub proof fn lockdown_comes_exactly_when(
    chain: Seq<ComponentId>,
    max_retry: u8,
    script: Seq<Event>,
    event: Event,
)
    requires
        !(model::run(model::initial(chain, max_retry as int), script).state is Locked),
    ensures
        ({
            let m = model::initial(chain, max_retry as int);
            let now = model::run(m, script);
            let made = restores_since_ready(m, script);
            let after = model::settled(now, event);
            let effects = model::settled_effects(now, event);
            &&& after.state is Locked <==> {
                ||| now.state is PowerOnReset && event == Event::PowerGood(
                    Provisioning::Unprovisioned,
                )
                ||| now.state is Recovering && event is RecoveryFailed
                ||| now.state is Recovering && event is Restored && made + 1 >= max_retry
            }
            &&& effects.contains(Effect::LatchLockdown) <==> after.state is Locked
            &&& after.state is Locked ==> effects == seq![Effect::LatchLockdown]
        }),
{
    let m = model::initial(chain, max_retry as int);
    let now = model::run(m, script);
    restores_are_counted_since_ready(chain, max_retry, script);
    board_choices_stay_throughout(m, script);
    laws::dispatch_in_short(now, event);
    if model::settled(now, event).state is Locked {
        laws::lockdown_has_a_reason(now, event);
        assert(model::settled_effects(now, event)[0] == Effect::LatchLockdown);
    } else if model::settled_effects(now, event).contains(Effect::LatchLockdown) {
        laws::latching_means_lockdown(now, event);
    }
}

// ---------------------------------------------------------------------------
// What the outside goes through
// ---------------------------------------------------------------------------

/// What a platform is to carry out over a script is the trace of that script: however many
/// events are dispatched one after the other, the platform carries out the effects of each,
/// in order, before those of the next.
pub proof fn dispatches_follow_one_another<P: Platform>(
    platforms: Seq<P>,
    machines: Seq<MachineView>,
    script: Seq<Event>,
)
    requires
        platforms.len() == script.len() + 1,
        machines.len() == script.len() + 1,
        forall|i: int|
            0 <= i < script.len() ==> seams::carries_out(
                platforms[i],
                model::settled_effects(machines[i], #[trigger] script[i]),
                platforms[i + 1],
            ) && machines[i + 1] == model::settled(machines[i], script[i]),
    ensures
        machines.last() == model::run(machines[0], script),
        seams::carries_out(platforms[0], model::trace(machines[0], script), platforms.last()),
    decreases script.len(),
{
    if script.len() > 0 {
        let n = script.len() - 1;
        let shorter = script.drop_last();
        assert forall|i: int| 0 <= i < shorter.len() implies seams::carries_out(
            platforms.drop_last()[i],
            model::settled_effects(machines.drop_last()[i], #[trigger] shorter[i]),
            platforms.drop_last()[i + 1],
        ) && machines.drop_last()[i + 1] == model::settled(
            machines.drop_last()[i],
            shorter[i],
        ) by {
            assert(shorter[i] == script[i]);
        }
        dispatches_follow_one_another(platforms.drop_last(), machines.drop_last(), shorter);
        assert(script[n] == script.last());
        seams::carrying_out_joins(
            platforms[0],
            model::trace(machines[0], shorter),
            platforms[n],
            model::settled_effects(machines[n], script.last()),
            platforms[n + 1],
        );
    }
}

/// What is handed over to a receiver over a script is the trace of that script too: however
/// many events are dispatched one after the other, each dispatch going on with the receiver
/// as the one before left it, the effects of each are handed over once and in order, before
/// those of the next.
pub proof fn hand_overs_follow_one_another<T: OnEffect>(
    receivers: Seq<T>,
    machines: Seq<MachineView>,
    script: Seq<Event>,
)
    requires
        receivers.len() == script.len() + 1,
        machines.len() == script.len() + 1,
        forall|i: int|
            0 <= i < script.len() ==> seams::handed_over(
                receivers[i],
                model::settled_effects(machines[i], #[trigger] script[i]),
                receivers[i + 1],
            ) && machines[i + 1] == model::settled(machines[i], script[i]),
    ensures
        machines.last() == model::run(machines[0], script),
        seams::handed_over(receivers[0], model::trace(machines[0], script), receivers.last()),
    decreases script.len(),
{
    if script.len() > 0 {
        let n = script.len() - 1;
        let shorter = script.drop_last();
        assert forall|i: int| 0 <= i < shorter.len() implies seams::handed_over(
            receivers.drop_last()[i],
            model::settled_effects(machines.drop_last()[i], #[trigger] shorter[i]),
            receivers.drop_last()[i + 1],
        ) && machines.drop_last()[i + 1] == model::settled(
            machines.drop_last()[i],
            shorter[i],
        ) by {
            assert(shorter[i] == script[i]);
        }
        hand_overs_follow_one_another(receivers.drop_last(), machines.drop_last(), shorter);
        assert(script[n] == script.last());
        seams::handing_over_joins(
            receivers[0],
            model::trace(machines[0], shorter),
            receivers[n],
            model::settled_effects(machines[n], script.last()),
            receivers[n + 1],
        );
    }
}

/// A receiver is handed what a platform carries out: of two machines that are alike and are
/// told the same, one with a receiver and one with a platform, both become the same machine,
/// and there is one sequence of effects that the receiver was handed and the platform
/// carried out.
pub proof fn receiver_and_platform_get_the_same<T: OnEffect, P: Platform>(
    m: MachineView,
    again: MachineView,
    event: Event,
    receiver: (T, T),
    platform: (P, P),
)
    requires
        m == again,
        seams::handed_over(receiver.0, model::settled_effects(m, event), receiver.1),
        seams::carries_out(platform.0, model::settled_effects(again, event), platform.1),
    ensures
        model::settled(m, event) == model::settled(again, event),
        exists|effects: Seq<Effect>| #[trigger]
            seams::handed_over(receiver.0, effects, receiver.1) && seams::carries_out(
                platform.0,
                effects,
                platform.1,
            ),
{
}

/// The calls of a loop that fetches its own events, over the events that the board gave:
/// one turn after the other.
pub open spec fn turns(m: MachineView, script: Seq<Event>) -> Seq<Call>
    decreases script.len(),
{
    if script.len() == 0 {
        Seq::empty()
    } else {
        turns(m, script.drop_last()) + seams::turn(model::run(m, script.drop_last()), script.last())
    }
}

/// However many turns a loop takes, the board goes through this and nothing else: each
/// event is asked for once, and its effects are carried out in order before the next event
/// is asked for. The machine has then run the events that the board gave.
pub proof fn turns_follow_one_another<IO: Platform + EventSource>(
    boards: Seq<IO>,
    machines: Seq<MachineView>,
    script: Seq<Event>,
)
    requires
        boards.len() == script.len() + 1,
        machines.len() == script.len() + 1,
        forall|i: int|
            0 <= i < script.len() ==> seams::takes_turn(
                (boards[i], machines[i]),
                #[trigger] script[i],
                (boards[i + 1], machines[i + 1]),
            ),
    ensures
        machines.last() == model::run(machines[0], script),
        seams::goes_through(boards[0], turns(machines[0], script), boards.last()),
    decreases script.len(),
{
    if script.len() > 0 {
        let n = script.len() - 1;
        let shorter = script.drop_last();
        assert forall|i: int| 0 <= i < shorter.len() implies seams::takes_turn(
            (boards.drop_last()[i], machines.drop_last()[i]),
            #[trigger] shorter[i],
            (boards.drop_last()[i + 1], machines.drop_last()[i + 1]),
        ) by {
            assert(shorter[i] == script[i]);
        }
        turns_follow_one_another(boards.drop_last(), machines.drop_last(), shorter);
        assert(script[n] == script.last());
        seams::going_through_joins(
            boards[0],
            turns(machines[0], shorter),
            boards[n],
            seams::turn(machines[n], script.last()),
            boards[n + 1],
        );
    }
}

/// A loop that has taken any number of turns has asked for each event of the script once, in
/// order, and has had the effects of the whole script carried out, each once and in order.
pub proof fn turns_are_logged<IO: Platform + EventSource>(
    asked: spec_fn(IO) -> Seq<Event>,
    done: spec_fn(IO) -> Seq<Effect>,
    before: IO,
    m: MachineView,
    script: Seq<Event>,
    after: IO,
)
    requires
        forall|b: IO, event: Event, a: IO| #[trigger]
            IO::yields(&b, event, &a) ==> asked(a) == asked(b).push(event) && done(a) == done(b),
        forall|b: IO, effect: Effect, a: IO| #[trigger]
            IO::executes(&b, effect, &a) ==> asked(a) == asked(b) && done(a) == done(b).push(
                effect,
            ),
        seams::goes_through(before, turns(m, script), after),
    ensures
        asked(after) == asked(before) + script,
        done(after) == done(before) + model::trace(m, script),
    decreases script.len(),
{
    if script.len() == 0 {
        assert(asked(before) + script =~= asked(before));
        assert(done(before) + Seq::<Effect>::empty() =~= done(before));
    } else {
        let shorter = script.drop_last();
        let event = script.last();
        let machine = model::run(m, shorter);
        let effects = model::settled_effects(machine, event);
        let earlier = turns(m, shorter);
        let between = seams::going_through_splits(
            before,
            earlier,
            seams::turn(machine, event),
            after,
        );
        turns_are_logged(asked, done, before, m, shorter, between);
        let given = seams::going_through_splits(
            between,
            seq![Call::NextEvent(event)],
            seams::executions(effects),
            after,
        );
        seams::going_through_one_call(between, Call::NextEvent(event), given);
        executions_are_logged(asked, done, given, effects, after);
        assert(asked(after) =~= asked(before) + script);
        assert(done(after) =~= done(before) + model::trace(m, script));
    }
}

proof fn executions_are_logged<IO: Platform + EventSource>(
    asked: spec_fn(IO) -> Seq<Event>,
    done: spec_fn(IO) -> Seq<Effect>,
    before: IO,
    effects: Seq<Effect>,
    after: IO,
)
    requires
        forall|b: IO, effect: Effect, a: IO| #[trigger]
            IO::executes(&b, effect, &a) ==> asked(a) == asked(b) && done(a) == done(b).push(
                effect,
            ),
        seams::goes_through(before, seams::executions(effects), after),
    ensures
        asked(after) == asked(before),
        done(after) == done(before) + effects,
    decreases effects.len(),
{
    if effects.len() == 0 {
        assert(done(before) + effects =~= done(before));
    } else {
        let calls = seams::executions(effects);
        assert(calls =~= seams::executions(effects.drop_last()) + seq![
            Call::Execute(effects.last()),
        ]);
        let latest = seams::going_through_splits(
            before,
            seams::executions(effects.drop_last()),
            seq![Call::Execute(effects.last())],
            after,
        );
        seams::going_through_one_call(latest, Call::Execute(effects.last()), after);
        executions_are_logged(asked, done, before, effects.drop_last(), latest);
        assert(done(after) =~= done(before) + effects);
    }
}

/// One more event of a script does to the machine, and sends out, what that event alone
/// does; a script of no events does nothing.
pub proof fn runs_go_event_by_event(m: MachineView, script: Seq<Event>, event: Event)
    ensures
        model::run(m, Seq::<Event>::empty()) == m,
        model::trace(m, Seq::<Event>::empty()) == Seq::<Effect>::empty(),
        model::run(m, script.push(event)) == model::settled(model::run(m, script), event),
        model::trace(m, script.push(event)) == model::trace(m, script) + model::settled_effects(
            model::run(m, script),
            event,
        ),
{
    assert(script.push(event).drop_last() =~= script);
}

} // verus!
