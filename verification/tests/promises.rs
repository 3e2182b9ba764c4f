//! One concrete case for each promise of the machine, and its edge cases.

use rot_reducer::{
    run_once, ComponentId, Effect, Event, EventSource, OnEffect, Orchestrator, Platform,
    Provisioning, State,
};

const BOOT: Event = Event::PowerGood(Provisioning::Provisioned);

fn c(id: u8) -> ComponentId {
    ComponentId::new(id)
}

/// A machine with the given chain, and the effects that it has sent out so far.
struct Bench<const N: usize> {
    orch: Orchestrator<N>,
    trace: Vec<Effect>,
}

impl<const N: usize> Bench<N> {
    fn new(ids: &[u8], max_retry: u8) -> Self {
        let mut chain = heapless::Vec::<ComponentId, N>::new();
        for &id in ids {
            chain.push(c(id)).expect("the chain fits");
        }
        Self { orch: Orchestrator::new(chain, max_retry), trace: Vec::new() }
    }

    /// Dispatches one event and returns the effects of that event alone.
    fn tell(&mut self, event: Event) -> Vec<Effect> {
        let mut effects = Vec::new();
        self.orch.dispatch_with(event, |e| effects.push(e));
        self.trace.extend_from_slice(&effects);
        effects
    }

    fn state(&self) -> State {
        self.orch.state()
    }
}

/// A machine with one component that has come up ready.
fn ready(max_retry: u8) -> Bench<4> {
    let mut bench = Bench::new(&[7], max_retry);
    bench.tell(BOOT);
    bench.tell(Event::PlatformMeasured(c(7)));
    assert_eq!(bench.state(), State::Ready);
    bench
}

/// Every event, about the component with the given id where it is about one.
fn every_event(id: u8) -> Vec<Event> {
    vec![
        BOOT,
        Event::PowerGood(Provisioning::Unprovisioned),
        Event::PlatformMeasured(c(id)),
        Event::PlatformMismatch(c(id)),
        Event::AttestationChallenge,
        Event::UpdateRequest,
        Event::UpdateVerified,
        Event::UpdateRejected,
        Event::CorruptionDetected(c(id)),
        Event::Restored(c(id)),
        Event::RecoveryFailed,
    ]
}

#[test]
fn component_id_keeps_its_number() {
    assert_eq!(c(0).get(), 0);
    assert_eq!(c(200).get(), 200);
    assert_eq!(c(3), c(3));
    assert_ne!(c(3), c(4));
}

#[test]
fn a_new_machine_waits_for_power() {
    let mut bench = Bench::<2>::new(&[1, 2], 3);
    assert_eq!(bench.state(), State::PowerOnReset);
    for event in every_event(1) {
        if !matches!(event, Event::PowerGood(_)) {
            assert_eq!(bench.tell(event), vec![]);
            assert_eq!(bench.state(), State::PowerOnReset);
        }
    }
    let first = vec![Effect::MeasurePlatformFirmware(c(1)), Effect::CompareToRim(c(1))];
    assert_eq!(bench.tell(BOOT), first);
    assert_eq!(bench.state(), State::MeasuringPlatform);
}

#[test]
fn each_match_releases_and_moves_on() {
    let mut bench = Bench::<3>::new(&[1, 2], 3);
    bench.tell(BOOT);
    assert_eq!(
        bench.tell(Event::PlatformMeasured(c(1))),
        vec![
            Effect::ReleaseReset(c(1)),
            Effect::MeasurePlatformFirmware(c(2)),
            Effect::CompareToRim(c(2)),
        ],
    );
    assert_eq!(bench.state(), State::MeasuringPlatform);
    assert_eq!(bench.tell(Event::PlatformMeasured(c(2))), vec![Effect::ReleaseReset(c(2))]);
    assert_eq!(bench.state(), State::Ready);
}

#[test]
fn a_report_out_of_turn_releases_nothing() {
    let mut bench = Bench::<3>::new(&[1, 2], 3);
    bench.tell(BOOT);
    // The second component matched, but the first one is under measurement.
    assert_eq!(bench.tell(Event::PlatformMeasured(c(2))), vec![]);
    assert_eq!(bench.state(), State::MeasuringPlatform);
    // A component that is not in the chain at all.
    assert_eq!(bench.tell(Event::PlatformMeasured(c(9))), vec![]);
    // The walk goes on from where it was.
    assert_eq!(
        bench.tell(Event::PlatformMeasured(c(1))),
        vec![
            Effect::ReleaseReset(c(1)),
            Effect::MeasurePlatformFirmware(c(2)),
            Effect::CompareToRim(c(2)),
        ],
    );
    // The first component once more: it has had its turn.
    assert_eq!(bench.tell(Event::PlatformMeasured(c(1))), vec![]);
    assert_eq!(bench.state(), State::MeasuringPlatform);
    assert_eq!(bench.tell(Event::PlatformMeasured(c(2))), vec![Effect::ReleaseReset(c(2))]);
    assert_eq!(bench.state(), State::Ready);
}

#[test]
fn an_empty_chain_measures_nothing() {
    let mut bench = Bench::<2>::new(&[], 3);
    assert_eq!(bench.tell(BOOT), vec![]);
    assert_eq!(bench.state(), State::MeasuringPlatform);
    assert_eq!(bench.tell(Event::PlatformMeasured(c(9))), vec![]);
    assert_eq!(bench.state(), State::MeasuringPlatform);
}

#[test]
fn the_same_id_can_stand_in_the_chain_twice() {
    let mut bench = Bench::<3>::new(&[4, 4], 3);
    bench.tell(BOOT);
    assert_eq!(bench.tell(Event::PlatformMeasured(c(4)))[0], Effect::ReleaseReset(c(4)));
    assert_eq!(bench.state(), State::MeasuringPlatform);
    assert_eq!(bench.tell(Event::PlatformMeasured(c(4))), vec![Effect::ReleaseReset(c(4))]);
    assert_eq!(bench.state(), State::Ready);
}

#[test]
fn walking_ignores_what_is_not_its_business() {
    let mut bench = Bench::<2>::new(&[1, 2], 3);
    bench.tell(BOOT);
    for event in every_event(2) {
        if !matches!(event, Event::PlatformMeasured(_) | Event::PlatformMismatch(_)) {
            assert_eq!(bench.tell(event), vec![]);
            assert_eq!(bench.state(), State::MeasuringPlatform);
        }
    }
}

#[test]
fn mismatch_restores_the_named_component() {
    let mut bench = Bench::<2>::new(&[1, 2], 3);
    bench.tell(BOOT);
    assert_eq!(
        bench.tell(Event::PlatformMismatch(c(2))),
        vec![Effect::RestoreGoldenImage(c(2))],
    );
    assert_eq!(bench.state(), State::Recovering);
}

#[test]
fn verified_update_is_activated() {
    let mut bench = ready(3);
    assert_eq!(
        bench.tell(Event::UpdateRequest),
        vec![Effect::AuthenticateUpdate, Effect::StageUpdate],
    );
    assert_eq!(bench.state(), State::Updating);
    assert_eq!(bench.tell(Event::UpdateVerified), vec![Effect::ActivateUpdate]);
    assert_eq!(bench.state(), State::Ready);
}

#[test]
fn update_events_never_start_recovery() {
    for event in [Event::UpdateRequest, Event::UpdateVerified, Event::UpdateRejected] {
        let mut bench = ready(3);
        bench.tell(event);
        assert!(matches!(bench.state(), State::Ready | State::Updating));
        let mut bench = ready(3);
        bench.tell(Event::UpdateRequest);
        bench.tell(event);
        assert!(matches!(bench.state(), State::Ready | State::Updating));
    }
}

#[test]
fn corruption_is_recovered_from_every_operational_state() {
    let mut bench = ready(3);
    assert_eq!(
        bench.tell(Event::CorruptionDetected(c(7))),
        vec![Effect::RestoreGoldenImage(c(7))],
    );
    assert_eq!(bench.state(), State::Recovering);

    // Corruption during a recovery starts the recovery of the other component.
    assert_eq!(
        bench.tell(Event::CorruptionDetected(c(8))),
        vec![Effect::RestoreGoldenImage(c(8))],
    );
    assert_eq!(bench.state(), State::Recovering);

    let mut bench = ready(3);
    bench.tell(Event::UpdateRequest);
    assert_eq!(
        bench.tell(Event::CorruptionDetected(c(7))),
        vec![Effect::RestoreGoldenImage(c(7))],
    );
    assert_eq!(bench.state(), State::Recovering);
}

#[test]
fn attestation_is_answered_while_recovering() {
    let mut bench = ready(3);
    bench.tell(Event::CorruptionDetected(c(7)));
    assert_eq!(bench.tell(Event::AttestationChallenge), vec![Effect::SignAttestation]);
    assert_eq!(bench.state(), State::Recovering);
}

#[test]
fn only_a_challenge_gets_a_signature() {
    // Scripts that lead to each of the six states.
    let ways: [&[Event]; 6] = [
        &[],
        &[BOOT],
        &[BOOT, Event::PlatformMeasured(c(7))],
        &[BOOT, Event::PlatformMeasured(c(7)), Event::UpdateRequest],
        &[BOOT, Event::PlatformMismatch(c(7))],
        &[Event::PowerGood(Provisioning::Unprovisioned)],
    ];
    for way in ways {
        for event in every_event(7) {
            let mut bench = Bench::<1>::new(&[7], 3);
            for &earlier in way {
                bench.tell(earlier);
            }
            let before = bench.state();
            let operational =
                matches!(before, State::Ready | State::Updating | State::Recovering);
            let effects = bench.tell(event);
            if event == Event::AttestationChallenge {
                assert_eq!(bench.state(), before);
            }
            if event == Event::AttestationChallenge && operational {
                assert_eq!(effects, vec![Effect::SignAttestation]);
            } else {
                assert!(!effects.contains(&Effect::SignAttestation));
            }
        }
    }
}

#[test]
fn recovery_walks_the_whole_chain_again() {
    let mut bench = Bench::<2>::new(&[1, 2], 3);
    for event in [BOOT, Event::PlatformMeasured(c(1)), Event::PlatformMeasured(c(2))] {
        bench.tell(event);
    }
    let cold_boot = bench.trace.clone();
    bench.trace.clear();
    for event in [
        Event::CorruptionDetected(c(2)),
        Event::Restored(c(2)),
        Event::PlatformMeasured(c(1)),
        Event::PlatformMeasured(c(2)),
    ] {
        bench.tell(event);
    }
    assert_eq!(bench.trace[0], Effect::RestoreGoldenImage(c(2)));
    assert_eq!(bench.trace[1..], cold_boot[..]);
    assert_eq!(bench.state(), State::Ready);
}

#[test]
fn retry_count_resets_after_successful_recovery() {
    // Two restores in a row would lock this machine down; one at a time never does.
    let mut bench = ready(2);
    for _ in 0..5 {
        bench.tell(Event::CorruptionDetected(c(7)));
        bench.tell(Event::Restored(c(7)));
        assert_eq!(bench.state(), State::MeasuringPlatform);
        bench.tell(Event::PlatformMeasured(c(7)));
        assert_eq!(bench.state(), State::Ready);
    }
    bench.tell(Event::CorruptionDetected(c(7)));
    bench.tell(Event::Restored(c(7)));
    bench.tell(Event::PlatformMismatch(c(7)));
    assert_eq!(bench.tell(Event::Restored(c(7))), vec![Effect::LatchLockdown]);
    assert_eq!(bench.state(), State::Locked);
}

#[test]
fn no_restores_allowed_means_one_is_made() {
    let mut bench = ready(0);
    bench.tell(Event::CorruptionDetected(c(7)));
    assert_eq!(bench.state(), State::Recovering);
    assert_eq!(bench.tell(Event::Restored(c(7))), vec![Effect::LatchLockdown]);
    assert_eq!(bench.state(), State::Locked);
}

#[test]
fn the_largest_limit_is_reached() {
    let mut bench = ready(u8::MAX);
    bench.tell(Event::CorruptionDetected(c(7)));
    for _ in 0..(u8::MAX - 1) {
        bench.tell(Event::Restored(c(7)));
        assert_eq!(bench.state(), State::MeasuringPlatform);
        bench.tell(Event::PlatformMismatch(c(7)));
        assert_eq!(bench.state(), State::Recovering);
    }
    assert_eq!(bench.tell(Event::Restored(c(7))), vec![Effect::LatchLockdown]);
    assert_eq!(bench.state(), State::Locked);
}

#[test]
fn reported_failure_of_recovery_locks_down() {
    let mut bench = ready(3);
    bench.tell(Event::CorruptionDetected(c(7)));
    assert_eq!(bench.tell(Event::RecoveryFailed), vec![Effect::LatchLockdown]);
    assert_eq!(bench.state(), State::Locked);
}

#[test]
fn lockdown_swallows_every_event() {
    let mut bench = Bench::<2>::new(&[1, 2], 3);
    bench.tell(Event::PowerGood(Provisioning::Unprovisioned));
    for event in every_event(1) {
        assert_eq!(bench.tell(event), vec![]);
        assert_eq!(bench.state(), State::Locked);
    }
    assert_eq!(bench.trace, vec![Effect::LatchLockdown]);
}

#[test]
fn inside_effects_never_come_out() {
    let mut bench = ready(1);
    bench.tell(Event::CorruptionDetected(c(7)));
    bench.tell(Event::Restored(c(7)));
    assert!(!bench.trace.iter().any(|e| matches!(e, Effect::Emit(_))));
}

#[test]
fn replaying_a_script_gives_the_same_run() {
    let script = [
        BOOT,
        Event::PlatformMeasured(c(1)),
        Event::PlatformMismatch(c(2)),
        Event::Restored(c(2)),
        Event::PlatformMeasured(c(1)),
        Event::PlatformMeasured(c(2)),
        Event::AttestationChallenge,
        Event::UpdateRequest,
    ];
    let mut first = Bench::<2>::new(&[1, 2], 3);
    let mut second = Bench::<2>::new(&[1, 2], 3);
    for event in script {
        assert_eq!(first.tell(event), second.tell(event));
    }
    assert_eq!(first.state(), second.state());
    assert_eq!(first.state(), State::Updating);
}

#[test]
fn other_ids_make_no_difference() {
    let run = |a: u8, b: u8| {
        let mut bench = Bench::<2>::new(&[a, b], 3);
        for event in [BOOT, Event::PlatformMeasured(c(a)), Event::PlatformMismatch(c(b))] {
            bench.tell(event);
        }
        (bench.trace, bench.orch.state())
    };
    let (trace, state) = run(1, 2);
    let (other, other_state) = run(255, 40);
    assert_eq!(state, other_state);
    assert_eq!(trace.len(), other.len());
    assert_eq!(trace[5], Effect::RestoreGoldenImage(c(2)));
    assert_eq!(other[5], Effect::RestoreGoldenImage(c(40)));
    assert_eq!(other[2], Effect::ReleaseReset(c(255)));
}

/// A call that was made on a board.
#[derive(Debug, PartialEq)]
enum Made {
    Asked(Event),
    Executed(Effect),
}

/// A board that gives its events from a list and notes every call.
struct Scripted {
    events: Vec<Event>,
    calls: Vec<Made>,
}

impl Scripted {
    fn new(events: &[Event]) -> Self {
        Self { events: events.to_vec(), calls: Vec::new() }
    }

    fn carried_out(&self) -> Vec<Effect> {
        let mut effects = Vec::new();
        for call in &self.calls {
            if let Made::Executed(effect) = call {
                effects.push(*effect);
            }
        }
        effects
    }
}

impl Platform for Scripted {
    fn execute(&mut self, effect: Effect) {
        self.calls.push(Made::Executed(effect));
    }
}

impl EventSource for Scripted {
    fn next_event(&mut self) -> Event {
        let event = self.events.remove(0);
        self.calls.push(Made::Asked(event));
        event
    }
}

#[test]
fn a_turn_asks_once_and_then_carries_out() {
    let mut io =
        Scripted::new(&[BOOT, Event::PlatformMeasured(c(7)), Event::AttestationChallenge]);
    let mut bench = Bench::<1>::new(&[7], 3);
    run_once(&mut io, &mut bench.orch);
    assert_eq!(io.events.len(), 2);
    assert_eq!(bench.state(), State::MeasuringPlatform);
    run_once(&mut io, &mut bench.orch);
    run_once(&mut io, &mut bench.orch);
    assert_eq!(bench.state(), State::Ready);
    assert_eq!(
        io.calls,
        vec![
            Made::Asked(BOOT),
            Made::Executed(Effect::MeasurePlatformFirmware(c(7))),
            Made::Executed(Effect::CompareToRim(c(7))),
            Made::Asked(Event::PlatformMeasured(c(7))),
            Made::Executed(Effect::ReleaseReset(c(7))),
            Made::Asked(Event::AttestationChallenge),
            Made::Executed(Effect::SignAttestation),
        ],
    );
}

#[test]
fn a_platform_is_put_through_what_a_closure_is_handed() {
    let script = [
        BOOT,
        Event::PlatformMeasured(c(1)),
        Event::PlatformMeasured(c(2)),
        Event::UpdateRequest,
        Event::UpdateRejected,
        Event::AttestationChallenge,
        Event::CorruptionDetected(c(2)),
        Event::Restored(c(2)),
    ];
    let mut handed = Bench::<2>::new(&[1, 2], 1);
    let mut stepped = Bench::<2>::new(&[1, 2], 1);
    let mut platform = Scripted::new(&[]);
    for event in script {
        handed.tell(event);
        stepped.orch.dispatch(&mut platform, event);
        assert_eq!(platform.carried_out(), handed.trace);
        assert_eq!(stepped.state(), handed.state());
    }
    assert_eq!(handed.trace.last(), Some(&Effect::LatchLockdown));
    assert_eq!(handed.trace.len(), 12);
}

/// A receiver that is no closure.
struct Logger<'a> {
    log: &'a mut Vec<Effect>,
}

impl OnEffect for Logger<'_> {
    fn take(&mut self, effect: Effect) {
        self.log.push(effect);
    }
}

#[test]
fn a_receiver_is_handed_each_effect_once_and_in_order() {
    let mut log = Vec::new();
    let mut orch = ready(1).orch;
    orch.dispatch_with(Event::UpdateRequest, Logger { log: &mut log });
    assert_eq!(log, vec![Effect::AuthenticateUpdate, Effect::StageUpdate]);
    orch.dispatch_with(Event::CorruptionDetected(c(7)), Logger { log: &mut log });
    // The last restore allowed: the follow-up is handled within the same dispatch.
    orch.dispatch_with(Event::Restored(c(7)), Logger { log: &mut log });
    assert_eq!(
        log,
        vec![
            Effect::AuthenticateUpdate,
            Effect::StageUpdate,
            Effect::RestoreGoldenImage(c(7)),
            Effect::LatchLockdown,
        ],
    );
    assert_eq!(orch.state(), State::Locked);
}

#[test]
fn a_long_chain_is_walked_to_its_end() {
    let ids: Vec<u8> = (0..=255).collect();
    let mut bench = Bench::<256>::new(&ids, 3);
    bench.tell(BOOT);
    for &id in &ids {
        assert_eq!(bench.state(), State::MeasuringPlatform);
        assert_eq!(bench.tell(Event::PlatformMeasured(c(id)))[0], Effect::ReleaseReset(c(id)));
    }
    assert_eq!(bench.state(), State::Ready);
    assert_eq!(bench.trace.len(), 3 * 256);
}

#[test]
fn a_chain_longer_than_a_byte_counts_is_walked_to_its_end() {
    let ids = [0u8; 257];
    let mut bench = Bench::<257>::new(&ids, 3);
    bench.tell(BOOT);
    for _ in 0..256 {
        bench.tell(Event::PlatformMeasured(c(0)));
        assert_eq!(bench.state(), State::MeasuringPlatform);
    }
    assert_eq!(bench.tell(Event::PlatformMeasured(c(0))), vec![Effect::ReleaseReset(c(0))]);
    assert_eq!(bench.state(), State::Ready);
    let released = bench.trace.iter().filter(|e| **e == Effect::ReleaseReset(c(0))).count();
    assert_eq!(released, 257);
}
