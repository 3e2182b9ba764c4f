//! Scripts of events, and the ordered effects and final states that they lead to.

use rot_reducer::{ComponentId, Effect, Event, Orchestrator, Platform, Provisioning, State};

// What a board chooses; the core sets neither.
const CAPACITY: usize = 8;
const MAX_RETRY: u8 = 3;

// A provisioned power-on, with which every walk begins.
const BOOT: Event = Event::PowerGood(Provisioning::Provisioned);

// Generic components: the core never learns what they are.
fn c(id: u8) -> ComponentId {
    ComponentId::new(id)
}

fn chain(ids: &[ComponentId]) -> heapless::Vec<ComponentId, CAPACITY> {
    let mut chain = heapless::Vec::new();
    for &id in ids {
        chain.push(id).expect("chain within CAPACITY");
    }
    chain
}

/// A platform that records every effect it is to carry out, in order.
struct Recorder {
    recorded: Vec<Effect>,
}

impl Recorder {
    fn new() -> Self {
        Self { recorded: Vec::new() }
    }
}

impl Platform for Recorder {
    fn execute(&mut self, effect: Effect) {
        self.recorded.push(effect);
    }
}

/// Drives a fresh orchestrator through `script`, one event per step, and returns the
/// ordered outside effects and the final state.
fn drive(
    chain: heapless::Vec<ComponentId, CAPACITY>,
    script: &[Event],
) -> (Vec<Effect>, State) {
    let mut orch = Orchestrator::new(chain, MAX_RETRY);
    let mut platform = Recorder::new();
    for &event in script {
        orch.dispatch(&mut platform, event);
    }
    (platform.recorded, orch.state())
}

#[test]
fn cold_boot_walks_chain_in_order() {
    let (effects, state) = drive(
        chain(&[c(0), c(1)]),
        &[BOOT, Event::PlatformMeasured(c(0)), Event::PlatformMeasured(c(1))],
    );

    assert_eq!(
        effects,
        vec![
            Effect::MeasurePlatformFirmware(c(0)),
            Effect::CompareToRim(c(0)),
            Effect::ReleaseReset(c(0)),
            Effect::MeasurePlatformFirmware(c(1)),
            Effect::CompareToRim(c(1)),
            Effect::ReleaseReset(c(1)),
        ],
    );
    assert_eq!(state, State::Ready);
}

#[test]
fn unprovisioned_boot_locks_down() {
    let (effects, state) =
        drive(chain(&[c(0)]), &[Event::PowerGood(Provisioning::Unprovisioned)]);

    assert_eq!(effects, vec![Effect::LatchLockdown]);
    assert_eq!(state, State::Locked);
}

#[test]
fn attestation_shared_across_operational_states() {
    // From Ready.
    let (effects, state) = drive(
        chain(&[c(0)]),
        &[BOOT, Event::PlatformMeasured(c(0)), Event::AttestationChallenge],
    );
    assert_eq!(effects.last(), Some(&Effect::SignAttestation));
    assert_eq!(state, State::Ready);

    // From Updating.
    let (effects, state) = drive(
        chain(&[c(0)]),
        &[
            BOOT,
            Event::PlatformMeasured(c(0)),
            Event::UpdateRequest,
            Event::AttestationChallenge,
        ],
    );
    assert_eq!(effects.last(), Some(&Effect::SignAttestation));
    assert_eq!(state, State::Updating);
}

#[test]
fn update_rollback_is_not_recovery() {
    let (effects, state) = drive(
        chain(&[c(0)]),
        &[
            BOOT,
            Event::PlatformMeasured(c(0)),
            Event::UpdateRequest,
            Event::UpdateRejected,
        ],
    );

    let tail = &effects[effects.len() - 3..];
    assert_eq!(
        tail,
        &[Effect::AuthenticateUpdate, Effect::StageUpdate, Effect::DiscardStaged],
    );
    assert_eq!(state, State::Ready);
    assert!(!effects.contains(&Effect::RestoreGoldenImage(c(0))));
    assert!(!effects.contains(&Effect::LatchLockdown));
}

#[test]
fn runtime_corruption_targets_component_and_rewalks() {
    let (effects, state) = drive(
        chain(&[c(0), c(1)]),
        &[
            BOOT,
            Event::PlatformMeasured(c(0)),
            Event::PlatformMeasured(c(1)),
            Event::CorruptionDetected(c(1)),
        ],
    );
    assert_eq!(effects.last(), Some(&Effect::RestoreGoldenImage(c(1))));
    assert_eq!(state, State::Recovering);

    // After the restore, the walk starts over from the first component.
    let (effects, state) = drive(
        chain(&[c(0), c(1)]),
        &[
            BOOT,
            Event::PlatformMeasured(c(0)),
            Event::PlatformMeasured(c(1)),
            Event::CorruptionDetected(c(1)),
            Event::Restored(c(1)),
        ],
    );
    let tail = &effects[effects.len() - 2..];
    assert_eq!(tail, &[Effect::MeasurePlatformFirmware(c(0)), Effect::CompareToRim(c(0))]);
    assert_eq!(state, State::MeasuringPlatform);
}

#[test]
fn retry_cap_self_latches_via_emit() {
    let mut script = vec![BOOT, Event::PlatformMeasured(c(0))];
    // Ready. Start recovery, then fail to restore MAX_RETRY times.
    script.push(Event::CorruptionDetected(c(0)));
    for _ in 0..(MAX_RETRY - 1) {
        script.push(Event::Restored(c(0)));
        script.push(Event::PlatformMismatch(c(0)));
    }
    script.push(Event::Restored(c(0)));

    let (effects, state) = drive(chain(&[c(0)]), &script);

    // The script never says that recovery failed, yet the core locked itself down.
    assert!(!script.contains(&Event::RecoveryFailed));
    assert_eq!(state, State::Locked);
    assert_eq!(effects.last(), Some(&Effect::LatchLockdown));
}

#[test]
fn custom_capacity_walks_full_chain() {
    let mut chain = heapless::Vec::<ComponentId, 3>::new();
    for &id in &[c(0), c(1), c(2)] {
        chain.push(id).expect("3 fits in N=3");
    }

    let mut orch = Orchestrator::new(chain, MAX_RETRY);
    let mut effects = Vec::new();
    for ev in [
        BOOT,
        Event::PlatformMeasured(c(0)),
        Event::PlatformMeasured(c(1)),
        Event::PlatformMeasured(c(2)),
    ] {
        orch.dispatch_with(ev, |e| effects.push(e));
    }

    assert_eq!(orch.state(), State::Ready);
    assert_eq!(effects.last(), Some(&Effect::ReleaseReset(c(2))));
}

#[test]
fn custom_retry_cap_latches_sooner() {
    let mut chain = heapless::Vec::<ComponentId, CAPACITY>::new();
    chain.push(c(0)).expect("1 fits");

    let mut orch = Orchestrator::new(chain, 1);
    let mut effects = Vec::new();
    for ev in [
        BOOT,
        Event::PlatformMeasured(c(0)),
        Event::CorruptionDetected(c(0)),
        Event::Restored(c(0)),
    ] {
        orch.dispatch_with(ev, |e| effects.push(e));
    }

    assert_eq!(orch.state(), State::Locked);
    assert_eq!(effects.last(), Some(&Effect::LatchLockdown));
}
