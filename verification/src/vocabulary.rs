//! What the world and the core say to each other, and the states of the machine.

use core::marker::PhantomData;
use vstd::prelude::*;

verus! {

/// An identifier for one platform component. The core never looks inside it; the
/// board decides which piece of hardware each id stands for.
#[derive(Clone, Copy, PartialEq, Eq, Structural, Debug)]
pub struct ComponentId(u8);

impl View for ComponentId {
    type V = u8;

    /// The raw number inside.
    closed spec fn view(&self) -> u8 {
        self.0
    }
}

impl ComponentId {
    /// Makes a component id. The board calls this, never the core.
    pub fn new(id: u8) -> (component: Self)
        ensures
            component@ == id,
    {
        Self(id)
    }

    /// The raw number inside, by which the board reaches hardware.
    pub fn get(self) -> (id: u8)
        ensures
            id == self@,
    {
        self.0
    }
}

/// Two ids are the same id exactly when they hold the same number.
pub proof fn component_ids_are_their_numbers(a: ComponentId, b: ComponentId)
    ensures
        a == b <==> a@ == b@,
{
}

/// Whether the device has been provisioned. The shell reads this at power-on and
/// delivers it inside [`Event::PowerGood`].
#[derive(Clone, Copy, PartialEq, Eq, Structural, Debug)]
pub enum Provisioning {
    /// The device holds valid secrets and policy, and the lower boot layers have
    /// established its identity, so it can act as a root of trust.
    Provisioned,
    /// Nothing is provisioned: the device cannot establish a root of trust.
    Unprovisioned,
}

/// Everything the outside world can tell the state machine.
#[derive(Clone, Copy, PartialEq, Eq, Structural, Debug)]
pub enum Event {
    /// Power-on, carrying the shell's provisioning read.
    PowerGood(Provisioning),
    /// The component's measurement matched its reference.
    PlatformMeasured(ComponentId),
    /// The component's measurement did not match its reference.
    PlatformMismatch(ComponentId),
    /// A verifier asks for attestation.
    AttestationChallenge,
    /// A firmware update is offered.
    UpdateRequest,
    /// The staged update is genuine.
    UpdateVerified,
    /// The staged update was rejected.
    UpdateRejected,
    /// Corruption of the component was noticed while running.
    CorruptionDetected(ComponentId),
    /// The golden image of the component was restored.
    Restored(ComponentId),
    /// Recovery failed for good.
    RecoveryFailed,
}

/// Everything the state machine can ask the outside world to do. A
/// [`Platform`](crate::Platform) carries out all of them except [`Effect::Emit`].
#[derive(Clone, Copy, PartialEq, Eq, Structural, Debug)]
pub enum Effect {
    /// Measure the component's firmware.
    MeasurePlatformFirmware(ComponentId),
    /// Compare the component's measurement with its reference.
    CompareToRim(ComponentId),
    /// Let the component out of reset.
    ReleaseReset(ComponentId),
    /// Sign an attestation.
    SignAttestation,
    /// Check that the offered update is genuine.
    AuthenticateUpdate,
    /// Stage the update in the spare firmware bank.
    StageUpdate,
    /// Activate the staged update.
    ActivateUpdate,
    /// Throw the staged update away.
    DiscardStaged,
    /// Restore the component's known-good firmware.
    RestoreGoldenImage(ComponentId),
    /// Lock the platform down for good.
    LatchLockdown,
    /// Stays inside: the orchestrator handles this event next. It is never handed to
    /// a platform.
    Emit(Event),
}

/// The six states of the machine. None of them carries data.
#[derive(Clone, Copy, PartialEq, Eq, Structural, Debug)]
pub enum State {
    /// Waiting for power-good.
    PowerOnReset,
    /// Walking the trust chain.
    MeasuringPlatform,
    /// The whole chain is trusted.
    Ready,
    /// An update is being authenticated and staged.
    Updating,
    /// The golden image of a component is being restored.
    Recovering,
    /// Lockdown, for good.
    Locked,
}

/// The group state that several states share, so that event handling common to all
/// of them lives in one place. It borrows nothing; the lifetime is that of the state
/// it is the group of.
#[derive(Debug)]
pub enum Superstate<'leaf> {
    /// The group of `Ready`, `Updating` and `Recovering`.
    Operational(PhantomData<&'leaf ()>),
}

} // verus!
