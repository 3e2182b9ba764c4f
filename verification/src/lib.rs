//! A hardware Root-of-Trust state machine, driven as a pure reducer and verified.
//!
//! The machine models the security lifecycle of a platform Root of Trust. At
//! power-on it measures the firmware of each platform component and releases a
//! component from reset once its measurement matched; when trust cannot be
//! established it latches the platform into lockdown. It also covers runtime
//! attestation, firmware update and recovery from corruption.
//!
//! It starts at *platform* verification. The Root of Trust's own integrity and its
//! attestation key are established one boot layer down, before this machine runs,
//! and are part of what [`Provisioning`] reports.
//!
//! The core does no input or output. It is told of the world by [`Event`]s and
//! answers with [`Effect`]s, which a [`Platform`] carries out:
//!
//! 1. Handlers append effects to a [`Sink`] that is fresh for every event.
//! 2. A handler asks for a follow-up event by emitting [`Effect::Emit`]; the
//!    [`Orchestrator`] handles that event next, before it returns.
//! 3. The core reads nothing. What it needs to know arrives in the event.
//!
//! The modules:
//!
//! * [`vocabulary`]: ids, events, effects and states.
//! * [`model`]: the mathematical model that the contracts speak of.
//! * [`buffer`]: the bounded vectors of `heapless` and what is trusted of them.
//! * [`sink`]: the effect buffer.
//! * [`rot`]: the shared storage and the handlers of each state.
//! * [`machine`]: the `statig` engine and what is trusted of it.
//! * [`seams`]: how the core touches the outside, and what it puts a board through.
//! * [`orchestrator`]: the dispatch loop.
//! * [`laws`]: what holds of every event.
//! * [`causes`]: what every effect and every change comes from.
//! * [`runs`]: what holds of every script of events.

pub mod buffer;
pub mod causes;
pub mod laws;
pub mod machine;
pub mod model;
pub mod orchestrator;
pub mod rot;
pub mod runs;
pub mod seams;
pub mod sink;
pub mod vocabulary;

pub use orchestrator::{run_once, Orchestrator};
pub use rot::Rot;
pub use seams::{EventSource, OnEffect, Platform};
pub use sink::Sink;
pub use vocabulary::{ComponentId, Effect, Event, Provisioning, State, Superstate};
