//! A finite state machine (FSM) library in the style of Akka / Apache Pekko (Classic) FSM.
//!
//! The core is a Mealy machine: `State(S) × Event(E) → Actions(A), State(S')`.
//!
//! - Transition handlers return a [`Transition`]: the next state and the actions.
//! - The [`StateMachine`] stores the current state and the handler tables; the mutable
//!   context lives with the host, and so does every effect: the machine decides, the host
//!   runs handlers and actions.
//! - Dispatch is keyed by `(state.variant_name(), event.variant_name())`, with a wildcard
//!   state `"_"` as fallback and an optional hook for unhandled events.
//! - Timeouts are per state and cooperative: entering a state arms its timeout, and the
//!   host asks the machine whether one is due.

pub mod builder;
pub mod clock;
pub mod dsl;
pub mod error;
pub mod internal;
pub mod machine;
pub mod table;
pub mod types;

pub use builder::transitions;
pub use error::FsmError;
pub use machine::{
    ordered_actions, Deadline, Route, StateMachine, TransitionPhase, TransitionStep,
};
pub use types::{EventVariant, FsmAction, FsmContext, FsmResult, StateVariant, Transition};
