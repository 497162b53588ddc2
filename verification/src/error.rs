//! Error types for FSM operations.

use vstd::prelude::*;
use vstd::string::*;

verus! {

/// Errors returned by FSM handlers, actions, and construction.
#[derive(Debug)]
pub enum FsmError {
    /// A transition was requested for a `(state, event)` pair with no handler.
    ///
    /// Most users see [`FsmError::UnhandledEvent`] instead; this variant lets callers that
    /// want to tell the cases apart do so.
    InvalidTransition { from: String, event: String },
    /// A second transition handler was registered for the same `(state, event)`.
    DuplicateHandler { state: String, event: String },
    /// An FSM handler or action returned an error.
    HandlerError(String),
    /// A timeout fired for a given state.
    Timeout { state: String },
    /// An event was not handled and no unhandled-event hook was provided.
    UnhandledEvent { state: String, event: String },
    /// Generic builder or configuration error.
    BuilderError(String),
}

impl FsmError {
    /// The human-readable text of the error.
    pub open spec fn text(&self) -> Seq<char> {
        match self {
            FsmError::InvalidTransition { from, event } => "Invalid transition from state '"@
                + from@ + "' on event '"@ + event@ + "'"@,
            FsmError::DuplicateHandler { state, event } => "Duplicate handler for state '"@
                + state@ + "' and event '"@ + event@ + "'"@,
            FsmError::HandlerError(msg) => "Handler error: "@ + msg@,
            FsmError::Timeout { state } => "Timeout in state '"@ + state@ + "'"@,
            FsmError::UnhandledEvent { state, event } => "Unhandled event '"@ + event@
                + "' in state '"@ + state@ + "'"@,
            FsmError::BuilderError(msg) => "Builder error: "@ + msg@,
        }
    }

    /// Renders the error as text (what `Display` shows for it).
    pub fn to_string(&self) -> (s: String)
        ensures
            s@ == self.text(),
    {
        match self {
            FsmError::InvalidTransition { from, event } => {
                let mut s = "Invalid transition from state '".to_owned();
                s.append(from.as_str());
                s.append("' on event '");
                s.append(event.as_str());
                s.append("'");
                s
            },
            FsmError::DuplicateHandler { state, event } => {
                let mut s = "Duplicate handler for state '".to_owned();
                s.append(state.as_str());
                s.append("' and event '");
                s.append(event.as_str());
                s.append("'");
                s
            },
            FsmError::HandlerError(msg) => {
                let mut s = "Handler error: ".to_owned();
                s.append(msg.as_str());
                s
            },
            FsmError::Timeout { state } => {
                let mut s = "Timeout in state '".to_owned();
                s.append(state.as_str());
                s.append("'");
                s
            },
            FsmError::UnhandledEvent { state, event } => {
                let mut s = "Unhandled event '".to_owned();
                s.append(event.as_str());
                s.append("' in state '");
                s.append(state.as_str());
                s.append("'");
                s
            },
            FsmError::BuilderError(msg) => {
                let mut s = "Builder error: ".to_owned();
                s.append(msg.as_str());
                s
            },
        }
    }
}

} // verus!
