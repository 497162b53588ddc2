//! Core types and traits.
//!
//! - [`Transition`] is what a transition or timeout handler produces: the next state and the
//!   actions of the transition.
//! - [`StateVariant`] and [`EventVariant`] give the stable names that dispatch is keyed by.
//! - [`FsmContext`] and [`FsmAction`] describe the host-owned context and the effects.

use vstd::prelude::*;

use crate::error::FsmError;

verus! {

/// The result of handling an event (or a timeout): the next state plus actions.
#[derive(Clone, Debug)]
pub struct Transition<S, A> {
    /// The next state to transition to.
    pub next_state: S,
    /// Actions to perform as part of the transition.
    pub actions: Vec<A>,
}

impl<S, A> Transition<S, A> {
    /// Starts building a transition to `next_state`, with no actions yet.
    pub fn to(next_state: S) -> (b: TransitionBuilder<S, A>)
        ensures
            b.target() == next_state,
            b.pending_actions() == Seq::<A>::empty(),
    {
        TransitionBuilder { next_state, actions: Vec::new() }
    }

    /// Starts building a transition that stays in the current state; the state itself is
    /// supplied at the end through [`StayBuilder::in_state`].
    pub fn stay() -> (b: StayBuilder<S, A>)
        ensures
            b.pending_actions() == Seq::<A>::empty(),
    {
        StayBuilder { actions: Vec::new(), _phantom: std::marker::PhantomData }
    }
}

/// Builder for transitions to a new state.
pub struct TransitionBuilder<S, A> {
    next_state: S,
    actions: Vec<A>,
}

impl<S, A> TransitionBuilder<S, A> {
    /// The state the transition will go to.
    pub closed spec fn target(&self) -> S {
        self.next_state
    }

    /// The actions collected so far, in order.
    pub closed spec fn pending_actions(&self) -> Seq<A> {
        self.actions@
    }

    /// Replaces the action list.
    pub fn with_actions(self, actions: Vec<A>) -> (b: Self)
        ensures
            b.target() == self.target(),
            b.pending_actions() == actions@,
    {
        let mut b = self;
        b.actions = actions;
        b
    }

    /// Appends a single action.
    pub fn with_action(self, action: A) -> (b: Self)
        ensures
            b.target() == self.target(),
            b.pending_actions() == self.pending_actions().push(action),
    {
        let mut b = self;
        b.actions.push(action);
        b
    }

    /// Builds the transition.
    pub fn build(self) -> (t: Transition<S, A>)
        ensures
            t.next_state == self.target(),
            t.actions@ == self.pending_actions(),
    {
        Transition { next_state: self.next_state, actions: self.actions }
    }
}

/// Builder for transitions that stay in the current state.
pub struct StayBuilder<S, A> {
    actions: Vec<A>,
    _phantom: std::marker::PhantomData<S>,
}

impl<S, A> StayBuilder<S, A> {
    /// The actions collected so far, in order.
    pub closed spec fn pending_actions(&self) -> Seq<A> {
        self.actions@
    }
}

impl<S: Clone, A> StayBuilder<S, A> {
    /// Replaces the action list.
    pub fn with_actions(self, actions: Vec<A>) -> (b: Self)
        ensures
            b.pending_actions() == actions@,
    {
        let mut b = self;
        b.actions = actions;
        b
    }

    /// Appends a single action.
    pub fn with_action(self, action: A) -> (b: Self)
        ensures
            b.pending_actions() == self.pending_actions().push(action),
    {
        let mut b = self;
        b.actions.push(action);
        b
    }

    /// Builds the transition by supplying the current state.
    pub fn in_state(self, current_state: S) -> (t: Transition<S, A>)
        ensures
            t.next_state == current_state,
            t.actions@ == self.pending_actions(),
    {
        Transition { next_state: current_state, actions: self.actions }
    }
}

/// State types that report a stable variant name.
///
/// Dispatch tables are keyed by this name; for an enum it is the variant's name, whatever
/// the payload (`State::Running { count: 5 }` reports `"Running"`).
pub trait StateVariant: Clone + core::fmt::Debug + PartialEq + Send + Sync + 'static {
    /// The state's variant name, as a sequence of characters: what
    /// [`StateVariant::variant_name`] returns. An implementation checked by Verus overrides it
    /// with that name. The default, the empty sequence, only lets implementations in plain
    /// Rust compile: Verus never sees them, and what the library proves over this name
    /// holds for them as far as their `variant_name` returns what they would define here.
    open spec fn spec_name(&self) -> Seq<char> {
        Seq::empty()
    }

    /// Returns the state variant name (without data).
    fn variant_name(&self) -> (name: &str)
        ensures
            name@ == self.spec_name(),
    ;
}

/// Event types that report a stable variant name, the other half of the dispatch key.
pub trait EventVariant: Clone + core::fmt::Debug + Send + Sync + 'static {
    /// The event's variant name, as a sequence of characters: what
    /// [`EventVariant::variant_name`] returns. An implementation checked by Verus overrides it
    /// with that name. The default, the empty sequence, only lets implementations in plain
    /// Rust compile: Verus never sees them, and what the library proves over this name
    /// holds for them as far as their `variant_name` returns what they would define here.
    open spec fn spec_name(&self) -> Seq<char> {
        Seq::empty()
    }

    /// Returns the event variant name (without data).
    fn variant_name(&self) -> (name: &str)
        ensures
            name@ == self.spec_name(),
    ;
}

/// The host-owned context that handlers and actions operate on.
pub trait FsmContext: Send + Sync + 'static {
    /// A human-readable description of this context, for debugging.
    fn describe(&self) -> (s: String)
        default_ensures
            s@ == "FSM Context"@,
    {
        "FSM Context".to_owned()
    }
}

/// Effects returned by the state machine for the host to execute.
///
/// The machine never runs an action itself: it hands actions back in order, and the host
/// decides when and how to execute them.
pub trait FsmAction: Clone + core::fmt::Debug + Send + Sync + 'static {
    /// The context type this action operates on.
    type Context: FsmContext;

    /// A human-readable description of what this action does: its `Debug` text.
    fn describe(&self) -> String {
        debug_text(self)
    }
}

/// The `Debug` text of a value, as `format!("{:?}", ..)` gives it.
#[verifier::external_body]
fn debug_text<T: core::fmt::Debug + ?Sized>(value: &T) -> String {
    format!("{value:?}")
}

/// Result type used by handlers and actions.
pub type FsmResult<T> = Result<T, FsmError>;

} // verus!
