//! Fluent builder for state machines (in the style of Akka Classic FSM).
//!
//! Handlers are registered by state and event *names*. Registering a second transition
//! handler for a `(state, event)` pair through [`WhenBuilder::on`] is remembered as a
//! duplicate, and construction then fails with [`FsmError::DuplicateHandler`]. Validation is
//! strict from the start: the initial state must have at least one transition handler or a
//! timeout.

use vstd::prelude::*;
use vstd::string::*;

use crate::clock::{clock_reading, duration_nanos, nanos_of};
use crate::error::FsmError;
use crate::machine::{MachineView, Route, StateMachine};
use crate::table::HandlerTable;
use crate::types::StateVariant;

pub mod transitions;

verus! {

/// The abstract state of a builder.
pub struct BuilderView<S, T, N, M, U> {
    /// The state the machine will start in.
    pub initial: S,
    /// The variant name recorded for the initial state.
    pub initial_name: Seq<char>,
    /// Transition handlers by `(state name, event name)`.
    pub transitions: Map<(Seq<char>, Seq<char>), T>,
    /// Entry hooks by state name.
    pub entry: Map<Seq<char>, N>,
    /// Exit hooks by state name.
    pub exit: Map<Seq<char>, N>,
    /// Timeouts by state name: duration in nanoseconds and handler.
    pub timeouts: Map<Seq<char>, (u128, M)>,
    /// The `(state, event)` pairs registered a second time, in the order it happened.
    pub duplicates: Seq<(Seq<char>, Seq<char>)>,
    /// Whether the structural checks apply when building.
    pub strict: bool,
    /// The hook for events that no transition handler answers.
    pub unhandled: Option<U>,
}

/// The message of the error for an initial state without transitions or timeout.
pub open spec fn no_initial_handlers_message(name: Seq<char>) -> Seq<char> {
    "No transitions or timeout configured for initial state '"@ + name + "'"@
}

impl<S, T, N, M, U> BuilderView<S, T, N, M, U> {
    /// Registers `h` for `key`, remembering the pair as a duplicate when it was there already.
    pub open spec fn register(self, key: (Seq<char>, Seq<char>), h: T) -> Self {
        BuilderView {
            transitions: self.transitions.insert(key, h),
            duplicates: if self.transitions.contains_key(key) {
                self.duplicates.push(key)
            } else {
                self.duplicates
            },
            ..self
        }
    }

    /// Sets the timeout of state `name` to `nanos` nanoseconds with handler `h`.
    pub open spec fn with_timeout(self, name: Seq<char>, nanos: u128, h: M) -> Self {
        BuilderView { timeouts: self.timeouts.insert(name, (nanos, h)), ..self }
    }

    /// The initial state has a transition handler or a timeout.
    pub open spec fn initial_has_handlers(self) -> bool {
        (exists|e: Seq<char>| #[trigger] self.transitions.contains_key((self.initial_name, e)))
            || self.timeouts.contains_key(self.initial_name)
    }

    /// Building succeeds: no duplicate was registered, and in strict mode the initial state
    /// has a transition handler or a timeout.
    pub open spec fn buildable(self) -> bool {
        &&& self.duplicates.len() == 0
        &&& self.strict ==> self.initial_has_handlers()
    }

    /// `e` is the error that building reports: the first duplicate, if any; otherwise the
    /// missing handlers of the initial state.
    pub open spec fn rejects_with(self, e: FsmError) -> bool {
        if self.duplicates.len() > 0 {
            e matches FsmError::DuplicateHandler { state, event } && state@ == self.duplicates[0].0
                && event@ == self.duplicates[0].1
        } else {
            e matches FsmError::BuilderError(msg) && msg@ == no_initial_handlers_message(
                self.initial_name,
            )
        }
    }

    /// `m` is a machine built from this builder: in the initial state, with the builder's
    /// tables, and its timer armed for the initial state.
    pub open spec fn builds(self, m: MachineView<S, T, N, M, U>) -> bool {
        &&& m.state == self.initial
        &&& m.state_name == self.initial_name
        &&& m.transitions == self.transitions
        &&& m.entry == self.entry
        &&& m.exit == self.exit
        &&& m.timeouts == self.timeouts
        &&& m.unhandled == self.unhandled
        &&& exists|now: u128| m.timer == #[trigger] m.armed_at(now)
    }
}

/// Registering a second transition handler for the same `(state, event)` pair makes
/// building fail; when it is the first duplicate, the error names that pair.
pub proof fn lemma_second_registration_is_refused<S, T, N, M, U>(
    b: BuilderView<S, T, N, M, U>,
    key: (Seq<char>, Seq<char>),
    first: T,
    second: T,
    e: FsmError,
)
    ensures
        !b.register(key, first).register(key, second).buildable(),
        b.duplicates.len() == 0 && !b.transitions.contains_key(key) && b.register(
            key,
            first,
        ).register(key, second).rejects_with(e) ==> (e matches FsmError::DuplicateHandler {
            state,
            event,
        } && state@ == key.0 && event@ == key.1),
{
    let b1 = b.register(key, first);
    assert(b1.transitions.contains_key(key));
    let b2 = b1.register(key, second);
    assert(b2.duplicates.len() > 0);
}

/// A transition handler registered for a state and an event is the one that the built
/// machine runs for that event while in that state, whatever else was registered before.
pub proof fn lemma_registered_handler_answers<'a, S, T, N, M, U>(
    b: BuilderView<S, T, N, M, U>,
    key: (Seq<char>, Seq<char>),
    h: T,
    m: MachineView<S, T, N, M, U>,
    r: Route<'a, T, U>,
)
    requires
        b.register(key, h).builds(m),
        m.state_name == key.0,
        m.routes(key.1, r),
    ensures
        r == Route::<'a, T, U>::Handler(&h),
{
}

/// The later of two registrations for the same pair is the one the machine keeps.
pub proof fn lemma_later_registration_wins<S, T, N, M, U>(
    b: BuilderView<S, T, N, M, U>,
    key: (Seq<char>, Seq<char>),
    first: T,
    second: T,
)
    ensures
        b.register(key, first).register(key, second).transitions[key] == second,
{
}

/// Strict validation is idempotent: turning it on when it is on changes nothing. Since a
/// new builder starts strict, `new(s)` and `new(s).strict()` build the same way.
pub proof fn lemma_strict_is_idempotent<S, T, N, M, U>(b: BuilderView<S, T, N, M, U>)
    requires
        b.strict,
    ensures
        (BuilderView { strict: true, ..b }) == b,
{
}

/// A builder fails to build exactly when it has a duplicate registration, or, in strict
/// mode, an initial state with neither a transition handler nor a timeout.
pub proof fn lemma_build_failure_causes<S, T, N, M, U>(b: BuilderView<S, T, N, M, U>)
    ensures
        !b.buildable() <==> (b.duplicates.len() > 0 || (b.strict && !b.initial_has_handlers())),
{
}

/// A machine built from a builder whose recorded initial name is the one its initial state
/// reports (as [`FsmBuilder::new`] records it) starts in that state under that name.
pub proof fn lemma_built_machine_names_its_state<S: StateVariant, T, N, M, U>(
    b: BuilderView<S, T, N, M, U>,
    m: MachineView<S, T, N, M, U>,
)
    requires
        b.initial_name == b.initial.spec_name(),
        b.builds(m),
    ensures
        m.state == b.initial,
        m.state_name == m.state.spec_name(),
{
}

/// Building succeeds exactly when no `(state, event)` pair was registered twice and the
/// initial state, under the name it reports, has a transition handler or a timeout; a
/// handler registered for the wildcard state does not count unless that is the name.
pub proof fn lemma_try_build_succeeds_exactly<S: StateVariant, T, N, M, U>(
    b: FsmBuilder<S, T, N, M, U>,
)
    requires
        b.wf(),
    ensures
        b@.buildable() <==> (b@.duplicates.len() == 0 && ((exists|e: Seq<char>|
            #[trigger] b@.transitions.contains_key((b@.initial.spec_name(), e)))
            || b@.timeouts.contains_key(b@.initial.spec_name()))),
{
    b.lemma_wf();
}

/// Main builder for creating state machines.
///
/// `T`, `N`, `M` and `U` are the handler types: transition handlers, entry and exit hooks,
/// timeout handlers and the unhandled-event hook.
pub struct FsmBuilder<S, T, N, M, U> {
    initial_state: S,
    initial_name: String,
    transitions: HandlerTable<(String, String), T>,
    entry_handlers: HandlerTable<String, N>,
    exit_handlers: HandlerTable<String, N>,
    timeout_handlers: HandlerTable<String, (u128, M)>,
    duplicate_handlers: Vec<(String, String)>,
    strict_validation: bool,
    unhandled_handler: Option<U>,
}

impl<S, T, N, M, U> View for FsmBuilder<S, T, N, M, U> {
    type V = BuilderView<S, T, N, M, U>;

    closed spec fn view(&self) -> BuilderView<S, T, N, M, U> {
        BuilderView {
            initial: self.initial_state,
            initial_name: self.initial_name@,
            transitions: self.transitions@,
            entry: self.entry_handlers@,
            exit: self.exit_handlers@,
            timeouts: self.timeout_handlers@,
            duplicates: self.duplicate_handlers@.map_values(|p: (String, String)| p@),
            strict: self.strict_validation,
            unhandled: self.unhandled_handler,
        }
    }
}

impl<S: StateVariant, T, N, M, U> FsmBuilder<S, T, N, M, U> {
    /// The handler tables are well formed, strict validation is on, and the recorded initial
    /// name is the one the initial state reports.
    pub closed spec fn wf(&self) -> bool {
        &&& self.transitions.wf()
        &&& self.entry_handlers.wf()
        &&& self.exit_handlers.wf()
        &&& self.timeout_handlers.wf()
        &&& self.strict_validation
        &&& self.initial_name@ == self.initial_state.spec_name()
    }

    /// A well-formed builder validates strictly and records the name its initial state
    /// reports.
    pub proof fn lemma_wf(&self)
        requires
            self.wf(),
        ensures
            self@.strict,
            self@.initial_name == self@.initial.spec_name(),
    {
    }

    /// Creates a builder for a machine that starts in `initial_state`, recording the name
    /// that `initial_state.variant_name()` reports. Strict validation is on.
    pub fn new(initial_state: S) -> (b: Self)
        ensures
            b.wf(),
            b@.initial == initial_state,
            b@.initial_name == initial_state.spec_name(),
            b@.transitions == Map::<(Seq<char>, Seq<char>), T>::empty(),
            b@.entry == Map::<Seq<char>, N>::empty(),
            b@.exit == Map::<Seq<char>, N>::empty(),
            b@.timeouts == Map::<Seq<char>, (u128, M)>::empty(),
            b@.duplicates == Seq::<(Seq<char>, Seq<char>)>::empty(),
            b@.strict,
            b@.unhandled is None,
    {
        let initial_name = initial_state.variant_name().to_owned();
        let b = FsmBuilder {
            initial_state,
            initial_name,
            transitions: HandlerTable::new(),
            entry_handlers: HandlerTable::new(),
            exit_handlers: HandlerTable::new(),
            timeout_handlers: HandlerTable::new(),
            duplicate_handlers: Vec::new(),
            strict_validation: true,
            unhandled_handler: None,
        };
        assert(b@.duplicates =~= Seq::<(Seq<char>, Seq<char>)>::empty());
        b
    }

    /// Turns strict validation on.
    pub fn strict(self) -> (b: Self)
        requires
            self.wf(),
        ensures
            b.wf(),
            b@ == (BuilderView { strict: true, ..self@ }),
    {
        let mut b = self;
        b.strict_validation = true;
        b
    }

    /// Starts defining behaviour for the state named `state_name`.
    pub fn when(self, state_name: &str) -> (w: WhenBuilder<S, T, N, M, U>)
        requires
            self.wf(),
        ensures
            w.wf(),
            w.inner() == self@,
            w.scope() == state_name@,
    {
        WhenBuilder { builder: self, state_name: state_name.to_owned() }
    }

    /// Starts defining behaviour for any state: handlers go under the wildcard name `"_"`.
    pub fn from_any(self) -> (w: WhenBuilder<S, T, N, M, U>)
        requires
            self.wf(),
        ensures
            w.wf(),
            w.inner() == self@,
            w.scope() == crate::machine::wildcard_name(),
    {
        WhenBuilder { builder: self, state_name: "_".to_owned() }
    }

    /// Sets the hook for events that no transition handler answers.
    pub fn when_unhandled(self, handler: U) -> (b: Self)
        requires
            self.wf(),
        ensures
            b.wf(),
            b@ == (BuilderView { unhandled: Some(handler), ..self@ }),
    {
        let mut b = self;
        b.unhandled_handler = Some(handler);
        b
    }

    /// Sets the entry hook of the state named `state_name`, replacing an earlier one.
    pub fn on_entry(self, state_name: &str, handler: N) -> (b: Self)
        requires
            self.wf(),
        ensures
            b.wf(),
            b@ == (BuilderView { entry: self@.entry.insert(state_name@, handler), ..self@ }),
    {
        let mut b = self;
        b.entry_handlers.insert(state_name.to_owned(), handler);
        b
    }

    /// Sets the exit hook of the state named `state_name`, replacing an earlier one.
    pub fn on_exit(self, state_name: &str, handler: N) -> (b: Self)
        requires
            self.wf(),
        ensures
            b.wf(),
            b@ == (BuilderView { exit: self@.exit.insert(state_name@, handler), ..self@ }),
    {
        let mut b = self;
        b.exit_handlers.insert(state_name.to_owned(), handler);
        b
    }

    /// Builds the machine; the builder must be valid (see [`FsmBuilder::try_build`]).
    pub fn build(self) -> (m: StateMachine<S, T, N, M, U>)
        requires
            self.wf(),
            self@.buildable(),
        ensures
            m.wf(),
            self@.builds(m@),
            exists|now: u128| #[trigger] clock_reading(now) && m@.timer == m@.armed_at(now),
    {
        StateMachine::new(
            self.initial_state,
            self.initial_name,
            self.transitions,
            self.entry_handlers,
            self.exit_handlers,
            self.timeout_handlers,
            self.unhandled_handler,
        )
    }

    /// Builds the machine, or reports why it cannot be built: the first duplicate
    /// registration, if any ([`FsmError::DuplicateHandler`]); otherwise, in strict mode, an
    /// initial state with neither a transition handler nor a timeout
    /// ([`FsmError::BuilderError`]).
    pub fn try_build(self) -> (r: Result<StateMachine<S, T, N, M, U>, FsmError>)
        requires
            self.wf(),
        ensures
            match r {
                Ok(m) => self@.buildable() && m.wf() && self@.builds(m@) && exists|now: u128|
                    #[trigger] clock_reading(now) && m@.timer == m@.armed_at(now),
                Err(e) => !self@.buildable() && self@.rejects_with(e),
            },
    {
        if self.duplicate_handlers.len() > 0 {
            let first = &self.duplicate_handlers[0];
            return Err(FsmError::DuplicateHandler { state: first.0.clone(), event: first.1.clone() });
        }
        assert(self@.duplicates.len() == 0);
        if self.strict_validation {
            let has_transition = self.transitions.has_first(&self.initial_name);
            let has_timeout = self.timeout_handlers.contains(&self.initial_name);
            if !has_transition && !has_timeout {
                let mut msg = "No transitions or timeout configured for initial state '".to_owned();
                msg.append(self.initial_name.as_str());
                msg.append("'");
                return Err(FsmError::BuilderError(msg));
            }
        }
        Ok(
            StateMachine::new(
                self.initial_state,
                self.initial_name,
                self.transitions,
                self.entry_handlers,
                self.exit_handlers,
                self.timeout_handlers,
                self.unhandled_handler,
            ),
        )
    }
}

/// Builder for the behaviour of one state (or of any state, for `"_"`).
pub struct WhenBuilder<S, T, N, M, U> {
    builder: FsmBuilder<S, T, N, M, U>,
    state_name: String,
}

impl<S: StateVariant, T, N, M, U> WhenBuilder<S, T, N, M, U> {
    /// The builder being configured.
    pub closed spec fn inner(&self) -> BuilderView<S, T, N, M, U> {
        self.builder@
    }

    /// The name of the state being configured.
    pub closed spec fn scope(&self) -> Seq<char> {
        self.state_name@
    }

    /// The handler tables are well formed.
    pub closed spec fn wf(&self) -> bool {
        self.builder.wf()
    }

    /// Registers the transition handler for event `event_name` in this state. A second
    /// registration for the same pair replaces the handler and is remembered as a duplicate.
    pub fn on(self, event_name: &str, handler: T) -> (w: Self)
        requires
            self.wf(),
        ensures
            w.wf(),
            w.scope() == self.scope(),
            w.inner() == self.inner().register((self.scope(), event_name@), handler),
    {
        let mut w = self;
        let key = (w.state_name.clone(), event_name.to_owned());
        let ghost dups = w.builder.duplicate_handlers@;
        if w.builder.transitions.contains(&key) {
            w.builder.duplicate_handlers.push((key.0.clone(), key.1.clone()));
            assert(w.builder.duplicate_handlers@.map_values(|p: (String, String)| p@)
                =~= dups.map_values(|p: (String, String)| p@).push(key@));
        }
        w.builder.transitions.insert(key, handler);
        w
    }

    /// Sets this state's timeout to `duration`, with `handler` to run once it has elapsed,
    /// and continues with the timeout builder. The duration is kept as its count of
    /// nanoseconds.
    pub fn timeout(self, duration: core::time::Duration, handler: M) -> (t: TimeoutBuilder<
        S,
        T,
        N,
        M,
        U,
    >)
        requires
            self.wf(),
        ensures
            t.wf(),
            t.scope() == self.scope(),
            t.inner() == self.inner().with_timeout(self.scope(), nanos_of(duration), handler),
    {
        let nanos = duration_nanos(&duration);
        self.timeout_nanos(nanos, handler)
    }

    /// Sets this state's timeout to `nanos` nanoseconds, with `handler` to run once it has
    /// elapsed, and continues with the timeout builder.
    pub fn timeout_nanos(self, nanos: u128, handler: M) -> (t: TimeoutBuilder<S, T, N, M, U>)
        requires
            self.wf(),
        ensures
            t.wf(),
            t.scope() == self.scope(),
            t.inner() == self.inner().with_timeout(self.scope(), nanos, handler),
    {
        let mut builder = self.builder;
        builder.timeout_handlers.insert(self.state_name.clone(), (nanos, handler));
        TimeoutBuilder { builder, state_name: self.state_name }
    }

    /// Ends this state's configuration.
    pub fn done(self) -> (b: FsmBuilder<S, T, N, M, U>)
        requires
            self.wf(),
        ensures
            b.wf(),
            b@ == self.inner(),
    {
        self.builder
    }
}

/// Builder for a state that has a timeout.
pub struct TimeoutBuilder<S, T, N, M, U> {
    builder: FsmBuilder<S, T, N, M, U>,
    state_name: String,
}

impl<S: StateVariant, T, N, M, U> TimeoutBuilder<S, T, N, M, U> {
    /// The builder being configured.
    pub closed spec fn inner(&self) -> BuilderView<S, T, N, M, U> {
        self.builder@
    }

    /// The name of the state being configured.
    pub closed spec fn scope(&self) -> Seq<char> {
        self.state_name@
    }

    /// The handler tables are well formed.
    pub closed spec fn wf(&self) -> bool {
        self.builder.wf()
    }

    /// Registers the transition handler for event `event_name` in this state, as
    /// [`WhenBuilder::on`] does: a second registration for the same pair replaces the
    /// handler and is remembered as a duplicate.
    pub fn on(self, event_name: &str, handler: T) -> (t: Self)
        requires
            self.wf(),
        ensures
            t.wf(),
            t.scope() == self.scope(),
            t.inner() == self.inner().register((self.scope(), event_name@), handler),
    {
        let mut t = self;
        let key = (t.state_name.clone(), event_name.to_owned());
        let ghost dups = t.builder.duplicate_handlers@;
        if t.builder.transitions.contains(&key) {
            t.builder.duplicate_handlers.push((key.0.clone(), key.1.clone()));
            assert(t.builder.duplicate_handlers@.map_values(|p: (String, String)| p@)
                =~= dups.map_values(|p: (String, String)| p@).push(key@));
        }
        t.builder.transitions.insert(key, handler);
        t
    }

    /// Returns to the main builder.
    pub fn done(self) -> (b: FsmBuilder<S, T, N, M, U>)
        requires
            self.wf(),
        ensures
            b.wf(),
            b@ == self.inner(),
    {
        self.builder
    }
}

} // verus!
