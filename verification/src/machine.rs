//! The FSM engine.
//!
//! [`StateMachine`] owns the current state and the handler tables. It never runs a handler
//! or an action itself: handlers are asynchronous host code, so the engine decides and the
//! host performs. For an event the engine decides which handler answers it
//! ([`StateMachine::route`]); for a transition it goes step by step
//! ([`StateMachine::step_transition`]): it asks for the exit and entry hooks to run, moves to
//! the next state, arms the next state's timeout and puts the actions in their order, and
//! stops at a hook's error; for a timeout it decides whether one is due
//! ([`StateMachine::timeout_due_at`]).
//!
//! The names that dispatch is keyed by are the ones that [`StateVariant::variant_name`]
//! reported when a state was entered, and that [`EventVariant::variant_name`] reports for
//! the event handled.

use vstd::prelude::*;

use crate::clock::{clock_now, clock_reading, nanos_since};
use crate::error::FsmError;
use crate::table::HandlerTable;
use crate::types::{EventVariant, FsmResult, StateVariant, Transition};

verus! {

/// The name under which handlers for any state are registered.
pub open spec fn wildcard_name() -> Seq<char> {
    "_"@
}

/// A timeout armed when a state was entered: it is due once `duration` nanoseconds have
/// elapsed since `armed_at`.
#[derive(Clone, Copy, Debug)]
pub struct Deadline {
    pub armed_at: u128,
    pub duration: u128,
}

impl Deadline {
    /// Whether the deadline has passed at time `now`.
    pub open spec fn reached(self, now: u128) -> bool {
        now >= self.armed_at + self.duration
    }

    /// Whether the deadline has passed at time `now`.
    pub fn is_reached(&self, now: u128) -> (b: bool)
        ensures
            b == self.reached(now),
    {
        now >= self.armed_at && now - self.armed_at >= self.duration
    }
}

/// The abstract state of a [`StateMachine`].
pub struct MachineView<S, T, N, M, U> {
    /// The current state.
    pub state: S,
    /// The variant name recorded for the current state.
    pub state_name: Seq<char>,
    /// Transition handlers by `(state name, event name)`.
    pub transitions: Map<(Seq<char>, Seq<char>), T>,
    /// Entry hooks by state name.
    pub entry: Map<Seq<char>, N>,
    /// Exit hooks by state name.
    pub exit: Map<Seq<char>, N>,
    /// Timeouts by state name: the duration in nanoseconds and the handler.
    pub timeouts: Map<Seq<char>, (u128, M)>,
    /// The hook for events that no transition handler answers.
    pub unhandled: Option<U>,
    /// The timeout armed for the current state, if any.
    pub timer: Option<Deadline>,
}

/// Which handler answers an event.
pub enum Route<'a, T, U> {
    /// A transition handler: the one for the current state, or else the wildcard one.
    Handler(&'a T),
    /// No transition handler answers; the unhandled-event hook runs and no action results.
    Unhandled(&'a U),
    /// No handler and no hook: the event is refused with this error.
    Rejected(FsmError),
}

impl<S, T, N, M, U> MachineView<S, T, N, M, U> {
    /// A transition handler is registered for the current state and `event`.
    pub open spec fn handles_exactly(self, event: Seq<char>) -> bool {
        self.transitions.contains_key((self.state_name, event))
    }

    /// A transition handler is registered for any state and `event`.
    pub open spec fn handles_by_wildcard(self, event: Seq<char>) -> bool {
        self.transitions.contains_key((wildcard_name(), event))
    }

    /// `r` is how the machine answers an event named `event`: the handler for the current
    /// state first, then the wildcard handler, then the unhandled-event hook, and otherwise
    /// an `UnhandledEvent` error that names the state and the event.
    pub open spec fn routes<'a>(self, event: Seq<char>, r: Route<'a, T, U>) -> bool {
        if self.handles_exactly(event) {
            r == Route::<'a, T, U>::Handler(&self.transitions[(self.state_name, event)])
        } else if self.handles_by_wildcard(event) {
            r == Route::<'a, T, U>::Handler(&self.transitions[(wildcard_name(), event)])
        } else if self.unhandled is Some {
            r == Route::<'a, T, U>::Unhandled(&self.unhandled->0)
        } else {
            r matches Route::Rejected(FsmError::UnhandledEvent { state, event: ev }) && state@
                == self.state_name && ev@ == event
        }
    }

    /// The timer for the current state when it is entered at time `now`: armed with the
    /// state's timeout if it has one, cleared otherwise.
    pub open spec fn armed_at(self, now: u128) -> Option<Deadline> {
        if self.timeouts.contains_key(self.state_name) {
            Some(Deadline { armed_at: now, duration: self.timeouts[self.state_name].0 })
        } else {
            None
        }
    }

    /// The timeout handler that is due at time `now`, if any.
    pub open spec fn due_at(self, now: u128) -> Option<M> {
        match self.timer {
            Some(d) => if d.reached(now) && self.timeouts.contains_key(self.state_name) {
                Some(self.timeouts[self.state_name].1)
            } else {
                None
            },
            None => None,
        }
    }
}

impl<S, T, N, M, U> MachineView<S, T, N, M, U> {
    /// The current state has an exit hook.
    pub open spec fn has_exit_hook(self) -> bool {
        self.exit.contains_key(self.state_name)
    }

    /// The current state has an entry hook.
    pub open spec fn has_entry_hook(self) -> bool {
        self.entry.contains_key(self.state_name)
    }

    /// The machine once the current state is entered at time `now`: its timer armed for
    /// that state, or cleared.
    pub open spec fn entered_at(self, now: u128) -> Self {
        MachineView { timer: self.armed_at(now), ..self }
    }
}

/// How far a transition has got, with the result of the hook that ran last.
pub enum TransitionPhase<S, A> {
    /// A transition or timeout handler returned this transition; no hook has run yet.
    Start(Transition<S, A>),
    /// The old state's exit hook ran and returned `result`; the machine has not moved.
    Exited { transition: Transition<S, A>, result: FsmResult<Vec<A>> },
    /// The machine moved, and the new state's entry hook ran and returned `result`.
    Entered { exit_actions: Vec<A>, actions: Vec<A>, result: FsmResult<Vec<A>> },
}

/// What the host does next in a transition.
pub enum TransitionStep<S, A> {
    /// Run the current state's exit hook, then hand its result back in
    /// [`TransitionPhase::Exited`] with this transition.
    RunExitHook(Transition<S, A>),
    /// Run the current (new) state's entry hook, then hand its result back in
    /// [`TransitionPhase::Entered`] with these actions.
    RunEntryHook { exit_actions: Vec<A>, actions: Vec<A> },
    /// The transition is complete; these are all its actions, in order.
    Done(Vec<A>),
    /// A hook failed: the transition stops with its error.
    Failed(FsmError),
}

/// The step once the old state is left with `exit_actions`: the machine moves to
/// `t.next_state`, recorded under the name that state reports. If the new state has an
/// entry hook, that hook runs next; otherwise the timer is armed at `now` and the
/// transition is done, with the exit actions followed by the transition's own.
pub open spec fn leaves_with<S: StateVariant, T, N, M, U, A>(
    m: MachineView<S, T, N, M, U>,
    t: Transition<S, A>,
    exit_actions: Seq<A>,
    now: u128,
    after: MachineView<S, T, N, M, U>,
    step: TransitionStep<S, A>,
) -> bool {
    let moved = MachineView { state: t.next_state, state_name: t.next_state.spec_name(), ..m };
    if moved.has_entry_hook() {
        &&& after == moved
        &&& step matches TransitionStep::RunEntryHook { exit_actions: xa, actions } && xa@
            == exit_actions && actions@ == t.actions@
    } else {
        &&& after == moved.entered_at(now)
        &&& step matches TransitionStep::Done(all) && all@ == exit_actions + t.actions@
    }
}

/// One step of a transition from machine `m` in `phase`, at time `now`, gives machine
/// `after` and `step`:
/// - at the start, the old state's exit hook runs first if it has one; otherwise the
///   machine leaves it with no exit actions;
/// - a failed hook stops the transition with its error and changes nothing more: after a
///   failed exit hook the machine is still in the old state, after a failed entry hook it
///   is in the new state with the timer as it was;
/// - a successful exit hook leaves the old state with its actions ([`leaves_with`]);
/// - a successful entry hook arms the timer at `now`, and the transition is done with the
///   exit actions, the entry actions and the transition's own, in that order.
pub open spec fn transition_steps<S: StateVariant, T, N, M, U, A>(
    m: MachineView<S, T, N, M, U>,
    phase: TransitionPhase<S, A>,
    now: u128,
    after: MachineView<S, T, N, M, U>,
    step: TransitionStep<S, A>,
) -> bool {
    match phase {
        TransitionPhase::Start(t) => if m.has_exit_hook() {
            after == m && step == TransitionStep::RunExitHook(t)
        } else {
            leaves_with(m, t, Seq::empty(), now, after, step)
        },
        TransitionPhase::Exited { transition, result } => match result {
            Ok(xa) => leaves_with(m, transition, xa@, now, after, step),
            Err(e) => after == m && step == TransitionStep::<S, A>::Failed(e),
        },
        TransitionPhase::Entered { exit_actions, actions, result } => match result {
            Ok(ea) => {
                &&& after == m.entered_at(now)
                &&& step matches TransitionStep::Done(all) && all@ == exit_actions@ + ea@
                    + actions@
            },
            Err(e) => after == m && step == TransitionStep::<S, A>::Failed(e),
        },
    }
}

/// The concrete finite state machine engine.
///
/// Constructed through [`crate::builder::FsmBuilder`]. `T` is the type of transition
/// handlers, `N` that of entry and exit hooks, `M` that of timeout handlers and `U` that of
/// the unhandled-event hook; the engine stores them and hands them back, and the host runs
/// them.
///
/// # Action ordering
///
/// When a transition occurs, its actions come in this order:
/// 1) exit-hook actions of the old state, if any;
/// 2) entry-hook actions of the new state, if any;
/// 3) the actions that the transition or timeout handler returned.
///
/// Exit and entry hooks run for self-transitions too, and every entry re-arms the timer.
pub struct StateMachine<S, T, N, M, U> {
    current_state: S,
    current_name: String,
    transitions: HandlerTable<(String, String), T>,
    entry_handlers: HandlerTable<String, N>,
    exit_handlers: HandlerTable<String, N>,
    timeout_handlers: HandlerTable<String, (u128, M)>,
    unhandled_handler: Option<U>,
    state_timeout: Option<Deadline>,
    clock_origin: tokio::time::Instant,
}

impl<S, T, N, M, U> View for StateMachine<S, T, N, M, U> {
    type V = MachineView<S, T, N, M, U>;

    closed spec fn view(&self) -> MachineView<S, T, N, M, U> {
        MachineView {
            state: self.current_state,
            state_name: self.current_name@,
            transitions: self.transitions@,
            entry: self.entry_handlers@,
            exit: self.exit_handlers@,
            timeouts: self.timeout_handlers@,
            unhandled: self.unhandled_handler,
            timer: self.state_timeout,
        }
    }
}

impl<S: StateVariant, T, N, M, U> StateMachine<S, T, N, M, U> {
    /// The handler tables are well formed, and the recorded name is the one the current
    /// state reports.
    pub closed spec fn wf(&self) -> bool {
        &&& self.transitions.wf()
        &&& self.entry_handlers.wf()
        &&& self.exit_handlers.wf()
        &&& self.timeout_handlers.wf()
        &&& self.current_name@ == self.current_state.spec_name()
    }

    /// A well-formed machine records the name its current state reports.
    pub proof fn lemma_wf(&self)
        requires
            self.wf(),
        ensures
            self@.state_name == self@.state.spec_name(),
    {
    }

    /// Creates a machine in `initial_state`, recorded under `initial_name`, and arms the
    /// initial state's timeout, if it has one, from the current time.
    pub(crate) fn new(
        initial_state: S,
        initial_name: String,
        transitions: HandlerTable<(String, String), T>,
        entry_handlers: HandlerTable<String, N>,
        exit_handlers: HandlerTable<String, N>,
        timeout_handlers: HandlerTable<String, (u128, M)>,
        unhandled_handler: Option<U>,
    ) -> (m: Self)
        requires
            initial_name@ == initial_state.spec_name(),
            transitions.wf(),
            entry_handlers.wf(),
            exit_handlers.wf(),
            timeout_handlers.wf(),
        ensures
            m.wf(),
            m@.state == initial_state,
            m@.state_name == initial_name@,
            m@.transitions == transitions@,
            m@.entry == entry_handlers@,
            m@.exit == exit_handlers@,
            m@.timeouts == timeout_handlers@,
            m@.unhandled == unhandled_handler,
            exists|now: u128| m@.timer == #[trigger] m@.armed_at(now),
            exists|now: u128| #[trigger] clock_reading(now) && m@.timer == m@.armed_at(now),
    {
        let clock_origin = clock_now();
        let mut m = StateMachine {
            current_state: initial_state,
            current_name: initial_name,
            transitions,
            entry_handlers,
            exit_handlers,
            timeout_handlers,
            unhandled_handler,
            state_timeout: None,
            clock_origin,
        };
        let now = nanos_since(&m.clock_origin);
        m.arm_timeout_at(now);
        assert(m@.timer == m@.armed_at(now));
        assert(clock_reading(now));
        m
    }

    /// The current state.
    pub fn state(&self) -> (s: &S)
        ensures
            *s == self@.state,
    {
        &self.current_state
    }

    /// The variant name recorded for the current state.
    pub fn state_name(&self) -> (s: &str)
        ensures
            s@ == self@.state_name,
    {
        self.current_name.as_str()
    }

    /// The timeout armed for the current state, if any.
    pub fn armed_timeout(&self) -> (d: Option<Deadline>)
        ensures
            d == self@.timer,
    {
        self.state_timeout
    }

    /// Decides which handler answers an event named `event_name` in the current state.
    ///
    /// The handler registered for `(state, event)` comes first; failing that, the one
    /// registered for the wildcard state `"_"`; failing that, the unhandled-event hook, after
    /// which no action results; and with none of these, the event is refused with
    /// [`FsmError::UnhandledEvent`].
    pub fn route(&self, event_name: &str) -> (r: Route<'_, T, U>)
        requires
            self.wf(),
        ensures
            self@.routes(event_name@, r),
    {
        let key = (self.current_name.clone(), event_name.to_owned());
        match self.transitions.get(&key) {
            Some(h) => Route::Handler(h),
            None => {
                let wildcard_key = ("_".to_owned(), event_name.to_owned());
                match self.transitions.get(&wildcard_key) {
                    Some(h) => Route::Handler(h),
                    None => match &self.unhandled_handler {
                        Some(u) => Route::Unhandled(u),
                        None => Route::Rejected(
                            FsmError::UnhandledEvent {
                                state: self.current_name.clone(),
                                event: event_name.to_owned(),
                            },
                        ),
                    },
                }
            },
        }
    }

    /// Decides which handler answers `event`, dispatching on the name that
    /// `event.variant_name()` reports.
    pub fn route_event<E: EventVariant>(&self, event: &E) -> (r: Route<'_, T, U>)
        requires
            self.wf(),
        ensures
            self@.routes(event.spec_name(), r),
    {
        let name = event.variant_name();
        self.route(name)
    }

    /// The exit hook of the current state, if it has one.
    pub fn exit_handler(&self) -> (h: Option<&N>)
        requires
            self.wf(),
        ensures
            h == (if self@.exit.contains_key(self@.state_name) {
                Some(&self@.exit[self@.state_name])
            } else {
                None::<&N>
            }),
    {
        self.exit_handlers.get(&self.current_name)
    }

    /// The entry hook of the current state, if it has one.
    pub fn entry_handler(&self) -> (h: Option<&N>)
        requires
            self.wf(),
        ensures
            h == (if self@.entry.contains_key(self@.state_name) {
                Some(&self@.entry[self@.state_name])
            } else {
                None::<&N>
            }),
    {
        self.entry_handlers.get(&self.current_name)
    }

    /// Moves to `next_state`, recording the name that `next_state.variant_name()` reports.
    /// The timer is left as it was: [`StateMachine::arm_timeout`] sets it once the entry
    /// hook has run.
    pub fn enter_state(&mut self, next_state: S)
        requires
            old(self).wf(),
        ensures
            final(self).wf(),
            final(self)@ == (MachineView {
                state: next_state,
                state_name: next_state.spec_name(),
                ..old(self)@
            }),
    {
        let name = next_state.variant_name().to_owned();
        self.current_state = next_state;
        self.current_name = name;
    }

    /// Arms the current state's timeout as of time `now`, or clears the timer if the state
    /// has none.
    pub fn arm_timeout_at(&mut self, now: u128)
        requires
            old(self).wf(),
        ensures
            final(self).wf(),
            final(self)@ == (MachineView { timer: old(self)@.armed_at(now), ..old(self)@ }),
    {
        let timer = match self.timeout_handlers.get(&self.current_name) {
            Some(entry) => Some(Deadline { armed_at: now, duration: entry.0 }),
            None => None,
        };
        self.state_timeout = timer;
    }

    /// Arms the current state's timeout as of the current time, or clears the timer if the
    /// state has none.
    pub fn arm_timeout(&mut self)
        requires
            old(self).wf(),
        ensures
            final(self).wf(),
            exists|now: u128|
                final(self)@ == (MachineView { timer: #[trigger] old(self)@.armed_at(now), ..old(self)@ }),
            exists|now: u128|
                #[trigger] clock_reading(now) && final(self)@ == (MachineView {
                    timer: old(self)@.armed_at(now),
                    ..old(self)@
                }),
    {
        let now = nanos_since(&self.clock_origin);
        self.arm_timeout_at(now);
        assert(clock_reading(now));
    }

    /// The timeout handler to run at time `now`: the current state's, once its armed
    /// deadline has passed; `None` while no timer is armed or the deadline lies ahead.
    pub fn timeout_due_at(&self, now: u128) -> (h: Option<&M>)
        requires
            self.wf(),
        ensures
            match h {
                Some(x) => self@.due_at(now) == Some(*x),
                None => self@.due_at(now) is None,
            },
    {
        match self.state_timeout {
            Some(d) => {
                if d.is_reached(now) {
                    match self.timeout_handlers.get(&self.current_name) {
                        Some(entry) => Some(&entry.1),
                        None => None,
                    }
                } else {
                    None
                }
            },
            None => None,
        }
    }

    /// The timeout handler to run now, judged by the current time.
    pub fn timeout_due(&self) -> (h: Option<&M>)
        requires
            self.wf(),
        ensures
            exists|now: u128|
                match h {
                    Some(x) => #[trigger] self@.due_at(now) == Some(*x),
                    None => #[trigger] self@.due_at(now) is None,
                },
            exists|now: u128|
                #[trigger] clock_reading(now) && match h {
                    Some(x) => self@.due_at(now) == Some(*x),
                    None => self@.due_at(now) is None,
                },
    {
        let now = nanos_since(&self.clock_origin);
        let h = self.timeout_due_at(now);
        assert(clock_reading(now));
        h
    }

    /// Leaves the current state with `exit_actions` and moves to `t.next_state`: the entry
    /// hook runs next if the new state has one, otherwise the timer is armed at `now`.
    fn leave_state<A>(&mut self, t: Transition<S, A>, exit_actions: Vec<A>, now: u128) -> (step:
        TransitionStep<S, A>)
        requires
            old(self).wf(),
        ensures
            final(self).wf(),
            leaves_with(old(self)@, t, exit_actions@, now, final(self)@, step),
    {
        let Transition { next_state, actions } = t;
        self.enter_state(next_state);
        if self.entry_handlers.contains(&self.current_name) {
            TransitionStep::RunEntryHook { exit_actions, actions }
        } else {
            self.arm_timeout_at(now);
            TransitionStep::Done(ordered_actions(exit_actions, Vec::new(), actions))
        }
    }

    /// Takes a transition one step further at time `now` (see [`transition_steps`]): exit
    /// hook of the old state, move, entry hook of the new state, timer; a failed hook ends
    /// the transition with its error.
    ///
    /// The host starts with [`TransitionPhase::Start`], runs each hook that the step asks
    /// for, hands its result back, and stops at [`TransitionStep::Done`] or
    /// [`TransitionStep::Failed`].
    pub fn step_transition_at<A>(&mut self, phase: TransitionPhase<S, A>, now: u128) -> (step:
        TransitionStep<S, A>)
        requires
            old(self).wf(),
        ensures
            final(self).wf(),
            transition_steps(old(self)@, phase, now, final(self)@, step),
    {
        match phase {
            TransitionPhase::Start(t) => {
                if self.exit_handlers.contains(&self.current_name) {
                    TransitionStep::RunExitHook(t)
                } else {
                    self.leave_state(t, Vec::new(), now)
                }
            },
            TransitionPhase::Exited { transition, result } => match result {
                Ok(exit_actions) => self.leave_state(transition, exit_actions, now),
                Err(e) => TransitionStep::Failed(e),
            },
            TransitionPhase::Entered { exit_actions, actions, result } => match result {
                Ok(entry_actions) => {
                    self.arm_timeout_at(now);
                    TransitionStep::Done(ordered_actions(exit_actions, entry_actions, actions))
                },
                Err(e) => TransitionStep::Failed(e),
            },
        }
    }

    /// Takes a transition one step further, arming a timer, where one is armed, at the
    /// current time.
    pub fn step_transition<A>(&mut self, phase: TransitionPhase<S, A>) -> (step: TransitionStep<
        S,
        A,
    >)
        requires
            old(self).wf(),
        ensures
            final(self).wf(),
            exists|now: u128| transition_steps(old(self)@, phase, now, final(self)@, step),
            exists|now: u128|
                #[trigger] clock_reading(now) && transition_steps(
                    old(self)@,
                    phase,
                    now,
                    final(self)@,
                    step,
                ),
    {
        let now = nanos_since(&self.clock_origin);
        let step = self.step_transition_at(phase, now);
        assert(clock_reading(now));
        step
    }
}

/// Dispatch looks at names only: two machines whose current states report the same
/// variant name, and which hold the same handlers, answer every event the same way, however
/// the states' payloads differ.
pub proof fn lemma_routing_depends_on_names_only<'a, S, T, N, M, U>(
    m1: MachineView<S, T, N, M, U>,
    m2: MachineView<S, T, N, M, U>,
    event: Seq<char>,
    r: Route<'a, T, U>,
)
    requires
        m1.state_name == m2.state_name,
        m1.transitions == m2.transitions,
        m1.unhandled == m2.unhandled,
    ensures
        m1.routes(event, r) == m2.routes(event, r),
{
}

/// A handler registered for the wildcard state answers an event in every state that has no
/// handler of its own for that event, and never in one that has.
pub proof fn lemma_wildcard_is_a_fallback<'a, S, T, N, M, U>(
    m: MachineView<S, T, N, M, U>,
    event: Seq<char>,
    r: Route<'a, T, U>,
)
    requires
        m.handles_by_wildcard(event),
        m.routes(event, r),
    ensures
        !m.handles_exactly(event) ==> r == Route::<'a, T, U>::Handler(
            &m.transitions[(wildcard_name(), event)],
        ),
        m.handles_exactly(event) ==> r == Route::<'a, T, U>::Handler(
            &m.transitions[(m.state_name, event)],
        ),
{
}

/// An event is refused only when no handler answers it and no hook was set; the error
/// names the current state and the event.
pub proof fn lemma_refusal_names_state_and_event<'a, S, T, N, M, U>(
    m: MachineView<S, T, N, M, U>,
    event: Seq<char>,
    r: Route<'a, T, U>,
)
    requires
        m.routes(event, r),
        r is Rejected,
    ensures
        !m.handles_exactly(event),
        !m.handles_by_wildcard(event),
        m.unhandled is None,
        r matches Route::Rejected(FsmError::UnhandledEvent { state, event: ev }) && state@
            == m.state_name && ev@ == event,
{
}

/// Once a state is entered at time `now`, its timeout handler becomes due exactly when its
/// duration has elapsed since `now`; a state without a timeout never has one due. The
/// timer of the state left behind plays no part.
pub proof fn lemma_timeout_due_exactly_after_duration<S, T, N, M, U>(
    m: MachineView<S, T, N, M, U>,
    now: u128,
    later: u128,
)
    ensures
        ({
            let entered = MachineView { timer: m.armed_at(now), ..m };
            if m.timeouts.contains_key(m.state_name) {
                &&& entered.due_at(later) is Some <==> later >= now + m.timeouts[m.state_name].0
                &&& entered.due_at(later) is Some ==> entered.due_at(later) == Some(
                    m.timeouts[m.state_name].1,
                )
            } else {
                entered.due_at(later) is None
            }
        }),
{
}

/// Entering a state arms the same timer whatever timer was armed before: a self-transition
/// restarts the countdown.
pub proof fn lemma_entry_restarts_the_timer<S, T, N, M, U>(
    m: MachineView<S, T, N, M, U>,
    previous: Option<Deadline>,
    now: u128,
)
    ensures
        (MachineView { timer: previous, ..m }).armed_at(now) == m.armed_at(now),
{
}

/// A transition whose hooks succeed runs the old state's exit hook exactly when that state
/// has one, then the new state's entry hook exactly when that state has one, self-transitions
/// included. It ends in the next state, recorded under the name that state reports, with
/// the timer armed for it at the time of entry (a self-transition restarts it; a state
/// without a timeout clears it), and yields the exit hook's actions, the entry hook's and
/// the transition's own, in that order.
pub proof fn lemma_transition_runs_to_completion<S: StateVariant, T, N, M, U, A>(
    m0: MachineView<S, T, N, M, U>,
    t: Transition<S, A>,
    xa: Vec<A>,
    ea: Vec<A>,
    now: u128,
    m1: MachineView<S, T, N, M, U>,
    s1: TransitionStep<S, A>,
    m2: MachineView<S, T, N, M, U>,
    s2: TransitionStep<S, A>,
    m3: MachineView<S, T, N, M, U>,
    s3: TransitionStep<S, A>,
)
    requires
        transition_steps(m0, TransitionPhase::Start(t), now, m1, s1),
        s1 is RunExitHook ==> transition_steps(
            m1,
            TransitionPhase::Exited { transition: t, result: Ok(xa) },
            now,
            m2,
            s2,
        ),
        !(s1 is RunExitHook) ==> m2 == m1 && s2 == s1,
        s2 matches TransitionStep::RunEntryHook { exit_actions, actions } ==> transition_steps(
            m2,
            TransitionPhase::Entered { exit_actions, actions, result: Ok(ea) },
            now,
            m3,
            s3,
        ),
        !(s2 is RunEntryHook) ==> m3 == m2 && s3 == s2,
    ensures
        ({
            let moved = MachineView {
                state: t.next_state,
                state_name: t.next_state.spec_name(),
                ..m0
            };
            &&& (s1 is RunExitHook) == m0.has_exit_hook()
            &&& (s2 is RunEntryHook) == moved.has_entry_hook()
            &&& m3 == moved.entered_at(now)
            &&& s3 matches TransitionStep::Done(all) && all@ == (if m0.has_exit_hook() {
                xa@
            } else {
                Seq::empty()
            }) + (if moved.has_entry_hook() {
                ea@
            } else {
                Seq::empty()
            }) + t.actions@
        }),
{
    assert(xa@ + Seq::<A>::empty() =~= xa@);
}

/// Every step of a transition keeps the recorded name that of the current state: the name
/// that the state itself reports.
pub proof fn lemma_steps_keep_the_state_named<S: StateVariant, T, N, M, U, A>(
    m: MachineView<S, T, N, M, U>,
    phase: TransitionPhase<S, A>,
    now: u128,
    after: MachineView<S, T, N, M, U>,
    step: TransitionStep<S, A>,
)
    requires
        m.state_name == m.state.spec_name(),
        transition_steps(m, phase, now, after, step),
    ensures
        after.state_name == after.state.spec_name(),
{
}

/// Two transition steps agree: the same kind of step, carrying equal transitions, errors,
/// and action sequences.
pub open spec fn same_step<S, A>(s1: TransitionStep<S, A>, s2: TransitionStep<S, A>) -> bool {
    match (s1, s2) {
        (TransitionStep::RunExitHook(t1), TransitionStep::RunExitHook(t2)) => t1 == t2,
        (
            TransitionStep::RunEntryHook { exit_actions: x1, actions: y1 },
            TransitionStep::RunEntryHook { exit_actions: x2, actions: y2 },
        ) => x1@ == x2@ && y1@ == y2@,
        (TransitionStep::Done(a1), TransitionStep::Done(a2)) => a1@ == a2@,
        (TransitionStep::Failed(e1), TransitionStep::Failed(e2)) => e1 == e2,
        _ => false,
    }
}

/// The engine decides deterministically: machines with the same view answer an event with
/// the same handler (or refuse it naming the same state and event), and take a transition
/// from the same phase, at the same time, to the same machine by the same step.
pub proof fn lemma_decisions_are_deterministic<'a, S: StateVariant, T, N, M, U, A>(
    m1: MachineView<S, T, N, M, U>,
    m2: MachineView<S, T, N, M, U>,
    event: Seq<char>,
    r1: Route<'a, T, U>,
    r2: Route<'a, T, U>,
    phase: TransitionPhase<S, A>,
    now: u128,
    after1: MachineView<S, T, N, M, U>,
    step1: TransitionStep<S, A>,
    after2: MachineView<S, T, N, M, U>,
    step2: TransitionStep<S, A>,
)
    requires
        m1 == m2,
        m1.routes(event, r1),
        m2.routes(event, r2),
        transition_steps(m1, phase, now, after1, step1),
        transition_steps(m2, phase, now, after2, step2),
    ensures
        !(r1 is Rejected) ==> r1 == r2,
        r1 matches Route::Rejected(FsmError::UnhandledEvent { state: st1, event: ev1 }) ==> (
        r2 matches Route::Rejected(FsmError::UnhandledEvent { state: st2, event: ev2 }) && st1@
            == st2@ && ev1@ == ev2@),
        after1 == after2,
        same_step(step1, step2),
{
}

/// A transition that completes leaves the timer armed for the state entered as of the time
/// of that step, and what was armed before plays no part: the same step from the same
/// machine with any other timer ends with the same timer.
pub proof fn lemma_completed_step_arms_at_its_time<S: StateVariant, T, N, M, U, A>(
    m: MachineView<S, T, N, M, U>,
    previous: Option<Deadline>,
    phase: TransitionPhase<S, A>,
    now: u128,
    after1: MachineView<S, T, N, M, U>,
    step1: TransitionStep<S, A>,
    after2: MachineView<S, T, N, M, U>,
    step2: TransitionStep<S, A>,
)
    requires
        transition_steps(m, phase, now, after1, step1),
        transition_steps(MachineView { timer: previous, ..m }, phase, now, after2, step2),
        step1 is Done,
    ensures
        after1.timer == (if after1.timeouts.contains_key(after1.state_name) {
            Some(Deadline { armed_at: now, duration: after1.timeouts[after1.state_name].0 })
        } else {
            None
        }),
        after2.timer == after1.timer,
        after2.state == after1.state,
{
}

/// An armed timeout is due exactly once its duration has elapsed since it was armed, and
/// only while the current state has a timeout.
pub proof fn lemma_due_exactly_when_deadline_passed<S, T, N, M, U>(
    m: MachineView<S, T, N, M, U>,
    now: u128,
)
    ensures
        m.due_at(now) is Some <==> (m.timer is Some && m.timeouts.contains_key(m.state_name)
            && now >= m.timer->0.armed_at + m.timer->0.duration),
        m.due_at(now) is Some ==> m.due_at(now) == Some(m.timeouts[m.state_name].1),
{
}

/// The actions of a transition in the order the host runs them: the exit hook's, then the
/// entry hook's, then the transition's own.
pub fn ordered_actions<A>(exit: Vec<A>, entry: Vec<A>, transition: Vec<A>) -> (all: Vec<A>)
    ensures
        all@ == exit@ + entry@ + transition@,
{
    let mut all = exit;
    let mut entry = entry;
    let mut transition = transition;
    all.append(&mut entry);
    all.append(&mut transition);
    all
}

} // verus!
