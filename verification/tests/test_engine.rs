//! Engine decisions with plain handler values: routing, hook order, timers.

use obzenflow_fsm::{
    ordered_actions, EventVariant, FsmError, Route, StateMachine, StateVariant, Transition,
    TransitionPhase, TransitionStep,
};
use obzenflow_fsm::internal::FsmBuilder;
use std::time::Duration;

#[derive(Clone, Debug, PartialEq)]
enum Door {
    Closed,
    Open { since: u64 },
    Locked,
}

impl StateVariant for Door {
    fn variant_name(&self) -> &str {
        match self {
            Door::Closed => "Closed",
            Door::Open { .. } => "Open",
            Door::Locked => "Locked",
        }
    }
}

#[derive(Clone, Debug)]
enum DoorEvent {
    Open,
    Close,
    Lock,
    Unlock,
    Kick,
}

impl EventVariant for DoorEvent {
    fn variant_name(&self) -> &str {
        match self {
            DoorEvent::Open => "Open",
            DoorEvent::Close => "Close",
            DoorEvent::Lock => "Lock",
            DoorEvent::Unlock => "Unlock",
            DoorEvent::Kick => "Kick",
        }
    }
}

type Labels = FsmBuilder<Door, &'static str, &'static str, &'static str, &'static str>;
type LabelMachine = StateMachine<Door, &'static str, &'static str, &'static str, &'static str>;

fn door_machine() -> LabelMachine {
    Labels::new(Door::Closed)
        .when("Closed")
        .on("Open", "closed-open")
        .on("Lock", "closed-lock")
        .done()
        .when("Open")
        .on("Close", "open-close")
        .done()
        .when("Locked")
        .on("Unlock", "locked-unlock")
        .done()
        .build()
}

fn handler_of(route: Route<'_, &'static str, &'static str>) -> Option<&'static str> {
    match route {
        Route::Handler(h) => Some(*h),
        _ => None,
    }
}

#[test]
fn test_door_routing() {
    let mut door = door_machine();
    assert!(matches!(door.state(), Door::Closed));
    assert_eq!(handler_of(door.route_event(&DoorEvent::Open)), Some("closed-open"));
    assert_eq!(handler_of(door.route_event(&DoorEvent::Lock)), Some("closed-lock"));

    door.enter_state(Door::Open { since: 7 });
    assert_eq!(door.state_name(), "Open");
    assert_eq!(handler_of(door.route_event(&DoorEvent::Close)), Some("open-close"));

    door.enter_state(Door::Locked);
    assert_eq!(handler_of(door.route("Unlock")), Some("locked-unlock"));
}

#[test]
fn test_payload_does_not_change_dispatch() {
    let mut door = door_machine();
    door.enter_state(Door::Open { since: 1 });
    let first = handler_of(door.route("Close"));
    door.enter_state(Door::Open { since: 99 });
    let second = handler_of(door.route("Close"));
    assert_eq!(first, Some("open-close"));
    assert_eq!(first, second);
}

#[test]
fn test_unhandled_event_is_rejected_with_names() {
    let door = door_machine();
    match door.route_event(&DoorEvent::Kick) {
        Route::Rejected(FsmError::UnhandledEvent { state, event }) => {
            assert_eq!(state, "Closed");
            assert_eq!(event, "Kick");
        }
        _ => panic!("expected an UnhandledEvent refusal"),
    }
    match door.route("Unlock") {
        Route::Rejected(e) => {
            assert_eq!(e.to_string(), "Unhandled event 'Unlock' in state 'Closed'")
        }
        _ => panic!("expected a refusal"),
    }
}

#[test]
fn test_unhandled_hook_takes_unanswered_events() {
    let door = Labels::new(Door::Closed)
        .when("Closed")
        .on("Open", "closed-open")
        .done()
        .when_unhandled("hook")
        .build();
    assert!(matches!(door.route("Kick"), Route::Unhandled(&"hook")));
    assert!(matches!(door.route("Open"), Route::Handler(&"closed-open")));
}

#[test]
fn test_wildcard_is_a_fallback() {
    let mut door = Labels::new(Door::Closed)
        .when("Closed")
        .on("Kick", "closed-kick")
        .done()
        .from_any()
        .on("Kick", "any-kick")
        .done()
        .build();
    // The state's own handler comes first.
    assert_eq!(handler_of(door.route("Kick")), Some("closed-kick"));
    // Elsewhere the wildcard answers.
    door.enter_state(Door::Locked);
    assert_eq!(handler_of(door.route("Kick")), Some("any-kick"));
    // Events with no handler anywhere are refused.
    assert!(matches!(door.route("Open"), Route::Rejected(_)));
}

#[test]
fn test_action_order_exit_entry_transition() {
    let all = ordered_actions(vec!["exit"], vec!["entry-1", "entry-2"], vec!["t-1", "t-2"]);
    assert_eq!(all, vec!["exit", "entry-1", "entry-2", "t-1", "t-2"]);
    let none: Vec<&str> = ordered_actions(vec![], vec![], vec![]);
    assert!(none.is_empty());
}

#[test]
fn test_entry_and_exit_hooks_follow_the_state() {
    let mut m = Labels::new(Door::Closed)
        .when("Closed")
        .on("Open", "closed-open")
        .done()
        .on_entry("Open", "enter-open")
        .on_exit("Open", "leave-open")
        .on_exit("Closed", "leave-closed")
        .build();
    assert_eq!(m.exit_handler(), Some(&"leave-closed"));
    assert_eq!(m.entry_handler(), None);
    m.enter_state(Door::Open { since: 0 });
    assert_eq!(m.entry_handler(), Some(&"enter-open"));
    assert_eq!(m.exit_handler(), Some(&"leave-open"));
    // A self-transition runs the same hooks again.
    m.enter_state(Door::Open { since: 1 });
    assert_eq!(m.exit_handler(), Some(&"leave-open"));
    assert_eq!(m.entry_handler(), Some(&"enter-open"));
}

#[test]
fn test_later_hook_replaces_earlier() {
    let m = Labels::new(Door::Closed)
        .when("Closed")
        .on("Open", "closed-open")
        .done()
        .on_entry("Closed", "first")
        .on_entry("Closed", "second")
        .build();
    assert_eq!(m.entry_handler(), Some(&"second"));
}

fn timed_machine() -> LabelMachine {
    Labels::new(Door::Closed)
        .when("Closed")
        .on("Open", "closed-open")
        .done()
        .when("Open")
        .timeout_nanos(50, "open-timeout")
        .on("Close", "open-close")
        .done()
        .build()
}

#[test]
fn test_timeout_due_exactly_after_duration() {
    let mut m = timed_machine();
    assert!(m.armed_timeout().is_none());
    assert_eq!(m.timeout_due_at(u128::MAX), None);

    m.enter_state(Door::Open { since: 0 });
    m.arm_timeout_at(100);
    let d = m.armed_timeout().unwrap();
    assert_eq!((d.armed_at, d.duration), (100, 50));
    assert_eq!(m.timeout_due_at(100), None);
    assert_eq!(m.timeout_due_at(149), None);
    assert_eq!(m.timeout_due_at(150), Some(&"open-timeout"));
    assert_eq!(m.timeout_due_at(1_000), Some(&"open-timeout"));
}

#[test]
fn test_self_transition_restarts_timer() {
    let mut m = timed_machine();
    m.enter_state(Door::Open { since: 0 });
    m.arm_timeout_at(100);
    m.enter_state(Door::Open { since: 1 });
    m.arm_timeout_at(140);
    assert_eq!(m.timeout_due_at(150), None);
    assert_eq!(m.timeout_due_at(190), Some(&"open-timeout"));
}

#[test]
fn test_state_without_timeout_clears_timer() {
    let mut m = timed_machine();
    m.enter_state(Door::Open { since: 0 });
    m.arm_timeout_at(100);
    m.enter_state(Door::Closed);
    m.arm_timeout_at(120);
    assert!(m.armed_timeout().is_none());
    assert_eq!(m.timeout_due_at(10_000), None);
}

#[test]
fn test_initial_state_timeout_is_armed_at_build() {
    let m = Labels::new(Door::Open { since: 0 })
        .when("Open")
        .timeout(Duration::from_millis(50), "open-timeout")
        .done()
        .build();
    let d = m.armed_timeout().expect("initial timeout armed");
    assert_eq!(d.duration, 50_000_000);
    assert_eq!(m.timeout_due_at(d.armed_at + 49_999_999), None);
    assert_eq!(m.timeout_due_at(d.armed_at + 50_000_000), Some(&"open-timeout"));
}

#[test]
fn test_clock_driven_timeout() {
    let mut m = Labels::new(Door::Open { since: 0 })
        .when("Open")
        .timeout(Duration::from_secs(3600), "slow")
        .done()
        .build();
    assert_eq!(m.timeout_due(), None);

    let mut fast = Labels::new(Door::Open { since: 0 })
        .when("Open")
        .timeout(Duration::from_nanos(0), "now")
        .done()
        .build();
    assert_eq!(fast.timeout_due(), Some(&"now"));
    fast.arm_timeout();
    assert_eq!(fast.timeout_due(), Some(&"now"));

    m.enter_state(Door::Closed);
    m.arm_timeout();
    assert!(m.armed_timeout().is_none());
}

#[test]
fn test_timeout_scope_rejects_duplicate() {
    let r = Labels::new(Door::Closed)
        .when("Closed")
        .timeout_nanos(10, "tick")
        .on("Open", "first")
        .on("Open", "second")
        .done()
        .try_build();
    match r {
        Err(FsmError::DuplicateHandler { state, event }) => {
            assert_eq!((state.as_str(), event.as_str()), ("Closed", "Open"))
        }
        _ => panic!("a second handler in a timeout scope is a duplicate"),
    }
}

#[test]
fn test_duplicate_across_when_and_timeout_scopes() {
    let r = Labels::new(Door::Closed)
        .when("Closed")
        .on("Open", "first")
        .done()
        .when("Closed")
        .timeout_nanos(10, "tick")
        .on("Open", "second")
        .done()
        .try_build();
    match r {
        Err(FsmError::DuplicateHandler { state, event }) => {
            assert_eq!((state.as_str(), event.as_str()), ("Closed", "Open"))
        }
        _ => panic!("expected a duplicate handler error"),
    }
}

#[test]
fn test_duplicate_in_when_scope_is_reported_first() {
    let r = Labels::new(Door::Closed)
        .when("Closed")
        .on("Open", "a")
        .on("Lock", "b")
        .on("Open", "c")
        .on("Lock", "d")
        .done()
        .try_build();
    match r {
        Err(FsmError::DuplicateHandler { state, event }) => {
            assert_eq!((state.as_str(), event.as_str()), ("Closed", "Open"))
        }
        _ => panic!("expected the first duplicate"),
    }
}

#[test]
fn test_timeout_alone_satisfies_strict_validation() {
    let r = Labels::new(Door::Open { since: 0 })
        .when("Open")
        .timeout_nanos(5, "tick")
        .done()
        .try_build();
    assert!(r.is_ok());
    let r = Labels::new(Door::Open { since: 0 })
        .when("Closed")
        .on("Open", "x")
        .done()
        .try_build();
    match r {
        Err(e) => assert_eq!(
            e.to_string(),
            "Builder error: No transitions or timeout configured for initial state 'Open'"
        ),
        Ok(_) => panic!("expected a builder error"),
    }
}

fn hooked_machine() -> LabelMachine {
    Labels::new(Door::Open { since: 0 })
        .when("Open")
        .timeout_nanos(50, "open-timeout")
        .on("Close", "open-close")
        .done()
        .on_exit("Open", "leave-open")
        .on_entry("Open", "enter-open")
        .build()
}

fn to(next_state: Door, actions: Vec<&'static str>) -> Transition<Door, &'static str> {
    Transition { next_state, actions }
}

#[test]
fn test_self_transition_steps_run_both_hooks_and_restart_timer() {
    let mut m = hooked_machine();
    m.arm_timeout_at(10);
    let step = m.step_transition_at(TransitionPhase::Start(to(Door::Open { since: 5 }, vec!["t"])), 100);
    let t = match step {
        TransitionStep::RunExitHook(t) => t,
        _ => panic!("the exit hook runs first"),
    };
    assert_eq!(m.state(), &Door::Open { since: 0 });
    let step = m.step_transition_at(
        TransitionPhase::Exited { transition: t, result: Ok(vec!["x"]) },
        100,
    );
    let (exit_actions, actions) = match step {
        TransitionStep::RunEntryHook { exit_actions, actions } => (exit_actions, actions),
        _ => panic!("the entry hook runs next"),
    };
    assert_eq!(m.state(), &Door::Open { since: 5 });
    assert_eq!(m.state_name(), "Open");
    let d = m.armed_timeout().unwrap();
    assert_eq!((d.armed_at, d.duration), (10, 50));
    let step = m.step_transition_at(
        TransitionPhase::Entered { exit_actions, actions, result: Ok(vec!["e1", "e2"]) },
        100,
    );
    match step {
        TransitionStep::Done(all) => assert_eq!(all, vec!["x", "e1", "e2", "t"]),
        _ => panic!("the transition is done"),
    }
    let d = m.armed_timeout().unwrap();
    assert_eq!((d.armed_at, d.duration), (100, 50));
}

#[test]
fn test_failed_exit_hook_keeps_the_old_state() {
    let mut m = hooked_machine();
    m.arm_timeout_at(10);
    let step = m.step_transition_at(
        TransitionPhase::Exited {
            transition: to(Door::Closed, vec!["t"]),
            result: Err(FsmError::HandlerError("exit failed".to_string())),
        },
        100,
    );
    match step {
        TransitionStep::Failed(FsmError::HandlerError(msg)) => assert_eq!(msg, "exit failed"),
        _ => panic!("expected the hook's error"),
    }
    assert_eq!(m.state(), &Door::Open { since: 0 });
    assert_eq!(m.armed_timeout().unwrap().armed_at, 10);
}

#[test]
fn test_failed_entry_hook_commits_the_state_and_keeps_the_timer() {
    let mut m = Labels::new(Door::Closed)
        .when("Closed")
        .on("Open", "closed-open")
        .done()
        .on_entry("Open", "enter-open")
        .when("Open")
        .timeout_nanos(50, "open-timeout")
        .done()
        .build();
    assert!(m.armed_timeout().is_none());
    let step = m.step_transition_at(TransitionPhase::Start(to(Door::Open { since: 1 }, vec!["t"])), 100);
    let (exit_actions, actions) = match step {
        TransitionStep::RunEntryHook { exit_actions, actions } => (exit_actions, actions),
        _ => panic!("no exit hook: the machine moves and the entry hook runs"),
    };
    assert!(exit_actions.is_empty());
    assert_eq!(actions, vec!["t"]);
    assert_eq!(m.state(), &Door::Open { since: 1 });
    let step = m.step_transition_at(
        TransitionPhase::Entered {
            exit_actions,
            actions,
            result: Err(FsmError::HandlerError("entry failed".to_string())),
        },
        120,
    );
    assert!(matches!(step, TransitionStep::Failed(FsmError::HandlerError(_))));
    assert_eq!(m.state(), &Door::Open { since: 1 });
    assert!(m.armed_timeout().is_none());
}

#[test]
fn test_transition_without_hooks_is_done_in_one_step() {
    let mut m = timed_machine();
    let step = m.step_transition_at(TransitionPhase::Start(to(Door::Open { since: 3 }, vec!["a", "b"])), 7);
    match step {
        TransitionStep::Done(all) => assert_eq!(all, vec!["a", "b"]),
        _ => panic!("no hooks: done at once"),
    }
    assert_eq!(m.state_name(), "Open");
    let d = m.armed_timeout().unwrap();
    assert_eq!((d.armed_at, d.duration), (7, 50));
    let step = m.step_transition_at(TransitionPhase::Start(to(Door::Closed, vec![])), 9);
    assert!(matches!(step, TransitionStep::Done(ref all) if all.is_empty()));
    assert!(m.armed_timeout().is_none());
}
