//! Transitions, their builders, the traits' defaults and the error texts.

use obzenflow_fsm::transitions::{goto, goto_with_actions, stay, stay_with_actions};
use obzenflow_fsm::{FsmAction, FsmContext, FsmError, Transition};

#[derive(Clone, Debug, PartialEq)]
enum State {
    Idle,
    Running,
}

#[derive(Clone, Debug, PartialEq)]
enum Action {
    Start,
    Log(String),
}

struct Ctx;

impl FsmContext for Ctx {}

impl FsmAction for Action {
    type Context = Ctx;
}

#[test]
fn test_transition_literal() {
    let t: Transition<State, Action> = Transition {
        next_state: State::Running,
        actions: vec![Action::Start],
    };
    assert_eq!(t.next_state, State::Running);
    assert_eq!(t.actions, vec![Action::Start]);
}

#[test]
fn test_transition_builder() {
    let t = Transition::<State, Action>::to(State::Running)
        .with_action(Action::Start)
        .build();
    assert_eq!(t.next_state, State::Running);
    assert_eq!(t.actions, vec![Action::Start]);

    let t = Transition::<State, Action>::to(State::Running)
        .with_action(Action::Start)
        .with_actions(vec![Action::Log("a".into()), Action::Log("b".into())])
        .with_action(Action::Start)
        .build();
    assert_eq!(
        t.actions,
        vec![Action::Log("a".into()), Action::Log("b".into()), Action::Start]
    );
}

#[test]
fn test_stay_builder() {
    let t = Transition::<State, Action>::stay()
        .with_action(Action::Log("x".into()))
        .in_state(State::Idle);
    assert_eq!(t.next_state, State::Idle);
    assert_eq!(t.actions, vec![Action::Log("x".into())]);
    let t = Transition::<State, Action>::stay().in_state(State::Running);
    assert!(t.actions.is_empty());
}

#[test]
fn test_convenience_transitions() {
    let t: Transition<State, Action> = goto(State::Running);
    assert_eq!((t.next_state, t.actions.len()), (State::Running, 0));
    let t = goto_with_actions(State::Idle, vec![Action::Start]);
    assert_eq!((t.next_state, t.actions), (State::Idle, vec![Action::Start]));
    let current = State::Running;
    let t: Transition<State, Action> = stay(&current);
    assert_eq!(t.next_state, current);
    assert!(t.actions.is_empty());
    let t = stay_with_actions(&current, vec![Action::Start, Action::Start]);
    assert_eq!((t.next_state, t.actions.len()), (State::Running, 2));
}

#[test]
fn test_builders_agree_with_helpers() {
    let a = Transition::<State, Action>::to(State::Running)
        .with_actions(vec![Action::Start])
        .build();
    let b = goto_with_actions(State::Running, vec![Action::Start]);
    assert_eq!((a.next_state, a.actions), (b.next_state, b.actions));
}

#[test]
fn test_describe_defaults() {
    assert_eq!(Ctx.describe(), "FSM Context");
    assert_eq!(Action::Log("hi".into()).describe(), "Log(\"hi\")");
    assert_eq!(Action::Start.describe(), "Start");
}

#[test]
fn test_error_texts() {
    let cases = vec![
        (
            FsmError::InvalidTransition { from: "A".into(), event: "Go".into() },
            "Invalid transition from state 'A' on event 'Go'",
        ),
        (
            FsmError::DuplicateHandler { state: "A".into(), event: "Go".into() },
            "Duplicate handler for state 'A' and event 'Go'",
        ),
        (
            FsmError::HandlerError("Simulated processing error".into()),
            "Handler error: Simulated processing error",
        ),
        (FsmError::Timeout { state: "Open".into() }, "Timeout in state 'Open'"),
        (
            FsmError::UnhandledEvent { state: "Disconnected".into(), event: "Heartbeat".into() },
            "Unhandled event 'Heartbeat' in state 'Disconnected'",
        ),
        (FsmError::BuilderError("bad".into()), "Builder error: bad"),
    ];
    for (e, expected) in cases {
        assert_eq!(e.to_string(), expected);
    }
}
