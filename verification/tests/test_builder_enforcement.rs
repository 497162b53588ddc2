//! Builder validation: duplicate handler detection and strict-mode checks.

#![allow(dead_code)]

use std::future::Future;
use std::pin::Pin;
use std::sync::Arc;

use obzenflow_fsm::internal::FsmBuilder;
use obzenflow_fsm::{EventVariant, FsmAction, FsmContext, FsmError, FsmResult, StateVariant, Transition};

#[derive(Clone, Debug, PartialEq)]
enum DemoState {
    Start,
    End,
}

impl StateVariant for DemoState {
    fn variant_name(&self) -> &str {
        match self {
            DemoState::Start => "Start",
            DemoState::End => "End",
        }
    }
}

#[derive(Clone, Debug)]
enum DemoEvent {
    Finish,
}

impl EventVariant for DemoEvent {
    fn variant_name(&self) -> &str {
        match self {
            DemoEvent::Finish => "Finish",
        }
    }
}

#[derive(Clone, Debug)]
struct DemoAction;

#[derive(Clone)]
struct DemoContext;

impl FsmContext for DemoContext {
    fn describe(&self) -> String {
        "Demo context".to_string()
    }
}

impl FsmAction for DemoAction {
    type Context = DemoContext;
}

type BoxFuture<'a, T> = Pin<Box<dyn Future<Output = T> + Send + 'a>>;
type OnHandler = Arc<
    dyn for<'a> Fn(&'a DemoState, &'a DemoEvent, &'a mut DemoContext)
            -> BoxFuture<'a, FsmResult<Transition<DemoState, DemoAction>>>
        + Send
        + Sync,
>;
type HookHandler =
    Arc<dyn for<'a> Fn(&'a DemoState, &'a mut DemoContext) -> BoxFuture<'a, FsmResult<Vec<DemoAction>>> + Send + Sync>;
type TimeoutHandler = Arc<
    dyn for<'a> Fn(&'a DemoState, &'a mut DemoContext) -> BoxFuture<'a, FsmResult<Transition<DemoState, DemoAction>>>
        + Send
        + Sync,
>;
type UnhandledHandler =
    Arc<dyn for<'a> Fn(&'a DemoState, &'a DemoEvent, &'a mut DemoContext) -> BoxFuture<'a, FsmResult<()>> + Send + Sync>;

type Builder = FsmBuilder<DemoState, OnHandler, HookHandler, TimeoutHandler, UnhandledHandler>;

fn on_handler<F>(f: F) -> OnHandler
where
    F: for<'a> Fn(&'a DemoState, &'a DemoEvent, &'a mut DemoContext)
            -> BoxFuture<'a, FsmResult<Transition<DemoState, DemoAction>>>
        + Send
        + Sync
        + 'static,
{
    Arc::new(f)
}

fn finish_handler() -> OnHandler {
    on_handler(|_state, _event: &DemoEvent, _ctx: &mut DemoContext| {
        Box::pin(async {
            Ok(Transition {
                next_state: DemoState::End,
                actions: vec![],
            })
        })
    })
}

#[test]
fn test_fsm_works_via_builder() {
    let fsm = Builder::new(DemoState::Start)
        .when("Start")
        .on("Finish", finish_handler())
        .done()
        .build();

    assert!(matches!(fsm.state(), DemoState::Start));
}

#[test]
fn test_builder_enforcement_documentation() {
    // Documentation-only test: machines are assembled through the builder.
}

#[test]
fn test_duplicate_handler_detection() {
    let builder = Builder::new(DemoState::Start)
        .when("Start")
        .on("Finish", finish_handler())
        .done()
        // Duplicate handler for the same (state, event) pair
        .when("Start")
        .on("Finish", finish_handler())
        .done();

    let result = builder.try_build();
    assert!(matches!(
        result,
        Err(FsmError::DuplicateHandler { state, event })
            if state == "Start" && event == "Finish"
    ));
}

#[test]
fn test_strict_mode_requires_initial_transitions() {
    let builder = Builder::new(DemoState::Start).strict();

    let result = builder.try_build();
    assert!(matches!(
        result,
        Err(FsmError::BuilderError(msg)) if msg.contains("initial state 'Start'")
    ));
}

#[test]
fn test_strict_mode_allows_valid_initial_state() {
    let builder = Builder::new(DemoState::Start)
        .strict()
        .when("Start")
        .on("Finish", finish_handler())
        .done();

    let result = builder.try_build();
    assert!(result.is_ok());
}

#[test]
fn test_default_builder_requires_initial_transitions() {
    let builder = Builder::new(DemoState::Start);

    let result = builder.try_build();
    assert!(matches!(
        result,
        Err(FsmError::BuilderError(msg)) if msg.contains("initial state 'Start'")
    ));
}

#[test]
fn test_default_builder_allows_valid_initial_state() {
    let builder = Builder::new(DemoState::Start)
        .when("Start")
        .on("Finish", finish_handler())
        .done();

    let result = builder.try_build();
    assert!(result.is_ok());
}
