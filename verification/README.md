# obzenflow_fsm

A finite state machine library in the style of Akka Classic FSM, verified with Verus.
A machine is a Mealy machine: `State × Event → Actions, State'`. The library decides;
the host performs: handlers and actions are asynchronous host code. The engine routes an
event to its handler, and takes a transition step by step (`StateMachine::step_transition`):
each step says which hook the host runs next (the old state's exit hook, then the new
state's entry hook), moves the machine and arms its timer, and ends with the actions in
their order or with the first hook error. The host awaits the hooks and hands their results
back.

## Layout

- `src/` — the verified library.
  - `types.rs` — `Transition` and its builders; the `StateVariant`, `EventVariant`,
    `FsmContext` and `FsmAction` traits.
  - `error.rs` — `FsmError` and its text.
  - `table.rs` — handler tables keyed by names (no key twice; a later registration
    replaces an earlier one).
  - `builder.rs`, `builder/transitions.rs` — `FsmBuilder` and its scoped builders
    (duplicate detection, strict validation), and the `goto`/`stay` helpers.
  - `machine.rs` — `StateMachine`: routing an event to its handler (exact, wildcard,
    unhandled hook, refusal), the steps of a transition (exit hook, move, entry hook,
    timer, action order, hook failures), timeouts; and the laws that relate them.
  - `clock.rs` — reading tokio's clock as nanoseconds since an origin.
  - `dsl/` — the `fsm!` description language: tokens, the grammar (`FsmSpec::parse`),
    expansion into builder calls and their rendering as Rust source, and the
    `StateVariant`/`EventVariant` derives, with lexing and Rust syntax judged by
    `proc_macro2` and `syn`. What lexing gives is not stated (it depends on which lexer
    `proc_macro2` uses in the process); the parser's and the derives' contracts hold for
    ASCII input.
- `app/` — the asynchronous host layer: handler types (boxed async closures), the
  `AsyncStateMachine` trait (`handle`, `check_timeout`, `apply_transition`, which awaits
  the hooks that the engine's transition steps ask for, and `execute_actions`), executable
  actions, and `FsmError` with `Display`.
- `tests/` — scenario tests for the builder, the engine, the description language and the
  types.
