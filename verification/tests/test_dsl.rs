//! The description language: parsing, expansion into builder calls, derives.

use obzenflow_fsm::dsl::derive::{
    derive_event_variant, derive_state_variant, variant_names_impl, Fields, VariantShape,
};
use obzenflow_fsm::dsl::expand::{expand_fsm_spec, fsm, render_steps, BuildStep};
use obzenflow_fsm::dsl::parse::FsmSpec;
use obzenflow_fsm::dsl::syntax::tokenize;
use obzenflow_fsm::builder::{TimeoutBuilder, WhenBuilder};
use obzenflow_fsm::dsl::token::{render, Delimiter, Token};
use obzenflow_fsm::internal::FsmBuilder;
use obzenflow_fsm::{EventVariant, Route, StateMachine, StateVariant, Transition};
use syn::Expr;

const FULL_SAMPLE: &str = r#"
    state:   SimpleState;
    event:   SimpleEvent;
    context: SimpleContext;
    action:  SimpleAction;
    initial: SimpleState::Idle;

    state SimpleState::Idle {
        on SimpleEvent::Start => |_state: &SimpleState, _event: &SimpleEvent, _ctx: &mut SimpleContext| {
            Box::pin(async move {
                Ok(Transition {
                    next_state: SimpleState::Running,
                    actions: vec![SimpleAction::MarkStarted],
                })
            })
        };
    }
"#;

const HEADER: &str = r#"
    state:   SimpleState;
    event:   SimpleEvent;
    context: SimpleContext;
    action:  SimpleAction;
    initial: SimpleState::Idle;
"#;

fn text(tokens: &Vec<Token>) -> String {
    render(tokens).chars().filter(|c| !c.is_whitespace()).collect()
}

/// Lexes and parses a description.
fn parse_text(src: &str) -> Result<FsmSpec, String> {
    let tokens = tokenize(src)?;
    FsmSpec::parse(tokens).map_err(|e| e.message)
}

fn parse_error(src: &str) -> String {
    match parse_text(src) {
        Ok(_) => panic!("expected a parse error"),
        Err(message) => message,
    }
}

#[test]
fn parses_header_only() {
    let tokens = tokenize(HEADER).expect("tokenize");
    let spec = FsmSpec::parse(tokens).expect("parse FsmSpec");
    assert!(spec.states.is_empty());
}

#[test]
fn parses_event_expr_and_handler_expr() {
    let _event: Expr = syn::parse_str("SimpleEvent::Start").expect("parse event expr");
    let _handler: Expr = syn::parse_str(
        r#"|_state: &SimpleState, _event: &SimpleEvent, _ctx: &mut SimpleContext| {
            Box::pin(async move {
                Ok(Transition {
                    next_state: SimpleState::Running,
                    actions: vec![SimpleAction::MarkStarted],
                })
            })
        }"#,
    )
    .expect("parse handler expr");
}

#[test]
fn parses_full_sample_like_runtime_test() {
    let tokens = tokenize(FULL_SAMPLE).expect("tokenize");
    let _spec = FsmSpec::parse(tokens).expect("parse FsmSpec");
}

#[test]
fn test_fsm_expands_tokens() {
    let steps = fsm(tokenize(FULL_SAMPLE).expect("tokenize")).expect("expand");
    assert_eq!(steps.len(), 5);
    assert!(matches!(&steps[1], BuildStep::When(n) if n == "Idle"));
    assert!(matches!(&steps[2], BuildStep::On(n, _) if n == "Start"));
    assert!(matches!(&steps[4], BuildStep::Build));
    assert!(tokenize("state: \"unterminated;").is_err());
}

#[test]
fn test_full_sample_fragments() {
    let spec = parse_text(FULL_SAMPLE).expect("parse FsmSpec");
    assert_eq!(text(&spec.state_ty), "SimpleState");
    assert_eq!(text(&spec.initial_expr), "SimpleState::Idle");
    assert_eq!(spec.states.len(), 1);
    let block = &spec.states[0];
    assert_eq!(text(&block.state_path), "SimpleState::Idle");
    assert_eq!(block.handlers.len(), 1);
    assert_eq!(text(&block.handlers[0].event_path), "SimpleEvent::Start");
    assert!(text(&block.handlers[0].handler).starts_with("|"));
    assert!(block.timeout.is_none() && block.entry.is_none() && block.exit.is_none());
    assert!(spec.unhandled.is_none());
}

#[test]
fn test_header_errors() {
    assert_eq!(parse_error("event: E;"), "expected `state:`");
    assert_eq!(parse_error("state S;"), "expected `:`");
    assert_eq!(parse_error("state: S"), "expected `;`");
    assert_eq!(parse_error("state: ;"), "expected a type");
    assert_eq!(parse_error("state: 1 + 2;"), "expected a type");
    assert_eq!(parse_error("state: S; event: E; context: C; action: A; initial: ;"), "expected an expression");
    assert_eq!(parse_error("state: S; event: E; context: C; initial: S::A;"), "expected `action:`");
    assert_eq!(parse_error("; state: S;"), "expected identifier");
    assert_eq!(
        parse_error("state: S; event: E; context: C; action: A; initial: S:: + ;"),
        "expected an expression"
    );
}

#[test]
fn test_item_errors() {
    let with = |items: &str| parse_error(&format!("{HEADER} {items}"));
    assert_eq!(with("transition S::A {}"), "expected `state` or `unhandled`");
    assert_eq!(with("state S::A ;"), "expected curly braces");
    assert_eq!(with("state {}"), "expected a path");
    assert_eq!(with("state S::A { on E::Go ; }"), "expected `=>`");
    assert_eq!(with("state S::A { on 42 => h; }"), "expected a path");
    assert_eq!(with("state S::A { on E::Go => h }"), "expected `;`");
    assert_eq!(with("state S::A { enter h; }"), "expected `on`, `timeout`, `on_entry`, or `on_exit`");
    assert_eq!(
        with("state S::A { timeout d => h; timeout d => h; }"),
        "duplicate `timeout` for state"
    );
    assert_eq!(with("state S::A { on_entry h; on_entry h; }"), "duplicate `on_entry` for state");
    assert_eq!(with("state S::A { on_exit h; on_exit h; }"), "duplicate `on_exit` for state");
    assert_eq!(
        with("unhandled => h; unhandled => h;"),
        "duplicate `unhandled` handler at top-level"
    );
    assert_eq!(with("unhandled h;"), "expected `=>`");
}

#[test]
fn test_clauses_and_unhandled() {
    let src = format!(
        "{HEADER}
        unhandled => |s: &S, e: &E, c: &mut C| Box::pin(async move {{ Ok(()) }});
        state S::Working {{
            on_entry |s: &S, c: &mut C| Box::pin(async move {{ Ok(vec![]) }});
            timeout Duration::from_millis(30) => |s: &S, c: &mut C| done(s);
            on E::Stop => |s: &S, e: &E, c: &mut C| match e {{ E::Stop => stop(), _ => other() }};
            on_exit exit_hook;
        }}"
    );
    let spec = parse_text(&src).expect("parse");
    assert!(spec.unhandled.is_some());
    let block = &spec.states[0];
    let timeout = block.timeout.as_ref().expect("timeout");
    assert_eq!(text(&timeout.duration), "Duration::from_millis(30)");
    assert!(block.entry.is_some());
    assert_eq!(text(block.exit.as_ref().unwrap()), "exit_hook");
    // The `=>` of a match arm sits inside braces and does not end the handler.
    assert!(text(&block.handlers[0].handler).contains("E::Stop=>stop()"));
}

#[test]
fn test_expansion_order_and_names() {
    let src = format!(
        "{HEADER}
        unhandled => hook;
        state crate::states::SimpleState::Idle {{
            on SimpleEvent::Start => start;
            on other::SimpleEvent::Stop => stop;
            on_exit leave;
            timeout ten_ms => tick;
            on_entry enter;
        }}
        state SimpleState::Done {{ }}"
    );
    let spec = parse_text(&src).expect("parse");
    let steps = expand_fsm_spec(spec);
    let shape: Vec<String> = steps
        .iter()
        .map(|s| match s {
            BuildStep::New { initial, .. } => format!("new {}", text(initial)),
            BuildStep::WhenUnhandled(h) => format!("unhandled {}", text(h)),
            BuildStep::OnEntry(n, h) => format!("entry {n} {}", text(h)),
            BuildStep::OnExit(n, h) => format!("exit {n} {}", text(h)),
            BuildStep::When(n) => format!("when {n}"),
            BuildStep::Timeout(d, h) => format!("timeout {} {}", text(d), text(h)),
            BuildStep::On(n, h) => format!("on {n} {}", text(h)),
            BuildStep::Done => "done".to_string(),
            BuildStep::Build => "build".to_string(),
        })
        .collect();
    assert_eq!(
        shape,
        vec![
            "new SimpleState::Idle",
            "unhandled hook",
            "entry Idle enter",
            "exit Idle leave",
            "when Idle",
            "timeout ten_ms tick",
            "on Start start",
            "on Stop stop",
            "done",
            "when Done",
            "done",
            "build",
        ]
    );
}

#[test]
fn test_fsm_reports_parse_errors() {
    let tokens = vec![Token::Ident("state".to_string())];
    match fsm(tokens) {
        Err(e) => assert_eq!(e.message, "expected `:`"),
        Ok(_) => panic!("expected an error"),
    }
    match fsm(vec![]) {
        Err(e) => assert_eq!(e.message, "expected identifier"),
        Ok(_) => panic!("expected an error"),
    }
}

#[test]
fn test_generic_arguments_do_not_name_a_path() {
    let src = format!("{HEADER} state Wrapper::<Inner>::Ready {{ on Ev::<fn() -> u8>::Go => h; }}");
    let steps = expand_fsm_spec(parse_text(&src).expect("parse"));
    assert!(matches!(&steps[1], BuildStep::When(n) if n == "Ready"));
    assert!(matches!(&steps[2], BuildStep::On(n, _) if n == "Go"));
}

#[test]
fn test_derive_state_variant() {
    let out = derive_state_variant("enum DoorState { Closed, Open { since: u64 }, Ajar(u8) }")
        .expect("derive");
    assert_eq!(
        out,
        "impl ::obzenflow_fsm::StateVariant for DoorState { fn variant_name(&self) -> &str { match self { Self::Closed => \"Closed\", Self::Open { .. } => \"Open\", Self::Ajar(..) => \"Ajar\", } } }"
    );
    let parsed: syn::ItemImpl = syn::parse_str(&out).expect("valid impl");
    assert_eq!(parsed.items.len(), 1);
}

#[test]
fn test_derive_event_variant_only_for_enums() {
    assert_eq!(
        derive_event_variant("struct Door { open: bool }"),
        Err("EventVariant can only be derived for enums".to_string())
    );
    let out = derive_event_variant("enum DoorEvent { Open }").expect("derive");
    assert!(out.starts_with("impl ::obzenflow_fsm::EventVariant for DoorEvent"));
    assert!(derive_event_variant("enum {").is_err());
}

#[derive(Clone, Debug, PartialEq)]
struct Named(String);

impl StateVariant for Named {
    fn variant_name(&self) -> &str {
        &self.0
    }
}

type TextBuilder = FsmBuilder<Named, String, String, String, String>;

enum Stage {
    Top(TextBuilder),
    When(WhenBuilder<Named, String, String, String, String>),
    Timed(TimeoutBuilder<Named, String, String, String, String>),
}

/// Runs builder calls, with each handler fragment's text as the handler.
fn run(steps: Vec<BuildStep>, initial: &str) -> StateMachine<Named, String, String, String, String> {
    let mut stage: Option<Stage> = None;
    for step in steps {
        stage = Some(match (stage.take(), step) {
            (None, BuildStep::New { .. }) => Stage::Top(TextBuilder::new(Named(initial.to_string()))),
            (Some(Stage::Top(b)), BuildStep::WhenUnhandled(h)) => Stage::Top(b.when_unhandled(text(&h))),
            (Some(Stage::Top(b)), BuildStep::OnEntry(n, h)) => Stage::Top(b.on_entry(&n, text(&h))),
            (Some(Stage::Top(b)), BuildStep::OnExit(n, h)) => Stage::Top(b.on_exit(&n, text(&h))),
            (Some(Stage::Top(b)), BuildStep::When(n)) => Stage::When(b.when(&n)),
            (Some(Stage::When(w)), BuildStep::Timeout(_, h)) => Stage::Timed(w.timeout_nanos(1, text(&h))),
            (Some(Stage::When(w)), BuildStep::On(n, h)) => Stage::When(w.on(&n, text(&h))),
            (Some(Stage::Timed(t)), BuildStep::On(n, h)) => Stage::Timed(t.on(&n, text(&h))),
            (Some(Stage::When(w)), BuildStep::Done) => Stage::Top(w.done()),
            (Some(Stage::Timed(t)), BuildStep::Done) => Stage::Top(t.done()),
            (Some(Stage::Top(b)), BuildStep::Build) => {
                return b.try_build().expect("builds");
            }
            _ => panic!("calls out of order"),
        });
    }
    panic!("no build call")
}

#[test]
fn test_expansion_registers_every_clause() {
    let src = format!(
        "{HEADER}
        state SimpleState::Idle {{
            on SimpleEvent::Start => start_handler;
            on SimpleEvent::Stop => stop_handler;
        }}
        state SimpleState::Running {{
            timeout ten_ms => tick;
            on SimpleEvent::Stop => halt;
        }}"
    );
    let spec = parse_text(&src).expect("parse");
    let mut machine = run(expand_fsm_spec(spec), "Idle");
    let routed = |m: &StateMachine<Named, String, String, String, String>, e: &str| match m.route(e) {
        Route::Handler(h) => Some(h.clone()),
        _ => None,
    };
    assert_eq!(routed(&machine, "Start"), Some("start_handler".to_string()));
    assert_eq!(routed(&machine, "Stop"), Some("stop_handler".to_string()));
    machine.enter_state(Named("Running".to_string()));
    assert_eq!(routed(&machine, "Stop"), Some("halt".to_string()));
    assert_eq!(machine.timeout_due_at(u128::MAX), None);
    machine.arm_timeout_at(0);
    assert_eq!(machine.timeout_due_at(1), Some(&"tick".to_string()));
}

#[test]
fn test_groups_hold_their_token_trees() {
    let tokens = tokenize("f(x, [y]) { z; }").expect("tokenize");
    assert_eq!(tokens.len(), 3);
    match &tokens[1] {
        Token::Group(Delimiter::Parenthesis, inner) => {
            assert_eq!(inner.len(), 3);
            assert!(matches!(&inner[0], Token::Ident(s) if s == "x"));
            assert!(matches!(&inner[1], Token::Punct(',', false)));
            assert!(matches!(&inner[2], Token::Group(Delimiter::Bracket, ys) if ys.len() == 1));
        }
        _ => panic!("expected a parenthesised group"),
    }
    assert!(matches!(&tokens[2], Token::Group(Delimiter::Brace, zs) if zs.len() == 2));
    assert_eq!(render(&tokens), "f (x , [y ] ) {z ; } ");
}

const LAMP_DESCRIPTION: &str = r#"state: Lamp; event: Flip; context: Count; action: Note; initial: Lamp::Off;
unhandled => |_s: &Lamp, _e: &Flip, _c: &mut Count| Box::pin(async move { Ok(()) });
state Lamp::Off {
    on_entry |_s: &Lamp, _c: &mut Count| Box::pin(async move { Ok(vec![Note::Dark]) });
    timeout std::time::Duration::from_secs(5) => |_s: &Lamp, _c: &mut Count| Box::pin(async move { Ok(Transition { next_state: Lamp::Off, actions: vec![] }) });
    on Flip::Toggle => |_s: &Lamp, _e: &Flip, _c: &mut Count| Box::pin(async move { Ok(Transition { next_state: Lamp::On, actions: vec![Note::Lit] }) });
}
state Lamp::On {
    on_exit |_s: &Lamp, _c: &mut Count| Box::pin(async move { Ok(vec![]) });
    on Flip::Toggle => |_s: &Lamp, _e: &Flip, _c: &mut Count| Box::pin(async move { Ok(Transition { next_state: Lamp::Off, actions: vec![] }) });
}"#;

/// What the expansion of `LAMP_DESCRIPTION` renders, as written in
/// `test_rendered_expansion_builds_the_machine`.
const LAMP_RENDERED: &str = "{ type DslState = Lamp; type DslEvent = Flip; type DslContext = Count; type DslAction = Note; type DslFuture<'a, T> = ::std::pin::Pin<::std::boxed::Box<dyn ::std::future::Future<Output = ::obzenflow_fsm::FsmResult<T>> + ::std::marker::Send + 'a>>; type DslTransitionHandler = ::std::sync::Arc<dyn for<'a> Fn(&'a DslState, &'a DslEvent, &'a mut DslContext) -> DslFuture<'a, ::obzenflow_fsm::Transition<DslState, DslAction>> + ::std::marker::Send + ::std::marker::Sync>; type DslStateHandler = ::std::sync::Arc<dyn for<'a> Fn(&'a DslState, &'a mut DslContext) -> DslFuture<'a, ::std::vec::Vec<DslAction>> + ::std::marker::Send + ::std::marker::Sync>; type DslTimeoutHandler = ::std::sync::Arc<dyn for<'a> Fn(&'a DslState, &'a mut DslContext) -> DslFuture<'a, ::obzenflow_fsm::Transition<DslState, DslAction>> + ::std::marker::Send + ::std::marker::Sync>; type DslUnhandledHandler = ::std::sync::Arc<dyn for<'a> Fn(&'a DslState, &'a DslEvent, &'a mut DslContext) -> DslFuture<'a, ()> + ::std::marker::Send + ::std::marker::Sync>; fn dsl_transition_handler<F>(f: F) -> DslTransitionHandler where F: for<'a> Fn(&'a DslState, &'a DslEvent, &'a mut DslContext) -> DslFuture<'a, ::obzenflow_fsm::Transition<DslState, DslAction>> + ::std::marker::Send + ::std::marker::Sync + 'static { ::std::sync::Arc::new(f) } fn dsl_state_handler<F>(f: F) -> DslStateHandler where F: for<'a> Fn(&'a DslState, &'a mut DslContext) -> DslFuture<'a, ::std::vec::Vec<DslAction>> + ::std::marker::Send + ::std::marker::Sync + 'static { ::std::sync::Arc::new(f) } fn dsl_timeout_handler<F>(f: F) -> DslTimeoutHandler where F: for<'a> Fn(&'a DslState, &'a mut DslContext) -> DslFuture<'a, ::obzenflow_fsm::Transition<DslState, DslAction>> + ::std::marker::Send + ::std::marker::Sync + 'static { ::std::sync::Arc::new(f) } fn dsl_unhandled_handler<F>(f: F) -> DslUnhandledHandler where F: for<'a> Fn(&'a DslState, &'a DslEvent, &'a mut DslContext) -> DslFuture<'a, ()> + ::std::marker::Send + ::std::marker::Sync + 'static { ::std::sync::Arc::new(f) } let mut builder = ::obzenflow_fsm::internal::FsmBuilder::<DslState, DslTransitionHandler, DslStateHandler, DslTimeoutHandler, DslUnhandledHandler>::new(Lamp::Off); builder = builder.when_unhandled(dsl_unhandled_handler(|_s: &Lamp, _e: &Flip, _c: &mut Count| Box::pin(async move { Ok(()) }))); builder = builder.on_entry(\"Off\", dsl_state_handler(|_s: &Lamp, _c: &mut Count| Box::pin(async move { Ok(vec![Note::Dark]) }))); builder = builder.when(\"Off\").timeout(std::time::Duration::from_secs(5), dsl_timeout_handler(|_s: &Lamp, _c: &mut Count| Box::pin(async move { Ok(Transition { next_state: Lamp::Off, actions: vec![] }) }))).on(\"Toggle\", dsl_transition_handler(|_s: &Lamp, _e: &Flip, _c: &mut Count| Box::pin(async move { Ok(Transition { next_state: Lamp::On, actions: vec![Note::Lit] }) }))).done(); builder = builder.on_exit(\"On\", dsl_state_handler(|_s: &Lamp, _c: &mut Count| Box::pin(async move { Ok(vec![]) }))); builder = builder.when(\"On\").on(\"Toggle\", dsl_transition_handler(|_s: &Lamp, _e: &Flip, _c: &mut Count| Box::pin(async move { Ok(Transition { next_state: Lamp::Off, actions: vec![] }) }))).done(); builder.try_build().expect(\"FsmBuilder::build failed\") }";

fn without_whitespace(s: &str) -> String {
    s.chars().filter(|c| !c.is_whitespace()).collect()
}

#[test]
fn test_expansion_renders_as_builder_source() {
    let steps = fsm(tokenize(LAMP_DESCRIPTION).expect("tokenize")).expect("expand");
    let out = render_steps(&steps);
    assert!(out.starts_with("{ type DslState = Lamp ; type DslEvent = Flip ; "));
    assert!(out.ends_with("builder.try_build().expect(\"FsmBuilder::build failed\") }"));
    assert_eq!(without_whitespace(&out), without_whitespace(LAMP_RENDERED));
    let _block: Expr = syn::parse_str(&out).expect("a block expression");
    let full = render_steps(&fsm(tokenize(FULL_SAMPLE).expect("tokenize")).expect("expand"));
    let _full: Expr = syn::parse_str(&full).expect("a block expression");
}

#[test]
fn test_rendered_expansion_builds_the_machine() {
    let machine = { type DslState = Lamp;
        type DslEvent = Flip;
        type DslContext = Count;
        type DslAction = Note;
        type DslFuture<'a, T> = ::std::pin::Pin<::std::boxed::Box<dyn ::std::future::Future<Output = ::obzenflow_fsm::FsmResult<T>> + ::std::marker::Send + 'a>>;
        type DslTransitionHandler = ::std::sync::Arc<dyn for<'a> Fn(&'a DslState, &'a DslEvent, &'a mut DslContext) -> DslFuture<'a, ::obzenflow_fsm::Transition<DslState, DslAction>> + ::std::marker::Send + ::std::marker::Sync>;
        type DslStateHandler = ::std::sync::Arc<dyn for<'a> Fn(&'a DslState, &'a mut DslContext) -> DslFuture<'a, ::std::vec::Vec<DslAction>> + ::std::marker::Send + ::std::marker::Sync>;
        type DslTimeoutHandler = ::std::sync::Arc<dyn for<'a> Fn(&'a DslState, &'a mut DslContext) -> DslFuture<'a, ::obzenflow_fsm::Transition<DslState, DslAction>> + ::std::marker::Send + ::std::marker::Sync>;
        type DslUnhandledHandler = ::std::sync::Arc<dyn for<'a> Fn(&'a DslState, &'a DslEvent, &'a mut DslContext) -> DslFuture<'a, ()> + ::std::marker::Send + ::std::marker::Sync>;
        fn dsl_transition_handler<F>(f: F) -> DslTransitionHandler where F: for<'a> Fn(&'a DslState, &'a DslEvent, &'a mut DslContext) -> DslFuture<'a, ::obzenflow_fsm::Transition<DslState, DslAction>> + ::std::marker::Send + ::std::marker::Sync + 'static { ::std::sync::Arc::new(f) }
        fn dsl_state_handler<F>(f: F) -> DslStateHandler where F: for<'a> Fn(&'a DslState, &'a mut DslContext) -> DslFuture<'a, ::std::vec::Vec<DslAction>> + ::std::marker::Send + ::std::marker::Sync + 'static { ::std::sync::Arc::new(f) }
        fn dsl_timeout_handler<F>(f: F) -> DslTimeoutHandler where F: for<'a> Fn(&'a DslState, &'a mut DslContext) -> DslFuture<'a, ::obzenflow_fsm::Transition<DslState, DslAction>> + ::std::marker::Send + ::std::marker::Sync + 'static { ::std::sync::Arc::new(f) }
        fn dsl_unhandled_handler<F>(f: F) -> DslUnhandledHandler where F: for<'a> Fn(&'a DslState, &'a DslEvent, &'a mut DslContext) -> DslFuture<'a, ()> + ::std::marker::Send + ::std::marker::Sync + 'static { ::std::sync::Arc::new(f) }
        let mut builder = ::obzenflow_fsm::internal::FsmBuilder::<DslState, DslTransitionHandler, DslStateHandler, DslTimeoutHandler, DslUnhandledHandler>::new(Lamp::Off);
        builder = builder.when_unhandled(dsl_unhandled_handler(|_s: &Lamp, _e: &Flip, _c: &mut Count| Box::pin(async move { Ok(()) })));
        builder = builder.on_entry("Off", dsl_state_handler(|_s: &Lamp, _c: &mut Count| Box::pin(async move { Ok(vec![Note::Dark]) })));
        builder = builder.when("Off").timeout(std::time::Duration::from_secs(5), dsl_timeout_handler(|_s: &Lamp, _c: &mut Count| Box::pin(async move { Ok(Transition { next_state: Lamp::Off, actions: vec![] }) }))).on("Toggle", dsl_transition_handler(|_s: &Lamp, _e: &Flip, _c: &mut Count| Box::pin(async move { Ok(Transition { next_state: Lamp::On, actions: vec![Note::Lit] }) }))).done();
        builder = builder.on_exit("On", dsl_state_handler(|_s: &Lamp, _c: &mut Count| Box::pin(async move { Ok(vec![]) })));
        builder = builder.when("On").on("Toggle", dsl_transition_handler(|_s: &Lamp, _e: &Flip, _c: &mut Count| Box::pin(async move { Ok(Transition { next_state: Lamp::Off, actions: vec![] }) }))).done();
        builder.try_build().expect("FsmBuilder::build failed") };
    assert_eq!(machine.state(), &Lamp::Off);
    assert!(matches!(machine.route_event(&Flip::Toggle), Route::Handler(_)));
    assert_eq!(machine.armed_timeout().expect("timeout armed").duration, 5_000_000_000);
    assert!(machine.entry_handler().is_some());
    assert!(machine.exit_handler().is_none());
}

#[test]
fn test_keywords_are_not_identifiers() {
    let with = |items: &str| parse_error(&format!("{HEADER} {items}"));
    assert_eq!(with("fn S::A {}"), "expected identifier, found keyword `fn`");
    assert_eq!(with("state S::A { match h; }"), "expected identifier, found keyword `match`");
    assert_eq!(parse_error("type: S;"), "expected identifier, found keyword `type`");
    assert_eq!(with("_ => h;"), "expected identifier, found keyword `_`");
}

#[derive(Clone, Debug, PartialEq)]
enum Lamp {
    Off,
    On,
}

impl StateVariant for Lamp {
    fn variant_name(&self) -> &str {
        match self {
            Lamp::Off => "Off",
            Lamp::On => "On",
        }
    }
}

#[derive(Clone, Debug)]
enum Flip {
    Toggle,
}

impl EventVariant for Flip {
    fn variant_name(&self) -> &str {
        match self {
            Flip::Toggle => "Toggle",
        }
    }
}

struct Count;

#[derive(Clone, Debug, PartialEq)]
enum Note {
    Dark,
    Lit,
}

#[test]
fn test_variant_names_impl_from_parsed_variants() {
    let variants = vec![
        VariantShape { name: "Idle".to_string(), fields: Fields::Unit },
        VariantShape { name: "Busy".to_string(), fields: Fields::Named },
        VariantShape { name: "Failed".to_string(), fields: Fields::Unnamed },
    ];
    assert_eq!(
        variant_names_impl("EventVariant", "Job", &variants),
        "impl ::obzenflow_fsm::EventVariant for Job { fn variant_name(&self) -> &str { match self { Self::Idle => \"Idle\", Self::Busy { .. } => \"Busy\", Self::Failed(..) => \"Failed\", } } }"
    );
    assert_eq!(
        variant_names_impl("StateVariant", "Empty", &vec![]),
        "impl ::obzenflow_fsm::StateVariant for Empty { fn variant_name(&self) -> &str { match self { } } }"
    );
}
