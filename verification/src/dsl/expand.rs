//! Expansion of a description into builder calls.
//!
//! A description expands into the calls that assemble its machine through the builder:
//! `new` with the initial state, the unhandled-event hook if there is one, then for each
//! state block in order its entry and exit hooks, `when` with the state's name, its timeout,
//! an `on` call per clause with the event's name, and `done`; finally `build`. States and
//! events are registered under the names of their paths (the last segment).
//!
//! [`render_steps`] writes the calls as a Rust block expression that builds the machine
//! with this crate's builder, each handler boxed as a shared async closure.

use vstd::prelude::*;

use crate::dsl::parse::{
    block_paths_named, path_name, path_name_of, paths_named,
    spec_parse, FsmSpec, FsmSpecView, OnHandler, OnHandlerView, ParseError, StateBlock,
    StateBlockView, TimeoutSpec,
};
use crate::builder::BuilderView;
use crate::dsl::token::{render_into, source_text, tokens_ascii, Token};

verus! {

/// One builder call, with the fragments it takes.
#[derive(Debug)]
pub enum BuildStep {
    /// `FsmBuilder::<state, event, context, action>::new(initial)`
    New {
        state_ty: Vec<Token>,
        event_ty: Vec<Token>,
        context_ty: Vec<Token>,
        action_ty: Vec<Token>,
        initial: Vec<Token>,
    },
    /// `.when_unhandled(handler)`
    WhenUnhandled(Vec<Token>),
    /// `.on_entry(state, handler)`
    OnEntry(String, Vec<Token>),
    /// `.on_exit(state, handler)`
    OnExit(String, Vec<Token>),
    /// `.when(state)`
    When(String),
    /// `.timeout(duration, handler)`
    Timeout(Vec<Token>, Vec<Token>),
    /// `.on(event, handler)`
    On(String, Vec<Token>),
    /// `.done()`
    Done,
    /// `.build()`
    Build,
}

/// The abstract form of a builder call.
pub enum StepView {
    New {
        state_ty: Seq<Token>,
        event_ty: Seq<Token>,
        context_ty: Seq<Token>,
        action_ty: Seq<Token>,
        initial: Seq<Token>,
    },
    WhenUnhandled(Seq<Token>),
    OnEntry(Seq<char>, Seq<Token>),
    OnExit(Seq<char>, Seq<Token>),
    When(Seq<char>),
    Timeout(Seq<Token>, Seq<Token>),
    On(Seq<char>, Seq<Token>),
    Done,
    Build,
}

impl View for BuildStep {
    type V = StepView;

    open spec fn view(&self) -> StepView {
        match self {
            BuildStep::New { state_ty, event_ty, context_ty, action_ty, initial } => StepView::New {
                state_ty: state_ty@,
                event_ty: event_ty@,
                context_ty: context_ty@,
                action_ty: action_ty@,
                initial: initial@,
            },
            BuildStep::WhenUnhandled(h) => StepView::WhenUnhandled(h@),
            BuildStep::OnEntry(n, h) => StepView::OnEntry(n@, h@),
            BuildStep::OnExit(n, h) => StepView::OnExit(n@, h@),
            BuildStep::When(n) => StepView::When(n@),
            BuildStep::Timeout(d, h) => StepView::Timeout(d@, h@),
            BuildStep::On(n, h) => StepView::On(n@, h@),
            BuildStep::Done => StepView::Done,
            BuildStep::Build => StepView::Build,
        }
    }
}

/// The name of a path that has one.
pub open spec fn name_of(path: Seq<Token>) -> Seq<char> {
    path_name(path)->0
}

/// The `on` calls of the clauses `hs`.
pub open spec fn on_steps(hs: Seq<OnHandlerView>) -> Seq<StepView> {
    hs.map_values(|h: OnHandlerView| StepView::On(name_of(h.event_path), h.handler))
}

/// The calls that one state block expands into.
pub open spec fn block_steps(b: StateBlockView) -> Seq<StepView> {
    let name = name_of(b.state_path);
    let entry = match b.entry {
        Some(h) => seq![StepView::OnEntry(name, h)],
        None => Seq::empty(),
    };
    let exit = match b.exit {
        Some(h) => seq![StepView::OnExit(name, h)],
        None => Seq::empty(),
    };
    let timeout = match b.timeout {
        Some(t) => seq![StepView::Timeout(t.duration, t.handler)],
        None => Seq::empty(),
    };
    entry + exit + seq![StepView::When(name)] + timeout + on_steps(b.handlers) + seq![
        StepView::Done,
    ]
}

/// The calls that the state blocks `bs` expand into, in order.
pub open spec fn blocks_steps(bs: Seq<StateBlockView>) -> Seq<StepView>
    decreases bs.len(),
{
    if bs.len() == 0 {
        Seq::empty()
    } else {
        blocks_steps(bs.drop_last()) + block_steps(bs.last())
    }
}

/// The calls that a description expands into.
pub open spec fn spec_expand(v: FsmSpecView) -> Seq<StepView> {
    let header = seq![
        StepView::New {
            state_ty: v.state_ty,
            event_ty: v.event_ty,
            context_ty: v.context_ty,
            action_ty: v.action_ty,
            initial: v.initial_expr,
        },
    ];
    let unhandled = match v.unhandled {
        Some(h) => seq![StepView::WhenUnhandled(h)],
        None => Seq::empty(),
    };
    header + unhandled + blocks_steps(v.states) + seq![StepView::Build]
}

/// The views of the calls `steps`.
pub open spec fn steps_view(steps: Seq<BuildStep>) -> Seq<StepView> {
    steps.map_values(|s: BuildStep| s@)
}

/// Appends `step` to `steps`.
fn push_step(steps: &mut Vec<BuildStep>, step: BuildStep)
    ensures
        steps_view(final(steps)@) == steps_view(old(steps)@).push(step@),
{
    steps.push(step);
    assert(steps_view(steps@) =~= steps_view(old(steps)@).push(step@));
}

/// The name of a path that has one.
fn name_string(path: &Vec<Token>) -> (n: String)
    requires
        path_name(path@) is Some,
    ensures
        n@ == name_of(path@),
{
    match path_name_of(path) {
        Some(n) => n,
        None => String::new(),
    }
}

/// Appends the calls of one state block.
fn expand_block(steps: &mut Vec<BuildStep>, block: StateBlock)
    requires
        block_paths_named(block@),
    ensures
        steps_view(final(steps)@) == steps_view(old(steps)@) + block_steps(block@),
{
    let ghost b = block@;
    let StateBlock { state_path, handlers, timeout, entry, exit } = block;
    let name = name_string(&state_path);
    let ghost start = steps_view(steps@);
    match entry {
        Some(h) => push_step(steps, BuildStep::OnEntry(name.clone(), h)),
        None => {},
    }
    match exit {
        Some(h) => push_step(steps, BuildStep::OnExit(name.clone(), h)),
        None => {},
    }
    push_step(steps, BuildStep::When(name));
    match timeout {
        Some(t) => {
            let TimeoutSpec { duration, handler } = t;
            push_step(steps, BuildStep::Timeout(duration, handler));
        },
        None => {},
    }
    let ghost before_on = steps_view(steps@);
    let mut rest = handlers;
    let ghost all = b.handlers;
    assert(rest@.map_values(|h: OnHandler| h@) == all);
    let mut k: usize = 0;
    let ghost n = all.len();
    let total = rest.len();
    assert(n == total);
    while rest.len() > 0
        invariant
            rest@.map_values(|h: OnHandler| h@) == all.subrange(k as int, n as int),
            k + rest@.len() == n,
            n == all.len(),
            n <= usize::MAX,
            steps_view(steps@) == before_on + on_steps(all.subrange(0, k as int)),
            forall|i: int| 0 <= i < all.len() ==> path_name(#[trigger] all[i].event_path) is Some,
        decreases rest@.len(),
    {
        let ghost before = rest@;
        let h = rest.remove(0);
        let ghost hv = all[k as int];
        assert(h@ == hv) by {
            assert(before.map_values(|h: OnHandler| h@)[0] == all.subrange(k as int, n as int)[0]);
        };
        proof {
            assert forall|i: int| 0 <= i < rest@.len() implies #[trigger] rest@[i]@ == all[k + 1 + i] by {
                assert(rest@[i] == before[i + 1]);
                assert(before.map_values(|h: OnHandler| h@)[i + 1] == all.subrange(k as int, n as int)[i + 1]);
            }
            assert(rest@.map_values(|h: OnHandler| h@) =~= all.subrange(k + 1, n as int));
        }
        assert(path_name(all[k as int].event_path) is Some);
        let OnHandler { event_path, handler } = h;
        assert(event_path@ == hv.event_path);
        let ev = name_string(&event_path);
        push_step(steps, BuildStep::On(ev, handler));
        proof {
            assert(all.subrange(0, k + 1) =~= all.subrange(0, k as int).push(hv));
            assert(on_steps(all.subrange(0, k + 1)) =~= on_steps(all.subrange(0, k as int)).push(
                StepView::On(name_of(hv.event_path), hv.handler),
            ));
        }
        k = k + 1;
    }
    push_step(steps, BuildStep::Done);
    proof {
        assert(all.subrange(0, n as int) =~= all);
        assert(steps_view(steps@) =~= start + block_steps(b));
    }
}

/// Expands a description into the builder calls that assemble its machine.
pub fn expand_fsm_spec(spec: FsmSpec) -> (steps: Vec<BuildStep>)
    requires
        paths_named(spec@),
    ensures
        steps_view(steps@) == spec_expand(spec@),
{
    let ghost v = spec@;
    let FsmSpec { state_ty, event_ty, context_ty, action_ty, initial_expr, states, unhandled } =
        spec;
    let mut steps: Vec<BuildStep> = Vec::new();
    assert(steps_view(steps@) =~= Seq::<StepView>::empty());
    push_step(
        &mut steps,
        BuildStep::New { state_ty, event_ty, context_ty, action_ty, initial: initial_expr },
    );
    match unhandled {
        Some(h) => push_step(&mut steps, BuildStep::WhenUnhandled(h)),
        None => {},
    }
    let ghost before_states = steps_view(steps@);
    let ghost all = v.states;
    let ghost n = all.len();
    let mut rest = states;
    let mut k: usize = 0;
    let total = rest.len();
    assert(n == total);
    assert(all.subrange(0, 0) =~= Seq::<StateBlockView>::empty());
    assert(before_states + blocks_steps(Seq::<StateBlockView>::empty()) =~= before_states);
    while rest.len() > 0
        invariant
            rest@.map_values(|b: StateBlock| b@) == all.subrange(k as int, n as int),
            k + rest@.len() == n,
            n == all.len(),
            n <= usize::MAX,
            steps_view(steps@) == before_states + blocks_steps(all.subrange(0, k as int)),
            forall|i: int| 0 <= i < all.len() ==> block_paths_named(#[trigger] all[i]),
        decreases rest@.len(),
    {
        let ghost before = rest@;
        let b = rest.remove(0);
        let ghost bv = all[k as int];
        assert(b@ == bv) by {
            assert(before.map_values(|b: StateBlock| b@)[0] == all.subrange(k as int, n as int)[0]);
        };
        proof {
            assert forall|i: int| 0 <= i < rest@.len() implies #[trigger] rest@[i]@ == all[k + 1 + i] by {
                assert(rest@[i] == before[i + 1]);
                assert(before.map_values(|b: StateBlock| b@)[i + 1] == all.subrange(k as int, n as int)[i + 1]);
            }
            assert(rest@.map_values(|b: StateBlock| b@) =~= all.subrange(k + 1, n as int));
        }
        expand_block(&mut steps, b);
        proof {
            let pre = all.subrange(0, k + 1);
            assert(pre.drop_last() =~= all.subrange(0, k as int));
            assert(pre.last() == bv);
            assert(blocks_steps(pre) == blocks_steps(all.subrange(0, k as int)) + block_steps(bv));
            assert(steps_view(steps@) =~= before_states + blocks_steps(pre));
        }
        k = k + 1;
    }
    push_step(&mut steps, BuildStep::Build);
    proof {
        assert(all.subrange(0, n as int) =~= all);
        assert(steps_view(steps@) =~= spec_expand(v));
    }
    steps
}

/// A name as a string literal.
pub open spec fn quoted(n: Seq<char>) -> Seq<char> {
    "\""@ + n + "\""@
}

/// The items that the source of an expansion declares before the builder: a boxed future,
/// the four handler types (shared async closures over the description's state, event,
/// context and action types, named `DslState`, `DslEvent`, `DslContext` and `DslAction`),
/// and a function per handler type that boxes a closure as that type.
pub open spec fn handler_items() -> Seq<char> {
    "type DslFuture<'a, T> = ::std::pin::Pin<::std::boxed::Box<dyn ::std::future::Future<Output = ::obzenflow_fsm::FsmResult<T>> + ::std::marker::Send + 'a>>; type DslTransitionHandler = ::std::sync::Arc<dyn for<'a> Fn(&'a DslState, &'a DslEvent, &'a mut DslContext) -> DslFuture<'a, ::obzenflow_fsm::Transition<DslState, DslAction>> + ::std::marker::Send + ::std::marker::Sync>; type DslStateHandler = ::std::sync::Arc<dyn for<'a> Fn(&'a DslState, &'a mut DslContext) -> DslFuture<'a, ::std::vec::Vec<DslAction>> + ::std::marker::Send + ::std::marker::Sync>; type DslTimeoutHandler = ::std::sync::Arc<dyn for<'a> Fn(&'a DslState, &'a mut DslContext) -> DslFuture<'a, ::obzenflow_fsm::Transition<DslState, DslAction>> + ::std::marker::Send + ::std::marker::Sync>; type DslUnhandledHandler = ::std::sync::Arc<dyn for<'a> Fn(&'a DslState, &'a DslEvent, &'a mut DslContext) -> DslFuture<'a, ()> + ::std::marker::Send + ::std::marker::Sync>; fn dsl_transition_handler<F>(f: F) -> DslTransitionHandler where F: for<'a> Fn(&'a DslState, &'a DslEvent, &'a mut DslContext) -> DslFuture<'a, ::obzenflow_fsm::Transition<DslState, DslAction>> + ::std::marker::Send + ::std::marker::Sync + 'static { ::std::sync::Arc::new(f) } fn dsl_state_handler<F>(f: F) -> DslStateHandler where F: for<'a> Fn(&'a DslState, &'a mut DslContext) -> DslFuture<'a, ::std::vec::Vec<DslAction>> + ::std::marker::Send + ::std::marker::Sync + 'static { ::std::sync::Arc::new(f) } fn dsl_timeout_handler<F>(f: F) -> DslTimeoutHandler where F: for<'a> Fn(&'a DslState, &'a mut DslContext) -> DslFuture<'a, ::obzenflow_fsm::Transition<DslState, DslAction>> + ::std::marker::Send + ::std::marker::Sync + 'static { ::std::sync::Arc::new(f) } fn dsl_unhandled_handler<F>(f: F) -> DslUnhandledHandler where F: for<'a> Fn(&'a DslState, &'a DslEvent, &'a mut DslContext) -> DslFuture<'a, ()> + ::std::marker::Send + ::std::marker::Sync + 'static { ::std::sync::Arc::new(f) } "@
}

/// The Rust source of one builder call, on a builder held in the variable `builder`. The
/// first call opens a block that names the description's types, declares the handler
/// types ([`handler_items`]) and makes the builder; each handler is boxed as its type; the
/// last call builds the machine, panicking with the builder's error as `build` does, and
/// closes the block.
pub open spec fn step_source(s: StepView) -> Seq<char> {
    match s {
        StepView::New { state_ty, event_ty, context_ty, action_ty, initial } =>
            "{ type DslState = "@ + source_text(state_ty) + "; type DslEvent = "@ + source_text(
            event_ty) + "; type DslContext = "@ + source_text(context_ty) + "; type DslAction = "@
            + source_text(action_ty) + "; "@ + handler_items()
            + "let mut builder = ::obzenflow_fsm::internal::FsmBuilder::<DslState, DslTransitionHandler, DslStateHandler, DslTimeoutHandler, DslUnhandledHandler>::new("@ + source_text(initial) + "); "@,
        StepView::WhenUnhandled(h) => "builder = builder.when_unhandled(dsl_unhandled_handler("@
            + source_text(h) + ")); "@,
        StepView::OnEntry(n, h) => "builder = builder.on_entry("@ + quoted(n)
            + ", dsl_state_handler("@ + source_text(h) + ")); "@,
        StepView::OnExit(n, h) => "builder = builder.on_exit("@ + quoted(n)
            + ", dsl_state_handler("@ + source_text(h) + ")); "@,
        StepView::When(n) => "builder = builder.when("@ + quoted(n) + ")"@,
        StepView::Timeout(d, h) => ".timeout("@ + source_text(d) + ", dsl_timeout_handler("@
            + source_text(h) + "))"@,
        StepView::On(n, h) => ".on("@ + quoted(n) + ", dsl_transition_handler("@ + source_text(h)
            + "))"@,
        StepView::Done => ".done(); "@,
        StepView::Build => "builder.try_build().expect(\"FsmBuilder::build failed\") }"@,
    }
}

/// The Rust source of the builder calls `steps`, one after another: for an expansion, a
/// block expression whose value is the built machine.
pub open spec fn steps_source(steps: Seq<StepView>) -> Seq<char>
    decreases steps.len(),
{
    if steps.len() == 0 {
        Seq::empty()
    } else {
        steps_source(steps.drop_last()) + step_source(steps.last())
    }
}

/// Appends a name as a string literal.
fn append_quoted(out: &mut String, n: &String)
    ensures
        final(out)@ == old(out)@ + quoted(n@),
{
    out.append("\"");
    out.append(n.as_str());
    out.append("\"");
    assert(final(out)@ =~= old(out)@ + quoted(n@));
}

/// Appends the items that the source of an expansion declares before the builder.
fn append_handler_items(out: &mut String)
    ensures
        final(out)@ == old(out)@ + handler_items(),
{
    out.append("type DslFuture<'a, T> = ::std::pin::Pin<::std::boxed::Box<dyn ::std::future::Future<Output = ::obzenflow_fsm::FsmResult<T>> + ::std::marker::Send + 'a>>; type DslTransitionHandler = ::std::sync::Arc<dyn for<'a> Fn(&'a DslState, &'a DslEvent, &'a mut DslContext) -> DslFuture<'a, ::obzenflow_fsm::Transition<DslState, DslAction>> + ::std::marker::Send + ::std::marker::Sync>; type DslStateHandler = ::std::sync::Arc<dyn for<'a> Fn(&'a DslState, &'a mut DslContext) -> DslFuture<'a, ::std::vec::Vec<DslAction>> + ::std::marker::Send + ::std::marker::Sync>; type DslTimeoutHandler = ::std::sync::Arc<dyn for<'a> Fn(&'a DslState, &'a mut DslContext) -> DslFuture<'a, ::obzenflow_fsm::Transition<DslState, DslAction>> + ::std::marker::Send + ::std::marker::Sync>; type DslUnhandledHandler = ::std::sync::Arc<dyn for<'a> Fn(&'a DslState, &'a DslEvent, &'a mut DslContext) -> DslFuture<'a, ()> + ::std::marker::Send + ::std::marker::Sync>; fn dsl_transition_handler<F>(f: F) -> DslTransitionHandler where F: for<'a> Fn(&'a DslState, &'a DslEvent, &'a mut DslContext) -> DslFuture<'a, ::obzenflow_fsm::Transition<DslState, DslAction>> + ::std::marker::Send + ::std::marker::Sync + 'static { ::std::sync::Arc::new(f) } fn dsl_state_handler<F>(f: F) -> DslStateHandler where F: for<'a> Fn(&'a DslState, &'a mut DslContext) -> DslFuture<'a, ::std::vec::Vec<DslAction>> + ::std::marker::Send + ::std::marker::Sync + 'static { ::std::sync::Arc::new(f) } fn dsl_timeout_handler<F>(f: F) -> DslTimeoutHandler where F: for<'a> Fn(&'a DslState, &'a mut DslContext) -> DslFuture<'a, ::obzenflow_fsm::Transition<DslState, DslAction>> + ::std::marker::Send + ::std::marker::Sync + 'static { ::std::sync::Arc::new(f) } fn dsl_unhandled_handler<F>(f: F) -> DslUnhandledHandler where F: for<'a> Fn(&'a DslState, &'a DslEvent, &'a mut DslContext) -> DslFuture<'a, ()> + ::std::marker::Send + ::std::marker::Sync + 'static { ::std::sync::Arc::new(f) } ");
}

/// Appends the source of one builder call.
fn append_step(out: &mut String, step: &BuildStep)
    ensures
        final(out)@ == old(out)@ + step_source(step@),
{
    let ghost start = out@;
    match step {
        BuildStep::New { state_ty, event_ty, context_ty, action_ty, initial } => {
            out.append("{ type DslState = ");
            render_into(state_ty, out);
            out.append("; type DslEvent = ");
            render_into(event_ty, out);
            out.append("; type DslContext = ");
            render_into(context_ty, out);
            out.append("; type DslAction = ");
            render_into(action_ty, out);
            out.append("; ");
            append_handler_items(out);
            out.append("let mut builder = ::obzenflow_fsm::internal::FsmBuilder::<DslState, DslTransitionHandler, DslStateHandler, DslTimeoutHandler, DslUnhandledHandler>::new(");
            render_into(initial, out);
            out.append("); ");
        },
        BuildStep::WhenUnhandled(h) => {
            out.append("builder = builder.when_unhandled(dsl_unhandled_handler(");
            render_into(h, out);
            out.append(")); ");
        },
        BuildStep::OnEntry(n, h) => {
            out.append("builder = builder.on_entry(");
            append_quoted(out, n);
            out.append(", dsl_state_handler(");
            render_into(h, out);
            out.append(")); ");
        },
        BuildStep::OnExit(n, h) => {
            out.append("builder = builder.on_exit(");
            append_quoted(out, n);
            out.append(", dsl_state_handler(");
            render_into(h, out);
            out.append(")); ");
        },
        BuildStep::When(n) => {
            out.append("builder = builder.when(");
            append_quoted(out, n);
            out.append(")");
        },
        BuildStep::Timeout(d, h) => {
            out.append(".timeout(");
            render_into(d, out);
            out.append(", dsl_timeout_handler(");
            render_into(h, out);
            out.append("))");
        },
        BuildStep::On(n, h) => {
            out.append(".on(");
            append_quoted(out, n);
            out.append(", dsl_transition_handler(");
            render_into(h, out);
            out.append("))");
        },
        BuildStep::Done => out.append(".done(); "),
        BuildStep::Build => out.append("builder.try_build().expect(\"FsmBuilder::build failed\") }"),
    }
    assert(out@ =~= start + step_source(step@));
}

/// The Rust source of the builder calls `steps`: for the calls of an expansion, a block
/// expression that assembles the machine through the builder and builds it.
pub fn render_steps(steps: &Vec<BuildStep>) -> (s: String)
    ensures
        s@ == steps_source(steps_view(steps@)),
{
    let mut out = String::new();
    let mut k: usize = 0;
    assert(steps_view(steps@.subrange(0, 0)) =~= Seq::<StepView>::empty());
    while k < steps.len()
        invariant
            k <= steps@.len(),
            out@ == steps_source(steps_view(steps@.subrange(0, k as int))),
        decreases steps@.len() - k,
    {
        append_step(&mut out, &steps[k]);
        proof {
            let pre = steps_view(steps@.subrange(0, k + 1));
            assert(pre.drop_last() =~= steps_view(steps@.subrange(0, k as int)));
            assert(pre.last() == steps@[k as int]@);
        }
        k = k + 1;
    }
    assert(steps@.subrange(0, k as int) =~= steps@);
    out
}

/// The `fsm!` description language: parses the tokens of a description and expands it into
/// the builder calls that assemble its machine, or reports the first error. Whatever the
/// tokens, a result is the expansion of a description whose paths all have names.
pub fn fsm(tokens: Vec<Token>) -> (r: Result<Vec<BuildStep>, ParseError>)
    ensures
        r matches Ok(steps) ==> exists|v: FsmSpecView|
            paths_named(v) && steps_view(steps@) == #[trigger] spec_expand(v),
        tokens_ascii(tokens@) ==> match spec_parse(tokens@) {
            Ok(v) => r matches Ok(steps) && steps_view(steps@) == spec_expand(v),
            Err(m) => r matches Err(e) && e.message@ == m,
        },
{
    match FsmSpec::parse(tokens) {
        Ok(spec) => Ok(expand_fsm_spec(spec)),
        Err(e) => Err(e),
    }
}

/// A builder whose handlers are the description's fragments.
pub type FragmentBuilder<S> = BuilderView<S, Seq<Token>, Seq<Token>, Seq<Token>, Seq<Token>>;

/// One builder call on builder `b`, where `scope` is the state that the last `when` named
/// and `nanos` gives the nanoseconds that a duration expression evaluates to: `when`
/// changes the scope; `on` registers a transition handler for the scope's state, as
/// [`crate::builder::WhenBuilder::on`] and [`crate::builder::TimeoutBuilder::on`] do;
/// `timeout` sets the scope's timeout; `on_entry`, `on_exit` and `when_unhandled` set their
/// hooks. Returns the builder and the scope after the call.
pub open spec fn apply_step<S>(
    step: StepView,
    b: FragmentBuilder<S>,
    scope: Seq<char>,
    nanos: spec_fn(Seq<Token>) -> u128,
) -> (FragmentBuilder<S>, Seq<char>) {
    match step {
        StepView::When(n) => (b, n),
        StepView::On(e, h) => (b.register((scope, e), h), scope),
        StepView::Timeout(d, h) => (b.with_timeout(scope, nanos(d), h), scope),
        StepView::OnEntry(n, h) => (BuilderView { entry: b.entry.insert(n, h), ..b }, scope),
        StepView::OnExit(n, h) => (BuilderView { exit: b.exit.insert(n, h), ..b }, scope),
        StepView::WhenUnhandled(h) => (BuilderView { unhandled: Some(h), ..b }, scope),
        _ => (b, scope),
    }
}

/// The builder calls `steps` run one after another on builder `b` from `scope` (see
/// [`apply_step`]). Returns the builder and the scope after the calls.
pub open spec fn register_steps<S>(
    steps: Seq<StepView>,
    b: FragmentBuilder<S>,
    scope: Seq<char>,
    nanos: spec_fn(Seq<Token>) -> u128,
) -> (FragmentBuilder<S>, Seq<char>)
    decreases steps.len(),
{
    if steps.len() == 0 {
        (b, scope)
    } else {
        let (b1, sc1) = apply_step(steps[0], b, scope, nanos);
        register_steps(steps.drop_first(), b1, sc1, nanos)
    }
}

proof fn lemma_register_steps_append<S>(
    s1: Seq<StepView>,
    s2: Seq<StepView>,
    b: FragmentBuilder<S>,
    scope: Seq<char>,
    nanos: spec_fn(Seq<Token>) -> u128,
)
    ensures
        register_steps(s1 + s2, b, scope, nanos) == ({
            let (b1, sc1) = register_steps(s1, b, scope, nanos);
            register_steps(s2, b1, sc1, nanos)
        }),
    decreases s1.len(),
{
    if s1.len() == 0 {
        assert(s1 + s2 =~= s2);
    } else {
        assert((s1 + s2).drop_first() =~= s1.drop_first() + s2);
        assert((s1 + s2)[0] == s1[0]);
        let (b1, sc1) = apply_step(s1[0], b, scope, nanos);
        lemma_register_steps_append(s1.drop_first(), s2, b1, sc1, nanos);
    }
}

/// The calls of a single step.
proof fn lemma_register_one<S>(
    step: StepView,
    b: FragmentBuilder<S>,
    scope: Seq<char>,
    nanos: spec_fn(Seq<Token>) -> u128,
)
    ensures
        register_steps(seq![step], b, scope, nanos) == apply_step(step, b, scope, nanos),
{
    assert(seq![step].drop_first() =~= Seq::<StepView>::empty());
    reveal_with_fuel(register_steps, 2);
}

/// `b2` keeps every key of `b1`'s tables, and its unhandled-event hook.
pub open spec fn keeps_keys<S>(b1: FragmentBuilder<S>, b2: FragmentBuilder<S>) -> bool {
    &&& forall|k: (Seq<char>, Seq<char>)|
        #[trigger] b1.transitions.contains_key(k) ==> b2.transitions.contains_key(k)
    &&& forall|n: Seq<char>| #[trigger] b1.entry.contains_key(n) ==> b2.entry.contains_key(n)
    &&& forall|n: Seq<char>| #[trigger] b1.exit.contains_key(n) ==> b2.exit.contains_key(n)
    &&& forall|n: Seq<char>| #[trigger] b1.timeouts.contains_key(n) ==> b2.timeouts.contains_key(n)
}

/// No call of `steps` sets the unhandled-event hook.
pub open spec fn sets_no_unhandled(steps: Seq<StepView>) -> bool {
    forall|i: int| 0 <= i < steps.len() ==> !(#[trigger] steps[i] is WhenUnhandled)
}

proof fn lemma_register_steps_keeps_keys<S>(
    steps: Seq<StepView>,
    b: FragmentBuilder<S>,
    scope: Seq<char>,
    nanos: spec_fn(Seq<Token>) -> u128,
)
    ensures
        keeps_keys(b, register_steps(steps, b, scope, nanos).0),
        sets_no_unhandled(steps) ==> register_steps(steps, b, scope, nanos).0.unhandled
            == b.unhandled,
    decreases steps.len(),
{
    if steps.len() > 0 {
        let (b1, sc1) = apply_step(steps[0], b, scope, nanos);
        lemma_register_steps_keeps_keys(steps.drop_first(), b1, sc1, nanos);
        let b2 = register_steps(steps.drop_first(), b1, sc1, nanos).0;
        assert(keeps_keys(b, b1)) by {
            assert forall|k: (Seq<char>, Seq<char>)| #[trigger] b.transitions.contains_key(k)
                implies b1.transitions.contains_key(k) by {
                if let StepView::On(e, h) = steps[0] {
                    assert(b1.transitions == b.transitions.insert((scope, e), h));
                }
            }
        }
        assert(keeps_keys(b, b2));
        if sets_no_unhandled(steps) {
            assert(!(steps[0] is WhenUnhandled));
            assert forall|i: int| 0 <= i < steps.drop_first().len() implies !(
            #[trigger] steps.drop_first()[i] is WhenUnhandled) by {
                assert(steps.drop_first()[i] == steps[i + 1]);
            }
        }
    }
}

proof fn lemma_on_steps_register<S>(
    hs: Seq<OnHandlerView>,
    b: FragmentBuilder<S>,
    scope: Seq<char>,
    nanos: spec_fn(Seq<Token>) -> u128,
)
    ensures
        register_steps(on_steps(hs), b, scope, nanos).1 == scope,
        forall|j: int|
            0 <= j < hs.len() ==> register_steps(
                on_steps(hs),
                b,
                scope,
                nanos,
            ).0.transitions.contains_key((scope, name_of(#[trigger] hs[j].event_path))),
    decreases hs.len(),
{
    if hs.len() > 0 {
        let init = hs.drop_last();
        let h = hs.last();
        let last = seq![StepView::On(name_of(h.event_path), h.handler)];
        assert(on_steps(hs) =~= on_steps(init) + last);
        lemma_on_steps_register(init, b, scope, nanos);
        lemma_register_steps_append(on_steps(init), last, b, scope, nanos);
        let (b1, sc1) = register_steps(on_steps(init), b, scope, nanos);
        lemma_register_one(StepView::On(name_of(h.event_path), h.handler), b1, sc1, nanos);
        assert forall|j: int| 0 <= j < hs.len() implies register_steps(
            on_steps(hs),
            b,
            scope,
            nanos,
        ).0.transitions.contains_key((scope, name_of(#[trigger] hs[j].event_path))) by {
            if j < hs.len() - 1 {
                assert(hs[j] == init[j]);
                assert(b1.transitions.contains_key((scope, name_of(init[j].event_path))));
            }
        }
    }
}

/// What running a state block's calls registers: a transition handler for each `on`
/// clause, its entry and exit hooks and its timeout where it has them, under the names of
/// its state and events; the unhandled-event hook is left alone.
pub open spec fn block_registered<S>(blk: StateBlockView, b: FragmentBuilder<S>) -> bool {
    let name = name_of(blk.state_path);
    &&& forall|j: int|
        0 <= j < blk.handlers.len() ==> b.transitions.contains_key(
            (name, name_of(#[trigger] blk.handlers[j].event_path)),
        )
    &&& blk.entry is Some ==> b.entry.contains_key(name)
    &&& blk.exit is Some ==> b.exit.contains_key(name)
    &&& blk.timeout is Some ==> b.timeouts.contains_key(name)
}

/// A builder that keeps the keys of one in which a block is registered has it registered.
proof fn lemma_block_registered_kept<S>(
    blk: StateBlockView,
    b1: FragmentBuilder<S>,
    b2: FragmentBuilder<S>,
)
    requires
        block_registered(blk, b1),
        keeps_keys(b1, b2),
    ensures
        block_registered(blk, b2),
{
    let name = name_of(blk.state_path);
    assert forall|j: int| 0 <= j < blk.handlers.len() implies b2.transitions.contains_key(
        (name, name_of(#[trigger] blk.handlers[j].event_path)),
    ) by {
        assert(b1.transitions.contains_key((name, name_of(blk.handlers[j].event_path))));
    }
}

proof fn lemma_block_steps_register<S>(
    blk: StateBlockView,
    b: FragmentBuilder<S>,
    scope: Seq<char>,
    nanos: spec_fn(Seq<Token>) -> u128,
)
    ensures
        block_registered(blk, register_steps(block_steps(blk), b, scope, nanos).0),
        register_steps(block_steps(blk), b, scope, nanos).0.unhandled == b.unhandled,
{
    let name = name_of(blk.state_path);
    let entry = match blk.entry {
        Some(h) => seq![StepView::OnEntry(name, h)],
        None => Seq::empty(),
    };
    let exit = match blk.exit {
        Some(h) => seq![StepView::OnExit(name, h)],
        None => Seq::empty(),
    };
    let timeout = match blk.timeout {
        Some(t) => seq![StepView::Timeout(t.duration, t.handler)],
        None => Seq::empty(),
    };
    let when = seq![StepView::When(name)];
    let ons = on_steps(blk.handlers);
    let done = seq![StepView::Done];
    assert(block_steps(blk) =~= entry + (exit + (when + (timeout + (ons + done)))));
    // entry
    lemma_register_steps_append(entry, exit + (when + (timeout + (ons + done))), b, scope, nanos);
    let (b1, sc1) = register_steps(entry, b, scope, nanos);
    if let Some(h) = blk.entry {
        lemma_register_one(StepView::OnEntry(name, h), b, scope, nanos);
    } else {
        assert(entry =~= Seq::<StepView>::empty());
    }
    assert(blk.entry is Some ==> b1.entry.contains_key(name));
    assert(sc1 == scope);
    // exit
    lemma_register_steps_append(exit, when + (timeout + (ons + done)), b1, sc1, nanos);
    let (b2, sc2) = register_steps(exit, b1, sc1, nanos);
    if let Some(h) = blk.exit {
        lemma_register_one(StepView::OnExit(name, h), b1, sc1, nanos);
    } else {
        assert(exit =~= Seq::<StepView>::empty());
    }
    assert(blk.exit is Some ==> b2.exit.contains_key(name));
    assert(blk.entry is Some ==> b2.entry.contains_key(name));
    // when
    lemma_register_steps_append(when, timeout + (ons + done), b2, sc2, nanos);
    lemma_register_one(StepView::When(name), b2, sc2, nanos);
    let (b3, sc3) = register_steps(when, b2, sc2, nanos);
    assert(b3 == b2 && sc3 == name);
    // timeout
    lemma_register_steps_append(timeout, ons + done, b3, sc3, nanos);
    let (b4, sc4) = register_steps(timeout, b3, sc3, nanos);
    if let Some(t) = blk.timeout {
        lemma_register_one(StepView::Timeout(t.duration, t.handler), b3, sc3, nanos);
    } else {
        assert(timeout =~= Seq::<StepView>::empty());
    }
    assert(sc4 == name);
    assert(keeps_keys(b3, b4));
    assert(blk.timeout is Some ==> b4.timeouts.contains_key(name));
    assert(b4.unhandled == b.unhandled);
    // on clauses and done
    lemma_register_steps_append(ons, done, b4, sc4, nanos);
    lemma_on_steps_register(blk.handlers, b4, name, nanos);
    let (b5, sc5) = register_steps(ons, b4, sc4, nanos);
    lemma_register_steps_keeps_keys(ons, b4, sc4, nanos);
    assert(sets_no_unhandled(ons));
    lemma_register_one(StepView::Done, b5, sc5, nanos);
    assert(block_registered(blk, b5));
}

/// Every call of a state block's expansion leaves the unhandled-event hook alone.
proof fn lemma_blocks_set_no_unhandled(bs: Seq<StateBlockView>)
    ensures
        sets_no_unhandled(blocks_steps(bs)),
    decreases bs.len(),
{
    if bs.len() > 0 {
        lemma_blocks_set_no_unhandled(bs.drop_last());
        let blk = bs.last();
        let s1 = blocks_steps(bs.drop_last());
        let s2 = block_steps(blk);
        assert(sets_no_unhandled(on_steps(blk.handlers)));
        assert(sets_no_unhandled(s2));
        assert forall|i: int| 0 <= i < (s1 + s2).len() implies !(#[trigger] (s1 + s2)[i] is WhenUnhandled) by {
            if i < s1.len() {
                assert((s1 + s2)[i] == s1[i]);
            } else {
                assert((s1 + s2)[i] == s2[i - s1.len()]);
            }
        }
    }
}

proof fn lemma_blocks_steps_register<S>(
    bs: Seq<StateBlockView>,
    b: FragmentBuilder<S>,
    scope: Seq<char>,
    nanos: spec_fn(Seq<Token>) -> u128,
)
    ensures
        forall|i: int|
            0 <= i < bs.len() ==> block_registered(
                #[trigger] bs[i],
                register_steps(blocks_steps(bs), b, scope, nanos).0,
            ),
        register_steps(blocks_steps(bs), b, scope, nanos).0.unhandled == b.unhandled,
    decreases bs.len(),
{
    lemma_blocks_set_no_unhandled(bs);
    lemma_register_steps_keeps_keys(blocks_steps(bs), b, scope, nanos);
    if bs.len() > 0 {
        let init = bs.drop_last();
        lemma_blocks_steps_register(init, b, scope, nanos);
        lemma_register_steps_append(blocks_steps(init), block_steps(bs.last()), b, scope, nanos);
        let (b1, sc1) = register_steps(blocks_steps(init), b, scope, nanos);
        lemma_block_steps_register(bs.last(), b1, sc1, nanos);
        lemma_register_steps_keeps_keys(block_steps(bs.last()), b1, sc1, nanos);
        let b2 = register_steps(block_steps(bs.last()), b1, sc1, nanos).0;
        assert forall|i: int| 0 <= i < bs.len() implies block_registered(#[trigger] bs[i], b2) by {
            if i < bs.len() - 1 {
                assert(bs[i] == init[i]);
                lemma_block_registered_kept(init[i], b1, b2);
            }
        }
    }
}

/// Running a description's expansion on a builder registers every clause under the names
/// of its state and event: each `on` clause's transition handler, each state's entry and
/// exit hooks and timeout where it has them, and the unhandled-event hook where the
/// description has one (and no other).
pub proof fn lemma_expansion_registers_every_clause<S>(
    v: FsmSpecView,
    b: FragmentBuilder<S>,
    scope: Seq<char>,
    nanos: spec_fn(Seq<Token>) -> u128,
)
    ensures
        ({
            let built = register_steps(spec_expand(v), b, scope, nanos).0;
            &&& forall|i: int| 0 <= i < v.states.len() ==> block_registered(#[trigger] v.states[i], built)
            &&& built.unhandled == match v.unhandled {
                Some(h) => Some(h),
                None => b.unhandled,
            }
        }),
{
    let header = seq![
        StepView::New {
            state_ty: v.state_ty,
            event_ty: v.event_ty,
            context_ty: v.context_ty,
            action_ty: v.action_ty,
            initial: v.initial_expr,
        },
    ];
    let unhandled = match v.unhandled {
        Some(h) => seq![StepView::WhenUnhandled(h)],
        None => Seq::empty(),
    };
    let build = seq![StepView::Build];
    assert(spec_expand(v) =~= header + (unhandled + (blocks_steps(v.states) + build)));
    lemma_register_steps_append(header, unhandled + (blocks_steps(v.states) + build), b, scope, nanos);
    lemma_register_one(header[0], b, scope, nanos);
    assert(header =~= seq![header[0]]);
    let (b1, sc1) = register_steps(header, b, scope, nanos);
    assert(b1 == b);
    lemma_register_steps_append(unhandled, blocks_steps(v.states) + build, b1, sc1, nanos);
    let (b2, sc2) = register_steps(unhandled, b1, sc1, nanos);
    if let Some(h) = v.unhandled {
        lemma_register_one(StepView::WhenUnhandled(h), b1, sc1, nanos);
    } else {
        assert(unhandled =~= Seq::<StepView>::empty());
    }
    lemma_register_steps_append(blocks_steps(v.states), build, b2, sc2, nanos);
    lemma_blocks_steps_register(v.states, b2, sc2, nanos);
    let (b3, sc3) = register_steps(blocks_steps(v.states), b2, sc2, nanos);
    lemma_register_one(StepView::Build, b3, sc3, nanos);
}

} // verus!
