//! The grammar of the `fsm!` description language.
//!
//! ```text
//! description := header(state) header(event) header(context) header(action) header(initial)
//!                item*
//! header(k)   := k ":" fragment ";"
//! item        := "state" path "{" state-item* "}"
//!              | "unhandled" "=>" fragment ";"
//! state-item  := "on" path "=>" fragment ";"
//!              | "timeout" fragment "=>" fragment ";"
//!              | "on_entry" fragment ";"
//!              | "on_exit" fragment ";"
//! ```
//!
//! A fragment is a non-empty run of token trees that `syn` accepts as a Rust type, expression
//! or path, as its place requires. It ends at the first `;` (or, before `=>`, at the first
//! `=>`); groups are single tokens, so a `;` or `=>` inside parentheses or braces does not
//! end it. A path must also have a name: an identifier outside generic arguments (the last
//! one names it). A state may declare at most one `timeout`, one `on_entry` and one
//! `on_exit`, and the description at most one `unhandled` hook. The token trees inside a
//! state's braces are parsed as its clauses.

use vstd::prelude::*;

use crate::dsl::syntax::{
    accepts_expr, accepts_ident, accepts_path, accepts_type, syn_accepts_expr,
    syn_accepts_ident, syn_accepts_path, syn_accepts_type,
};
use crate::dsl::token::{
    arrow_at, has_arrow_at, is_brace_group, is_ident, is_punct, lemma_group_ascii,
    lemma_ident_ascii, lemma_tokens_ascii, lemma_tokens_ascii_subrange, render, source_text,
    token_ascii, token_is_ident, token_is_punct, tokens_ascii, Delimiter, Token,
};

verus! {

/// What ends a fragment.
#[derive(Clone, Copy, Debug, PartialEq, Eq)]
pub enum Stop {
    /// A `;`.
    Semi,
    /// A `=>`, or a `;` that comes first.
    ArrowOrSemi,
    /// A brace group, or a `;` that comes first.
    BraceOrSemi,
}

/// A fragment stops at position `i` of `s`.
pub open spec fn stops_at(stop: Stop, s: Seq<Token>, i: int) -> bool {
    is_punct(s[i], ';') || match stop {
        Stop::Semi => false,
        Stop::ArrowOrSemi => arrow_at(s, i),
        Stop::BraceOrSemi => is_brace_group(s[i]),
    }
}

/// The position of the first stop in `s`, or `s.len()` when there is none.
pub open spec fn first_stop(stop: Stop, s: Seq<Token>) -> nat
    decreases s.len(),
{
    if s.len() == 0 {
        0
    } else if stops_at(stop, s, 0) {
        0
    } else {
        1 + first_stop(stop, s.drop_first())
    }
}

proof fn lemma_stops_at_shift(stop: Stop, s: Seq<Token>, k: int)
    requires
        0 <= k < s.len(),
    ensures
        stops_at(stop, s.subrange(k, s.len() as int), 0) == stops_at(stop, s, k),
{
    let t = s.subrange(k, s.len() as int);
    assert(t[0] == s[k]);
    if k + 1 < s.len() {
        assert(t[1] == s[k + 1]);
    }
}

/// What a fragment must be.
#[derive(Clone, Copy, Debug, PartialEq, Eq)]
pub enum Fragment {
    /// A Rust type.
    Type,
    /// A Rust expression.
    Expr,
    /// A Rust path with a name (see [`path_name`]).
    Path,
}

/// The error for a fragment that is not what it must be.
pub open spec fn fragment_error(kind: Fragment) -> Seq<char> {
    match kind {
        Fragment::Type => "expected a type"@,
        Fragment::Expr => "expected an expression"@,
        Fragment::Path => "expected a path"@,
    }
}

/// `f` is a fragment of kind `kind`, as `syn` judges its source text.
pub open spec fn fragment_accepted(kind: Fragment, f: Seq<Token>) -> bool {
    &&& f.len() > 0
    &&& match kind {
        Fragment::Type => syn_accepts_type(source_text(f)),
        Fragment::Expr => syn_accepts_expr(source_text(f)),
        Fragment::Path => syn_accepts_path(source_text(f)) && path_name(f) is Some,
    }
}

/// A fragment of kind `kind` up to the next `;`, which is consumed; an error when there is
/// no `;`, or when what precedes it is not of that kind.
pub open spec fn spec_until_semi(s: Seq<Token>, kind: Fragment) -> Result<
    (Seq<Token>, Seq<Token>),
    Seq<char>,
> {
    let j = first_stop(Stop::Semi, s) as int;
    if j >= s.len() {
        Err("expected `;`"@)
    } else if !fragment_accepted(kind, s.subrange(0, j)) {
        Err(fragment_error(kind))
    } else {
        Ok((s.subrange(0, j), s.subrange(j + 1, s.len() as int)))
    }
}

/// A fragment of kind `kind` up to the next `=>`, which is consumed; an error when a `;` or
/// the end comes first, or when what precedes it is not of that kind.
pub open spec fn spec_until_arrow(s: Seq<Token>, kind: Fragment) -> Result<
    (Seq<Token>, Seq<Token>),
    Seq<char>,
> {
    let j = first_stop(Stop::ArrowOrSemi, s) as int;
    if j >= s.len() || !arrow_at(s, j) {
        Err("expected `=>`"@)
    } else if !fragment_accepted(kind, s.subrange(0, j)) {
        Err(fragment_error(kind))
    } else {
        Ok((s.subrange(0, j), s.subrange(j + 2, s.len() as int)))
    }
}

/// The name of a path: its last identifier outside generic arguments (`<` ... `>`, where a
/// `>` that follows a joined `-` closes nothing), scanning from nesting `depth`, with `found`
/// the last such identifier before `s`.
pub open spec fn name_from(
    s: Seq<Token>,
    depth: nat,
    after_dash: bool,
    found: Option<Seq<char>>,
) -> Option<Seq<char>>
    decreases s.len(),
{
    if s.len() == 0 {
        found
    } else {
        let t = s[0];
        let rest = s.drop_first();
        let dash = t matches Token::Punct(c, joint) && c == '-' && joint;
        if is_punct(t, '<') {
            name_from(rest, depth + 1, dash, found)
        } else if is_punct(t, '>') && !after_dash {
            name_from(rest, if depth > 0 { (depth - 1) as nat } else { 0 }, dash, found)
        } else if depth == 0 && t is Ident {
            name_from(rest, depth, dash, Some(t->Ident_0@))
        } else {
            name_from(rest, depth, dash, found)
        }
    }
}

/// The name of the path `s`, if it has one.
pub open spec fn path_name(s: Seq<Token>) -> Option<Seq<char>> {
    name_from(s, 0, false, None)
}

/// No `<` occurs in `s`: a path without generic arguments.
pub open spec fn no_generic_args(s: Seq<Token>) -> bool {
    forall|i: int| 0 <= i < s.len() ==> !is_punct(#[trigger] s[i], '<')
}

proof fn lemma_name_from_last_ident(s: Seq<Token>, after_dash: bool, found: Option<Seq<char>>)
    requires
        s.len() > 0,
        no_generic_args(s),
        s.last() is Ident,
    ensures
        name_from(s, 0, after_dash, found) == Some(s.last()->Ident_0@),
    decreases s.len(),
{
    let t = s[0];
    let rest = s.drop_first();
    let dash = t matches Token::Punct(c, joint) && c == '-' && joint;
    assert(!is_punct(s[0], '<'));
    if s.len() == 1 {
        assert(rest.len() == 0);
        assert(t == s.last());
    } else {
        assert(rest.last() == s.last());
        assert forall|i: int| 0 <= i < rest.len() implies !is_punct(#[trigger] rest[i], '<') by {
            assert(rest[i] == s[i + 1]);
        }
        let f2 = if t is Ident { Some(t->Ident_0@) } else { found };
        lemma_name_from_last_ident(rest, dash, f2);
        lemma_name_from_last_ident(rest, dash, found);
    }
}

/// A path without generic arguments is named by its last segment: when it ends in an
/// identifier, that identifier is its name, whatever precedes it (`Idle`, `State::Idle`,
/// `crate::state::State::Idle` are all named `Idle`).
pub proof fn lemma_path_named_by_last_segment(s: Seq<Token>)
    requires
        s.len() > 0,
        no_generic_args(s),
        s.last() is Ident,
    ensures
        path_name(s) == Some(s.last()->Ident_0@),
{
    lemma_name_from_last_ident(s, false, None);
}

/// An `on` clause: the event's path and the handler.
#[verifier::ext_equal]
pub struct OnHandlerView {
    pub event_path: Seq<Token>,
    pub handler: Seq<Token>,
}

/// A `timeout` clause: the duration and the handler.
#[verifier::ext_equal]
pub struct TimeoutView {
    pub duration: Seq<Token>,
    pub handler: Seq<Token>,
}

/// A `state` block.
#[verifier::ext_equal]
pub struct StateBlockView {
    pub state_path: Seq<Token>,
    pub handlers: Seq<OnHandlerView>,
    pub timeout: Option<TimeoutView>,
    pub entry: Option<Seq<Token>>,
    pub exit: Option<Seq<Token>>,
}

/// A whole description.
#[verifier::ext_equal]
pub struct FsmSpecView {
    pub state_ty: Seq<Token>,
    pub event_ty: Seq<Token>,
    pub context_ty: Seq<Token>,
    pub action_ty: Seq<Token>,
    pub initial_expr: Seq<Token>,
    pub states: Seq<StateBlockView>,
    pub unhandled: Option<Seq<Token>>,
}

/// A state block with a path and no clauses yet.
pub open spec fn empty_block(state_path: Seq<Token>) -> StateBlockView {
    StateBlockView {
        state_path,
        handlers: Seq::empty(),
        timeout: None,
        entry: None,
        exit: None,
    }
}

/// Why `syn` would not take the first token of `s` as an identifier: there is none, it is
/// no identifier, or it is a keyword; `None` when it would.
pub open spec fn ident_error(s: Seq<Token>) -> Option<Seq<char>> {
    if s.len() == 0 || !(s[0] is Ident) {
        Some("expected identifier"@)
    } else if !syn_accepts_ident(s[0]->Ident_0@) {
        Some("expected identifier, found keyword `"@ + s[0]->Ident_0@ + "`"@)
    } else {
        None
    }
}

/// The clauses `s` of a state block, added to `blk`.
pub open spec fn spec_block(s: Seq<Token>, blk: StateBlockView) -> Result<StateBlockView, Seq<char>>
    decreases s.len(),
{
    if s.len() == 0 {
        Ok(blk)
    } else if ident_error(s) is Some {
        Err(ident_error(s)->0)
    } else if is_ident(s[0], "on"@) {
        match spec_until_arrow(s.drop_first(), Fragment::Path) {
            Err(e) => Err(e),
            Ok((path, after)) => match spec_until_semi(after, Fragment::Expr) {
                Err(e) => Err(e),
                Ok((h, rest)) => {
                    spec_block(
                        rest,
                        StateBlockView {
                            handlers: blk.handlers.push(
                                OnHandlerView { event_path: path, handler: h },
                            ),
                            ..blk
                        },
                    )
                },
            },
        }
    } else if is_ident(s[0], "timeout"@) {
        if blk.timeout is Some {
            Err("duplicate `timeout` for state"@)
        } else {
            match spec_until_arrow(s.drop_first(), Fragment::Expr) {
                Err(e) => Err(e),
                Ok((d, after)) => match spec_until_semi(after, Fragment::Expr) {
                    Err(e) => Err(e),
                    Ok((h, rest)) => {
                        spec_block(
                            rest,
                            StateBlockView {
                                timeout: Some(TimeoutView { duration: d, handler: h }),
                                ..blk
                            },
                        )
                    },
                },
            }
        }
    } else if is_ident(s[0], "on_entry"@) {
        if blk.entry is Some {
            Err("duplicate `on_entry` for state"@)
        } else {
            match spec_until_semi(s.drop_first(), Fragment::Expr) {
                Err(e) => Err(e),
                Ok((h, rest)) => {
                    spec_block(rest, StateBlockView { entry: Some(h), ..blk })
                },
            }
        }
    } else if is_ident(s[0], "on_exit"@) {
        if blk.exit is Some {
            Err("duplicate `on_exit` for state"@)
        } else {
            match spec_until_semi(s.drop_first(), Fragment::Expr) {
                Err(e) => Err(e),
                Ok((h, rest)) => {
                    spec_block(rest, StateBlockView { exit: Some(h), ..blk })
                },
            }
        }
    } else {
        Err("expected `on`, `timeout`, `on_entry`, or `on_exit`"@)
    }
}

/// The items `s` of a description after its header, added to `states` and `unhandled`.
pub open spec fn spec_items(
    s: Seq<Token>,
    states: Seq<StateBlockView>,
    unhandled: Option<Seq<Token>>,
) -> Result<(Seq<StateBlockView>, Option<Seq<Token>>), Seq<char>>
    decreases s.len(),
{
    if s.len() == 0 {
        Ok((states, unhandled))
    } else if ident_error(s) is Some {
        Err(ident_error(s)->0)
    } else if is_ident(s[0], "state"@) {
        let body = s.drop_first();
        let j = first_stop(Stop::BraceOrSemi, body) as int;
        if j >= body.len() || !is_brace_group(body[j]) {
            Err("expected curly braces"@)
        } else if !fragment_accepted(Fragment::Path, body.subrange(0, j)) {
            Err("expected a path"@)
        } else {
            match body[j] {
                Token::Group(_, inner) => match spec_block(
                    inner@,
                    empty_block(body.subrange(0, j)),
                ) {
                    Err(e) => Err(e),
                    Ok(blk) => spec_items(
                        body.subrange(j + 1, body.len() as int),
                        states.push(blk),
                        unhandled,
                    ),
                },
                _ => Err("expected curly braces"@),
            }
        }
    } else if is_ident(s[0], "unhandled"@) {
        if unhandled is Some {
            Err("duplicate `unhandled` handler at top-level"@)
        } else if !arrow_at(s, 1) {
            Err("expected `=>`"@)
        } else {
            match spec_until_semi(s.subrange(3, s.len() as int), Fragment::Expr) {
                Err(e) => Err(e),
                Ok((h, rest)) => {
                    spec_items(rest, states, Some(h))
                },
            }
        }
    } else {
        Err("expected `state` or `unhandled`"@)
    }
}

proof fn lemma_first_stop_prefix(stop: Stop, a: Seq<Token>, r: Seq<Token>)
    requires
        stop != Stop::ArrowOrSemi,
        first_stop(stop, a) < a.len(),
    ensures
        first_stop(stop, a + r) == first_stop(stop, a),
    decreases a.len(),
{
    let s = a + r;
    assert(s[0] == a[0]);
    if !stops_at(stop, a, 0) {
        assert(s.drop_first() =~= a.drop_first() + r);
        lemma_first_stop_prefix(stop, a.drop_first(), r);
    }
}

/// Once the items `a` parse, what follows them is parsed from where they left off.
proof fn lemma_items_append(
    a: Seq<Token>,
    r: Seq<Token>,
    states: Seq<StateBlockView>,
    unhandled: Option<Seq<Token>>,
)
    requires
        spec_items(a, states, unhandled) is Ok,
    ensures
        spec_items(a + r, states, unhandled) == ({
            let (st, u) = spec_items(a, states, unhandled)->Ok_0;
            spec_items(r, st, u)
        }),
    decreases a.len(),
{
    let s = a + r;
    if a.len() == 0 {
        assert(s =~= r);
    } else {
        assert(s[0] == a[0]);
        assert(ident_error(s) == ident_error(a));
        if is_ident(a[0], "state"@) {
            let body = a.drop_first();
            let bs = s.drop_first();
            assert(bs =~= body + r);
            let j = first_stop(Stop::BraceOrSemi, body) as int;
            lemma_first_stop_prefix(Stop::BraceOrSemi, body, r);
            assert(bs[j] == body[j]);
            assert(bs.subrange(0, j) =~= body.subrange(0, j));
            assert(bs.subrange(j + 1, bs.len() as int) =~= body.subrange(j + 1, body.len() as int)
                + r);
            if let Token::Group(_, inner) = body[j] {
                let blk = spec_block(inner@, empty_block(body.subrange(0, j)))->Ok_0;
                lemma_items_append(
                    body.subrange(j + 1, body.len() as int),
                    r,
                    states.push(blk),
                    unhandled,
                );
            }
        } else {
            assert(s[1] == a[1]);
            assert(s[2] == a[2]);
            assert(arrow_at(s, 1) == arrow_at(a, 1));
            let t = a.subrange(3, a.len() as int);
            let ts = s.subrange(3, s.len() as int);
            assert(ts =~= t + r);
            let k = first_stop(Stop::Semi, t) as int;
            lemma_first_stop_prefix(Stop::Semi, t, r);
            assert(ts.subrange(0, k) =~= t.subrange(0, k));
            assert(ts.subrange(k + 1, ts.len() as int) =~= t.subrange(k + 1, t.len() as int) + r);
            lemma_items_append(
                t.subrange(k + 1, t.len() as int),
                r,
                states,
                Some(t.subrange(0, k)),
            );
        }
    }
}

/// Once an unhandled-event hook is set, it stays as it is.
proof fn lemma_items_keep_unhandled(s: Seq<Token>, states: Seq<StateBlockView>, h: Seq<Token>)
    requires
        spec_items(s, states, Some(h)) is Ok,
    ensures
        spec_items(s, states, Some(h))->Ok_0.1 == Some(h),
    decreases s.len(),
{
    if s.len() > 0 && is_ident(s[0], "state"@) {
        let body = s.drop_first();
        let j = first_stop(Stop::BraceOrSemi, body) as int;
        if let Token::Group(_, inner) = body[j] {
            let blk = spec_block(inner@, empty_block(body.subrange(0, j)))->Ok_0;
            lemma_items_keep_unhandled(body.subrange(j + 1, body.len() as int), states.push(blk), h);
        }
    }
}

/// Items that set no unhandled-event hook parse the same whatever hook was set before.
proof fn lemma_items_without_unhandled(
    s: Seq<Token>,
    states: Seq<StateBlockView>,
    st: Seq<StateBlockView>,
    h: Seq<Token>,
)
    requires
        spec_items(s, states, None) == Ok::<_, Seq<char>>((st, None::<Seq<Token>>)),
    ensures
        spec_items(s, states, Some(h)) == Ok::<_, Seq<char>>((st, Some(h))),
    decreases s.len(),
{
    if s.len() > 0 {
        if is_ident(s[0], "state"@) {
            let body = s.drop_first();
            let j = first_stop(Stop::BraceOrSemi, body) as int;
            if let Token::Group(_, inner) = body[j] {
                let blk = spec_block(inner@, empty_block(body.subrange(0, j)))->Ok_0;
                lemma_items_without_unhandled(
                    body.subrange(j + 1, body.len() as int),
                    states.push(blk),
                    st,
                    h,
                );
            }
        } else {
            let t = s.subrange(3, s.len() as int);
            let k = first_stop(Stop::Semi, t) as int;
            lemma_items_keep_unhandled(t.subrange(k + 1, t.len() as int), states, t.subrange(0, k));
        }
    }
}

/// The blocks parsed before the items are kept in front of theirs.
proof fn lemma_items_states_prefix(
    s: Seq<Token>,
    states: Seq<StateBlockView>,
    unhandled: Option<Seq<Token>>,
)
    ensures
        spec_items(s, states, unhandled) == match spec_items(s, Seq::empty(), unhandled) {
            Ok((x, u)) => Ok((states + x, u)),
            Err(e) => Err(e),
        },
    decreases s.len(),
{
    if s.len() == 0 {
        assert(states + Seq::<StateBlockView>::empty() =~= states);
    } else if ident_error(s) is None && is_ident(s[0], "state"@) {
        let body = s.drop_first();
        let j = first_stop(Stop::BraceOrSemi, body) as int;
        if j < body.len() && is_brace_group(body[j]) {
            if let Token::Group(_, inner) = body[j] {
                if let Ok(blk) = spec_block(inner@, empty_block(body.subrange(0, j))) {
                    let rest = body.subrange(j + 1, body.len() as int);
                    lemma_items_states_prefix(rest, states.push(blk), unhandled);
                    lemma_items_states_prefix(rest, Seq::empty().push(blk), unhandled);
                    if let Ok((x, u)) = spec_items(rest, Seq::empty(), unhandled) {
                        assert(states.push(blk) + x =~= states + (Seq::empty().push(blk) + x));
                    }
                }
            }
        }
    } else if ident_error(s) is None && is_ident(s[0], "unhandled"@) && unhandled is None
        && arrow_at(s, 1) {
        let t = s.subrange(3, s.len() as int);
        if let Ok((h, rest)) = spec_until_semi(t, Fragment::Expr) {
            lemma_items_states_prefix(rest, states, Some(h));
        }
    }
}

/// The `unhandled` item may stand anywhere among the items: a description whose state
/// blocks are `a` and whose unhandled-event hook is the item `u` parses the same with `u`
/// before the blocks as after them.
pub proof fn lemma_unhandled_item_may_stand_anywhere(
    a: Seq<Token>,
    u: Seq<Token>,
    st: Seq<StateBlockView>,
    h: Seq<Token>,
)
    requires
        spec_items(a, Seq::empty(), None) == Ok::<_, Seq<char>>((st, None::<Seq<Token>>)),
        spec_items(u, Seq::empty(), None) == Ok::<_, Seq<char>>((Seq::<StateBlockView>::empty(), Some(h))),
    ensures
        spec_items(u + a, Seq::empty(), None) == Ok::<_, Seq<char>>((st, Some(h))),
        spec_items(a + u, Seq::empty(), None) == Ok::<_, Seq<char>>((st, Some(h))),
{
    lemma_items_append(u, a, Seq::empty(), None);
    lemma_items_without_unhandled(a, Seq::empty(), st, h);
    lemma_items_append(a, u, Seq::empty(), None);
    lemma_items_states_prefix(u, st, None);
    assert(st + Seq::<StateBlockView>::empty() =~= st);
}

/// A header line `kw : fragment ;`.
pub open spec fn spec_header(s: Seq<Token>, kw: Seq<char>, kw_error: Seq<char>, kind: Fragment) -> Result<
    (Seq<Token>, Seq<Token>),
    Seq<char>,
> {
    if ident_error(s) is Some {
        Err(ident_error(s)->0)
    } else if !is_ident(s[0], kw) {
        Err(kw_error)
    } else if s.len() < 2 || !is_punct(s[1], ':') {
        Err("expected `:`"@)
    } else {
        spec_until_semi(s.subrange(2, s.len() as int), kind)
    }
}

/// The description that the tokens `ts` spell, or the message of the first error.
pub open spec fn spec_parse(ts: Seq<Token>) -> Result<FsmSpecView, Seq<char>> {
    match spec_header(ts, "state"@, "expected `state:`"@, Fragment::Type) {
        Err(e) => Err(e),
        Ok((state_ty, r1)) => match spec_header(r1, "event"@, "expected `event:`"@, Fragment::Type) {
            Err(e) => Err(e),
            Ok((event_ty, r2)) => match spec_header(
                r2,
                "context"@,
                "expected `context:`"@,
                Fragment::Type,
            ) {
                Err(e) => Err(e),
                Ok((context_ty, r3)) => match spec_header(
                    r3,
                    "action"@,
                    "expected `action:`"@,
                    Fragment::Type,
                ) {
                    Err(e) => Err(e),
                    Ok((action_ty, r4)) => match spec_header(
                        r4,
                        "initial"@,
                        "expected `initial:`"@,
                        Fragment::Expr,
                    ) {
                        Err(e) => Err(e),
                        Ok((initial_expr, r5)) => match spec_items(r5, Seq::empty(), None) {
                            Err(e) => Err(e),
                            Ok((states, unhandled)) => Ok(
                                FsmSpecView {
                                    state_ty,
                                    event_ty,
                                    context_ty,
                                    action_ty,
                                    initial_expr,
                                    states,
                                    unhandled,
                                },
                            ),
                        },
                    },
                },
            },
        },
    }
}

/// The view of an optional fragment.
pub open spec fn fragment_view(f: Option<Vec<Token>>) -> Option<Seq<Token>> {
    match f {
        Some(v) => Some(v@),
        None => None,
    }
}

/// A parse failure and its message.
#[derive(Debug)]
pub struct ParseError {
    pub message: String,
}

/// An `on Event::Variant => handler;` clause.
pub struct OnHandler {
    pub event_path: Vec<Token>,
    pub handler: Vec<Token>,
}

/// A `timeout duration => handler;` clause.
pub struct TimeoutSpec {
    pub duration: Vec<Token>,
    pub handler: Vec<Token>,
}

/// A `state State::Variant { ... }` block.
pub struct StateBlock {
    pub state_path: Vec<Token>,
    pub handlers: Vec<OnHandler>,
    pub timeout: Option<TimeoutSpec>,
    pub entry: Option<Vec<Token>>,
    pub exit: Option<Vec<Token>>,
}

/// A parsed description.
pub struct FsmSpec {
    pub state_ty: Vec<Token>,
    pub event_ty: Vec<Token>,
    pub context_ty: Vec<Token>,
    pub action_ty: Vec<Token>,
    pub initial_expr: Vec<Token>,
    pub states: Vec<StateBlock>,
    pub unhandled: Option<Vec<Token>>,
}

impl View for OnHandler {
    type V = OnHandlerView;

    open spec fn view(&self) -> OnHandlerView {
        OnHandlerView { event_path: self.event_path@, handler: self.handler@ }
    }
}

impl View for TimeoutSpec {
    type V = TimeoutView;

    open spec fn view(&self) -> TimeoutView {
        TimeoutView { duration: self.duration@, handler: self.handler@ }
    }
}

impl View for StateBlock {
    type V = StateBlockView;

    open spec fn view(&self) -> StateBlockView {
        StateBlockView {
            state_path: self.state_path@,
            handlers: self.handlers@.map_values(|h: OnHandler| h@),
            timeout: match self.timeout {
                Some(t) => Some(t@),
                None => None,
            },
            entry: fragment_view(self.entry),
            exit: fragment_view(self.exit),
        }
    }
}

impl View for FsmSpec {
    type V = FsmSpecView;

    open spec fn view(&self) -> FsmSpecView {
        FsmSpecView {
            state_ty: self.state_ty@,
            event_ty: self.event_ty@,
            context_ty: self.context_ty@,
            action_ty: self.action_ty@,
            initial_expr: self.initial_expr@,
            states: self.states@.map_values(|b: StateBlock| b@),
            unhandled: fragment_view(self.unhandled),
        }
    }
}

/// `r` is the executable form of the spec-level result `s`.
pub open spec fn fragment_result(
    r: Result<Vec<Token>, ParseError>,
    s: Result<(Seq<Token>, Seq<Token>), Seq<char>>,
) -> bool {
    match s {
        Ok((f, _)) => r matches Ok(v) && v@ == f,
        Err(m) => r matches Err(e) && e.message@ == m,
    }
}

fn error(message: &str) -> (e: ParseError)
    ensures
        e.message@ == message@,
{
    ParseError { message: message.to_owned() }
}

/// The error for a first token of `s` that `syn` would not take as an identifier.
fn check_ident(s: &Vec<Token>) -> (r: Option<ParseError>)
    ensures
        tokens_ascii(s@) ==> match ident_error(s@) {
            Some(m) => r matches Some(e) && e.message@ == m,
            None => r is None,
        },
{
    if s.len() == 0 {
        return Some(error("expected identifier"));
    }
    match &s[0] {
        Token::Ident(name) => {
            proof {
                if tokens_ascii(s@) {
                    assert(token_ascii(s@[0]));
                    lemma_ident_ascii(*name);
                }
            }
            if accepts_ident(name.as_str()) {
                None
            } else {
                let mut message = "expected identifier, found keyword `".to_owned();
                message.append(name.as_str());
                message.append("`");
                Some(ParseError { message })
            }
        },
        _ => Some(error("expected identifier")),
    }
}

/// The position of the first stop in `s`, or `s.len()` when there is none.
fn find_stop(s: &Vec<Token>, stop: Stop) -> (j: usize)
    ensures
        j == first_stop(stop, s@),
{
    let mut k: usize = 0;
    assert(s@.subrange(0, s@.len() as int) =~= s@);
    while k < s.len()
        invariant
            k <= s@.len(),
            first_stop(stop, s@) == k + first_stop(stop, s@.subrange(k as int, s@.len() as int)),
        decreases s@.len() - k,
    {
        let here = token_is_punct(&s[k], ';') || match stop {
            Stop::Semi => false,
            Stop::ArrowOrSemi => has_arrow_at(s, k),
            Stop::BraceOrSemi => match &s[k] {
                Token::Group(Delimiter::Brace, _) => true,
                _ => false,
            },
        };
        proof {
            lemma_stops_at_shift(stop, s@, k as int);
        }
        if here {
            return k;
        }
        assert(s@.subrange(k as int, s@.len() as int).drop_first() =~= s@.subrange(
            k + 1,
            s@.len() as int,
        ));
        k = k + 1;
    }
    k
}

/// Whether `f` is a fragment of kind `kind`.
fn check_fragment(f: &Vec<Token>, kind: Fragment) -> (b: bool)
    ensures
        tokens_ascii(f@) ==> b == fragment_accepted(kind, f@),
        b && kind == Fragment::Path ==> path_name(f@) is Some,
{
    if f.len() == 0 {
        return false;
    }
    let text = render(f);
    proof {
        lemma_tokens_ascii(f@);
    }
    match kind {
        Fragment::Type => accepts_type(text.as_str()),
        Fragment::Expr => accepts_expr(text.as_str()),
        Fragment::Path => accepts_path(text.as_str()) && path_name_of(f).is_some(),
    }
}

/// The error for a fragment that is not of kind `kind`.
fn kind_error(kind: Fragment) -> (e: ParseError)
    ensures
        e.message@ == fragment_error(kind),
{
    match kind {
        Fragment::Type => error("expected a type"),
        Fragment::Expr => error("expected an expression"),
        Fragment::Path => error("expected a path"),
    }
}

/// Splits off the fragment of kind `kind` that runs up to the next `;`, and consumes the `;`.
fn take_until_semi(rest: &mut Vec<Token>, kind: Fragment) -> (r: Result<Vec<Token>, ParseError>)
    ensures
        tokens_ascii(old(rest)@) ==> fragment_result(r, spec_until_semi(old(rest)@, kind)),
        tokens_ascii(old(rest)@) ==> (spec_until_semi(old(rest)@, kind) matches Ok((_, after))
            ==> final(rest)@ == after),
        tokens_ascii(old(rest)@) && r is Ok ==> tokens_ascii(final(rest)@),
        r is Ok ==> final(rest)@.len() < old(rest)@.len(),
        kind == Fragment::Path ==> (r matches Ok(f) ==> path_name(f@) is Some),
{
    let j = find_stop(rest, Stop::Semi);
    if j >= rest.len() {
        return Err(error("expected `;`"));
    }
    let mut frag = rest.split_off(j);
    std::mem::swap(rest, &mut frag);
    proof {
        if tokens_ascii(old(rest)@) {
            lemma_tokens_ascii_subrange(old(rest)@, 0, j as int);
        }
    }
    if !check_fragment(&frag, kind) {
        return Err(kind_error(kind));
    }
    rest.remove(0);
    proof {
        assert(rest@ =~= old(rest)@.subrange(j + 1, old(rest)@.len() as int));
        if tokens_ascii(old(rest)@) {
            lemma_tokens_ascii_subrange(old(rest)@, j + 1, old(rest)@.len() as int);
        }
    }
    Ok(frag)
}

/// Splits off the fragment of kind `kind` that runs up to the next `=>`, and consumes the
/// `=>`.
fn take_until_arrow(rest: &mut Vec<Token>, kind: Fragment) -> (r: Result<Vec<Token>, ParseError>)
    ensures
        tokens_ascii(old(rest)@) ==> fragment_result(r, spec_until_arrow(old(rest)@, kind)),
        tokens_ascii(old(rest)@) ==> (spec_until_arrow(old(rest)@, kind) matches Ok((_, after))
            ==> final(rest)@ == after),
        tokens_ascii(old(rest)@) && r is Ok ==> tokens_ascii(final(rest)@),
        r is Ok ==> final(rest)@.len() < old(rest)@.len(),
        kind == Fragment::Path ==> (r matches Ok(f) ==> path_name(f@) is Some),
{
    let j = find_stop(rest, Stop::ArrowOrSemi);
    if j >= rest.len() || !has_arrow_at(rest, j) {
        return Err(error("expected `=>`"));
    }
    let mut frag = rest.split_off(j);
    std::mem::swap(rest, &mut frag);
    proof {
        if tokens_ascii(old(rest)@) {
            lemma_tokens_ascii_subrange(old(rest)@, 0, j as int);
        }
    }
    if !check_fragment(&frag, kind) {
        return Err(kind_error(kind));
    }
    rest.remove(0);
    rest.remove(0);
    proof {
        assert(rest@ =~= old(rest)@.subrange(j + 2, old(rest)@.len() as int));
        if tokens_ascii(old(rest)@) {
            lemma_tokens_ascii_subrange(old(rest)@, j + 2, old(rest)@.len() as int);
        }
    }
    Ok(frag)
}

/// The name of the path `s`, if it has one.
pub fn path_name_of(s: &Vec<Token>) -> (r: Option<String>)
    ensures
        match r {
            Some(n) => path_name(s@) == Some(n@),
            None => path_name(s@) is None,
        },
{
    let mut k: usize = 0;
    let mut depth: usize = 0;
    let mut after_dash = false;
    let mut found: Option<String> = None;
    assert(s@.subrange(0, s@.len() as int) =~= s@);
    while k < s.len()
        invariant
            k <= s@.len(),
            depth <= k,
            path_name(s@) == name_from(
                s@.subrange(k as int, s@.len() as int),
                depth as nat,
                after_dash,
                match found {
                    Some(n) => Some(n@),
                    None => None,
                },
            ),
        decreases s@.len() - k,
    {
        let ghost rest = s@.subrange(k as int, s@.len() as int);
        assert(rest[0] == s@[k as int]);
        assert(rest.drop_first() =~= s@.subrange(k + 1, s@.len() as int));
        let t = &s[k];
        let dash = match t {
            Token::Punct(c, joint) => *c == '-' && *joint,
            _ => false,
        };
        if token_is_punct(t, '<') {
            depth = depth + 1;
        } else if token_is_punct(t, '>') && !after_dash {
            if depth > 0 {
                depth = depth - 1;
            }
        } else if depth == 0 {
            match t {
                Token::Ident(name) => {
                    found = Some(name.clone());
                },
                _ => {},
            }
        }
        after_dash = dash;
        k = k + 1;
    }
    found
}

/// Parses the clauses `tokens` of the state block for `state_path`.
fn parse_block(tokens: Vec<Token>, state_path: Vec<Token>) -> (r: Result<StateBlock, ParseError>)
    requires
        path_name(state_path@) is Some,
    ensures
        r matches Ok(b) ==> block_paths_named(b@),
        tokens_ascii(tokens@) ==> match spec_block(tokens@, empty_block(state_path@)) {
            Ok(b) => r matches Ok(x) && x@ == b,
            Err(m) => r matches Err(e) && e.message@ == m,
        },
{
    let ghost goal = spec_block(tokens@, empty_block(state_path@));
    let mut rest = tokens;
    let mut blk = StateBlock {
        state_path,
        handlers: Vec::new(),
        timeout: None,
        entry: None,
        exit: None,
    };
    assert(blk@ =~= empty_block(blk.state_path@));
    while rest.len() > 0
        invariant
            tokens_ascii(tokens@) ==> tokens_ascii(rest@) && spec_block(rest@, blk@) == goal,
            goal == spec_block(tokens@, empty_block(state_path@)),
            block_paths_named(blk@),
        decreases rest@.len(),
    {
        let ghost s = rest@;
        let ghost b0 = blk@;
        if let Some(e) = check_ident(&rest) {
            return Err(e);
        }
        if token_is_ident(&rest[0], "on") {
            rest.remove(0);
            assert(rest@ =~= s.drop_first());
            proof {
                if tokens_ascii(s) {
                    lemma_tokens_ascii_subrange(s, 1, s.len() as int);
                }
            }
            let path = match take_until_arrow(&mut rest, Fragment::Path) {
                Ok(p) => p,
                Err(e) => {
                    return Err(e);
                },
            };
            let handler = match take_until_semi(&mut rest, Fragment::Expr) {
                Ok(h) => h,
                Err(e) => {
                    return Err(e);
                },
            };
            let ghost old_handlers = blk.handlers@;
            blk.handlers.push(OnHandler { event_path: path, handler });
            assert(blk.handlers@.map_values(|h: OnHandler| h@) =~= old_handlers.map_values(
                |h: OnHandler| h@,
            ).push(OnHandlerView { event_path: path@, handler: handler@ }));
            assert(blk@ =~= StateBlockView {
                handlers: b0.handlers.push(OnHandlerView { event_path: path@, handler: handler@ }),
                ..b0
            });
        } else if token_is_ident(&rest[0], "timeout") {
            if blk.timeout.is_some() {
                return Err(error("duplicate `timeout` for state"));
            }
            rest.remove(0);
            assert(rest@ =~= s.drop_first());
            proof {
                if tokens_ascii(s) {
                    lemma_tokens_ascii_subrange(s, 1, s.len() as int);
                }
            }
            let duration = match take_until_arrow(&mut rest, Fragment::Expr) {
                Ok(d) => d,
                Err(e) => {
                    return Err(e);
                },
            };
            let handler = match take_until_semi(&mut rest, Fragment::Expr) {
                Ok(h) => h,
                Err(e) => {
                    return Err(e);
                },
            };
            blk.timeout = Some(TimeoutSpec { duration, handler });
            assert(blk@ =~= StateBlockView {
                timeout: Some(TimeoutView { duration: duration@, handler: handler@ }),
                ..b0
            });
        } else if token_is_ident(&rest[0], "on_entry") {
            if blk.entry.is_some() {
                return Err(error("duplicate `on_entry` for state"));
            }
            rest.remove(0);
            assert(rest@ =~= s.drop_first());
            proof {
                if tokens_ascii(s) {
                    lemma_tokens_ascii_subrange(s, 1, s.len() as int);
                }
            }
            let handler = match take_until_semi(&mut rest, Fragment::Expr) {
                Ok(h) => h,
                Err(e) => {
                    return Err(e);
                },
            };
            blk.entry = Some(handler);
            assert(blk@ =~= StateBlockView { entry: Some(handler@), ..b0 });
        } else if token_is_ident(&rest[0], "on_exit") {
            if blk.exit.is_some() {
                return Err(error("duplicate `on_exit` for state"));
            }
            rest.remove(0);
            assert(rest@ =~= s.drop_first());
            proof {
                if tokens_ascii(s) {
                    lemma_tokens_ascii_subrange(s, 1, s.len() as int);
                }
            }
            let handler = match take_until_semi(&mut rest, Fragment::Expr) {
                Ok(h) => h,
                Err(e) => {
                    return Err(e);
                },
            };
            blk.exit = Some(handler);
            assert(blk@ =~= StateBlockView { exit: Some(handler@), ..b0 });
        } else {
            return Err(error("expected `on`, `timeout`, `on_entry`, or `on_exit`"));
        }
    }
    Ok(blk)
}

/// Parses the items that follow the header.
fn parse_items(tokens: Vec<Token>) -> (r: Result<(Vec<StateBlock>, Option<Vec<Token>>), ParseError>)
    ensures
        r matches Ok((v, _)) ==> forall|i: int|
            0 <= i < v@.len() ==> block_paths_named(#[trigger] v@[i]@),
        tokens_ascii(tokens@) ==> match spec_items(tokens@, Seq::empty(), None) {
            Ok((st, u)) => r matches Ok((v, w)) && v@.map_values(|b: StateBlock| b@) == st
                && fragment_view(w) == u,
            Err(m) => r matches Err(e) && e.message@ == m,
        },
{
    let ghost goal = spec_items(tokens@, Seq::empty(), None);
    let mut rest = tokens;
    let mut states: Vec<StateBlock> = Vec::new();
    let mut unhandled: Option<Vec<Token>> = None;
    assert(states@.map_values(|b: StateBlock| b@) =~= Seq::<StateBlockView>::empty());
    while rest.len() > 0
        invariant
            goal == spec_items(tokens@, Seq::empty(), None),
            tokens_ascii(tokens@) ==> tokens_ascii(rest@) && spec_items(
                rest@,
                states@.map_values(|b: StateBlock| b@),
                fragment_view(unhandled),
            ) == goal,
            forall|i: int| 0 <= i < states@.len() ==> block_paths_named(#[trigger] states@[i]@),
        decreases rest@.len(),
    {
        let ghost s = rest@;
        let ghost st0 = states@.map_values(|b: StateBlock| b@);
        if let Some(e) = check_ident(&rest) {
            return Err(e);
        }
        if token_is_ident(&rest[0], "state") {
            rest.remove(0);
            assert(rest@ =~= s.drop_first());
            proof {
                if tokens_ascii(s) {
                    lemma_tokens_ascii_subrange(s, 1, s.len() as int);
                }
            }
            let ghost body = rest@;
            let j = find_stop(&rest, Stop::BraceOrSemi);
            let is_brace = j < rest.len() && match &rest[j] {
                Token::Group(Delimiter::Brace, _) => true,
                _ => false,
            };
            if !is_brace {
                return Err(error("expected curly braces"));
            }
            let mut path = rest.split_off(j);
            std::mem::swap(&mut rest, &mut path);
            proof {
                if tokens_ascii(body) {
                    lemma_tokens_ascii_subrange(body, 0, j as int);
                    lemma_tokens_ascii_subrange(body, j + 1, body.len() as int);
                    assert(token_ascii(body[j as int]));
                }
            }
            if !check_fragment(&path, Fragment::Path) {
                return Err(error("expected a path"));
            }
            let group = rest.remove(0);
            assert(rest@ =~= body.subrange(j + 1, body.len() as int));
            match group {
                Token::Group(d, clauses) => {
                    proof {
                        if tokens_ascii(body) {
                            lemma_group_ascii(d, clauses);
                        }
                    }
                    match parse_block(clauses, path) {
                        Ok(b) => {
                            let ghost old_states = states@;
                            states.push(b);
                            assert(states@.map_values(|b: StateBlock| b@) =~= old_states.map_values(
                                |b: StateBlock| b@,
                            ).push(b@));
                        },
                        Err(e) => {
                            return Err(e);
                        },
                    }
                },
                _ => {
                    return Err(error("expected curly braces"));
                },
            }
        } else if token_is_ident(&rest[0], "unhandled") {
            if unhandled.is_some() {
                return Err(error("duplicate `unhandled` handler at top-level"));
            }
            if !has_arrow_at(&rest, 1) {
                return Err(error("expected `=>`"));
            }
            rest.remove(0);
            rest.remove(0);
            rest.remove(0);
            assert(rest@ =~= s.subrange(3, s.len() as int));
            proof {
                if tokens_ascii(s) {
                    lemma_tokens_ascii_subrange(s, 3, s.len() as int);
                }
            }
            let handler = match take_until_semi(&mut rest, Fragment::Expr) {
                Ok(h) => h,
                Err(e) => {
                    return Err(e);
                },
            };
            unhandled = Some(handler);
        } else {
            return Err(error("expected `state` or `unhandled`"));
        }
    }
    Ok((states, unhandled))
}

/// Takes a header line `kw : fragment ;` from the front of `rest`.
fn take_header(rest: &mut Vec<Token>, kw: &str, kw_error: &str, kind: Fragment) -> (r: Result<
    Vec<Token>,
    ParseError,
>)
    ensures
        tokens_ascii(old(rest)@) ==> fragment_result(r, spec_header(old(rest)@, kw@, kw_error@, kind)),
        tokens_ascii(old(rest)@) ==> (spec_header(old(rest)@, kw@, kw_error@, kind) matches Ok((
            _,
            after,
        )) ==> final(rest)@ == after),
        tokens_ascii(old(rest)@) && r is Ok ==> tokens_ascii(final(rest)@),
{
    if let Some(e) = check_ident(rest) {
        return Err(e);
    }
    if !token_is_ident(&rest[0], kw) {
        return Err(error(kw_error));
    }
    if rest.len() < 2 || !token_is_punct(&rest[1], ':') {
        return Err(error("expected `:`"));
    }
    let ghost s = rest@;
    rest.remove(0);
    rest.remove(0);
    assert(rest@ =~= s.subrange(2, s.len() as int));
    proof {
        if tokens_ascii(s) {
            lemma_tokens_ascii_subrange(s, 2, s.len() as int);
        }
    }
    take_until_semi(rest, kind)
}

impl FsmSpec {
    /// Parses a description from its tokens, or reports the first error (see the grammar in
    /// the module documentation).
    pub fn parse(tokens: Vec<Token>) -> (r: Result<FsmSpec, ParseError>)
        ensures
            r matches Ok(x) ==> paths_named(x@),
            tokens_ascii(tokens@) ==> match spec_parse(tokens@) {
                Ok(v) => r matches Ok(x) && x@ == v,
                Err(m) => r matches Err(e) && e.message@ == m,
            },
    {
        let mut rest = tokens;
        let state_ty = match take_header(&mut rest, "state", "expected `state:`", Fragment::Type) {
            Ok(f) => f,
            Err(e) => {
                return Err(e);
            },
        };
        let event_ty = match take_header(&mut rest, "event", "expected `event:`", Fragment::Type) {
            Ok(f) => f,
            Err(e) => {
                return Err(e);
            },
        };
        let context_ty = match take_header(
            &mut rest,
            "context",
            "expected `context:`",
            Fragment::Type,
        ) {
            Ok(f) => f,
            Err(e) => {
                return Err(e);
            },
        };
        let action_ty = match take_header(
            &mut rest,
            "action",
            "expected `action:`",
            Fragment::Type,
        ) {
            Ok(f) => f,
            Err(e) => {
                return Err(e);
            },
        };
        let initial_expr = match take_header(
            &mut rest,
            "initial",
            "expected `initial:`",
            Fragment::Expr,
        ) {
            Ok(f) => f,
            Err(e) => {
                return Err(e);
            },
        };
        match parse_items(rest) {
            Ok((states, unhandled)) => {
                let spec = FsmSpec {
                    state_ty,
                    event_ty,
                    context_ty,
                    action_ty,
                    initial_expr,
                    states,
                    unhandled,
                };
                Ok(spec)
            },
            Err(e) => Err(e),
        }
    }
}

/// Every path in the block has a name.
pub open spec fn block_paths_named(b: StateBlockView) -> bool {
    &&& path_name(b.state_path) is Some
    &&& forall|i: int|
        0 <= i < b.handlers.len() ==> path_name(#[trigger] b.handlers[i].event_path) is Some
}

/// Every path in the description has a name.
pub open spec fn paths_named(v: FsmSpecView) -> bool {
    forall|i: int| 0 <= i < v.states.len() ==> block_paths_named(#[trigger] v.states[i])
}

proof fn lemma_block_paths_named(s: Seq<Token>, blk: StateBlockView)
    requires
        block_paths_named(blk),
        spec_block(s, blk) is Ok,
    ensures
        block_paths_named(spec_block(s, blk)->Ok_0),
    decreases s.len(),
{
    if s.len() > 0 {
        if is_ident(s[0], "on"@) {
            if let Ok((path, after)) = spec_until_arrow(s.drop_first(), Fragment::Path) {
                if let Ok((h, rest)) = spec_until_semi(after, Fragment::Expr) {
                    let next = StateBlockView {
                        handlers: blk.handlers.push(OnHandlerView { event_path: path, handler: h }),
                        ..blk
                    };
                    assert forall|i: int| 0 <= i < next.handlers.len() implies path_name(
                        #[trigger] next.handlers[i].event_path,
                    ) is Some by {
                        if i < blk.handlers.len() {
                            assert(next.handlers[i] == blk.handlers[i]);
                        }
                    }
                    lemma_block_paths_named(rest, next);
                }
            }
        } else if is_ident(s[0], "timeout"@) {
            if let Ok((d, after)) = spec_until_arrow(s.drop_first(), Fragment::Expr) {
                if let Ok((h, rest)) = spec_until_semi(after, Fragment::Expr) {
                    lemma_block_paths_named(
                        rest,
                        StateBlockView { timeout: Some(TimeoutView { duration: d, handler: h }), ..blk },
                    );
                }
            }
        } else if is_ident(s[0], "on_entry"@) {
            if let Ok((h, rest)) = spec_until_semi(s.drop_first(), Fragment::Expr) {
                lemma_block_paths_named(rest, StateBlockView { entry: Some(h), ..blk });
            }
        } else if is_ident(s[0], "on_exit"@) {
            if let Ok((h, rest)) = spec_until_semi(s.drop_first(), Fragment::Expr) {
                lemma_block_paths_named(rest, StateBlockView { exit: Some(h), ..blk });
            }
        }
    }
}

proof fn lemma_items_paths_named(
    s: Seq<Token>,
    states: Seq<StateBlockView>,
    unhandled: Option<Seq<Token>>,
)
    requires
        forall|i: int| 0 <= i < states.len() ==> block_paths_named(#[trigger] states[i]),
        spec_items(s, states, unhandled) is Ok,
    ensures
        ({
            let st = spec_items(s, states, unhandled)->Ok_0.0;
            forall|i: int| 0 <= i < st.len() ==> block_paths_named(#[trigger] st[i])
        }),
    decreases s.len(),
{
    if s.len() > 0 {
        if is_ident(s[0], "state"@) {
            let body = s.drop_first();
            let j = first_stop(Stop::BraceOrSemi, body) as int;
            if let Token::Group(_, inner) = body[j] {
                let clauses = inner@;
                let path = body.subrange(0, j);
                assert(block_paths_named(empty_block(path)));
                lemma_block_paths_named(clauses, empty_block(path));
                let blk = spec_block(clauses, empty_block(path))->Ok_0;
                let next = states.push(blk);
                assert forall|i: int| 0 <= i < next.len() implies block_paths_named(
                    #[trigger] next[i],
                ) by {
                    if i < states.len() {
                        assert(next[i] == states[i]);
                    }
                }
                lemma_items_paths_named(body.subrange(j + 1, body.len() as int), next, unhandled);
            }
        } else if is_ident(s[0], "unhandled"@) {
            if let Ok((h, rest)) = spec_until_semi(s.subrange(3, s.len() as int), Fragment::Expr) {
                lemma_items_paths_named(rest, states, Some(h));
            }
        }
    }
}

/// Every path of a parsed description has a name: the state and event names under which
/// its handlers are registered always exist.
pub proof fn lemma_parsed_paths_are_named(ts: Seq<Token>)
    requires
        spec_parse(ts) is Ok,
    ensures
        paths_named(spec_parse(ts)->Ok_0),
{
    let (_, r1) = spec_header(ts, "state"@, "expected `state:`"@, Fragment::Type)->Ok_0;
    let (_, r2) = spec_header(r1, "event"@, "expected `event:`"@, Fragment::Type)->Ok_0;
    let (_, r3) = spec_header(r2, "context"@, "expected `context:`"@, Fragment::Type)->Ok_0;
    let (_, r4) = spec_header(r3, "action"@, "expected `action:`"@, Fragment::Type)->Ok_0;
    let (_, r5) = spec_header(r4, "initial"@, "expected `initial:`"@, Fragment::Expr)->Ok_0;
    lemma_items_paths_named(r5, Seq::empty(), None);
}

} // verus!
