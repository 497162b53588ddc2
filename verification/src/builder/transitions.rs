//! Convenience functions for creating transitions.

use vstd::prelude::*;

use crate::types::{StayBuilder, Transition};

verus! {

/// Transition to `state`, with no actions.
pub fn goto<S, A>(state: S) -> (t: Transition<S, A>)
    ensures
        t.next_state == state,
        t.actions@ == Seq::<A>::empty(),
{
    Transition { next_state: state, actions: Vec::new() }
}

/// Transition to `state` with `actions`.
pub fn goto_with_actions<S, A>(state: S, actions: Vec<A>) -> (t: Transition<S, A>)
    ensures
        t.next_state == state,
        t.actions@ == actions@,
{
    Transition { next_state: state, actions }
}

/// Stay in the current state (a clone of `current_state`), with no actions.
pub fn stay<S: Clone, A>(current_state: &S) -> (t: Transition<S, A>)
    ensures
        cloned(*current_state, t.next_state),
        t.actions@ == Seq::<A>::empty(),
{
    Transition { next_state: current_state.clone(), actions: Vec::new() }
}

/// Stay in the current state (a clone of `current_state`), with `actions`.
pub fn stay_with_actions<S: Clone, A>(current_state: &S, actions: Vec<A>) -> (t: Transition<S, A>)
    ensures
        cloned(*current_state, t.next_state),
        t.actions@ == actions@,
{
    Transition { next_state: current_state.clone(), actions }
}

/// Both ways of staying agree. A transition built as
/// `Transition::stay().with_actions(actions).in_state(c)`, with `c` a clone of `s`, and one
/// made by [`stay_with_actions`] from `&s` and the same actions both go to a clone of `s`
/// and carry the same actions, in the same order; likewise `Transition::stay().in_state(c)`
/// and [`stay`], with no actions. Where cloning `s` gives a value equal to `s`, the two
/// transitions are equal field by field.
pub proof fn lemma_stay_forms_agree<S: Clone, A>(
    s: S,
    c: S,
    b: StayBuilder<S, A>,
    built: Transition<S, A>,
    made: Transition<S, A>,
)
    requires
        cloned(s, c),
        built.next_state == c,
        built.actions@ == b.pending_actions(),
        cloned(s, made.next_state),
        made.actions@ == b.pending_actions(),
    ensures
        cloned(s, built.next_state),
        cloned(s, made.next_state),
        built.actions@ == made.actions@,
        (forall|d: S| #[trigger] cloned(s, d) ==> d == s) ==> built.next_state
            == made.next_state,
{
}

} // verus!
