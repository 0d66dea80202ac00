//! The enumerable-item capability and the Markov decision process
//! interface that an environment must implement.

use vstd::prelude::*;
use crate::fixed::{spec_abs, VALUE_BOUND};
use crate::models::lookup::spec_distinct;
use crate::models::sampler::Sampler;

verus! {

/// The capability every state and action type must satisfy: value
/// equality and cheap duplication (copy semantics).
///
/// `item_eq` must decide mathematical equality of two values; each
/// implementing type proves that of its own comparison.
pub trait Item: Sized + Copy {
    /// Decides whether two items are the same value.
    fn item_eq(&self, other: &Self) -> (r: bool)
        ensures
            r == (self == other),
    ;
}

/// Marker for a state type of a decision process.
pub trait State: Item {

}

/// Marker for an action type of a decision process.
pub trait Action: Item {

}

/// The contract an environment must satisfy: expose its state and action
/// samplers, a terminal-state predicate, and a deterministic transition
/// function mapping a state and an action to a next state and a reward.
///
/// The `spec_` functions are the mathematical model an implementation
/// commits to; the executable methods are proved to agree with it. The
/// transition must stay inside the declared state space and produce a
/// reward within [`VALUE_BOUND`].
pub trait MDP: Sized {
    type State: State;

    type Action: Action;

    /// The environment's internal invariant.
    spec fn wf(&self) -> bool;

    /// All states, in sampler order.
    spec fn spec_states(&self) -> Seq<Self::State>;

    /// All actions, in sampler order.
    spec fn spec_actions(&self) -> Seq<Self::Action>;

    /// Whether a state is terminal.
    spec fn spec_terminal(&self, state: Self::State) -> bool;

    /// The next state and reward of one transition.
    spec fn spec_transition(&self, state: Self::State, action: Self::Action) -> (
        Self::State,
        i64,
    );

    /// Returns a reference to the state sampler, whose items are
    /// pairwise distinct.
    fn get_states(&self) -> (r: &Sampler<Self::State>)
        requires
            self.wf(),
        ensures
            r@ == self.spec_states(),
            r.wf(),
            spec_distinct(r@),
    ;

    /// Returns a reference to the action sampler, whose items are
    /// pairwise distinct.
    fn get_actions(&self) -> (r: &Sampler<Self::Action>)
        requires
            self.wf(),
        ensures
            r@ == self.spec_actions(),
            r.wf(),
            spec_distinct(r@),
    ;

    /// Determines whether a state is terminal.
    fn is_state_terminal(&self, state: &Self::State) -> (r: bool)
        requires
            self.wf(),
            self.spec_states().contains(*state),
        ensures
            r == self.spec_terminal(*state),
    ;

    /// Given a state and an action, returns the next state and reward.
    fn transition(&self, state: &Self::State, action: &Self::Action) -> (r: (Self::State, i64))
        requires
            self.wf(),
            self.spec_states().contains(*state),
            self.spec_actions().contains(*action),
        ensures
            r == self.spec_transition(*state, *action),
            self.spec_states().contains(r.0),
            spec_abs(r.1 as int) <= VALUE_BOUND as int,
    ;
}

} // verus!
