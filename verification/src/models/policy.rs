//! A total mapping from every state to one chosen action.

use vstd::prelude::*;
use crate::errors::NotFound;
use crate::models::lookup::{find_first, keys_of, spec_contains_key, spec_distinct, spec_find, spec_lookup};
use crate::models::mdp::{Action, Item, State};
use crate::models::sampler::Sampler;

verus! {

/// A mapping from states to actions, total over the state sampler that
/// built it: entry `k` carries the state at position `k` of that sampler.
#[derive(Debug)]
pub struct Policy<S: State, A: Action> {
    pairs: Vec<(S, A)>,
}

impl<S: State, A: Action> View for Policy<S, A> {
    type V = Seq<(S, A)>;

    closed spec fn view(&self) -> Seq<(S, A)> {
        self.pairs@
    }
}

impl<S: State, A: Action> Policy<S, A> {
    /// Whether some entry maps the state `s`.
    pub open spec fn contains_key(&self, s: S) -> bool {
        spec_contains_key(self@, s)
    }

    /// The action mapped to `s`, if any.
    pub open spec fn spec_get(&self, s: S) -> Option<A> {
        spec_lookup(self@, s)
    }

    /// The chosen actions, in state-sampler order.
    pub open spec fn spec_actions(&self) -> Seq<A> {
        self@.map_values(|p: (S, A)| p.1)
    }

    /// No two entries share a state: built only over distinct-item
    /// samplers, so no entry can shadow another.
    pub open spec fn distinct_keys(&self) -> bool {
        forall|i: int, j: int|
            0 <= i < j < self@.len() ==> (#[trigger] self@[i]).0 != (#[trigger] self@[j]).0
    }

    /// Well-formed over the given state and action spaces: one entry per
    /// state, in sampler order, no two entries sharing a state, each
    /// carrying an action of the action space.
    pub open spec fn wf(&self, states: Seq<S>, actions: Seq<A>) -> bool {
        &&& self@.len() == states.len()
        &&& forall|k: int| 0 <= k < self@.len() ==> (#[trigger] self@[k]).0 == states[k]
        &&& forall|k: int| 0 <= k < self@.len() ==> actions.contains((#[trigger] self@[k]).1)
        &&& self.distinct_keys()
    }

    /// Creates a policy mapping every state of `states` to an action of
    /// `actions` drawn uniformly at random, one independent draw per state.
    pub fn new(states: &Sampler<S>, actions: &Sampler<A>) -> (r: Policy<S, A>)
        requires
            states.wf(),
            actions.wf(),
            spec_distinct(states@),
        ensures
            r.wf(states@, actions@),
    {
        let mut pairs: Vec<(S, A)> = Vec::new();
        let n: usize = states.len();
        let mut k: usize = 0;
        while k < n
            invariant
                n == states@.len(),
                k <= n,
                actions.wf(),
                pairs@.len() == k,
                forall|i: int| 0 <= i < k ==> (#[trigger] pairs@[i]).0 == states@[i],
                forall|i: int| 0 <= i < k ==> actions@.contains((#[trigger] pairs@[i]).1),
            decreases n - k,
        {
            let s: S = *states.get(k);
            let a: A = *actions.get_random();
            pairs.push((s, a));
            k = k + 1;
        }
        Policy { pairs }
    }

    /// The number of entries.
    pub fn len(&self) -> (r: usize)
        ensures
            r == self@.len(),
    {
        self.pairs.len()
    }

    /// Returns the action assigned to the given state, or
    /// `NotFound::StateInPolicy` if no entry maps it.
    pub fn get(&self, state: &S) -> (r: Result<A, NotFound>)
        ensures
            (match r {
                Ok(a) => self.contains_key(*state) && self.spec_get(*state) == Some(a),
                Err(e) => !self.contains_key(*state) && e == NotFound::StateInPolicy,
            }),
    {
        match find_first(&self.pairs, state) {
            Some(k) => {
                proof {
                    keys_of(self@).index_of_first_ensures(*state);
                }
                Ok(self.pairs[k].1)
            },
            None => {
                proof {
                    keys_of(self@).index_of_first_ensures(*state);
                }
                Err(NotFound::StateInPolicy)
            },
        }
    }

    /// Overwrites the action assigned to the given state; an unknown state
    /// is reported as `NotFound::StateInPolicy` and changes nothing.
    pub fn insert(&mut self, state: &S, action: &A) -> (r: Result<(), NotFound>)
        ensures
            (match spec_find(old(self)@, *state) {
                Some(k) => r is Ok && final(self)@.len() == old(self)@.len() && old(self)@[k].0
                    == *state && final(self)@[k] == (*state, *action) && (forall|i: int|
                    0 <= i < old(self)@.len() && i != k ==> #[trigger] final(self)@[i] == old(
                    self,
                    )@[i]),
                None => r == Err::<(), NotFound>(NotFound::StateInPolicy) && final(self)@ == old(self)@,
            }),
    {
        match find_first(&self.pairs, state) {
            Some(k) => {
                self.pairs.set(k, (*state, *action));
                proof {
                    let ks = keys_of(old(self)@);
                    ks.index_of_first_ensures(*state);
                    assert(ks[k as int] == *state);
                    assert(old(self)@[k as int].0 == *state);
                }
                Ok(())
            },
            None => Err(NotFound::StateInPolicy),
        }
    }

    /// The action at position `k` of the underlying state order.
    pub(crate) fn action_at(&self, k: usize) -> (r: A)
        requires
            k < self@.len(),
        ensures
            r == self@[k as int].1,
    {
        self.pairs[k].1
    }

    /// Overwrites the entry at position `k`, keeping its state.
    pub(crate) fn set_at(&mut self, k: usize, action: A)
        requires
            k < old(self)@.len(),
        ensures
            final(self)@ == old(self)@.update(k as int, (old(self)@[k as int].0, action)),
    {
        let s: S = self.pairs[k].0;
        self.pairs.set(k, (s, action));
    }

    /// Decides whether two policies map every state to the same action.
    pub fn equals(&self, other: &Policy<S, A>) -> (r: bool)
        ensures
            r == (self@ =~= other@),
    {
        let n: usize = self.pairs.len();
        if n != other.pairs.len() {
            return false;
        }
        let mut k: usize = 0;
        while k < n
            invariant
                n == self@.len(),
                n == other@.len(),
                k <= n,
                forall|j: int| 0 <= j < k ==> self@[j] == other@[j],
            decreases n - k,
        {
            if !self.pairs[k].0.item_eq(&other.pairs[k].0) {
                return false;
            }
            if !self.pairs[k].1.item_eq(&other.pairs[k].1) {
                return false;
            }
            k = k + 1;
        }
        true
    }
}

/// Law: a policy built from a state sampler of size `N` has exactly `N`
/// entries, and every state produced by that sampler has an entry, so a
/// lookup of such a state never fails.
pub proof fn lemma_policy_total<S: State, A: Action>(
    p: &Policy<S, A>,
    states: Seq<S>,
    actions: Seq<A>,
    s: S,
)
    requires
        p.wf(states, actions),
        states.contains(s),
    ensures
        p@.len() == states.len(),
        p.contains_key(s),
        p.spec_get(s) is Some,
{
    let ks = keys_of(p@);
    assert(forall|k: int| 0 <= k < p@.len() ==> ks[k] == (#[trigger] p@[k]).0);
    let w = choose|w: int| 0 <= w < states.len() && states[w] == s;
    assert(ks[w] == s);
    ks.index_of_first_ensures(s);
}

} // verus!
