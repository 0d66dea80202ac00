//! Value tables: expected-return estimates per state, per action for a
//! fixed state, and per state-action pair, with greedy and epsilon-greedy
//! action selection.

use vstd::prelude::*;
use crate::errors::NotFound;
use crate::fixed::{spec_abs, SCALE, VALUE_BOUND};
use crate::models::lookup::{find_first, keys_of, spec_contains_key, spec_distinct, spec_find, spec_lookup};
use crate::models::mdp::{Action, State};
use crate::models::policy::Policy;
use crate::models::sampler::Sampler;
use crate::random::random_unit;

verus! {

/// The index of the first entry attaining the maximum value among the
/// first `n` entries: ties are broken toward the earliest entry.
pub open spec fn best_index<A>(pairs: Seq<(A, i64)>, n: int) -> int
    decreases n,
{
    if n <= 1 {
        0
    } else {
        let b = best_index(pairs, n - 1);
        if pairs[n - 1].1 > pairs[b].1 {
            n - 1
        } else {
            b
        }
    }
}

/// The action of the first entry attaining the maximum value.
pub open spec fn spec_greedy<A>(pairs: Seq<(A, i64)>) -> A {
    pairs[best_index(pairs, pairs.len() as int)].0
}

/// `best_index` lies in range, attains the maximum, and is the first
/// index to do so.
pub proof fn lemma_best_index<A>(pairs: Seq<(A, i64)>, n: int)
    requires
        1 <= n <= pairs.len(),
    ensures
        0 <= best_index(pairs, n) < n,
        forall|k: int| 0 <= k < n ==> (#[trigger] pairs[k]).1 <= pairs[best_index(pairs, n)].1,
        forall|k: int|
            0 <= k < best_index(pairs, n) ==> (#[trigger] pairs[k]).1 < pairs[best_index(
                pairs,
                n,
            )].1,
    decreases n,
{
    if n > 1 {
        lemma_best_index(pairs, n - 1);
    }
}

/// A mapping from states to scalar expected-return estimates, total over
/// the state sampler that built it.
#[derive(Debug, Clone)]
pub struct StateValue<S: State> {
    pairs: Vec<(S, i64)>,
}

impl<S: State> View for StateValue<S> {
    type V = Seq<(S, i64)>;

    closed spec fn view(&self) -> Seq<(S, i64)> {
        self.pairs@
    }
}

impl<S: State> StateValue<S> {
    /// Whether some entry maps the state `s`.
    pub open spec fn contains_key(&self, s: S) -> bool {
        spec_contains_key(self@, s)
    }

    /// The value mapped to `s`, if any.
    pub open spec fn spec_get(&self, s: S) -> Option<i64> {
        spec_lookup(self@, s)
    }

    /// The values, in state-sampler order.
    pub open spec fn values(&self) -> Seq<i64> {
        self@.map_values(|p: (S, i64)| p.1)
    }

    /// Every stored value lies within `VALUE_BOUND`.
    pub open spec fn bounded(&self) -> bool {
        forall|k: int|
            0 <= k < self@.len() ==> spec_abs((#[trigger] self@[k]).1 as int) <= VALUE_BOUND as int
    }

    /// No two entries share a state: built only over distinct-item
    /// samplers, so no entry can shadow another.
    pub open spec fn distinct_keys(&self) -> bool {
        forall|i: int, j: int|
            0 <= i < j < self@.len() ==> (#[trigger] self@[i]).0 != (#[trigger] self@[j]).0
    }

    /// Well-formed over the given state space: one entry per state, in
    /// sampler order, no two entries sharing a state, every value within
    /// bound.
    pub open spec fn wf(&self, states: Seq<S>) -> bool {
        &&& self@.len() == states.len()
        &&& forall|k: int| 0 <= k < self@.len() ==> (#[trigger] self@[k]).0 == states[k]
        &&& self.bounded()
        &&& self.distinct_keys()
    }

    /// Creates a state value mapping every state of `states` to zero.
    pub fn new(states: &Sampler<S>) -> (r: StateValue<S>)
        requires
            states.wf(),
            spec_distinct(states@),
        ensures
            r.wf(states@),
            forall|k: int| 0 <= k < r@.len() ==> (#[trigger] r@[k]).1 == 0,
    {
        let mut pairs: Vec<(S, i64)> = Vec::new();
        let n: usize = states.len();
        let mut k: usize = 0;
        while k < n
            invariant
                n == states@.len(),
                k <= n,
                pairs@.len() == k,
                forall|i: int| 0 <= i < k ==> (#[trigger] pairs@[i]).0 == states@[i],
                forall|i: int| 0 <= i < k ==> (#[trigger] pairs@[i]).1 == 0,
            decreases n - k,
        {
            pairs.push((*states.get(k), 0));
            k = k + 1;
        }
        StateValue { pairs }
    }

    /// The number of entries.
    pub fn len(&self) -> (r: usize)
        ensures
            r == self@.len(),
    {
        self.pairs.len()
    }

    /// Returns the value of the given state, or
    /// `NotFound::StateInStateValue` if no entry maps it.
    pub fn get(&self, state: &S) -> (r: Result<i64, NotFound>)
        ensures
            (match r {
                Ok(v) => self.contains_key(*state) && self.spec_get(*state) == Some(v),
                Err(e) => !self.contains_key(*state) && e == NotFound::StateInStateValue,
            }),
    {
        match find_first(&self.pairs, state) {
            Some(k) => {
                proof {
                    keys_of(self@).index_of_first_ensures(*state);
                }
                Ok(self.pairs[k].1)
            },
            None => {
                proof {
                    keys_of(self@).index_of_first_ensures(*state);
                }
                Err(NotFound::StateInStateValue)
            },
        }
    }

    /// Overwrites the value of the given state; an unknown state is
    /// reported as `NotFound::StateInStateValue` and changes nothing.
    pub fn insert(&mut self, state: &S, value: i64) -> (r: Result<(), NotFound>)
        ensures
            (match spec_find(old(self)@, *state) {
                Some(k) => r is Ok && final(self)@.len() == old(self)@.len() && old(self)@[k].0
                    == *state && final(self)@[k] == (*state, value) && (forall|i: int|
                    0 <= i < old(self)@.len() && i != k ==> #[trigger] final(self)@[i] == old(
                    self,
                    )@[i]),
                None => r == Err::<(), NotFound>(NotFound::StateInStateValue) && final(self)@
                    == old(self)@,
            }),
    {
        match find_first(&self.pairs, state) {
            Some(k) => {
                self.pairs.set(k, (*state, value));
                proof {
                    let ks = keys_of(old(self)@);
                    ks.index_of_first_ensures(*state);
                    assert(ks[k as int] == *state);
                    assert(old(self)@[k as int].0 == *state);
                }
                Ok(())
            },
            None => Err(NotFound::StateInStateValue),
        }
    }

    /// The value of a state known to have an entry.
    pub(crate) fn lookup(&self, state: &S) -> (r: i64)
        requires
            self.contains_key(*state),
        ensures
            Some(r) == self.spec_get(*state),
    {
        match find_first(&self.pairs, state) {
            Some(k) => self.pairs[k].1,
            None => {
                proof {
                    keys_of(self@).index_of_first_ensures(*state);
                    assert(false);
                }
                0
            },
        }
    }

    /// The value at position `k` of the underlying state order.
    pub(crate) fn value_at(&self, k: usize) -> (r: i64)
        requires
            k < self@.len(),
        ensures
            r == self@[k as int].1,
    {
        self.pairs[k].1
    }

    /// Replaces all values at once, keeping the keys.
    pub(crate) fn set_all(&mut self, vals: &Vec<i64>)
        requires
            vals@.len() == old(self)@.len(),
        ensures
            final(self)@.len() == old(self)@.len(),
            forall|k: int|
                0 <= k < final(self)@.len() ==> #[trigger] final(self)@[k] == (
                old(self)@[k].0,
                vals@[k],
                ),
    {
        let n: usize = self.pairs.len();
        let mut k: usize = 0;
        while k < n
            invariant
                n == self@.len(),
                n == old(self)@.len(),
                n == vals@.len(),
                k <= n,
                forall|i: int| 0 <= i < k ==> #[trigger] self@[i] == (old(self)@[i].0, vals@[i]),
                forall|i: int| k <= i < n ==> #[trigger] self@[i] == old(self)@[i],
            decreases n - k,
        {
            let s: S = self.pairs[k].0;
            self.pairs.set(k, (s, vals[k]));
            k = k + 1;
        }
    }
}

/// Law: a state value built from a state sampler of size `N` has exactly
/// `N` entries, and every state produced by that sampler has an entry, so
/// a lookup of such a state never fails.
pub proof fn lemma_state_value_total<S: State>(sv: &StateValue<S>, states: Seq<S>, s: S)
    requires
        sv.wf(states),
        states.contains(s),
    ensures
        sv@.len() == states.len(),
        sv.contains_key(s),
        sv.spec_get(s) is Some,
{
    let ks = keys_of(sv@);
    assert(forall|k: int| 0 <= k < sv@.len() ==> ks[k] == (#[trigger] sv@[k]).0);
    let w = choose|w: int| 0 <= w < states.len() && states[w] == s;
    assert(ks[w] == s);
    ks.index_of_first_ensures(s);
}

/// A mapping from actions to scalar estimates for one fixed state, total
/// over the action sampler that built it.
#[derive(Debug, Clone)]
pub struct StateActionValue<A: Action> {
    pairs: Vec<(A, i64)>,
}

impl<A: Action> View for StateActionValue<A> {
    type V = Seq<(A, i64)>;

    closed spec fn view(&self) -> Seq<(A, i64)> {
        self.pairs@
    }
}

impl<A: Action> StateActionValue<A> {
    /// Whether some entry maps the action `a`.
    pub open spec fn contains_key(&self, a: A) -> bool {
        spec_contains_key(self@, a)
    }

    /// The value mapped to `a`, if any.
    pub open spec fn spec_get(&self, a: A) -> Option<i64> {
        spec_lookup(self@, a)
    }

    /// Every stored value lies within `VALUE_BOUND`.
    pub open spec fn bounded(&self) -> bool {
        forall|k: int|
            0 <= k < self@.len() ==> spec_abs((#[trigger] self@[k]).1 as int) <= VALUE_BOUND as int
    }

    /// No two entries share an action: built only over distinct-item
    /// samplers, so no entry can shadow another.
    pub open spec fn distinct_keys(&self) -> bool {
        forall|i: int, j: int|
            0 <= i < j < self@.len() ==> (#[trigger] self@[i]).0 != (#[trigger] self@[j]).0
    }

    /// Well-formed over the given action space: one entry per action, in
    /// sampler order, no two entries sharing an action, every value
    /// within bound.
    pub open spec fn wf(&self, actions: Seq<A>) -> bool {
        &&& self@.len() == actions.len()
        &&& forall|k: int| 0 <= k < self@.len() ==> (#[trigger] self@[k]).0 == actions[k]
        &&& self.bounded()
        &&& self.distinct_keys()
    }

    /// Creates a state-action value mapping every action of `actions` to
    /// zero.
    pub fn new(actions: &Sampler<A>) -> (r: StateActionValue<A>)
        requires
            actions.wf(),
            spec_distinct(actions@),
        ensures
            r.wf(actions@),
            forall|k: int| 0 <= k < r@.len() ==> (#[trigger] r@[k]).1 == 0,
    {
        let mut pairs: Vec<(A, i64)> = Vec::new();
        let n: usize = actions.len();
        let mut k: usize = 0;
        while k < n
            invariant
                n == actions@.len(),
                k <= n,
                pairs@.len() == k,
                forall|i: int| 0 <= i < k ==> (#[trigger] pairs@[i]).0 == actions@[i],
                forall|i: int| 0 <= i < k ==> (#[trigger] pairs@[i]).1 == 0,
            decreases n - k,
        {
            pairs.push((*actions.get(k), 0));
            k = k + 1;
        }
        StateActionValue { pairs }
    }

    /// The number of entries.
    pub fn len(&self) -> (r: usize)
        ensures
            r == self@.len(),
    {
        self.pairs.len()
    }

    /// Returns the value of the given action, or
    /// `NotFound::ActionInStateActionValue` if no entry maps it.
    pub fn get(&self, action: &A) -> (r: Result<i64, NotFound>)
        ensures
            (match r {
                Ok(v) => self.contains_key(*action) && self.spec_get(*action) == Some(v),
                Err(e) => !self.contains_key(*action) && e == NotFound::ActionInStateActionValue,
            }),
    {
        match find_first(&self.pairs, action) {
            Some(k) => {
                proof {
                    keys_of(self@).index_of_first_ensures(*action);
                }
                Ok(self.pairs[k].1)
            },
            None => {
                proof {
                    keys_of(self@).index_of_first_ensures(*action);
                }
                Err(NotFound::ActionInStateActionValue)
            },
        }
    }

    /// Overwrites the value of the given action; an unknown action is
    /// reported as `NotFound::ActionInStateActionValue` and changes
    /// nothing.
    pub fn insert(&mut self, action: &A, value: i64) -> (r: Result<(), NotFound>)
        ensures
            (match spec_find(old(self)@, *action) {
                Some(k) => r is Ok && final(self)@ == old(self)@.update(k, (*action, value))
                    && keys_of(final(self)@) == keys_of(old(self)@),
                None => r == Err::<(), NotFound>(NotFound::ActionInStateActionValue) && final(self)@ == old(self)@,
            }),
    {
        match find_first(&self.pairs, action) {
            Some(k) => {
                self.pairs.set(k, (*action, value));
                proof {
                    keys_of(old(self)@).index_of_first_ensures(*action);
                    assert(keys_of(self@) =~= keys_of(old(self)@));
                }
                Ok(())
            },
            None => Err(NotFound::ActionInStateActionValue),
        }
    }

    /// The value of an action known to have an entry.
    pub(crate) fn lookup(&self, action: &A) -> (r: i64)
        requires
            self.contains_key(*action),
        ensures
            Some(r) == self.spec_get(*action),
    {
        match find_first(&self.pairs, action) {
            Some(k) => self.pairs[k].1,
            None => {
                proof {
                    keys_of(self@).index_of_first_ensures(*action);
                    assert(false);
                }
                0
            },
        }
    }

    /// Returns the action with the highest value; exact ties go to the
    /// action that comes first in the underlying sampler order.
    pub fn greedy(&self) -> (r: A)
        requires
            self@.len() > 0,
        ensures
            r == spec_greedy(self@),
    {
        let n: usize = self.pairs.len();
        let mut best: usize = 0;
        let mut k: usize = 1;
        while k < n
            invariant
                n == self@.len(),
                0 < n,
                best < k <= n,
                best as int == best_index(self@, k as int),
            decreases n - k,
        {
            if self.pairs[k].1 > self.pairs[best].1 {
                best = k;
            }
            k = k + 1;
        }
        self.pairs[best].0
    }

    /// With probability `epsilon / SCALE` returns a uniformly random
    /// action from `actions` (which may be the greedy action by chance),
    /// otherwise returns the greedy action.
    pub fn epsilon_greedy(&self, actions: &Sampler<A>, epsilon: i64) -> (r: A)
        requires
            self.wf(actions@),
            actions.wf(),
            0 <= epsilon <= SCALE,
        ensures
            actions@.contains(r),
            epsilon == 0 ==> r == spec_greedy(self@),
    {
        let u: i64 = random_unit();
        if u < epsilon {
            *actions.get_random()
        } else {
            let a: A = self.greedy();
            proof {
                lemma_best_index(self@, self@.len() as int);
                let b = best_index(self@, self@.len() as int);
                assert(self@[b].0 == actions@[b]);
            }
            a
        }
    }
}

/// A mapping from states and actions to scalar estimates, total over the
/// state and action samplers that built it.
#[derive(Debug, Clone)]
pub struct ActionValue<S: State, A: Action> {
    pairs: Vec<(S, StateActionValue<A>)>,
}

impl<S: State, A: Action> View for ActionValue<S, A> {
    type V = Seq<(S, StateActionValue<A>)>;

    closed spec fn view(&self) -> Seq<(S, StateActionValue<A>)> {
        self.pairs@
    }
}

impl<S: State, A: Action> ActionValue<S, A> {
    /// Whether some entry maps the state `s`.
    pub open spec fn contains_key(&self, s: S) -> bool {
        spec_contains_key(self@, s)
    }

    /// The per-action table of `s`, if any.
    pub open spec fn spec_row(&self, s: S) -> Option<StateActionValue<A>> {
        spec_lookup(self@, s)
    }

    /// The value mapped to the pair `(s, a)`, if any.
    pub open spec fn spec_get(&self, s: S, a: A) -> Option<i64> {
        match spec_lookup(self@, s) {
            Some(row) => row.spec_get(a),
            None => None,
        }
    }

    /// Every row is total over the given action space.
    pub open spec fn rows_wf(&self, actions: Seq<A>) -> bool {
        forall|k: int| 0 <= k < self@.len() ==> (#[trigger] self@[k]).1.wf(actions)
    }

    /// No two top-level entries share a state: built only over
    /// distinct-item samplers, so no entry can shadow another.
    pub open spec fn distinct_keys(&self) -> bool {
        forall|i: int, j: int|
            0 <= i < j < self@.len() ==> (#[trigger] self@[i]).0 != (#[trigger] self@[j]).0
    }

    /// Well-formed over the given state and action spaces.
    pub open spec fn wf(&self, states: Seq<S>, actions: Seq<A>) -> bool {
        &&& self@.len() == states.len()
        &&& forall|k: int| 0 <= k < self@.len() ==> (#[trigger] self@[k]).0 == states[k]
        &&& self.rows_wf(actions)
        &&& self.distinct_keys()
    }

    /// Creates an action value mapping every state-action pair to zero.
    pub fn new(states: &Sampler<S>, actions: &Sampler<A>) -> (r: ActionValue<S, A>)
        requires
            states.wf(),
            actions.wf(),
            spec_distinct(states@),
            spec_distinct(actions@),
        ensures
            r.wf(states@, actions@),
            forall|k: int, j: int|
                0 <= k < r@.len() && 0 <= j < r@[k].1@.len() ==> (#[trigger] r@[k].1@[j]).1 == 0,
    {
        let mut pairs: Vec<(S, StateActionValue<A>)> = Vec::new();
        let n: usize = states.len();
        let mut k: usize = 0;
        while k < n
            invariant
                n == states@.len(),
                k <= n,
                actions.wf(),
                spec_distinct(actions@),
                pairs@.len() == k,
                forall|i: int| 0 <= i < k ==> (#[trigger] pairs@[i]).0 == states@[i],
                forall|i: int| 0 <= i < k ==> (#[trigger] pairs@[i]).1.wf(actions@),
                forall|i: int, j: int|
                    0 <= i < k && 0 <= j < pairs@[i].1@.len() ==> (#[trigger] pairs@[i].1@[j]).1
                        == 0,
            decreases n - k,
        {
            pairs.push((*states.get(k), StateActionValue::new(actions)));
            k = k + 1;
        }
        ActionValue { pairs }
    }

    /// The number of top-level entries.
    pub fn len(&self) -> (r: usize)
        ensures
            r == self@.len(),
    {
        self.pairs.len()
    }

    /// Returns the value of the given state-action pair, or the `NotFound`
    /// variant naming which of the two lookups failed.
    pub fn get(&self, state: &S, action: &A) -> (r: Result<i64, NotFound>)
        ensures
            (match r {
                Ok(v) => self.contains_key(*state) && self.spec_get(*state, *action) == Some(v),
                Err(e) => self.spec_get(*state, *action) is None && e == (
                if self.contains_key(*state) {
                    NotFound::ActionInStateActionValue
                } else {
                    NotFound::StateInActionValue
                }),
            }),
    {
        match find_first(&self.pairs, state) {
            Some(k) => {
                proof {
                    keys_of(self@).index_of_first_ensures(*state);
                }
                let res: Result<i64, NotFound> = self.pairs[k].1.get(action);
                proof {
                    assert(spec_lookup(self@, *state) == Some(self@[k as int].1));
                    if res is Err {
                        keys_of(self@[k as int].1@).index_of_first_ensures(*action);
                    }
                }
                res
            },
            None => {
                proof {
                    keys_of(self@).index_of_first_ensures(*state);
                }
                Err(NotFound::StateInActionValue)
            },
        }
    }

    /// Overwrites the value of the given state-action pair; a missing
    /// state or action is reported by the matching `NotFound` variant and
    /// changes nothing.
    pub fn insert(&mut self, state: &S, action: &A, value: i64) -> (r: Result<(), NotFound>)
        ensures
            (match spec_find(old(self)@, *state) {
                Some(k) => (match spec_find(old(self)@[k].1@, *action) {
                    Some(j) => r is Ok && final(self)@.len() == old(self)@.len() && (forall|i: int|
                        0 <= i < old(self)@.len() ==> (#[trigger] final(self)@[i]).0 == old(
                        self,
                        )@[i].0) && (forall|i: int|
                        0 <= i < old(self)@.len() && i != k ==> (#[trigger] final(self)@[i]).1@
                            == old(self)@[i].1@) && final(self)@[k].1@ == old(self)@[k].1@.update(
                        j,
                        (*action, value),
                    ),
                    None => r == Err::<(), NotFound>(NotFound::ActionInStateActionValue) && final(self)@.len()
                        == old(self)@.len() && (forall|i: int|
                        0 <= i < old(self)@.len() ==> (#[trigger] final(self)@[i]).0 == old(
                        self,
                        )@[i].0 && final(self)@[i].1@ == old(self)@[i].1@),
                }),
                None => r == Err::<(), NotFound>(NotFound::StateInActionValue) && final(self)@
                    == old(self)@,
            }),
    {
        match find_first(&self.pairs, state) {
            Some(k) => {
                let entry: (S, StateActionValue<A>) = self.pairs.remove(k);
                let s0: S = entry.0;
                let mut row: StateActionValue<A> = entry.1;
                let res: Result<(), NotFound> = row.insert(action, value);
                self.pairs.insert(k, (s0, row));
                proof {
                    assert(self@ =~= old(self)@.update(k as int, (s0, row)));
                }
                res
            },
            None => Err(NotFound::StateInActionValue),
        }
    }

    /// The value of a state-action pair known to have an entry.
    pub(crate) fn lookup_q(&self, state: &S, action: &A) -> (r: i64)
        requires
            self.contains_key(*state),
            (match spec_lookup(self@, *state) {
                Some(row) => row.contains_key(*action),
                None => false,
            }),
        ensures
            Some(r) == self.spec_get(*state, *action),
    {
        match find_first(&self.pairs, state) {
            Some(k) => self.pairs[k].1.lookup(action),
            None => {
                proof {
                    keys_of(self@).index_of_first_ensures(*state);
                    assert(false);
                }
                0
            },
        }
    }

    /// The greedy action of a state known to have an entry whose row is
    /// total over the action space.
    pub(crate) fn greedy_in(&self, state: &S) -> (r: A)
        requires
            self.contains_key(*state),
            (match spec_lookup(self@, *state) {
                Some(row) => row@.len() > 0,
                None => false,
            }),
        ensures
            (match spec_lookup(self@, *state) {
                Some(row) => r == spec_greedy(row@),
                None => false,
            }),
    {
        match find_first(&self.pairs, state) {
            Some(k) => self.pairs[k].1.greedy(),
            None => {
                proof {
                    keys_of(self@).index_of_first_ensures(*state);
                    assert(false);
                }
                self.pairs[0].1.greedy()
            },
        }
    }

    /// Returns the action with the highest value for the given state, or
    /// `NotFound::StateInActionValue` if no entry maps it. Exact ties go
    /// to the action that comes first in the underlying sampler order.
    pub fn greedy(&self, state: &S) -> (r: Result<A, NotFound>)
        requires
            forall|k: int| 0 <= k < self@.len() ==> (#[trigger] self@[k]).1@.len() > 0,
        ensures
            (match r {
                Ok(a) => self.contains_key(*state) && (match spec_lookup(self@, *state) {
                    Some(row) => a == spec_greedy(row@),
                    None => false,
                }),
                Err(e) => !self.contains_key(*state) && e == NotFound::StateInActionValue,
            }),
    {
        match find_first(&self.pairs, state) {
            Some(k) => {
                proof {
                    keys_of(self@).index_of_first_ensures(*state);
                }
                Ok(self.pairs[k].1.greedy())
            },
            None => {
                proof {
                    keys_of(self@).index_of_first_ensures(*state);
                }
                Err(NotFound::StateInActionValue)
            },
        }
    }

    /// The epsilon-greedy action of a state known to have an entry.
    pub(crate) fn epsilon_greedy_in(&self, actions: &Sampler<A>, state: &S, epsilon: i64) -> (r: A)
        requires
            self.contains_key(*state),
            self.rows_wf(actions@),
            actions.wf(),
            0 <= epsilon <= SCALE,
        ensures
            actions@.contains(r),
            (match spec_lookup(self@, *state) {
                Some(row) => epsilon == 0 ==> r == spec_greedy(row@),
                None => false,
            }),
    {
        match find_first(&self.pairs, state) {
            Some(k) => self.pairs[k].1.epsilon_greedy(actions, epsilon),
            None => {
                proof {
                    keys_of(self@).index_of_first_ensures(*state);
                    assert(false);
                }
                *actions.get_random()
            },
        }
    }

    /// For the given state, returns a uniformly random action with
    /// probability `epsilon / SCALE` and the greedy action otherwise, or
    /// `NotFound::StateInActionValue` if no entry maps the state.
    pub fn epsilon_greedy(&self, actions: &Sampler<A>, state: &S, epsilon: i64) -> (r: Result<
        A,
        NotFound,
    >)
        requires
            self.rows_wf(actions@),
            actions.wf(),
            0 <= epsilon <= SCALE,
        ensures
            (match r {
                Ok(a) => self.contains_key(*state) && actions@.contains(a) && (match spec_lookup(
                    self@,
                    *state,
                ) {
                    Some(row) => epsilon == 0 ==> a == spec_greedy(row@),
                    None => false,
                }),
                Err(e) => !self.contains_key(*state) && e == NotFound::StateInActionValue,
            }),
    {
        match find_first(&self.pairs, state) {
            Some(k) => {
                proof {
                    keys_of(self@).index_of_first_ensures(*state);
                }
                Ok(self.pairs[k].1.epsilon_greedy(actions, epsilon))
            },
            None => {
                proof {
                    keys_of(self@).index_of_first_ensures(*state);
                }
                Err(NotFound::StateInActionValue)
            },
        }
    }

    /// Returns a policy that maps each state to its greedy action.
    pub fn greedy_policy(&self, states: &Sampler<S>, actions: &Sampler<A>) -> (r: Policy<S, A>)
        requires
            self.wf(states@, actions@),
            states.wf(),
            actions.wf(),
        ensures
            r.wf(states@, actions@),
            forall|k: int|
                0 <= k < states@.len() ==> (#[trigger] r@[k]).1 == spec_greedy(self@[k].1@),
    {
        proof {
            assert forall|i: int, j: int| 0 <= i < j < states@.len() implies states@[i]
                != states@[j] by {
                assert(self@[i].0 == states@[i]);
                assert(self@[j].0 == states@[j]);
            }
        }
        let mut policy: Policy<S, A> = Policy::new(states, actions);
        let n: usize = states.len();
        let mut k: usize = 0;
        while k < n
            invariant
                n == states@.len(),
                self.wf(states@, actions@),
                actions@.len() > 0,
                policy.wf(states@, actions@),
                k <= n,
                forall|i: int| 0 <= i < k ==> (#[trigger] policy@[i]).1 == spec_greedy(self@[i].1@),
            decreases n - k,
        {
            let a: A = self.pairs[k].1.greedy();
            proof {
                lemma_best_index(self@[k as int].1@, self@[k as int].1@.len() as int);
                let b = best_index(self@[k as int].1@, self@[k as int].1@.len() as int);
                assert(self@[k as int].1@[b].0 == actions@[b]);
            }
            policy.set_at(k, a);
            k = k + 1;
        }
        policy
    }
}

/// Law: an action value built from a state sampler of size `N` has
/// exactly `N` top-level entries, and every state produced by that
/// sampler has an entry, so a lookup of such a state never fails.
pub proof fn lemma_action_value_total<S: State, A: Action>(
    av: &ActionValue<S, A>,
    states: Seq<S>,
    actions: Seq<A>,
    s: S,
)
    requires
        av.wf(states, actions),
        states.contains(s),
    ensures
        av@.len() == states.len(),
        av.contains_key(s),
        av.spec_row(s) is Some,
{
    let ks = keys_of(av@);
    assert(forall|k: int| 0 <= k < av@.len() ==> ks[k] == (#[trigger] av@[k]).0);
    let w = choose|w: int| 0 <= w < states.len() && states[w] == s;
    assert(ks[w] == s);
    ks.index_of_first_ensures(s);
}

} // verus!
