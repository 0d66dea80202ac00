//! Dynamic-programming solvers: policy evaluation, policy improvement,
//! policy iteration and value iteration.

use vstd::prelude::*;
use crate::errors::SolverError;
use crate::fixed::{abs_diff, backup, spec_abs, spec_backup, VALUE_BOUND};
use crate::models::config::Config;
use crate::models::lookup::keys_of;
use crate::models::mdp::MDP;
use crate::models::policy::Policy;
use crate::models::sampler::Sampler;
use crate::models::value::{lemma_state_value_total, StateValue};

verus! {

/// Convergence threshold of the evaluation sweeps: `1e-5` in fixed-point
/// units.
pub const CONVERGENCE_THRESHOLD: i64 = 10;

/// The table entry of state `s`: the value at the state's first position
/// in the state order, or zero for a state outside it.
pub open spec fn spec_state_value<S>(states: Seq<S>, vals: Seq<i64>, s: S) -> int {
    match states.index_of_first(s) {
        Some(i) => vals[i] as int,
        None => 0,
    }
}

/// The one-step backup of state `s` under action `a`:
/// `reward + discount * value of the next state`, clamped.
pub open spec fn spec_q<M: MDP>(
    m: &M,
    discount: int,
    vals: Seq<i64>,
    s: M::State,
    a: M::Action,
) -> int {
    spec_backup(
        m.spec_transition(s, a).1 as int,
        discount,
        spec_state_value(m.spec_states(), vals, m.spec_transition(s, a).0),
    )
}

/// One synchronous evaluation sweep: every state's new value is computed
/// from the previous table.
pub open spec fn spec_sweep<M: MDP>(
    m: &M,
    discount: int,
    pol: Seq<M::Action>,
    vals: Seq<i64>,
) -> Seq<i64> {
    Seq::new(
        m.spec_states().len(),
        |k: int| spec_q(m, discount, vals, m.spec_states()[k], pol[k]) as i64,
    )
}

/// `n` evaluation sweeps from `vals`.
pub open spec fn spec_sweeps<M: MDP>(
    m: &M,
    discount: int,
    pol: Seq<M::Action>,
    vals: Seq<i64>,
    n: nat,
) -> Seq<i64>
    decreases n,
{
    if n == 0 {
        vals
    } else {
        spec_sweep(m, discount, pol, spec_sweeps(m, discount, pol, vals, (n - 1) as nat))
    }
}

/// The largest absolute difference among the first `n` entries.
pub open spec fn spec_max_diff(a: Seq<i64>, b: Seq<i64>, n: int) -> int
    decreases n,
{
    if n <= 0 {
        0
    } else {
        let d = spec_abs(a[n - 1] as int - b[n - 1] as int);
        let rest = spec_max_diff(a, b, n - 1);
        if d > rest {
            d
        } else {
            rest
        }
    }
}

/// Whether the evaluation loop stops after completing sweep `j >= 1`:
/// the sweep changed no value by the threshold or more, the sweep cap is
/// reached, or the `max_num_steps` safety bound is reached.
pub open spec fn spec_eval_stop<M: MDP>(
    m: &M,
    config: &Config,
    pol: Seq<M::Action>,
    init: Seq<i64>,
    j: nat,
) -> bool
    recommends
        j >= 1,
{
    ||| spec_max_diff(
        spec_sweeps(m, config.discount_factor as int, pol, init, j),
        spec_sweeps(m, config.discount_factor as int, pol, init, (j - 1) as nat),
        m.spec_states().len() as int,
    ) < CONVERGENCE_THRESHOLD as int
    ||| (match config.iterations_before_improvement {
        Some(c) => j >= c,
        None => false,
    })
    ||| j >= config.max_num_steps
}

/// The warm-start table of an evaluation run: the given table, or all
/// zeros.
pub open spec fn spec_eval_init<M: MDP>(
    initial: Option<StateValue<<M as MDP>::State>>,
    m: &M,
) -> Seq<i64> {
    match initial {
        Some(sv) => sv.values(),
        None => Seq::new(m.spec_states().len(), |k: int| 0i64),
    }
}

/// What policy evaluation returns: the table after exactly `j` sweeps
/// from `init`, where sweep `j` is the first one at which the loop
/// stops.
pub open spec fn spec_eval_result<M: MDP>(
    m: &M,
    config: &Config,
    pol: Seq<M::Action>,
    init: Seq<i64>,
    j: nat,
    out: Seq<i64>,
) -> bool {
    &&& j >= 1
    &&& out == spec_sweeps(m, config.discount_factor as int, pol, init, j)
    &&& spec_eval_stop(m, config, pol, init, j)
    &&& forall|i: nat| 1 <= i < j ==> !spec_eval_stop(m, config, pol, init, i)
}

/// The one-step backup of `(s, a)`, executed.
fn q_value<M: MDP>(
    mdp: &M,
    config: &Config,
    state_value: &StateValue<M::State>,
    s: &M::State,
    a: &M::Action,
) -> (r: i64)
    requires
        mdp.wf(),
        config.wf(),
        state_value.wf(mdp.spec_states()),
        mdp.spec_states().contains(*s),
        mdp.spec_actions().contains(*a),
    ensures
        r as int == spec_q(mdp, config.discount_factor as int, state_value.values(), *s, *a),
        spec_abs(r as int) <= VALUE_BOUND as int,
{
    let t: (M::State, i64) = mdp.transition(s, a);
    proof {
        lemma_state_value_total(state_value, mdp.spec_states(), t.0);
        keys_of(state_value@).index_of_first_ensures(t.0);
    }
    let next_val: i64 = state_value.lookup(&t.0);
    let r: i64 = backup(t.1, config.discount_factor, next_val);
    proof {
        assert(keys_of(state_value@) =~= mdp.spec_states()) by {
            assert(forall|i: int|
                0 <= i < state_value@.len() ==> keys_of(state_value@)[i] == (
                #[trigger] state_value@[i]).0);
        }
        assert(next_val as int == spec_state_value(
            mdp.spec_states(),
            state_value.values(),
            t.0,
        ));
    }
    r
}

/// Iteratively applies the Bellman backup of the fixed `policy` to the
/// state-value table until the largest change of one sweep falls below
/// the convergence threshold, or, if `iterations_before_improvement` is
/// set, until that many sweeps are done. Each sweep reads the table of
/// the previous sweep. Starts from `initial_state_value`, or from all
/// zeros.
pub fn policy_evaluation<M: MDP>(
    mdp: &M,
    config: &Config,
    policy: &Policy<M::State, M::Action>,
    initial_state_value: Option<StateValue<M::State>>,
) -> (r: StateValue<M::State>)
    requires
        mdp.wf(),
        config.wf(),
        policy.wf(mdp.spec_states(), mdp.spec_actions()),
        (match initial_state_value {
            Some(sv) => sv.wf(mdp.spec_states()),
            None => true,
        }),
    ensures
        r.wf(mdp.spec_states()),
        exists|j: nat|
            spec_eval_result(
                mdp,
                config,
                policy.spec_actions(),
                spec_eval_init(initial_state_value, mdp),
                j,
                r.values(),
            ),
{
    let ghost states_seq = mdp.spec_states();
    let ghost pol = policy.spec_actions();
    let ghost discount = config.discount_factor as int;
    let ghost init = spec_eval_init(initial_state_value, mdp);
    let states: &Sampler<M::State> = mdp.get_states();
    let n: usize = states.len();
    let mut state_value: StateValue<M::State> = match initial_state_value {
        Some(sv) => sv,
        None => StateValue::new(states),
    };
    proof {
        assert(state_value.values() =~= init);
    }
    let mut iteration: u32 = 0;
    let ghost mut j: nat = 0;
    loop
        invariant_except_break
            forall|i: nat| 1 <= i <= j ==> !spec_eval_stop(mdp, config, pol, init, i),
        invariant
            mdp.wf(),
            config.wf(),
            policy.wf(states_seq, mdp.spec_actions()),
            states_seq == mdp.spec_states(),
            pol == policy.spec_actions(),
            discount == config.discount_factor as int,
            states@ == states_seq,
            states.wf(),
            n == states_seq.len(),
            state_value.wf(states_seq),
            state_value.values() == spec_sweeps(mdp, discount, pol, init, j),
            iteration as nat == j,
        ensures
            exists|jj: nat| spec_eval_result(mdp, config, pol, init, jj, state_value.values()),
        decreases config.max_num_steps - iteration,
    {
        proof {
            if j >= 1 {
                assert(!spec_eval_stop(mdp, config, pol, init, j));
            }
            assert(iteration < config.max_num_steps || j == 0);
        }
        let ghost old_vals = state_value.values();
        let ghost sweep_seq = spec_sweep(mdp, discount, pol, old_vals);
        let mut new_vals: Vec<i64> = Vec::new();
        let mut delta: i64 = 0;
        let mut k: usize = 0;
        while k < n
            invariant
                mdp.wf(),
                config.wf(),
                policy.wf(states_seq, mdp.spec_actions()),
                states_seq == mdp.spec_states(),
                pol == policy.spec_actions(),
                discount == config.discount_factor as int,
                states@ == states_seq,
                states.wf(),
                n == states_seq.len(),
                state_value.wf(states_seq),
                old_vals == state_value.values(),
                sweep_seq == spec_sweep(mdp, discount, pol, old_vals),
                k <= n,
                new_vals@.len() == k,
                forall|i: int| 0 <= i < k ==> #[trigger] new_vals@[i] == sweep_seq[i],
                0 <= delta,
                delta as int == spec_max_diff(sweep_seq, old_vals, k as int),
            decreases n - k,
        {
            let s: M::State = *states.get(k);
            let a: M::Action = policy.action_at(k);
            proof {
                assert(states_seq.contains(s)) by {
                    assert(states_seq[k as int] == s);
                }
                assert(policy@[k as int].1 == pol[k as int]);
            }
            let new_v: i64 = q_value(mdp, config, &state_value, &s, &a);
            let old_v: i64 = state_value.value_at(k);
            let d: i64 = abs_diff(new_v, old_v);
            if d > delta {
                delta = d;
            }
            new_vals.push(new_v);
            proof {
                assert(new_vals@[k as int] == sweep_seq[k as int]);
                assert(old_vals[k as int] == state_value@[k as int].1);
            }
            k = k + 1;
        }
        state_value.set_all(&new_vals);
        proof {
            j = j + 1;
            assert(state_value.values() =~= new_vals@);
            assert(new_vals@ =~= sweep_seq);
            assert(state_value.values() == spec_sweeps(mdp, discount, pol, init, j));
            assert forall|i: int| 0 <= i < state_value@.len() implies spec_abs(
                (#[trigger] state_value@[i]).1 as int,
            ) <= VALUE_BOUND as int by {
                assert(state_value@[i].1 == sweep_seq[i]);
            };
        }
        iteration = iteration + 1;
        let cap_reached: bool = match config.iterations_before_improvement {
            Some(c) => iteration >= c,
            None => false,
        };
        if delta < CONVERGENCE_THRESHOLD || cap_reached || iteration >= config.max_num_steps {
            proof {
                assert(spec_eval_stop(mdp, config, pol, init, j));
                assert(spec_eval_result(mdp, config, pol, init, j, state_value.values()));
            }
            break;
        }
        proof {
            assert(!spec_eval_stop(mdp, config, pol, init, j));
        }
    }
    state_value
}

/// The index of the first action attaining the maximal one-step backup
/// at state `s`, among the first `n` actions.
pub open spec fn spec_best_action_index<M: MDP>(
    m: &M,
    discount: int,
    vals: Seq<i64>,
    s: M::State,
    n: int,
) -> int
    decreases n,
{
    if n <= 1 {
        0
    } else {
        let b = spec_best_action_index(m, discount, vals, s, n - 1);
        if spec_q(m, discount, vals, s, m.spec_actions()[n - 1]) > spec_q(
            m,
            discount,
            vals,
            s,
            m.spec_actions()[b],
        ) {
            n - 1
        } else {
            b
        }
    }
}

/// `spec_best_action_index` lies in range.
proof fn lemma_best_action_index<M: MDP>(m: &M, discount: int, vals: Seq<i64>, s: M::State, n: int)
    requires
        1 <= n,
    ensures
        0 <= spec_best_action_index(m, discount, vals, s, n) < n,
    decreases n,
{
    if n > 1 {
        lemma_best_action_index(m, discount, vals, s, n - 1);
    }
}

/// The greedy one-step-lookahead action at state `s`: ties go to the
/// action that comes first in sampler order.
pub open spec fn spec_improved_action<M: MDP>(
    m: &M,
    discount: int,
    vals: Seq<i64>,
    s: M::State,
) -> M::Action {
    m.spec_actions()[spec_best_action_index(m, discount, vals, s, m.spec_actions().len() as int)]
}

/// The greedy one-step-lookahead action at every state, in state order.
pub open spec fn spec_improved_actions<M: MDP>(m: &M, discount: int, vals: Seq<i64>) -> Seq<
    M::Action,
> {
    Seq::new(
        m.spec_states().len(),
        |k: int| spec_improved_action(m, discount, vals, m.spec_states()[k]),
    )
}

/// Computes the policy that picks, at every state, the action whose
/// one-step backup `reward + discount * state_value(next)` is maximal;
/// exact ties go to the action that comes first in sampler order. Does
/// not mutate its inputs.
pub fn policy_improvement<M: MDP>(
    mdp: &M,
    config: &Config,
    state_value: &StateValue<M::State>,
) -> (r: Policy<M::State, M::Action>)
    requires
        mdp.wf(),
        config.wf(),
        state_value.wf(mdp.spec_states()),
    ensures
        r.wf(mdp.spec_states(), mdp.spec_actions()),
        r.spec_actions() == spec_improved_actions(
            mdp,
            config.discount_factor as int,
            state_value.values(),
        ),
{
    let ghost states_seq = mdp.spec_states();
    let ghost actions_seq = mdp.spec_actions();
    let ghost discount = config.discount_factor as int;
    let ghost vals = state_value.values();
    let states: &Sampler<M::State> = mdp.get_states();
    let actions: &Sampler<M::Action> = mdp.get_actions();
    let n: usize = states.len();
    let m: usize = actions.len();
    let mut policy: Policy<M::State, M::Action> = Policy::new(states, actions);
    let mut k: usize = 0;
    while k < n
        invariant
            mdp.wf(),
            config.wf(),
            state_value.wf(states_seq),
            states_seq == mdp.spec_states(),
            actions_seq == mdp.spec_actions(),
            discount == config.discount_factor as int,
            vals == state_value.values(),
            states@ == states_seq,
            actions@ == actions_seq,
            states.wf(),
            actions.wf(),
            n == states_seq.len(),
            m == actions_seq.len(),
            policy.wf(states_seq, actions_seq),
            k <= n,
            forall|i: int|
                0 <= i < k ==> (#[trigger] policy@[i]).1 == spec_improved_action(
                    mdp,
                    discount,
                    vals,
                    states_seq[i],
                ),
        decreases n - k,
    {
        let s: M::State = *states.get(k);
        proof {
            assert(states_seq.contains(s)) by {
                assert(states_seq[k as int] == s);
            }
            assert(actions_seq.contains(actions_seq[0])) by {
                assert(actions_seq[0] == actions_seq[0]);
            }
        }
        let a0: M::Action = *actions.get(0);
        let mut best_val: i64 = q_value(mdp, config, state_value, &s, &a0);
        let mut best_idx: usize = 0;
        let mut l: usize = 1;
        while l < m
            invariant
                mdp.wf(),
                config.wf(),
                state_value.wf(states_seq),
                states_seq == mdp.spec_states(),
                actions_seq == mdp.spec_actions(),
                discount == config.discount_factor as int,
                vals == state_value.values(),
                actions@ == actions_seq,
                actions.wf(),
                m == actions_seq.len(),
                states_seq.contains(s),
                best_idx < l <= m,
                best_idx as int == spec_best_action_index(mdp, discount, vals, s, l as int),
                best_val as int == spec_q(mdp, discount, vals, s, actions_seq[best_idx as int]),
            decreases m - l,
        {
            let a: M::Action = *actions.get(l);
            proof {
                assert(actions_seq.contains(a)) by {
                    assert(actions_seq[l as int] == a);
                }
            }
            let q: i64 = q_value(mdp, config, state_value, &s, &a);
            if q > best_val {
                best_val = q;
                best_idx = l;
            }
            l = l + 1;
        }
        let best_action: M::Action = *actions.get(best_idx);
        policy.set_at(k, best_action);
        proof {
            assert(best_action == spec_improved_action(mdp, discount, vals, s));
            assert forall|i: int| 0 <= i < policy@.len() implies actions_seq.contains(
                (#[trigger] policy@[i]).1,
            ) by {
                if i == k {
                    assert(policy@[i].1 == actions_seq[best_idx as int]);
                }
            };
        }
        k = k + 1;
    }
    proof {
        assert(policy.spec_actions() =~= spec_improved_actions(mdp, discount, vals));
    }
    policy
}

/// What the combined iteration loop produced: the converged evaluation
/// of a policy that is its own one-step-greedy improvement.
pub open spec fn spec_iteration_fixpoint<M: MDP>(m: &M, config: &Config, out: Seq<i64>) -> bool {
    exists|pol: Seq<M::Action>, init: Seq<i64>, j: nat|
        #![auto]
        spec_eval_result(m, config, pol, init, j, out) && spec_improved_actions(
            m,
            config.discount_factor as int,
            out,
        ) == pol
}


/// Alternates policy evaluation (to convergence, or to the sweep cap
/// under value-iteration semantics) with policy improvement, starting
/// from a random policy and the all-zero table, until the improved
/// policy equals the evaluated one; `max_num_steps` bounds the number of
/// improvement rounds.
fn policy_value_iteration<M: MDP>(mdp: &M, config: &Config) -> (r: Result<
    StateValue<M::State>,
    SolverError,
>)
    requires
        mdp.wf(),
        config.wf(),
    ensures
        (match r {
            Ok(sv) => sv.wf(mdp.spec_states()) && spec_iteration_fixpoint(
                mdp,
                config,
                sv.values(),
            ),
            Err(e) => e == SolverError::RoundLimitReached,
        }),
{
    let ghost states_seq = mdp.spec_states();
    let ghost actions_seq = mdp.spec_actions();
    let states: &Sampler<M::State> = mdp.get_states();
    let actions: &Sampler<M::Action> = mdp.get_actions();
    let mut state_value: StateValue<M::State> = StateValue::new(states);
    let mut policy: Policy<M::State, M::Action> = Policy::new(states, actions);
    let mut rounds: u32 = 0;
    loop
        invariant
            mdp.wf(),
            config.wf(),
            states_seq == mdp.spec_states(),
            actions_seq == mdp.spec_actions(),
            state_value.wf(states_seq),
            policy.wf(states_seq, actions_seq),
            rounds <= config.max_num_steps,
        decreases config.max_num_steps - rounds,
    {
        if rounds >= config.max_num_steps {
            return Err(SolverError::RoundLimitReached);
        }
        let ghost prev_vals = state_value.values();
        let ghost pol = policy.spec_actions();
        state_value = policy_evaluation(mdp, config, &policy, Some(state_value));
        let new_policy: Policy<M::State, M::Action> = policy_improvement(mdp, config, &state_value);
        if new_policy.equals(&policy) {
            proof {
                let jj = choose|jj: nat|
                    spec_eval_result(mdp, config, pol, prev_vals, jj, state_value.values());
                assert(new_policy.spec_actions() =~= pol);
                assert(spec_improved_actions(
                    mdp,
                    config.discount_factor as int,
                    state_value.values(),
                ) == pol);
                assert(spec_eval_result(mdp, config, pol, prev_vals, jj, state_value.values()));
            }
            return Ok(state_value);
        }
        policy = new_policy;
        rounds = rounds + 1;
    }
}

/// Policy iteration: repeated full policy evaluation and greedy policy
/// improvement until the policy is a fixed point. The configuration must
/// not set `iterations_before_improvement`; `max_num_steps` bounds the
/// number of improvement rounds.
pub fn policy_iteration<M: MDP>(mdp: &M, config: &Config) -> (r: Result<
    StateValue<M::State>,
    SolverError,
>)
    requires
        mdp.wf(),
        config.wf(),
    ensures
        (match r {
            Ok(sv) => config.iterations_before_improvement is None && sv.wf(mdp.spec_states())
                && spec_iteration_fixpoint(mdp, config, sv.values()),
            Err(e) => (e == SolverError::IterationCapSet
                && config.iterations_before_improvement is Some) || (e
                == SolverError::RoundLimitReached && config.iterations_before_improvement
                is None),
        }),
{
    match config.iterations_before_improvement {
        Some(_) => Err(SolverError::IterationCapSet),
        None => policy_value_iteration(mdp, config),
    }
}

/// Value iteration: the same loop as policy iteration, but each
/// evaluation performs only the capped number of sweeps. The
/// configuration must set `iterations_before_improvement` to a positive
/// cap; `max_num_steps` bounds the number of improvement rounds.
pub fn value_iteration<M: MDP>(mdp: &M, config: &Config) -> (r: Result<
    StateValue<M::State>,
    SolverError,
>)
    requires
        mdp.wf(),
        config.wf(),
    ensures
        (match r {
            Ok(sv) => (match config.iterations_before_improvement {
                Some(c) => c > 0,
                None => false,
            }) && sv.wf(mdp.spec_states()) && spec_iteration_fixpoint(mdp, config, sv.values()),
            Err(e) => (e == SolverError::IterationCapMissing && (match config.iterations_before_improvement {
                Some(c) => c == 0,
                None => true,
            })) || (e == SolverError::RoundLimitReached && (match config.iterations_before_improvement {
                Some(c) => c > 0,
                None => false,
            })),
        }),
{
    let run: bool = match config.iterations_before_improvement {
        Some(c) => c > 0,
        None => false,
    };
    if run {
        policy_value_iteration(mdp, config)
    } else {
        Err(SolverError::IterationCapMissing)
    }
}

} // verus!
