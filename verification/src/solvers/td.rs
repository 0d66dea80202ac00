//! Temporal-difference solvers: SARSA and Q-learning, two
//! specializations of one parameterized online-update loop.

use vstd::prelude::*;
use crate::fixed::{backup, spec_abs, spec_backup, spec_td_update, td_update, VALUE_BOUND};
use crate::models::config::Config;
use crate::models::lookup::{keys_of, spec_find, spec_lookup};
use crate::models::sampler::Sampler;
use crate::models::mdp::{Action, State, MDP};
use crate::models::value::{lemma_action_value_total, lemma_best_index, spec_greedy, ActionValue};

verus! {

/// One observed step of a temporal-difference episode: the pair that is
/// updated, the observed transition, and the action already chosen for
/// the next step.
pub struct TdStep<S, A> {
    pub state: S,
    pub action: A,
    pub next_state: S,
    pub reward: i64,
    pub next_action: A,
}

/// The stored value of the pair `(s, a)`, or zero if the table has no
/// entry for it.
pub open spec fn spec_av_value<S: State, A: Action>(av: ActionValue<S, A>, s: S, a: A) -> int {
    match av.spec_get(s, a) {
        Some(v) => v as int,
        None => 0,
    }
}

/// The per-action table of `s`, or the empty table if `s` has no entry.
pub open spec fn spec_row_pairs<S: State, A: Action>(av: ActionValue<S, A>, s: S) -> Seq<(A, i64)> {
    match spec_lookup(av@, s) {
        Some(row) => row@,
        None => Seq::empty(),
    }
}

/// The new table equals the old one with the entry of `(s, a)` set to
/// `v`, at the view level.
pub open spec fn spec_av_updated<S: State, A: Action>(
    old_av: ActionValue<S, A>,
    new_av: ActionValue<S, A>,
    s: S,
    a: A,
    v: int,
) -> bool {
    match spec_find(old_av@, s) {
        Some(k) => (match spec_find(old_av@[k].1@, a) {
            Some(j) => {
                &&& new_av@.len() == old_av@.len()
                &&& forall|i: int|
                    0 <= i < old_av@.len() ==> (#[trigger] new_av@[i]).0 == old_av@[i].0
                &&& forall|i: int|
                    0 <= i < old_av@.len() && i != k ==> (#[trigger] new_av@[i]).1@
                        == old_av@[i].1@
                &&& new_av@[k].1@ == old_av@[k].1@.update(j, (a, v as i64))
            },
            None => false,
        }),
        None => false,
    }
}

/// One temporal-difference update for the observed transition
/// `(s, a) -> (s2, reward)` with the already chosen `next_action`: the
/// entry of `(s, a)` becomes `q + learning_rate * (target - q)` where
/// `target = reward + discount_factor * q_next`, and `q_next` is the
/// value at `s2` of `next_action` (SARSA) or of the greedy action
/// (Q-learning); every other entry is unchanged.
pub open spec fn spec_td_step_post<S: State, A: Action>(
    config: &Config,
    old_av: ActionValue<S, A>,
    new_av: ActionValue<S, A>,
    s: S,
    a: A,
    s2: S,
    reward: i64,
    next_action: A,
    use_max_next_action: bool,
) -> bool {
    let q_next = if use_max_next_action {
        spec_av_value(old_av, s2, spec_greedy(spec_row_pairs(old_av, s2)))
    } else {
        spec_av_value(old_av, s2, next_action)
    };
    let target = spec_backup(reward as int, config.discount_factor as int, q_next);
    let q = spec_av_value(old_av, s, a);
    spec_av_updated(old_av, new_av, s, a, spec_td_update(q, target, config.learning_rate as int))
}

/// Performs one temporal-difference update on the table, for the
/// observed transition `(state, action) -> (next_state, reward)` and the
/// already chosen `next_action`.
pub fn td_step<M: MDP>(
    action_value: &mut ActionValue<M::State, M::Action>,
    mdp: &M,
    config: &Config,
    state: &M::State,
    action: &M::Action,
    next_state: &M::State,
    reward: i64,
    next_action: &M::Action,
    use_max_next_action: bool,
)
    requires
        mdp.wf(),
        config.wf(),
        old(action_value).wf(mdp.spec_states(), mdp.spec_actions()),
        mdp.spec_states().contains(*state),
        mdp.spec_actions().contains(*action),
        mdp.spec_states().contains(*next_state),
        mdp.spec_actions().contains(*next_action),
        spec_abs(reward as int) <= VALUE_BOUND as int,
    ensures
        final(action_value).wf(mdp.spec_states(), mdp.spec_actions()),
        spec_td_step_post(
            config,
            *old(action_value),
            *final(action_value),
            *state,
            *action,
            *next_state,
            reward,
            *next_action,
            use_max_next_action,
        ),
{
    let ghost states_seq = mdp.spec_states();
    let ghost actions_seq = mdp.spec_actions();
    proof {
        lemma_action_value_total(action_value, states_seq, actions_seq, *next_state);
        keys_of(action_value@).index_of_first_ensures(*next_state);
        let k2 = keys_of(action_value@).index_of_first(*next_state).unwrap();
        assert(action_value@[k2].1.wf(actions_seq));
        assert(keys_of(action_value@[k2].1@) =~= actions_seq) by {
            assert(forall|i: int|
                0 <= i < action_value@[k2].1@.len() ==> keys_of(action_value@[k2].1@)[i] == (
                #[trigger] action_value@[k2].1@[i]).0);
        }
    }
    let q_next: i64 = if use_max_next_action {
        let greedy_action: M::Action = action_value.greedy_in(next_state);
        proof {
            let k2 = keys_of(action_value@).index_of_first(*next_state).unwrap();
            let row = action_value@[k2].1;
            lemma_best_index(row@, row@.len() as int);
            assert(row.contains_key(greedy_action)) by {
                let b = crate::models::value::best_index(row@, row@.len() as int);
                assert(keys_of(row@)[b] == greedy_action);
            }
        }
        action_value.lookup_q(next_state, &greedy_action)
    } else {
        proof {
            let k2 = keys_of(action_value@).index_of_first(*next_state).unwrap();
            let row = action_value@[k2].1;
            assert(row.contains_key(*next_action)) by {
                let w = choose|w: int|
                    0 <= w < actions_seq.len() && actions_seq[w] == *next_action;
                assert(keys_of(row@)[w] == *next_action);
            }
        }
        action_value.lookup_q(next_state, next_action)
    };
    proof {
        // the read value is bounded, from the row's well-formedness
        let k2 = keys_of(action_value@).index_of_first(*next_state).unwrap();
        let row = action_value@[k2].1;
        keys_of(row@).index_of_first_ensures(
            if use_max_next_action {
                spec_greedy(spec_row_pairs(*action_value, *next_state))
            } else {
                *next_action
            },
        );
        lemma_action_value_total(action_value, states_seq, actions_seq, *state);
        keys_of(action_value@).index_of_first_ensures(*state);
        let k1 = keys_of(action_value@).index_of_first(*state).unwrap();
        let row1 = action_value@[k1].1;
        assert(row1.wf(actions_seq));
        assert(keys_of(row1@) =~= actions_seq) by {
            assert(forall|i: int|
                0 <= i < row1@.len() ==> keys_of(row1@)[i] == (#[trigger] row1@[i]).0);
        }
        assert(row1.contains_key(*action)) by {
            let w = choose|w: int| 0 <= w < actions_seq.len() && actions_seq[w] == *action;
            assert(keys_of(row1@)[w] == *action);
        }
        keys_of(row1@).index_of_first_ensures(*action);
    }
    let current: i64 = action_value.lookup_q(state, action);
    let target: i64 = backup(reward, config.discount_factor, q_next);
    let updated: i64 = td_update(current, target, config.learning_rate);
    let res: Result<(), crate::errors::NotFound> = action_value.insert(state, action, updated);
    proof {
        if res is Err {
            assert(false);
        }
        assert forall|i: int| 0 <= i < action_value@.len() implies (
        #[trigger] action_value@[i]).1.wf(actions_seq) by {
            let k1 = keys_of(old(action_value)@).index_of_first(*state).unwrap();
            assert(old(action_value)@[i].1.wf(actions_seq));
            if i == k1 {
                let j1 = keys_of(old(action_value)@[k1].1@).index_of_first(*action).unwrap();
                assert(action_value@[i].1@ == old(action_value)@[i].1@.update(
                    j1,
                    (*action, updated),
                ));
            } else {
                assert(action_value@[i].1@ == old(action_value)@[i].1@);
            }
        };
    }
}

/// The shared online loop of SARSA and Q-learning: for each episode,
/// start at a uniformly random state, pick actions epsilon-greedily, and
/// apply one temporal-difference update per step, for at most
/// `max_num_steps` steps or until a terminal state is reached.
fn sarsa_q_learning<M: MDP>(mdp: &M, config: &Config, use_max_next_action: bool) -> (r:
    ActionValue<M::State, M::Action>)
    requires
        mdp.wf(),
        config.wf(),
    ensures
        r.wf(mdp.spec_states(), mdp.spec_actions()),
        r@.len() == mdp.spec_states().len(),
        spec_td_result(mdp, config, use_max_next_action, r),
        config.num_episodes == 0 ==> forall|k: int, l: int|
            0 <= k < r@.len() && 0 <= l < r@[k].1@.len() ==> (#[trigger] r@[k].1@[l]).1 == 0,
{
    let ghost states_seq = mdp.spec_states();
    let ghost actions_seq = mdp.spec_actions();
    let states: &Sampler<M::State> = mdp.get_states();
    let actions: &Sampler<M::Action> = mdp.get_actions();
    let mut action_value: ActionValue<M::State, M::Action> = ActionValue::new(states, actions);
    let ghost av0 = action_value;
    let ghost mut episodes: Seq<Seq<TdStep<M::State, M::Action>>> = Seq::empty();
    let ghost mut mids: Seq<ActionValue<M::State, M::Action>> = Seq::empty().push(av0);
    let mut episode: u32 = 0;
    while episode < config.num_episodes
        invariant
            mdp.wf(),
            config.wf(),
            states_seq == mdp.spec_states(),
            actions_seq == mdp.spec_actions(),
            states@ == states_seq,
            actions@ == actions_seq,
            states.wf(),
            actions.wf(),
            action_value.wf(states_seq, actions_seq),
            av0.wf(states_seq, actions_seq),
            spec_av_zero(av0),
            episode <= config.num_episodes,
            episodes.len() == episode as int,
            mids.len() == episodes.len() + 1,
            mids.first() == av0,
            mids.last() == action_value,
            spec_td_episodes_chain(config, mids, episodes, use_max_next_action),
            forall|e: int|
                0 <= e < episodes.len() ==> spec_episode_valid(
                    mdp,
                    config,
                    #[trigger] episodes[e],
                ),
            config.num_episodes == 0 ==> forall|k: int, l: int|
                0 <= k < action_value@.len() && 0 <= l < action_value@[k].1@.len() ==> (
                #[trigger] action_value@[k].1@[l]).1 == 0,
        decreases config.num_episodes - episode,
    {
        let ghost av_ep = action_value;
        let ghost mut ep: Seq<TdStep<M::State, M::Action>> = Seq::empty();
        let ghost mut tables: Seq<ActionValue<M::State, M::Action>> = Seq::empty().push(av_ep);
        let mut state: M::State = *states.get_random();
        proof {
            lemma_action_value_total(&action_value, states_seq, actions_seq, state);
        }
        let mut action: M::Action = action_value.epsilon_greedy_in(
            actions,
            &state,
            config.exploration_rate,
        );
        let mut step: u32 = 0;
        while step < config.max_num_steps
            invariant_except_break
                ep.len() > 0 ==> !mdp.spec_terminal(state),
            invariant
                mdp.wf(),
                config.wf(),
                states_seq == mdp.spec_states(),
                actions_seq == mdp.spec_actions(),
                states@ == states_seq,
                actions@ == actions_seq,
                states.wf(),
                actions.wf(),
                action_value.wf(states_seq, actions_seq),
                states_seq.contains(state),
                actions_seq.contains(action),
                step <= config.max_num_steps,
                ep.len() == step as int,
                tables.len() == ep.len() + 1,
                tables.first() == av_ep,
                tables.last() == action_value,
                spec_td_chain(config, tables, ep, use_max_next_action),
                forall|t: int| 0 <= t < ep.len() ==> spec_step_valid(mdp, #[trigger] ep[t]),
                forall|t: int|
                    1 <= t < ep.len() ==> (#[trigger] ep[t]).state == ep[t - 1].next_state
                        && ep[t].action == ep[t - 1].next_action,
                forall|t: int|
                    0 <= t < ep.len() - 1 ==> !mdp.spec_terminal(
                        (#[trigger] ep[t]).next_state,
                    ),
                ep.len() > 0 ==> ep.last().next_state == state && ep.last().next_action
                    == action,
            ensures
                action_value.wf(states_seq, actions_seq),
                spec_episode_valid(mdp, config, ep),
                spec_td_run(config, av_ep, ep, action_value, use_max_next_action),
            decreases config.max_num_steps - step,
        {
            let t: (M::State, i64) = mdp.transition(&state, &action);
            let next_state: M::State = t.0;
            let reward: i64 = t.1;
            proof {
                lemma_action_value_total(&action_value, states_seq, actions_seq, next_state);
            }
            let next_action: M::Action = action_value.epsilon_greedy_in(
                actions,
                &next_state,
                config.exploration_rate,
            );
            td_step(
                &mut action_value,
                mdp,
                config,
                &state,
                &action,
                &next_state,
                reward,
                &next_action,
                use_max_next_action,
            );
            proof {
                let st = TdStep {
                    state: state,
                    action: action,
                    next_state: next_state,
                    reward: reward,
                    next_action: next_action,
                };
                ep = ep.push(st);
                tables = tables.push(action_value);
                assert(spec_step_valid(mdp, st));
                assert forall|t2: int| 0 <= t2 < ep.len() implies spec_td_step_post(
                    config,
                    tables[t2],
                    tables[t2 + 1],
                    (#[trigger] ep[t2]).state,
                    ep[t2].action,
                    ep[t2].next_state,
                    ep[t2].reward,
                    ep[t2].next_action,
                    use_max_next_action,
                ) by {
                    if t2 == ep.len() - 1 {
                        assert(ep[t2] == st);
                        assert(tables[t2 + 1] == action_value);
                    }
                };
            }
            state = next_state;
            action = next_action;
            step = step + 1;
            if mdp.is_state_terminal(&state) {
                proof {
                    assert(spec_td_chain(config, tables, ep, use_max_next_action));
                }
                break;
            }
        }
        proof {
            assert(spec_td_chain(config, tables, ep, use_max_next_action));
            episodes = episodes.push(ep);
            mids = mids.push(action_value);
            assert forall|e: int| 0 <= e < episodes.len() implies spec_td_run(
                config,
                mids[e],
                #[trigger] episodes[e],
                mids[e + 1],
                use_max_next_action,
            ) by {
                if e == episodes.len() - 1 {
                    assert(episodes[e] == ep);
                    assert(mids[e] == av_ep);
                    assert(mids[e + 1] == action_value);
                }
            };
        }
        episode = episode + 1;
    }
    proof {
        assert(spec_td_episodes_run(config, av0, episodes, action_value, use_max_next_action));
        assert(spec_td_result(mdp, config, use_max_next_action, action_value));
    }
    action_value
}

/// SARSA: the on-policy temporal-difference solver. Runs `num_episodes`
/// episodes of at most `max_num_steps` steps each, updating the
/// action-value table with the target of the action actually chosen
/// next. Returns the trained table, total over both samplers.
pub fn sarsa<M: MDP>(mdp: &M, config: &Config) -> (r: ActionValue<M::State, M::Action>)
    requires
        mdp.wf(),
        config.wf(),
    ensures
        r.wf(mdp.spec_states(), mdp.spec_actions()),
        r@.len() == mdp.spec_states().len(),
        spec_td_result(mdp, config, false, r),
        config.num_episodes == 0 ==> forall|k: int, l: int|
            0 <= k < r@.len() && 0 <= l < r@[k].1@.len() ==> (#[trigger] r@[k].1@[l]).1 == 0,
{
    sarsa_q_learning(mdp, config, false)
}

/// Q-learning: the off-policy temporal-difference solver. Runs
/// `num_episodes` episodes of at most `max_num_steps` steps each,
/// updating the action-value table with the target of the greedy action
/// at the next state, whatever action is taken next. Returns the trained
/// table, total over both samplers.
pub fn q_learning<M: MDP>(mdp: &M, config: &Config) -> (r: ActionValue<M::State, M::Action>)
    requires
        mdp.wf(),
        config.wf(),
    ensures
        r.wf(mdp.spec_states(), mdp.spec_actions()),
        r@.len() == mdp.spec_states().len(),
        spec_td_result(mdp, config, true, r),
        config.num_episodes == 0 ==> forall|k: int, l: int|
            0 <= k < r@.len() && 0 <= l < r@[k].1@.len() ==> (#[trigger] r@[k].1@[l]).1 == 0,
{
    sarsa_q_learning(mdp, config, true)
}


/// Whether one step is consistent with the environment: its states and
/// actions come from the declared spaces, and its next state and reward
/// are exactly the environment's transition of its state and action.
pub open spec fn spec_step_valid<M: MDP>(m: &M, st: TdStep<M::State, M::Action>) -> bool {
    &&& m.spec_states().contains(st.state)
    &&& m.spec_actions().contains(st.action)
    &&& m.spec_actions().contains(st.next_action)
    &&& st.next_state == m.spec_transition(st.state, st.action).0
    &&& st.reward == m.spec_transition(st.state, st.action).1
}

/// Whether `ep` is one well-formed episode: every step is consistent
/// with the environment, consecutive steps chain through the observed
/// next state and next action, the episode runs at most `max_num_steps`
/// steps (and at least one, if that bound allows any), only its last
/// step may reach a terminal state, and an episode that stops before
/// the step bound did reach one.
pub open spec fn spec_episode_valid<M: MDP>(
    m: &M,
    config: &Config,
    ep: Seq<TdStep<M::State, M::Action>>,
) -> bool {
    &&& ep.len() <= config.max_num_steps
    &&& (config.max_num_steps > 0 ==> ep.len() >= 1)
    &&& forall|t: int| 0 <= t < ep.len() ==> spec_step_valid(m, #[trigger] ep[t])
    &&& forall|t: int|
        1 <= t < ep.len() ==> (#[trigger] ep[t]).state == ep[t - 1].next_state && ep[t].action
            == ep[t - 1].next_action
    &&& forall|t: int| 0 <= t < ep.len() - 1 ==> !m.spec_terminal((#[trigger] ep[t]).next_state)
    &&& (0 < ep.len() < config.max_num_steps ==> m.spec_terminal(ep.last().next_state))
}

/// The chain of tables visited by a run: `tables[t]` is the table
/// before step `t` of `steps`, which updates it into `tables[t + 1]`.
pub open spec fn spec_td_chain<S: State, A: Action>(
    config: &Config,
    tables: Seq<ActionValue<S, A>>,
    steps: Seq<TdStep<S, A>>,
    use_max_next_action: bool,
) -> bool {
    &&& tables.len() == steps.len() + 1
    &&& forall|t: int|
        0 <= t < steps.len() ==> spec_td_step_post(
            config,
            tables[t],
            tables[t + 1],
            (#[trigger] steps[t]).state,
            steps[t].action,
            steps[t].next_state,
            steps[t].reward,
            steps[t].next_action,
            use_max_next_action,
        )
}

/// The table `avn` is the result of folding one TD update per step of
/// `steps` over `av0`, in order.
pub open spec fn spec_td_run<S: State, A: Action>(
    config: &Config,
    av0: ActionValue<S, A>,
    steps: Seq<TdStep<S, A>>,
    avn: ActionValue<S, A>,
    use_max_next_action: bool,
) -> bool {
    exists|tables: Seq<ActionValue<S, A>>|
        #![trigger spec_td_chain(config, tables, steps, use_max_next_action)]
        spec_td_chain(config, tables, steps, use_max_next_action) && tables.first() == av0
            && tables.last() == avn
}

/// The chain of tables between episodes: episode `e` of `episodes` runs
/// `mids[e]` into `mids[e + 1]`.
pub open spec fn spec_td_episodes_chain<S: State, A: Action>(
    config: &Config,
    mids: Seq<ActionValue<S, A>>,
    episodes: Seq<Seq<TdStep<S, A>>>,
    use_max_next_action: bool,
) -> bool {
    &&& mids.len() == episodes.len() + 1
    &&& forall|e: int|
        0 <= e < episodes.len() ==> spec_td_run(
            config,
            mids[e],
            #[trigger] episodes[e],
            mids[e + 1],
            use_max_next_action,
        )
}

/// The table `avn` is the result of running the episodes of `episodes`
/// over `av0`, in order.
pub open spec fn spec_td_episodes_run<S: State, A: Action>(
    config: &Config,
    av0: ActionValue<S, A>,
    episodes: Seq<Seq<TdStep<S, A>>>,
    avn: ActionValue<S, A>,
    use_max_next_action: bool,
) -> bool {
    exists|mids: Seq<ActionValue<S, A>>|
        #![trigger spec_td_episodes_chain(config, mids, episodes, use_max_next_action)]
        spec_td_episodes_chain(config, mids, episodes, use_max_next_action) && mids.first() == av0
            && mids.last() == avn
}

/// Whether every entry of the table is zero.
pub open spec fn spec_av_zero<S: State, A: Action>(av: ActionValue<S, A>) -> bool {
    forall|k: int, l: int|
        0 <= k < av@.len() && 0 <= l < av@[k].1@.len() ==> (#[trigger] av@[k].1@[l]).1 == 0
}

/// What the online loop returns: the fold of one TD update per step of
/// exactly `num_episodes` well-formed episodes, starting from the
/// all-zero table. The episodes' start states and every action choice
/// are the loop's random draws, so they are constrained only to their
/// spaces.
pub open spec fn spec_td_result<M: MDP>(
    m: &M,
    config: &Config,
    use_max_next_action: bool,
    r: ActionValue<M::State, M::Action>,
) -> bool {
    exists|av0: ActionValue<M::State, M::Action>, episodes: Seq<Seq<TdStep<M::State, M::Action>>>|
        #![trigger spec_td_episodes_run(config, av0, episodes, r, use_max_next_action)]
        {
            &&& av0.wf(m.spec_states(), m.spec_actions())
            &&& spec_av_zero(av0)
            &&& episodes.len() == config.num_episodes
            &&& forall|e: int|
                0 <= e < episodes.len() ==> spec_episode_valid(m, config, #[trigger] episodes[e])
            &&& spec_td_episodes_run(config, av0, episodes, r, use_max_next_action)
        }
}

} // verus!
