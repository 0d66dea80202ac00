use madepro::environments::gridworld::{
    get_gridworld, get_optimal_policy, get_test_config, get_test_state_value, Gridworld,
    GridworldAction, GridworldState,
};
use madepro::errors::SolverError;
use madepro::models::{Policy, StateValue, MDP};
use madepro::solvers::dp::{
    policy_evaluation, policy_improvement, policy_iteration, value_iteration,
};
use madepro::solvers::td::{q_learning, sarsa};

fn top_left() -> GridworldState {
    GridworldState::new(0, 0)
}

fn top_right() -> GridworldState {
    GridworldState::new(0, 1)
}

fn bottom_right() -> GridworldState {
    GridworldState::new(1, 1)
}

fn assert_policy_optimal(policy: &Policy<GridworldState, GridworldAction>) {
    assert_eq!(policy.get(&top_left()).unwrap(), GridworldAction::Right);
    assert_eq!(policy.get(&top_right()).unwrap(), GridworldAction::Down);
}

fn assert_state_value_correct(state_value: &StateValue<GridworldState>) {
    assert_eq!(state_value.get(&top_left()).unwrap(), 96_000_000);
    assert_eq!(state_value.get(&top_right()).unwrap(), 100_000_000);
    assert_eq!(state_value.get(&bottom_right()).unwrap(), 0);
}

fn get_test_mdp() -> Gridworld {
    get_gridworld()
}

#[test]
fn dp_test_policy_evaluation() {
    let mdp = get_test_mdp();
    let config = get_test_config();
    let policy = get_optimal_policy(mdp.get_states(), mdp.get_actions());
    let state_value = policy_evaluation(&mdp, &config, &policy, None);
    assert_state_value_correct(&state_value);
}

#[test]
fn dp_test_policy_inference() {
    let mdp = get_test_mdp();
    let config = get_test_config();
    let state_value = get_test_state_value(mdp.get_states());
    let inferred_policy = policy_improvement(&mdp, &config, &state_value);
    assert_policy_optimal(&inferred_policy);
}

#[test]
fn dp_test_policy_iteration() {
    let mdp = get_test_mdp();
    let config = get_test_config();
    let state_value = policy_iteration(&mdp, &config).unwrap();
    let policy = policy_improvement(&mdp, &config, &state_value);
    assert_state_value_correct(&state_value);
    assert_policy_optimal(&policy);
}

#[test]
fn dp_test_value_iteration() {
    let mdp = get_test_mdp();
    let config = get_test_config().iterations_before_improvement(Some(3));
    let state_value = value_iteration(&mdp, &config).unwrap();
    let policy = policy_improvement(&mdp, &config, &state_value);
    assert_state_value_correct(&state_value);
    assert_policy_optimal(&policy);
}

#[test]
fn temporal_difference_test_sarsa() {
    let mdp = get_gridworld();
    let config = get_test_config();
    let action_value = sarsa(&mdp, &config);
    let policy = action_value.greedy_policy(mdp.get_states(), mdp.get_actions());
    assert_policy_optimal(&policy);
}

#[test]
fn temporal_difference_test_q_learning() {
    let mdp = get_gridworld();
    let config = get_test_config();
    let action_value = q_learning(&mdp, &config);
    let policy = action_value.greedy_policy(mdp.get_states(), mdp.get_actions());
    assert_policy_optimal(&policy);
}

#[test]
fn integration_test_policy_evaluation() {
    let mdp = get_test_mdp();
    let config = get_test_config();
    let policy = get_optimal_policy(mdp.get_states(), mdp.get_actions());
    let state_value = policy_evaluation(&mdp, &config, &policy, None);
    assert_state_value_correct(&state_value);
}

#[test]
fn integration_test_policy_inference() {
    let mdp = get_test_mdp();
    let config = get_test_config();
    let state_value = get_test_state_value(mdp.get_states());
    let inferred_policy = policy_improvement(&mdp, &config, &state_value);
    assert_policy_optimal(&inferred_policy);
}

#[test]
fn integration_test_policy_iteration() {
    let mdp = get_test_mdp();
    let config = get_test_config();
    let state_value = policy_iteration(&mdp, &config).unwrap();
    let policy = policy_improvement(&mdp, &config, &state_value);
    assert_state_value_correct(&state_value);
    assert_policy_optimal(&policy);
}

#[test]
fn integration_test_value_iteration() {
    let mdp = get_test_mdp();
    let config = get_test_config().iterations_before_improvement(Some(3));
    let state_value = value_iteration(&mdp, &config).unwrap();
    let policy = policy_improvement(&mdp, &config, &state_value);
    assert_state_value_correct(&state_value);
    assert_policy_optimal(&policy);
}

#[test]
fn integration_test_sarsa() {
    let mdp = get_test_mdp();
    let config = get_test_config();
    let action_value = sarsa(&mdp, &config);
    let policy = action_value.greedy_policy(mdp.get_states(), mdp.get_actions());
    assert_policy_optimal(&policy);
}

#[test]
fn integration_test_q_learning() {
    let mdp = get_test_mdp();
    let config = get_test_config();
    let action_value = q_learning(&mdp, &config);
    let policy = action_value.greedy_policy(mdp.get_states(), mdp.get_actions());
    assert_policy_optimal(&policy);
}

#[test]
fn policy_iteration_rejects_iteration_cap() {
    let mdp = get_test_mdp();
    let config = get_test_config().iterations_before_improvement(Some(5));
    assert_eq!(
        policy_iteration(&mdp, &config).unwrap_err(),
        SolverError::IterationCapSet
    );
}

#[test]
fn value_iteration_requires_iteration_cap() {
    let mdp = get_test_mdp();
    let config = get_test_config().iterations_before_improvement(None);
    assert_eq!(
        value_iteration(&mdp, &config).unwrap_err(),
        SolverError::IterationCapMissing
    );
}

#[test]
fn value_iteration_rejects_zero_cap() {
    let mdp = get_test_mdp();
    let config = get_test_config().iterations_before_improvement(Some(0));
    assert_eq!(
        value_iteration(&mdp, &config).unwrap_err(),
        SolverError::IterationCapMissing
    );
}

#[test]
fn policy_evaluation_keeps_converged_table() {
    let mdp = get_test_mdp();
    let config = get_test_config();
    let policy = get_optimal_policy(mdp.get_states(), mdp.get_actions());
    let warm = get_test_state_value(mdp.get_states());
    let state_value = policy_evaluation(&mdp, &config, &policy, Some(warm));
    assert_state_value_correct(&state_value);
}

#[test]
fn policy_evaluation_respects_sweep_cap() {
    let mdp = get_test_mdp();
    let config = get_test_config().iterations_before_improvement(Some(1));
    let policy = get_optimal_policy(mdp.get_states(), mdp.get_actions());
    let state_value = policy_evaluation(&mdp, &config, &policy, None);
    // one sweep from the all-zero table
    assert_eq!(state_value.get(&top_left()).unwrap(), -1_000_000);
    assert_eq!(state_value.get(&top_right()).unwrap(), 100_000_000);
    assert_eq!(state_value.get(&bottom_right()).unwrap(), 0);
}
