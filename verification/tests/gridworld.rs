use madepro::environments::gridworld::{
    get_actions, get_gridworld, get_optimal_policy, get_states, get_test_state_value,
    GridworldAction, GridworldState, END_TRANSITION_REWARD, NO_OP_TRANSITION_REWARD,
};
use madepro::models::MDP;

fn top_left() -> GridworldState {
    GridworldState::new(0, 0)
}

fn top_right() -> GridworldState {
    GridworldState::new(0, 1)
}

fn bottom_right() -> GridworldState {
    GridworldState::new(1, 1)
}

#[test]
fn is_not_terminal() {
    let mdp = get_gridworld();
    assert!(!mdp.is_state_terminal(&top_left()));
    assert!(!mdp.is_state_terminal(&top_right()));
}

#[test]
fn is_terminal() {
    let mdp = get_gridworld();
    assert!(mdp.is_state_terminal(&bottom_right()));
}

#[test]
fn env_transition_to_boundaries() {
    let mdp = get_gridworld();
    assert_eq!(
        mdp.transition(&top_left(), &GridworldAction::Left),
        (top_left(), NO_OP_TRANSITION_REWARD)
    );
}

#[test]
fn env_transition_to_air() {
    let mdp = get_gridworld();
    assert_eq!(
        mdp.transition(&top_left(), &GridworldAction::Right),
        (top_right(), NO_OP_TRANSITION_REWARD)
    );
}

#[test]
fn env_transition_to_wall() {
    let mdp = get_gridworld();
    assert_eq!(
        mdp.transition(&top_left(), &GridworldAction::Down),
        (top_left(), NO_OP_TRANSITION_REWARD)
    );
}

#[test]
fn env_transition_to_end() {
    let mdp = get_gridworld();
    assert_eq!(
        mdp.transition(&top_right(), &GridworldAction::Down),
        (bottom_right(), END_TRANSITION_REWARD)
    );
}

#[test]
fn env_transition_from_terminal() {
    let mdp = get_gridworld();
    assert_eq!(
        mdp.transition(&bottom_right(), &GridworldAction::Up),
        (bottom_right(), 0)
    );
}

#[test]
fn optimal_policy() {
    let mdp = get_gridworld();
    let policy = get_optimal_policy(mdp.get_states(), mdp.get_actions());
    assert_eq!(policy.get(&top_left()).unwrap(), GridworldAction::Right);
    assert_eq!(policy.get(&top_right()).unwrap(), GridworldAction::Down);
}

#[test]
fn state_value() {
    let mdp = get_gridworld();
    let state_value = get_test_state_value(mdp.get_states());
    assert_eq!(state_value.get(&top_left()).unwrap(), 96_000_000);
    assert_eq!(state_value.get(&top_right()).unwrap(), 100_000_000);
    assert_eq!(state_value.get(&bottom_right()).unwrap(), 0);
}

#[test]
fn state_and_action_fixtures() {
    let states = get_states();
    assert_eq!(states, vec![top_left(), top_right(), bottom_right()]);
    let actions = get_actions();
    assert_eq!(
        actions,
        vec![
            GridworldAction::Down,
            GridworldAction::Left,
            GridworldAction::Right,
            GridworldAction::Up
        ]
    );
}
