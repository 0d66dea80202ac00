use madepro::errors::NotFound;
use madepro::fixed::{abs_diff, backup, clamp_value, mul_frac, td_update, SCALE, VALUE_BOUND};
use madepro::models::{ActionValue, Config, Item, Policy, Sampler, State, StateActionValue, StateValue};

#[derive(PartialEq, Eq, Hash, Clone, Copy, Debug)]
struct TestState(usize);

impl Item for TestState {
    fn item_eq(&self, other: &Self) -> bool {
        self == other
    }
}

impl State for TestState {}

#[derive(PartialEq, Eq, Hash, Clone, Copy, Debug)]
struct TestAction(usize);

impl Item for TestAction {
    fn item_eq(&self, other: &Self) -> bool {
        self == other
    }
}

impl madepro::models::Action for TestAction {}

fn get_states() -> Sampler<TestState> {
    Sampler::new(vec![TestState(0), TestState(1)])
}

fn get_actions() -> Sampler<TestAction> {
    Sampler::new(vec![TestAction(0), TestAction(1)])
}

fn get_state_action_value() -> StateActionValue<TestAction> {
    let mut state_action_value = StateActionValue::new(&get_actions());
    state_action_value.insert(&TestAction(0), 0).unwrap();
    state_action_value.insert(&TestAction(1), 1_000_000).unwrap();
    state_action_value
}

fn get_action_value() -> ActionValue<TestState, TestAction> {
    let mut action_value = ActionValue::new(&get_states(), &get_actions());
    action_value.insert(&TestState(0), &TestAction(0), 0).unwrap();
    action_value.insert(&TestState(0), &TestAction(1), 1_000_000).unwrap();
    action_value.insert(&TestState(1), &TestAction(0), 2_000_000).unwrap();
    action_value.insert(&TestState(1), &TestAction(1), 1_000_000).unwrap();
    action_value
}

#[test]
fn state_action_value_greedy() {
    assert_eq!(get_state_action_value().greedy(), TestAction(1));
}

#[test]
fn state_action_value_epsilon_greedy() {
    assert_eq!(
        get_state_action_value().epsilon_greedy(&get_actions(), 0),
        TestAction(1)
    );
}

#[test]
fn action_value_greedy_policy() {
    let policy = get_action_value().greedy_policy(&get_states(), &get_actions());
    assert_eq!(policy.get(&TestState(0)).unwrap(), TestAction(1));
    assert_eq!(policy.get(&TestState(1)).unwrap(), TestAction(0));
}

#[test]
fn unknown_state_in_state_value() {
    let state_value = StateValue::new(&get_states());
    assert_eq!(
        state_value.get(&TestState(2)),
        Err(NotFound::StateInStateValue)
    );
}

#[test]
fn unknown_action_in_state_action_value() {
    let state_action_value = get_state_action_value();
    assert_eq!(
        state_action_value.get(&TestAction(2)),
        Err(NotFound::ActionInStateActionValue)
    );
}

#[test]
fn unknown_state_in_action_value() {
    let action_value = get_action_value();
    assert_eq!(
        action_value.get(&TestState(2), &TestAction(0)),
        Err(NotFound::StateInActionValue)
    );
}

#[test]
fn unknown_state_in_policy() {
    let policy = Policy::new(&get_states(), &get_actions());
    assert_eq!(policy.get(&TestState(2)), Err(NotFound::StateInPolicy));
}

#[test]
fn unknown_action_reported_before_known_state() {
    let action_value = get_action_value();
    assert_eq!(
        action_value.get(&TestState(0), &TestAction(2)),
        Err(NotFound::ActionInStateActionValue)
    );
}

#[test]
fn sampler_iteration_order() {
    let states = get_states();
    assert_eq!(states.len(), 2);
    assert_eq!(states.iter(), vec![TestState(0), TestState(1)]);
    assert_eq!(*states.get(0), TestState(0));
    assert_eq!(*states.get(1), TestState(1));
}

#[test]
fn sampler_get_random_membership() {
    let states = get_states();
    for _ in 0..100 {
        let s = *states.get_random();
        assert!(s == TestState(0) || s == TestState(1));
    }
}

#[test]
fn containers_total_over_sampler() {
    let states = get_states();
    let actions = get_actions();
    let policy = Policy::new(&states, &actions);
    let state_value = StateValue::new(&states);
    let action_value = ActionValue::new(&states, &actions);
    assert_eq!(policy.len(), 2);
    assert_eq!(state_value.len(), 2);
    assert_eq!(action_value.len(), 2);
    for s in states.iter() {
        assert!(policy.get(&s).is_ok());
        assert_eq!(state_value.get(&s).unwrap(), 0);
        assert_eq!(action_value.get(&s, &TestAction(0)).unwrap(), 0);
        assert_eq!(action_value.get(&s, &TestAction(1)).unwrap(), 0);
    }
}

#[test]
fn epsilon_greedy_zero_matches_greedy() {
    let states = get_states();
    let actions = get_actions();
    let action_value = get_action_value();
    for _ in 0..100 {
        for s in states.iter() {
            assert_eq!(
                action_value.epsilon_greedy(&actions, &s, 0).unwrap(),
                action_value.greedy(&s).unwrap()
            );
        }
    }
}

#[test]
fn insert_overwrites_in_place() {
    let mut policy = Policy::new(&get_states(), &get_actions());
    policy.insert(&TestState(0), &TestAction(1)).unwrap();
    assert_eq!(policy.get(&TestState(0)).unwrap(), TestAction(1));
    policy.insert(&TestState(0), &TestAction(1)).unwrap();
    assert_eq!(policy.get(&TestState(0)).unwrap(), TestAction(1));
    assert_eq!(policy.len(), 2);

    let mut state_value = StateValue::new(&get_states());
    state_value.insert(&TestState(1), 5_000_000).unwrap();
    assert_eq!(state_value.get(&TestState(1)).unwrap(), 5_000_000);
    state_value.insert(&TestState(1), -7_000_000).unwrap();
    assert_eq!(state_value.get(&TestState(1)).unwrap(), -7_000_000);
    assert_eq!(state_value.len(), 2);
}

#[test]
fn insert_unknown_key_is_rejected() {
    let mut policy = Policy::new(&get_states(), &get_actions());
    assert_eq!(
        policy.insert(&TestState(9), &TestAction(0)),
        Err(NotFound::StateInPolicy)
    );
    let mut state_value = StateValue::new(&get_states());
    assert_eq!(
        state_value.insert(&TestState(9), 1),
        Err(NotFound::StateInStateValue)
    );
    let mut action_value = get_action_value();
    assert_eq!(
        action_value.insert(&TestState(9), &TestAction(0), 1),
        Err(NotFound::StateInActionValue)
    );
    assert_eq!(
        action_value.insert(&TestState(0), &TestAction(9), 1),
        Err(NotFound::ActionInStateActionValue)
    );
}

#[test]
fn greedy_ties_go_to_first_action() {
    let mut state_action_value = StateActionValue::new(&get_actions());
    state_action_value.insert(&TestAction(0), 3_000_000).unwrap();
    state_action_value.insert(&TestAction(1), 3_000_000).unwrap();
    assert_eq!(state_action_value.greedy(), TestAction(0));
}

#[test]
fn not_found_messages() {
    assert_eq!(NotFound::StateInPolicy.message(), "state not found in policy");
    assert_eq!(
        NotFound::StateInStateValue.message(),
        "state not found in state value"
    );
    assert_eq!(
        NotFound::StateInActionValue.message(),
        "state not found in action value"
    );
    assert_eq!(
        NotFound::ActionInStateActionValue.message(),
        "action not found in state action value"
    );
}

#[test]
fn config_defaults_and_builders() {
    let config = Config::new();
    assert_eq!(config.discount_factor, 970_000);
    assert_eq!(config.max_num_steps, 1_000);
    assert_eq!(config.num_episodes, 500);
    assert_eq!(config.learning_rate, 300_000);
    assert_eq!(config.exploration_rate, 100_000);
    assert_eq!(config.iterations_before_improvement, None);

    let config = Config::new()
        .discount_factor(500_000)
        .max_num_steps(10)
        .num_episodes(20)
        .learning_rate(1_000_000)
        .exploration_rate(0)
        .iterations_before_improvement(Some(3));
    assert_eq!(config.discount_factor, 500_000);
    assert_eq!(config.max_num_steps, 10);
    assert_eq!(config.num_episodes, 20);
    assert_eq!(config.learning_rate, 1_000_000);
    assert_eq!(config.exploration_rate, 0);
    assert_eq!(config.iterations_before_improvement, Some(3));
}

#[test]
fn fixed_point_arithmetic_exact_values() {
    assert_eq!(SCALE, 1_000_000);
    // one Bellman backup of the example grid: -1 + 0.97 * 100 == 96
    assert_eq!(backup(-1_000_000, 970_000, 100_000_000), 96_000_000);
    // a TD update from zero toward a target of 100 with rate 0.3
    assert_eq!(td_update(0, 100_000_000, 300_000), 30_000_000);
    // multiplication truncates toward zero, for either sign
    assert_eq!(mul_frac(999_999, 500_000), 499_999);
    assert_eq!(mul_frac(-999_999, 500_000), -499_999);
    assert_eq!(abs_diff(3_000_000, 5_000_000), 2_000_000);
    assert_eq!(abs_diff(5_000_000, 3_000_000), 2_000_000);
    // results are clamped into the value bound
    assert_eq!(clamp_value(i64::MAX), VALUE_BOUND);
    assert_eq!(clamp_value(i64::MIN), -VALUE_BOUND);
    assert_eq!(backup(VALUE_BOUND, 1_000_000, VALUE_BOUND), VALUE_BOUND);
}
