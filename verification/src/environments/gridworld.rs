//! A simple 2D grid environment with four movement actions.
//!
//! Each cell is empty air, a wall, or the end cell. Moving into a wall or
//! off the grid keeps the position; moving into air costs the no-op
//! reward; moving into the end cell reaches a terminal state and earns
//! the end reward.

use vstd::prelude::*;
use crate::models::config::Config;
use crate::models::mdp::{Action, Item, State, MDP};
use crate::models::policy::Policy;
use crate::models::sampler::Sampler;
use crate::models::lookup::{lemma_find_characterization, spec_distinct};
use crate::models::value::StateValue;

verus! {

/// Reward of a step that does not reach the end cell: `-1` in fixed-point
/// units.
pub const NO_OP_TRANSITION_REWARD: i64 = -1_000_000;

/// Reward of the step into the end cell: `+100` in fixed-point units.
pub const END_TRANSITION_REWARD: i64 = 100_000_000;

/// A gridworld position `(i, j)`: row `i`, column `j`.
#[derive(PartialEq, Eq, Hash, Debug, Clone, Copy, Structural)]
pub struct GridworldState {
    pub i: usize,
    pub j: usize,
}

impl GridworldState {
    /// Creates a new gridworld state with the specified coordinates.
    pub fn new(i: usize, j: usize) -> (r: GridworldState)
        ensures
            r == (GridworldState { i, j }),
    {
        GridworldState { i, j }
    }
}

impl Item for GridworldState {
    fn item_eq(&self, other: &Self) -> (r: bool)
        ensures
            r == (self == other),
    {
        *self == *other
    }
}

impl State for GridworldState {

}

/// A gridworld movement action.
#[derive(PartialEq, Eq, Hash, Debug, Clone, Copy, Structural)]
pub enum GridworldAction {
    Down,
    Left,
    Right,
    Up,
}

impl Item for GridworldAction {
    fn item_eq(&self, other: &Self) -> (r: bool)
        ensures
            r == (self == other),
    {
        *self == *other
    }
}

impl Action for GridworldAction {

}

/// A gridworld cell.
#[derive(Debug, PartialEq, Eq, Clone, Copy, Structural)]
pub enum Cell {
    Air,
    Wall,
    End,
}

/// A rectangular grid of cells together with its state and action
/// samplers.
pub struct Gridworld {
    cell_grid: Vec<Vec<Cell>>,
    states: Sampler<GridworldState>,
    actions: Sampler<GridworldAction>,
}

impl Gridworld {
    /// The grid as a sequence of rows.
    pub closed spec fn grid(&self) -> Seq<Seq<Cell>> {
        self.cell_grid@.map_values(|row: Vec<Cell>| row@)
    }

    /// Creates a gridworld over the given rectangular, non-empty grid.
    ///
    /// Every listed state must lie within the grid, and every non-wall
    /// cell must be listed as a state, so that transitions never leave
    /// the state space.
    pub fn new(
        cell_grid: Vec<Vec<Cell>>,
        states: Vec<GridworldState>,
        actions: Vec<GridworldAction>,
    ) -> (r: Gridworld)
        requires
            states@.len() > 0,
            actions@.len() > 0,
            spec_distinct(states@),
            spec_distinct(actions@),
            cell_grid@.len() > 0,
            cell_grid@[0]@.len() > 0,
            forall|t: int|
                0 <= t < cell_grid@.len() ==> (#[trigger] cell_grid@[t])@.len()
                    == cell_grid@[0]@.len(),
            forall|k: int|
                0 <= k < states@.len() ==> (#[trigger] states@[k]).i < cell_grid@.len()
                    && states@[k].j < cell_grid@[0]@.len(),
            forall|i: int, j: int|
                0 <= i < cell_grid@.len() && 0 <= j < cell_grid@[0]@.len() && cell_grid@[i]@[j]
                    != Cell::Wall ==> states@.contains(
                    GridworldState { i: i as usize, j: j as usize },
                ),
        ensures
            r.wf(),
            r.spec_states() == states@,
            r.spec_actions() == actions@,
            r.grid() == cell_grid@.map_values(|row: Vec<Cell>| row@),
    {
        Gridworld {
            cell_grid,
            states: Sampler::new(states),
            actions: Sampler::new(actions),
        }
    }

    /// Any state of the state space lies within the grid.
    proof fn lemma_state_in_bounds(&self, s: GridworldState)
        requires
            self.wf(),
            self.spec_states().contains(s),
        ensures
            s.i < self.grid().len(),
            s.j < self.grid()[0].len(),
            s.i < self.cell_grid@.len(),
            s.j < self.cell_grid@[s.i as int]@.len(),
    {
        let w = choose|w: int| 0 <= w < self.states@.len() && self.states@[w] == s;
        assert(self.states@[w].i < self.grid().len());
        assert(self.grid()[s.i as int] == self.cell_grid@[s.i as int]@);
        assert(self.grid()[s.i as int].len() == self.grid()[0].len());
    }
}

impl MDP for Gridworld {
    type State = GridworldState;

    type Action = GridworldAction;

    closed spec fn wf(&self) -> bool {
        &&& self.states.wf()
        &&& self.actions.wf()
        &&& spec_distinct(self.states@)
        &&& spec_distinct(self.actions@)
        &&& self.grid().len() > 0
        &&& self.grid()[0].len() > 0
        &&& forall|t: int|
            0 <= t < self.grid().len() ==> (#[trigger] self.grid()[t]).len()
                == self.grid()[0].len()
        &&& forall|k: int|
            0 <= k < self.states@.len() ==> (#[trigger] self.states@[k]).i < self.grid().len()
                && self.states@[k].j < self.grid()[0].len()
        &&& forall|i: int, j: int|
            0 <= i < self.grid().len() && 0 <= j < self.grid()[0].len() && self.grid()[i][j]
                != Cell::Wall ==> self.states@.contains(
                GridworldState { i: i as usize, j: j as usize },
            )
    }

    closed spec fn spec_states(&self) -> Seq<GridworldState> {
        self.states@
    }

    closed spec fn spec_actions(&self) -> Seq<GridworldAction> {
        self.actions@
    }

    open spec fn spec_terminal(&self, s: GridworldState) -> bool {
        self.grid()[s.i as int][s.j as int] == Cell::End
    }

    open spec fn spec_transition(&self, s: GridworldState, a: GridworldAction) -> (
        GridworldState,
        i64,
    ) {
        let g = self.grid();
        let n = g.len() as int;
        let m = g[0].len() as int;
        let cell = g[s.i as int][s.j as int];
        if cell == Cell::End || cell == Cell::Wall {
            (s, 0)
        } else {
            let ti: int = if a == GridworldAction::Up {
                s.i - 1
            } else if a == GridworldAction::Down {
                s.i + 1
            } else {
                s.i as int
            };
            let tj: int = if a == GridworldAction::Left {
                s.j - 1
            } else if a == GridworldAction::Right {
                s.j + 1
            } else {
                s.j as int
            };
            if ti < 0 || ti >= n || tj < 0 || tj >= m {
                (s, NO_OP_TRANSITION_REWARD)
            } else if g[ti][tj] == Cell::Air {
                (GridworldState { i: ti as usize, j: tj as usize }, NO_OP_TRANSITION_REWARD)
            } else if g[ti][tj] == Cell::Wall {
                (s, NO_OP_TRANSITION_REWARD)
            } else {
                (GridworldState { i: ti as usize, j: tj as usize }, END_TRANSITION_REWARD)
            }
        }
    }

    fn get_states(&self) -> (r: &Sampler<GridworldState>) {
        &self.states
    }

    fn get_actions(&self) -> (r: &Sampler<GridworldAction>) {
        &self.actions
    }

    fn is_state_terminal(&self, state: &GridworldState) -> (r: bool) {
        proof {
            self.lemma_state_in_bounds(*state);
        }
        let cell: Cell = self.cell_grid[state.i][state.j];
        cell == Cell::End
    }

    fn transition(&self, state: &GridworldState, action: &GridworldAction) -> (r: (
        GridworldState,
        i64,
    )) {
        proof {
            self.lemma_state_in_bounds(*state);
        }
        let cell: Cell = self.cell_grid[state.i][state.j];

        // A terminal state transitions to itself without reward; a state
        // on a wall cell cannot be reached in the first place.
        if cell == Cell::End || cell == Cell::Wall {
            return (*state, 0);
        }
        let n: usize = self.cell_grid.len();
        let m: usize = self.cell_grid[0].len();

        // Tentative position; a move off the grid keeps the state.
        let hit_edge: bool = match action {
            GridworldAction::Up => state.i == 0,
            GridworldAction::Down => state.i + 1 >= n,
            GridworldAction::Left => state.j == 0,
            GridworldAction::Right => state.j + 1 >= m,
        };
        if hit_edge {
            return (*state, NO_OP_TRANSITION_REWARD);
        }
        let ti: usize = match action {
            GridworldAction::Up => state.i - 1,
            GridworldAction::Down => state.i + 1,
            GridworldAction::Left => state.i,
            GridworldAction::Right => state.i,
        };
        let tj: usize = match action {
            GridworldAction::Up => state.j,
            GridworldAction::Down => state.j,
            GridworldAction::Left => state.j - 1,
            GridworldAction::Right => state.j + 1,
        };
        let cell2: Cell = self.cell_grid[ti][tj];
        match cell2 {
            Cell::Air => (GridworldState::new(ti, tj), NO_OP_TRANSITION_REWARD),
            Cell::Wall => (*state, NO_OP_TRANSITION_REWARD),
            Cell::End => (GridworldState::new(ti, tj), END_TRANSITION_REWARD),
        }
    }
}

/// The states of the example grid, as a specification sequence:
/// top-left, top-right and bottom-right.
pub open spec fn spec_test_states() -> Seq<GridworldState> {
    seq![
        (GridworldState { i: 0, j: 0 }),
        (GridworldState { i: 0, j: 1 }),
        (GridworldState { i: 1, j: 1 }),
    ]
}

/// The four movement actions, as a specification sequence.
pub open spec fn spec_test_actions() -> Seq<GridworldAction> {
    seq![
        GridworldAction::Down,
        GridworldAction::Left,
        GridworldAction::Right,
        GridworldAction::Up,
    ]
}

/// The states of the 2-by-2 example grid: top-left, top-right and
/// bottom-right; the bottom-left cell is a wall and has no state.
pub fn get_states() -> (r: Vec<GridworldState>)
    ensures
        r@.len() == 3,
        r@[0] == (GridworldState { i: 0, j: 0 }),
        r@[1] == (GridworldState { i: 0, j: 1 }),
        r@[2] == (GridworldState { i: 1, j: 1 }),
{
    let mut states: Vec<GridworldState> = Vec::new();
    states.push(GridworldState::new(0, 0));
    states.push(GridworldState::new(0, 1));
    states.push(GridworldState::new(1, 1));
    states
}

/// The four movement actions.
pub fn get_actions() -> (r: Vec<GridworldAction>)
    ensures
        r@.len() == 4,
        r@[0] == GridworldAction::Down,
        r@[1] == GridworldAction::Left,
        r@[2] == GridworldAction::Right,
        r@[3] == GridworldAction::Up,
{
    let mut actions: Vec<GridworldAction> = Vec::new();
    actions.push(GridworldAction::Down);
    actions.push(GridworldAction::Left);
    actions.push(GridworldAction::Right);
    actions.push(GridworldAction::Up);
    actions
}

/// The 2-by-2 example grid: air in the top row, a wall bottom-left and
/// the end cell bottom-right.
pub fn get_gridworld() -> (r: Gridworld)
    ensures
        r.wf(),
        r.spec_states() == spec_test_states(),
        r.spec_actions() == spec_test_actions(),
        r.grid() == seq![
            seq![Cell::Air, Cell::Air],
            seq![Cell::Wall, Cell::End],
        ],
{
    let mut row0: Vec<Cell> = Vec::new();
    row0.push(Cell::Air);
    row0.push(Cell::Air);
    let mut row1: Vec<Cell> = Vec::new();
    row1.push(Cell::Wall);
    row1.push(Cell::End);
    let mut grid: Vec<Vec<Cell>> = Vec::new();
    grid.push(row0);
    grid.push(row1);
    let states: Vec<GridworldState> = get_states();
    let actions: Vec<GridworldAction> = get_actions();
    proof {
        assert forall|i: int, j: int|
            0 <= i < grid@.len() && 0 <= j < grid@[0]@.len() && grid@[i]@[j]
                != Cell::Wall implies states@.contains(
            GridworldState { i: i as usize, j: j as usize },
        ) by {
            if i == 0 && j == 0 {
                assert(states@[0] == (GridworldState { i: 0, j: 0 }));
            } else if i == 0 && j == 1 {
                assert(states@[1] == (GridworldState { i: 0, j: 1 }));
            } else {
                assert(grid@[1]@[0] == Cell::Wall);
                assert(states@[2] == (GridworldState { i: 1, j: 1 }));
            }
        }
    }
    proof {
        assert forall|i: int, j: int| 0 <= i < j < states@.len() implies states@[i]
            != states@[j] by {
            assert(states@[0] == (GridworldState { i: 0, j: 0 }));
            assert(states@[1] == (GridworldState { i: 0, j: 1 }));
            assert(states@[2] == (GridworldState { i: 1, j: 1 }));
        }
        assert forall|i: int, j: int| 0 <= i < j < actions@.len() implies actions@[i]
            != actions@[j] by {
            assert(actions@[0] == GridworldAction::Down);
            assert(actions@[1] == GridworldAction::Left);
            assert(actions@[2] == GridworldAction::Right);
            assert(actions@[3] == GridworldAction::Up);
        }
    }
    let g: Gridworld = Gridworld::new(grid, states, actions);
    proof {
        assert(g.spec_states() =~= spec_test_states());
        assert(g.spec_actions() =~= spec_test_actions());
        assert(g.grid() =~~= seq![seq![Cell::Air, Cell::Air], seq![Cell::Wall, Cell::End]]);
    }
    g
}

/// The configuration used by the example-grid scenarios: discount `0.97`,
/// exploration rate `0.1`, no evaluation-sweep cap.
pub fn get_test_config() -> (r: Config)
    ensures
        r.wf(),
        r.discount_factor == 970_000,
        r.exploration_rate == 100_000,
        r.iterations_before_improvement is None,
        r.learning_rate == 300_000,
        r.max_num_steps == 1_000,
        r.num_episodes == 500,
{
    Config::new().discount_factor(970_000).iterations_before_improvement(None).exploration_rate(
        100_000,
    )
}

/// The optimal policy of the example grid: move right from the top-left
/// cell, then down into the end cell.
pub fn get_optimal_policy(
    states: &Sampler<GridworldState>,
    actions: &Sampler<GridworldAction>,
) -> (r: Policy<GridworldState, GridworldAction>)
    requires
        states.wf(),
        actions.wf(),
        spec_distinct(states@),
        spec_distinct(actions@),
        actions@.contains(GridworldAction::Right),
        actions@.contains(GridworldAction::Down),
        actions@.contains(GridworldAction::Up),
    ensures
        r.wf(states@, actions@),
        states@ == spec_test_states() ==> r@ == seq![
            ((GridworldState { i: 0, j: 0 }), GridworldAction::Right),
            ((GridworldState { i: 0, j: 1 }), GridworldAction::Down),
            ((GridworldState { i: 1, j: 1 }), GridworldAction::Up),
        ],
{
    let ghost canonical = (states@ == spec_test_states());
    let mut policy: Policy<GridworldState, GridworldAction> = Policy::new(states, actions);
    proof {
        if canonical {
            lemma_find_characterization(policy@, GridworldState { i: 0, j: 0 }, 0);
        }
    }
    let _ = policy.insert(&GridworldState::new(0, 0), &GridworldAction::Right);
    proof {
        assert(policy.wf(states@, actions@));
        if canonical {
            lemma_find_characterization(policy@, GridworldState { i: 0, j: 1 }, 1);
        }
    }
    let _ = policy.insert(&GridworldState::new(0, 1), &GridworldAction::Down);
    proof {
        assert(policy.wf(states@, actions@));
        if canonical {
            lemma_find_characterization(policy@, GridworldState { i: 1, j: 1 }, 2);
        }
    }
    let _ = policy.insert(&GridworldState::new(1, 1), &GridworldAction::Up);
    proof {
        assert(policy.wf(states@, actions@));
        if canonical {
            assert(policy@ =~= seq![
                ((GridworldState { i: 0, j: 0 }), GridworldAction::Right),
                ((GridworldState { i: 0, j: 1 }), GridworldAction::Down),
                ((GridworldState { i: 1, j: 1 }), GridworldAction::Up),
            ]);
        }
    }
    policy
}

/// The optimal state values of the example grid: `96` at top-left, `100`
/// at top-right, `0` at the terminal bottom-right cell.
pub fn get_test_state_value(states: &Sampler<GridworldState>) -> (r: StateValue<GridworldState>)
    requires
        states.wf(),
        spec_distinct(states@),
    ensures
        r.wf(states@),
        states@ == spec_test_states() ==> r@ == seq![
            ((GridworldState { i: 0, j: 0 }), 96_000_000i64),
            ((GridworldState { i: 0, j: 1 }), 100_000_000i64),
            ((GridworldState { i: 1, j: 1 }), 0i64),
        ],
{
    let ghost canonical = (states@ == spec_test_states());
    let mut state_value: StateValue<GridworldState> = StateValue::new(states);
    proof {
        if canonical {
            lemma_find_characterization(state_value@, GridworldState { i: 0, j: 0 }, 0);
        }
    }
    let _ = state_value.insert(&GridworldState::new(0, 0), 96_000_000);
    proof {
        assert(state_value.wf(states@));
        if canonical {
            lemma_find_characterization(state_value@, GridworldState { i: 0, j: 1 }, 1);
        }
    }
    let _ = state_value.insert(&GridworldState::new(0, 1), 100_000_000);
    proof {
        assert(state_value.wf(states@));
        if canonical {
            lemma_find_characterization(state_value@, GridworldState { i: 1, j: 1 }, 2);
        }
    }
    let _ = state_value.insert(&GridworldState::new(1, 1), 0);
    proof {
        assert(state_value.wf(states@));
        if canonical {
            assert(state_value@ =~= seq![
                ((GridworldState { i: 0, j: 0 }), 96_000_000i64),
                ((GridworldState { i: 0, j: 1 }), 100_000_000i64),
                ((GridworldState { i: 1, j: 1 }), 0i64),
            ]);
        }
    }
    state_value
}

} // verus!
