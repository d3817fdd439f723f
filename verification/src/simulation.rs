//! The run of a simulation as a state machine: the caller shows each
//! generation and paces the run, `advance` decides what comes next.

use std::collections::VecDeque;
use vstd::prelude::*;
use crate::generation::{compute_next_generation, next_generation};
use crate::grid::{Cells, Grid, all_dead, initialize_grid, is_square, is_square_grid};
use crate::history::{MAX_HISTORY, detect_repeat, recorded, seen};
use crate::seeding::{is_seeding, seed_grid_with_random_cells};

verus! {

/// How many generations a run shows at most, unless configured otherwise.
pub const MAX_ITERATIONS: i32 = i32::MAX;

/// What a run is set up with.
#[derive(Clone, Copy, Debug, PartialEq, Eq, Structural)]
pub struct SimulationConfig {
    /// The number of rows, and of columns, of the grid.
    pub grid_size: usize,
    /// Whether the run ends when a generation repeats a remembered one.
    pub exit_steady: bool,
    /// How many past generations are remembered.
    pub history_capacity: usize,
    /// How many generations are shown at most.
    pub max_iterations: i32,
}

/// Where a run stands.
#[derive(Clone, Copy, Debug, PartialEq, Eq, Structural)]
pub enum Status {
    /// The current generation is due to be shown.
    Running,
    /// The current generation repeats a remembered one; the run is over.
    RepeatDetected,
    /// As many generations as configured have been shown; the run is over.
    MaxIterationsReached,
}

/// The model of a run: its configuration, the current generation, the
/// remembered ones (oldest first), the index of the current generation and
/// the status.
pub struct SimulationState {
    pub config: SimulationConfig,
    pub cells: Cells,
    pub history: Seq<Cells>,
    pub iteration: int,
    pub status: Status,
}

impl SimulationState {
    /// What holds of every state of a run: the grid is square and of the
    /// configured size, the history is within its capacity, and a run that is
    /// still going has not shown all its generations.
    pub open spec fn valid(self) -> bool {
        &&& is_square(self.cells)
        &&& self.cells.len() == self.config.grid_size
        &&& self.history.len() <= self.config.history_capacity
        &&& 0 <= self.iteration
        &&& self.iteration <= self.config.max_iterations || self.iteration == 0
        &&& self.status == Status::Running ==> self.iteration < self.config.max_iterations
    }
}

/// The state in which a run starts from the generation `cells`.
pub open spec fn initial_state(config: SimulationConfig, cells: Cells) -> SimulationState {
    SimulationState {
        config,
        cells,
        history: Seq::empty(),
        iteration: 0,
        status: if 0 < config.max_iterations {
            Status::Running
        } else {
            Status::MaxIterationsReached
        },
    }
}

/// What follows once the current generation has been shown. A run that is
/// over stays as it is. A run that stops on repeats ends where the current
/// generation is a remembered one, and remembers it where it is not. Then the
/// next generation becomes the current one, and the run ends if that was the
/// last one to show.
pub open spec fn step(state: SimulationState) -> SimulationState {
    if state.status != Status::Running {
        state
    } else if state.config.exit_steady && seen(state.history, state.cells) {
        SimulationState { status: Status::RepeatDetected, ..state }
    } else {
        SimulationState {
            config: state.config,
            cells: next_generation(state.cells),
            history: if state.config.exit_steady {
                recorded(state.history, state.cells, state.config.history_capacity as nat)
            } else {
                state.history
            },
            iteration: state.iteration + 1,
            status: if state.iteration + 1 < state.config.max_iterations {
                Status::Running
            } else {
                Status::MaxIterationsReached
            },
        }
    }
}

/// A step leads from a valid state to a valid state, and a run that is over
/// no longer changes.
pub proof fn step_keeps_validity(state: SimulationState)
    requires
        state.valid(),
    ensures
        step(state).valid(),
        state.status != Status::Running ==> step(state) == state,
        step(state).config == state.config,
{
}

impl SimulationConfig {
    /// The configuration of a stock run: `MAX_HISTORY` remembered generations
    /// and `MAX_ITERATIONS` generations at most.
    pub fn new(grid_size: usize, exit_steady: bool) -> (config: SimulationConfig)
        ensures
            config == (SimulationConfig {
                grid_size,
                exit_steady,
                history_capacity: MAX_HISTORY,
                max_iterations: MAX_ITERATIONS,
            }),
    {
        SimulationConfig {
            grid_size,
            exit_steady,
            history_capacity: MAX_HISTORY,
            max_iterations: MAX_ITERATIONS,
        }
    }
}

/// A run: two grid buffers that change roles with every generation, the
/// remembered generations and the index of the current one.
pub struct Simulation {
    config: SimulationConfig,
    grid: Grid,
    spare: Grid,
    history: VecDeque<Grid>,
    iteration: i32,
    status: Status,
}

impl View for Simulation {
    type V = SimulationState;

    closed spec fn view(&self) -> SimulationState {
        SimulationState {
            config: self.config,
            cells: self.grid.deep_view(),
            history: self.history.deep_view(),
            iteration: self.iteration as int,
            status: self.status,
        }
    }
}

impl Simulation {
    /// What every run that this module hands out satisfies, and what its
    /// methods rely on and keep: its state is valid, and its spare buffer has
    /// the shape of its grid.
    pub closed spec fn well_formed(&self) -> bool {
        &&& self@.valid()
        &&& is_square(self.spare.deep_view())
        &&& self.spare.len() == self.grid.len()
    }

    /// The state of a well-formed run is valid.
    pub proof fn well_formed_is_valid(&self)
        requires
            self.well_formed(),
        ensures
            self@.valid(),
    {
    }

    /// Sets up a run on a grid without a live cell.
    pub fn new(config: SimulationConfig) -> (simulation: Simulation)
        ensures
            simulation@ == initial_state(config, all_dead(config.grid_size as nat)),
            simulation.well_formed(),
    {
        let history: VecDeque<Grid> = VecDeque::new();
        assert(history.deep_view() =~= Seq::<Cells>::empty());
        Simulation {
            config,
            grid: initialize_grid(config.grid_size),
            spare: initialize_grid(config.grid_size),
            history,
            iteration: 0,
            status: if 0 < config.max_iterations {
                Status::Running
            } else {
                Status::MaxIterationsReached
            },
        }
    }

    /// Sets up a run that starts from the generation in `grid`. `None` where
    /// `grid` is not square or not of the configured size.
    pub fn with_grid(config: SimulationConfig, grid: Grid) -> (simulation: Option<Simulation>)
        ensures
            simulation is Some <==> is_square(grid.deep_view()) && grid.len() == config.grid_size,
            simulation matches Some(started) ==> started@ == initial_state(
                config,
                grid.deep_view(),
            ) && started.well_formed(),
    {
        if grid.len() != config.grid_size || !is_square_grid(&grid) {
            return None;
        }
        let history: VecDeque<Grid> = VecDeque::new();
        assert(history.deep_view() =~= Seq::<Cells>::empty());
        let started = Simulation {
            config,
            grid,
            spare: initialize_grid(config.grid_size),
            history,
            iteration: 0,
            status: if 0 < config.max_iterations {
                Status::Running
            } else {
                Status::MaxIterationsReached
            },
        };
        Some(started)
    }

    /// Scatters random live cells over the current generation, as
    /// `seed_grid_with_random_cells` does. Returns `false`, with nothing
    /// changed, where the number of cells of the grid is beyond `usize::MAX`.
    pub fn seed(&mut self) -> (seeded: bool)
        requires
            old(self).well_formed(),
        ensures
            final(self).well_formed(),
            seeded <==> old(self)@.config.grid_size * old(self)@.config.grid_size <= usize::MAX,
            seeded ==> exists|positions: Seq<(int, int)>| #[trigger]
                is_seeding(old(self)@.cells, positions, final(self)@.cells),
            final(self)@ == (SimulationState { cells: final(self)@.cells, ..old(self)@ }),
            !seeded ==> final(self)@ == old(self)@,
    {
        let size = self.grid.len();
        match size.checked_mul(size) {
            Some(_) => {
                seed_grid_with_random_cells(&mut self.grid);
                true
            },
            None => false,
        }
    }

    /// The current generation.
    pub fn grid(&self) -> (grid: &Grid)
        ensures
            grid.deep_view() == self@.cells,
    {
        &self.grid
    }

    /// The index of the current generation, counted from zero.
    pub fn iteration(&self) -> (iteration: i32)
        ensures
            iteration == self@.iteration,
    {
        self.iteration
    }

    /// Where the run stands.
    pub fn status(&self) -> (status: Status)
        ensures
            status == self@.status,
    {
        self.status
    }

    /// What the run was set up with.
    pub fn config(&self) -> (config: SimulationConfig)
        ensures
            config == self@.config,
    {
        self.config
    }

    /// Performs the step that follows the showing of the current generation,
    /// and returns the status after it.
    pub fn advance(&mut self) -> (status: Status)
        requires
            old(self).well_formed(),
        ensures
            final(self)@ == step(old(self)@),
            status == final(self)@.status,
            final(self).well_formed(),
    {
        match self.status {
            Status::Running => {},
            _ => {
                return self.status;
            },
        }
        if self.config.exit_steady && detect_repeat(
            &self.grid,
            &mut self.history,
            self.config.history_capacity,
        ) {
            self.status = Status::RepeatDetected;
            return self.status;
        }
        compute_next_generation(&self.grid, &mut self.spare);
        std::mem::swap(&mut self.grid, &mut self.spare);
        if self.iteration + 1 >= self.config.max_iterations {
            self.status = Status::MaxIterationsReached;
        }
        self.iteration = self.iteration + 1;
        self.status
    }
}

} // verus!
