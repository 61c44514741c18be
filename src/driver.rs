//! The simulation: a seed at the centre, rain at the centre and its two
//! vertical neighbours, and a fixed number of generations.
use crate::grid::{array_cells, array_columns, filled, grid_filled, grid_set, shaped};
use crate::rule::{bounded, lemma_next_grid_bounded, next_grid, update_sandpile};
use vstd::prelude::*;

verus! {

/// The grains placed at the centre when no other seed is asked for.
pub const DEFAULT_SEED: u32 = 1024;

/// How many progress checkpoints a run is divided into.
pub const PROGRESS_STEPS: usize = 20;

/// Why a simulation cannot be set up.
#[derive(Debug, Clone, Copy, PartialEq, Eq, Structural)]
pub enum ConfigError {
    /// Fewer than two rows or no column: the rain sources above and at the
    /// centre would not both lie on the grid.
    GridTooSmall,
    /// The number of cells does not fit a `usize`.
    GridTooLarge,
    /// The seed plus four grains per generation would not fit a `u32` count.
    CountOverflow,
}

/// The first generation: all zero but `seed` at `(rows / 2, cols / 2)`.
pub open spec fn initial_grid(rows: nat, cols: nat, seed: u32) -> Seq<Seq<u32>> {
    filled(0, rows, cols).update(
        (rows / 2) as int,
        filled(0, rows, cols)[(rows / 2) as int].update((cols / 2) as int, seed),
    )
}

/// The rain sources: the centre, then the cells above and below it.
pub open spec fn rain_sources(rows: nat, cols: nat) -> Seq<(usize, usize)> {
    seq![
        ((rows / 2) as usize, (cols / 2) as usize),
        ((rows / 2 - 1) as usize, (cols / 2) as usize),
        ((rows / 2 + 1) as usize, (cols / 2) as usize),
    ]
}

/// The grid after `n` generations from `g`.
pub open spec fn generation(g: Seq<Seq<u32>>, rain: Seq<(usize, usize)>, n: nat) -> Seq<
    Seq<u32>,
> decreases n {
    if n == 0 {
        g
    } else {
        next_grid(generation(g, rain, (n - 1) as nat), rain)
    }
}

/// The error, if any, with which a simulation of these dimensions fails.
pub open spec fn config_error(rows: nat, cols: nat, iterations: nat, seed: u32) -> Option<
    ConfigError,
> {
    if rows < 2 || cols < 1 {
        Some(ConfigError::GridTooSmall)
    } else if rows * cols > usize::MAX {
        Some(ConfigError::GridTooLarge)
    } else if seed + 4 * iterations > u32::MAX {
        Some(ConfigError::CountOverflow)
    } else {
        None
    }
}

/// The number of generations between two progress checkpoints: a twentieth
/// of the run, and at least one.
pub open spec fn interval_of(iterations: nat) -> nat {
    if iterations / (PROGRESS_STEPS as nat) == 0 {
        1
    } else {
        iterations / (PROGRESS_STEPS as nat)
    }
}

/// A run in progress: the current generation, a second buffer of the same
/// shape for the next one, and how many generations are done.
pub struct Simulation {
    current: array2d::Array2D<u32>,
    next: array2d::Array2D<u32>,
    rain_cells: Vec<(usize, usize)>,
    rows: usize,
    cols: usize,
    seed: u32,
    step: usize,
    iterations: usize,
}

impl Simulation {
    /// The current generation.
    pub closed spec fn cells(&self) -> Seq<Seq<u32>> {
        array_cells(self.current)
    }

    pub closed spec fn spec_rows(&self) -> nat {
        self.rows as nat
    }

    pub closed spec fn spec_cols(&self) -> nat {
        self.cols as nat
    }

    pub closed spec fn spec_seed(&self) -> u32 {
        self.seed
    }

    pub closed spec fn spec_steps_done(&self) -> nat {
        self.step as nat
    }

    pub closed spec fn spec_iterations(&self) -> nat {
        self.iterations as nat
    }

    /// Both buffers have the run's shape, the rain sources are fixed, and
    /// the current generation is the one that the steps done so far give.
    pub closed spec fn wf(&self) -> bool {
        &&& config_error(self.rows as nat, self.cols as nat, self.iterations as nat, self.seed)
            is None
        &&& shaped(self.current)
        &&& shaped(self.next)
        &&& array_cells(self.current).len() == self.rows
        &&& array_cells(self.next).len() == self.rows
        &&& array_columns(self.current) == self.cols
        &&& array_columns(self.next) == self.cols
        &&& self.rain_cells@ == rain_sources(self.rows as nat, self.cols as nat)
        &&& self.step <= self.iterations
        &&& array_cells(self.current) == generation(
            initial_grid(self.rows as nat, self.cols as nat, self.seed),
            self.rain_cells@,
            self.step as nat,
        )
        &&& bounded(
            array_cells(self.current),
            self.seed + 4 * self.step,
        )
    }

    /// Sets up a run of `iterations` generations on a `rows` by `cols` grid
    /// with `seed` grains at the centre.
    pub fn new(rows: usize, cols: usize, iterations: usize, seed: u32) -> (r: Result<
        Simulation,
        ConfigError,
    >)
        ensures
            config_error(rows as nat, cols as nat, iterations as nat, seed) matches Some(e) ==> r
                == Err::<Simulation, ConfigError>(e),
            config_error(rows as nat, cols as nat, iterations as nat, seed) is None ==> r is Ok,
            r matches Ok(s) ==> {
                &&& s.wf()
                &&& s.spec_rows() == rows
                &&& s.spec_cols() == cols
                &&& s.spec_seed() == seed
                &&& s.spec_iterations() == iterations
                &&& s.spec_steps_done() == 0
                &&& s.cells() == initial_grid(rows as nat, cols as nat, seed)
            },
    {
        if rows < 2 || cols < 1 {
            return Err(ConfigError::GridTooSmall);
        }
        if rows > usize::MAX / cols {
            proof {
                assert(rows * cols > usize::MAX) by (nonlinear_arith)
                    requires
                        rows > usize::MAX / cols,
                        cols >= 1,
                ;
            }
            return Err(ConfigError::GridTooLarge);
        }
        proof {
            assert(rows * cols <= usize::MAX) by (nonlinear_arith)
                requires
                    rows <= usize::MAX / cols,
                    cols >= 1,
            ;
        }
        if iterations as u64 > ((u32::MAX - seed) / 4) as u64 {
            return Err(ConfigError::CountOverflow);
        }
        let mid_r = rows / 2;
        let mid_c = cols / 2;
        let rain_cells = vec![(mid_r, mid_c), (mid_r - 1, mid_c), (mid_r + 1, mid_c)];
        let mut current = grid_filled(0, rows, cols);
        let next = grid_filled(0, rows, cols);
        let res = grid_set(&mut current, mid_r, mid_c, seed);
        assert(res is Ok);
        let ghost rows_n = rows as nat;
        let ghost cols_n = cols as nat;
        assert(array_cells(current) =~~= initial_grid(rows_n, cols_n, seed));
        assert(rain_cells@ =~= rain_sources(rows_n, cols_n));
        let s = Simulation {
            current,
            next,
            rain_cells,
            rows,
            cols,
            seed,
            step: 0,
            iterations,
        };
        assert(bounded(array_cells(s.current), seed as int));
        Ok(s)
    }

    /// Advances the run by one generation: the next buffer receives the
    /// generation after the current one, then the two trade places.
    pub fn step(&mut self)
        requires
            old(self).wf(),
            old(self).spec_steps_done() < old(self).spec_iterations(),
        ensures
            final(self).wf(),
            final(self).spec_rows() == old(self).spec_rows(),
            final(self).spec_cols() == old(self).spec_cols(),
            final(self).spec_seed() == old(self).spec_seed(),
            final(self).spec_iterations() == old(self).spec_iterations(),
            final(self).spec_steps_done() == old(self).spec_steps_done() + 1,
            final(self).cells() == next_grid(
                old(self).cells(),
                rain_sources(old(self).spec_rows(), old(self).spec_cols()),
            ),
    {
        let ghost m = self.seed + 4 * self.step;
        proof {
            lemma_next_grid_bounded(array_cells(self.current), self.rain_cells@, m);
        }
        update_sandpile(&self.current, &mut self.next, self.rain_cells.as_slice());
        std::mem::swap(&mut self.current, &mut self.next);
        self.step = self.step + 1;
    }

    /// Whether every generation of the run has been computed.
    pub fn is_done(&self) -> (r: bool)
        requires
            self.wf(),
        ensures
            r == (self.spec_steps_done() == self.spec_iterations()),
    {
        self.step == self.iterations
    }

    /// How many generations have been computed.
    pub fn steps_done(&self) -> (r: usize)
        ensures
            r == self.spec_steps_done(),
    {
        self.step
    }

    /// How many generations the run computes in all.
    pub fn iterations(&self) -> (r: usize)
        ensures
            r == self.spec_iterations(),
    {
        self.iterations
    }

    /// Whether progress is due before the next generation: every
    /// `interval_of(iterations)` generations, from the first on.
    pub fn at_checkpoint(&self) -> (r: bool)
        ensures
            r == (self.spec_steps_done() % interval_of(self.spec_iterations()) == 0),
    {
        let interval = progress_interval(self.iterations);
        self.step % interval == 0
    }

    /// The current generation.
    pub fn grid(&self) -> (r: &array2d::Array2D<u32>)
        requires
            self.wf(),
        ensures
            array_cells(*r) == self.cells(),
            shaped(*r),
            array_cells(*r).len() == self.spec_rows(),
            array_columns(*r) == self.spec_cols(),
    {
        &self.current
    }
}

/// The number of generations between two progress checkpoints.
pub fn progress_interval(iterations: usize) -> (r: usize)
    ensures
        r == interval_of(iterations as nat),
        r >= 1,
{
    let interval = iterations / PROGRESS_STEPS;
    if interval == 0 {
        1
    } else {
        interval
    }
}

/// Runs `iterations` generations on a `rows` by `cols` grid seeded with
/// `seed` grains at the centre, and returns the last generation.
pub fn run(rows: usize, cols: usize, iterations: usize, seed: u32) -> (r: Result<
    array2d::Array2D<u32>,
    ConfigError,
>)
    ensures
        config_error(rows as nat, cols as nat, iterations as nat, seed) matches Some(e) ==> r
            == Err::<array2d::Array2D<u32>, ConfigError>(e),
        config_error(rows as nat, cols as nat, iterations as nat, seed) is None ==> r is Ok,
        r matches Ok(a) ==> {
            &&& shaped(a)
            &&& array_columns(a) == cols
            &&& array_cells(a) == generation(
                initial_grid(rows as nat, cols as nat, seed),
                rain_sources(rows as nat, cols as nat),
                iterations as nat,
            )
        },
{
    let mut sim = match Simulation::new(rows, cols, iterations, seed) {
        Ok(s) => s,
        Err(e) => {
            return Err(e);
        },
    };
    while !sim.is_done()
        invariant
            sim.wf(),
            sim.spec_rows() == rows,
            sim.spec_cols() == cols,
            sim.spec_seed() == seed,
            sim.spec_iterations() == iterations,
            sim.cells() == generation(
                initial_grid(rows as nat, cols as nat, seed),
                rain_sources(rows as nat, cols as nat),
                sim.spec_steps_done(),
            ),
        decreases iterations - sim.spec_steps_done(),
    {
        sim.step();
    }
    Ok(sim.current)
}

} // verus!
