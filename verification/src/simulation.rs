//! The driver of a simulation: three grids and a seeded random source.
//!
//! One grid holds the current generation, one is the buffer into which the
//! next generation is computed, and one remembers what was shown last. A tick
//! computes a generation, reports what changed against what was shown, and
//! rotates the buffers.

use crate::cell::{CellState, GridError};
use crate::diff::{
    diff, diff_of, lemma_diff_from_blank_counts_live, lemma_diff_of_same_is_empty, live_count,
    DiffEntry,
};
use crate::grid::{blank, seeded_by, CellGrid};
use crate::rules::{lemma_dead_grid_stays_dead, next_cells, step};
use crate::source::seeded_source;
use rand::rngs::StdRng;
use vstd::prelude::*;

verus! {

/// A running simulation.
pub struct Simulation {
    current: CellGrid,
    spare: CellGrid,
    displayed: CellGrid,
    rng: StdRng,
    one_in: u32,
}

impl Simulation {
    /// The current generation.
    pub closed spec fn current(&self) -> CellGrid {
        self.current
    }

    /// The generation that was reported last, or a grid of dead cells where
    /// none was reported since the grid was seeded.
    pub closed spec fn displayed(&self) -> CellGrid {
        self.displayed
    }

    /// The chance with which seeding brings a dead cell to life: one in
    /// this number.
    pub closed spec fn spec_one_in(&self) -> u32 {
        self.one_in
    }

    /// The buffer for the next generation has the shape of the current one.
    pub closed spec fn spare_fits(&self) -> bool {
        &&& self.spare.wf()
        &&& self.spare.same_shape(&self.current)
    }

    /// The generation that the next tick computes.
    pub open spec fn upcoming(&self) -> Seq<CellState> {
        next_cells(
            self.current().spec_width() as int,
            self.current().spec_height() as int,
            self.current()@,
        )
    }

    /// The current generation is what seeding makes of a grid of dead cells.
    pub open spec fn freshly_seeded(&self) -> bool {
        exists|draws: Seq<u32>|
            seeded_by(blank(self.current()@.len()), draws, self.spec_one_in(), self.current()@)
    }

    /// The three grids have one shape, and what was shown last is either the
    /// current generation or nothing.
    pub open spec fn wf(&self) -> bool {
        &&& self.current().wf()
        &&& self.displayed().wf()
        &&& self.displayed().same_shape(&self.current())
        &&& self.spare_fits()
        &&& self.spec_one_in() > 0
        &&& (self.displayed()@ == self.current()@ || self.displayed()@ == blank(
            self.current()@.len(),
        ))
    }

    /// Puts a simulation together around a first generation. Nothing has
    /// been shown yet.
    fn assemble(grid: CellGrid, rng: StdRng, one_in: u32) -> (sim: Simulation)
        requires
            grid.wf(),
            one_in > 0,
        ensures
            sim.wf(),
            sim.current() == grid,
            sim.displayed()@ == blank(grid@.len()),
            sim.spec_one_in() == one_in,
    {
        let spare = grid.blank_like();
        let displayed = grid.blank_like();
        Simulation { current: grid, spare, displayed, rng, one_in }
    }

    /// Starts a simulation on a grid of `width` columns and `height` rows.
    /// The random source is created from `seed`, and each cell of the first
    /// generation is alive with a chance of one in `one_in`. A grid without
    /// columns or without rows is refused.
    pub fn initialize(width: usize, height: usize, one_in: u32, seed: u64) -> (sim: Result<
        Simulation,
        GridError,
    >)
        requires
            width * height <= usize::MAX,
            one_in > 0,
        ensures
            sim is Err <==> (width == 0 || height == 0),
            sim matches Err(e) ==> e == GridError::InvalidConfiguration,
            sim matches Ok(s) ==> (s.wf() && s.current().spec_width() == width
                && s.current().spec_height() == height && s.displayed()@ == blank(
                (width * height) as nat,
            ) && s.spec_one_in() == one_in && s.freshly_seeded()),
    {
        match CellGrid::new(width, height) {
            Err(e) => Err(e),
            Ok(grid) => {
                let mut rng = seeded_source(seed);
                let grid = grid.random_state(&mut rng, one_in);
                Ok(Simulation::assemble(grid, rng, one_in))
            },
        }
    }

    /// Starts a simulation on a first generation that the caller has
    /// prepared. The random source is created from `seed` and is used when
    /// the grid is seeded again.
    pub fn from_grid(grid: CellGrid, one_in: u32, seed: u64) -> (sim: Simulation)
        requires
            grid.wf(),
            one_in > 0,
        ensures
            sim.wf(),
            sim.current() == grid,
            sim.displayed()@ == blank(grid@.len()),
            sim.spec_one_in() == one_in,
    {
        Simulation::assemble(grid, seeded_source(seed), one_in)
    }

    /// Advances the simulation by one generation and lists the cells that
    /// differ from what was shown last, each with its new state, in
    /// row-major order. The new generation then counts as shown.
    pub fn tick(&mut self) -> (changes: Vec<DiffEntry>)
        requires
            old(self).wf(),
        ensures
            final(self).wf(),
            final(self).current().same_shape(&old(self).current()),
            final(self).spec_one_in() == old(self).spec_one_in(),
            final(self).current()@ == old(self).upcoming(),
            final(self).displayed()@ == old(self).upcoming(),
            changes@ == diff_of(
                old(self).current().spec_width() as int,
                old(self).displayed()@,
                old(self).upcoming(),
            ),
    {
        step(&self.current, &mut self.spare);
        let changes = diff(&self.displayed, &self.spare);
        self.displayed.copy_from(&self.spare);
        self.current.swap(&mut self.spare);
        changes
    }

    /// Seeds the current generation again: one random draw is applied to
    /// every cell, so that each dead cell comes to life with a chance of one
    /// in the number given at the start, and a live cell stays alive. What
    /// was shown is forgotten, so the next tick reports every live cell.
    pub fn reseed(&mut self)
        requires
            old(self).wf(),
        ensures
            final(self).wf(),
            final(self).current().same_shape(&old(self).current()),
            final(self).spec_one_in() == old(self).spec_one_in(),
            final(self).displayed()@ == blank(old(self).current()@.len()),
            exists|draws: Seq<u32>|
                seeded_by(
                    old(self).current()@,
                    draws,
                    old(self).spec_one_in(),
                    final(self).current()@,
                ),
    {
        self.current.randomize(&mut self.rng, self.one_in);
        self.displayed.clear();
    }

    /// Reads the cell in column `x` of row `y` of the current generation.
    pub fn cell_at(&self, x: usize, y: usize) -> (cell: Result<CellState, GridError>)
        requires
            self.wf(),
        ensures
            self.current().in_bounds(x as int, y as int) ==> cell == Ok::<CellState, GridError>(
                self.current().spec_cell(x as int, y as int),
            ),
            !self.current().in_bounds(x as int, y as int) ==> cell == Err::<CellState, GridError>(
                GridError::OutOfBounds,
            ),
    {
        self.current.get(x, y)
    }

    /// The numbers of columns and rows.
    pub fn dimensions(&self) -> (size: (usize, usize))
        ensures
            size.0 == self.current().spec_width(),
            size.1 == self.current().spec_height(),
    {
        (self.current.width(), self.current.height())
    }

    /// A tick on a generation without a live cell computes a generation
    /// without a live cell and reports no change.
    pub proof fn lemma_tick_of_dead_grid(&self)
        requires
            self.wf(),
            self.current()@ == blank(self.current()@.len()),
        ensures
            self.upcoming() == blank(self.current()@.len()),
            diff_of(self.current().spec_width() as int, self.displayed()@, self.upcoming())
                == Seq::<DiffEntry>::empty(),
    {
        let width = self.current().spec_width() as int;
        let height = self.current().spec_height() as int;
        lemma_dead_grid_stays_dead(width, height);
        assert(self.current()@.len() == (width * height) as nat);
        lemma_diff_of_same_is_empty(width, self.upcoming(), self.upcoming().len());
    }

    /// While nothing counts as shown, as after the grid was seeded, a tick
    /// reports as many cells as the generation that it computes has live
    /// ones.
    pub proof fn lemma_first_tick_reports_every_live_cell(&self)
        requires
            self.wf(),
            self.displayed()@ == blank(self.current()@.len()),
        ensures
            diff_of(
                self.current().spec_width() as int,
                self.displayed()@,
                self.upcoming(),
            ).len() == live_count(self.upcoming(), self.upcoming().len()),
    {
        lemma_diff_from_blank_counts_live(
            self.current().spec_width() as int,
            self.upcoming(),
            self.upcoming().len(),
        );
    }
}

} // verus!
