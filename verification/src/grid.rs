//! The scores that the sequence model gives for a sequence of frames: one row
//! per frame, every row of the same width.

use crate::series::{MAX_SAMPLES, MAX_STEPS};
use vstd::prelude::*;

verus! {

/// A grid of scores in millionths, one row per time step, stored row after row.
///
/// A grid has at least one row and one column, at most `MAX_STEPS` rows and at
/// most `MAX_SAMPLES` cells.
#[derive(Debug, PartialEq, Eq)]
pub struct OutputGrid {
    steps: usize,
    width: usize,
    cells: Vec<i32>,
}

/// Whether `count` cells in rows of `width` make a grid.
pub open spec fn fits_grid(width: int, count: int) -> bool {
    &&& 0 < width
    &&& 0 < count <= MAX_SAMPLES
    &&& count % width == 0
    &&& count / width <= MAX_STEPS
}

impl OutputGrid {
    /// The number of rows.
    pub closed spec fn spec_steps(self) -> int {
        self.steps as int
    }

    /// The number of columns.
    pub closed spec fn spec_width(self) -> int {
        self.width as int
    }

    /// All cells, row after row.
    pub closed spec fn spec_cells(self) -> Seq<i32> {
        self.cells@
    }

    /// What holds of every grid.
    #[verifier::type_invariant]
    pub open spec fn well_formed(self) -> bool {
        &&& 0 < self.spec_width()
        &&& 0 < self.spec_steps() <= MAX_STEPS
        &&& self.spec_cells().len() == self.spec_steps() * self.spec_width()
        &&& self.spec_cells().len() <= MAX_SAMPLES
    }

    /// The score in row `step` and column `column`.
    pub open spec fn spec_value(self, step: int, column: int) -> i32 {
        self.spec_cells()[step * self.spec_width() + column]
    }

    /// Column `column` from the first row to the last.
    pub open spec fn spec_column(self, column: int) -> Seq<i32> {
        Seq::new(self.spec_steps() as nat, |step: int| self.spec_value(step, column))
    }

    /// The grid of the given cells in rows of `width`, where they make one.
    pub fn new(width: usize, cells: Vec<i32>) -> (made: Option<OutputGrid>)
        ensures
            made.is_some() == fits_grid(width as int, cells@.len() as int),
            made matches Some(grid) ==> {
                &&& grid.well_formed()
                &&& grid.spec_width() == width
                &&& grid.spec_steps() == (cells@.len() as int) / (width as int)
                &&& grid.spec_cells() == cells@
            },
    {
        if width == 0 || cells.len() == 0 || cells.len() > MAX_SAMPLES {
            return None;
        }
        if cells.len() % width != 0 {
            return None;
        }
        let steps: usize = cells.len() / width;
        if steps > MAX_STEPS {
            return None;
        }
        proof {
            vstd::arithmetic::div_mod::lemma_fundamental_div_mod(
                cells@.len() as int,
                width as int,
            );
            let w = width as int;
            let s = steps as int;
            assert(w * s == s * w) by (nonlinear_arith);
            assert(s > 0) by (nonlinear_arith)
                requires
                    w * s > 0,
                    w > 0,
            ;
        }
        Some(OutputGrid { steps, width, cells })
    }

    /// The number of rows.
    pub fn steps(&self) -> (n: usize)
        ensures
            n == self.spec_steps(),
            0 < n <= MAX_STEPS,
    {
        proof {
            use_type_invariant(self);
        }
        self.steps
    }

    /// The number of columns.
    pub fn width(&self) -> (n: usize)
        ensures
            n == self.spec_width(),
            0 < n,
    {
        proof {
            use_type_invariant(self);
        }
        self.width
    }

    /// All cells, row after row.
    pub fn cells(&self) -> (all: &Vec<i32>)
        ensures
            all@ == self.spec_cells(),
            0 < all@.len() <= MAX_SAMPLES,
            all@.len() == self.spec_steps() * self.spec_width(),
    {
        proof {
            use_type_invariant(self);
            let w = self.spec_width();
            let s = self.spec_steps();
            assert(s * w > 0) by (nonlinear_arith)
                requires
                    s > 0,
                    w > 0,
            ;
        }
        &self.cells
    }

    /// The score in row `step` and column `column`.
    pub fn value(&self, step: usize, column: usize) -> (score: i32)
        requires
            step < self.spec_steps(),
            column < self.spec_width(),
        ensures
            score == self.spec_value(step as int, column as int),
    {
        proof {
            use_type_invariant(self);
            self.lemma_cell_in_range(step as int, column as int);
        }
        self.cells[step * self.width + column]
    }

    /// Row `step` and column `column` name a cell of the grid.
    pub proof fn lemma_cell_in_range(self, step: int, column: int)
        requires
            self.well_formed(),
            0 <= step < self.spec_steps(),
            0 <= column < self.spec_width(),
        ensures
            0 <= step * self.spec_width() <= step * self.spec_width() + column
                < self.spec_cells().len(),
    {
        let w = self.spec_width();
        let s = self.spec_steps();
        assert(0 <= step * w && step * w + w <= s * w) by (nonlinear_arith)
            requires
                0 <= step < s,
                0 < w,
        ;
    }

    /// Column `column` from the first row to the last.
    pub fn column(&self, column: usize) -> (scores: Vec<i32>)
        requires
            column < self.spec_width(),
        ensures
            scores@ == self.spec_column(column as int),
            scores@.len() == self.spec_steps(),
            0 < scores@.len() <= MAX_STEPS,
    {
        proof {
            use_type_invariant(self);
        }
        let mut scores: Vec<i32> = Vec::new();
        let mut step: usize = 0;
        while step < self.steps
            invariant
                self.well_formed(),
                step <= self.steps,
                self.steps == self.spec_steps(),
                column < self.spec_width(),
                scores@.len() == step,
                forall|t: int| 0 <= t < step ==> scores@[t] == self.spec_value(t, column as int),
            decreases self.steps - step,
        {
            let score: i32 = self.value(step, column);
            scores.push(score);
            step = step + 1;
        }
        assert(scores@ =~= self.spec_column(column as int));
        scores
    }
}

} // verus!
