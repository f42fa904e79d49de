//! Conway's Game of Life on a grid of fixed extents.
//!
//! A [`grid::Grid`] holds the cells and changes them in two steps: values are
//! staged one by one and committed all at once, so that every reader sees one
//! consistent generation. [`GameOfLife`] derives the next generation from the
//! current one. [`grid::state::GridState`] is the mathematical model that all
//! contracts speak of.
//!
//! For a front end that works on lines of text, [`display`] renders a grid
//! and [`input`] reads what a line asks for.
use vstd::prelude::*;

pub mod display;
pub mod grid;
pub mod input;
pub mod number;

use crate::grid::{Cell, Grid};
use crate::grid::state::GridState;

verus! {

/// Conway's Game of Life on a grid of type `T`: it owns the grid and derives
/// each generation from the one before.
pub struct GameOfLife<T: Grid> {
    grid: T,
}

impl<T: Grid> Default for GameOfLife<T> {
    /// The game on the grid that `T::default()` returns.
    fn default() -> (game: Self)
        ensures
            call_ensures(T::default, (), *game.grid()),
    {
        GameOfLife { grid: T::default() }
    }
}

/// Whether position `p` comes before `(x, y)` where rows are walked from the
/// first to the last, each from its first column to its last.
spec fn walked(p: (int, int), x: int, y: int) -> bool {
    p.1 < y || (p.1 == y && p.0 < x)
}

/// The state in the middle of a sweep of `s`: the rule's decisions are
/// staged at the positions that come before `(x, y)`, and nowhere else yet.
spec fn swept_before(s: GridState, x: int, y: int) -> GridState {
    GridState {
        staged: Map::new(
            |p: (int, int)|
                s.staged.dom().contains(p) || (walked(p, x, y) && s.decision(p.0, p.1) is Some),
            |p: (int, int)|
                if walked(p, x, y) && s.decision(p.0, p.1) is Some {
                    s.decision(p.0, p.1).unwrap()
                } else {
                    s.staged[p]
                },
        ),
        ..s
    }
}

/// Before the first position nothing is decided yet.
proof fn lemma_sweep_starts(s: GridState)
    ensures
        swept_before(s, 0, 0) == s,
{
    assert(swept_before(s, 0, 0).staged =~= s.staged);
}

/// One more position is decided by staging the rule's decision for it.
proof fn lemma_sweep_advances(s: GridState, x: int, y: int)
    requires
        s.in_bounds(x, y),
    ensures
        swept_before(s, x + 1, y) == (match s.decision(x, y) {
            Some(cell) => swept_before(s, x, y).stage(x, y, cell),
            None => swept_before(s, x, y),
        }),
{
    let next = match s.decision(x, y) {
        Some(cell) => swept_before(s, x, y).stage(x, y, cell),
        None => swept_before(s, x, y),
    };
    assert(swept_before(s, x + 1, y).staged =~= next.staged);
}

/// The end of one row is the start of the next.
proof fn lemma_sweep_wraps(s: GridState, y: int)
    ensures
        swept_before(s, s.width as int, y) == swept_before(s, 0, y + 1),
{
    assert(swept_before(s, s.width as int, y).staged =~= swept_before(s, 0, y + 1).staged);
}

/// After the last row every position is decided.
proof fn lemma_sweep_ends(s: GridState)
    ensures
        swept_before(s, 0, s.height as int) == s.sweep(),
{
    assert(swept_before(s, 0, s.height as int).staged =~= s.sweep().staged);
}

impl<T: Grid> GameOfLife<T> {
    /// The grid that the game owns.
    pub closed spec fn spec_grid(&self) -> &T {
        &self.grid
    }

    /// Replaces the grid by its next generation. Every position is decided
    /// on the committed values from before the call: with three live
    /// neighbors it becomes alive, with two it is left alone, with any other
    /// number it becomes dead. All decisions are then committed at once,
    /// together with what was staged before the call and left alone.
    pub fn next(&mut self)
        ensures
            final(self).grid()@ == old(self).grid()@.step(),
    {
        let ghost start = self.grid@;
        let height = self.grid.height();
        let width = self.grid.width();
        proof {
            lemma_sweep_starts(start);
        }
        for y in 0..height
            invariant
                width == start.width,
                height == start.height,
                self.grid@ == swept_before(start, 0, y as int),
        {
            for x in 0..width
                invariant
                    width == start.width,
                    height == start.height,
                    y < height,
                    self.grid@ == swept_before(start, x as int, y as int),
            {
                proof {
                    start.lemma_count_reads_committed(self.grid@, x as int, y as int);
                    lemma_sweep_advances(start, x as int, y as int);
                }
                let count = self.grid.neighbor_count(x, y).unwrap();
                match count {
                    0..=1 => {
                        // Underpopulation.
                        self.grid.set(x, y, Cell::Dead).unwrap();
                    },
                    2 => {
                        // The cell stays as it is.
                    },
                    3 => {
                        // Survival or birth.
                        self.grid.set(x, y, Cell::Alive).unwrap();
                    },
                    _ => {
                        // Overpopulation.
                        self.grid.set(x, y, Cell::Dead).unwrap();
                    },
                }
            }
            proof {
                lemma_sweep_wraps(start, y as int);
            }
        }
        proof {
            lemma_sweep_ends(start);
        }
        self.grid.update();
    }

    /// The grid, to read.
    #[verifier::when_used_as_spec(spec_grid)]
    pub fn grid(&self) -> (grid: &T)
        ensures
            grid == self.spec_grid(),
    {
        &self.grid
    }

    /// The grid, to change: what the caller leaves in it is the game's grid
    /// from then on.
    pub fn grid_mut(&mut self) -> (grid: &mut T)
        ensures
            *grid == *old(self).grid(),
            *final(self).grid() == *final(grid),
    {
        &mut self.grid
    }
}

} // verus!
