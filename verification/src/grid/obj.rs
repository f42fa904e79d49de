use vstd::prelude::*;
use crate::grid::{Cell, CellOutOfBoundsError, Grid};
use crate::grid::state::GridState;

verus! {

/// One position of the grid: its committed value, and the value staged for it.
#[derive(Clone, Copy, Debug)]
pub struct CellHolder {
    pub cell: Cell,
    pub change_to: Option<Cell>,
}

impl CellHolder {
    /// The holder after a commit: the staged value, if there is one, has
    /// become the committed value, and nothing is staged.
    pub open spec fn committed(self) -> CellHolder {
        CellHolder {
            cell: match self.change_to {
                Some(cell) => cell,
                None => self.cell,
            },
            change_to: None,
        }
    }
}

/// A grid of `WIDTH` columns and `HEIGHT` rows, stored row by row:
/// the holder of position `(x, y)` is `grid[y][x]`.
pub struct GameOfLifeGrid<const WIDTH: usize, const HEIGHT: usize> {
    pub grid: [[CellHolder; WIDTH]; HEIGHT],
}

impl<const WIDTH: usize, const HEIGHT: usize> Default for GameOfLifeGrid<WIDTH, HEIGHT> {
    /// The grid with every cell dead and nothing staged.
    fn default() -> (grid: Self)
        ensures
            grid@ == GridState::blank(WIDTH as nat, HEIGHT as nat),
    {
        let holder = CellHolder { cell: Cell::Dead, change_to: None };
        let row = [holder; WIDTH];
        let grid = GameOfLifeGrid { grid: [row; HEIGHT] };
        proof {
            broadcast use vstd::array::group_array_axioms;

            let blank = GridState::blank(WIDTH as nat, HEIGHT as nat);
            assert(grid@.cells =~= blank.cells);
            assert(grid@.staged =~= blank.staged);
        }
        grid
    }
}

impl<const WIDTH: usize, const HEIGHT: usize> Grid for GameOfLifeGrid<WIDTH, HEIGHT> {
    open spec fn view(&self) -> GridState {
        GridState {
            width: WIDTH as nat,
            height: HEIGHT as nat,
            cells: Map::new(
                |p: (int, int)| 0 <= p.0 < WIDTH && 0 <= p.1 < HEIGHT,
                |p: (int, int)| self.grid[p.1][p.0].cell,
            ),
            staged: Map::new(
                |p: (int, int)|
                    0 <= p.0 < WIDTH && 0 <= p.1 < HEIGHT && self.grid[p.1][p.0].change_to is Some,
                |p: (int, int)| self.grid[p.1][p.0].change_to.unwrap(),
            ),
        }
    }

    proof fn lemma_view_wf(&self) {
        assert(self@.cells.dom() =~= self@.positions());
    }

    fn get(&self, x: usize, y: usize) -> (r: Result<Cell, CellOutOfBoundsError>) {
        if y < HEIGHT && x < WIDTH {
            Ok(self.grid[y][x].cell)
        } else {
            Err(CellOutOfBoundsError::new(x, y))
        }
    }

    fn set(&mut self, x: usize, y: usize, cell: Cell) -> (r: Result<(), CellOutOfBoundsError>) {
        if y < HEIGHT && x < WIDTH {
            self.grid[y][x].change_to = Some(cell);
            proof {
                broadcast use vstd::array::group_array_axioms;

                let staged = old(self)@.stage(x as int, y as int, cell);
                assert(self@.cells =~= staged.cells);
                assert(self@.staged =~= staged.staged);
            }
            Ok(())
        } else {
            Err(CellOutOfBoundsError::new(x, y))
        }
    }

    fn update(&mut self) {
        for y in 0..HEIGHT
            invariant
                forall|i: int, j: int|
                    0 <= i < WIDTH && 0 <= j < HEIGHT ==> #[trigger] self.grid[j][i] == if j < y {
                        old(self).grid[j][i].committed()
                    } else {
                        old(self).grid[j][i]
                    },
        {
            for x in 0..WIDTH
                invariant
                    y < HEIGHT,
                    forall|i: int, j: int|
                        0 <= i < WIDTH && 0 <= j < HEIGHT ==> #[trigger] self.grid[j][i] == if j < y
                            || (j == y && i < x) {
                            old(self).grid[j][i].committed()
                        } else {
                            old(self).grid[j][i]
                        },
            {
                if let Some(cell) = self.grid[y][x].change_to.take() {
                    self.grid[y][x].cell = cell;
                }
            }
        }
        proof {
            let committed = old(self)@.commit();
            assert(self@.cells =~= committed.cells);
            assert(self@.staged =~= committed.staged);
        }
    }

    fn width(&self) -> (w: usize) {
        WIDTH
    }

    fn height(&self) -> (h: usize) {
        HEIGHT
    }
}

} // verus!
