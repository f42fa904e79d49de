use vstd::prelude::*;
use crate::grid::Cell;

verus! {

/// The mathematical content of a grid: its extents, the committed value of
/// every position, and the values that are staged and wait for a commit.
///
/// Positions are pairs `(x, y)`, `x` the column and `y` the row.
pub struct GridState {
    pub width: nat,
    pub height: nat,
    pub cells: Map<(int, int), Cell>,
    pub staged: Map<(int, int), Cell>,
}

/// The decision of the rule for a position with `n` live neighbors:
/// the value to stage, or `None` where the position keeps what it has.
pub open spec fn rule(n: nat) -> Option<Cell> {
    if n == 2 {
        None
    } else if n == 3 {
        Some(Cell::Alive)
    } else {
        Some(Cell::Dead)
    }
}

impl GridState {
    /// Whether `(x, y)` is a position of the grid.
    pub open spec fn in_bounds(self, x: int, y: int) -> bool {
        0 <= x < self.width && 0 <= y < self.height
    }

    /// All positions of the grid.
    pub open spec fn positions(self) -> Set<(int, int)> {
        Set::new(|p: (int, int)| self.in_bounds(p.0, p.1))
    }

    /// Exactly the positions of the grid hold a committed value, only
    /// positions of the grid hold a staged one, and the extents fit a `usize`.
    pub open spec fn wf(self) -> bool {
        &&& self.width <= usize::MAX
        &&& self.height <= usize::MAX
        &&& self.cells.dom() == self.positions()
        &&& self.staged.dom().subset_of(self.positions())
    }

    /// Whether nothing is staged.
    pub open spec fn settled(self) -> bool {
        self.staged == Map::<(int, int), Cell>::empty()
    }

    /// The grid of the given extents with every cell dead and nothing staged.
    pub open spec fn blank(width: nat, height: nat) -> GridState {
        GridState {
            width,
            height,
            cells: Map::new(
                |p: (int, int)| 0 <= p.0 < width && 0 <= p.1 < height,
                |p: (int, int)| Cell::Dead,
            ),
            staged: Map::empty(),
        }
    }

    /// The committed value at `(x, y)`.
    pub open spec fn cell(self, x: int, y: int) -> Cell
        recommends
            self.in_bounds(x, y),
    {
        self.cells[(x, y)]
    }

    /// Whether `(x, y)` is a position of the grid whose committed value is alive.
    /// Positions outside the grid count as absent.
    pub open spec fn alive(self, x: int, y: int) -> bool {
        self.in_bounds(x, y) && self.cells[(x, y)] == Cell::Alive
    }

    /// 1 where `(x, y)` is alive, else 0.
    pub open spec fn population(self, x: int, y: int) -> nat {
        if self.alive(x, y) {
            1
        } else {
            0
        }
    }

    /// The number of live cells among the eight positions around `(x, y)`.
    pub open spec fn neighbor_count(self, x: int, y: int) -> nat {
        self.population(x - 1, y - 1) + self.population(x, y - 1) + self.population(x + 1, y - 1)
            + self.population(x - 1, y) + self.population(x + 1, y)
            + self.population(x - 1, y + 1) + self.population(x, y + 1) + self.population(x + 1, y + 1)
    }

    /// The state after `cell` was staged at `(x, y)`: committed values stay.
    pub open spec fn stage(self, x: int, y: int, cell: Cell) -> GridState {
        GridState { staged: self.staged.insert((x, y), cell), ..self }
    }

    /// The state after a commit: every staged value has replaced the committed
    /// one at its position, and nothing is staged.
    pub open spec fn commit(self) -> GridState {
        GridState {
            cells: Map::new(
                |p: (int, int)| self.cells.dom().contains(p),
                |p: (int, int)|
                    if self.staged.dom().contains(p) {
                        self.staged[p]
                    } else {
                        self.cells[p]
                    },
            ),
            staged: Map::empty(),
            ..self
        }
    }

    /// The value that the rule stages at `(x, y)`, decided on the committed
    /// values of `self`: `None` outside the grid and where the rule stages nothing.
    pub open spec fn decision(self, x: int, y: int) -> Option<Cell> {
        if self.in_bounds(x, y) {
            rule(self.neighbor_count(x, y))
        } else {
            None
        }
    }

    /// The state after the rule's decision was staged at every position,
    /// each decision taken on the committed values of `self`. What was staged
    /// before stays where the rule stages nothing.
    pub open spec fn sweep(self) -> GridState {
        GridState {
            staged: Map::new(
                |p: (int, int)| self.staged.dom().contains(p) || self.decision(p.0, p.1) is Some,
                |p: (int, int)|
                    match self.decision(p.0, p.1) {
                        Some(cell) => cell,
                        None => self.staged[p],
                    },
            ),
            ..self
        }
    }

    /// The next generation.
    pub open spec fn step(self) -> GridState {
        self.sweep().commit()
    }

    /// The grid with every cell dead is well-formed.
    pub proof fn lemma_blank_wf(width: nat, height: nat)
        requires
            width <= usize::MAX,
            height <= usize::MAX,
        ensures
            GridState::blank(width, height).wf(),
    {
        let blank = GridState::blank(width, height);
        assert(blank.cells.dom() =~= blank.positions());
    }

    /// Staging inside the grid keeps a state well-formed.
    pub proof fn lemma_stage_wf(self, x: int, y: int, cell: Cell)
        requires
            self.wf(),
            self.in_bounds(x, y),
        ensures
            self.stage(x, y, cell).wf(),
    {
        assert(self.stage(x, y, cell).positions() =~= self.positions());
    }

    /// A commit keeps a state well-formed.
    pub proof fn lemma_commit_wf(self)
        requires
            self.wf(),
        ensures
            self.commit().wf(),
    {
        assert(self.commit().positions() =~= self.positions());
        assert(self.commit().cells.dom() =~= self.cells.dom());
    }

    /// A step keeps a state well-formed.
    pub proof fn lemma_step_wf(self)
        requires
            self.wf(),
        ensures
            self.sweep().wf(),
            self.step().wf(),
    {
        assert(self.sweep().positions() =~= self.positions());
        self.sweep().lemma_commit_wf();
    }

    /// Staging is invisible until the next commit: a staged value changes no
    /// committed value, so every lookup and every neighbor count stays as it was.
    pub proof fn lemma_stage_is_isolated(self, x: int, y: int, cell: Cell, i: int, j: int)
        ensures
            self.stage(x, y, cell).in_bounds(i, j) == self.in_bounds(i, j),
            self.stage(x, y, cell).cell(i, j) == self.cell(i, j),
            self.stage(x, y, cell).neighbor_count(i, j) == self.neighbor_count(i, j),
    {
    }

    /// A commit makes each staged value the committed one at its position and
    /// leaves the other positions alone; nothing is staged afterwards.
    pub proof fn lemma_commit_applies_staged(self, x: int, y: int)
        requires
            self.wf(),
            self.in_bounds(x, y),
        ensures
            self.commit().settled(),
            self.commit().cell(x, y) == (if self.staged.dom().contains((x, y)) {
                self.staged[(x, y)]
            } else {
                self.cell(x, y)
            }),
    {
    }

    /// A commit with nothing staged changes nothing.
    pub proof fn lemma_commit_of_settled(self)
        requires
            self.settled(),
        ensures
            self.commit() == self,
    {
        assert(self.commit().cells =~= self.cells);
    }

    /// A second commit right after a commit changes nothing.
    pub proof fn lemma_commit_twice(self)
        ensures
            self.commit().commit() == self.commit(),
    {
        self.commit().lemma_commit_of_settled();
    }

    /// Neighbor counts read committed values only: two states of the same
    /// extents with the same committed values give the same count.
    pub proof fn lemma_count_reads_committed(self, other: GridState, x: int, y: int)
        requires
            self.width == other.width,
            self.height == other.height,
            self.cells == other.cells,
        ensures
            self.neighbor_count(x, y) == other.neighbor_count(x, y),
    {
    }

    /// A position has at most eight live neighbors.
    pub proof fn lemma_count_bounded(self, x: int, y: int)
        ensures
            self.neighbor_count(x, y) <= 8,
    {
    }

    /// A neighbor count depends on the eight positions around `(x, y)` alone:
    /// neither `(x, y)` itself nor any position further away contributes.
    pub proof fn lemma_count_is_local(self, other: GridState, x: int, y: int)
        requires
            forall|i: int, j: int|
                x - 1 <= i <= x + 1 && y - 1 <= j <= y + 1 && (i, j) != (x, y) ==> self.alive(i, j)
                    == other.alive(i, j),
        ensures
            self.neighbor_count(x, y) == other.neighbor_count(x, y),
    {
    }

    /// On a state with nothing staged, bringing a dead neighbor of `(x, y)`
    /// to life and committing raises the count at `(x, y)` by one.
    pub proof fn lemma_count_gains_neighbor(self, x: int, y: int, i: int, j: int)
        requires
            self.wf(),
            self.settled(),
            self.in_bounds(i, j),
            !self.alive(i, j),
            x - 1 <= i <= x + 1,
            y - 1 <= j <= y + 1,
            (i, j) != (x, y),
        ensures
            self.stage(i, j, Cell::Alive).commit().neighbor_count(x, y) == self.neighbor_count(x, y)
                + 1,
    {
    }

    /// On a state with nothing staged, a change at `(x, y)` itself or at a
    /// position that is no neighbor of `(x, y)` leaves the count at `(x, y)`
    /// as it was.
    pub proof fn lemma_count_ignores_others(self, x: int, y: int, i: int, j: int, cell: Cell)
        requires
            self.wf(),
            self.settled(),
            self.in_bounds(i, j),
            (i, j) == (x, y) || i < x - 1 || i > x + 1 || j < y - 1 || j > y + 1,
        ensures
            self.stage(i, j, cell).commit().neighbor_count(x, y) == self.neighbor_count(x, y),
    {
    }

    /// On the grid with every cell dead, every neighbor count is 0.
    pub proof fn lemma_blank_count(width: nat, height: nat, x: int, y: int)
        ensures
            GridState::blank(width, height).neighbor_count(x, y) == 0,
    {
    }

    /// What a step does to one position: the rule's decision where it makes
    /// one, else the value that was staged there, else the value that was there.
    /// Nothing is staged afterwards.
    pub proof fn lemma_step_cell(self, x: int, y: int)
        requires
            self.wf(),
            self.in_bounds(x, y),
        ensures
            self.step().width == self.width,
            self.step().height == self.height,
            self.step().settled(),
            self.step().cell(x, y) == (match rule(self.neighbor_count(x, y)) {
                Some(cell) => cell,
                None => if self.staged.dom().contains((x, y)) {
                    self.staged[(x, y)]
                } else {
                    self.cell(x, y)
                },
            }),
    {
    }

    /// The rule of the game, on a state with nothing staged: a cell is alive
    /// in the next generation exactly if it has three live neighbors, or has
    /// two and is alive now.
    pub proof fn lemma_step_of_settled(self, x: int, y: int)
        requires
            self.wf(),
            self.settled(),
            self.in_bounds(x, y),
        ensures
            self.step().alive(x, y) <==> self.neighbor_count(x, y) == 3 || (self.neighbor_count(x, y)
                == 2 && self.alive(x, y)),
    {
        self.lemma_step_cell(x, y);
    }
}

} // verus!
