use vstd::prelude::*;
use vstd::string::*;

pub mod obj;
pub mod state;

use crate::grid::state::GridState;
use crate::number::{decimal, to_decimal};

verus! {

/// The state of one position of the grid.
#[derive(PartialEq, Eq, Clone, Copy, Debug, Structural)]
pub enum Cell {
    Dead,
    Alive,
}

/// The error of every operation that takes coordinates: it names the
/// coordinates that lie outside the grid.
#[derive(PartialEq, Eq, Debug, Structural)]
pub struct CellOutOfBoundsError {
    // The fields are private: the coordinates can be read, not changed.
    x: usize,
    y: usize,
}

impl CellOutOfBoundsError {
    /// The column that the error names.
    pub closed spec fn spec_x(&self) -> usize {
        self.x
    }

    /// The row that the error names.
    pub closed spec fn spec_y(&self) -> usize {
        self.y
    }

    /// The error that names `(x, y)`. It is for implementations of [`Grid`].
    pub fn new(x: usize, y: usize) -> (e: Self)
        ensures
            e.x() == x,
            e.y() == y,
    {
        CellOutOfBoundsError { x, y }
    }

    /// The column that the error names.
    #[verifier::when_used_as_spec(spec_x)]
    pub fn x(&self) -> (x: usize)
        ensures
            x == self.spec_x(),
    {
        self.x
    }

    /// The row that the error names.
    #[verifier::when_used_as_spec(spec_y)]
    pub fn y(&self) -> (y: usize)
        ensures
            y == self.spec_y(),
    {
        self.y
    }

    /// The message of the error, for a reader.
    pub fn to_string(&self) -> (text: String)
        ensures
            text@ == message(self.x() as nat, self.y() as nat),
    {
        let mut text = String::from_str("cell (");
        text.append(to_decimal(self.x).as_str());
        text.append(", ");
        text.append(to_decimal(self.y).as_str());
        text.append(") is out of bounds of the grid");
        text
    }

    /// An error is its two coordinates and nothing more.
    pub proof fn lemma_same_coordinates(a: Self, b: Self)
        requires
            a.x() == b.x(),
            a.y() == b.y(),
        ensures
            a == b,
    {
    }
}

/// The message of the error that names `(x, y)`: both coordinates in
/// decimal notation, within a sentence.
pub open spec fn message(x: nat, y: nat) -> Seq<char> {
    "cell ("@ + decimal(x) + ", "@ + decimal(y) + ") is out of bounds of the grid"@
}

/// Whether `r` is the error that names `(x, y)`.
pub open spec fn refused<V>(r: Result<V, CellOutOfBoundsError>, x: usize, y: usize) -> bool {
    r matches Err(e) && e.x() == x && e.y() == y
}

/// A grid of fixed extents whose cells change in two steps: `set` stages a
/// value, and `update` commits all staged values at once. Reads see committed
/// values only.
///
/// Contracts speak of the grid through its view, a [`GridState`]. How an
/// implementation stores its cells is its own matter.
pub trait Grid: Default {
    /// What the grid holds.
    spec fn view(&self) -> GridState;

    /// The view of every grid is well-formed.
    proof fn lemma_view_wf(&self)
        ensures
            self@.wf(),
    ;

    /// The committed value at `(x, y)`, or the error that names `(x, y)`
    /// where that lies outside the grid.
    fn get(&self, x: usize, y: usize) -> (r: Result<Cell, CellOutOfBoundsError>)
        ensures
            self@.in_bounds(x as int, y as int) ==> (r matches Ok(cell) && cell == self@.cell(
                x as int,
                y as int,
            )),
            !self@.in_bounds(x as int, y as int) ==> refused(r, x, y),
    ;

    /// Stages `cell` at `(x, y)`: reads do not see it before the next
    /// `update`. Outside the grid nothing changes, and the error names `(x, y)`.
    fn set(&mut self, x: usize, y: usize, cell: Cell) -> (r: Result<(), CellOutOfBoundsError>)
        ensures
            old(self)@.in_bounds(x as int, y as int) ==> r is Ok && final(self)@ == old(self)@.stage(
                x as int,
                y as int,
                cell,
            ),
            !old(self)@.in_bounds(x as int, y as int) ==> refused(r, x, y) && final(self)@ == old(
                self,
            )@,
    ;

    /// Commits every staged value, all of them at once.
    fn update(&mut self)
        ensures
            final(self)@ == old(self)@.commit(),
    ;

    /// The number of live cells among the eight positions around `(x, y)`, by
    /// their committed values, or the error that names `(x, y)` where that
    /// lies outside the grid. Positions around `(x, y)` that lie outside the
    /// grid count as dead.
    fn neighbor_count(&self, x: usize, y: usize) -> (r: Result<usize, CellOutOfBoundsError>)
        ensures
            self@.in_bounds(x as int, y as int) ==> (r matches Ok(count) && count
                == self@.neighbor_count(x as int, y as int)),
            !self@.in_bounds(x as int, y as int) ==> refused(r, x, y),
    {
        match self.get(x, y) {
            Ok(_) => {
                proof {
                    self.lemma_view_wf();
                }
                let mut count = live(self.get(x, y + 1)) + live(self.get(x + 1, y + 1)) + live(
                    self.get(x + 1, y),
                );
                // No coordinate is decremented before it is known not to be 0.
                if y != 0 {
                    count += live(self.get(x + 1, y - 1)) + live(self.get(x, y - 1));
                }
                if x != 0 && y != 0 {
                    count += live(self.get(x - 1, y - 1));
                }
                if x != 0 {
                    count += live(self.get(x - 1, y)) + live(self.get(x - 1, y + 1));
                }
                Ok(count)
            },
            Err(e) => Err(e),
        }
    }

    /// The number of columns.
    fn width(&self) -> (w: usize)
        ensures
            w == self@.width,
    ;

    /// The number of rows.
    fn height(&self) -> (h: usize)
        ensures
            h == self@.height,
    ;
}

/// 1 where a lookup found a live cell, 0 where it found a dead one or failed.
fn live(found: Result<Cell, CellOutOfBoundsError>) -> (n: usize)
    ensures
        n == (if found == Ok::<Cell, CellOutOfBoundsError>(Cell::Alive) {
            1usize
        } else {
            0usize
        }),
{
    match found {
        Ok(Cell::Alive) => 1,
        _ => 0,
    }
}

} // verus!
