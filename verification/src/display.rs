use vstd::prelude::*;
use vstd::string::*;
use crate::grid::{Cell, Grid};
use crate::grid::state::GridState;

verus! {

/// The character that stands for a cell.
pub open spec fn glyph_of(cell: Cell) -> char {
    match cell {
        Cell::Dead => 'O',
        Cell::Alive => 'X',
    }
}

/// The picture of a grid: one line per row, rows from the first to the last,
/// and in each line one glyph per column, columns from the first to the last.
pub open spec fn picture(s: GridState) -> Seq<Seq<char>> {
    Seq::new(s.height, |y: int| Seq::new(s.width, |x: int| glyph_of(s.cell(x, y))))
}

/// The glyph of `cell`, as a text of one character.
pub fn glyph(cell: Cell) -> (text: &'static str)
    ensures
        text@ == seq![glyph_of(cell)],
{
    proof {
        reveal_strlit("O");
        reveal_strlit("X");
    }
    let text = match cell {
        Cell::Dead => "O",
        Cell::Alive => "X",
    };
    assert(text@ =~= seq![glyph_of(cell)]);
    text
}

/// The picture of `grid`, by its committed values: staged values do not show.
pub fn render<T: Grid>(grid: &T) -> (lines: Vec<String>)
    ensures
        lines@.len() == picture(grid@).len(),
        forall|y: int| 0 <= y < lines@.len() ==> (#[trigger] lines@[y])@ == picture(grid@)[y],
{
    let height = grid.height();
    let width = grid.width();
    let mut lines: Vec<String> = Vec::new();
    for y in 0..height
        invariant
            width == grid@.width,
            height == grid@.height,
            lines@.len() == y,
            forall|j: int| 0 <= j < y ==> (#[trigger] lines@[j])@ == picture(grid@)[j],
    {
        let mut line = String::new();
        for x in 0..width
            invariant
                width == grid@.width,
                height == grid@.height,
                y < height,
                line@ == picture(grid@)[y as int].take(x as int),
        {
            let cell = grid.get(x, y).unwrap();
            line.append(glyph(cell));
        }
        lines.push(line);
    }
    lines
}

} // verus!
