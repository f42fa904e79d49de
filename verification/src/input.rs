use vstd::prelude::*;
use vstd::slice::slice_subrange;
use crate::GameOfLife;
use crate::grid::{refused, Cell, CellOutOfBoundsError, Grid};
use crate::number::{
    decimal, is_digit, lemma_decimal_denotes, lemma_number_of_decimal, number, parse_number,
};

verus! {

/// What one line of input asks of the game.
#[derive(PartialEq, Eq, Clone, Copy, Debug, Structural)]
pub enum Command {
    /// Go on to the next generation.
    Advance,
    /// Bring the cell at column `x` and row `y` to life.
    Activate { x: usize, y: usize },
    /// Leave the game as it is.
    Nothing,
}

/// The error of a line that holds a space and, before or after its first
/// space, something that denotes no number.
#[derive(PartialEq, Eq, Clone, Copy, Debug, Structural)]
pub struct InvalidNumber;

/// Whether `c` is white space, as Unicode defines it.
pub open spec fn white_space(c: char) -> bool {
    ||| '\u{9}' <= c <= '\u{d}'
    ||| c == ' '
    ||| c == '\u{85}'
    ||| c == '\u{a0}'
    ||| c == '\u{1680}'
    ||| '\u{2000}' <= c <= '\u{200a}'
    ||| c == '\u{2028}'
    ||| c == '\u{2029}'
    ||| c == '\u{202f}'
    ||| c == '\u{205f}'
    ||| c == '\u{3000}'
}

/// `s` without the white space at its end.
pub open spec fn trim_end(s: Seq<char>) -> Seq<char>
    decreases s.len(),
{
    if s.len() > 0 && white_space(s.last()) {
        trim_end(s.drop_last())
    } else {
        s
    }
}

/// What a line asks for. White space at its end does not count. An empty
/// line asks for the next generation. A line with a space asks to bring a
/// cell to life: the column stands before the first space and the row after
/// it. Any other line asks for nothing.
pub open spec fn command(line: Seq<char>) -> Result<Command, InvalidNumber> {
    let text = trim_end(line);
    if text.len() == 0 {
        Ok(Command::Advance)
    } else {
        match text.index_of_first(' ') {
            None => Ok(Command::Nothing),
            Some(at) => match (number(text.take(at)), number(text.skip(at + 1))) {
                (Some(x), Some(y)) => Ok(Command::Activate { x, y }),
                _ => Err(InvalidNumber),
            },
        }
    }
}

/// A line of nothing but white space asks for the next generation.
pub proof fn lemma_blank_line_advances(line: Seq<char>)
    requires
        forall|i: int| 0 <= i < line.len() ==> white_space(#[trigger] line[i]),
    ensures
        command(line) == Ok::<Command, InvalidNumber>(Command::Advance),
    decreases line.len(),
{
    if line.len() > 0 {
        lemma_blank_line_advances(line.drop_last());
    }
}

/// Two numbers in decimal notation with one space between them ask to
/// bring the cell at these coordinates to life.
pub proof fn lemma_position_line_activates(x: usize, y: usize)
    ensures
        command(decimal(x as nat) + seq![' '] + decimal(y as nat)) == Ok::<Command, InvalidNumber>(
            Command::Activate { x, y },
        ),
{
    let column = decimal(x as nat);
    let row = decimal(y as nat);
    let line = column + seq![' '] + row;
    lemma_decimal_denotes(x as nat);
    lemma_decimal_denotes(y as nat);
    assert(line.last() == row.last());
    assert(is_digit(row[row.len() - 1]));
    assert(trim_end(line) == line);
    line.index_of_first_ensures(' ');
    assert(line[column.len() as int] == ' ');
    assert(line.contains(' '));
    let at = line.index_of_first(' ').unwrap();
    assert(at == column.len()) by {
        if at < column.len() {
            assert(is_digit(column[at]));
        }
    }
    assert(line.take(at) =~= column);
    assert(line.skip(at + 1) =~= row);
    lemma_number_of_decimal(x);
    lemma_number_of_decimal(y);
}

/// Whether `c` is white space, as Unicode defines it.
#[verifier::when_used_as_spec(white_space)]
pub fn is_white_space(c: char) -> (b: bool)
    ensures
        b == white_space(c),
{
    ('\u{9}' <= c && c <= '\u{d}') || c == ' ' || c == '\u{85}' || c == '\u{a0}' || c == '\u{1680}'
        || ('\u{2000}' <= c && c <= '\u{200a}') || c == '\u{2028}' || c == '\u{2029}' || c
        == '\u{202f}' || c == '\u{205f}' || c == '\u{3000}'
}

/// The characters of `line`.
fn chars_of(line: &str) -> (chars: Vec<char>)
    ensures
        chars@ == line@,
{
    let mut chars: Vec<char> = Vec::new();
    for c in rest: line.chars()
        invariant
            rest.seq() == line@,
            chars@ == rest.seq().take(rest.index() as int),
    {
        chars.push(c);
    }
    chars
}

/// The length of `text` without the white space at its end.
fn trimmed_len(text: &[char]) -> (end: usize)
    ensures
        end <= text@.len(),
        text@.take(end as int) == trim_end(text@),
{
    let mut end = text.len();
    assert(text@.take(end as int) =~= text@);
    while end > 0 && is_white_space(text[end - 1])
        invariant
            end <= text@.len(),
            trim_end(text@.take(end as int)) == trim_end(text@),
        decreases end,
    {
        assert(text@.take(end as int).drop_last() =~= text@.take(end - 1));
        end -= 1;
    }
    end
}

/// Reads what `line` asks for.
pub fn parse(line: &str) -> (r: Result<Command, InvalidNumber>)
    ensures
        r == command(line@),
{
    let chars = chars_of(line);
    let end = trimmed_len(chars.as_slice());
    let text = slice_subrange(chars.as_slice(), 0, end);
    if text.len() == 0 {
        return Ok(Command::Advance);
    }
    let mut at: usize = 0;
    while at < text.len() && text[at] != ' '
        invariant
            at <= text@.len(),
            forall|i: int| 0 <= i < at ==> text@[i] != ' ',
        decreases text@.len() - at,
    {
        at += 1;
    }
    proof {
        text@.index_of_first_ensures(' ');
    }
    if at == text.len() {
        return Ok(Command::Nothing);
    }
    let x = parse_number(slice_subrange(text, 0, at));
    let y = parse_number(slice_subrange(text, at + 1, text.len()));
    match (x, y) {
        (Some(x), Some(y)) => Ok(Command::Activate { x, y }),
        _ => Err(InvalidNumber),
    }
}

/// Does to `game` what `command` asks for. A cell outside the grid is not
/// brought to life: the game stays as it is, and the error names the cell.
pub fn apply<T: Grid>(
    game: &mut GameOfLife<T>,
    command: Command,
) -> (r: Result<(), CellOutOfBoundsError>)
    ensures
        (match command {
            Command::Advance => r is Ok && final(game).grid()@ == old(game).grid()@.step(),
            Command::Activate { x, y } => if old(game).grid()@.in_bounds(x as int, y as int) {
                r is Ok && final(game).grid()@ == old(game).grid()@.stage(
                    x as int,
                    y as int,
                    Cell::Alive,
                ).commit()
            } else {
                refused(r, x, y) && final(game).grid()@ == old(game).grid()@
            },
            Command::Nothing => r is Ok && final(game).grid()@ == old(game).grid()@,
        }),
{
    match command {
        Command::Advance => {
            game.next();
            Ok(())
        },
        Command::Activate { x, y } => {
            let grid = game.grid_mut();
            match grid.set(x, y, Cell::Alive) {
                Ok(()) => {
                    grid.update();
                    Ok(())
                },
                Err(e) => Err(e),
            }
        },
        Command::Nothing => Ok(()),
    }
}

} // verus!
