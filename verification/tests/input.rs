use game_of_life_core::grid::obj::GameOfLifeGrid;
use game_of_life_core::grid::{Cell, CellOutOfBoundsError, Grid};
use game_of_life_core::input::{apply, is_white_space, parse, Command, InvalidNumber};
use game_of_life_core::GameOfLife;

type TestGrid = GameOfLifeGrid<12, 12>;

/// What a line asks for, by the text functions of the standard library.
fn expected(line: &str) -> Result<Command, InvalidNumber> {
    let line = line.trim_end();
    if line.is_empty() {
        Ok(Command::Advance)
    } else if let Some((x, y)) = line.split_once(' ') {
        match (x.parse(), y.parse()) {
            (Ok(x), Ok(y)) => Ok(Command::Activate { x, y }),
            _ => Err(InvalidNumber),
        }
    } else {
        Ok(Command::Nothing)
    }
}

#[test]
fn parse_empty_line_test() {
    assert_eq!(Ok(Command::Advance), parse(""));
    assert_eq!(Ok(Command::Advance), parse("\n"));
    assert_eq!(Ok(Command::Advance), parse("\r\n"));
    assert_eq!(Ok(Command::Advance), parse("  \t \n"));
    assert_eq!(Ok(Command::Advance), parse("\u{3000}\u{a0}\u{2003}"));
}

#[test]
fn parse_position_test() {
    assert_eq!(Ok(Command::Activate { x: 3, y: 4 }), parse("3 4"));
    assert_eq!(Ok(Command::Activate { x: 3, y: 4 }), parse("3 4\n"));
    assert_eq!(Ok(Command::Activate { x: 11, y: 0 }), parse("11 0  \r\n"));
    assert_eq!(Ok(Command::Activate { x: 7, y: 120 }), parse("+7 +120"));
    assert_eq!(Ok(Command::Activate { x: 5, y: 9 }), parse("0005 09"));
    assert_eq!(Ok(Command::Activate { x: 0, y: 0 }), parse("0 0"));
    assert_eq!(Ok(Command::Activate { x: 1, y: 2 }), parse("1 2\u{2028}"));
    let line = format!("{} {}\n", usize::MAX, usize::MAX - 1);
    assert_eq!(Ok(Command::Activate { x: usize::MAX, y: usize::MAX - 1 }), parse(&line));
}

#[test]
fn parse_other_line_test() {
    assert_eq!(Ok(Command::Nothing), parse("x"));
    assert_eq!(Ok(Command::Nothing), parse("12\n"));
    assert_eq!(Ok(Command::Nothing), parse("3,4"));
    assert_eq!(Ok(Command::Nothing), parse("3\t4"));
    assert_eq!(Ok(Command::Nothing), parse("3 "));
    assert_eq!(Ok(Command::Nothing), parse("\u{a0}3"));
}

#[test]
fn parse_invalid_number_test() {
    for line in [
        "a 4", "3 b", "3  4", "3 4 5", " 3 4", "-1 2", "1 -2", "+ 1", "1 +", "++1 2", "1.5 2",
        "1 2x", "0x10 2", "1 2\u{200b}", "\u{663} 1", "1 \t2",
    ] {
        assert_eq!(Err(InvalidNumber), parse(line), "{line:?}");
    }
    // One more than the largest number, and ten times the largest number.
    let line = format!("{}{} 0", usize::MAX / 10, usize::MAX % 10 + 1);
    assert_eq!(Err(InvalidNumber), parse(&line));
    let line = format!("0 {}0", usize::MAX);
    assert_eq!(Err(InvalidNumber), parse(&line));
    let line = format!("{} 1", "9".repeat(40));
    assert_eq!(Err(InvalidNumber), parse(&line));
}

#[test]
fn parse_agrees_with_std_test() {
    let pieces = ["", " ", "  ", "0", "7", "12", "+3", "-3", "+", "x", "1a", "\t", "\n", "\u{a0}", "00"];
    for a in pieces {
        for b in pieces {
            for c in pieces {
                let line = format!("{a}{b}{c}");
                assert_eq!(expected(&line), parse(&line), "{line:?}");
                let line = format!("{a} {b} {c}");
                assert_eq!(expected(&line), parse(&line), "{line:?}");
            }
        }
    }
}

#[test]
fn white_space_agrees_with_std_test() {
    for code in 0..=0x10ffff_u32 {
        if let Some(c) = char::from_u32(code) {
            assert_eq!(c.is_whitespace(), is_white_space(c), "{code:x}");
        }
    }
}

#[test]
fn apply_advance_test() {
    let mut game = GameOfLife::<TestGrid>::default();
    for x in 4..7 {
        assert_eq!(Ok(()), game.grid_mut().set(x, 5, Cell::Alive));
    }
    game.grid_mut().update();
    assert_eq!(Ok(()), apply(&mut game, Command::Advance));
    assert_eq!(Ok(Cell::Alive), game.grid().get(5, 4));
    assert_eq!(Ok(Cell::Alive), game.grid().get(5, 5));
    assert_eq!(Ok(Cell::Alive), game.grid().get(5, 6));
    assert_eq!(Ok(Cell::Dead), game.grid().get(4, 5));
    assert_eq!(Ok(Cell::Dead), game.grid().get(6, 5));
}

#[test]
fn apply_activate_test() {
    let mut game = GameOfLife::<TestGrid>::default();
    assert_eq!(Ok(()), apply(&mut game, Command::Activate { x: 2, y: 9 }));
    // The cell is alive at once: the change is committed.
    assert_eq!(Ok(Cell::Alive), game.grid().get(2, 9));
    assert_eq!(Ok(Cell::Dead), game.grid().get(9, 2));
    assert_eq!(Ok(1), game.grid().neighbor_count(3, 8));
}

#[test]
fn apply_activate_out_of_bounds_test() {
    let mut game = GameOfLife::<TestGrid>::default();
    assert_eq!(Ok(()), game.grid_mut().set(1, 1, Cell::Alive));
    assert_eq!(
        Err(CellOutOfBoundsError::new(12, 9)),
        apply(&mut game, Command::Activate { x: 12, y: 9 })
    );
    assert_eq!(
        Err(CellOutOfBoundsError::new(0, usize::MAX)),
        apply(&mut game, Command::Activate { x: 0, y: usize::MAX })
    );
    // Nothing was committed.
    assert_eq!(Ok(Cell::Dead), game.grid().get(1, 1));
}

#[test]
fn apply_nothing_test() {
    let mut game = GameOfLife::<TestGrid>::default();
    assert_eq!(Ok(()), game.grid_mut().set(1, 1, Cell::Alive));
    assert_eq!(Ok(()), apply(&mut game, Command::Nothing));
    assert_eq!(Ok(Cell::Dead), game.grid().get(1, 1));
    game.grid_mut().update();
    assert_eq!(Ok(Cell::Alive), game.grid().get(1, 1));
}

/// A line is read and obeyed.
#[test]
fn parse_and_apply_test() {
    let mut game = GameOfLife::<TestGrid>::default();
    for line in ["5 5\n", "6 5\n", "5 6\n", "\n"] {
        assert_eq!(Ok(()), apply(&mut game, parse(line).unwrap()));
    }
    for (x, y) in [(5, 5), (6, 5), (5, 6), (6, 6)] {
        assert_eq!(Ok(Cell::Alive), game.grid().get(x, y));
    }
}
