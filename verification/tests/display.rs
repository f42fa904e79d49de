use game_of_life_core::display::{glyph, render};
use game_of_life_core::grid::obj::GameOfLifeGrid;
use game_of_life_core::grid::{Cell, Grid};

#[test]
fn glyph_test() {
    assert_eq!("O", glyph(Cell::Dead));
    assert_eq!("X", glyph(Cell::Alive));
}

#[test]
fn render_blank_test() {
    let grid = GameOfLifeGrid::<4, 2>::default();
    assert_eq!(vec!["OOOO", "OOOO"], render(&grid));
}

/// Lines are rows, and a staged value does not show before its commit.
#[test]
fn render_rows_and_columns_test() {
    let mut grid = GameOfLifeGrid::<4, 3>::default();
    assert!(grid.set(3, 0, Cell::Alive).is_ok());
    assert!(grid.set(0, 1, Cell::Alive).is_ok());
    assert!(grid.set(1, 2, Cell::Alive).is_ok());
    assert_eq!(vec!["OOOO", "OOOO", "OOOO"], render(&grid));
    grid.update();
    assert_eq!(vec!["OOOX", "XOOO", "OXOO"], render(&grid));
    assert!(grid.set(3, 0, Cell::Dead).is_ok());
    assert!(grid.set(3, 2, Cell::Alive).is_ok());
    assert_eq!(vec!["OOOX", "XOOO", "OXOO"], render(&grid));
    grid.update();
    assert_eq!(vec!["OOOO", "XOOO", "OXOX"], render(&grid));
}

#[test]
fn render_empty_extent_test() {
    assert!(render(&GameOfLifeGrid::<0, 0>::default()).is_empty());
    assert!(render(&GameOfLifeGrid::<3, 0>::default()).is_empty());
    assert_eq!(vec!["", ""], render(&GameOfLifeGrid::<0, 2>::default()));
}
