use sudoku_tui::model::Sudoku;

fn starting_puzzle() -> [[u8; 9]; 9] {
    [
        [0, 0, 7, 4, 8, 6, 9, 2, 5],
        [5, 6, 8, 2, 1, 9, 3, 4, 7],
        [2, 4, 9, 7, 3, 5, 6, 8, 1],
        [8, 5, 1, 3, 2, 7, 4, 6, 9],
        [7, 9, 2, 8, 6, 4, 1, 5, 3],
        [6, 3, 4, 9, 5, 1, 2, 7, 8],
        [1, 2, 3, 6, 7, 8, 5, 9, 4],
        [4, 7, 6, 5, 9, 3, 8, 1, 2],
        [9, 8, 5, 1, 4, 2, 7, 3, 6],
    ]
}

fn solved_puzzle() -> [[u8; 9]; 9] {
    let mut p = starting_puzzle();
    p[0][0] = 3;
    p[0][1] = 1;
    p
}

fn values(s: &Sudoku) -> Vec<u8> {
    let mut out = Vec::new();
    for r in 0..9 {
        for c in 0..9 {
            out.push(s.grid[r][c].value);
        }
    }
    out
}

#[test]
fn new_board_is_empty_and_editable() {
    let s = Sudoku::new();
    for r in 0..9 {
        for c in 0..9 {
            assert_eq!(s.grid[r][c].value, 0);
            assert!(s.grid[r][c].editable);
        }
    }
}

#[test]
fn from_fixes_givens_and_frees_blanks() {
    let p = starting_puzzle();
    let s = Sudoku::from(p);
    for r in 0..9 {
        for c in 0..9 {
            assert_eq!(s.grid[r][c].value, p[r][c]);
            assert_eq!(s.grid[r][c].editable, p[r][c] == 0);
        }
    }
}

#[test]
fn editability_survives_edits() {
    let p = starting_puzzle();
    let mut s = Sudoku::from(p);
    s.set_cell(0, 0, 3);
    s.set_cell(0, 0, 0);
    s.set_cell(4, 4, 1);
    s.set_cell(0, 1, 9);
    for r in 0..9 {
        for c in 0..9 {
            assert_eq!(s.grid[r][c].editable, p[r][c] == 0);
        }
    }
}

#[test]
fn set_cell_on_fixed_square_changes_nothing() {
    let mut s = Sudoku::from(starting_puzzle());
    let before = values(&s);
    for v in 0..=9u8 {
        s.set_cell(0, 2, v);
        s.set_cell(8, 8, v);
    }
    assert_eq!(values(&s), before);
    assert_eq!(s.grid[0][2].value, 7);
}

#[test]
fn set_cell_on_editable_square_takes_the_value() {
    let mut s = Sudoku::from(starting_puzzle());
    s.set_cell(0, 1, 8);
    assert_eq!(s.grid[0][1].value, 8);
    s.set_cell(0, 1, 0);
    assert_eq!(s.grid[0][1].value, 0);
    s.set_cell(0, 1, 4);
    assert_eq!(s.grid[0][1].value, 4);
    assert_eq!(s.grid[0][0].value, 0);
}

#[test]
fn empty_board_is_valid() {
    assert!(Sudoku::new().is_valid());
}

#[test]
fn repeat_in_row_is_invalid() {
    let mut s = Sudoku::new();
    s.set_cell(3, 1, 6);
    s.set_cell(3, 7, 6);
    assert!(!s.is_valid());
}

#[test]
fn repeat_in_column_is_invalid() {
    let mut s = Sudoku::new();
    s.set_cell(0, 5, 2);
    s.set_cell(8, 5, 2);
    assert!(!s.is_valid());
}

#[test]
fn repeat_in_box_is_invalid() {
    let mut s = Sudoku::new();
    s.set_cell(3, 3, 9);
    s.set_cell(5, 5, 9);
    assert!(!s.is_valid());
}

#[test]
fn distinct_digits_in_different_groups_are_valid() {
    let mut s = Sudoku::new();
    s.set_cell(0, 0, 1);
    s.set_cell(1, 3, 1);
    s.set_cell(3, 1, 1);
    s.set_cell(0, 1, 2);
    assert!(s.is_valid());
}

#[test]
fn solved_grid_is_valid() {
    assert!(Sudoku::from(solved_puzzle()).is_valid());
}

#[test]
fn starting_grid_is_valid_though_incomplete() {
    assert!(Sudoku::from(starting_puzzle()).is_valid());
}

#[test]
fn solved_grid_with_row_duplicate_is_invalid() {
    let mut s = Sudoku::from(starting_puzzle());
    s.set_cell(0, 0, 3);
    s.set_cell(0, 1, 1);
    assert!(s.is_valid());
    s.set_cell(0, 0, 1);
    assert!(!s.is_valid());
}

#[test]
fn large_values_are_compared_by_equality() {
    let mut s = Sudoku::new();
    s.set_cell(2, 0, 200);
    s.set_cell(2, 8, 201);
    assert!(s.is_valid());
    s.set_cell(2, 8, 200);
    assert!(!s.is_valid());
}
