use vstd::prelude::*;
use crate::model::{in_board, Sudoku};

verus! {

/// A key press, as far as the session cares about it.
#[derive(Clone, Copy, Debug, PartialEq, Eq, Structural)]
pub enum Key {
    Quit,
    Check,
    Left,
    Right,
    Up,
    Down,
    Digit(u8),
    Other,
}

/// Maps a typed character to a key: `q` quits, `c` checks, an ASCII digit is that
/// digit, and anything else is ignored.
pub fn key_from_char(ch: char) -> (k: Key)
    ensures
        k == (if ch == 'q' {
            Key::Quit
        } else if ch == 'c' {
            Key::Check
        } else if '0' <= ch <= '9' {
            Key::Digit((ch as u32 - '0' as u32) as u8)
        } else {
            Key::Other
        }),
{
    if ch == 'q' {
        Key::Quit
    } else if ch == 'c' {
        Key::Check
    } else if '0' <= ch && ch <= '9' {
        Key::Digit((ch as u32 - '0' as u32) as u8)
    } else {
        Key::Other
    }
}

/// What the player sees besides the board: the selected square and the outcome of
/// the last check (`None` until the first one).
pub struct Session {
    pub selected_row: usize,
    pub selected_col: usize,
    pub check: Option<bool>,
}

/// The square that the cursor reaches from (`row`, `col`) on `key`: one step in the
/// arrow's direction, held at the edges of the board.
pub open spec fn moved(row: int, col: int, key: Key) -> (int, int) {
    match key {
        Key::Left => (row, if col > 0 { col - 1 } else { col }),
        Key::Right => (row, if col < 8 { col + 1 } else { col }),
        Key::Up => (if row > 0 { row - 1 } else { row }, col),
        Key::Down => (if row < 8 { row + 1 } else { row }, col),
        _ => (row, col),
    }
}

/// Every square of `a` and `b` holds the same digit and the same editability.
pub open spec fn same_contents(a: Sudoku, b: Sudoku) -> bool {
    forall|r: int, c: int|
        #![trigger b.grid[r][c]]
        in_board(r, c) ==> b.value_at(r, c) == a.value_at(r, c) && b.editable_at(r, c)
            == a.editable_at(r, c)
}

impl Session {
    /// The cursor lies on the board.
    pub open spec fn wf(&self) -> bool {
        self.selected_row < 9 && self.selected_col < 9
    }

    /// What one key press does to the session (`pre` to `post`) and to the board
    /// (`board` to `board_post`).
    pub open spec fn key_step(pre: Session, board: Sudoku, key: Key, post: Session, board_post: Sudoku) -> bool {
        let (row, col) = moved(pre.selected_row as int, pre.selected_col as int, key);
        &&& post.selected_row == row
        &&& post.selected_col == col
        &&& post.check == (if key is Check {
            Some(board.valid())
        } else {
            pre.check
        })
        &&& match key {
            Key::Digit(d) => Sudoku::set_cell_step(
                board,
                board_post,
                pre.selected_row as int,
                pre.selected_col as int,
                d,
            ),
            _ => board_post == board,
        }
    }

    /// The cursor on the top left square, nothing checked yet.
    pub fn new() -> (s: Session)
        ensures
            s.selected_row == 0,
            s.selected_col == 0,
            s.check == None::<bool>,
    {
        Session { selected_row: 0, selected_col: 0, check: None }
    }

    /// Applies one key press. Arrows move the cursor, held at the edges; `Check`
    /// records whether the board is valid; a digit goes to the selected square
    /// through `Sudoku::set_cell`, so a fixed square keeps its digit. Returns false
    /// on `Quit`, when the session is over, and true otherwise.
    pub fn handle_key(&mut self, sudoku: &mut Sudoku, key: Key) -> (running: bool)
        requires
            old(self).wf(),
        ensures
            final(self).wf(),
            running == !(key is Quit),
            Session::key_step(*old(self), *old(sudoku), key, *final(self), *final(sudoku)),
    {
        match key {
            Key::Quit => {
                return false;
            },
            Key::Check => {
                self.check = Some(sudoku.is_valid());
            },
            Key::Left => {
                if self.selected_col > 0 {
                    self.selected_col = self.selected_col - 1;
                }
            },
            Key::Right => {
                if self.selected_col < 8 {
                    self.selected_col = self.selected_col + 1;
                }
            },
            Key::Up => {
                if self.selected_row > 0 {
                    self.selected_row = self.selected_row - 1;
                }
            },
            Key::Down => {
                if self.selected_row < 8 {
                    self.selected_row = self.selected_row + 1;
                }
            },
            Key::Digit(d) => {
                sudoku.set_cell(self.selected_row, self.selected_col, d);
            },
            Key::Other => {},
        }
        true
    }

    /// The line shown under the board for the last check.
    pub fn status_message(&self) -> (m: &'static str)
        ensures
            m@ == (match self.check {
                None => "Press 'c' to check"@,
                Some(true) => "Valid Sudoku!"@,
                Some(false) => "Invalid Sudoku!"@,
            }),
    {
        match self.check {
            None => "Press 'c' to check",
            Some(true) => "Valid Sudoku!",
            Some(false) => "Invalid Sudoku!",
        }
    }
}

/// A digit key on a fixed square leaves every square of the board as it was.
pub proof fn lemma_digit_on_fixed_square_changes_nothing(
    pre: Session,
    board: Sudoku,
    d: u8,
    post: Session,
    board_post: Sudoku,
)
    requires
        pre.wf(),
        !board.editable_at(pre.selected_row as int, pre.selected_col as int),
        Session::key_step(pre, board, Key::Digit(d), post, board_post),
    ensures
        same_contents(board, board_post),
{
}

/// The cursor stays put on the top left square under `Left` and `Up`, and on the
/// bottom right square under `Right` and `Down`.
pub proof fn lemma_cursor_held_at_corners(pre: Session, board: Sudoku, key: Key, post: Session, board_post: Sudoku)
    requires
        Session::key_step(pre, board, key, post, board_post),
        (pre.selected_row == 0 && pre.selected_col == 0 && (key is Left || key is Up)) || (
        pre.selected_row == 8 && pre.selected_col == 8 && (key is Right || key is Down)),
    ensures
        post.selected_row == pre.selected_row,
        post.selected_col == pre.selected_col,
{
}

} // verus!
