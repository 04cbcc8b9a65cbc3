use vstd::prelude::*;

verus! {

/// One square of the board: its digit (0 when empty) and whether the player may change it.
#[derive(Clone, Copy, Debug)]
pub struct Cell {
    pub value: u8,
    pub editable: bool,
}

/// A 9x9 board indexed by (row, column).
pub struct Sudoku {
    pub grid: [[Cell; 9]; 9],
}

/// True when `(r, c)` names a square of the board.
pub open spec fn in_board(r: int, c: int) -> bool {
    0 <= r < 9 && 0 <= c < 9
}

/// No non-zero digit occurs twice in `s`; zeros (empty squares) may repeat.
pub open spec fn no_repeats(s: Seq<u8>) -> bool {
    forall|i: int, j: int|
        0 <= i < s.len() && 0 <= j < s.len() && i != j && s[i] != 0 ==> s[i] != s[j]
}

/// `v` is non-zero and occurs among the first `n` entries of `s`.
pub open spec fn seen_before(s: Seq<u8>, n: int, v: int) -> bool {
    v != 0 && exists|k: int| 0 <= k < n && s[k] == v
}

impl Sudoku {
    /// The digit at (`r`, `c`), 0 when the square is empty.
    pub open spec fn value_at(&self, r: int, c: int) -> u8 {
        self.grid[r][c].value
    }

    /// Whether the player may change the square at (`r`, `c`).
    pub open spec fn editable_at(&self, r: int, c: int) -> bool {
        self.grid[r][c].editable
    }

    /// `post` is what `set_cell(row, col, value)` makes of `pre`: the editability of
    /// every square is kept, the target takes `value` exactly when it is editable,
    /// and every other square keeps its digit.
    pub open spec fn set_cell_step(pre: Sudoku, post: Sudoku, row: int, col: int, value: u8) -> bool {
        forall|r: int, c: int|
            #![trigger post.grid[r][c]]
            in_board(r, c) ==> {
                &&& post.editable_at(r, c) == pre.editable_at(r, c)
                &&& post.value_at(r, c) == if r == row && c == col && pre.editable_at(r, c) {
                    value
                } else {
                    pre.value_at(r, c)
                }
            }
    }

    /// An empty board on which every square is editable.
    pub fn new() -> (s: Sudoku)
        ensures
            forall|r: int, c: int|
                #![trigger s.grid[r][c]]
                in_board(r, c) ==> s.value_at(r, c) == 0 && s.editable_at(r, c),
    {
        let empty_cell = Cell { value: 0, editable: true };
        Sudoku { grid: [[empty_cell; 9]; 9] }
    }

    /// The digits of row `r`, left to right.
    pub open spec fn row_values(&self, r: int) -> Seq<u8> {
        Seq::new(9, |k: int| self.value_at(r, k))
    }

    /// The digits of column `c`, top to bottom.
    pub open spec fn col_values(&self, c: int) -> Seq<u8> {
        Seq::new(9, |k: int| self.value_at(k, c))
    }

    /// The digits of the 3x3 box in box row `br` and box column `bc`, read row by row.
    pub open spec fn box_values(&self, br: int, bc: int) -> Seq<u8> {
        Seq::new(9, |k: int| self.value_at(3 * br + k / 3, 3 * bc + k % 3))
    }

    pub open spec fn rows_ok(&self) -> bool {
        forall|r: int| 0 <= r < 9 ==> no_repeats(#[trigger] self.row_values(r))
    }

    pub open spec fn cols_ok(&self) -> bool {
        forall|c: int| 0 <= c < 9 ==> no_repeats(#[trigger] self.col_values(c))
    }

    pub open spec fn boxes_ok(&self) -> bool {
        forall|br: int, bc: int|
            0 <= br < 3 && 0 <= bc < 3 ==> no_repeats(#[trigger] self.box_values(br, bc))
    }

    /// The Sudoku rule on a partly filled board: within every row, every column and
    /// every 3x3 box the non-zero digits are pairwise distinct.
    pub open spec fn valid(&self) -> bool {
        self.rows_ok() && self.cols_ok() && self.boxes_ok()
    }

    /// The board holds `puzzle` digit for digit, and a square is editable exactly
    /// when the puzzle leaves it empty.
    pub open spec fn built_from(&self, puzzle: [[u8; 9]; 9]) -> bool {
        forall|r: int, c: int|
            #![trigger self.grid[r][c]]
            in_board(r, c) ==> self.value_at(r, c) == puzzle[r][c] && self.editable_at(r, c)
                == (puzzle[r][c] == 0)
    }

    /// Builds a board from a puzzle in which 0 marks an empty square. The puzzle is
    /// taken as it is: a clash among its givens is not looked for here.
    pub fn from(puzzle: [[u8; 9]; 9]) -> (s: Sudoku)
        ensures
            s.built_from(puzzle),
    {
        let mut sudoku = Sudoku::new();
        let mut i: usize = 0;
        while i < 9
            invariant
                i <= 9,
                forall|r: int, c: int|
                    #![trigger sudoku.grid[r][c]]
                    in_board(r, c) && r < i ==> sudoku.value_at(r, c) == puzzle[r][c]
                        && sudoku.editable_at(r, c) == (puzzle[r][c] == 0),
            decreases 9 - i,
        {
            let mut j: usize = 0;
            while j < 9
                invariant
                    i < 9,
                    j <= 9,
                    forall|r: int, c: int|
                        #![trigger sudoku.grid[r][c]]
                        in_board(r, c) && (r < i || (r == i && c < j)) ==> sudoku.value_at(r, c)
                            == puzzle[r][c] && sudoku.editable_at(r, c) == (puzzle[r][c] == 0),
                decreases 9 - j,
            {
                let value = puzzle[i][j];
                sudoku.grid[i][j] = Cell { value, editable: value == 0 };
                j = j + 1;
            }
            i = i + 1;
        }
        sudoku
    }

    /// Writes `value` at (`row`, `col`) when that square is editable; on a fixed square
    /// the call does nothing. Coordinates outside the board are the caller's fault and
    /// are ruled out by the precondition rather than checked at run time.
    pub fn set_cell(&mut self, row: usize, col: usize, value: u8)
        requires
            row < 9,
            col < 9,
        ensures
            Sudoku::set_cell_step(*old(self), *final(self), row as int, col as int, value),
    {
        if self.grid[row][col].editable {
            self.grid[row][col].value = value;
        }
    }
}

impl Sudoku {
    /// True when no row, column or 3x3 box holds a non-zero digit twice. Empty
    /// squares are allowed: a board need not be complete to be valid.
    pub fn is_valid(&self) -> (r: bool)
        ensures
            r == self.valid(),
    {
        self.rows_valid() && self.cols_valid() && self.squares_valid()
    }

    fn rows_valid(&self) -> (ok: bool)
        ensures
            ok == self.rows_ok(),
    {
        let mut r: usize = 0;
        while r < 9
            invariant
                r <= 9,
                forall|r2: int| 0 <= r2 < r ==> no_repeats(#[trigger] self.row_values(r2)),
            decreases 9 - r,
        {
            let mut values: Vec<u8> = Vec::new();
            let mut c: usize = 0;
            while c < 9
                invariant
                    r < 9,
                    c <= 9,
                    values@ =~= self.row_values(r as int).take(c as int),
                decreases 9 - c,
            {
                values.push(self.grid[r][c].value);
                c = c + 1;
            }
            assert(values@ =~= self.row_values(r as int));
            if !self.group_valid(values.as_slice()) {
                return false;
            }
            r = r + 1;
        }
        true
    }

    fn cols_valid(&self) -> (ok: bool)
        ensures
            ok == self.cols_ok(),
    {
        let mut c: usize = 0;
        while c < 9
            invariant
                c <= 9,
                forall|c2: int| 0 <= c2 < c ==> no_repeats(#[trigger] self.col_values(c2)),
            decreases 9 - c,
        {
            let mut values: Vec<u8> = Vec::new();
            let mut r: usize = 0;
            while r < 9
                invariant
                    c < 9,
                    r <= 9,
                    values@ =~= self.col_values(c as int).take(r as int),
                decreases 9 - r,
            {
                values.push(self.grid[r][c].value);
                r = r + 1;
            }
            assert(values@ =~= self.col_values(c as int));
            if !self.group_valid(values.as_slice()) {
                return false;
            }
            c = c + 1;
        }
        true
    }

    /// Collects the nine digits of the box in box row `br` and box column `bc`.
    fn box_digits(&self, br: usize, bc: usize) -> (values: Vec<u8>)
        requires
            br < 3,
            bc < 3,
        ensures
            values@ == self.box_values(br as int, bc as int),
    {
        let mut values: Vec<u8> = Vec::new();
        let mut i: usize = 0;
        while i < 3
            invariant
                br < 3,
                bc < 3,
                i <= 3,
                values@ =~= self.box_values(br as int, bc as int).take(3 * i),
            decreases 3 - i,
        {
            let mut j: usize = 0;
            while j < 3
                invariant
                    br < 3,
                    bc < 3,
                    i < 3,
                    j <= 3,
                    values@ =~= self.box_values(br as int, bc as int).take(3 * i + j),
                decreases 3 - j,
            {
                let k = 3 * i + j;
                assert(k / 3 == i && k % 3 == j) by (nonlinear_arith)
                    requires k == 3 * i + j, j < 3;
                values.push(self.grid[3 * br + i][3 * bc + j].value);
                j = j + 1;
            }
            i = i + 1;
        }
        assert(values@ =~= self.box_values(br as int, bc as int));
        values
    }

    fn squares_valid(&self) -> (ok: bool)
        ensures
            ok == self.boxes_ok(),
    {
        let mut br: usize = 0;
        while br < 3
            invariant
                br <= 3,
                forall|br2: int, bc2: int|
                    0 <= br2 < br && 0 <= bc2 < 3 ==> no_repeats(#[trigger] self.box_values(br2, bc2)),
            decreases 3 - br,
        {
            let mut bc: usize = 0;
            while bc < 3
                invariant
                    br < 3,
                    bc <= 3,
                    forall|br2: int, bc2: int|
                        0 <= br2 < 3 && 0 <= bc2 < 3 && (br2 < br || (br2 == br && bc2 < bc))
                            ==> no_repeats(#[trigger] self.box_values(br2, bc2)),
                decreases 3 - bc,
            {
                let values = self.box_digits(br, bc);
                if !self.group_valid(values.as_slice()) {
                    return false;
                }
                bc = bc + 1;
            }
            br = br + 1;
        }
        true
    }

    /// True when no non-zero digit repeats in `values`. Digits are told apart by
    /// equality alone, so a value above 9 counts like any other.
    fn group_valid(&self, values: &[u8]) -> (r: bool)
        ensures
            r == no_repeats(values@),
    {
        let mut seen = [false; 256];
        let mut i: usize = 0;
        while i < values.len()
            invariant
                i <= values.len(),
                forall|v: int| 0 <= v < 256 ==> #[trigger] seen[v] == seen_before(values@, i as int, v),
                no_repeats(values@.take(i as int)),
            decreases values.len() - i,
        {
            let v = values[i];
            if v != 0 {
                if seen[v as usize] {
                    proof {
                        let k = choose|k: int| 0 <= k < i && values@[k] == v;
                        assert(values@[k] == values@[i as int]);
                    }
                    return false;
                }
                seen[v as usize] = true;
            }
            proof {
                assert forall|v2: int| 0 <= v2 < 256 implies #[trigger] seen[v2] == seen_before(values@, i + 1, v2) by {
                    if seen_before(values@, i as int, v2) {
                        let k = choose|k: int| 0 <= k < i && values@[k] == v2;
                        assert(0 <= k < i + 1 && values@[k] == v2);
                    }
                    if v2 == v && v != 0 {
                        assert(values@[i as int] == v2);
                    }
                }
                assert(values@.take(i + 1) =~= values@.take(i as int).push(v));
            }
            i = i + 1;
        }
        assert(values@.take(i as int) =~= values@);
        true
    }
}

/// Editability is settled when a board is built and never changes: after any run
/// of `set_cell` calls on a board built from `puzzle`, a square is editable exactly
/// when the puzzle left it empty. `boards[i + 1]` is what the i-th call, at
/// `cells[i]` with `values[i]`, made of `boards[i]`.
pub proof fn lemma_editable_is_permanent(
    puzzle: [[u8; 9]; 9],
    boards: Seq<Sudoku>,
    cells: Seq<(int, int)>,
    values: Seq<u8>,
)
    requires
        boards.len() == cells.len() + 1,
        values.len() == cells.len(),
        boards[0].built_from(puzzle),
        forall|i: int|
            0 <= i < cells.len() ==> #[trigger] Sudoku::set_cell_step(
                boards[i],
                boards[i + 1],
                cells[i].0,
                cells[i].1,
                values[i],
            ),
    ensures
        forall|r: int, c: int|
            in_board(r, c) ==> #[trigger] boards.last().editable_at(r, c) == (puzzle[r][c] == 0),
    decreases cells.len(),
{
    if cells.len() > 0 {
        let n = cells.len() - 1;
        lemma_editable_is_permanent(puzzle, boards.drop_last(), cells.drop_last(), values.drop_last());
        assert(Sudoku::set_cell_step(boards[n], boards[n + 1], cells[n].0, cells[n].1, values[n]));
        assert forall|r: int, c: int| in_board(r, c) implies #[trigger] boards.last().editable_at(r, c)
            == (puzzle[r][c] == 0) by {
            assert(boards.drop_last().last() == boards[n]);
            assert(boards.last().grid[r][c] == boards[n + 1].grid[r][c]);
        }
    }
}

/// A board with no digit on it is valid.
pub proof fn lemma_empty_board_is_valid(b: Sudoku)
    requires
        forall|r: int, c: int| in_board(r, c) ==> #[trigger] b.value_at(r, c) == 0,
    ensures
        b.valid(),
{
    assert forall|r: int| 0 <= r < 9 implies no_repeats(#[trigger] b.row_values(r)) by {
        assert forall|i: int| 0 <= i < 9 implies #[trigger] b.row_values(r)[i] == 0 by {
            assert(b.value_at(r, i) == 0);
        }
    }
    assert forall|c: int| 0 <= c < 9 implies no_repeats(#[trigger] b.col_values(c)) by {
        assert forall|i: int| 0 <= i < 9 implies #[trigger] b.col_values(c)[i] == 0 by {
            assert(b.value_at(i, c) == 0);
        }
    }
    assert forall|br: int, bc: int|
        0 <= br < 3 && 0 <= bc < 3 implies no_repeats(#[trigger] b.box_values(br, bc)) by {
        assert forall|i: int| 0 <= i < 9 implies #[trigger] b.box_values(br, bc)[i] == 0 by {
            assert(b.value_at(3 * br + i / 3, 3 * bc + i % 3) == 0);
        }
    }
}

/// Two squares of one row holding the same non-zero digit make the board invalid.
pub proof fn lemma_row_repeat_is_invalid(b: Sudoku, r: int, c1: int, c2: int)
    requires
        in_board(r, c1),
        in_board(r, c2),
        c1 != c2,
        b.value_at(r, c1) != 0,
        b.value_at(r, c1) == b.value_at(r, c2),
    ensures
        !b.valid(),
{
    assert(b.row_values(r)[c1] == b.row_values(r)[c2]);
}

/// Two squares of one column holding the same non-zero digit make the board invalid.
pub proof fn lemma_col_repeat_is_invalid(b: Sudoku, c: int, r1: int, r2: int)
    requires
        in_board(r1, c),
        in_board(r2, c),
        r1 != r2,
        b.value_at(r1, c) != 0,
        b.value_at(r1, c) == b.value_at(r2, c),
    ensures
        !b.valid(),
{
    assert(b.col_values(c)[r1] == b.col_values(c)[r2]);
}

/// Two distinct squares of one 3x3 box holding the same non-zero digit make the
/// board invalid.
pub proof fn lemma_box_repeat_is_invalid(b: Sudoku, r1: int, c1: int, r2: int, c2: int)
    requires
        in_board(r1, c1),
        in_board(r2, c2),
        r1 / 3 == r2 / 3,
        c1 / 3 == c2 / 3,
        r1 != r2 || c1 != c2,
        b.value_at(r1, c1) != 0,
        b.value_at(r1, c1) == b.value_at(r2, c2),
    ensures
        !b.valid(),
{
    let br = r1 / 3;
    let bc = c1 / 3;
    let k1 = 3 * (r1 % 3) + c1 % 3;
    let k2 = 3 * (r2 % 3) + c2 % 3;
    assert(k1 / 3 == r1 % 3 && k1 % 3 == c1 % 3);
    assert(k2 / 3 == r2 % 3 && k2 % 3 == c2 % 3);
    assert(b.box_values(br, bc)[k1] == b.value_at(r1, c1));
    assert(b.box_values(br, bc)[k2] == b.value_at(r2, c2));
    assert(k1 != k2);
    assert(0 <= br < 3 && 0 <= bc < 3);
}

} // verus!
