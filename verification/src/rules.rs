//! Deciding whether a game is over: four in a row for either color, or a
//! full top row.

use crate::board::{in_grid, opponent, Board, CFGameState, CFMove, Position};
use vstd::prelude::*;

verus! {

/// The directions in which four cells line up. A falling diagonal goes down
/// and to the right, a rising one down and to the left.
#[derive(Clone, Copy, PartialEq, Eq, Debug, Structural)]
pub enum Axis {
    Horizontal,
    Vertical,
    Falling,
    Rising,
}

/// Four cells in a line, named by the first of them and the direction in
/// which the other three follow.
pub struct Run {
    pub axis: Axis,
    pub col: int,
    pub row: int,
}

impl Run {
    /// Column step from one cell of the run to the next.
    pub open spec fn dcol(self) -> int {
        match self.axis {
            Axis::Horizontal => 1,
            Axis::Vertical => 0,
            Axis::Falling => 1,
            Axis::Rising => -1,
        }
    }

    /// Row step from one cell of the run to the next.
    pub open spec fn drow(self) -> int {
        match self.axis {
            Axis::Horizontal => 0,
            _ => 1,
        }
    }

    /// All four cells lie on the grid.
    pub open spec fn on_board(self) -> bool {
        &&& in_grid(self.col, self.row)
        &&& in_grid(self.col + 3 * self.dcol(), self.row + 3 * self.drow())
    }

    /// The place of the run in the scan. Horizontal runs come first, row by
    /// row from the top and left to right within a row; then vertical runs,
    /// column by column and downward within a column; then falling
    /// diagonals, starting with the diagonal nearest the bottom-left corner
    /// and left to right along each; then rising diagonals in the mirrored
    /// order, starting nearest the bottom-right corner and right to left.
    pub open spec fn scan_key(self) -> int {
        match self.axis {
            Axis::Horizontal => self.row * 10 + self.col,
            Axis::Vertical => 100 + self.col * 10 + self.row,
            Axis::Falling => 200 + (self.col - self.row + 2) * 10 + self.col,
            Axis::Rising => 300 + ((6 - self.col) - self.row + 2) * 10 + (6 - self.col),
        }
    }

    /// The same four cells seen in a mirror that swaps column `c` with `6 - c`.
    pub open spec fn mirrored(self) -> Run {
        match self.axis {
            Axis::Horizontal => Run { axis: Axis::Horizontal, col: 3 - self.col, row: self.row },
            Axis::Vertical => Run { axis: Axis::Vertical, col: 6 - self.col, row: self.row },
            Axis::Falling => Run { axis: Axis::Rising, col: 6 - self.col, row: self.row },
            Axis::Rising => Run { axis: Axis::Falling, col: 6 - self.col, row: self.row },
        }
    }
}

/// How a finished game ended.
#[derive(Clone, Copy, PartialEq, Eq, Debug, Structural)]
pub enum Outcome {
    RedWins,
    BlackWins,
    Tie,
}

impl Outcome {
    /// The game ended with four in a row for `color`.
    pub open spec fn won_by(self, color: Position) -> bool {
        match self {
            Outcome::RedWins => color == Position::Red,
            Outcome::BlackWins => color == Position::Black,
            Outcome::Tie => false,
        }
    }

    /// Whether the game ended with four in a row for `color`.
    pub fn is_win_for(&self, color: Position) -> (win: bool)
        ensures
            win == self.won_by(color),
    {
        match self {
            Outcome::RedWins => color == Position::Red,
            Outcome::BlackWins => color == Position::Black,
            Outcome::Tie => false,
        }
    }
}

impl Board {
    /// All four cells of `run` hold `color`.
    pub open spec fn filled_by(self, run: Run, color: Position) -> bool {
        &&& self.at(run.col, run.row) == color
        &&& self.at(run.col + run.dcol(), run.row + run.drow()) == color
        &&& self.at(run.col + 2 * run.dcol(), run.row + 2 * run.drow()) == color
        &&& self.at(run.col + 3 * run.dcol(), run.row + 3 * run.drow()) == color
    }

    /// `run` lies on the grid and one color holds all four of its cells.
    pub open spec fn completes(self, run: Run) -> bool {
        &&& run.on_board()
        &&& (self.filled_by(run, Position::Red) || self.filled_by(run, Position::Black))
    }

    /// `color` has four in a row somewhere on the grid.
    pub open spec fn has_four(self, color: Position) -> bool {
        exists|run: Run| run.on_board() && #[trigger] self.filled_by(run, color)
    }

    /// No run that the scan reaches before place `key` is complete.
    pub open spec fn none_before(self, key: int) -> bool {
        forall|run: Run| run.scan_key() < key ==> !#[trigger] self.completes(run)
    }

    /// The first complete run that the scan meets is one of `color`.
    pub open spec fn first_four(self, color: Position) -> bool {
        exists|run: Run|
            run.on_board() && #[trigger] self.filled_by(run, color) && self.none_before(
                run.scan_key(),
            )
    }

    /// The terminal value of the board: the color of the first complete run
    /// of the scan; failing that, `Empty` for a tie when the top row is full;
    /// `None` while the game goes on.
    pub open spec fn terminal_state(self) -> Option<Position> {
        if self.first_four(Position::Black) {
            Some(Position::Black)
        } else if self.first_four(Position::Red) {
            Some(Position::Red)
        } else if self.top_full() {
            Some(Position::Empty)
        } else {
            None
        }
    }

    /// The terminal value as a result that keeps a tie apart from the colors.
    pub open spec fn outcome(self) -> Option<Outcome> {
        match self.terminal_state() {
            Some(Position::Red) => Some(Outcome::RedWins),
            Some(Position::Black) => Some(Outcome::BlackWins),
            Some(Position::Empty) => Some(Outcome::Tie),
            None => None,
        }
    }

    /// The board seen in a mirror that swaps column `c` with `6 - c`.
    pub open spec fn mirrored(self) -> Board {
        Board {
            cells: Seq::new(42, |i: int| self.cells[i - i % 7 + 6 - i % 7]),
            prev_player: self.prev_player,
            next_player: self.next_player,
        }
    }
}

/// Two runs on the grid with the same place in the scan are the same run.
pub proof fn lemma_scan_key_names_run(a: Run, b: Run)
    requires
        a.on_board(),
        b.on_board(),
        a.scan_key() == b.scan_key(),
    ensures
        a == b,
{
}

/// A complete run of `color` that no complete run precedes decides the
/// terminal value.
pub proof fn lemma_first_four_decides(b: Board, run: Run, color: Position)
    requires
        color != Position::Empty,
        run.on_board(),
        b.filled_by(run, color),
        b.none_before(run.scan_key()),
    ensures
        b.first_four(color),
        !b.first_four(opponent(color)),
        b.terminal_state() == Some(color),
{
    let other = opponent(color);
    if b.first_four(other) {
        let rival = choose|rival: Run|
            rival.on_board() && #[trigger] b.filled_by(rival, other) && b.none_before(
                rival.scan_key(),
            );
        assert(b.completes(run));
        assert(b.completes(rival));
        lemma_scan_key_names_run(run, rival);
    }
}

/// Where no complete run exists, the top row alone decides.
pub proof fn lemma_no_four_decides(b: Board)
    requires
        b.none_before(400),
    ensures
        !b.has_four(Position::Red),
        !b.has_four(Position::Black),
        b.terminal_state() == if b.top_full() {
            Some(Position::Empty)
        } else {
            None::<Position>
        },
{
    assert forall|run: Run| run.on_board() implies !b.completes(run) by {
        assert(run.scan_key() < 400);
    }
    assert forall|run: Run, color: Position|
        color != Position::Empty && run.on_board() implies !#[trigger] b.filled_by(run, color) by {
        assert(!b.completes(run));
    }
}

/// If any run is complete, the scan finds a first one.
proof fn lemma_scan_finds(b: Board, key: int)
    requires
        0 <= key <= 400,
        b.none_before(key),
        exists|run: Run| #[trigger] b.completes(run),
    ensures
        b.first_four(Position::Red) || b.first_four(Position::Black),
    decreases 400 - key,
{
    if key == 400 {
        let run = choose|run: Run| #[trigger] b.completes(run);
        assert(run.scan_key() < 400);
    } else if exists|run: Run| run.scan_key() == key && #[trigger] b.completes(run) {
        let run = choose|run: Run| run.scan_key() == key && #[trigger] b.completes(run);
        if b.filled_by(run, Position::Red) {
            assert(b.first_four(Position::Red));
        } else {
            assert(b.filled_by(run, Position::Black));
            assert(b.first_four(Position::Black));
        }
    } else {
        lemma_scan_finds(b, key + 1);
    }
}

/// How the terminal value follows from who has four in a row. A color that
/// the value names has four in a row; where some color has four in a row the
/// value names a color; where only one color has, it names that one; and
/// where none has, the top row alone decides between tie and no result.
pub proof fn lemma_terminal_state_by_four(b: Board)
    ensures
        b.terminal_state() == Some(Position::Red) ==> b.has_four(Position::Red),
        b.terminal_state() == Some(Position::Black) ==> b.has_four(Position::Black),
        b.has_four(Position::Red) || b.has_four(Position::Black) ==> b.terminal_state() == Some(
            Position::Red,
        ) || b.terminal_state() == Some(Position::Black),
        b.has_four(Position::Red) && !b.has_four(Position::Black) ==> b.terminal_state() == Some(
            Position::Red,
        ),
        b.has_four(Position::Black) && !b.has_four(Position::Red) ==> b.terminal_state() == Some(
            Position::Black,
        ),
        !b.has_four(Position::Red) && !b.has_four(Position::Black) ==> b.terminal_state()
            == if b.top_full() {
            Some(Position::Empty)
        } else {
            None::<Position>
        },
{
    if b.first_four(Position::Red) {
        let run = choose|run: Run|
            run.on_board() && #[trigger] b.filled_by(run, Position::Red) && b.none_before(
                run.scan_key(),
            );
        lemma_first_four_decides(b, run, Position::Red);
    }
    if b.first_four(Position::Black) {
        let run = choose|run: Run|
            run.on_board() && #[trigger] b.filled_by(run, Position::Black) && b.none_before(
                run.scan_key(),
            );
        lemma_first_four_decides(b, run, Position::Black);
    }
    if b.has_four(Position::Red) {
        let run = choose|run: Run| run.on_board() && #[trigger] b.filled_by(run, Position::Red);
        assert(b.completes(run));
        assert(b.none_before(0)) by {
            assert forall|r: Run| r.scan_key() < 0 implies !#[trigger] b.completes(r) by {}
        }
        lemma_scan_finds(b, 0);
    }
    if b.has_four(Position::Black) {
        let run = choose|run: Run| run.on_board() && #[trigger] b.filled_by(run, Position::Black);
        assert(b.completes(run));
        assert(b.none_before(0)) by {
            assert forall|r: Run| r.scan_key() < 0 implies !#[trigger] b.completes(r) by {}
        }
        lemma_scan_finds(b, 0);
    }
}

/// A cell of the mirrored board is the cell of the mirrored column.
pub proof fn lemma_mirrored_cell(b: Board, col: int, row: int)
    requires
        b.cells.len() == 42,
        in_grid(col, row),
    ensures
        b.mirrored().at(col, row) == b.at(6 - col, row),
{
}

/// The mirror image of a run on the grid is a run on the grid, one color
/// holds it on the mirrored board exactly if it holds the run on the board
/// itself, and mirroring twice gives the run back.
pub proof fn lemma_mirrored_run(b: Board, run: Run, color: Position)
    requires
        b.cells.len() == 42,
        run.on_board(),
    ensures
        run.mirrored().on_board(),
        run.mirrored().mirrored() == run,
        b.mirrored().filled_by(run.mirrored(), color) == b.filled_by(run, color),
{
    let m = run.mirrored();
    lemma_mirrored_cell(b, m.col, m.row);
    lemma_mirrored_cell(b, m.col + m.dcol(), m.row + m.drow());
    lemma_mirrored_cell(b, m.col + 2 * m.dcol(), m.row + 2 * m.drow());
    lemma_mirrored_cell(b, m.col + 3 * m.dcol(), m.row + 3 * m.drow());
}

/// Mirroring the board left to right changes neither who has four in a row
/// nor whether the top row is full.
pub proof fn lemma_mirror_keeps_four(b: Board, color: Position)
    requires
        b.cells.len() == 42,
    ensures
        b.mirrored().has_four(color) == b.has_four(color),
        b.mirrored().top_full() == b.top_full(),
        b.mirrored().mirrored() == b,
{
    let m = b.mirrored();
    if b.has_four(color) {
        let run = choose|run: Run| run.on_board() && #[trigger] b.filled_by(run, color);
        lemma_mirrored_run(b, run, color);
        assert(m.filled_by(run.mirrored(), color));
    }
    if m.has_four(color) {
        let run = choose|run: Run| run.on_board() && #[trigger] m.filled_by(run, color);
        lemma_mirrored_run(b, run, color);
        lemma_mirrored_run(b, run.mirrored(), color);
        assert(b.filled_by(run.mirrored(), color));
    }
    assert forall|col: int| 0 <= col < 7 implies m.open(col) == b.open(6 - col) by {
        lemma_mirrored_cell(b, col, 0);
    }
    if b.top_full() {
        assert forall|col: int| 0 <= col < 7 implies !m.open(col) by {
            assert(!b.open(6 - col));
        }
    }
    if m.top_full() {
        assert forall|col: int| 0 <= col < 7 implies !b.open(col) by {
            assert(!m.open(6 - col));
        }
    }
    assert(m.mirrored().cells =~= b.cells);
}

/// Unless both colors have four in a row at once, the mirrored board has the
/// terminal value of the board itself.
pub proof fn lemma_mirror_keeps_terminal_state(b: Board)
    requires
        b.cells.len() == 42,
        !(b.has_four(Position::Red) && b.has_four(Position::Black)),
    ensures
        b.mirrored().terminal_state() == b.terminal_state(),
        b.mirrored().outcome() == b.outcome(),
{
    lemma_mirror_keeps_four(b, Position::Red);
    lemma_mirror_keeps_four(b, Position::Black);
    lemma_terminal_state_by_four(b);
    lemma_terminal_state_by_four(b.mirrored());
}

/// On a board without a complete run, a move can complete a run only for
/// its own color: afterwards the terminal value is that color, a tie, or
/// none.
pub proof fn lemma_move_wins_for_mover_only(b: Board, mv: CFMove)
    requires
        b.cells.len() == 42,
        b.accepts(mv),
        !b.has_four(Position::Red),
        !b.has_four(Position::Black),
    ensures
        !b.after_move(mv).has_four(opponent(mv.color)),
        b.after_move(mv).terminal_state() != Some(opponent(mv.color)),
{
    let after = b.after_move(mv);
    let rival = opponent(mv.color);
    crate::board::lemma_move_changes_one_cell(b, mv);
    if after.has_four(rival) {
        let run = choose|run: Run| run.on_board() && #[trigger] after.filled_by(run, rival);
        assert(after.at(run.col, run.row) == b.at(run.col, run.row));
        assert(after.at(run.col + run.dcol(), run.row + run.drow()) == b.at(
            run.col + run.dcol(),
            run.row + run.drow(),
        ));
        assert(after.at(run.col + 2 * run.dcol(), run.row + 2 * run.drow()) == b.at(
            run.col + 2 * run.dcol(),
            run.row + 2 * run.drow(),
        ));
        assert(after.at(run.col + 3 * run.dcol(), run.row + 3 * run.drow()) == b.at(
            run.col + 3 * run.dcol(),
            run.row + 3 * run.drow(),
        ));
        assert(b.filled_by(run, rival));
    }
    lemma_terminal_state_by_four(after);
}

impl CFGameState {
    /// Whether every one of the four cells `pos`, each a `(col, row)` pair,
    /// holds `val`.
    pub fn same_vals(&self, pos: [(usize, usize); 4], val: Position) -> (same: bool)
        requires
            forall|k: int| 0 <= k < 4 ==> in_grid(pos[k].0 as int, pos[k].1 as int),
        ensures
            same == (forall|k: int|
                0 <= k < 4 ==> self@.at(pos[k].0 as int, pos[k].1 as int) == val),
    {
        let mut k: usize = 0;
        while k < 4
            invariant
                k <= 4,
                forall|j: int| 0 <= j < 4 ==> in_grid(pos[j].0 as int, pos[j].1 as int),
                forall|j: int| 0 <= j < k ==> self@.at(pos[j].0 as int, pos[j].1 as int) == val,
            decreases 4 - k,
        {
            let (col, row) = pos[k];
            if self.pos(col, row) != val {
                return false;
            }
            k = k + 1;
        }
        true
    }

    /// The color that holds all four cells of the run that starts at
    /// `(col, row)` and follows `axis`, if one does.
    fn run_winner(&self, axis: Axis, col: usize, row: usize) -> (winner: Option<Position>)
        requires
            (Run { axis, col: col as int, row: row as int }).on_board(),
        ensures
            ({
                let run = Run { axis, col: col as int, row: row as int };
                match winner {
                    Some(color) => color != Position::Empty && self@.filled_by(run, color),
                    None => !self@.completes(run),
                }
            }),
    {
        let cells = match axis {
            Axis::Horizontal => [(col, row), (col + 1, row), (col + 2, row), (col + 3, row)],
            Axis::Vertical => [(col, row), (col, row + 1), (col, row + 2), (col, row + 3)],
            Axis::Falling => [
                (col, row),
                (col + 1, row + 1),
                (col + 2, row + 2),
                (col + 3, row + 3),
            ],
            Axis::Rising => [
                (col, row),
                (col - 1, row + 1),
                (col - 2, row + 2),
                (col - 3, row + 3),
            ],
        };
        if self.same_vals(cells, Position::Black) {
            return Some(Position::Black);
        }
        if self.same_vals(cells, Position::Red) {
            return Some(Position::Red);
        }
        None
    }

    /// Whether the game is over, and how: `Some(Red)` or `Some(Black)` where
    /// that color holds the first complete run of the scan, `Some(Empty)` for
    /// a tie, where no run is complete and the top row is full, and `None`
    /// while the game goes on.
    pub fn is_terminal_state(&self) -> (outcome: Option<Position>)
        ensures
            outcome == self@.terminal_state(),
    {
        let mut row: usize = 0;
        while row < 6
            invariant
                row <= 6,
                self@.none_before(row * 10),
            decreases 6 - row,
        {
            let mut col: usize = 0;
            while col < 4
                invariant
                    row < 6,
                    col <= 4,
                    self@.none_before(row * 10 + col),
                decreases 4 - col,
            {
                let winner = self.run_winner(Axis::Horizontal, col, row);
                if let Some(color) = winner {
                    proof {
                        let run = Run { axis: Axis::Horizontal, col: col as int, row: row as int };
                        lemma_first_four_decides(self@, run, color);
                    }
                    return winner;
                }
                col = col + 1;
            }
            row = row + 1;
        }
        let mut col: usize = 0;
        while col < 7
            invariant
                col <= 7,
                self@.none_before(100 + col * 10),
            decreases 7 - col,
        {
            let mut row: usize = 0;
            while row < 3
                invariant
                    col < 7,
                    row <= 3,
                    self@.none_before(100 + col * 10 + row),
                decreases 3 - row,
            {
                let winner = self.run_winner(Axis::Vertical, col, row);
                if let Some(color) = winner {
                    proof {
                        let run = Run { axis: Axis::Vertical, col: col as int, row: row as int };
                        lemma_first_four_decides(self@, run, color);
                    }
                    return winner;
                }
                row = row + 1;
            }
            col = col + 1;
        }
        let mut diagonal: usize = 0;
        while diagonal < 6
            invariant
                diagonal <= 6,
                self@.none_before(200 + diagonal * 10),
            decreases 6 - diagonal,
        {
            let mut col: usize = 0;
            while col < 4
                invariant
                    diagonal < 6,
                    col <= 4,
                    self@.none_before(200 + diagonal * 10 + col),
                decreases 4 - col,
            {
                if col <= diagonal && diagonal <= col + 2 {
                    let row = col + 2 - diagonal;
                    let winner = self.run_winner(Axis::Falling, col, row);
                    if let Some(color) = winner {
                        proof {
                            let run = Run { axis: Axis::Falling, col: col as int, row: row as int };
                            lemma_first_four_decides(self@, run, color);
                        }
                        return winner;
                    }
                }
                col = col + 1;
            }
            diagonal = diagonal + 1;
        }
        let mut diagonal: usize = 0;
        while diagonal < 6
            invariant
                diagonal <= 6,
                self@.none_before(300 + diagonal * 10),
            decreases 6 - diagonal,
        {
            let mut col: usize = 0;
            while col < 4
                invariant
                    diagonal < 6,
                    col <= 4,
                    self@.none_before(300 + diagonal * 10 + col),
                decreases 4 - col,
            {
                if col <= diagonal && diagonal <= col + 2 {
                    let row = col + 2 - diagonal;
                    let winner = self.run_winner(Axis::Rising, 6 - col, row);
                    if let Some(color) = winner {
                        proof {
                            let run = Run {
                                axis: Axis::Rising,
                                col: 6 - col as int,
                                row: row as int,
                            };
                            lemma_first_four_decides(self@, run, color);
                        }
                        return winner;
                    }
                }
                col = col + 1;
            }
            diagonal = diagonal + 1;
        }
        proof {
            lemma_no_four_decides(self@);
        }
        let mut col: usize = 0;
        while col < 7
            invariant
                col <= 7,
                forall|c: int| 0 <= c < col ==> !self@.open(c),
                self@.terminal_state() == if self@.top_full() {
                    Some(Position::Empty)
                } else {
                    None::<Position>
                },
            decreases 7 - col,
        {
            if self.is_open(col) {
                return None;
            }
            col = col + 1;
        }
        Some(Position::Empty)
    }

    /// Whether the game is over, and how, with a tie kept apart from the
    /// two colors.
    pub fn terminal_outcome(&self) -> (outcome: Option<Outcome>)
        ensures
            outcome == self@.outcome(),
    {
        match self.is_terminal_state() {
            Some(Position::Red) => Some(Outcome::RedWins),
            Some(Position::Black) => Some(Outcome::BlackWins),
            Some(Position::Empty) => Some(Outcome::Tie),
            None => None,
        }
    }
}

} // verus!
