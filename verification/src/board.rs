//! The board: seven columns by six rows of cells, plus whose turn it was and is.

use vstd::prelude::*;

verus! {

/// What a cell holds. `Red` and `Black` are the two colors of tokens.
#[derive(Clone, Copy, PartialEq, Eq, Hash, Debug, Structural)]
pub enum Position {
    Red,
    Black,
    Empty,
}

/// A token of `color` dropped into column `col`.
#[derive(Debug, Clone, Copy, PartialEq, Eq, Hash, Structural)]
pub struct CFMove {
    pub color: Position,
    pub col: usize,
}

/// The color that moves after `color`. `Empty` has no opponent and maps to itself.
pub open spec fn opponent(color: Position) -> Position {
    match color {
        Position::Red => Position::Black,
        Position::Black => Position::Red,
        Position::Empty => Position::Empty,
    }
}

/// Whether `(col, row)` names a cell of the 7 x 6 grid.
pub open spec fn in_grid(col: int, row: int) -> bool {
    0 <= col < 7 && 0 <= row < 6
}

/// The mathematical model of a game state: the cells in row-major order
/// (cell `(col, row)` at index `row * 7 + col`, row 0 on top) and the two
/// mover fields.
#[verifier::ext_equal]
pub struct Board {
    pub cells: Seq<Position>,
    pub prev_player: Position,
    pub next_player: Position,
}

impl Board {
    /// The board with no token on it.
    pub open spec fn empty(prev_player: Position, next_player: Position) -> Board {
        Board { cells: Seq::new(42, |i: int| Position::Empty), prev_player, next_player }
    }

    /// The cell in column `col` and row `row`.
    pub open spec fn at(self, col: int, row: int) -> Position {
        self.cells[row * 7 + col]
    }

    /// Forty-two cells, and both movers are colors.
    pub open spec fn wf(self) -> bool {
        &&& self.cells.len() == 42
        &&& self.prev_player != Position::Empty
        &&& self.next_player != Position::Empty
    }

    /// A token may be dropped into column `col`: its top cell is empty.
    pub open spec fn open(self, col: int) -> bool {
        self.at(col, 0) == Position::Empty
    }

    /// No column has room left.
    pub open spec fn top_full(self) -> bool {
        forall|col: int| 0 <= col < 7 ==> !self.open(col)
    }

    /// Every cell holds a token.
    pub open spec fn full(self) -> bool {
        forall|col: int, row: int| in_grid(col, row) ==> self.at(col, row) != Position::Empty
    }

    /// Tokens stack from the bottom without gaps: below a token there are
    /// only tokens.
    pub open spec fn gravity(self) -> bool {
        forall|col: int, row: int, below: int|
            0 <= col < 7 && 0 <= row <= below < 6 && #[trigger] self.at(col, row)
                != Position::Empty ==> #[trigger] self.at(col, below) != Position::Empty
    }

    /// `row` is the lowest empty cell of column `col`.
    pub open spec fn lands_at(self, col: int, row: int) -> bool {
        &&& 0 <= row < 6
        &&& self.at(col, row) == Position::Empty
        &&& forall|below: int| row < below < 6 ==> self.at(col, below) != Position::Empty
    }

    /// The lowest empty row of column `col` among rows `0..=from`, or 0 if
    /// there is none.
    pub open spec fn lowest_empty(self, col: int, from: int) -> int
        decreases from,
    {
        if from <= 0 || self.at(col, from) == Position::Empty {
            from
        } else {
            self.lowest_empty(col, from - 1)
        }
    }

    /// The row in which a token dropped into the open column `col` comes to rest.
    pub open spec fn drop_row(self, col: int) -> int {
        self.lowest_empty(col, 5)
    }

    /// The board after `mv`: its token rests in the lowest empty cell of its
    /// column, it is recorded as the last mover, and its opponent moves next.
    pub open spec fn after_move(self, mv: CFMove) -> Board {
        Board {
            cells: self.cells.update(self.drop_row(mv.col as int) * 7 + mv.col, mv.color),
            prev_player: mv.color,
            next_player: opponent(mv.color),
        }
    }

    /// The move that `next_player` makes into column `col`.
    pub open spec fn move_into(self, col: int) -> CFMove {
        CFMove { color: self.next_player, col: col as usize }
    }

    /// The moves into the open columns among the first `n`, by ascending column.
    pub open spec fn legal_moves_upto(self, n: int) -> Seq<CFMove>
        decreases n,
    {
        if n <= 0 {
            Seq::empty()
        } else if self.open(n - 1) {
            self.legal_moves_upto(n - 1).push(self.move_into(n - 1))
        } else {
            self.legal_moves_upto(n - 1)
        }
    }

    /// One move of `next_player` for each open column, by ascending column.
    pub open spec fn legal_moves(self) -> Seq<CFMove> {
        self.legal_moves_upto(7)
    }

    /// `mv` may be applied: it drops a color into an open column of the grid.
    pub open spec fn accepts(self, mv: CFMove) -> bool {
        &&& mv.col < 7
        &&& mv.color != Position::Empty
        &&& self.open(mv.col as int)
    }

    /// The board after the moves `moves`, made in order from `self`.
    pub open spec fn play(self, moves: Seq<CFMove>) -> Board
        decreases moves.len(),
    {
        if moves.len() == 0 {
            self
        } else {
            self.play(moves.drop_last()).after_move(moves.last())
        }
    }

    /// Each of `moves` may be applied to the board that the moves before it
    /// lead to.
    pub open spec fn playable(self, moves: Seq<CFMove>) -> bool
        decreases moves.len(),
    {
        moves.len() == 0 || (self.playable(moves.drop_last()) && self.play(
            moves.drop_last(),
        ).accepts(moves.last()))
    }

    /// Some sequence of moves leads from an empty board to this one.
    pub open spec fn reachable(self) -> bool {
        exists|prev_player: Position, next_player: Position, moves: Seq<CFMove>|
            prev_player != Position::Empty && next_player != Position::Empty && Board::empty(
                prev_player,
                next_player,
            ).playable(moves) && self == #[trigger] Board::empty(prev_player, next_player).play(
                moves,
            )
    }
}

/// In an open column the token lands in the lowest empty cell, and that cell
/// is the only one of which `lands_at` holds.
pub proof fn lemma_drop_row(b: Board, col: int)
    requires
        b.open(col),
    ensures
        b.lands_at(col, b.drop_row(col)),
        forall|row: int| b.lands_at(col, row) ==> row == b.drop_row(col),
{
    lemma_lowest_empty(b, col, 5);
    let found = b.drop_row(col);
    assert forall|row: int| b.lands_at(col, row) implies row == found by {
        if row < found {
            assert(b.at(col, found) != Position::Empty);
        } else if found < row {
            assert(b.at(col, row) != Position::Empty);
        }
    }
}

proof fn lemma_lowest_empty(b: Board, col: int, from: int)
    requires
        0 <= from < 6,
        b.open(col),
    ensures
        0 <= b.lowest_empty(col, from) <= from,
        b.at(col, b.lowest_empty(col, from)) == Position::Empty,
        forall|below: int|
            b.lowest_empty(col, from) < below <= from ==> b.at(col, below) != Position::Empty,
    decreases from,
{
    if from > 0 && b.at(col, from) != Position::Empty {
        lemma_lowest_empty(b, col, from - 1);
    }
}

/// What `legal_moves_upto` lists: moves of `next_player` into open columns
/// below `n`, each open column once, by ascending column.
pub proof fn lemma_legal_moves_upto(b: Board, n: int)
    requires
        0 <= n <= 7,
    ensures
        b.legal_moves_upto(n).len() <= n,
        forall|i: int|
            0 <= i < b.legal_moves_upto(n).len() ==> {
                let mv = #[trigger] b.legal_moves_upto(n)[i];
                mv.color == b.next_player && mv.col < n && b.open(mv.col as int)
            },
        forall|i: int, j: int|
            0 <= i < j < b.legal_moves_upto(n).len() ==> b.legal_moves_upto(n)[i].col
                < b.legal_moves_upto(n)[j].col,
        forall|col: int|
            0 <= col < n && b.open(col) ==> b.legal_moves_upto(n).contains(
                #[trigger] b.move_into(col),
            ),
    decreases n,
{
    if n > 0 {
        lemma_legal_moves_upto(b, n - 1);
        let before = b.legal_moves_upto(n - 1);
        let now = b.legal_moves_upto(n);
        if b.open(n - 1) {
            assert(now[before.len() as int] == b.move_into(n - 1));
            assert forall|col: int| 0 <= col < n && b.open(col) implies now.contains(
                #[trigger] b.move_into(col),
            ) by {
                if col < n - 1 {
                    let i = choose|i: int| 0 <= i < before.len() && before[i] == b.move_into(col);
                    assert(now[i] == b.move_into(col));
                }
            }
        }
    }
}

/// On a board with gravity a full top row means a full board.
pub proof fn lemma_top_full_is_full(b: Board)
    requires
        b.gravity(),
    ensures
        b.top_full() <==> b.full(),
{
    if b.top_full() {
        assert forall|col: int, row: int| in_grid(col, row) implies b.at(col, row)
            != Position::Empty by {
            assert(!b.open(col));
            assert(b.at(col, 0) != Position::Empty);
        }
    }
    if b.full() {
        assert forall|col: int| 0 <= col < 7 implies !b.open(col) by {
            assert(in_grid(col, 0));
        }
    }
}

/// What a move changes: the cell it lands in, which was empty and now holds
/// its color, and the two mover fields. Every other cell stays as it was.
pub proof fn lemma_move_changes_one_cell(b: Board, mv: CFMove)
    requires
        b.cells.len() == 42,
        b.accepts(mv),
    ensures
        in_grid(mv.col as int, b.drop_row(mv.col as int)),
        b.at(mv.col as int, b.drop_row(mv.col as int)) == Position::Empty,
        b.after_move(mv).at(mv.col as int, b.drop_row(mv.col as int)) == mv.color,
        forall|col: int, row: int|
            in_grid(col, row) && !(col == mv.col && row == b.drop_row(mv.col as int))
                ==> #[trigger] b.after_move(mv).at(col, row) == b.at(col, row),
        b.after_move(mv).cells.len() == 42,
        b.after_move(mv).prev_player == mv.color,
        b.after_move(mv).next_player == opponent(mv.color),
        b.after_move(mv).wf(),
        b.after_move(mv).prev_player != b.after_move(mv).next_player,
{
    lemma_drop_row(b, mv.col as int);
}

/// A move into an open column of a board with gravity leaves a board with
/// gravity.
pub proof fn lemma_move_keeps_gravity(b: Board, mv: CFMove)
    requires
        b.cells.len() == 42,
        b.gravity(),
        b.accepts(mv),
    ensures
        b.after_move(mv).gravity(),
{
    let col = mv.col as int;
    let target = b.drop_row(col);
    lemma_drop_row(b, col);
    let after = b.after_move(mv);
    assert forall|c: int, row: int, below: int|
        0 <= c < 7 && 0 <= row <= below < 6 && #[trigger] after.at(c, row)
            != Position::Empty implies #[trigger] after.at(c, below) != Position::Empty by {
        if c == col && below == target {
        } else if c == col && row == target {
            assert(b.at(c, below) != Position::Empty);
        } else {
            assert(b.at(c, row) == after.at(c, row));
            assert(b.at(c, below) == after.at(c, below));
        }
    }
}

/// Moves that are playable from a well-formed board with gravity lead to a
/// well-formed board with gravity, and once a move was made the two movers
/// differ.
pub proof fn lemma_play_keeps_gravity(b: Board, moves: Seq<CFMove>)
    requires
        b.wf(),
        b.gravity(),
        b.playable(moves),
    ensures
        b.play(moves).wf(),
        b.play(moves).gravity(),
        moves.len() > 0 ==> b.play(moves).prev_player != b.play(moves).next_player,
    decreases moves.len(),
{
    if moves.len() > 0 {
        lemma_play_keeps_gravity(b, moves.drop_last());
        let before = b.play(moves.drop_last());
        lemma_move_changes_one_cell(before, moves.last());
        lemma_move_keeps_gravity(before, moves.last());
    }
}

/// A move that a reachable board accepts leads to a reachable board.
pub proof fn lemma_move_keeps_reachable(b: Board, mv: CFMove)
    requires
        b.reachable(),
        b.accepts(mv),
    ensures
        b.after_move(mv).reachable(),
{
    let (prev_player, next_player, moves) = choose|
        prev_player: Position,
        next_player: Position,
        moves: Seq<CFMove>,
    |
        prev_player != Position::Empty && next_player != Position::Empty && Board::empty(
            prev_player,
            next_player,
        ).playable(moves) && b == #[trigger] Board::empty(prev_player, next_player).play(moves);
    let start = Board::empty(prev_player, next_player);
    let longer = moves.push(mv);
    assert(longer.drop_last() =~= moves);
    assert(longer.last() == mv);
    assert(start.playable(longer));
    assert(b.after_move(mv) == start.play(longer));
}

/// Every board that play can reach from an empty board is well-formed and
/// has gravity.
pub proof fn lemma_reachable_has_gravity(b: Board)
    requires
        b.reachable(),
    ensures
        b.wf(),
        b.gravity(),
{
    let (prev_player, next_player, moves) = choose|
        prev_player: Position,
        next_player: Position,
        moves: Seq<CFMove>,
    |
        prev_player != Position::Empty && next_player != Position::Empty && Board::empty(
            prev_player,
            next_player,
        ).playable(moves) && b == #[trigger] Board::empty(prev_player, next_player).play(moves);
    lemma_play_keeps_gravity(Board::empty(prev_player, next_player), moves);
}

/// A game state. It is a plain value: every move yields a new one.
#[derive(Debug, Clone, Copy)]
pub struct CFGameState {
    board: [Position; 42],
    prev_player: Position,
    next_player: Position,
}

impl View for CFGameState {
    type V = Board;

    closed spec fn view(&self) -> Board {
        Board { cells: self.board@, prev_player: self.prev_player, next_player: self.next_player }
    }
}

impl CFGameState {
    /// An empty board on which `prev_player` is recorded as the last mover
    /// and `next_player` is to move.
    pub fn new(prev_player: Position, next_player: Position) -> (state: Self)
        requires
            prev_player != Position::Empty,
            next_player != Position::Empty,
        ensures
            state@ == Board::empty(prev_player, next_player),
            state@.wf(),
            state@.gravity(),
    {
        Self { board: [Position::Empty;42], prev_player, next_player }
    }

    /// A board with the given cells, in row-major order from the top-left
    /// corner: cell `(col, row)` is `cells[row * 7 + col]`.
    pub fn from_cells(
        cells: [Position; 42],
        prev_player: Position,
        next_player: Position,
    ) -> (state: Self)
        requires
            prev_player != Position::Empty,
            next_player != Position::Empty,
        ensures
            state@ == (Board { cells: cells@, prev_player, next_player }),
            state@.wf(),
    {
        Self { board: cells, prev_player, next_player }
    }

    /// The cell in column `col` and row `row`; column 0, row 0 is top-left.
    pub fn pos(&self, col: usize, row: usize) -> (cell: Position)
        requires
            col < 7,
            row < 6,
        ensures
            cell == self@.at(col as int, row as int),
    {
        self.board[row * 7 + col]
    }

    /// The color that made the last move.
    pub fn prev_player(&self) -> (color: Position)
        ensures
            color == self@.prev_player,
    {
        self.prev_player
    }

    /// The color that moves next.
    pub fn next_player(&self) -> (color: Position)
        ensures
            color == self@.next_player,
    {
        self.next_player
    }

    /// Whether a token may be dropped into column `col`.
    pub fn is_open(&self, col: usize) -> (open: bool)
        requires
            col < 7,
        ensures
            open == self@.open(col as int),
    {
        self.pos(col, 0) == Position::Empty
    }

    /// The legal moves: one for each column whose top cell is empty, by
    /// ascending column, each made by the color that moves next. There is
    /// none exactly when the top row is full, which on a board with gravity
    /// means that the board is full.
    pub fn all_moves(&self) -> (moves: Vec<CFMove>)
        ensures
            moves@ == self@.legal_moves(),
            forall|i: int|
                0 <= i < moves@.len() ==> {
                    let mv = #[trigger] moves@[i];
                    mv.color == self@.next_player && mv.col < 7 && self@.open(mv.col as int)
                },
            forall|i: int, j: int| 0 <= i < j < moves@.len() ==> moves@[i].col < moves@[j].col,
            forall|col: int|
                0 <= col < 7 && self@.open(col) ==> moves@.contains(
                    #[trigger] self@.move_into(col),
                ),
            moves@.len() == 0 <==> self@.top_full(),
            self@.gravity() ==> (moves@.len() == 0 <==> self@.full()),
    {
        let mut moves: Vec<CFMove> = Vec::new();
        let mut col: usize = 0;
        while col < 7
            invariant
                col <= 7,
                moves@ == self@.legal_moves_upto(col as int),
            decreases 7 - col,
        {
            if self.is_open(col) {
                moves.push(CFMove { color: self.next_player, col });
            }
            col = col + 1;
        }
        proof {
            lemma_legal_moves_upto(self@, 7);
            if moves@.len() == 0 {
                assert forall|c: int| 0 <= c < 7 implies !self@.open(c) by {
                    if self@.open(c) {
                        assert(moves@.contains(self@.move_into(c)));
                    }
                }
            } else {
                assert(self@.open(moves@[0].col as int));
            }
            if self@.gravity() {
                lemma_top_full_is_full(self@);
            }
        }
        moves
    }

    /// The row in which a token dropped into the open column `col` comes to
    /// rest: the lowest empty one.
    pub fn drop_row(&self, col: usize) -> (row: usize)
        requires
            col < 7,
            self@.open(col as int),
        ensures
            row == self@.drop_row(col as int),
            self@.lands_at(col as int, row as int),
    {
        let mut row: usize = 5;
        while self.pos(col, row) != Position::Empty
            invariant
                col < 7,
                row < 6,
                self@.open(col as int),
                forall|below: int|
                    row < below < 6 ==> self@.at(col as int, below) != Position::Empty,
            decreases row,
        {
            row = row - 1;
        }
        proof {
            assert(self@.lands_at(col as int, row as int));
            lemma_drop_row(self@, col as int);
        }
        row
    }

    /// The state after `action`. The token comes to rest in the lowest empty
    /// cell of its column, which is the one cell that changes; `action.color`
    /// becomes the last mover and its opponent the next. `self` is left as
    /// it was.
    pub fn apply_move(&self, action: CFMove) -> (next: Self)
        requires
            self@.accepts(action),
        ensures
            next@ == self@.after_move(action),
            next@.wf(),
            next@.at(action.col as int, self@.drop_row(action.col as int)) == action.color,
            forall|col: int, row: int|
                in_grid(col, row) && !(col == action.col && row == self@.drop_row(
                    action.col as int,
                )) ==> #[trigger] next@.at(col, row) == self@.at(col, row),
            self@.gravity() ==> next@.gravity(),
    {
        let col = action.col;
        let row = self.drop_row(col);
        let mut board = self.board;
        board[row * 7 + col] = action.color;
        let next_player = match action.color {
            Position::Red => Position::Black,
            _ => Position::Red,
        };
        let next = Self { board, prev_player: action.color, next_player };
        proof {
            lemma_move_changes_one_cell(self@, action);
            if self@.gravity() {
                lemma_move_keeps_gravity(self@, action);
            }
        }
        next
    }

    /// Whether the terminal value `condition` is a win for the color that
    /// made the last move.
    pub fn terminal_is_win(&self, condition: &Position) -> (win: bool)
        ensures
            win == (self@.prev_player == *condition),
    {
        self.prev_player == *condition
    }
}

/// Every game state has forty-two cells.
pub proof fn lemma_cells_len(state: CFGameState)
    ensures
        state@.cells.len() == 42,
{
}

} // verus!
