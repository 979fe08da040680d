//! One game between a person and a computer opponent: who may act when, and
//! what each event does to the board.
//!
//! The computer's move comes from a search that runs elsewhere and takes
//! time. The session never waits for it. It hands out a request when the
//! search is to start, and is told on every poll whether the search has
//! finished and with what move.

use crate::board::{
    lemma_cells_len, lemma_move_changes_one_cell, lemma_move_keeps_gravity,
    lemma_move_keeps_reachable, opponent, Board, CFGameState, CFMove, Position,
};
use crate::rules::{lemma_move_wins_for_mover_only, lemma_terminal_state_by_four, Outcome};
use std::collections::VecDeque;
use vstd::prelude::*;

verus! {

/// Seconds that the search gets for one move.
pub const THINK_SECONDS: i64 = 1;

/// Whose turn it is to act.
#[derive(Debug, PartialEq, Eq, Clone, Copy, Structural)]
pub enum AppState {
    /// The person chooses a column.
    ColumnSelection,
    /// A search for the computer's move is under way.
    AiThinking,
    /// The game has ended.
    GameOver,
}

/// What the person asks for.
#[derive(Debug, PartialEq, Eq, Clone, Copy, Structural)]
pub enum Intent {
    /// Move the selection to the next open column on the left.
    Left,
    /// Move the selection to the next open column on the right.
    Right,
    /// Play the selected column.
    Confirm,
    /// Leave.
    Quit,
}

/// What a poll of the search told.
#[derive(Debug, PartialEq, Eq, Clone, Copy, Structural)]
pub enum Poll {
    /// The search is still running.
    Pending,
    /// The search ended: it plays column `col`, found after `iterations` rounds.
    Finished { col: usize, iterations: u32 },
}

/// What the caller has to do after an event.
#[derive(Debug, Clone, Copy)]
pub enum Action {
    /// Nothing.
    Wait,
    /// Start a search for the computer's move on `board`, for `seconds` seconds.
    Search { board: CFGameState, seconds: i64 },
}

/// An entry of the session's log.
#[derive(Debug, PartialEq, Eq, Clone, Copy, Structural)]
pub enum Message {
    /// How to choose and play a column.
    HowToPlay,
    /// How to leave.
    HowToQuit,
    /// The person played column `col`.
    HumanPlayed { col: usize },
    /// The computer played column `col` after `iterations` rounds of search.
    AiPlayed { col: usize, iterations: u32 },
    /// The person has four in a row.
    HumanWins,
    /// The computer has four in a row.
    AiWins,
    /// The board is full and nobody has four in a row.
    Tie,
}

impl Board {
    /// The nearest open column left of `col`, or `fallback` if there is none.
    pub open spec fn open_left(self, col: int, fallback: int) -> int
        decreases col,
    {
        if col <= 0 {
            fallback
        } else if self.open(col - 1) {
            col - 1
        } else {
            self.open_left(col - 1, fallback)
        }
    }

    /// The nearest open column right of `col`, or `fallback` if there is none.
    pub open spec fn open_right(self, col: int, fallback: int) -> int
        decreases 6 - col,
    {
        if col >= 6 {
            fallback
        } else if self.open(col + 1) {
            col + 1
        } else {
            self.open_right(col + 1, fallback)
        }
    }

    /// The lowest open column, or 0 if there is none.
    pub open spec fn first_open(self) -> int {
        self.open_right(-1, 0)
    }

    /// `col` if it is open, else the lowest open column.
    pub open spec fn reselect(self, col: int) -> int {
        if self.open(col) {
            col
        } else {
            self.first_open()
        }
    }
}

/// The mathematical model of a session. The log has its newest entry first.
#[verifier::ext_equal]
pub struct Session {
    pub board: Board,
    pub state: AppState,
    pub column: int,
    pub exit: bool,
    pub log: Seq<Message>,
}

impl Session {
    /// A session that starts on `board`: over at once if the board is
    /// terminal, else with the person to choose, the lowest open column
    /// selected, and the two hints in the log.
    pub open spec fn start(board: Board) -> Session {
        Session {
            board,
            state: if board.outcome() is None {
                AppState::ColumnSelection
            } else {
                AppState::GameOver
            },
            column: if board.outcome() is None {
                board.reselect(0)
            } else {
                0
            },
            exit: false,
            log: seq![Message::HowToQuit, Message::HowToPlay],
        }
    }

    /// What holds of a session at all times. The board has its forty-two
    /// cells and the selected column is on the grid. The session is over
    /// exactly when the board is terminal. Until then the selected column is
    /// open. While the search runs, the person was the last to move and the
    /// computer is next.
    pub open spec fn inv(self) -> bool {
        &&& self.board.cells.len() == 42
        &&& 0 <= self.column < 7
        &&& self.state == AppState::GameOver <==> self.board.outcome() is Some
        &&& self.state != AppState::GameOver ==> self.board.open(self.column)
        &&& self.state == AppState::AiThinking ==> self.board.prev_player == Position::Red
            && self.board.next_player == Position::Black
    }

    /// The move that the person makes by confirming the selection.
    pub open spec fn human_move(self) -> CFMove {
        CFMove { color: Position::Red, col: self.column as usize }
    }

    /// The session with the selection moved to the next open column on the left.
    pub open spec fn select_left(self) -> Session {
        Session { column: self.board.open_left(self.column, self.column), ..self }
    }

    /// The session with the selection moved to the next open column on the
    /// right.
    pub open spec fn select_right(self) -> Session {
        Session { column: self.board.open_right(self.column, self.column), ..self }
    }

    /// The session with the selection on an open column: where it is if
    /// that column is open, else on the lowest open one.
    pub open spec fn reselected(self) -> Session {
        Session { column: self.board.reselect(self.column), ..self }
    }

    /// The session after `color` played `col` and `played` was logged: over
    /// if the board is now terminal, with `win` logged if `color` has won and
    /// `Tie` otherwise; else `then` comes next, with the selection on an open
    /// column.
    pub open spec fn after(
        self,
        color: Position,
        col: usize,
        played: Message,
        win: Message,
        then: AppState,
    ) -> Session {
        let board = self.board.after_move(CFMove { color, col });
        let log = seq![played] + self.log;
        match board.outcome() {
            Some(outcome) => Session {
                board,
                state: AppState::GameOver,
                log: seq![
                    if outcome.won_by(color) {
                        win
                    } else {
                        Message::Tie
                    },
                ] + log,
                ..self
            },
            None => Session { board, state: then, column: board.reselect(self.column), log, ..self },
        }
    }

    /// The session after the person confirmed the selected column.
    pub open spec fn confirm(self) -> Session {
        self.after(
            Position::Red,
            self.column as usize,
            Message::HumanPlayed { col: self.column as usize },
            Message::HumanWins,
            AppState::AiThinking,
        )
    }

    /// The session after the person asked for `key`. Quitting sets the exit
    /// flag in every state. Everything else counts only while the person is
    /// to choose a column, and is ignored otherwise.
    pub open spec fn on_key(self, key: Intent) -> Session {
        if key == Intent::Quit {
            Session { exit: true, ..self }
        } else if self.state != AppState::ColumnSelection {
            self
        } else {
            match key {
                Intent::Left => self.select_left(),
                Intent::Right => self.select_right(),
                _ => self.confirm(),
            }
        }
    }

    /// `key` makes the session ask for a search: the person confirms a
    /// column while it is the person's turn, and the game goes on after
    /// that move.
    pub open spec fn starts_search(self, key: Intent) -> bool {
        &&& key == Intent::Confirm
        &&& self.state == AppState::ColumnSelection
        &&& self.board.after_move(self.human_move()).outcome() is None
    }

    /// `poll` is one that the session can take: a finished search names an
    /// open column of the grid.
    pub open spec fn admits(self, poll: Poll) -> bool {
        self.state == AppState::AiThinking ==> match poll {
            Poll::Pending => true,
            Poll::Finished { col, iterations } => col < 7 && self.board.open(col as int),
        }
    }

    /// The session after `poll`. A pending search changes nothing. A
    /// finished one has its move applied if the session waits for it, and is
    /// ignored otherwise.
    pub open spec fn on_poll(self, poll: Poll) -> Session {
        match poll {
            Poll::Finished { col, iterations } if self.state == AppState::AiThinking => self.after(
                Position::Black,
                col,
                Message::AiPlayed { col, iterations },
                Message::AiWins,
                AppState::ColumnSelection,
            ),
            _ => self,
        }
    }

    /// The session after `n` polls that all found the search pending.
    pub open spec fn after_pending_polls(self, n: nat) -> Session
        decreases n,
    {
        if n == 0 {
            self
        } else {
            self.after_pending_polls((n - 1) as nat).on_poll(Poll::Pending)
        }
    }
}

/// What `open_left` finds: the nearest open column left of `col`, and
/// `fallback` only where no column left of `col` is open.
pub proof fn lemma_open_left(b: Board, col: int, fallback: int)
    requires
        0 <= col <= 7,
    ensures
        ({
            let found = b.open_left(col, fallback);
            ||| found == fallback && forall|c: int| 0 <= c < col ==> !b.open(c)
            ||| 0 <= found < col && b.open(found) && forall|c: int| found < c < col ==> !b.open(c)
        }),
    decreases col,
{
    if col > 0 && !b.open(col - 1) {
        lemma_open_left(b, col - 1, fallback);
    }
}

/// What `open_right` finds: the nearest open column right of `col`, and
/// `fallback` only where no column right of `col` is open.
pub proof fn lemma_open_right(b: Board, col: int, fallback: int)
    requires
        -1 <= col <= 6,
    ensures
        ({
            let found = b.open_right(col, fallback);
            ||| found == fallback && forall|c: int| col < c < 7 ==> !b.open(c)
            ||| col < found < 7 && b.open(found) && forall|c: int| col < c < found ==> !b.open(c)
        }),
    decreases 6 - col,
{
    if col < 6 && !b.open(col + 1) {
        lemma_open_right(b, col + 1, fallback);
    }
}

/// Where the top row is not full, `reselect` gives an open column: `col`
/// itself if it is open, else the lowest open one.
pub proof fn lemma_reselect(b: Board, col: int)
    requires
        !b.top_full(),
    ensures
        0 <= b.first_open() < 7,
        b.open(b.first_open()),
        forall|c: int| 0 <= c < b.first_open() ==> !b.open(c),
        b.open(b.reselect(col)),
        0 <= col < 7 ==> 0 <= b.reselect(col) < 7,
{
    lemma_open_right(b, -1, 0);
}

/// A move into an open column, made for a color while the game goes on,
/// leaves a session of which the invariant holds; and the move can have won
/// only for its own color.
pub proof fn lemma_after_keeps_inv(
    s: Session,
    color: Position,
    col: usize,
    played: Message,
    win: Message,
    then: AppState,
)
    requires
        s.inv(),
        s.state != AppState::GameOver,
        s.board.accepts(CFMove { color, col }),
        then != AppState::GameOver,
        then == AppState::AiThinking ==> color == Position::Red,
    ensures
        s.after(color, col, played, win, then).inv(),
        s.after(color, col, played, win, then).board.terminal_state() != Some(opponent(color)),
{
    let mv = CFMove { color, col };
    let board = s.board.after_move(mv);
    lemma_terminal_state_by_four(s.board);
    lemma_move_wins_for_mover_only(s.board, mv);
    lemma_move_changes_one_cell(s.board, mv);
    if board.outcome() is None {
        lemma_reselect(board, s.column);
    }
}

/// Whatever the person asks for, the invariant goes on to hold.
pub proof fn lemma_on_key_keeps_inv(s: Session, key: Intent)
    requires
        s.inv(),
    ensures
        s.on_key(key).inv(),
{
    if key != Intent::Quit && s.state == AppState::ColumnSelection {
        match key {
            Intent::Left => {
                lemma_open_left(s.board, s.column, s.column);
            },
            Intent::Right => {
                lemma_open_right(s.board, s.column, s.column);
            },
            _ => {
                lemma_after_keeps_inv(
                    s,
                    Position::Red,
                    s.column as usize,
                    Message::HumanPlayed { col: s.column as usize },
                    Message::HumanWins,
                    AppState::AiThinking,
                );
            },
        }
    }
}

/// Whatever a poll tells, provided a finished search names an open column,
/// the invariant goes on to hold.
pub proof fn lemma_on_poll_keeps_inv(s: Session, poll: Poll)
    requires
        s.inv(),
        s.admits(poll),
    ensures
        s.on_poll(poll).inv(),
{
    if s.state == AppState::AiThinking {
        match poll {
            Poll::Finished { col, iterations } => {
                lemma_after_keeps_inv(
                    s,
                    Position::Black,
                    col,
                    Message::AiPlayed { col, iterations },
                    Message::AiWins,
                    AppState::ColumnSelection,
                );
            },
            Poll::Pending => {},
        }
    }
}

/// Polls that find the search pending change nothing, however many there
/// are: neither the board nor anything else of the session.
pub proof fn lemma_pending_polls_change_nothing(s: Session, n: nat)
    ensures
        s.after_pending_polls(n) == s,
        s.after_pending_polls(n).board == s.board,
    decreases n,
{
    if n > 0 {
        lemma_pending_polls_change_nothing(s, (n - 1) as nat);
    }
}

/// The move of a finished search is applied once. After the poll that
/// brought it the session no longer waits for a search, so no later poll
/// changes anything until the person has moved again.
pub proof fn lemma_result_applied_once(s: Session, first: Poll, second: Poll)
    requires
        s.state == AppState::AiThinking,
        first is Finished,
    ensures
        s.on_poll(first).state != AppState::AiThinking,
        s.on_poll(first).on_poll(second) == s.on_poll(first),
{
}

/// A search is asked for only when the person has just moved and the game
/// goes on: the session then waits for exactly that search. While it waits,
/// and once the game is over, nothing that the person asks for starts a
/// search or touches the board.
pub proof fn lemma_one_search_at_a_time(s: Session, key: Intent)
    ensures
        s.starts_search(key) ==> s.state == AppState::ColumnSelection && s.on_key(key).state
            == AppState::AiThinking && s.on_key(key).board == s.board.after_move(s.human_move()),
        !s.starts_search(key) ==> s.on_key(key).state == s.state || s.on_key(key).state
            == AppState::GameOver,
        s.state != AppState::ColumnSelection ==> !s.starts_search(key) && s.on_key(key).board
            == s.board && s.on_key(key).state == s.state,
{
}


/// The turns alternate. After the person's move the person is the last
/// mover and the computer the next; after the computer's move it is the
/// other way round; and the token of either is on the board, in the column
/// that was played.
pub proof fn lemma_turns_alternate(s: Session, poll: Poll)
    requires
        s.inv(),
    ensures
        s.state == AppState::ColumnSelection ==> {
            let after = s.on_key(Intent::Confirm).board;
            &&& after == s.board.after_move(s.human_move())
            &&& after.prev_player == Position::Red
            &&& after.next_player == Position::Black
            &&& after.at(s.column, s.board.drop_row(s.column)) == Position::Red
        },
        s.state == AppState::AiThinking && s.admits(poll) ==> match poll {
            Poll::Finished { col, iterations } => {
                let after = s.on_poll(poll).board;
                &&& after == s.board.after_move(CFMove { color: Position::Black, col })
                &&& after.prev_player == Position::Black
                &&& after.next_player == Position::Red
                &&& after.at(col as int, s.board.drop_row(col as int)) == Position::Black
            },
            Poll::Pending => s.on_poll(poll) == s,
        },
{
    if s.state == AppState::ColumnSelection {
        lemma_move_changes_one_cell(s.board, s.human_move());
    }
    if s.state == AppState::AiThinking && s.admits(poll) {
        match poll {
            Poll::Finished { col, iterations } => {
                lemma_move_changes_one_cell(s.board, CFMove { color: Position::Black, col });
            },
            Poll::Pending => {},
        }
    }
}

/// What the log says when a move ends the game. After the person's move
/// it is either that the person has won, and then Red has four in a row, or
/// that the game is tied, and then nobody has and the top row is full. After
/// the computer's move likewise, with Black for Red.
pub proof fn lemma_game_over_is_logged(s: Session, poll: Poll)
    requires
        s.inv(),
    ensures
        s.state == AppState::ColumnSelection && s.on_key(Intent::Confirm).state
            == AppState::GameOver ==> {
            let end = s.on_key(Intent::Confirm);
            &&& end.log[1] == (Message::HumanPlayed { col: s.column as usize })
            &&& end.board.outcome() == Some(Outcome::RedWins) || end.board.outcome() == Some(
                Outcome::Tie,
            )
            &&& end.log[0] == if end.board.outcome() == Some(Outcome::RedWins) {
                Message::HumanWins
            } else {
                Message::Tie
            }
        },
        s.state == AppState::AiThinking && s.admits(poll) && s.on_poll(poll).state
            == AppState::GameOver ==> {
            let end = s.on_poll(poll);
            &&& poll matches Poll::Finished { col, iterations } && end.log[1] == (Message::AiPlayed {
                col,
                iterations,
            })
            &&& end.board.outcome() == Some(Outcome::BlackWins) || end.board.outcome() == Some(
                Outcome::Tie,
            )
            &&& end.log[0] == if end.board.outcome() == Some(Outcome::BlackWins) {
                Message::AiWins
            } else {
                Message::Tie
            }
        },
{
    if s.state == AppState::ColumnSelection {
        lemma_after_keeps_inv(
            s,
            Position::Red,
            s.column as usize,
            Message::HumanPlayed { col: s.column as usize },
            Message::HumanWins,
            AppState::AiThinking,
        );
    }
    if s.state == AppState::AiThinking && s.admits(poll) {
        match poll {
            Poll::Finished { col, iterations } => {
                lemma_after_keeps_inv(
                    s,
                    Position::Black,
                    col,
                    Message::AiPlayed { col, iterations },
                    Message::AiWins,
                    AppState::ColumnSelection,
                );
            },
            Poll::Pending => {},
        }
    }
}

/// Neither what the person asks for nor what a poll tells takes gravity
/// from the board.
pub proof fn lemma_session_keeps_gravity(s: Session, key: Intent, poll: Poll)
    requires
        s.inv(),
        s.admits(poll),
        s.board.gravity(),
    ensures
        s.on_key(key).board.gravity(),
        s.on_poll(poll).board.gravity(),
{
    if s.state == AppState::ColumnSelection {
        lemma_move_keeps_gravity(s.board, s.human_move());
    }
    if s.state == AppState::AiThinking {
        match poll {
            Poll::Finished { col, iterations } => {
                lemma_move_keeps_gravity(s.board, CFMove { color: Position::Black, col });
            },
            Poll::Pending => {},
        }
    }
}

/// A session on a board that play can reach stays on such boards, whatever
/// the person asks for and whatever a poll tells.
pub proof fn lemma_session_keeps_reachable(s: Session, key: Intent, poll: Poll)
    requires
        s.inv(),
        s.admits(poll),
        s.board.reachable(),
    ensures
        s.on_key(key).board.reachable(),
        s.on_poll(poll).board.reachable(),
{
    if s.state == AppState::ColumnSelection {
        lemma_move_keeps_reachable(s.board, s.human_move());
    }
    if s.state == AppState::AiThinking {
        match poll {
            Poll::Finished { col, iterations } => {
                lemma_move_keeps_reachable(s.board, CFMove { color: Position::Black, col });
            },
            Poll::Pending => {},
        }
    }
}

/// A session: the board, whose turn it is, the selected column, the exit
/// flag and the log.
pub struct App {
    column_selection: u8,
    exit: bool,
    game: CFGameState,
    messages: VecDeque<Message>,
    app_state: AppState,
}

impl View for App {
    type V = Session;

    closed spec fn view(&self) -> Session {
        Session {
            board: self.game@,
            state: self.app_state,
            column: self.column_selection as int,
            exit: self.exit,
            log: self.messages@,
        }
    }
}

impl App {
    /// A session that starts on `game`. On a board where the game goes on,
    /// the person is to choose, and the lowest open column is selected. On a
    /// terminal board the session is over at once.
    pub fn new(game: CFGameState) -> (app: Self)
        ensures
            app@ == Session::start(game@),
            app@.inv(),
    {
        proof {
            lemma_cells_len(game);
        }
        let mut messages: VecDeque<Message> = VecDeque::new();
        messages.push_front(Message::HowToPlay);
        messages.push_front(Message::HowToQuit);
        let live = game.terminal_outcome().is_none();
        let mut app = Self {
            column_selection: 0,
            exit: false,
            game,
            messages,
            app_state: if live {
                AppState::ColumnSelection
            } else {
                AppState::GameOver
            },
        };
        if live {
            app.maybe_move_column_selection();
        }
        proof {
            assert(app@.log =~= seq![Message::HowToQuit, Message::HowToPlay]);
        }
        app
    }

    /// The board as it stands.
    pub fn game(&self) -> (game: &CFGameState)
        ensures
            game@ == self@.board,
    {
        &self.game
    }

    /// Whose turn it is to act.
    pub fn app_state(&self) -> (state: AppState)
        ensures
            state == self@.state,
    {
        self.app_state
    }

    /// The selected column.
    pub fn column_selection(&self) -> (col: u8)
        ensures
            col == self@.column,
    {
        self.column_selection
    }

    /// Whether the person has asked to leave.
    pub fn should_exit(&self) -> (exit: bool)
        ensures
            exit == self@.exit,
    {
        self.exit
    }

    /// The log, newest entry first.
    pub fn messages(&self) -> (log: &VecDeque<Message>)
        ensures
            log@ == self@.log,
    {
        &self.messages
    }

    /// The newest `limit` entries of the log, or all of them if there are
    /// fewer, oldest first: the order in which they are shown.
    pub fn recent_messages(&self, limit: usize) -> (recent: Vec<Message>)
        ensures
            recent@.len() == if limit <= self@.log.len() {
                limit as nat
            } else {
                self@.log.len()
            },
            forall|i: int|
                0 <= i < recent@.len() ==> recent@[i] == self@.log[recent@.len() - 1 - i],
    {
        let len = self.messages.len();
        let count = if limit <= len {
            limit
        } else {
            len
        };
        let mut recent: Vec<Message> = Vec::new();
        let mut i: usize = 0;
        while i < count
            invariant
                i <= count <= self.messages@.len(),
                recent@.len() == i,
                forall|j: int| 0 <= j < i ==> recent@[j] == self.messages@[count - 1 - j],
            decreases count - i,
        {
            recent.push(self.messages[count - 1 - i]);
            i = i + 1;
        }
        recent
    }

    /// Whether the invariant of sessions holds of this one. It does of every
    /// session that `new` made and that only the functions here changed.
    pub fn is_consistent(&self) -> (ok: bool)
        ensures
            ok == self@.inv(),
    {
        proof {
            lemma_cells_len(self.game);
        }
        let over = self.game.terminal_outcome().is_some();
        if self.column_selection >= 7 {
            return false;
        }
        match self.app_state {
            AppState::GameOver => over,
            AppState::ColumnSelection => !over && self.game.is_open(self.column_selection as usize),
            AppState::AiThinking => !over && self.game.is_open(self.column_selection as usize)
                && self.game.prev_player() == Position::Red && self.game.next_player()
                == Position::Black,
        }
    }

    /// Puts the selection on an open column: it stays where it is if that
    /// column is open, else it goes to the lowest open one.
    pub fn maybe_move_column_selection(&mut self)
        requires
            old(self)@.column < 7,
            !old(self)@.board.top_full(),
        ensures
            final(self)@ == old(self)@.reselected(),
            final(self)@.board.open(final(self)@.column),
            0 <= final(self)@.column < 7,
    {
        proof {
            lemma_reselect(self@.board, self@.column);
        }
        if !self.game.is_open(self.column_selection as usize) {
            let mut col: u8 = 0;
            while !self.game.is_open(col as usize)
                invariant
                    col < 7,
                    !self@.board.top_full(),
                    forall|c: int| 0 <= c < col ==> !self@.board.open(c),
                decreases 7 - col,
            {
                proof {
                    if col == 6 {
                        assert forall|c: int| 0 <= c < 7 implies !self@.board.open(c) by {}
                    }
                }
                col = col + 1;
            }
            self.column_selection = col;
        }
    }

    /// Moves the selection to the nearest open column on the left, if there
    /// is one.
    pub fn move_left(&mut self)
        requires
            old(self)@.column < 7,
        ensures
            final(self)@ == old(self)@.select_left(),
    {
        let mut selection = self.column_selection;
        while selection > 0
            invariant
                self@ == old(self)@,
                selection <= self.column_selection < 7,
                self@.board.open_left(self@.column, self@.column) == self@.board.open_left(
                    selection as int,
                    self@.column,
                ),
            decreases selection,
        {
            selection = selection - 1;
            if self.game.is_open(selection as usize) {
                self.column_selection = selection;
                return ;
            }
        }
    }

    /// Moves the selection to the nearest open column on the right, if there
    /// is one.
    pub fn move_right(&mut self)
        requires
            old(self)@.column < 7,
        ensures
            final(self)@ == old(self)@.select_right(),
    {
        let mut selection = self.column_selection;
        while selection < 6
            invariant
                self@ == old(self)@,
                self.column_selection <= selection < 7,
                self@.board.open_right(self@.column, self@.column) == self@.board.open_right(
                    selection as int,
                    self@.column,
                ),
            decreases 6 - selection,
        {
            selection = selection + 1;
            if self.game.is_open(selection as usize) {
                self.column_selection = selection;
                return ;
            }
        }
    }

    /// Plays `color` into column `col` and logs `played`. If that ends the
    /// game, logs `win` where `color` has won and a tie otherwise, and the
    /// session is over. If not, `then` comes next, with the selection on an
    /// open column. Returns whether the game goes on.
    fn play(
        &mut self,
        color: Position,
        col: usize,
        played: Message,
        win: Message,
        then: AppState,
    ) -> (live: bool)
        requires
            old(self)@.inv(),
            old(self)@.state != AppState::GameOver,
            old(self)@.board.accepts(CFMove { color, col }),
            then != AppState::GameOver,
            then == AppState::AiThinking ==> color == Position::Red,
        ensures
            final(self)@ == old(self)@.after(color, col, played, win, then),
            final(self)@.inv(),
            live == (final(self)@.board.outcome() is None),
    {
        proof {
            lemma_after_keeps_inv(self@, color, col, played, win, then);
        }
        self.game = self.game.apply_move(CFMove { color, col });
        self.messages.push_front(played);
        match self.game.terminal_outcome() {
            Some(outcome) => {
                if outcome.is_win_for(color) {
                    self.messages.push_front(win);
                } else {
                    self.messages.push_front(Message::Tie);
                }
                self.app_state = AppState::GameOver;
                false
            },
            None => {
                self.maybe_move_column_selection();
                self.app_state = then;
                true
            },
        }
    }

    /// The person plays the selected column. Where the game goes on after
    /// that, the session now waits for the computer's move and asks for the
    /// search that finds it.
    pub fn confirm_move(&mut self) -> (action: Action)
        requires
            old(self)@.inv(),
            old(self)@.state == AppState::ColumnSelection,
        ensures
            final(self)@ == old(self)@.confirm(),
            final(self)@.inv(),
            match action {
                Action::Search { board, seconds } => {
                    &&& old(self)@.starts_search(Intent::Confirm)
                    &&& final(self)@.state == AppState::AiThinking
                    &&& board@ == final(self)@.board
                    &&& seconds == THINK_SECONDS
                },
                Action::Wait => {
                    &&& !old(self)@.starts_search(Intent::Confirm)
                    &&& final(self)@.state == AppState::GameOver
                },
            },
    {
        let col = self.column_selection as usize;
        let live = self.play(
            Position::Red,
            col,
            Message::HumanPlayed { col },
            Message::HumanWins,
            AppState::AiThinking,
        );
        if live {
            Action::Search { board: self.game, seconds: THINK_SECONDS }
        } else {
            Action::Wait
        }
    }

    /// Takes what the person asks for. Quitting raises the exit flag in
    /// every state. Moving the selection and confirming count only while the
    /// person is to choose a column; otherwise they are ignored. A search is
    /// asked for exactly when a confirmed move leaves the game going on.
    pub fn handle_key_event(&mut self, key: Intent) -> (action: Action)
        requires
            old(self)@.inv(),
        ensures
            final(self)@ == old(self)@.on_key(key),
            final(self)@.inv(),
            match action {
                Action::Search { board, seconds } => {
                    &&& old(self)@.starts_search(key)
                    &&& final(self)@.state == AppState::AiThinking
                    &&& board@ == final(self)@.board
                    &&& seconds == THINK_SECONDS
                },
                Action::Wait => !old(self)@.starts_search(key),
            },
    {
        proof {
            lemma_on_key_keeps_inv(self@, key);
        }
        match key {
            Intent::Quit => {
                self.exit = true;
                Action::Wait
            },
            Intent::Left => {
                if self.app_state == AppState::ColumnSelection {
                    self.move_left();
                }
                Action::Wait
            },
            Intent::Right => {
                if self.app_state == AppState::ColumnSelection {
                    self.move_right();
                }
                Action::Wait
            },
            Intent::Confirm => {
                if self.app_state == AppState::ColumnSelection {
                    self.confirm_move()
                } else {
                    Action::Wait
                }
            },
        }
    }

    /// Takes what a poll of the search told. While the search is pending
    /// nothing changes. When it has finished and the session waits for it,
    /// the computer plays the column found; then the game is over or the
    /// person is to choose again. A result that the session does not wait
    /// for is ignored.
    pub fn handle_oracle_poll(&mut self, poll: Poll)
        requires
            old(self)@.inv(),
            old(self)@.admits(poll),
        ensures
            final(self)@ == old(self)@.on_poll(poll),
            final(self)@.inv(),
    {
        match poll {
            Poll::Pending => {},
            Poll::Finished { col, iterations } => {
                if self.app_state == AppState::AiThinking {
                    let _ = self.play(
                        Position::Black,
                        col,
                        Message::AiPlayed { col, iterations },
                        Message::AiWins,
                        AppState::ColumnSelection,
                    );
                }
            },
        }
    }
}

} // verus!
