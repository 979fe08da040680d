use connect_four::Position::{Black, Empty, Red};
use connect_four::{Action, App, AppState, CFGameState, CFMove, Intent, Message, Poll, Position};

fn fresh() -> App {
    App::new(CFGameState::new(Red, Black))
}

fn cells_of(game: &CFGameState) -> Vec<Position> {
    let mut cells = Vec::new();
    for row in 0..6 {
        for col in 0..7 {
            cells.push(game.pos(col, row));
        }
    }
    cells
}

fn log_of(app: &App) -> Vec<Message> {
    app.messages().iter().copied().collect()
}

/// Fills `col` with six tokens of alternating color, Black at the bottom.
fn fill_column(mut game: CFGameState, col: usize) -> CFGameState {
    let mut color = Black;
    for _ in 0..6 {
        game = game.apply_move(CFMove { color, col });
        color = if color == Red { Black } else { Red };
    }
    game
}

#[test]
fn session_starts_with_the_person_to_choose() {
    let app = fresh();
    assert_eq!(app.app_state(), AppState::ColumnSelection);
    assert_eq!(app.column_selection(), 0);
    assert!(!app.should_exit());
    assert_eq!(log_of(&app), vec![Message::HowToQuit, Message::HowToPlay]);
    assert_eq!(cells_of(app.game()), vec![Empty; 42]);
    assert!(app.is_consistent());
}

#[test]
fn session_on_a_terminal_board_is_over() {
    let mut cells = [Empty; 42];
    for col in 0..4 {
        cells[5 * 7 + col] = Black;
    }
    let app = App::new(CFGameState::from_cells(cells, Black, Red));
    assert_eq!(app.app_state(), AppState::GameOver);
    assert!(app.is_consistent());
}

#[test]
fn session_selects_the_lowest_open_column_at_the_start() {
    let game = fill_column(fill_column(CFGameState::new(Red, Black), 0), 1);
    let app = App::new(game);
    assert_eq!(app.app_state(), AppState::ColumnSelection);
    assert_eq!(app.column_selection(), 2);
    assert!(app.is_consistent());
}

#[test]
fn confirmed_move_starts_one_search() {
    let mut app = fresh();
    let action = app.handle_key_event(Intent::Confirm);
    assert_eq!(app.app_state(), AppState::AiThinking);
    assert_eq!(app.game().pos(0, 5), Red);
    assert_eq!(app.game().prev_player(), Red);
    assert_eq!(app.game().next_player(), Black);
    match action {
        Action::Search { board, seconds } => {
            assert_eq!(cells_of(&board), cells_of(app.game()));
            assert_eq!(board.next_player(), Black);
            assert_eq!(seconds, 1);
        },
        Action::Wait => panic!("a search was due"),
    }
    assert_eq!(log_of(&app)[0], Message::HumanPlayed { col: 0 });
    assert!(app.is_consistent());
}

#[test]
fn pending_poll_changes_nothing() {
    let mut app = fresh();
    app.handle_key_event(Intent::Confirm);
    let board = cells_of(app.game());
    let log = log_of(&app);
    for _ in 0..100 {
        app.handle_oracle_poll(Poll::Pending);
        assert_eq!(app.app_state(), AppState::AiThinking);
        assert_eq!(cells_of(app.game()), board);
        assert_eq!(log_of(&app), log);
        assert_eq!(app.column_selection(), 0);
        assert!(!app.should_exit());
    }
}

#[test]
fn pending_poll_changes_nothing_in_any_state() {
    let mut app = fresh();
    app.handle_oracle_poll(Poll::Pending);
    assert_eq!(app.app_state(), AppState::ColumnSelection);
    assert_eq!(cells_of(app.game()), vec![Empty; 42]);
    assert_eq!(log_of(&app).len(), 2);
}

#[test]
fn finished_search_is_applied_once() {
    let mut app = fresh();
    app.handle_key_event(Intent::Confirm);
    app.handle_oracle_poll(Poll::Pending);
    app.handle_oracle_poll(Poll::Finished { col: 3, iterations: 1234 });
    assert_eq!(app.app_state(), AppState::ColumnSelection);
    assert_eq!(app.game().pos(3, 5), Black);
    assert_eq!(app.game().prev_player(), Black);
    assert_eq!(app.game().next_player(), Red);
    assert_eq!(log_of(&app)[0], Message::AiPlayed { col: 3, iterations: 1234 });
    let board = cells_of(app.game());
    let log = log_of(&app);
    app.handle_oracle_poll(Poll::Finished { col: 3, iterations: 1234 });
    app.handle_oracle_poll(Poll::Finished { col: 4, iterations: 7 });
    assert_eq!(app.app_state(), AppState::ColumnSelection);
    assert_eq!(cells_of(app.game()), board);
    assert_eq!(log_of(&app), log);
    assert!(app.is_consistent());
}

#[test]
fn input_is_ignored_while_the_search_runs() {
    let mut app = fresh();
    app.handle_key_event(Intent::Right);
    app.handle_key_event(Intent::Confirm);
    let board = cells_of(app.game());
    for key in [Intent::Left, Intent::Right, Intent::Confirm] {
        let action = app.handle_key_event(key);
        assert!(matches!(action, Action::Wait));
        assert_eq!(app.app_state(), AppState::AiThinking);
        assert_eq!(app.column_selection(), 1);
        assert_eq!(cells_of(app.game()), board);
    }
    assert!(!app.should_exit());
}

#[test]
fn quit_raises_the_exit_flag_in_every_state() {
    let mut app = fresh();
    assert!(matches!(app.handle_key_event(Intent::Quit), Action::Wait));
    assert!(app.should_exit());
    assert_eq!(app.app_state(), AppState::ColumnSelection);

    let mut app = fresh();
    app.handle_key_event(Intent::Confirm);
    app.handle_key_event(Intent::Quit);
    assert!(app.should_exit());
    assert_eq!(app.app_state(), AppState::AiThinking);
}

#[test]
fn selection_moves_between_open_columns() {
    let game = fill_column(fill_column(CFGameState::new(Red, Black), 1), 2);
    let mut app = App::new(game);
    assert_eq!(app.column_selection(), 0);
    app.handle_key_event(Intent::Left);
    assert_eq!(app.column_selection(), 0);
    app.handle_key_event(Intent::Right);
    assert_eq!(app.column_selection(), 3);
    app.handle_key_event(Intent::Right);
    assert_eq!(app.column_selection(), 4);
    app.handle_key_event(Intent::Right);
    app.handle_key_event(Intent::Right);
    assert_eq!(app.column_selection(), 6);
    app.handle_key_event(Intent::Right);
    assert_eq!(app.column_selection(), 6);
    for expected in [5, 4, 3, 0, 0] {
        app.handle_key_event(Intent::Left);
        assert_eq!(app.column_selection(), expected);
    }
    assert_eq!(app.app_state(), AppState::ColumnSelection);
}

#[test]
fn selection_stays_when_no_column_is_open_on_that_side() {
    let mut game = CFGameState::new(Red, Black);
    for col in [0, 1, 2, 4, 5, 6] {
        game = fill_column(game, col);
    }
    let mut app = App::new(game);
    assert_eq!(app.app_state(), AppState::ColumnSelection);
    assert_eq!(app.column_selection(), 3);
    app.move_left();
    assert_eq!(app.column_selection(), 3);
    app.move_right();
    assert_eq!(app.column_selection(), 3);
}

#[test]
fn selection_leaves_a_column_that_the_person_filled() {
    let mut game = CFGameState::new(Red, Black);
    let mut color = Black;
    for _ in 0..5 {
        game = game.apply_move(CFMove { color, col: 0 });
        color = if color == Red { Black } else { Red };
    }
    let mut app = App::new(game);
    assert_eq!(app.column_selection(), 0);
    let action = app.handle_key_event(Intent::Confirm);
    assert!(matches!(action, Action::Search { .. }));
    assert_eq!(app.app_state(), AppState::AiThinking);
    assert_eq!(app.column_selection(), 1);
    assert!(app.game().is_open(1));
    assert!(app.is_consistent());
}

#[test]
fn selection_leaves_a_column_that_the_computer_filled() {
    let mut game = CFGameState::new(Red, Black);
    let mut color = Red;
    for _ in 0..4 {
        game = game.apply_move(CFMove { color, col: 2 });
        color = if color == Red { Black } else { Red };
    }
    let mut app = App::new(game);
    app.handle_key_event(Intent::Right);
    app.handle_key_event(Intent::Right);
    assert_eq!(app.column_selection(), 2);
    app.handle_key_event(Intent::Confirm);
    assert_eq!(app.column_selection(), 2);
    app.handle_oracle_poll(Poll::Finished { col: 2, iterations: 10 });
    assert_eq!(app.app_state(), AppState::ColumnSelection);
    assert!(!app.game().is_open(2));
    assert_eq!(app.column_selection(), 0);
    assert!(app.is_consistent());
}

#[test]
fn maybe_move_column_selection_keeps_an_open_column() {
    let mut app = fresh();
    app.handle_key_event(Intent::Right);
    app.handle_key_event(Intent::Right);
    app.maybe_move_column_selection();
    assert_eq!(app.column_selection(), 2);
}

#[test]
fn person_wins_and_the_game_is_over() {
    let mut app = fresh();
    for _ in 0..3 {
        assert!(matches!(app.handle_key_event(Intent::Confirm), Action::Search { .. }));
        app.handle_oracle_poll(Poll::Finished { col: 6, iterations: 5 });
        assert_eq!(app.app_state(), AppState::ColumnSelection);
    }
    let action = app.handle_key_event(Intent::Confirm);
    assert!(matches!(action, Action::Wait));
    assert_eq!(app.app_state(), AppState::GameOver);
    assert_eq!(app.game().is_terminal_state(), Some(Red));
    let log = log_of(&app);
    assert_eq!(log[0], Message::HumanWins);
    assert_eq!(log[1], Message::HumanPlayed { col: 0 });
    assert_eq!(log.len(), 2 + 3 * 2 + 2);
    assert!(app.is_consistent());
}

#[test]
fn computer_wins_and_the_game_is_over() {
    let mut app = fresh();
    for i in 0..3 {
        app.handle_key_event(Intent::Confirm);
        app.handle_oracle_poll(Poll::Finished { col: 3 + i, iterations: 5 });
        app.handle_key_event(Intent::Right);
    }
    assert_eq!(app.column_selection(), 3);
    assert_eq!(app.game().pos(0, 5), Red);
    assert_eq!(app.game().pos(1, 5), Red);
    assert_eq!(app.game().pos(2, 5), Red);
    app.handle_key_event(Intent::Right);
    app.handle_key_event(Intent::Right);
    app.handle_key_event(Intent::Right);
    assert_eq!(app.column_selection(), 6);
    app.handle_key_event(Intent::Left);
    app.handle_key_event(Intent::Left);
    app.handle_key_event(Intent::Left);
    app.handle_key_event(Intent::Confirm);
    assert_eq!(app.game().pos(3, 4), Red);
    assert_eq!(app.app_state(), AppState::AiThinking);
    app.handle_oracle_poll(Poll::Finished { col: 6, iterations: 99 });
    assert_eq!(app.app_state(), AppState::GameOver);
    assert_eq!(app.game().is_terminal_state(), Some(Black));
    let log = log_of(&app);
    assert_eq!(log[0], Message::AiWins);
    assert_eq!(log[1], Message::AiPlayed { col: 6, iterations: 99 });
}

#[test]
fn nothing_but_quit_counts_once_the_game_is_over() {
    let mut app = fresh();
    for _ in 0..3 {
        app.handle_key_event(Intent::Confirm);
        app.handle_oracle_poll(Poll::Finished { col: 6, iterations: 5 });
    }
    app.handle_key_event(Intent::Confirm);
    assert_eq!(app.app_state(), AppState::GameOver);
    let board = cells_of(app.game());
    let log = log_of(&app);
    for key in [Intent::Left, Intent::Right, Intent::Confirm] {
        assert!(matches!(app.handle_key_event(key), Action::Wait));
    }
    app.handle_oracle_poll(Poll::Pending);
    app.handle_oracle_poll(Poll::Finished { col: 1, iterations: 1 });
    assert_eq!(app.app_state(), AppState::GameOver);
    assert_eq!(cells_of(app.game()), board);
    assert_eq!(log_of(&app), log);
    assert!(!app.should_exit());
    app.handle_key_event(Intent::Quit);
    assert!(app.should_exit());
    assert_eq!(app.app_state(), AppState::GameOver);
}

#[test]
fn last_token_on_a_full_board_is_a_tie() {
    let mut cells = [Empty; 42];
    for col in 0..7 {
        for row in 0..6 {
            cells[row * 7 + col] = if (col / 2 + row) % 2 == 0 { Red } else { Black };
        }
    }
    assert_eq!(cells[6], Black);
    cells[6] = Empty;
    let mut app = App::new(CFGameState::from_cells(cells, Black, Red));
    assert_eq!(app.app_state(), AppState::ColumnSelection);
    assert_eq!(app.column_selection(), 6);
    let action = app.handle_key_event(Intent::Confirm);
    assert!(matches!(action, Action::Wait));
    assert_eq!(app.app_state(), AppState::GameOver);
    assert_eq!(app.game().is_terminal_state(), Some(Empty));
    assert_eq!(log_of(&app)[0], Message::Tie);
    assert_eq!(log_of(&app)[1], Message::HumanPlayed { col: 6 });
}

#[test]
fn recent_messages_are_the_newest_ones_oldest_first() {
    let mut app = fresh();
    app.handle_key_event(Intent::Confirm);
    app.handle_oracle_poll(Poll::Finished { col: 1, iterations: 8 });
    let all = vec![
        Message::HowToPlay,
        Message::HowToQuit,
        Message::HumanPlayed { col: 0 },
        Message::AiPlayed { col: 1, iterations: 8 },
    ];
    assert_eq!(app.recent_messages(10), all);
    assert_eq!(app.recent_messages(4), all);
    assert_eq!(app.recent_messages(2), all[2..].to_vec());
    assert_eq!(app.recent_messages(0), Vec::new());
}
