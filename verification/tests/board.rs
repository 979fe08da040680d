use connect_four::Position::{Black, Empty, Red};
use connect_four::{CFGameState, CFMove, Position};

fn count_tokens(state: &CFGameState) -> usize {
    let mut n = 0;
    for col in 0..7 {
        for row in 0..6 {
            if state.pos(col, row) != Empty {
                n += 1;
            }
        }
    }
    n
}

fn has_gravity(state: &CFGameState) -> bool {
    for col in 0..7 {
        for row in 0..5 {
            if state.pos(col, row) != Empty && state.pos(col, row + 1) == Empty {
                return false;
            }
        }
    }
    true
}

#[test]
fn new_board_is_empty() {
    let state = CFGameState::new(Red, Black);
    for col in 0..7 {
        for row in 0..6 {
            assert_eq!(state.pos(col, row), Empty);
        }
    }
    assert_eq!(state.prev_player(), Red);
    assert_eq!(state.next_player(), Black);
}

#[test]
fn from_cells_is_row_major_from_the_top_left() {
    let mut cells = [Empty; 42];
    cells[0] = Red;
    cells[6] = Black;
    cells[35] = Black;
    cells[41] = Red;
    cells[2 * 7 + 3] = Red;
    let state = CFGameState::from_cells(cells, Black, Red);
    assert_eq!(state.pos(0, 0), Red);
    assert_eq!(state.pos(6, 0), Black);
    assert_eq!(state.pos(0, 5), Black);
    assert_eq!(state.pos(6, 5), Red);
    assert_eq!(state.pos(3, 2), Red);
    assert_eq!(state.pos(2, 3), Empty);
    assert_eq!(state.prev_player(), Black);
    assert_eq!(state.next_player(), Red);
}

#[test]
fn first_token_lands_on_the_bottom_row() {
    let state = CFGameState::new(Red, Black);
    let next = state.apply_move(CFMove { color: Red, col: 3 });
    assert_eq!(next.pos(3, 5), Red);
    assert_eq!(next.pos(3, 4), Empty);
    assert_eq!(count_tokens(&next), 1);
    assert_eq!(next.prev_player(), Red);
    assert_eq!(next.next_player(), Black);
}

#[test]
fn tokens_stack_upward() {
    let mut state = CFGameState::new(Red, Black);
    let colors = [Red, Black, Red, Black, Red, Black];
    for (i, color) in colors.iter().enumerate() {
        assert_eq!(state.drop_row(2), 5 - i);
        state = state.apply_move(CFMove { color: *color, col: 2 });
        assert_eq!(state.pos(2, 5 - i), *color);
        assert!(has_gravity(&state));
    }
    assert!(!state.is_open(2));
    assert_eq!(count_tokens(&state), 6);
}

#[test]
fn apply_move_leaves_its_input_alone() {
    let state = CFGameState::new(Red, Black).apply_move(CFMove { color: Red, col: 0 });
    let next = state.apply_move(CFMove { color: Black, col: 0 });
    assert_eq!(state.pos(0, 5), Red);
    assert_eq!(state.pos(0, 4), Empty);
    assert_eq!(state.prev_player(), Red);
    assert_eq!(state.next_player(), Black);
    assert_eq!(next.pos(0, 4), Black);
}

#[test]
fn apply_move_changes_exactly_one_cell() {
    let mut state = CFGameState::new(Red, Black);
    let cols = [3, 3, 4, 0, 6, 3, 2, 2, 6];
    let mut color = Red;
    for col in cols {
        let next = state.apply_move(CFMove { color, col });
        let mut changed = Vec::new();
        for c in 0..7 {
            for r in 0..6 {
                if next.pos(c, r) != state.pos(c, r) {
                    changed.push((c, r));
                }
            }
        }
        assert_eq!(changed, vec![(col, state.drop_row(col))]);
        assert_eq!(state.pos(col, state.drop_row(col)), Empty);
        assert_eq!(next.pos(col, state.drop_row(col)), color);
        assert_eq!(next.prev_player(), color);
        assert_ne!(next.next_player(), color);
        assert_ne!(next.next_player(), Empty);
        state = next;
        color = if color == Red { Black } else { Red };
    }
}

#[test]
fn mover_fields_follow_the_move_not_the_turn() {
    let state = CFGameState::new(Red, Black);
    let next = state.apply_move(CFMove { color: Red, col: 1 });
    assert_eq!(next.prev_player(), Red);
    assert_eq!(next.next_player(), Black);
    let again = next.apply_move(CFMove { color: Black, col: 1 });
    assert_eq!(again.prev_player(), Black);
    assert_eq!(again.next_player(), Red);
}

#[test]
fn token_lands_in_the_lowest_empty_cell_below_a_floating_one() {
    let mut cells = [Empty; 42];
    cells[2 * 7 + 4] = Black;
    let state = CFGameState::from_cells(cells, Red, Black);
    assert_eq!(state.drop_row(4), 5);
    let next = state.apply_move(CFMove { color: Red, col: 4 });
    assert_eq!(next.pos(4, 5), Red);
    assert_eq!(next.pos(4, 2), Black);
    assert_eq!(next.pos(4, 1), Empty);
}

#[test]
fn all_moves_on_an_empty_board() {
    let state = CFGameState::new(Red, Black);
    let moves = state.all_moves();
    let expected: Vec<CFMove> = (0..7).map(|col| CFMove { color: Black, col }).collect();
    assert_eq!(moves, expected);
}

#[test]
fn all_moves_skips_full_columns_and_stays_ascending() {
    let mut state = CFGameState::new(Black, Red);
    let mut color = Red;
    for col in [1, 5] {
        for _ in 0..6 {
            state = state.apply_move(CFMove { color, col });
            color = if color == Red { Black } else { Red };
        }
    }
    let cols: Vec<usize> = state.all_moves().iter().map(|m| m.col).collect();
    assert_eq!(cols, vec![0, 2, 3, 4, 6]);
    for mv in state.all_moves() {
        assert_eq!(mv.color, state.next_player());
        assert!(state.is_open(mv.col));
    }
}

#[test]
fn all_moves_is_empty_exactly_on_a_full_board() {
    let mut state = CFGameState::new(Red, Black);
    let mut color = Red;
    let mut placed = 0;
    for col in 0..7 {
        for _ in 0..6 {
            assert!(!state.all_moves().is_empty());
            state = state.apply_move(CFMove { color, col });
            placed += 1;
            color = if color == Red { Black } else { Red };
            assert!(has_gravity(&state));
        }
    }
    assert_eq!(placed, 42);
    assert_eq!(count_tokens(&state), 42);
    assert!(state.all_moves().is_empty());
}

#[test]
fn terminal_is_win_compares_with_the_last_mover() {
    let state = CFGameState::new(Red, Black);
    assert!(state.terminal_is_win(&Red));
    assert!(!state.terminal_is_win(&Black));
    assert!(!state.terminal_is_win(&Empty));
    let next = state.apply_move(CFMove { color: Black, col: 0 });
    assert!(next.terminal_is_win(&Black));
    assert!(!next.terminal_is_win(&Red));
}

#[test]
fn positions_compare_by_value() {
    assert_eq!(Position::Red, Red);
    assert_ne!(Red, Black);
    assert_ne!(Black, Empty);
    assert_eq!(CFMove { color: Red, col: 2 }, CFMove { color: Red, col: 2 });
    assert_ne!(CFMove { color: Red, col: 2 }, CFMove { color: Red, col: 3 });
}
