use tictactoe::board::{detect, Cell, Outcome, Player};
use tictactoe::game::Game;

fn board_cells(game: &Game) -> Vec<Cell> {
    let board = game.current_board();
    let mut cells: Vec<Cell> = Vec::new();
    for i in 0..9usize {
        cells.push(board.get(i));
    }
    cells
}

#[test]
fn new_game_starts_empty_with_x_to_move() {
    let game = Game::new();
    assert_eq!(game.history_len(), 1);
    assert_eq!(game.cursor(), 0);
    assert!(game.x_is_next());
    for cell in board_cells(&game) {
        assert_eq!(cell, Cell::Empty);
    }
    assert_eq!(game.status_text(), "Next player: X");
}

#[test]
fn moves_alternate_marks_by_cursor_parity() {
    let mut game = Game::new();
    game.make_move(0);
    assert!(!game.x_is_next());
    assert_eq!(board_cells(&game)[0], Cell::Mark(Player::X));
    game.make_move(4);
    assert!(game.x_is_next());
    assert_eq!(board_cells(&game)[4], Cell::Mark(Player::O));
    assert_eq!(game.history_len(), 3);
    assert_eq!(game.cursor(), 2);
}

#[test]
fn history_invariant_holds_through_moves_and_jumps() {
    let mut game = Game::new();
    let moves: [usize; 4] = [0, 4, 1, 3];
    for &index in moves.iter() {
        game.make_move(index);
        assert!(game.cursor() < game.history_len());
    }
    game.jump_to(1);
    assert!(game.cursor() < game.history_len());
    // After time travel the cursor need not sit at the end of the history.
    assert_ne!(game.cursor(), game.history_len() - 1);
    game.make_move(8);
    assert!(game.cursor() < game.history_len());
    // Entry 0 is still the empty board.
    game.jump_to(0);
    for cell in board_cells(&game) {
        assert_eq!(cell, Cell::Empty);
    }
}

#[test]
fn branch_truncation_discards_redone_future() {
    let mut game = Game::new();
    for &index in [0usize, 4, 1, 3].iter() {
        game.make_move(index);
    }
    assert_eq!(game.history_len(), 5);
    assert_eq!(game.cursor(), 4);
    game.jump_to(2);
    game.make_move(8);
    assert_eq!(game.history_len(), 4);
    assert_eq!(game.cursor(), 3);
    assert_eq!(board_cells(&game)[8], Cell::Mark(Player::X));
}

#[test]
fn rejected_move_changes_nothing() {
    let mut game = Game::new();
    game.make_move(0);
    let before = board_cells(&game);
    game.make_move(0);
    game.make_move(0);
    assert_eq!(game.history_len(), 2);
    assert_eq!(game.cursor(), 1);
    assert_eq!(board_cells(&game), before);
}

#[test]
fn end_to_end_x_wins_top_row() {
    let mut game = Game::new();
    for &index in [0usize, 4, 1, 3, 2].iter() {
        game.make_move(index);
    }
    assert_eq!(detect(game.current_board()), Outcome::Win(Player::X));
    assert_eq!(game.status_text(), "Winner: X");
    let before = board_cells(&game);
    game.make_move(5);
    assert_eq!(game.history_len(), 6);
    assert_eq!(game.cursor(), 5);
    assert_eq!(board_cells(&game), before);
    assert_eq!(board_cells(&game)[5], Cell::Empty);
}

#[test]
fn o_can_win_too() {
    let mut game = Game::new();
    for &index in [1usize, 0, 2, 4, 5, 8].iter() {
        game.make_move(index);
    }
    assert_eq!(detect(game.current_board()), Outcome::Win(Player::O));
    assert_eq!(game.status_text(), "Winner: O");
}

#[test]
fn jump_to_zero_resets_view_to_game_start() {
    let mut game = Game::new();
    for &index in [0usize, 4, 1, 3, 2].iter() {
        game.make_move(index);
    }
    assert_eq!(game.status_text(), "Winner: X");
    game.jump_to(0);
    for cell in board_cells(&game) {
        assert_eq!(cell, Cell::Empty);
    }
    assert_eq!(game.status_text(), "Next player: X");
    assert!(game.x_is_next());
    // Jumping moved only the cursor; the snapshots are all still there.
    assert_eq!(game.history_len(), 6);
}

#[test]
fn time_travel_through_finished_game_is_allowed() {
    let mut game = Game::new();
    for &index in [0usize, 4, 1, 3, 2].iter() {
        game.make_move(index);
    }
    game.jump_to(3);
    assert_eq!(game.status_text(), "Next player: O");
    game.jump_to(5);
    assert_eq!(game.status_text(), "Winner: X");
}

#[test]
fn history_labels_list_every_step() {
    let mut game = Game::new();
    game.make_move(0);
    game.make_move(4);
    let labels = game.history_labels();
    assert_eq!(labels.len(), 3);
    assert_eq!(labels[0].0, 0);
    assert_eq!(labels[0].1, "Go to game start");
    assert_eq!(labels[1].0, 1);
    assert_eq!(labels[1].1, "Go to move #1");
    assert_eq!(labels[2].0, 2);
    assert_eq!(labels[2].1, "Go to move #2");
}
