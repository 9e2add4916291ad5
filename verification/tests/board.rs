use tictactoe::board::{apply, detect, Board, Cell, Outcome, Player, Rejected};

fn place(board: Board, index: usize, mover: Player) -> Board {
    match apply(&board, index, mover) {
        Ok(next) => next,
        Err(Rejected) => panic!("move unexpectedly rejected"),
    }
}

#[test]
fn detect_empty_board_in_progress() {
    let board = Board::new();
    assert_eq!(detect(&board), Outcome::InProgress);
}

#[test]
fn detect_every_winning_line_for_x() {
    let lines: [[usize; 3]; 8] = [
        [0, 1, 2],
        [3, 4, 5],
        [6, 7, 8],
        [0, 3, 6],
        [1, 4, 7],
        [2, 5, 8],
        [0, 4, 8],
        [2, 4, 6],
    ];
    for line in lines.iter() {
        let mut board = Board::new();
        for &index in line.iter() {
            board = place(board, index, Player::X);
        }
        assert_eq!(detect(&board), Outcome::Win(Player::X));
    }
}

#[test]
fn detect_every_winning_line_for_o() {
    let lines: [[usize; 3]; 8] = [
        [0, 1, 2],
        [3, 4, 5],
        [6, 7, 8],
        [0, 3, 6],
        [1, 4, 7],
        [2, 5, 8],
        [0, 4, 8],
        [2, 4, 6],
    ];
    for line in lines.iter() {
        let mut board = Board::new();
        for &index in line.iter() {
            board = place(board, index, Player::O);
        }
        assert_eq!(detect(&board), Outcome::Win(Player::O));
    }
}

#[test]
fn detect_full_board_without_line_in_progress() {
    // X X O
    // O O X
    // X X O
    let marks: [(usize, Player); 9] = [
        (0, Player::X),
        (1, Player::X),
        (2, Player::O),
        (3, Player::O),
        (4, Player::O),
        (5, Player::X),
        (6, Player::X),
        (7, Player::X),
        (8, Player::O),
    ];
    let mut board = Board::new();
    for &(index, mover) in marks.iter() {
        board = place(board, index, mover);
    }
    for i in 0..9usize {
        assert_ne!(board.get(i), Cell::Empty);
    }
    assert_eq!(detect(&board), Outcome::InProgress);
}

#[test]
fn apply_sets_exactly_one_cell_and_leaves_input_alone() {
    let board = Board::new();
    let next = match apply(&board, 4, Player::X) {
        Ok(next) => next,
        Err(Rejected) => panic!("move on an empty board was rejected"),
    };
    for i in 0..9usize {
        if i == 4 {
            assert_eq!(next.get(i), Cell::Mark(Player::X));
        } else {
            assert_eq!(next.get(i), Cell::Empty);
        }
        // The input snapshot is untouched.
        assert_eq!(board.get(i), Cell::Empty);
    }
}

#[test]
fn apply_rejects_occupied_cell() {
    let board = place(Board::new(), 4, Player::X);
    assert_eq!(apply(&board, 4, Player::O), Err(Rejected));
    assert_eq!(apply(&board, 4, Player::X), Err(Rejected));
}

#[test]
fn apply_rejects_once_game_is_won() {
    let mut board = Board::new();
    for &index in [0usize, 1, 2].iter() {
        board = place(board, index, Player::X);
    }
    assert_eq!(detect(&board), Outcome::Win(Player::X));
    assert_eq!(apply(&board, 8, Player::O), Err(Rejected));
}

#[test]
fn apply_rejection_is_idempotent() {
    let board = place(Board::new(), 0, Player::O);
    assert_eq!(apply(&board, 0, Player::X), Err(Rejected));
    assert_eq!(apply(&board, 0, Player::X), Err(Rejected));
    // The board is exactly as it was after the one accepted move.
    assert_eq!(board.get(0), Cell::Mark(Player::O));
    for i in 1..9usize {
        assert_eq!(board.get(i), Cell::Empty);
    }
}

#[test]
fn cell_and_player_text() {
    assert_eq!(Cell::Empty.text(), "");
    assert_eq!(Cell::Mark(Player::X).text(), "X");
    assert_eq!(Cell::Mark(Player::O).text(), "O");
    assert_eq!(Player::X.text(), "X");
    assert_eq!(Player::O.text(), "O");
}
