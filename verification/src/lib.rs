//! Verified core of a tic-tac-toe game: a nine-cell board, win detection
//! over the eight fixed lines, a pure move applier, and a move history with
//! time travel. A rendering layer drives it through `game::Game` and reads
//! the board, the status line and the history labels back out.

pub mod board;
pub mod game;
pub mod text;
