//! The game state machine: a history of board snapshots with a cursor for
//! time travel, move application with branch-by-overwrite, and the read
//! models the rendering layer shows (current board, status line, history
//! labels).

use vstd::prelude::*;
use vstd::string::StringExecFns;
use crate::board::{accepts, apply, detect, empty_board, spec_detect, Board, Cell, Outcome, Player};
use crate::text::{decimal, decimal_string};

verus! {

/// The whole state of a game, as contracts speak of it: the snapshots taken
/// so far and the step currently displayed.
#[verifier::ext_equal]
pub struct GameView {
    /// Snapshot `k` is the board after `k` plies.
    pub history: Seq<Seq<Cell>>,
    /// The index of the displayed snapshot.
    pub cursor: int,
}

/// One accepted ply: the next snapshot equals the previous one except that a
/// single empty cell now carries a mark.
pub open spec fn ply_step(prev: Seq<Cell>, next: Seq<Cell>) -> bool {
    &&& prev.len() == 9
    &&& next.len() == 9
    &&& exists|i: int, p: Player|
        0 <= i < 9 && prev[i] == Cell::Empty && next == prev.update(i, Cell::Mark(p))
}

impl GameView {
    /// The invariant every reachable state satisfies: at least one snapshot,
    /// the cursor in range, the empty board first, every snapshot nine cells
    /// long and one ply after the snapshot before it.
    pub open spec fn wf(self) -> bool {
        &&& self.history.len() >= 1
        &&& 0 <= self.cursor < self.history.len()
        &&& self.history[0] == empty_board()
        &&& forall|k: int| 0 <= k < self.history.len() ==> (#[trigger] self.history[k]).len() == 9
        &&& forall|k: int|
            1 <= k < self.history.len() ==> #[trigger] ply_step(
                self.history[k - 1],
                self.history[k],
            )
    }
}

/// The state every game starts in: one snapshot, the empty board, cursor 0.
pub open spec fn initial() -> GameView {
    GameView { history: seq![empty_board()], cursor: 0 }
}

/// What `make_move` does to the state: if the displayed board accepts a move
/// at `index`, the history up to the cursor is kept, everything beyond it is
/// discarded, the new snapshot is appended and the cursor advances; a
/// rejected move changes nothing. The mover is derived from cursor parity:
/// X at even steps, O at odd ones.
pub open spec fn spec_make_move(s: GameView, index: int) -> GameView
    recommends
        s.wf(),
        0 <= index < 9,
{
    let board = s.history[s.cursor];
    if accepts(board, index) {
        GameView {
            history: s.history.subrange(0, s.cursor + 1).push(
                board.update(index, Cell::Mark(Player::spec_of_parity(s.cursor))),
            ),
            cursor: s.cursor + 1,
        }
    } else {
        s
    }
}

/// What `jump_to` does to the state: it moves the cursor and leaves every
/// snapshot as it was.
pub open spec fn spec_jump_to(s: GameView, step: int) -> GameView
    recommends
        s.wf(),
        0 <= step < s.history.len(),
{
    GameView { history: s.history, cursor: step }
}

/// The status line for a state: the winner when the displayed board has
/// one, and otherwise whoever moves next, derived from cursor parity.
pub open spec fn spec_status(s: GameView) -> Seq<char>
    recommends
        s.wf(),
{
    match spec_detect(s.history[s.cursor]) {
        Outcome::Win(p) => "Winner: "@ + p.spec_text(),
        Outcome::InProgress => "Next player: "@ + Player::spec_of_parity(s.cursor).spec_text(),
    }
}

/// The label of history entry `step`.
pub open spec fn spec_label(step: int) -> Seq<char>
    recommends
        step >= 0,
{
    if step == 0 {
        "Go to game start"@
    } else {
        "Go to move #"@ + decimal(step as nat)
    }
}

/// A running game. The displayed board is always `history[cursor]`; whose
/// turn it is is never stored, only derived from the cursor's parity.
pub struct Game {
    history: Vec<Board>,
    cursor: usize,
}

impl View for Game {
    type V = GameView;

    closed spec fn view(&self) -> GameView {
        GameView {
            history: self.history@.map_values(|b: Board| b@),
            cursor: self.cursor as int,
        }
    }
}

impl Game {
    /// A fresh game: one snapshot, the empty board, cursor 0.
    pub fn new() -> (g: Game)
        ensures
            g@ == initial(),
            g@.wf(),
    {
        let mut history: Vec<Board> = Vec::new();
        history.push(Board::new());
        let g = Game { history, cursor: 0 };
        proof {
            assert(g@.history =~= initial().history);
            assert(g@ =~~= initial());
        }
        g
    }

    /// How many snapshots the history holds.
    pub fn history_len(&self) -> (n: usize)
        ensures
            n == self@.history.len(),
    {
        self.history.len()
    }

    /// The step currently displayed.
    pub fn cursor(&self) -> (c: usize)
        ensures
            c == self@.cursor,
    {
        self.cursor
    }

    /// Whether X moves next, derived from the cursor's parity.
    pub fn x_is_next(&self) -> (r: bool)
        ensures
            r == (Player::spec_of_parity(self@.cursor) == Player::X),
    {
        self.cursor % 2 == 0
    }

    /// The displayed snapshot, `history[cursor]`.
    pub fn current_board(&self) -> (b: &Board)
        requires
            self@.wf(),
        ensures
            b@ == self@.history[self@.cursor],
            b.wf(),
    {
        &self.history[self.cursor]
    }

    /// Try to move at `index` on the displayed board. An accepted move
    /// discards every snapshot beyond the cursor, appends the new one and
    /// advances the cursor; a rejected move — occupied cell, or a board
    /// that already has a winner — changes nothing.
    pub fn make_move(&mut self, index: usize)
        requires
            old(self)@.wf(),
            index < 9,
        ensures
            final(self)@ == spec_make_move(old(self)@, index as int),
            final(self)@.wf(),
    {
        proof {
            lemma_make_move_preserves_wf(old(self)@, index as int);
        }
        let mover = if self.cursor % 2 == 0 {
            Player::X
        } else {
            Player::O
        };
        let cursor = self.cursor;
        // The cursor sits strictly below the stored length, so advancing it
        // by one cannot overflow.
        let len = self.history.len();
        proof {
            assert(cursor < len);
        }
        let outcome = apply(&self.history[cursor], index, mover);
        match outcome {
            Err(_) => {
                proof {
                    assert(self@ =~~= spec_make_move(old(self)@, index as int));
                }
            },
            Ok(next) => {
                let ghost snapshot = next;
                self.history.truncate(cursor + 1);
                self.history.push(next);
                self.cursor = cursor + 1;
                proof {
                    lemma_map_views_subrange_push(old(self).history@, cursor as int, snapshot);
                    assert(self@ =~~= spec_make_move(old(self)@, index as int));
                }
            },
        }
    }

    /// Move the cursor to `step`. No snapshot changes; time travel through a
    /// finished game is allowed.
    pub fn jump_to(&mut self, step: usize)
        requires
            old(self)@.wf(),
            step < old(self)@.history.len(),
        ensures
            final(self)@ == spec_jump_to(old(self)@, step as int),
            final(self)@.wf(),
    {
        self.cursor = step;
        proof {
            assert(self@ =~~= spec_jump_to(old(self)@, step as int));
        }
    }

    /// The status line: "Winner: X" or "Winner: O" when the displayed board
    /// has a winner, else "Next player: X" or "Next player: O" by cursor
    /// parity.
    pub fn status_text(&self) -> (s: String)
        requires
            self@.wf(),
        ensures
            s@ == spec_status(self@),
    {
        let board = self.current_board();
        match detect(board) {
            Outcome::Win(p) => {
                let mut s = String::from_str("Winner: ");
                s.append(p.text());
                s
            },
            Outcome::InProgress => {
                let next = if self.cursor % 2 == 0 {
                    Player::X
                } else {
                    Player::O
                };
                let mut s = String::from_str("Next player: ");
                s.append(next.text());
                s
            },
        }
    }

    /// One `(step, label)` pair per snapshot: "Go to game start" for step 0,
    /// "Go to move #k" for step k > 0.
    pub fn history_labels(&self) -> (r: Vec<(usize, String)>)
        requires
            self@.wf(),
        ensures
            r@.len() == self@.history.len(),
            forall|k: int|
                0 <= k < r@.len() ==> (#[trigger] r@[k]).0 == k && r@[k].1@ == spec_label(k),
    {
        let mut r: Vec<(usize, String)> = Vec::new();
        let n = self.history.len();
        let mut k: usize = 0;
        while k < n
            invariant
                n == self@.history.len(),
                k <= n,
                r@.len() == k,
                forall|j: int|
                    0 <= j < k ==> (#[trigger] r@[j]).0 == j && r@[j].1@ == spec_label(j),
            decreases n - k,
        {
            let label = if k == 0 {
                String::from_str("Go to game start")
            } else {
                let number = decimal_string(k);
                let mut s = String::from_str("Go to move #");
                s.append(number.as_str());
                s
            };
            r.push((k, label));
            k = k + 1;
        }
        r
    }
}

/// Keeping a prefix of the snapshots and appending one more commutes with
/// taking their views.
proof fn lemma_map_views_subrange_push(h: Seq<Board>, c: int, b: Board)
    requires
        0 <= c + 1 <= h.len(),
    ensures
        h.subrange(0, c + 1).push(b).map_values(|x: Board| x@) == h.map_values(
            |x: Board| x@,
        ).subrange(0, c + 1).push(b@),
{
    assert(h.subrange(0, c + 1).push(b).map_values(|x: Board| x@) =~= h.map_values(
        |x: Board| x@,
    ).subrange(0, c + 1).push(b@));
}

/// An accepted move keeps the invariant: the new snapshot is nine cells, one
/// ply after the board it was played on, and the empty board stays first.
/// A rejected move keeps the state, so the invariant too. Together with
/// `lemma_jump_to_preserves_wf` this carries the invariant through any
/// sequence of moves and jumps.
pub proof fn lemma_make_move_preserves_wf(s: GameView, index: int)
    requires
        s.wf(),
        0 <= index < 9,
    ensures
        spec_make_move(s, index).wf(),
{
    let board = s.history[s.cursor];
    if accepts(board, index) {
        let mover = Player::spec_of_parity(s.cursor);
        let next = board.update(index, Cell::Mark(mover));
        let t = spec_make_move(s, index);
        assert(t.history[t.cursor] == next);
        assert(ply_step(board, next)) by {
            assert(board[index] == Cell::Empty && next == board.update(
                index,
                Cell::Mark(mover),
            ));
        }
        assert forall|k: int| 1 <= k < t.history.len() implies ply_step(
            t.history[k - 1],
            #[trigger] t.history[k],
        ) by {
            if k < t.history.len() - 1 {
                assert(t.history[k - 1] == s.history[k - 1]);
                assert(t.history[k] == s.history[k]);
            } else {
                assert(t.history[k - 1] == board);
            }
        }
    }
}

/// Moving the cursor to any valid step keeps the invariant: the snapshots do
/// not change at all.
pub proof fn lemma_jump_to_preserves_wf(s: GameView, step: int)
    requires
        s.wf(),
        0 <= step < s.history.len(),
    ensures
        spec_jump_to(s, step).wf(),
{
}

/// A rejected move is idempotent: it changes nothing, so making the same
/// rejected move twice leaves the state exactly as it was before either
/// call, and the second call is rejected for the same reason as the first.
pub proof fn lemma_rejection_idempotent(s: GameView, index: int)
    requires
        s.wf(),
        0 <= index < 9,
        !accepts(s.history[s.cursor], index),
    ensures
        spec_make_move(s, index) == s,
        spec_make_move(spec_make_move(s, index), index) == s,
{
}

/// The empty board has no completed line, so the game on it is in progress.
pub proof fn lemma_empty_board_in_progress()
    ensures
        spec_detect(empty_board()) == Outcome::InProgress,
{
    assert(empty_board()[0] == Cell::Empty);
    assert(empty_board()[3] == Cell::Empty);
    assert(empty_board()[6] == Cell::Empty);
    assert(empty_board()[1] == Cell::Empty);
    assert(empty_board()[2] == Cell::Empty);
}

/// Jumping to step 0, whatever happened before, displays the all-empty board
/// and the status line "Next player: X".
pub proof fn lemma_jump_to_start(s: GameView)
    requires
        s.wf(),
    ensures
        spec_jump_to(s, 0).wf(),
        spec_jump_to(s, 0).history[spec_jump_to(s, 0).cursor] == empty_board(),
        spec_status(spec_jump_to(s, 0)) == "Next player: X"@,
{
    lemma_empty_board_in_progress();
    reveal_strlit("Next player: ");
    reveal_strlit("X");
    reveal_strlit("Next player: X");
    assert("Next player: "@ + Player::X.spec_text() =~= "Next player: X"@);
}

} // verus!
