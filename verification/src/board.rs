//! The board: nine cells in row-major order, win detection over the eight
//! fixed lines, and the pure move applier.

use vstd::prelude::*;

verus! {

/// One of the two players.
#[derive(Clone, Copy, PartialEq, Eq, Structural, Debug)]
pub enum Player {
    X,
    O,
}

/// A single cell of the board: empty, or marked by a player.
#[derive(Clone, Copy, PartialEq, Eq, Structural, Debug)]
pub enum Cell {
    Empty,
    Mark(Player),
}

/// What win detection reports for a board. There is no draw variant: a full
/// board without a completed line still counts as in progress.
#[derive(Clone, Copy, PartialEq, Eq, Structural, Debug)]
pub enum Outcome {
    InProgress,
    Win(Player),
}

/// The one error of the core: a move on an occupied cell, or on a board that
/// already has a winner. The caller drops the request; nothing else happens.
#[derive(Clone, Copy, PartialEq, Eq, Structural, Debug)]
pub struct Rejected;

impl Player {
    /// The opponent of `self`.
    pub open spec fn spec_other(self) -> Player {
        match self {
            Player::X => Player::O,
            Player::O => Player::X,
        }
    }

    /// The mark of whoever moves at an even step is X; at an odd step, O.
    pub open spec fn spec_of_parity(step: int) -> Player {
        if step % 2 == 0 {
            Player::X
        } else {
            Player::O
        }
    }
}

/// A board snapshot: exactly nine cells, indexed 0 through 8 row by row.
#[derive(Debug, PartialEq, Eq)]
pub struct Board {
    cells: Vec<Cell>,
}

/// The board seen as a sequence of nine cells.
impl View for Board {
    type V = Seq<Cell>;

    closed spec fn view(&self) -> Seq<Cell> {
        self.cells@
    }
}

/// The board that every game starts from: nine empty cells.
pub open spec fn empty_board() -> Seq<Cell> {
    Seq::new(9, |i: int| Cell::Empty)
}

impl Board {
    /// A board is well formed when it holds exactly nine cells.
    pub open spec fn wf(&self) -> bool {
        self@.len() == 9
    }

    /// The all-empty starting board.
    pub fn new() -> (b: Board)
        ensures
            b.wf(),
            b@ == empty_board(),
    {
        let mut cells: Vec<Cell> = Vec::new();
        let mut i: usize = 0;
        while i < 9
            invariant
                i <= 9,
                cells@.len() == i,
                forall|k: int| 0 <= k < i ==> cells@[k] == Cell::Empty,
            decreases 9 - i,
        {
            cells.push(Cell::Empty);
            i = i + 1;
        }
        proof {
            assert(cells@ =~= empty_board());
        }
        Board { cells }
    }

    /// Read one cell.
    pub fn get(&self, i: usize) -> (c: Cell)
        requires
            self.wf(),
            i < 9,
        ensures
            c == self@[i as int],
    {
        self.cells[i]
    }
}

/// The mark that owns the line `(a, b, c)`: the shared mark when all three
/// cells carry the same one, and `Empty` otherwise.
pub open spec fn line_mark(board: Seq<Cell>, a: int, b: int, c: int) -> Cell
    recommends
        board.len() == 9,
        0 <= a < 9,
        0 <= b < 9,
        0 <= c < 9,
{
    if board[a] != Cell::Empty && board[a] == board[b] && board[b] == board[c] {
        board[a]
    } else {
        Cell::Empty
    }
}

/// Player `p` has completed at least one of the eight winning lines:
/// three rows, three columns, two diagonals.
pub open spec fn wins(board: Seq<Cell>, p: Player) -> bool
    recommends
        board.len() == 9,
{
    ||| line_mark(board, 0, 1, 2) == Cell::Mark(p)
    ||| line_mark(board, 3, 4, 5) == Cell::Mark(p)
    ||| line_mark(board, 6, 7, 8) == Cell::Mark(p)
    ||| line_mark(board, 0, 3, 6) == Cell::Mark(p)
    ||| line_mark(board, 1, 4, 7) == Cell::Mark(p)
    ||| line_mark(board, 2, 5, 8) == Cell::Mark(p)
    ||| line_mark(board, 0, 4, 8) == Cell::Mark(p)
    ||| line_mark(board, 2, 4, 6) == Cell::Mark(p)
}

/// The mark of the first completed line, in the fixed evaluation order:
/// rows top to bottom, then columns left to right, then the two diagonals.
/// `Empty` when no line is completed. The order matters only for boards no
/// legal game reaches, where both players could hold a line.
pub open spec fn first_line_mark(board: Seq<Cell>) -> Cell
    recommends
        board.len() == 9,
{
    if line_mark(board, 0, 1, 2) != Cell::Empty {
        line_mark(board, 0, 1, 2)
    } else if line_mark(board, 3, 4, 5) != Cell::Empty {
        line_mark(board, 3, 4, 5)
    } else if line_mark(board, 6, 7, 8) != Cell::Empty {
        line_mark(board, 6, 7, 8)
    } else if line_mark(board, 0, 3, 6) != Cell::Empty {
        line_mark(board, 0, 3, 6)
    } else if line_mark(board, 1, 4, 7) != Cell::Empty {
        line_mark(board, 1, 4, 7)
    } else if line_mark(board, 2, 5, 8) != Cell::Empty {
        line_mark(board, 2, 5, 8)
    } else if line_mark(board, 0, 4, 8) != Cell::Empty {
        line_mark(board, 0, 4, 8)
    } else if line_mark(board, 2, 4, 6) != Cell::Empty {
        line_mark(board, 2, 4, 6)
    } else {
        Cell::Empty
    }
}

/// What `detect` returns on `board`.
pub open spec fn spec_detect(board: Seq<Cell>) -> Outcome
    recommends
        board.len() == 9,
{
    match first_line_mark(board) {
        Cell::Empty => Outcome::InProgress,
        Cell::Mark(p) => Outcome::Win(p),
    }
}

/// Win detection reports a winner exactly when some line is completed, and
/// never credits a player with a line they do not hold.
pub proof fn lemma_detect_characterises_wins(board: Seq<Cell>)
    requires
        board.len() == 9,
    ensures
        spec_detect(board) == Outcome::InProgress <==> !wins(board, Player::X) && !wins(
            board,
            Player::O,
        ),
        forall|p: Player| spec_detect(board) == Outcome::Win(p) ==> wins(board, p),
{
}

/// A player who holds no cell at all has not completed any line. On a board
/// where one player's marks alone were placed, only that player can win.
pub proof fn lemma_no_marks_no_win(board: Seq<Cell>, p: Player)
    requires
        board.len() == 9,
        forall|i: int| 0 <= i < 9 ==> board[i] != Cell::Mark(p),
    ensures
        !wins(board, p),
{
}

/// When one player has completed a line and the other has not, detection
/// reports that player's win, whichever of the eight lines it is.
pub proof fn lemma_single_winner_detected(board: Seq<Cell>, p: Player)
    requires
        board.len() == 9,
        wins(board, p),
        !wins(board, p.spec_other()),
    ensures
        spec_detect(board) == Outcome::Win(p),
{
    let q = p.spec_other();
    assert(first_line_mark(board) != Cell::Mark(q));
    assert(first_line_mark(board) != Cell::Empty);
}

/// Whether a line is completed, and by whom: the executable side of
/// `line_mark`.
fn line_winner(board: &Board, a: usize, b: usize, c: usize) -> (r: Cell)
    requires
        board.wf(),
        a < 9,
        b < 9,
        c < 9,
    ensures
        r == line_mark(board@, a as int, b as int, c as int),
{
    let ca = board.get(a);
    let cb = board.get(b);
    let cc = board.get(c);
    match ca {
        Cell::Empty => Cell::Empty,
        Cell::Mark(_) => if ca == cb && cb == cc {
            ca
        } else {
            Cell::Empty
        },
    }
}

/// Win detection: walk the eight lines in the fixed order and report the
/// first completed one; a board without a completed line is in progress.
pub fn detect(board: &Board) -> (r: Outcome)
    requires
        board.wf(),
    ensures
        r == spec_detect(board@),
        r == Outcome::InProgress <==> !wins(board@, Player::X) && !wins(board@, Player::O),
        forall|p: Player| r == Outcome::Win(p) ==> wins(board@, p),
{
    proof {
        lemma_detect_characterises_wins(board@);
    }
    let mut mark = line_winner(board, 0, 1, 2);
    if matches!(mark, Cell::Empty) {
        mark = line_winner(board, 3, 4, 5);
    }
    if matches!(mark, Cell::Empty) {
        mark = line_winner(board, 6, 7, 8);
    }
    if matches!(mark, Cell::Empty) {
        mark = line_winner(board, 0, 3, 6);
    }
    if matches!(mark, Cell::Empty) {
        mark = line_winner(board, 1, 4, 7);
    }
    if matches!(mark, Cell::Empty) {
        mark = line_winner(board, 2, 5, 8);
    }
    if matches!(mark, Cell::Empty) {
        mark = line_winner(board, 0, 4, 8);
    }
    if matches!(mark, Cell::Empty) {
        mark = line_winner(board, 2, 4, 6);
    }
    match mark {
        Cell::Empty => Outcome::InProgress,
        Cell::Mark(p) => Outcome::Win(p),
    }
}

/// A move of `mover` at `index` is accepted exactly when the game is still in
/// progress and the cell is free.
pub open spec fn accepts(board: Seq<Cell>, index: int) -> bool
    recommends
        board.len() == 9,
        0 <= index < 9,
{
    board[index] == Cell::Empty && spec_detect(board) == Outcome::InProgress
}

/// The pure move applier. It never touches `board`: on success it returns a
/// fresh snapshot equal to `board` except that `index` now carries the
/// mover's mark; it rejects exactly when the cell is occupied or the board
/// already has a winner.
pub fn apply(board: &Board, index: usize, mover: Player) -> (r: Result<Board, Rejected>)
    requires
        board.wf(),
        index < 9,
    ensures
        r is Ok <==> accepts(board@, index as int),
        r matches Ok(b) ==> b.wf() && b@ == board@.update(index as int, Cell::Mark(mover)),
{
    match detect(board) {
        Outcome::Win(_) => Err(Rejected),
        Outcome::InProgress => {
            match board.get(index) {
                Cell::Mark(_) => Err(Rejected),
                Cell::Empty => {
                    let mut cells: Vec<Cell> = Vec::new();
                    let mut i: usize = 0;
                    while i < 9
                        invariant
                            board.wf(),
                            index < 9,
                            i <= 9,
                            cells@.len() == i,
                            forall|k: int|
                                0 <= k < i ==> cells@[k] == board@.update(
                                    index as int,
                                    Cell::Mark(mover),
                                )[k],
                        decreases 9 - i,
                    {
                        if i == index {
                            cells.push(Cell::Mark(mover));
                        } else {
                            cells.push(board.get(i));
                        }
                        i = i + 1;
                    }
                    proof {
                        assert(cells@ =~= board@.update(index as int, Cell::Mark(mover)));
                    }
                    Ok(Board { cells })
                },
            }
        },
    }
}

} // verus!
