//! The rules of the game, stated over a mathematical model of its state.

use vstd::prelude::*;
use crate::state::State;

verus! {

/// Why a move was turned down.
#[derive(Copy, Clone, PartialEq, Eq, Structural, Debug)]
pub enum MoveError {
    /// The row is not 0, 1 or 2.
    InvalidRow,
    /// The column is not 0, 1 or 2.
    InvalidCol,
    /// The square at this row and column already holds a mark.
    CellOccupied { row: u8, col: u8 },
}

/// How a finished game ended.
#[derive(Copy, Clone, PartialEq, Eq, Structural, Debug)]
pub enum Outcome {
    Player1Wins,
    Player2Wins,
    Draw,
}

/// How many squares of `cells` hold `s`.
pub open spec fn count(cells: Seq<State>, s: State) -> nat
    decreases cells.len(),
{
    if cells.len() == 0 {
        0
    } else {
        count(cells.drop_last(), s) + if cells.last() == s { 1nat } else { 0nat }
    }
}

/// The place of the square at (`row`, `col`) among the nine, counted row by row.
pub open spec fn index_of(row: u8, col: u8) -> int {
    row * 3 + col
}

/// The three squares of line `k`, for `k` from 0 to 7. The lines are numbered
/// in the order in which they are examined: row 0, column 0, row 1,
/// column 1, row 2, column 2, the diagonal from the top left, the diagonal
/// from the top right.
pub open spec fn line(k: int) -> (int, int, int) {
    if k == 6 {
        (0, 4, 8)
    } else if k == 7 {
        (2, 4, 6)
    } else if k % 2 == 0 {
        (3 * (k / 2), 3 * (k / 2) + 1, 3 * (k / 2) + 2)
    } else {
        (k / 2, k / 2 + 3, k / 2 + 6)
    }
}

/// The player whose mark fills all three squares of line `k`, or `Open` if
/// no player fills it.
pub open spec fn owner(cells: Seq<State>, k: int) -> State {
    let (a, b, c) = line(k);
    if cells[a] == cells[b] && cells[b] == cells[c] {
        cells[a]
    } else {
        State::Open
    }
}

/// The owner of the first owned line among lines `k` to 7, or `Open` if none
/// of them is owned.
pub open spec fn first_owner(cells: Seq<State>, k: int) -> State
    decreases 8 - k,
{
    if k < 0 || k >= 8 {
        State::Open
    } else if owner(cells, k) != State::Open {
        owner(cells, k)
    } else {
        first_owner(cells, k + 1)
    }
}

/// What the owner of a line has achieved: a player has won, and `Open` owns
/// nothing.
pub open spec fn win_of(owner: State) -> Option<Outcome> {
    match owner {
        State::Player1 => Some(Outcome::Player1Wins),
        State::Player2 => Some(Outcome::Player2Wins),
        State::Open => None,
    }
}

/// The state of a game: nine squares row by row, the player to move, and the
/// number of marks placed so far.
pub struct Game {
    pub cells: Seq<State>,
    pub turn: State,
    pub turns_played: nat,
}

impl Game {
    /// The game before the first move.
    pub open spec fn fresh() -> Game {
        Game { cells: Seq::new(9, |i: int| State::Open), turn: State::Player1, turns_played: 0 }
    }

    /// What every game that is played by the rules satisfies: the board has
    /// nine squares, `turns_played` of them hold a mark, and the players
    /// have alternated with the first player beginning, so that the first
    /// player has as many marks as the second when it is the first player's
    /// turn and one more when it is the second player's.
    pub open spec fn wf(self) -> bool {
        &&& self.cells.len() == 9
        &&& self.turns_played == count(self.cells, State::Player1) + count(
            self.cells,
            State::Player2,
        )
        &&& self.turn != State::Open
        &&& count(self.cells, State::Player1) == count(self.cells, State::Player2) + (if self.turn
            == State::Player2 {
            1nat
        } else {
            0nat
        })
    }

    /// Whether a mark may be placed at (`row`, `col`), and if not, why not.
    /// The row is looked at first, then the column, then the square.
    pub open spec fn check_move(self, row: u8, col: u8) -> Result<(), MoveError> {
        if row > 2 {
            Err(MoveError::InvalidRow)
        } else if col > 2 {
            Err(MoveError::InvalidCol)
        } else if self.cells[index_of(row, col)] != State::Open {
            Err(MoveError::CellOccupied { row, col })
        } else {
            Ok(())
        }
    }

    /// The game after the player to move has asked for (`row`, `col`). An
    /// accepted move puts that player's mark on the square, counts the turn
    /// and hands the turn to the other player. A move that is turned down
    /// changes nothing.
    pub open spec fn after_move(self, row: u8, col: u8) -> Game {
        if self.check_move(row, col) is Ok {
            Game {
                cells: self.cells.update(index_of(row, col), self.turn),
                turn: self.turn.next(),
                turns_played: self.turns_played + 1,
            }
        } else {
            self
        }
    }

    /// The game that is reached from a fresh one by asking for `moves` one
    /// after the other, each given as (row, column). Moves that are turned
    /// down leave no trace.
    pub open spec fn replay(moves: Seq<(u8, u8)>) -> Game
        decreases moves.len(),
    {
        if moves.len() == 0 {
            Game::fresh()
        } else {
            Game::replay(moves.drop_last()).after_move(moves.last().0, moves.last().1)
        }
    }

    /// How the game has ended, or `None` while it is still going on. A board
    /// with nine marks is a draw whatever lines it holds. Otherwise the
    /// first owned line decides, and its owner has won.
    pub open spec fn outcome(self) -> Option<Outcome> {
        if self.turns_played == 9 {
            Some(Outcome::Draw)
        } else {
            win_of(first_owner(self.cells, 0))
        }
    }
}

/// Putting `s` on square `i` changes the count of `s` and of what the square
/// held before, and no other count.
pub proof fn lemma_count_update(cells: Seq<State>, i: int, s: State, t: State)
    requires
        0 <= i < cells.len(),
    ensures
        count(cells.update(i, s), t) + (if cells[i] == t { 1nat } else { 0nat }) == count(cells, t)
            + (if s == t { 1nat } else { 0nat }),
    decreases cells.len(),
{
    let updated = cells.update(i, s);
    if i == cells.len() - 1 {
        assert(updated.drop_last() =~= cells.drop_last());
    } else {
        assert(updated.drop_last() =~= cells.drop_last().update(i, s));
        lemma_count_update(cells.drop_last(), i, s, t);
    }
}

/// Every square is open or holds one player's mark, so the three counts add
/// up to the number of squares.
pub proof fn lemma_count_total(cells: Seq<State>)
    ensures
        count(cells, State::Player1) + count(cells, State::Player2) + count(cells, State::Open)
            == cells.len(),
    decreases cells.len(),
{
    if cells.len() > 0 {
        lemma_count_total(cells.drop_last());
    }
}

} // verus!
