//! The game as it is played: a board that takes moves one at a time.

use vstd::prelude::*;
use crate::grid::{grid_text, render};
use crate::rules::{first_owner, win_of, Game, MoveError, Outcome};
use crate::state::State;
use crate::theorems::{fresh_game_is_well_formed, move_keeps_well_formed, well_formed_counts};

verus! {

/// A game of noughts and crosses. It is made fresh by [`TicTacToe::new`] and
/// changes only through [`TicTacToe::place_move`], so its state is always
/// one that play by the rules can reach: see [`Game::wf`]. The game does
/// not stop by itself once it is won: as long as a square is open it takes
/// a move, and it is for the caller to ask [`TicTacToe::game_over`] after
/// each move.
pub struct TicTacToe {
    board: [State; 9],
    turn: State,
    turns_played: u8,
}

impl View for TicTacToe {
    type V = Game;

    closed spec fn view(&self) -> Game {
        Game { cells: self.board@, turn: self.turn, turns_played: self.turns_played as nat }
    }
}

impl TicTacToe {
    #[verifier::type_invariant]
    spec fn inv(self) -> bool {
        self@.wf()
    }

    /// A game before the first move: every square open, the first player to
    /// move.
    pub fn new() -> (game: TicTacToe)
        ensures
            game@ == Game::fresh(),
            game@.wf(),
    {
        let board = [State::Open;9];
        proof {
            assert(board@ =~= Game::fresh().cells);
            fresh_game_is_well_formed();
        }
        TicTacToe { board, turn: State::Player1, turns_played: 0 }
    }

    /// Places the mark of the player to move at (`row`, `col`), both counted
    /// from 0. A row or column beyond 2, or a square that already holds a
    /// mark, is turned down, and the game stays as it was.
    pub fn place_move(&mut self, row: u8, col: u8) -> (res: Result<(), MoveError>)
        ensures
            res == old(self)@.check_move(row, col),
            final(self)@ == old(self)@.after_move(row, col),
            final(self)@.wf(),
    {
        proof {
            use_type_invariant(&*self);
        }
        if row > 2 {
            return Err(MoveError::InvalidRow);
        }
        if col > 2 {
            return Err(MoveError::InvalidCol);
        }
        let index: usize = (row * 3 + col) as usize;
        if self.board[index] != State::Open {
            return Err(MoveError::CellOccupied { row, col });
        }
        let mut board = self.board;
        board[index] = self.turn;
        let turn = match self.turn {
            State::Player1 => State::Player2,
            State::Player2 => State::Player1,
            State::Open => State::Player1,
        };
        proof {
            assert(board@ =~= self@.cells.update(index as int, self.turn));
            move_keeps_well_formed(self@, row, col);
            well_formed_counts(self@.after_move(row, col));
        }
        *self = TicTacToe { board, turn, turns_played: self.turns_played + 1 };
        Ok(())
    }

    /// Says how the game has ended, or `None` while it is still going on.
    ///
    /// A board with nine marks is a draw, whether or not the ninth mark has
    /// completed a line. On any other board the lines are examined in the
    /// order row 0, column 0, row 1, column 1, row 2, column 2, the diagonal
    /// from the top left, the diagonal from the top right, and the player
    /// whose mark fills the first complete line has won. The mark is read
    /// from a square of that line itself.
    pub fn game_over(&self) -> (res: Option<Outcome>)
        ensures
            res == self@.outcome(),
    {
        if self.turns_played == 9 {
            return Some(Outcome::Draw);
        }
        let b = &self.board;
        let mut i: usize = 0;
        while i < 3
            invariant
                i <= 3,
                b@ == self@.cells,
                self@.turns_played != 9,
                first_owner(self@.cells, 0) == first_owner(self@.cells, 2 * i),
            decreases 3 - i,
        {
            if b[i * 3] != State::Open && b[i * 3] == b[i * 3 + 1] && b[i * 3 + 1] == b[i * 3 + 2] {
                return won_by(b[i * 3]);
            }
            assert(first_owner(b@, 2 * i) == first_owner(b@, 2 * i + 1));
            if b[i] != State::Open && b[i] == b[3 + i] && b[3 + i] == b[6 + i] {
                return won_by(b[i]);
            }
            assert(first_owner(b@, 2 * i + 1) == first_owner(b@, 2 * i + 2));
            i += 1;
        }
        if b[0] != State::Open && b[0] == b[4] && b[4] == b[8] {
            return won_by(b[0]);
        }
        assert(first_owner(b@, 6) == first_owner(b@, 7));
        if b[2] != State::Open && b[2] == b[4] && b[4] == b[6] {
            return won_by(b[2]);
        }
        assert(first_owner(b@, 7) == first_owner(b@, 8));
        None
    }

    /// The nine squares, row by row.
    pub fn board(&self) -> (board: [State; 9])
        ensures
            board@ == self@.cells,
            self@.wf(),
    {
        proof {
            use_type_invariant(self);
        }
        self.board
    }

    /// The player to move.
    pub fn turn(&self) -> (turn: State)
        ensures
            turn == self@.turn,
            turn != State::Open,
            self@.wf(),
    {
        proof {
            use_type_invariant(self);
        }
        self.turn
    }

    /// The number of marks on the board.
    pub fn turns_played(&self) -> (n: u8)
        ensures
            n == self@.turns_played,
            n <= 9,
            self@.wf(),
    {
        proof {
            use_type_invariant(self);
            well_formed_counts(self@);
        }
        self.turns_played
    }

    /// The drawing of the board.
    pub fn render_board(&self) -> (text: String)
        ensures
            text@ == grid_text(self@.cells),
    {
        render(&self.board)
    }
}

/// The outcome that the owner of a line stands for.
fn won_by(owner: State) -> (res: Option<Outcome>)
    ensures
        res == win_of(owner),
{
    match owner {
        State::Player1 => Some(Outcome::Player1Wins),
        State::Player2 => Some(Outcome::Player2Wins),
        State::Open => None,
    }
}

} // verus!
