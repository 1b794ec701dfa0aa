//! What a square holds, and who is to move.

use vstd::prelude::*;
use vstd::string::*;

verus! {

/// The content of one square. The two player variants also name the player
/// whose turn it is.
#[derive(Copy, Clone, PartialEq, Eq, Structural, Debug)]
pub enum State {
    Player1,
    Player2,
    Open,
}

impl State {
    /// The character that stands for this state on a drawn board.
    pub open spec fn mark(self) -> char {
        match self {
            State::Player1 => 'X',
            State::Player2 => 'O',
            State::Open => ' ',
        }
    }

    /// The player who moves after `self` has moved. An open square is no
    /// player; the first player is the one to follow it.
    pub open spec fn next(self) -> State {
        match self {
            State::Player1 => State::Player2,
            State::Player2 => State::Player1,
            State::Open => State::Player1,
        }
    }

    /// The state that `c` stands for on a drawn board, or `None` if `c` is
    /// no mark.
    pub open spec fn of_mark(c: char) -> Option<State> {
        if c == 'X' {
            Some(State::Player1)
        } else if c == 'O' {
            Some(State::Player2)
        } else if c == ' ' {
            Some(State::Open)
        } else {
            None
        }
    }

    /// Reads a character of a drawn board.
    pub fn from_mark(c: char) -> (res: Option<State>)
        ensures
            res == State::of_mark(c),
    {
        if c == 'X' {
            Some(State::Player1)
        } else if c == 'O' {
            Some(State::Player2)
        } else if c == ' ' {
            Some(State::Open)
        } else {
            None
        }
    }

    /// The one-character text of this state: "X", "O" or a blank.
    pub fn string(self) -> (s: String)
        ensures
            s@ == seq![self.mark()],
    {
        proof {
            reveal_strlit("X");
            reveal_strlit("O");
            reveal_strlit(" ");
        }
        match self {
            State::Player1 => String::from_str("X"),
            State::Player2 => String::from_str("O"),
            State::Open => String::from_str(" "),
        }
    }
}

} // verus!
