//! What to tell a player whose move was turned down.

use vstd::prelude::*;
use vstd::string::*;
use crate::rules::MoveError;

verus! {

/// The character for the digit `d`, which is below ten.
pub open spec fn digit(d: nat) -> char {
    if d == 0 {
        '0'
    } else if d == 1 {
        '1'
    } else if d == 2 {
        '2'
    } else if d == 3 {
        '3'
    } else if d == 4 {
        '4'
    } else if d == 5 {
        '5'
    } else if d == 6 {
        '6'
    } else if d == 7 {
        '7'
    } else if d == 8 {
        '8'
    } else {
        '9'
    }
}

/// The number `n` written in decimal digits, without leading zeros.
pub open spec fn decimal(n: nat) -> Seq<char>
    decreases n,
{
    if n < 10 {
        seq![digit(n)]
    } else {
        decimal(n / 10).push(digit(n % 10))
    }
}

impl MoveError {
    /// The message for this error. For a taken square it names the row and
    /// the column that were asked for.
    pub open spec fn text(self) -> Seq<char> {
        match self {
            MoveError::InvalidRow => "Invalid Row!"@,
            MoveError::InvalidCol => "Invalid Col!"@,
            MoveError::CellOccupied { row, col } => "Position ("@ + decimal(row as nat) + ", "@
                + decimal(col as nat) + ") already taken."@,
        }
    }

    /// Writes the message for this error.
    pub fn message(&self) -> (s: String)
        ensures
            s@ == self.text(),
    {
        match self {
            MoveError::InvalidRow => String::from_str("Invalid Row!"),
            MoveError::InvalidCol => String::from_str("Invalid Col!"),
            MoveError::CellOccupied { row, col } => {
                let mut s = String::from_str("Position (");
                append_decimal(&mut s, *row);
                s.append(", ");
                append_decimal(&mut s, *col);
                s.append(") already taken.");
                s
            },
        }
    }
}

/// The one-character text of the digit `d`.
fn digit_text(d: u8) -> (s: &'static str)
    requires
        d < 10,
    ensures
        s@ == seq![digit(d as nat)],
{
    proof {
        reveal_strlit("0");
        reveal_strlit("1");
        reveal_strlit("2");
        reveal_strlit("3");
        reveal_strlit("4");
        reveal_strlit("5");
        reveal_strlit("6");
        reveal_strlit("7");
        reveal_strlit("8");
        reveal_strlit("9");
    }
    if d == 0 {
        "0"
    } else if d == 1 {
        "1"
    } else if d == 2 {
        "2"
    } else if d == 3 {
        "3"
    } else if d == 4 {
        "4"
    } else if d == 5 {
        "5"
    } else if d == 6 {
        "6"
    } else if d == 7 {
        "7"
    } else if d == 8 {
        "8"
    } else {
        "9"
    }
}

/// Appends `n` in decimal digits to `text`.
fn append_decimal(text: &mut String, n: u8)
    ensures
        final(text)@ == old(text)@ + decimal(n as nat),
{
    if n >= 100 {
        text.append(digit_text(n / 100));
    }
    if n >= 10 {
        text.append(digit_text((n / 10) % 10));
    }
    text.append(digit_text(n % 10));
    proof {
        reveal_with_fuel(decimal, 3);
        assert(text@ =~= old(text)@ + decimal(n as nat));
    }
}

} // verus!
