//! What holds of every game, proved from the rules.

use vstd::prelude::*;
use crate::grid::{grid_text, lemma_grid_text_injective, read_grid};
use crate::input::{
    all_digits, from_zero, gap, is_digit, is_space, lemma_gap, lemma_trimmed_end,
    lemma_trimmed_start, move_of, number, trimmed, unsigned, value, InputError,
};
use crate::message::{decimal, digit};
use crate::rules::{
    count, first_owner, index_of, lemma_count_total, lemma_count_update, owner, win_of, Game,
    MoveError, Outcome,
};
use crate::state::State;

verus! {

/// A fresh game is well formed: it holds no mark and the first player is to
/// move.
pub proof fn fresh_game_is_well_formed()
    ensures
        Game::fresh().wf(),
        Game::fresh().turn == State::Player1,
        Game::fresh().turns_played == 0,
        forall|i: int| 0 <= i < 9 ==> Game::fresh().cells[i] == State::Open,
{
    reveal_with_fuel(count, 10);
}

/// A move, accepted or not, leads from a well-formed game to a well-formed
/// game.
pub proof fn move_keeps_well_formed(g: Game, row: u8, col: u8)
    requires
        g.wf(),
    ensures
        g.after_move(row, col).wf(),
{
    if g.check_move(row, col) is Ok {
        let i = index_of(row, col);
        lemma_count_update(g.cells, i, g.turn, State::Player1);
        lemma_count_update(g.cells, i, g.turn, State::Player2);
    }
}

/// Every game that is reached from a fresh one by moves is well formed.
pub proof fn played_game_is_well_formed(moves: Seq<(u8, u8)>)
    ensures
        Game::replay(moves).wf(),
    decreases moves.len(),
{
    if moves.len() == 0 {
        fresh_game_is_well_formed();
    } else {
        played_game_is_well_formed(moves.drop_last());
        move_keeps_well_formed(Game::replay(moves.drop_last()), moves.last().0, moves.last().1);
    }
}

/// In a well-formed game at most nine marks have been placed, each mark is
/// on the board and every other square is open, and the first player has as
/// many marks as the second or one more.
pub proof fn well_formed_counts(g: Game)
    requires
        g.wf(),
    ensures
        g.turns_played <= 9,
        g.turns_played + count(g.cells, State::Open) == 9,
        count(g.cells, State::Player1) == count(g.cells, State::Player2) || count(
            g.cells,
            State::Player1,
        ) == count(g.cells, State::Player2) + 1,
{
    lemma_count_total(g.cells);
}

/// A move to an open square of the board is accepted, and the same move
/// asked for again is turned down because the square is taken. So it is for
/// every square of a fresh game.
pub proof fn open_square_takes_one_move(g: Game, row: u8, col: u8)
    requires
        g.wf(),
        row <= 2,
        col <= 2,
        g.cells[index_of(row, col)] == State::Open,
    ensures
        g.check_move(row, col) is Ok,
        g.after_move(row, col).check_move(row, col) == Err::<(), MoveError>(
            MoveError::CellOccupied { row, col },
        ),
        g.after_move(row, col).after_move(row, col) == g.after_move(row, col),
{
}

/// Every square of a fresh game takes a move, once.
pub proof fn fresh_game_takes_each_square_once(row: u8, col: u8)
    requires
        row <= 2,
        col <= 2,
    ensures
        Game::fresh().check_move(row, col) is Ok,
        Game::fresh().after_move(row, col).check_move(row, col) == Err::<(), MoveError>(
            MoveError::CellOccupied { row, col },
        ),
{
    fresh_game_is_well_formed();
    open_square_takes_one_move(Game::fresh(), row, col);
}

/// A mark, once placed, stays: no later move changes a square that holds a
/// mark, so a move to it is turned down for good.
pub proof fn marks_stay(g: Game, row: u8, col: u8, i: int)
    requires
        g.wf(),
        0 <= i < 9,
        g.cells[i] != State::Open,
    ensures
        g.after_move(row, col).cells[i] == g.cells[i],
{
}

/// A move with a row or a column beyond 2 is turned down, for the row if
/// the row is beyond 2 and for the column otherwise, and the game stays as
/// it was.
pub proof fn move_off_the_board_is_refused(g: Game, row: u8, col: u8)
    requires
        row > 2 || col > 2,
    ensures
        g.check_move(row, col) == Err::<(), MoveError>(
            if row > 2 {
                MoveError::InvalidRow
            } else {
                MoveError::InvalidCol
            },
        ),
        g.after_move(row, col) == g,
{
}

/// A move that is turned down, for whatever reason, leaves the game as it
/// was.
pub proof fn refused_move_changes_nothing(g: Game, row: u8, col: u8)
    requires
        g.check_move(row, col) is Err,
    ensures
        g.after_move(row, col) == g,
{
}

/// An accepted move hands the turn to the other player and counts one turn
/// more.
pub proof fn accepted_move_passes_the_turn(g: Game, row: u8, col: u8)
    requires
        g.wf(),
        g.check_move(row, col) is Ok,
    ensures
        g.after_move(row, col).turn == g.turn.next(),
        g.after_move(row, col).turn != g.turn,
        g.after_move(row, col).turns_played == g.turns_played + 1,
        g.after_move(row, col).cells == g.cells.update(index_of(row, col), g.turn),
{
}

/// The players alternate and the first player begins: the first player is
/// to move when an even number of marks has been placed, the second player
/// when the number is odd.
pub proof fn turn_follows_count(g: Game)
    requires
        g.wf(),
    ensures
        g.turn == (if g.turns_played % 2 == 0 {
            State::Player1
        } else {
            State::Player2
        }),
{
}

/// The game goes on exactly when fewer than nine marks are placed and no
/// line is owned.
pub proof fn game_goes_on_without_owned_line(g: Game)
    ensures
        g.outcome() is None <==> g.turns_played != 9 && forall|k: int|
            0 <= k < 8 ==> owner(g.cells, k) == State::Open,
{
    reveal_with_fuel(first_owner, 9);
}

/// A full board is a draw.
pub proof fn full_board_is_a_draw(g: Game)
    ensures
        g.outcome() == Some(Outcome::Draw) <==> g.turns_played == 9,
{
}

/// A player has won exactly when the board is not full and, of the lines
/// that are owned, the first belongs to that player.
pub proof fn winner_owns_first_owned_line(g: Game, player: State)
    requires
        player != State::Open,
    ensures
        g.outcome() == win_of(player) <==> g.turns_played != 9 && exists|k: int|
            0 <= k < 8 && #[trigger] owner(g.cells, k) == player && forall|j: int|
                0 <= j < k ==> owner(g.cells, j) == State::Open,
{
    reveal_with_fuel(first_owner, 9);
    let cells = g.cells;
    if g.turns_played != 9 {
        if first_owner(cells, 0) == player {
            let k = if owner(cells, 0) != State::Open {
                0int
            } else if owner(cells, 1) != State::Open {
                1int
            } else if owner(cells, 2) != State::Open {
                2int
            } else if owner(cells, 3) != State::Open {
                3int
            } else if owner(cells, 4) != State::Open {
                4int
            } else if owner(cells, 5) != State::Open {
                5int
            } else if owner(cells, 6) != State::Open {
                6int
            } else {
                7int
            };
            assert(owner(cells, k) == player);
        }
    }
}

/// Drawing a board and reading the drawing gives the board back.
pub proof fn drawing_reads_back(cells: Seq<State>)
    requires
        cells.len() == 9,
    ensures
        read_grid(grid_text(cells)) == Some(cells),
{
    let text = grid_text(cells);
    let found = choose|other: Seq<State>| other.len() == 9 && #[trigger] grid_text(other) == text;
    lemma_grid_text_injective(found, cells);
}

/// What is read from a text is a board of nine squares, and the text is its
/// drawing.
pub proof fn reading_is_drawn_back(text: Seq<char>)
    requires
        read_grid(text) is Some,
    ensures
        read_grid(text)->0.len() == 9,
        grid_text(read_grid(text)->0) == text,
{
}

/// A number written in decimal digits is one digit at least and digits
/// only, and it stands for the number that was written.
pub proof fn decimal_reads_back(n: nat)
    ensures
        decimal(n).len() >= 1,
        all_digits(decimal(n)),
        value(decimal(n)) == n,
        n <= 255 ==> number(decimal(n)) == Some(n as u8),
    decreases n,
{
    let text = decimal(n);
    if n < 10 {
        assert(is_digit(digit(n)));
        assert(text.drop_last() =~= Seq::<char>::empty());
        assert(value(text) == 10 * value(text.drop_last()) + n);
    } else {
        decimal_reads_back(n / 10);
        assert(text.drop_last() =~= decimal(n / 10));
        assert(is_digit(digit(n % 10)));
        assert forall|i: int| 0 <= i < text.len() implies is_digit(#[trigger] text[i]) by {
            if i < text.len() - 1 {
                assert(text[i] == decimal(n / 10)[i]);
            }
        }
    }
    assert(is_digit(text[0]));
    assert(unsigned(text) == text);
}

/// A line that holds two numbers up to 255 in decimal digits, one blank
/// between them and the end of the line after them, is read as the move
/// to that row and column.
pub proof fn typed_move_is_read(row: u8, col: u8)
    ensures
        move_of(decimal(row as nat) + seq![' '] + decimal(col as nat) + seq!['\n']) == Ok::<
            (u8, u8),
            InputError,
        >((from_zero(row), from_zero(col))),
{
    let first = decimal(row as nat);
    let second = decimal(col as nat);
    let text = first + seq![' '] + second;
    let line = text + seq!['\n'];
    decimal_reads_back(row as nat);
    decimal_reads_back(col as nat);
    assert(is_digit(first[0]) && is_digit(second[second.len() - 1]));
    assert(line[0] == first[0]);
    assert(text[text.len() - 1] == second[second.len() - 1]);
    lemma_trimmed_start(line, 0);
    assert(line.skip(0) =~= line);
    assert(is_space('\n'));
    lemma_trimmed_end(line, text.len() as int);
    assert(line.take(text.len() as int) =~= text);
    assert(trimmed(line) == text);
    let k = first.len() as int;
    assert forall|i: int| 0 <= i < k implies #[trigger] text[i] != ' ' by {
        assert(is_digit(first[i]));
    }
    lemma_gap(text, k);
    let rest = text.skip(k + 1);
    assert(text.take(k) =~= first);
    assert(rest =~= second);
    assert forall|i: int| 0 <= i < second.len() implies #[trigger] second[i] != ' ' by {
        assert(is_digit(second[i]));
    }
    lemma_gap(second, second.len() as int);
}

} // verus!
