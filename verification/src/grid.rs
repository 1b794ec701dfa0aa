//! The text form of a board: three rows of marks parted by bars, with a rule
//! of dashes between one row and the next.

use vstd::prelude::*;
use vstd::string::*;
use crate::state::State;

verus! {

/// The text of row `r`: its three marks with a bar between neighbours.
pub open spec fn row_text(cells: Seq<State>, r: int) -> Seq<char> {
    seq![cells[3 * r].mark(), '|', cells[3 * r + 1].mark(), '|', cells[3 * r + 2].mark()]
}

/// What stands between two rows: the end of a line, a line of five dashes
/// and its end.
pub open spec fn rule_text() -> Seq<char> {
    seq!['\n', '-', '-', '-', '-', '-', '\n']
}

/// The drawing of a board: its three rows from the top, a rule between each
/// two, and the end of the last line.
pub open spec fn grid_text(cells: Seq<State>) -> Seq<char> {
    row_text(cells, 0) + rule_text() + row_text(cells, 1) + rule_text() + row_text(cells, 2)
        + seq!['\n']
}

/// Where the mark of square `i` stands in a drawing.
pub open spec fn place(i: int) -> int {
    12 * (i / 3) + 2 * (i % 3)
}

/// The board that `text` is the drawing of, or `None` if it is the drawing
/// of no board.
pub open spec fn read_grid(text: Seq<char>) -> Option<Seq<State>> {
    if exists|cells: Seq<State>| cells.len() == 9 && #[trigger] grid_text(cells) == text {
        Some(choose|cells: Seq<State>| cells.len() == 9 && #[trigger] grid_text(cells) == text)
    } else {
        None
    }
}

/// A drawing has thirty characters, and the mark of each square stands at
/// its place.
pub proof fn lemma_grid_text_marks(cells: Seq<State>)
    ensures
        grid_text(cells).len() == 30,
        forall|i: int| 0 <= i < 9 ==> grid_text(cells)[#[trigger] place(i)] == cells[i].mark(),
{
    let text = grid_text(cells);
    assert(text[place(0)] == cells[0].mark());
    assert(text[place(1)] == cells[1].mark());
    assert(text[place(2)] == cells[2].mark());
    assert(text[place(3)] == cells[3].mark());
    assert(text[place(4)] == cells[4].mark());
    assert(text[place(5)] == cells[5].mark());
    assert(text[place(6)] == cells[6].mark());
    assert(text[place(7)] == cells[7].mark());
    assert(text[place(8)] == cells[8].mark());
}

/// Two boards with the same drawing are the same board.
pub proof fn lemma_grid_text_injective(a: Seq<State>, b: Seq<State>)
    requires
        a.len() == 9,
        b.len() == 9,
        grid_text(a) == grid_text(b),
    ensures
        a == b,
{
    lemma_grid_text_marks(a);
    lemma_grid_text_marks(b);
    assert forall|i: int| 0 <= i < 9 implies a[i] == b[i] by {
        assert(a[i].mark() == grid_text(a)[place(i)]);
        assert(b[i].mark() == grid_text(b)[place(i)]);
    }
    assert(a =~= b);
}

/// Appends the text of row `r` of `board` to `text`.
fn append_row(text: &mut String, board: &[State; 9], r: usize)
    requires
        r < 3,
    ensures
        final(text)@ == old(text)@ + row_text(board@, r as int),
{
    proof {
        reveal_strlit("|");
    }
    text.append(board[3 * r].string().as_str());
    text.append("|");
    text.append(board[3 * r + 1].string().as_str());
    text.append("|");
    text.append(board[3 * r + 2].string().as_str());
    assert(text@ =~= old(text)@ + row_text(board@, r as int));
}

/// Draws `board`.
pub fn render(board: &[State; 9]) -> (text: String)
    ensures
        text@ == grid_text(board@),
{
    proof {
        reveal_strlit("\n-----\n");
        reveal_strlit("\n");
    }
    let mut text = String::new();
    append_row(&mut text, board, 0);
    text.append("\n-----\n");
    append_row(&mut text, board, 1);
    text.append("\n-----\n");
    append_row(&mut text, board, 2);
    text.append("\n");
    assert(text@ =~= grid_text(board@));
    text
}

/// Reads a drawing back into the board that it shows. Only the exact text
/// that [`render`] gives for some board is read; any other text is `None`.
pub fn parse_board(text: &str) -> (res: Option<[State; 9]>)
    ensures
        match res {
            Some(board) => read_grid(text@) == Some(board@),
            None => read_grid(text@) is None,
        },
{
    if text.unicode_len() != 30 {
        proof {
            assert forall|cells: Seq<State>| cells.len() == 9 implies #[trigger] grid_text(cells)
                != text@ by {
                lemma_grid_text_marks(cells);
            }
        }
        return None;
    }
    let mut board = [State::Open;9];
    let mut i: usize = 0;
    while i < 9
        invariant
            i <= 9,
            text@.len() == 30,
            forall|j: int| 0 <= j < i ==> text@[#[trigger] place(j)] == board@[j].mark(),
        decreases 9 - i,
    {
        let c = text.get_char(12 * (i / 3) + 2 * (i % 3));
        match State::from_mark(c) {
            Some(state) => {
                board[i] = state;
            },
            None => {
                proof {
                    assert forall|cells: Seq<State>| cells.len() == 9 implies #[trigger] grid_text(
                        cells,
                    ) != text@ by {
                        lemma_grid_text_marks(cells);
                        assert(grid_text(cells)[place(i as int)] == cells[i as int].mark());
                    }
                }
                return None;
            },
        }
        i += 1;
    }
    let drawn = render(&board);
    proof {
        lemma_grid_text_marks(board@);
    }
    let mut p: usize = 0;
    while p < 30
        invariant
            p <= 30,
            text@.len() == 30,
            drawn@.len() == 30,
            drawn@ == grid_text(board@),
            forall|j: int| 0 <= j < 9 ==> text@[#[trigger] place(j)] == board@[j].mark(),
            forall|q: int| 0 <= q < p ==> text@[q] == drawn@[q],
        decreases 30 - p,
    {
        if text.get_char(p) != drawn.as_str().get_char(p) {
            proof {
                assert forall|cells: Seq<State>| cells.len() == 9 implies #[trigger] grid_text(
                    cells,
                ) != text@ by {
                    if grid_text(cells) == text@ {
                        lemma_grid_text_marks(cells);
                        assert forall|j: int| 0 <= j < 9 implies cells[j] == board@[j] by {
                            assert(cells[j].mark() == text@[place(j)]);
                        }
                        assert(cells =~= board@);
                    }
                }
            }
            return None;
        }
        p += 1;
    }
    proof {
        assert(text@ =~= drawn@);
        let found = choose|cells: Seq<State>| cells.len() == 9 && #[trigger] grid_text(cells) == text@;
        lemma_grid_text_injective(found, board@);
    }
    Some(board)
}

} // verus!
