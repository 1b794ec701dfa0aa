use tictactoe::game::TicTacToe;
use tictactoe::grid::{parse_board, render};
use tictactoe::state::State;

const X: State = State::Player1;
const O: State = State::Player2;
const E: State = State::Open;

#[test]
fn state_strings() {
    assert_eq!(State::Player1.string(), "X");
    assert_eq!(State::Player2.string(), "O");
    assert_eq!(State::Open.string(), " ");
}

#[test]
fn state_from_mark() {
    assert_eq!(State::from_mark('X'), Some(State::Player1));
    assert_eq!(State::from_mark('O'), Some(State::Player2));
    assert_eq!(State::from_mark(' '), Some(State::Open));
    assert_eq!(State::from_mark('x'), None);
    assert_eq!(State::from_mark('0'), None);
    assert_eq!(State::from_mark('|'), None);
    assert_eq!(State::from_mark('\n'), None);
}

#[test]
fn fresh_board_is_drawn_with_blanks() {
    let game = TicTacToe::new();
    assert_eq!(game.render_board(), " | | \n-----\n | | \n-----\n | | \n");
}

#[test]
fn marks_are_drawn_in_their_squares() {
    let mut game = TicTacToe::new();
    assert_eq!(game.place_move(0, 0), Ok(()));
    assert_eq!(game.place_move(1, 1), Ok(()));
    assert_eq!(game.place_move(2, 1), Ok(()));
    assert_eq!(game.place_move(0, 2), Ok(()));
    assert_eq!(game.render_board(), "X| |O\n-----\n |O| \n-----\n |X| \n");
    assert_eq!(game.render_board(), render(&game.board()));
}

#[test]
fn render_draws_any_board() {
    let board = [X, O, E, E, X, O, O, E, X];
    assert_eq!(render(&board), "X|O| \n-----\n |X|O\n-----\nO| |X\n");
}

#[test]
fn drawing_is_read_back_after_every_move() {
    let mut game = TicTacToe::new();
    assert_eq!(parse_board(&game.render_board()), Some(game.board()));
    let moves = [(1u8, 1u8), (0, 0), (2, 2), (0, 2), (0, 1), (2, 1), (1, 0), (1, 2), (2, 0)];
    for &(row, col) in moves.iter() {
        assert_eq!(game.place_move(row, col), Ok(()));
        let text = game.render_board();
        assert_eq!(parse_board(&text), Some(game.board()));
    }
    assert_eq!(game.turns_played(), 9);
}

#[test]
fn every_board_of_marks_reads_back() {
    let states = [X, O, E];
    for code in 0..19683usize {
        let mut board = [E; 9];
        let mut rest = code;
        for square in board.iter_mut() {
            *square = states[rest % 3];
            rest /= 3;
        }
        assert_eq!(parse_board(&render(&board)), Some(board));
    }
}

#[test]
fn parse_reads_a_written_board() {
    let text = "X|O| \n-----\n |X|O\n-----\nO| |X\n";
    assert_eq!(parse_board(text), Some([X, O, E, E, X, O, O, E, X]));
}

#[test]
fn parse_refuses_what_is_no_drawing() {
    let good = "X|O| \n-----\n |X|O\n-----\nO| |X\n";
    assert!(parse_board(good).is_some());
    // too short, too long, empty
    assert_eq!(parse_board(""), None);
    assert_eq!(parse_board("X|O| \n-----\n |X|O\n-----\nO| |X"), None);
    assert_eq!(parse_board("X|O| \n-----\n |X|O\n-----\nO| |X\n\n"), None);
    // a character that is no mark
    assert_eq!(parse_board("x|O| \n-----\n |X|O\n-----\nO| |X\n"), None);
    assert_eq!(parse_board("X|O| \n-----\n |X|O\n-----\nO| |?\n"), None);
    // a wrong bar, a wrong rule, a wrong line end
    assert_eq!(parse_board("X O| \n-----\n |X|O\n-----\nO| |X\n"), None);
    assert_eq!(parse_board("X|O| \n--+--\n |X|O\n-----\nO| |X\n"), None);
    assert_eq!(parse_board("X|O| \n-----\n |X|O\n----- O| |X\n"), None);
    assert_eq!(parse_board("X|O| \n-----\n |X|O\n-----\nO| |X "), None);
    // thirty characters of which some take more than one byte
    assert_eq!(parse_board("X|O| \n—————\n |X|O\n-----\nO| |X\n"), None);
}
