use tictactoe::game::TicTacToe;
use tictactoe::rules::{MoveError, Outcome};
use tictactoe::state::State;

fn play(moves: &[(u8, u8)]) -> TicTacToe {
    let mut game = TicTacToe::new();
    for &(row, col) in moves {
        assert_eq!(game.place_move(row, col), Ok(()));
    }
    game
}

#[test]
fn new_game_is_empty_and_first_player_moves() {
    let game = TicTacToe::new();
    assert_eq!(game.board(), [State::Open; 9]);
    assert_eq!(game.turn(), State::Player1);
    assert_eq!(game.turns_played(), 0);
    assert_eq!(game.game_over(), None);
}

#[test]
fn every_square_of_a_fresh_game_takes_one_move() {
    for row in 0..3u8 {
        for col in 0..3u8 {
            let mut game = TicTacToe::new();
            assert_eq!(game.place_move(row, col), Ok(()));
            let mut expected = [State::Open; 9];
            expected[(row * 3 + col) as usize] = State::Player1;
            assert_eq!(game.board(), expected);
            assert_eq!(game.turns_played(), 1);
            assert_eq!(game.place_move(row, col), Err(MoveError::CellOccupied { row, col }));
            assert_eq!(game.board(), expected);
            assert_eq!(game.turns_played(), 1);
        }
    }
}

#[test]
fn coordinates_off_the_board_change_nothing() {
    let mut game = play(&[(1, 1), (0, 2)]);
    let board = game.board();
    for bad in [3u8, 4, 9, 200, 255] {
        assert_eq!(game.place_move(bad, 0), Err(MoveError::InvalidRow));
        assert_eq!(game.place_move(0, bad), Err(MoveError::InvalidCol));
        assert_eq!(game.place_move(bad, 1), Err(MoveError::InvalidRow));
        assert_eq!(game.board(), board);
        assert_eq!(game.turns_played(), 2);
        assert_eq!(game.turn(), State::Player1);
    }
}

#[test]
fn row_is_checked_before_column_and_column_before_square() {
    let mut game = play(&[(0, 0)]);
    assert_eq!(game.place_move(3, 3), Err(MoveError::InvalidRow));
    assert_eq!(game.place_move(0, 3), Err(MoveError::InvalidCol));
    assert_eq!(game.place_move(0, 0), Err(MoveError::CellOccupied { row: 0, col: 0 }));
}

#[test]
fn turn_alternates_after_every_accepted_move() {
    let mut game = TicTacToe::new();
    let moves = [(0u8, 0u8), (0, 1), (0, 2), (1, 1), (1, 0), (1, 2), (2, 1), (2, 0), (2, 2)];
    for (n, &(row, col)) in moves.iter().enumerate() {
        let mover = if n % 2 == 0 { State::Player1 } else { State::Player2 };
        assert_eq!(game.turn(), mover);
        assert_eq!(game.turns_played() as usize, n);
        assert_eq!(game.place_move(row, col), Ok(()));
        assert_eq!(game.board()[(row * 3 + col) as usize], mover);
    }
    assert_eq!(game.turn(), State::Player2);
    assert_eq!(game.turns_played(), 9);
}

#[test]
fn refused_move_does_not_pass_the_turn() {
    let mut game = play(&[(0, 0)]);
    assert_eq!(game.turn(), State::Player2);
    assert_eq!(game.place_move(0, 0), Err(MoveError::CellOccupied { row: 0, col: 0 }));
    assert_eq!(game.turn(), State::Player2);
    assert_eq!(game.place_move(5, 0), Err(MoveError::InvalidRow));
    assert_eq!(game.turn(), State::Player2);
}

#[test]
fn left_column_wins_for_first_player_at_once() {
    let mut game = play(&[(0, 0), (0, 1), (1, 0), (1, 1)]);
    assert_eq!(game.game_over(), None);
    assert_eq!(game.place_move(2, 0), Ok(()));
    assert_eq!(game.game_over(), Some(Outcome::Player1Wins));
}

#[test]
fn full_board_without_line_is_a_draw() {
    // X O X
    // X O O
    // O X X
    let game = play(&[(0, 0), (0, 1), (0, 2), (1, 1), (1, 0), (1, 2), (2, 1), (2, 0), (2, 2)]);
    assert_eq!(game.turns_played(), 9);
    assert_eq!(game.game_over(), Some(Outcome::Draw));
}

#[test]
fn row_three_on_fresh_board_is_invalid_row() {
    let mut game = TicTacToe::new();
    assert_eq!(game.place_move(3, 0), Err(MoveError::InvalidRow));
    assert_eq!(game.board(), [State::Open; 9]);
    assert_eq!(game.turns_played(), 0);
    assert_eq!(game.turn(), State::Player1);
}

#[test]
fn same_square_twice_is_occupied() {
    let mut game = TicTacToe::new();
    assert_eq!(game.place_move(0, 0), Ok(()));
    assert_eq!(game.place_move(0, 0), Err(MoveError::CellOccupied { row: 0, col: 0 }));
    assert_eq!(game.turns_played(), 1);
    assert_eq!(game.turn(), State::Player2);
}
