use tictactoe::board::{check_board, BoardState, Tile};

const E: Tile = Tile::Empty;
const X: Tile = Tile::X;
const O: Tile = Tile::O;

#[test]
fn empty_board_goes_on() {
    let board = [[E; 3]; 3];
    assert_eq!(check_board(&board, X, O), BoardState::Continue);
    assert_eq!(check_board(&board, O, X), BoardState::Continue);
}

#[test]
fn two_in_a_column_goes_on() {
    let board = [[X, E, E], [X, O, E], [E, E, E]];
    assert_eq!(check_board(&board, O, X), BoardState::Continue);
}

#[test]
fn diagonal_of_the_second_side_wins() {
    let board = [[O, E, E], [E, O, E], [E, E, O]];
    assert_eq!(check_board(&board, X, O), BoardState::Win(O));
    assert_eq!(check_board(&board, O, X), BoardState::Win(O));
}

#[test]
fn full_board_without_a_line_is_a_tie() {
    let board = [[X, O, X], [X, O, O], [O, X, X]];
    assert_eq!(check_board(&board, X, O), BoardState::Tie);
    assert_eq!(check_board(&board, O, X), BoardState::Tie);
    let board = [[X, O, X], [O, X, X], [O, X, O]];
    assert_eq!(check_board(&board, X, O), BoardState::Tie);
}

#[test]
fn every_row_wins() {
    for row in 0..3 {
        let mut board = [[E; 3]; 3];
        board[row] = [X, X, X];
        board[(row + 1) % 3][0] = O;
        board[(row + 1) % 3][2] = O;
        assert_eq!(check_board(&board, X, O), BoardState::Win(X));
        assert_eq!(check_board(&board, O, X), BoardState::Win(X));
    }
}

#[test]
fn every_column_wins() {
    for col in 0..3 {
        let mut board = [[E; 3]; 3];
        for row in 0..3 {
            board[row][col] = O;
        }
        board[0][(col + 1) % 3] = X;
        board[1][(col + 2) % 3] = X;
        assert_eq!(check_board(&board, X, O), BoardState::Win(O));
        assert_eq!(check_board(&board, O, X), BoardState::Win(O));
    }
}

#[test]
fn both_diagonals_win() {
    let board = [[X, O, E], [O, X, E], [E, E, X]];
    assert_eq!(check_board(&board, O, X), BoardState::Win(X));
    let board = [[O, O, X], [O, X, E], [X, E, E]];
    assert_eq!(check_board(&board, O, X), BoardState::Win(X));
    assert_eq!(check_board(&board, X, O), BoardState::Win(X));
}

#[test]
fn full_board_with_a_line_is_a_win() {
    let board = [[X, O, X], [O, X, O], [X, X, O]];
    assert_eq!(check_board(&board, O, X), BoardState::Win(X));
}

#[test]
fn first_line_decides_between_two_winners() {
    let board = [[X, X, X], [O, O, O], [E, E, E]];
    assert_eq!(check_board(&board, X, O), BoardState::Win(X));
    assert_eq!(check_board(&board, O, X), BoardState::Win(X));
    let board = [[O, O, O], [X, X, X], [E, E, E]];
    assert_eq!(check_board(&board, X, O), BoardState::Win(O));
    let board = [[X, O, E], [X, O, E], [X, O, E]];
    assert_eq!(check_board(&board, X, O), BoardState::Win(X));
    let board = [[O, X, E], [O, X, E], [O, X, E]];
    assert_eq!(check_board(&board, X, O), BoardState::Win(O));
}

#[test]
fn rows_are_judged_before_columns_and_diagonals() {
    let board = [[O, X, X], [O, X, E], [O, O, O]];
    assert_eq!(check_board(&board, X, O), BoardState::Win(O));
    let board = [[X, E, O], [E, O, E], [X, X, X]];
    assert_eq!(check_board(&board, X, O), BoardState::Win(X));
    let board = [[X, O, O], [X, O, E], [X, E, E]];
    assert_eq!(check_board(&board, O, X), BoardState::Win(X));
}

#[test]
fn a_line_of_a_mark_that_nobody_plays_does_not_win() {
    let board = [[X, X, X], [E, E, E], [E, E, E]];
    assert_eq!(check_board(&board, O, O), BoardState::Continue);
    assert_eq!(check_board(&board, X, X), BoardState::Win(X));
    let board = [[X, X, X], [O, O, X], [X, O, O]];
    assert_eq!(check_board(&board, O, O), BoardState::Tie);
}

#[test]
fn a_side_that_plays_the_empty_tile_holds_the_empty_lines() {
    let board = [[E, E, E], [X, X, X], [O, O, E]];
    assert_eq!(check_board(&board, E, O), BoardState::Win(E));
    assert_eq!(check_board(&board, O, E), BoardState::Win(E));
    assert_eq!(check_board(&board, X, O), BoardState::Win(X));
}
