use tictactoe::board::{check_board, BoardState, Tile};
use tictactoe::search::{computer_move, empty_tiles, minimax, MOST_POSITIONS};

const E: Tile = Tile::Empty;
const X: Tile = Tile::X;
const O: Tile = Tile::O;

#[test]
fn empty_tiles_of_the_empty_board() {
    let board = [[E; 3]; 3];
    assert_eq!(
        empty_tiles(&board),
        vec![[0, 0], [1, 0], [2, 0], [0, 1], [1, 1], [2, 1], [0, 2], [1, 2], [2, 2]]
    );
}

#[test]
fn empty_tiles_are_listed_row_by_row() {
    let board = [[X, E, O], [E, X, E], [O, E, E]];
    assert_eq!(empty_tiles(&board), vec![[1, 0], [0, 1], [2, 1], [1, 2], [2, 2]]);
}

#[test]
fn empty_tiles_of_a_full_board() {
    let board = [[X, O, X], [X, O, O], [O, X, X]];
    assert_eq!(empty_tiles(&board), Vec::<[usize; 2]>::new());
}

#[test]
fn minimax_of_a_won_board() {
    let board = [[X, X, X], [O, O, E], [E, E, E]];
    let mut iterations = 0;
    assert_eq!(minimax(&board, O, X, true, &mut iterations), 1);
    assert_eq!(iterations, 1);
    assert_eq!(minimax(&board, X, O, false, &mut iterations), -1);
    assert_eq!(iterations, 2);
}

#[test]
fn minimax_of_a_tie() {
    let board = [[X, O, X], [X, O, O], [O, X, X]];
    let mut iterations = 7;
    assert_eq!(minimax(&board, O, X, true, &mut iterations), 0);
    assert_eq!(iterations, 8);
}

#[test]
fn minimax_with_one_cell_left() {
    let board = [[X, O, X], [X, O, O], [O, X, E]];
    let mut iterations = 0;
    assert_eq!(minimax(&board, O, X, true, &mut iterations), 0);
    assert_eq!(iterations, 2);
    let mut iterations = 0;
    assert_eq!(minimax(&board, O, X, false, &mut iterations), 0);
    assert_eq!(iterations, 2);
}

#[test]
fn minimax_of_the_empty_board_is_a_tie() {
    let board = [[E; 3]; 3];
    let mut iterations = 0;
    assert_eq!(minimax(&board, O, X, true, &mut iterations), 0);
    assert_eq!(iterations, 549_946);
    let mut iterations = 0;
    assert_eq!(minimax(&board, O, X, false, &mut iterations), 0);
    assert_eq!(iterations, 549_946);
}

#[test]
fn minimax_after_a_corner_opening() {
    let board = [[X, E, E], [E, E, E], [E, E, E]];
    let mut iterations = 0;
    assert_eq!(minimax(&board, X, O, true, &mut iterations), 0);
    assert_eq!(iterations, 59_705);
    let board = [[X, E, E], [E, O, E], [E, E, E]];
    let mut iterations = 0;
    assert_eq!(minimax(&board, X, O, false, &mut iterations), 0);
    assert_eq!(iterations, 7_332);
}

#[test]
fn minimax_sees_a_forced_win_and_a_forced_loss() {
    let board = [[X, X, E], [E, E, E], [E, E, O]];
    let mut iterations = 0;
    assert_eq!(minimax(&board, O, X, true, &mut iterations), 1);
    let mut iterations = 0;
    assert_eq!(minimax(&board, X, O, false, &mut iterations), -1);
}

#[test]
fn no_search_is_longer_than_the_bound() {
    let board = [[E; 3]; 3];
    let mut iterations = 0;
    minimax(&board, O, X, true, &mut iterations);
    assert!(iterations <= MOST_POSITIONS);
    assert_eq!(MOST_POSITIONS, 986_410);
}

#[test]
fn first_move_on_the_empty_board_is_the_first_corner() {
    let board = [[E; 3]; 3];
    let mut iterations = 0;
    assert_eq!(computer_move(&board, O, X, &mut iterations), [0, 0]);
    assert_eq!(iterations, 549_945);
    let mut iterations = 0;
    assert_eq!(computer_move(&board, X, O, &mut iterations), [0, 0]);
    assert_eq!(iterations, 549_945);
}

#[test]
fn first_of_several_winning_moves_is_taken() {
    let board = [[X, E, E], [X, O, E], [E, E, E]];
    assert_eq!(check_board(&board, O, X), BoardState::Continue);
    let mut iterations = 0;
    assert_eq!(computer_move(&board, O, X, &mut iterations), [1, 0]);
    assert_eq!(iterations, 875);
    let mut after = board;
    after[0][1] = X;
    let mut iterations = 0;
    assert_eq!(minimax(&after, O, X, false, &mut iterations), 1);
    let mut column = board;
    column[2][0] = X;
    assert_eq!(check_board(&column, O, X), BoardState::Win(X));
    let mut iterations = 0;
    assert_eq!(minimax(&column, O, X, false, &mut iterations), 1);
}

#[test]
fn two_in_a_row_are_completed() {
    let board = [[X, X, E], [E, O, E], [E, E, E]];
    assert_eq!(check_board(&board, O, X), BoardState::Continue);
    let mut iterations = 0;
    let spot = computer_move(&board, O, X, &mut iterations);
    assert_eq!(spot, [2, 0]);
    assert_eq!(iterations, 875);
    let mut after = board;
    after[spot[1]][spot[0]] = X;
    assert_eq!(check_board(&after, O, X), BoardState::Win(X));
}

#[test]
fn only_winning_move_is_taken() {
    let board = [[X, O, X], [O, X, E], [E, E, O]];
    let mut iterations = 0;
    assert_eq!(computer_move(&board, O, X, &mut iterations), [0, 2]);
    assert_eq!(iterations, 11);
}

#[test]
fn threat_is_blocked() {
    let board = [[X, E, O], [E, X, E], [E, E, E]];
    let mut iterations = 0;
    assert_eq!(computer_move(&board, X, O, &mut iterations), [2, 2]);
    assert_eq!(iterations, 932);
}

#[test]
fn win_is_preferred_to_a_block() {
    let board = [[O, O, E], [X, X, E], [E, E, E]];
    let mut iterations = 0;
    assert_eq!(computer_move(&board, X, O, &mut iterations), [2, 0]);
    assert_eq!(iterations, 156);
}

#[test]
fn replies_to_the_openings() {
    let mut iterations = 0;
    let board = [[X, E, E], [E, E, E], [E, E, E]];
    assert_eq!(computer_move(&board, X, O, &mut iterations), [1, 1]);
    assert_eq!(iterations, 59_704);
    let board = [[E, X, E], [E, E, E], [E, E, E]];
    assert_eq!(computer_move(&board, X, O, &mut iterations), [0, 0]);
    let board = [[E, E, E], [E, X, E], [E, E, E]];
    assert_eq!(computer_move(&board, X, O, &mut iterations), [0, 0]);
    let board = [[X, E, E], [E, O, E], [E, E, X]];
    assert_eq!(computer_move(&board, X, O, &mut iterations), [1, 0]);
}

#[test]
fn last_cell_is_taken() {
    let board = [[X, O, X], [X, O, O], [O, X, E]];
    let mut iterations = 0;
    assert_eq!(computer_move(&board, O, X, &mut iterations), [2, 2]);
    assert_eq!(iterations, 1);
}

#[test]
fn move_on_a_decided_board_is_the_first_empty_cell() {
    let board = [[X, X, X], [O, O, E], [E, E, E]];
    let mut iterations = 0;
    assert_eq!(computer_move(&board, O, X, &mut iterations), [2, 1]);
    assert_eq!(iterations, 4);
}

#[test]
fn move_is_always_on_an_empty_cell() {
    let boards = [
        [[E, E, E], [E, E, E], [E, E, E]],
        [[X, E, E], [E, E, E], [E, E, E]],
        [[X, O, E], [E, X, E], [E, E, E]],
        [[X, O, X], [E, O, E], [E, X, E]],
        [[X, O, X], [X, O, O], [O, E, E]],
        [[O, X, O], [X, X, O], [E, O, E]],
        [[X, X, O], [E, E, E], [E, E, O]],
    ];
    for board in boards {
        for (player_tile, computer_tile) in [(X, O), (O, X)] {
            let mut iterations = 0;
            let spot = computer_move(&board, player_tile, computer_tile, &mut iterations);
            assert!(spot[0] < 3 && spot[1] < 3);
            assert_eq!(board[spot[1]][spot[0]], E);
        }
    }
}

#[test]
fn same_position_same_move() {
    let boards = [
        [[E, E, E], [E, E, E], [E, E, E]],
        [[X, E, E], [E, O, E], [E, E, E]],
        [[X, O, X], [E, O, E], [E, X, E]],
    ];
    for board in boards {
        let mut first_count = 0;
        let mut second_count = 1000;
        let first = computer_move(&board, X, O, &mut first_count);
        let second = computer_move(&board, X, O, &mut second_count);
        assert_eq!(first, second);
        assert_eq!(second_count - 1000, first_count);
    }
}

#[test]
fn move_does_not_touch_the_board() {
    let board = [[X, E, E], [E, O, E], [E, E, E]];
    let copy = board;
    let mut iterations = 0;
    computer_move(&board, O, X, &mut iterations);
    assert_eq!(board, copy);
}
