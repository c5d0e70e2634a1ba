use tictactoe::board::{check_board, BoardState, Tile};
use tictactoe::play::{Ending, Game, Step};
use tictactoe::search::computer_move;

const E: Tile = Tile::Empty;
const X: Tile = Tile::X;
const O: Tile = Tile::O;

fn marks(board: &[[Tile; 3]; 3], tile: Tile) -> usize {
    board.iter().flatten().filter(|&&held| held == tile).count()
}

#[test]
fn new_game_is_empty_and_the_crosses_move() {
    let game = Game::new(X, O);
    assert_eq!(game.board, [[E; 3]; 3]);
    assert_eq!(game.player_tile, X);
    assert_eq!(game.computer_tile, O);
    assert_eq!(game.turn, X);
    assert_eq!(game.step(), Step::Player);
    let game = Game::new(O, X);
    assert_eq!(game.player_tile, O);
    assert_eq!(game.computer_tile, X);
    assert_eq!(game.turn, X);
    assert_eq!(game.step(), Step::Computer);
}

#[test]
fn turns_alternate() {
    let mut game = Game::new(X, O);
    game.player_turn([2, 1]);
    assert_eq!(game.board, [[E, E, E], [E, E, X], [E, E, E]]);
    assert_eq!(game.turn, O);
    assert_eq!(game.step(), Step::Computer);
    let mut iterations = 0;
    let spot = game.computer_turn(&mut iterations);
    assert_eq!(game.board[spot[1]][spot[0]], O);
    assert_eq!(marks(&game.board, X), 1);
    assert_eq!(marks(&game.board, O), 1);
    assert_eq!(game.turn, X);
    assert_eq!(game.step(), Step::Player);
}

#[test]
fn machine_takes_its_turn() {
    let mut game = Game::new(X, O);
    game.player_turn([0, 0]);
    let mut iterations = 0;
    let spot = game.computer_turn(&mut iterations);
    assert_eq!(spot, [1, 1]);
    assert_eq!(iterations, 59_704);
    assert_eq!(game.board, [[X, E, E], [E, O, E], [E, E, E]]);
    assert_eq!(game.turn, X);
    assert_eq!(game.player_tile, X);
    assert_eq!(game.computer_tile, O);
}

#[test]
fn machine_opens_in_the_first_corner() {
    let mut game = Game::new(O, X);
    let mut iterations = 0;
    assert_eq!(game.computer_turn(&mut iterations), [0, 0]);
    assert_eq!(iterations, 549_945);
    assert_eq!(game.board, [[X, E, E], [E, E, E], [E, E, E]]);
    assert_eq!(game.turn, O);
    assert_eq!(game.step(), Step::Player);
}

#[test]
fn step_names_every_ending() {
    let won = Game {
        board: [[X, X, X], [O, O, E], [E, E, E]],
        player_tile: X,
        computer_tile: O,
        turn: O,
    };
    assert_eq!(won.step(), Step::Over(Ending::PlayerWins));
    let lost = Game {
        board: [[X, X, X], [O, O, E], [E, E, E]],
        player_tile: O,
        computer_tile: X,
        turn: O,
    };
    assert_eq!(lost.step(), Step::Over(Ending::ComputerWins));
    let tied = Game {
        board: [[X, O, X], [X, O, O], [O, X, X]],
        player_tile: X,
        computer_tile: O,
        turn: O,
    };
    assert_eq!(tied.step(), Step::Over(Ending::Tie));
    let open = Game {
        board: [[X, O, X], [X, O, O], [O, X, E]],
        player_tile: X,
        computer_tile: O,
        turn: X,
    };
    assert_eq!(open.step(), Step::Player);
    let open = Game {
        board: [[X, O, X], [X, O, O], [O, X, E]],
        player_tile: O,
        computer_tile: X,
        turn: X,
    };
    assert_eq!(open.step(), Step::Computer);
}

#[test]
fn careless_player_loses_to_the_noughts() {
    let mut game = Game::new(X, O);
    let mut counts = Vec::new();
    let mut answers = Vec::new();
    for spot in [[0, 0], [1, 0], [0, 1]] {
        assert_eq!(game.step(), Step::Player);
        game.player_turn(spot);
        assert_eq!(game.step(), Step::Computer);
        let mut iterations = 0;
        answers.push(game.computer_turn(&mut iterations));
        counts.push(iterations);
    }
    assert_eq!(answers, vec![[1, 1], [2, 0], [0, 2]]);
    assert_eq!(counts, vec![59_704, 934, 29]);
    assert_eq!(game.board, [[X, X, O], [X, O, E], [O, E, E]]);
    assert_eq!(game.step(), Step::Over(Ending::ComputerWins));
}

#[test]
fn careless_player_loses_to_the_crosses() {
    let mut game = Game::new(O, X);
    let mut answers = Vec::new();
    for spot in [[1, 0], [2, 0], [2, 1]] {
        assert_eq!(game.step(), Step::Computer);
        let mut iterations = 0;
        answers.push(game.computer_turn(&mut iterations));
        assert_eq!(game.step(), Step::Player);
        game.player_turn(spot);
    }
    assert_eq!(game.step(), Step::Computer);
    let mut iterations = 0;
    answers.push(game.computer_turn(&mut iterations));
    assert_eq!(iterations, 6);
    assert_eq!(answers, vec![[0, 0], [0, 1], [1, 1], [0, 2]]);
    assert_eq!(game.board, [[X, O, O], [X, X, O], [X, E, E]]);
    assert_eq!(game.step(), Step::Over(Ending::ComputerWins));
}

#[test]
fn careful_player_gets_a_tie() {
    let mut game = Game::new(X, O);
    let mut answers = Vec::new();
    for spot in [[0, 0], [1, 0], [0, 2], [2, 1], [2, 2]] {
        assert_eq!(game.step(), Step::Player);
        game.player_turn(spot);
        if game.step() == Step::Computer {
            let mut iterations = 0;
            answers.push(game.computer_turn(&mut iterations));
        }
    }
    assert_eq!(answers, vec![[1, 1], [2, 0], [0, 1], [1, 2]]);
    assert_eq!(game.board, [[X, X, O], [O, O, X], [X, O, X]]);
    assert_eq!(game.step(), Step::Over(Ending::Tie));
}

#[test]
fn marks_stay_in_balance() {
    let mut game = Game::new(O, X);
    let mut iterations = 0;
    let replies = [[1, 1], [2, 0], [0, 1], [1, 2], [2, 2]];
    let mut next = 0;
    loop {
        let crosses = marks(&game.board, X);
        let noughts = marks(&game.board, O);
        match game.step() {
            Step::Computer => {
                assert_eq!(crosses, noughts);
                game.computer_turn(&mut iterations);
            }
            Step::Player => {
                assert_eq!(crosses, noughts + 1);
                while game.board[replies[next][1]][replies[next][0]] != E {
                    next += 1;
                }
                game.player_turn(replies[next]);
            }
            Step::Over(_) => break,
        }
    }
    assert_ne!(game.step(), Step::Over(Ending::PlayerWins));
}

#[test]
fn machine_against_machine_is_a_tie() {
    let mut board = [[E; 3]; 3];
    let mut turn = X;
    let mut moves = Vec::new();
    while check_board(&board, O, X) == BoardState::Continue {
        let mut iterations = 0;
        let spot = if turn == X {
            computer_move(&board, O, X, &mut iterations)
        } else {
            computer_move(&board, X, O, &mut iterations)
        };
        assert_eq!(board[spot[1]][spot[0]], E);
        board[spot[1]][spot[0]] = turn;
        moves.push(spot);
        turn = if turn == X { O } else { X };
    }
    assert_eq!(check_board(&board, O, X), BoardState::Tie);
    assert_eq!(check_board(&board, X, O), BoardState::Tie);
    assert_eq!(
        moves,
        vec![[0, 0], [1, 1], [1, 0], [2, 0], [0, 2], [0, 1], [2, 1], [1, 2], [2, 2]]
    );
    assert_eq!(board, [[X, X, O], [O, O, X], [X, O, X]]);
}

fn endings_against_every_opponent(game: Game, wins: &mut u32, ties: &mut u32, losses: &mut u32) {
    match game.step() {
        Step::Over(Ending::ComputerWins) => *wins += 1,
        Step::Over(Ending::Tie) => *ties += 1,
        Step::Over(Ending::PlayerWins) => *losses += 1,
        Step::Computer => {
            let mut next = game;
            let mut iterations = 0;
            next.computer_turn(&mut iterations);
            endings_against_every_opponent(next, wins, ties, losses);
        }
        Step::Player => {
            for row in 0..3 {
                for column in 0..3 {
                    if game.board[row][column] == E {
                        let mut next = game;
                        next.player_turn([column, row]);
                        endings_against_every_opponent(next, wins, ties, losses);
                    }
                }
            }
        }
    }
}

#[test]
fn machine_that_moves_first_never_loses() {
    let (mut wins, mut ties, mut losses) = (0, 0, 0);
    endings_against_every_opponent(Game::new(O, X), &mut wins, &mut ties, &mut losses);
    assert_eq!(losses, 0);
    assert_eq!((wins, ties), (99, 2));
}

#[test]
fn machine_that_moves_second_never_loses() {
    let (mut wins, mut ties, mut losses) = (0, 0, 0);
    endings_against_every_opponent(Game::new(X, O), &mut wins, &mut ties, &mut losses);
    assert_eq!(losses, 0);
    assert_eq!((wins, ties), (498, 183));
}
