//! Whole games: the machine's moves taken one after the other, against an
//! opponent who may play anything.
//!
//! `Game` keeps the state of a game and says what comes next. The lemmas say
//! what holds of every game, however long: the machine does not lose, and
//! against itself it ties.

use crate::board::{
    board_state, cell, check_board, count, lemma_place_count, lemma_state_either_way,
    lemma_winner_holds_line, place, spot_number, Board, BoardState, Tile,
};
use crate::book::lemma_empty_grid_is_safe;
use crate::search::{
    best_cell, computer_move, lemma_choice_is_first_best, lemma_move_keeps_score,
    lemma_reply_cannot_lower, nodes_below, score, two_marks,
};
use vstd::prelude::*;

verus! {

/// How a game ended.
#[derive(Clone, Copy, PartialEq, Eq, Debug, Structural)]
pub enum Ending {
    PlayerWins,
    ComputerWins,
    Tie,
}

/// What comes next in a game.
#[derive(Clone, Copy, PartialEq, Eq, Debug, Structural)]
pub enum Step {
    /// The player is to move.
    Player,
    /// The machine is to move.
    Computer,
    /// Nobody is: the game is over.
    Over(Ending),
}

/// The mark of the other side.
pub open spec fn other_mark(tile: Tile) -> Tile {
    match tile {
        Tile::X => Tile::O,
        Tile::O => Tile::X,
        Tile::Empty => Tile::Empty,
    }
}

/// A game from the empty grid on, in which the machine makes its own moves:
/// the grid, who plays which mark, and whose turn it is.
#[derive(Clone, Copy, Debug)]
pub struct Game {
    pub board: Board,
    pub player_tile: Tile,
    pub computer_tile: Tile,
    /// The mark of the side that is to move.
    pub turn: Tile,
}

impl Game {
    /// The two sides have one mark each, and have moved in turn, the crosses
    /// first: there are as many crosses as noughts where the crosses are to
    /// move, and one more where the noughts are.
    pub open spec fn in_turn(&self) -> bool {
        &&& two_marks(self.player_tile, self.computer_tile)
        &&& self.turn != Tile::Empty
        &&& count(self.board, Tile::X, 9) == count(self.board, Tile::O, 9) + if self.turn
            == Tile::O {
            1int
        } else {
            0int
        }
    }

    /// The state of a game that was played through `new`, `player_turn` and
    /// `computer_turn`: the sides have moved in turn, and the position is
    /// worth 0 or more to the machine.
    pub open spec fn wf(&self) -> bool {
        &&& self.in_turn()
        &&& score(
            self.board,
            self.player_tile,
            self.computer_tile,
            self.turn == self.computer_tile,
        ) >= 0
    }

    /// What comes next: nothing where the game is decided or the grid is
    /// full, and else the move of the side whose turn it is.
    pub open spec fn next_step(&self) -> Step {
        match board_state(self.board, self.player_tile, self.computer_tile) {
            BoardState::Win(tile) => Step::Over(
                if tile == self.player_tile {
                    Ending::PlayerWins
                } else {
                    Ending::ComputerWins
                },
            ),
            BoardState::Tie => Step::Over(Ending::Tie),
            BoardState::Continue => if self.turn == self.player_tile {
                Step::Player
            } else {
                Step::Computer
            },
        }
    }

    /// A new game on the empty grid. The crosses move first.
    pub fn new(player_tile: Tile, computer_tile: Tile) -> (game: Game)
        requires
            two_marks(player_tile, computer_tile),
        ensures
            game.wf(),
            forall|i: int| 0 <= i < 9 ==> cell(game.board, i) == Tile::Empty,
            game.player_tile == player_tile,
            game.computer_tile == computer_tile,
            game.turn == Tile::X,
    {
        let row = [Tile::Empty; 3];
        let board = [row; 3];
        proof {
            assert forall|i: int| 0 <= i < 9 implies cell(board, i) == Tile::Empty by {
                assert(board[i / 3] == row);
                assert(row[i % 3] == Tile::Empty);
            }
            reveal_with_fuel(count, 10);
            lemma_empty_grid_is_safe(board, player_tile, computer_tile, computer_tile == Tile::X);
        }
        Game { board, player_tile, computer_tile, turn: Tile::X }
    }

    /// Says what comes next. In a game that was played through `new`,
    /// `player_turn` and `computer_turn` the player has never won.
    pub fn step(&self) -> (step: Step)
        ensures
            step == self.next_step(),
            self.wf() ==> step != Step::Over(Ending::PlayerWins),
    {
        match check_board(&self.board, self.player_tile, self.computer_tile) {
            BoardState::Win(tile) => if tile == self.player_tile {
                Step::Over(Ending::PlayerWins)
            } else {
                Step::Over(Ending::ComputerWins)
            },
            BoardState::Tie => Step::Over(Ending::Tie),
            BoardState::Continue => if self.turn == self.player_tile {
                Step::Player
            } else {
                Step::Computer
            },
        }
    }

    /// Puts the mark of the side whose turn it is on the cell `spot`, and
    /// hands the turn to the other side.
    fn put(&mut self, spot: [usize; 2])
        requires
            old(self).in_turn(),
            spot[0] < 3,
            spot[1] < 3,
            cell(old(self).board, spot_number(spot)) == Tile::Empty,
        ensures
            final(self).in_turn(),
            final(self).board == place(old(self).board, spot_number(spot), old(self).turn),
            final(self).turn == other_mark(old(self).turn),
            final(self).player_tile == old(self).player_tile,
            final(self).computer_tile == old(self).computer_tile,
    {
        proof {
            lemma_place_count(self.board, spot_number(spot), self.turn, Tile::X, 9);
            lemma_place_count(self.board, spot_number(spot), self.turn, Tile::O, 9);
        }
        let mut board = self.board;
        board[spot[1]][spot[0]] = self.turn;
        assert(board == place(self.board, spot_number(spot), self.turn));
        self.board = board;
        self.turn = match self.turn {
            Tile::X => Tile::O,
            Tile::O => Tile::X,
            Tile::Empty => Tile::Empty,
        };
    }

    /// Makes the player's move `spot`, given as column and row, and hands
    /// the turn to the machine.
    pub fn player_turn(&mut self, spot: [usize; 2])
        requires
            old(self).wf(),
            old(self).next_step() == Step::Player,
            spot[0] < 3,
            spot[1] < 3,
            cell(old(self).board, spot_number(spot)) == Tile::Empty,
        ensures
            final(self).wf(),
            final(self).board == place(
                old(self).board,
                spot_number(spot),
                old(self).player_tile,
            ),
            opponent_moved(
                old(self).board,
                final(self).board,
                old(self).player_tile,
                old(self).computer_tile,
            ),
            final(self).turn == old(self).computer_tile,
            final(self).player_tile == old(self).player_tile,
            final(self).computer_tile == old(self).computer_tile,
    {
        proof {
            lemma_reply_cannot_lower(
                self.board,
                self.player_tile,
                self.computer_tile,
                spot_number(spot),
            );
        }
        self.put(spot);
    }

    /// Lets the machine choose its move and make it, and hands the turn to
    /// the player. The answer is the move, as column and row; `iterations`
    /// grows by the number of positions that the search looked at.
    pub fn computer_turn(&mut self, iterations: &mut i32) -> (spot: [usize; 2])
        requires
            old(self).wf(),
            old(self).next_step() == Step::Computer,
            *old(iterations) + nodes_below(
                old(self).board,
                old(self).player_tile,
                old(self).computer_tile,
                true,
                9,
            ) <= i32::MAX,
        ensures
            final(self).wf(),
            spot[0] < 3,
            spot[1] < 3,
            spot_number(spot) == best_cell(
                old(self).board,
                old(self).player_tile,
                old(self).computer_tile,
                9,
            ),
            machine_moved(
                old(self).board,
                final(self).board,
                old(self).player_tile,
                old(self).computer_tile,
            ),
            final(self).turn == old(self).player_tile,
            final(self).player_tile == old(self).player_tile,
            final(self).computer_tile == old(self).computer_tile,
            *final(iterations) == *old(iterations) + nodes_below(
                old(self).board,
                old(self).player_tile,
                old(self).computer_tile,
                true,
                9,
            ),
    {
        proof {
            lemma_move_keeps_score(self.board, self.player_tile, self.computer_tile);
        }
        let spot = computer_move(&self.board, self.player_tile, self.computer_tile, iterations);
        self.put(spot);
        spot
    }
}

/// `next` is `board` after the machine's move: play goes on at `board`, and
/// the machine marks the cell of its choice.
pub open spec fn machine_moved(
    board: Board,
    next: Board,
    player_tile: Tile,
    computer_tile: Tile,
) -> bool {
    &&& board_state(board, player_tile, computer_tile) == BoardState::Continue
    &&& next == place(board, best_cell(board, player_tile, computer_tile, 9), computer_tile)
}

/// `next` is `board` after a move of the opponent: play goes on at `board`,
/// and the opponent marks any one empty cell.
pub open spec fn opponent_moved(
    board: Board,
    next: Board,
    player_tile: Tile,
    computer_tile: Tile,
) -> bool {
    &&& board_state(board, player_tile, computer_tile) == BoardState::Continue
    &&& exists|i: int|
        0 <= i < 9 && cell(board, i) == Tile::Empty && next == #[trigger] place(
            board,
            i,
            player_tile,
        )
}

/// The machine is to move at the position with number `t` of a game in which
/// it moves first, or does not, as `machine_first` says.
pub open spec fn machine_to_move(machine_first: bool, t: int) -> bool {
    machine_first == (t % 2 == 0)
}

/// `positions` are the positions of a game in their order: the two sides
/// move in turn, the machine as it chooses and its opponent at will.
pub open spec fn is_game(
    positions: Seq<Board>,
    player_tile: Tile,
    computer_tile: Tile,
    machine_first: bool,
) -> bool {
    forall|t: int|
        0 <= t < positions.len() - 1 ==> if machine_to_move(machine_first, t) {
            machine_moved(#[trigger] positions[t], positions[t + 1], player_tile, computer_tile)
        } else {
            opponent_moved(positions[t], positions[t + 1], player_tile, computer_tile)
        }
}

/// A position that is worth 0 or more to the machine is not one that its
/// opponent has won.
pub proof fn lemma_not_lost(
    board: Board,
    player_tile: Tile,
    computer_tile: Tile,
    maximizing: bool,
)
    requires
        two_marks(player_tile, computer_tile),
        score(board, player_tile, computer_tile, maximizing) >= 0,
    ensures
        board_state(board, player_tile, computer_tile) != BoardState::Win(player_tile),
{
}

/// The machine does not lose a game that it need not lose. In a game that
/// starts from a position worth 0 or more to the machine, whatever its
/// opponent plays, every position is worth 0 or more to it, and none is won
/// by the opponent.
pub proof fn lemma_machine_never_loses(
    positions: Seq<Board>,
    player_tile: Tile,
    computer_tile: Tile,
    machine_first: bool,
    t: int,
)
    requires
        two_marks(player_tile, computer_tile),
        is_game(positions, player_tile, computer_tile, machine_first),
        0 <= t < positions.len(),
        score(positions[0], player_tile, computer_tile, machine_first) >= 0,
    ensures
        score(
            positions[t],
            player_tile,
            computer_tile,
            machine_to_move(machine_first, t),
        ) >= 0,
        board_state(positions[t], player_tile, computer_tile) != BoardState::Win(player_tile),
    decreases t,
{
    if t > 0 {
        lemma_machine_never_loses(positions, player_tile, computer_tile, machine_first, t - 1);
        let board = positions[t - 1];
        if machine_to_move(machine_first, t - 1) {
            assert(machine_moved(board, positions[t], player_tile, computer_tile));
            lemma_move_keeps_score(board, player_tile, computer_tile);
        } else {
            assert(opponent_moved(board, positions[t], player_tile, computer_tile));
            let i = choose|i: int|
                0 <= i < 9 && cell(board, i) == Tile::Empty && positions[t] == #[trigger] place(
                    board,
                    i,
                    player_tile,
                );
            lemma_reply_cannot_lower(board, player_tile, computer_tile, i);
        }
    }
    lemma_not_lost(
        positions[t],
        player_tile,
        computer_tile,
        machine_to_move(machine_first, t),
    );
}

/// The machine does not lose a game that starts on the empty grid, whether
/// it moves first or second and whatever its opponent plays: no position of
/// the game is won by the opponent.
pub proof fn lemma_machine_never_loses_from_the_start(
    positions: Seq<Board>,
    player_tile: Tile,
    computer_tile: Tile,
    machine_first: bool,
    t: int,
)
    requires
        two_marks(player_tile, computer_tile),
        is_game(positions, player_tile, computer_tile, machine_first),
        0 <= t < positions.len(),
        forall|i: int| 0 <= i < 9 ==> cell(positions[0], i) == Tile::Empty,
    ensures
        board_state(positions[t], player_tile, computer_tile) != BoardState::Win(player_tile),
{
    lemma_empty_grid_is_safe(positions[0], player_tile, computer_tile, machine_first);
    lemma_machine_never_loses(positions, player_tile, computer_tile, machine_first, t);
}

/// `positions` are the positions of a game that the machine plays against
/// itself: `first` and `second` are the marks of the side that moves first
/// and of the other, and each side makes the move that the machine would
/// choose in its place.
pub open spec fn is_machine_game(positions: Seq<Board>, first: Tile, second: Tile) -> bool {
    forall|t: int|
        0 <= t < positions.len() - 1 ==> if t % 2 == 0 {
            machine_moved(#[trigger] positions[t], positions[t + 1], second, first)
        } else {
            machine_moved(positions[t], positions[t + 1], first, second)
        }
}

/// The machine cannot beat itself: in a game that it plays against itself
/// from the empty grid on, no position is won by either side, so that the
/// game can only end in a tie.
pub proof fn lemma_machine_against_machine_ties(
    positions: Seq<Board>,
    first: Tile,
    second: Tile,
    t: int,
)
    requires
        two_marks(first, second),
        is_machine_game(positions, first, second),
        0 <= t < positions.len(),
        forall|i: int| 0 <= i < 9 ==> cell(positions[0], i) == Tile::Empty,
    ensures
        !(board_state(positions[t], first, second) is Win),
        board_state(positions[t], first, second) == board_state(positions[t], second, first),
{
    assert forall|u: int| 0 <= u < positions.len() - 1 implies if machine_to_move(true, u) {
        machine_moved(#[trigger] positions[u], positions[u + 1], second, first)
    } else {
        opponent_moved(positions[u], positions[u + 1], second, first)
    } by {
        if u % 2 != 0 {
            lemma_state_either_way(positions[u], first, second);
            lemma_choice_is_first_best(positions[u], first, second);
        }
    }
    assert forall|u: int| 0 <= u < positions.len() - 1 implies if machine_to_move(false, u) {
        machine_moved(#[trigger] positions[u], positions[u + 1], first, second)
    } else {
        opponent_moved(positions[u], positions[u + 1], first, second)
    } by {
        if u % 2 == 0 {
            lemma_state_either_way(positions[u], first, second);
            lemma_choice_is_first_best(positions[u], second, first);
        }
    }
    lemma_machine_never_loses_from_the_start(positions, second, first, true, t);
    lemma_machine_never_loses_from_the_start(positions, first, second, false, t);
    lemma_state_either_way(positions[t], first, second);
    lemma_winner_holds_line(positions[t], first, second);
}

} // verus!
