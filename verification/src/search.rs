//! The exhaustive search: every continuation of a position is played out, the
//! machine taking the best reply for itself and expecting the best from its
//! opponent.
//!
//! A score is what a position is worth to the machine: 1 for a win that it
//! can force, -1 for a loss that it cannot avoid, 0 for a tie. The moves are
//! tried cell by cell, row by row; of several moves with the best score the
//! machine takes the first.

use crate::board::{
    board_state, cell, check_board, is_full, lemma_full_no_vacancy, lemma_place_fills,
    lemma_state_either_way, lemma_tally_counts, lemma_tally_grows, lemma_tally_within,
    lemma_winner_holds_line, place, spot_number, tally, vacancies, Board, BoardState, Tile,
};
use vstd::prelude::*;

verus! {

/// The most positions that one search can look at: what the search from the
/// empty grid would look at if no line were ever held.
pub const MOST_POSITIONS: i32 = 986_410;

/// The two players' tiles are the two marks, one each.
pub open spec fn two_marks(player_tile: Tile, computer_tile: Tile) -> bool {
    &&& player_tile != Tile::Empty
    &&& computer_tile != Tile::Empty
    &&& player_tile != computer_tile
}

/// The tile of the side that is to move: the machine's where the score is
/// being raised, its opponent's where it is being lowered.
pub open spec fn mover(player_tile: Tile, computer_tile: Tile, maximizing: bool) -> Tile {
    if maximizing {
        computer_tile
    } else {
        player_tile
    }
}

/// The score that the side to move keeps of `before`, the best so far, and
/// `reply`, the score of one more move: the greater for the machine, the
/// lesser for its opponent, and `before` where the two are equal.
pub open spec fn better(maximizing: bool, before: int, reply: int) -> int {
    if maximizing {
        if reply > before {
            reply
        } else {
            before
        }
    } else {
        if reply < before {
            reply
        } else {
            before
        }
    }
}

/// What a position is worth to the machine when both sides play as well as
/// can be: 1 where the machine has won, -1 where its opponent has, 0 for a
/// tie, and where play goes on the best that the side to move can reach.
/// `maximizing` says that the machine is to move.
pub open spec fn score(
    board: Board,
    player_tile: Tile,
    computer_tile: Tile,
    maximizing: bool,
) -> int
    decreases vacancies(board), 10int,
    when two_marks(player_tile, computer_tile)
{
    match board_state(board, player_tile, computer_tile) {
        BoardState::Win(tile) => if tile == player_tile {
            -1
        } else {
            1
        },
        BoardState::Tie => 0,
        BoardState::Continue => best_reply(board, player_tile, computer_tile, maximizing, 9),
    }
}

/// The best that the side to move gets from a move on one of the first `n`
/// cells: the greatest score of the positions that follow where the machine
/// moves, the least where its opponent does. With no such move it is -2 for
/// the machine and 2 for its opponent, which any move betters.
pub open spec fn best_reply(
    board: Board,
    player_tile: Tile,
    computer_tile: Tile,
    maximizing: bool,
    n: int,
) -> int
    decreases vacancies(board), n,
    when two_marks(player_tile, computer_tile)
{
    if n <= 0 || n > 9 {
        if maximizing {
            -2
        } else {
            2
        }
    } else {
        let before = best_reply(board, player_tile, computer_tile, maximizing, n - 1);
        if cell(board, n - 1) == Tile::Empty {
            proof {
                lemma_place_fills(board, n - 1, mover(player_tile, computer_tile, maximizing));
            }
            let reply = score(
                place(board, n - 1, mover(player_tile, computer_tile, maximizing)),
                player_tile,
                computer_tile,
                !maximizing,
            );
            better(maximizing, before, reply)
        } else {
            before
        }
    }
}

/// What the machine's move on cell `i` is worth to it: the score of the
/// position that the move leaves, with its opponent to move.
pub open spec fn move_score(board: Board, player_tile: Tile, computer_tile: Tile, i: int) -> int {
    score(place(board, i, computer_tile), player_tile, computer_tile, false)
}

/// The machine's choice among the first `n` cells: the empty cell with the
/// greatest score, and of several such the one with the lowest number. It is
/// -1 where none of the `n` cells is empty.
pub open spec fn best_cell(board: Board, player_tile: Tile, computer_tile: Tile, n: int) -> int
    decreases n,
{
    if n <= 0 || n > 9 {
        -1
    } else {
        let before = best_cell(board, player_tile, computer_tile, n - 1);
        if cell(board, n - 1) == Tile::Empty && (before < 0 || move_score(
            board,
            player_tile,
            computer_tile,
            n - 1,
        ) > move_score(board, player_tile, computer_tile, before)) {
            n - 1
        } else {
            before
        }
    }
}

/// How many positions the search looks at from `board` on, `board` itself
/// counted.
pub open spec fn nodes(
    board: Board,
    player_tile: Tile,
    computer_tile: Tile,
    maximizing: bool,
) -> nat
    decreases vacancies(board), 10int,
    when two_marks(player_tile, computer_tile)
{
    if board_state(board, player_tile, computer_tile) == BoardState::Continue {
        1 + nodes_below(board, player_tile, computer_tile, maximizing, 9)
    } else {
        1
    }
}

/// How many positions the search looks at after a move on one of the first
/// `n` cells.
pub open spec fn nodes_below(
    board: Board,
    player_tile: Tile,
    computer_tile: Tile,
    maximizing: bool,
    n: int,
) -> nat
    decreases vacancies(board), n,
    when two_marks(player_tile, computer_tile)
{
    if n <= 0 || n > 9 {
        0
    } else if cell(board, n - 1) == Tile::Empty {
        proof {
            lemma_place_fills(board, n - 1, mover(player_tile, computer_tile, maximizing));
        }
        nodes_below(board, player_tile, computer_tile, maximizing, n - 1) + nodes(
            place(board, n - 1, mover(player_tile, computer_tile, maximizing)),
            player_tile,
            computer_tile,
            !maximizing,
        )
    } else {
        nodes_below(board, player_tile, computer_tile, maximizing, n - 1)
    }
}

/// The most positions that a search looks at from a position with `v` empty
/// cells on: the position itself, and for each of the `v` moves what a
/// position with one empty cell fewer allows.
pub open spec fn most_nodes(v: nat) -> nat
    decreases v,
{
    if v == 0 {
        1
    } else {
        1 + v * most_nodes((v - 1) as nat)
    }
}

/// `spots` lists the empty cells of `board`, each once, row by row.
pub open spec fn lists_empty_cells(board: Board, spots: Seq<[usize; 2]>) -> bool {
    &&& forall|x: int|
        0 <= x < spots.len() ==> {
            &&& (#[trigger] spots[x])[0] < 3
            &&& spots[x][1] < 3
            &&& cell(board, spot_number(spots[x])) == Tile::Empty
        }
    &&& forall|x: int, y: int|
        0 <= x < y < spots.len() ==> spot_number(#[trigger] spots[x]) < spot_number(
            #[trigger] spots[y],
        )
    &&& forall|i: int|
        0 <= i < 9 && #[trigger] cell(board, i) == Tile::Empty ==> exists|x: int|
            0 <= x < spots.len() && spot_number(#[trigger] spots[x]) == i
}

/// `spots` lists the empty cells among the first `n` cells of `board`, each
/// once, row by row.
spec fn lists_empty_cells_before(board: Board, spots: Seq<[usize; 2]>, n: int) -> bool {
    &&& spots.len() == tally(board, n)
    &&& forall|x: int|
        0 <= x < spots.len() ==> {
            &&& (#[trigger] spots[x])[0] < 3
            &&& spots[x][1] < 3
            &&& spot_number(spots[x]) < n
            &&& cell(board, spot_number(spots[x])) == Tile::Empty
        }
    &&& forall|x: int, y: int|
        0 <= x < y < spots.len() ==> spot_number(#[trigger] spots[x]) < spot_number(
            #[trigger] spots[y],
        )
    &&& forall|i: int|
        0 <= i < n && #[trigger] cell(board, i) == Tile::Empty ==> exists|x: int|
            0 <= x < spots.len() && spot_number(#[trigger] spots[x]) == i
}

/// The number of the cell at which the search stands when it has tried the
/// first `x` of `spots`: the cell of the next one, or 9 when none is left.
spec fn frontier(spots: Seq<[usize; 2]>, x: int) -> int {
    if x < spots.len() {
        spot_number(spots[x])
    } else {
        9
    }
}

/// The moves that are open on `board`, as column and row, in the order in
/// which the search tries them: row by row, and from left to right within a
/// row.
pub fn empty_tiles(board: &Board) -> (spots: Vec<[usize; 2]>)
    ensures
        lists_empty_cells(*board, spots@),
        spots@.len() == vacancies(*board),
{
    let mut spots: Vec<[usize; 2]> = Vec::new();
    for row_index in 0..3usize
        invariant
            lists_empty_cells_before(*board, spots@, 3 * row_index),
    {
        for col_index in 0..3usize
            invariant
                row_index < 3,
                lists_empty_cells_before(*board, spots@, 3 * row_index + col_index),
        {
            let ghost before = spots@;
            let ghost at = 3 * row_index + col_index;
            if board[row_index][col_index] == Tile::Empty {
                spots.push([col_index, row_index]);
                assert(spot_number(spots@[before.len() as int]) == at);
            }
            assert forall|i: int| 0 <= i < at + 1 && #[trigger] cell(*board, i)
                == Tile::Empty implies exists|x: int|
                0 <= x < spots@.len() && spot_number(#[trigger] spots@[x]) == i by {
                if i < at {
                    let x = choose|x: int|
                        0 <= x < before.len() && spot_number(#[trigger] before[x]) == i;
                    assert(spots@[x] == before[x]);
                } else {
                    assert(spot_number(spots@[before.len() as int]) == i);
                }
            }
        }
    }
    spots
}

/// Scores a position by playing out every continuation. The answer is 1
/// where the machine can force a win, -1 where its opponent can, and 0 where
/// neither can. `maximizing` says that the machine is to move. `iterations`
/// grows by the number of positions that were looked at.
pub fn minimax(
    board: &Board,
    player_tile: Tile,
    computer_tile: Tile,
    maximizing: bool,
    iterations: &mut i32,
) -> (result: i32)
    requires
        two_marks(player_tile, computer_tile),
        *old(iterations) + nodes(*board, player_tile, computer_tile, maximizing) <= i32::MAX,
    ensures
        result == score(*board, player_tile, computer_tile, maximizing),
        -1 <= result <= 1,
        *final(iterations) == *old(iterations) + nodes(
            *board,
            player_tile,
            computer_tile,
            maximizing,
        ),
    decreases vacancies(*board),
{
    *iterations += 1;

    let state = check_board(board, player_tile, computer_tile);
    proof {
        lemma_winner_holds_line(*board, player_tile, computer_tile);
        lemma_score_bounds(*board, player_tile, computer_tile, maximizing);
    }

    if state == BoardState::Win(player_tile) {
        return -1;
    } else if state == BoardState::Win(computer_tile) {
        return 1;
    } else if state == BoardState::Tie {
        return 0;
    }
    let tile = if maximizing {
        computer_tile
    } else {
        player_tile
    };
    let mut best_score: i32 = if maximizing {
        -2
    } else {
        2
    };
    let spots = empty_tiles(board);
    proof {
        lemma_walk_starts(*board, player_tile, computer_tile, maximizing, spots@);
    }
    let mut tried: usize = 0;
    while tried < spots.len()
        invariant
            two_marks(player_tile, computer_tile),
            tile == mover(player_tile, computer_tile, maximizing),
            lists_empty_cells(*board, spots@),
            tried <= spots.len(),
            *old(iterations) + 1 + nodes_below(*board, player_tile, computer_tile, maximizing, 9)
                <= i32::MAX,
            *iterations == *old(iterations) + 1 + nodes_below(
                *board,
                player_tile,
                computer_tile,
                maximizing,
                frontier(spots@, tried as int),
            ),
            best_score == best_reply(
                *board,
                player_tile,
                computer_tile,
                maximizing,
                frontier(spots@, tried as int),
            ),
        decreases spots.len() - tried,
    {
        let spot = spots[tried];
        let mut new_board = *board;
        new_board[spot[1]][spot[0]] = tile;
        proof {
            assert(new_board == place(*board, spot_number(spot), tile));
            lemma_walk_goes_on(
                *board,
                player_tile,
                computer_tile,
                maximizing,
                spots@,
                tried as int,
            );
        }
        let reply = minimax(&new_board, player_tile, computer_tile, !maximizing, iterations);
        if maximizing {
            if reply > best_score {
                best_score = reply;
            }
        } else {
            if reply < best_score {
                best_score = reply;
            }
        }
        tried += 1;
    }
    best_score
}

/// Picks the machine's move: the open cell that leaves the position with the
/// greatest score, and of several such cells the first, row by row. The
/// answer is the move as column and row. Equal grids and tiles give equal
/// moves: `iterations` only grows by the number of positions that were
/// looked at, and has no part in the choice.
pub fn computer_move(
    board: &Board,
    player_tile: Tile,
    computer_tile: Tile,
    iterations: &mut i32,
) -> (best_move: [usize; 2])
    requires
        two_marks(player_tile, computer_tile),
        !is_full(*board),
        *old(iterations) + nodes_below(*board, player_tile, computer_tile, true, 9) <= i32::MAX,
    ensures
        best_move[0] < 3,
        best_move[1] < 3,
        spot_number(best_move) == best_cell(*board, player_tile, computer_tile, 9),
        cell(*board, spot_number(best_move)) == Tile::Empty,
        *final(iterations) == *old(iterations) + nodes_below(
            *board,
            player_tile,
            computer_tile,
            true,
            9,
        ),
{
    let mut best_score: i32 = -2;
    let mut best_move: [usize; 2] = [0; 2];
    let spots = empty_tiles(board);
    proof {
        lemma_walk_starts(*board, player_tile, computer_tile, true, spots@);
    }
    let mut tried: usize = 0;
    while tried < spots.len()
        invariant
            two_marks(player_tile, computer_tile),
            lists_empty_cells(*board, spots@),
            tried <= spots.len(),
            *old(iterations) + nodes_below(*board, player_tile, computer_tile, true, 9)
                <= i32::MAX,
            *iterations == *old(iterations) + nodes_below(
                *board,
                player_tile,
                computer_tile,
                true,
                frontier(spots@, tried as int),
            ),
            best_score == best_reply(
                *board,
                player_tile,
                computer_tile,
                true,
                frontier(spots@, tried as int),
            ),
            tried == 0 ==> best_cell(
                *board,
                player_tile,
                computer_tile,
                frontier(spots@, tried as int),
            ) == -1,
            tried > 0 ==> {
                &&& best_move[0] < 3
                &&& best_move[1] < 3
                &&& spot_number(best_move) == best_cell(
                    *board,
                    player_tile,
                    computer_tile,
                    frontier(spots@, tried as int),
                )
            },
        decreases spots.len() - tried,
    {
        let spot = spots[tried];
        let mut new_board = *board;
        new_board[spot[1]][spot[0]] = computer_tile;
        proof {
            assert(new_board == place(*board, spot_number(spot), computer_tile));
            lemma_walk_goes_on(*board, player_tile, computer_tile, true, spots@, tried as int);
            lemma_best_cell(*board, player_tile, computer_tile, spot_number(spot));
        }
        let reply = minimax(&new_board, player_tile, computer_tile, false, iterations);
        if reply > best_score {
            best_score = reply;
            best_move = spot;
        }
        tried += 1;
    }
    proof {
        lemma_full_no_vacancy(*board);
        lemma_best_cell(*board, player_tile, computer_tile, 9);
    }
    best_move
}

/// Cells that are taken add nothing: where none of the cells from `a` up to
/// `b` is empty, the first `b` cells give what the first `a` give.
proof fn lemma_taken_cells_add_nothing(
    board: Board,
    player_tile: Tile,
    computer_tile: Tile,
    maximizing: bool,
    a: int,
    b: int,
)
    requires
        two_marks(player_tile, computer_tile),
        0 <= a <= b <= 9,
        forall|j: int| a <= j < b ==> cell(board, j) != Tile::Empty,
    ensures
        best_reply(board, player_tile, computer_tile, maximizing, b) == best_reply(
            board,
            player_tile,
            computer_tile,
            maximizing,
            a,
        ),
        nodes_below(board, player_tile, computer_tile, maximizing, b) == nodes_below(
            board,
            player_tile,
            computer_tile,
            maximizing,
            a,
        ),
        best_cell(board, player_tile, computer_tile, b) == best_cell(
            board,
            player_tile,
            computer_tile,
            a,
        ),
    decreases b - a,
{
    if a < b {
        lemma_taken_cells_add_nothing(board, player_tile, computer_tile, maximizing, a, b - 1);
    }
}

/// The count of the positions below grows with the number of cells.
proof fn lemma_nodes_below_grows(
    board: Board,
    player_tile: Tile,
    computer_tile: Tile,
    maximizing: bool,
    a: int,
    b: int,
)
    requires
        two_marks(player_tile, computer_tile),
        0 <= a <= b <= 9,
    ensures
        nodes_below(board, player_tile, computer_tile, maximizing, a) <= nodes_below(
            board,
            player_tile,
            computer_tile,
            maximizing,
            b,
        ),
    decreases b - a,
{
    if a < b {
        lemma_nodes_below_grows(board, player_tile, computer_tile, maximizing, a, b - 1);
    }
}

/// Between one listed move and the next no cell is empty, nor before the
/// first, nor after the last.
proof fn lemma_gap_is_taken(board: Board, spots: Seq<[usize; 2]>, x: int)
    requires
        lists_empty_cells(board, spots),
        0 <= x <= spots.len(),
    ensures
        0 <= frontier(spots, x) <= 9,
        x > 0 ==> frontier(spots, x - 1) < frontier(spots, x),
        forall|j: int|
            (if x > 0 {
                frontier(spots, x - 1) + 1
            } else {
                0
            }) <= j < frontier(spots, x) ==> cell(board, j) != Tile::Empty,
{
    let low = if x > 0 {
        frontier(spots, x - 1) + 1
    } else {
        0
    };
    assert forall|j: int| low <= j < frontier(spots, x) implies cell(board, j)
        != Tile::Empty by {
        if cell(board, j) == Tile::Empty {
            let y = choose|y: int| 0 <= y < spots.len() && spot_number(#[trigger] spots[y]) == j;
            if x > 0 && y < x - 1 {
                assert(spot_number(spots[y]) < spot_number(spots[x - 1]));
            }
            if x < spots.len() && y > x {
                assert(spot_number(spots[x]) < spot_number(spots[y]));
            }
        }
    }
}

/// Before the first listed move nothing has been gained, counted or chosen.
proof fn lemma_walk_starts(
    board: Board,
    player_tile: Tile,
    computer_tile: Tile,
    maximizing: bool,
    spots: Seq<[usize; 2]>,
)
    requires
        two_marks(player_tile, computer_tile),
        lists_empty_cells(board, spots),
    ensures
        best_reply(board, player_tile, computer_tile, maximizing, frontier(spots, 0)) == (
        if maximizing {
            -2int
        } else {
            2int
        }),
        nodes_below(board, player_tile, computer_tile, maximizing, frontier(spots, 0)) == 0,
        best_cell(board, player_tile, computer_tile, frontier(spots, 0)) == -1,
{
    lemma_gap_is_taken(board, spots, 0);
    lemma_taken_cells_add_nothing(
        board,
        player_tile,
        computer_tile,
        maximizing,
        0,
        frontier(spots, 0),
    );
}

/// The step from one listed move to the next: the move `spots[x]` is on an
/// empty cell; the search of the position that it leaves fits into what the
/// whole search looks at; and the cells up to the next listed move give what
/// the cells up to and with this one give.
proof fn lemma_walk_goes_on(
    board: Board,
    player_tile: Tile,
    computer_tile: Tile,
    maximizing: bool,
    spots: Seq<[usize; 2]>,
    x: int,
)
    requires
        two_marks(player_tile, computer_tile),
        lists_empty_cells(board, spots),
        0 <= x < spots.len(),
    ensures
        0 <= frontier(spots, x) < 9,
        cell(board, frontier(spots, x)) == Tile::Empty,
        vacancies(place(board, frontier(spots, x), mover(player_tile, computer_tile, maximizing)))
            < vacancies(board),
        nodes_below(board, player_tile, computer_tile, maximizing, frontier(spots, x) + 1)
            <= nodes_below(board, player_tile, computer_tile, maximizing, 9),
        best_reply(board, player_tile, computer_tile, maximizing, frontier(spots, x + 1))
            == best_reply(board, player_tile, computer_tile, maximizing, frontier(spots, x) + 1),
        nodes_below(board, player_tile, computer_tile, maximizing, frontier(spots, x + 1))
            == nodes_below(board, player_tile, computer_tile, maximizing, frontier(spots, x) + 1),
        best_cell(board, player_tile, computer_tile, frontier(spots, x + 1)) == best_cell(
            board,
            player_tile,
            computer_tile,
            frontier(spots, x) + 1,
        ),
{
    let at = frontier(spots, x);
    assert(spots[x][0] < 3 && spots[x][1] < 3);
    lemma_place_fills(board, at, mover(player_tile, computer_tile, maximizing));
    lemma_nodes_below_grows(board, player_tile, computer_tile, maximizing, at + 1, 9);
    lemma_gap_is_taken(board, spots, x + 1);
    lemma_taken_cells_add_nothing(
        board,
        player_tile,
        computer_tile,
        maximizing,
        at + 1,
        frontier(spots, x + 1),
    );
}

/// A score is -1, 0 or 1.
pub proof fn lemma_score_bounds(
    board: Board,
    player_tile: Tile,
    computer_tile: Tile,
    maximizing: bool,
)
    requires
        two_marks(player_tile, computer_tile),
    ensures
        -1 <= score(board, player_tile, computer_tile, maximizing) <= 1,
    decreases vacancies(board), 10int,
{
    if board_state(board, player_tile, computer_tile) == BoardState::Continue {
        lemma_full_no_vacancy(board);
        lemma_best_reply_bounds(board, player_tile, computer_tile, maximizing, 9);
    }
}

/// What one side gains the other loses: with the two tiles exchanged, and
/// the other side to move in the machine's stead, the score of a position is
/// the opposite number.
pub proof fn lemma_score_mirrors(
    board: Board,
    player_tile: Tile,
    computer_tile: Tile,
    maximizing: bool,
)
    requires
        two_marks(player_tile, computer_tile),
    ensures
        score(board, computer_tile, player_tile, !maximizing) == -score(
            board,
            player_tile,
            computer_tile,
            maximizing,
        ),
    decreases vacancies(board), 10int,
{
    lemma_state_either_way(board, player_tile, computer_tile);
    lemma_winner_holds_line(board, player_tile, computer_tile);
    if board_state(board, player_tile, computer_tile) == BoardState::Continue {
        lemma_best_reply_mirrors(board, player_tile, computer_tile, maximizing, 9);
    }
}

/// The best of the first `n` cells is the opposite number with the two
/// tiles exchanged and the other side to move in the machine's stead.
proof fn lemma_best_reply_mirrors(
    board: Board,
    player_tile: Tile,
    computer_tile: Tile,
    maximizing: bool,
    n: int,
)
    requires
        two_marks(player_tile, computer_tile),
        0 <= n <= 9,
    ensures
        best_reply(board, computer_tile, player_tile, !maximizing, n) == -best_reply(
            board,
            player_tile,
            computer_tile,
            maximizing,
            n,
        ),
    decreases vacancies(board), n,
{
    if n > 0 {
        lemma_best_reply_mirrors(board, player_tile, computer_tile, maximizing, n - 1);
        if cell(board, n - 1) == Tile::Empty {
            let tile = mover(player_tile, computer_tile, maximizing);
            lemma_place_fills(board, n - 1, tile);
            lemma_score_mirrors(place(board, n - 1, tile), player_tile, computer_tile, !maximizing);
        }
    }
}

/// The best of the first `n` cells is a score where one of them is empty,
/// and the starting value where none is.
proof fn lemma_best_reply_bounds(
    board: Board,
    player_tile: Tile,
    computer_tile: Tile,
    maximizing: bool,
    n: int,
)
    requires
        two_marks(player_tile, computer_tile),
        0 <= n <= 9,
    ensures
        tally(board, n) > 0 ==> -1 <= best_reply(
            board,
            player_tile,
            computer_tile,
            maximizing,
            n,
        ) <= 1,
        tally(board, n) == 0 ==> best_reply(board, player_tile, computer_tile, maximizing, n) == (
        if maximizing {
            -2int
        } else {
            2int
        }),
    decreases vacancies(board), n,
{
    if n > 0 {
        lemma_best_reply_bounds(board, player_tile, computer_tile, maximizing, n - 1);
        if cell(board, n - 1) == Tile::Empty {
            let tile = mover(player_tile, computer_tile, maximizing);
            lemma_place_fills(board, n - 1, tile);
            lemma_score_bounds(place(board, n - 1, tile), player_tile, computer_tile, !maximizing);
        }
    }
}

/// No move on one of the first `n` cells does better for the side to move
/// than the best of them: none scores higher where the machine moves, none
/// lower where its opponent does.
proof fn lemma_best_reply_is_best(
    board: Board,
    player_tile: Tile,
    computer_tile: Tile,
    maximizing: bool,
    n: int,
    i: int,
)
    requires
        two_marks(player_tile, computer_tile),
        0 <= i < n <= 9,
        cell(board, i) == Tile::Empty,
    ensures
        better(
            maximizing,
            best_reply(board, player_tile, computer_tile, maximizing, n),
            score(
                place(board, i, mover(player_tile, computer_tile, maximizing)),
                player_tile,
                computer_tile,
                !maximizing,
            ),
        ) == best_reply(board, player_tile, computer_tile, maximizing, n),
    decreases n,
{
    if i < n - 1 {
        lemma_best_reply_is_best(board, player_tile, computer_tile, maximizing, n - 1, i);
    }
}

/// Where one of the first `n` cells is empty, the best of them is the score
/// of a move on one of them, which is the answer.
proof fn lemma_best_reply_is_reached(
    board: Board,
    player_tile: Tile,
    computer_tile: Tile,
    maximizing: bool,
    n: int,
) -> (i: int)
    requires
        two_marks(player_tile, computer_tile),
        0 <= n <= 9,
        tally(board, n) > 0,
    ensures
        0 <= i < n,
        cell(board, i) == Tile::Empty,
        score(
            place(board, i, mover(player_tile, computer_tile, maximizing)),
            player_tile,
            computer_tile,
            !maximizing,
        ) == best_reply(board, player_tile, computer_tile, maximizing, n),
    decreases n,
{
    let before = best_reply(board, player_tile, computer_tile, maximizing, n - 1);
    if cell(board, n - 1) == Tile::Empty {
        let tile = mover(player_tile, computer_tile, maximizing);
        let reply = score(place(board, n - 1, tile), player_tile, computer_tile, !maximizing);
        if better(maximizing, before, reply) == reply {
            n - 1
        } else {
            lemma_place_fills(board, n - 1, tile);
            lemma_score_bounds(place(board, n - 1, tile), player_tile, computer_tile, !maximizing);
            lemma_best_reply_bounds(board, player_tile, computer_tile, maximizing, n - 1);
            lemma_best_reply_is_reached(board, player_tile, computer_tile, maximizing, n - 1)
        }
    } else {
        lemma_best_reply_is_reached(board, player_tile, computer_tile, maximizing, n - 1)
    }
}

/// Where play goes on, the score of a position is the score of the best move
/// of the side that is to move: the position that some move leaves has this
/// score, which is the answer, and no move leaves one that is better for
/// that side. In which order the moves are tried makes no difference to it.
pub proof fn lemma_score_is_best_move(
    board: Board,
    player_tile: Tile,
    computer_tile: Tile,
    maximizing: bool,
) -> (best: int)
    requires
        two_marks(player_tile, computer_tile),
        board_state(board, player_tile, computer_tile) == BoardState::Continue,
    ensures
        0 <= best < 9,
        cell(board, best) == Tile::Empty,
        score(
            place(board, best, mover(player_tile, computer_tile, maximizing)),
            player_tile,
            computer_tile,
            !maximizing,
        ) == score(board, player_tile, computer_tile, maximizing),
        forall|i: int|
            0 <= i < 9 && cell(board, i) == Tile::Empty ==> {
                let reply = score(
                    #[trigger] place(board, i, mover(player_tile, computer_tile, maximizing)),
                    player_tile,
                    computer_tile,
                    !maximizing,
                );
                if maximizing {
                    reply <= score(board, player_tile, computer_tile, maximizing)
                } else {
                    reply >= score(board, player_tile, computer_tile, maximizing)
                }
            },
{
    lemma_full_no_vacancy(board);
    assert forall|i: int| 0 <= i < 9 && cell(board, i) == Tile::Empty implies {
        let reply = score(
            #[trigger] place(board, i, mover(player_tile, computer_tile, maximizing)),
            player_tile,
            computer_tile,
            !maximizing,
        );
        if maximizing {
            reply <= score(board, player_tile, computer_tile, maximizing)
        } else {
            reply >= score(board, player_tile, computer_tile, maximizing)
        }
    } by {
        lemma_best_reply_is_best(board, player_tile, computer_tile, maximizing, 9, i);
    }
    lemma_best_reply_is_reached(board, player_tile, computer_tile, maximizing, 9)
}

/// The machine's choice among the first `n` cells is an empty cell whose
/// score is the best that these cells offer; it is -1 only where none of
/// them is empty.
proof fn lemma_best_cell(board: Board, player_tile: Tile, computer_tile: Tile, n: int)
    requires
        two_marks(player_tile, computer_tile),
        0 <= n <= 9,
    ensures
        -1 <= best_cell(board, player_tile, computer_tile, n) < n,
        best_cell(board, player_tile, computer_tile, n) < 0 ==> {
            &&& tally(board, n) == 0
            &&& best_reply(board, player_tile, computer_tile, true, n) == -2
        },
        best_cell(board, player_tile, computer_tile, n) >= 0 ==> {
            &&& tally(board, n) > 0
            &&& cell(board, best_cell(board, player_tile, computer_tile, n)) == Tile::Empty
            &&& move_score(
                board,
                player_tile,
                computer_tile,
                best_cell(board, player_tile, computer_tile, n),
            ) == best_reply(board, player_tile, computer_tile, true, n)
        },
    decreases n,
{
    if n > 0 {
        lemma_best_cell(board, player_tile, computer_tile, n - 1);
        if cell(board, n - 1) == Tile::Empty {
            lemma_place_fills(board, n - 1, computer_tile);
            lemma_score_bounds(
                place(board, n - 1, computer_tile),
                player_tile,
                computer_tile,
                false,
            );
        }
    }
}

/// An empty cell before the machine's choice among the first `n` cells
/// scores lower than the choice.
proof fn lemma_earlier_cells_score_lower(
    board: Board,
    player_tile: Tile,
    computer_tile: Tile,
    n: int,
    i: int,
)
    requires
        two_marks(player_tile, computer_tile),
        0 <= n <= 9,
        0 <= i < best_cell(board, player_tile, computer_tile, n),
        cell(board, i) == Tile::Empty,
    ensures
        move_score(board, player_tile, computer_tile, i) < move_score(
            board,
            player_tile,
            computer_tile,
            best_cell(board, player_tile, computer_tile, n),
        ),
    decreases n,
{
    let before = best_cell(board, player_tile, computer_tile, n - 1);
    lemma_best_cell(board, player_tile, computer_tile, n - 1);
    if best_cell(board, player_tile, computer_tile, n) == before {
        lemma_earlier_cells_score_lower(board, player_tile, computer_tile, n - 1, i);
    } else {
        lemma_tally_counts(board, n - 1, i);
        lemma_best_reply_is_best(board, player_tile, computer_tile, true, n - 1, i);
    }
}

/// The machine's choice on a grid with an empty cell: it is an empty cell, no
/// empty cell scores higher, and the empty cells before it score lower.
pub proof fn lemma_choice_is_first_best(board: Board, player_tile: Tile, computer_tile: Tile)
    requires
        two_marks(player_tile, computer_tile),
        !is_full(board),
    ensures
        0 <= best_cell(board, player_tile, computer_tile, 9) < 9,
        cell(board, best_cell(board, player_tile, computer_tile, 9)) == Tile::Empty,
        forall|i: int|
            0 <= i < 9 && cell(board, i) == Tile::Empty ==> #[trigger] move_score(
                board,
                player_tile,
                computer_tile,
                i,
            ) <= move_score(
                board,
                player_tile,
                computer_tile,
                best_cell(board, player_tile, computer_tile, 9),
            ),
        forall|i: int|
            0 <= i < best_cell(board, player_tile, computer_tile, 9) && cell(board, i)
                == Tile::Empty ==> #[trigger] move_score(board, player_tile, computer_tile, i)
                < move_score(
                board,
                player_tile,
                computer_tile,
                best_cell(board, player_tile, computer_tile, 9),
            ),
{
    lemma_full_no_vacancy(board);
    lemma_best_cell(board, player_tile, computer_tile, 9);
    let choice = best_cell(board, player_tile, computer_tile, 9);
    assert forall|i: int| 0 <= i < 9 && cell(board, i) == Tile::Empty implies #[trigger] move_score(
        board,
        player_tile,
        computer_tile,
        i,
    ) <= move_score(board, player_tile, computer_tile, choice) by {
        lemma_best_reply_is_best(board, player_tile, computer_tile, true, 9, i);
    }
    assert forall|i: int|
        0 <= i < choice && cell(board, i) == Tile::Empty implies #[trigger] move_score(
        board,
        player_tile,
        computer_tile,
        i,
    ) < move_score(board, player_tile, computer_tile, choice) by {
        lemma_earlier_cells_score_lower(board, player_tile, computer_tile, 9, i);
    }
}

/// The machine's move gives nothing away: where play goes on, the position
/// that the move leaves is worth what the position was worth before it.
pub proof fn lemma_move_keeps_score(board: Board, player_tile: Tile, computer_tile: Tile)
    requires
        two_marks(player_tile, computer_tile),
        board_state(board, player_tile, computer_tile) == BoardState::Continue,
    ensures
        move_score(
            board,
            player_tile,
            computer_tile,
            best_cell(board, player_tile, computer_tile, 9),
        ) == score(board, player_tile, computer_tile, true),
{
    lemma_full_no_vacancy(board);
    lemma_best_cell(board, player_tile, computer_tile, 9);
}

/// The opponent's move gains nothing: where play goes on, whatever cell the
/// opponent takes, the position is then worth to the machine at least what
/// it was worth before.
pub proof fn lemma_reply_cannot_lower(
    board: Board,
    player_tile: Tile,
    computer_tile: Tile,
    i: int,
)
    requires
        two_marks(player_tile, computer_tile),
        board_state(board, player_tile, computer_tile) == BoardState::Continue,
        0 <= i < 9,
        cell(board, i) == Tile::Empty,
    ensures
        score(place(board, i, player_tile), player_tile, computer_tile, true) >= score(
            board,
            player_tile,
            computer_tile,
            false,
        ),
{
    lemma_best_reply_is_best(board, player_tile, computer_tile, false, 9, i);
}

/// A search looks at no more positions than `most_nodes` allows for the
/// number of empty cells.
pub proof fn lemma_nodes_bounded(
    board: Board,
    player_tile: Tile,
    computer_tile: Tile,
    maximizing: bool,
)
    requires
        two_marks(player_tile, computer_tile),
    ensures
        nodes(board, player_tile, computer_tile, maximizing) <= most_nodes(vacancies(board)),
    decreases vacancies(board), 10int,
{
    if board_state(board, player_tile, computer_tile) == BoardState::Continue {
        lemma_nodes_below_bounded(board, player_tile, computer_tile, maximizing, 9);
        lemma_full_no_vacancy(board);
    }
}

/// The moves on the first `n` cells lead to no more positions than
/// `most_nodes` allows for each empty cell among them.
proof fn lemma_nodes_below_bounded(
    board: Board,
    player_tile: Tile,
    computer_tile: Tile,
    maximizing: bool,
    n: int,
)
    requires
        two_marks(player_tile, computer_tile),
        0 <= n <= 9,
    ensures
        tally(board, n) > 0 ==> vacancies(board) > 0,
        nodes_below(board, player_tile, computer_tile, maximizing, n) <= tally(board, n)
            * most_nodes((vacancies(board) - 1) as nat),
    decreases vacancies(board), n,
{
    if n > 0 {
        lemma_nodes_below_bounded(board, player_tile, computer_tile, maximizing, n - 1);
        lemma_tally_grows(board, n, 9);
        if cell(board, n - 1) == Tile::Empty {
            let tile = mover(player_tile, computer_tile, maximizing);
            lemma_place_fills(board, n - 1, tile);
            lemma_nodes_bounded(place(board, n - 1, tile), player_tile, computer_tile, !maximizing);
            let each = most_nodes((vacancies(board) - 1) as nat);
            assert((tally(board, n - 1) + 1) * each == tally(board, n - 1) * each + each)
                by (nonlinear_arith);
        }
    }
}

/// `most_nodes` grows with the number of empty cells.
proof fn lemma_most_nodes_grows(v: nat, w: nat)
    requires
        v <= w,
    ensures
        most_nodes(v) <= most_nodes(w),
    decreases w,
{
    if v < w {
        lemma_most_nodes_grows(v, (w - 1) as nat);
        assert(most_nodes((w - 1) as nat) <= w * most_nodes((w - 1) as nat)) by (nonlinear_arith)
            requires
                w >= 1,
        ;
    }
}

/// No search looks at more than `MOST_POSITIONS` positions, and the search
/// for a move looks at fewer. A count that starts at 0 therefore stays within
/// its type.
pub proof fn lemma_search_size(
    board: Board,
    player_tile: Tile,
    computer_tile: Tile,
    maximizing: bool,
)
    requires
        two_marks(player_tile, computer_tile),
    ensures
        nodes(board, player_tile, computer_tile, maximizing) <= MOST_POSITIONS,
        nodes_below(board, player_tile, computer_tile, maximizing, 9) < MOST_POSITIONS,
{
    let v = vacancies(board);
    lemma_nodes_bounded(board, player_tile, computer_tile, maximizing);
    lemma_nodes_below_bounded(board, player_tile, computer_tile, maximizing, 9);
    lemma_tally_within(board, 9);
    lemma_most_nodes_grows(v, 9);
    assert(most_nodes(9) == 986_410 && most_nodes(8) == 109_601) by {
        reveal_with_fuel(most_nodes, 10);
    }
    if v > 0 {
        lemma_most_nodes_grows((v - 1) as nat, 8);
        assert(v * most_nodes((v - 1) as nat) <= 9 * most_nodes(8)) by (nonlinear_arith)
            requires
                v <= 9,
                most_nodes((v - 1) as nat) <= most_nodes(8),
        ;
    }
}

} // verus!
