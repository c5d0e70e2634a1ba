//! Why the machine does not lose from the empty grid: for every move of its
//! opponent it has an answer that keeps it out of danger, down to the last
//! cell.
//!
//! A position with the opponent to move is called safe where it is worth 0 or
//! more to the machine. The argument goes through the positions that can
//! come up when the machine answers as laid down here, one lemma for each:
//! whatever cell the opponent takes, either the grid is then full, or the
//! machine has an answer that wins, that fills the grid, or that leads to
//! another of these positions. The search does at least as well as these
//! answers do, since it takes the best of all.

use crate::board::{
    all_marked, cell, holds_line, lemma_state_by_lines, place, Board, Tile,
};
use crate::search::{lemma_score_is_best_move, lemma_score_mirrors, score, two_marks};
use vstd::prelude::*;

verus! {

/// The tile of a cell without a mark.
const E: Tile = Tile::Empty;

/// The nine cells of `board` hold these tiles, row by row.
spec fn shows(
    board: Board,
    a: Tile,
    b: Tile,
    c: Tile,
    d: Tile,
    e: Tile,
    f: Tile,
    g: Tile,
    h: Tile,
    i: Tile,
) -> bool {
    &&& cell(board, 0) == a
    &&& cell(board, 1) == b
    &&& cell(board, 2) == c
    &&& cell(board, 3) == d
    &&& cell(board, 4) == e
    &&& cell(board, 5) == f
    &&& cell(board, 6) == g
    &&& cell(board, 7) == h
    &&& cell(board, 8) == i
}

/// `board` is worth 0 or more to the machine when its opponent is to move:
/// the machine need not lose from it.
#[verifier::opaque]
spec fn safe(board: Board, player_tile: Tile, computer_tile: Tile) -> bool {
    score(board, player_tile, computer_tile, false) >= 0
}

/// `board` after the opponent's move on cell `theirs` and the machine's
/// move on cell `ours`.
spec fn after(
    board: Board,
    player_tile: Tile,
    computer_tile: Tile,
    theirs: int,
    ours: int,
) -> Board {
    place(place(board, theirs, player_tile), ours, computer_tile)
}

/// The opponent's move on cell `theirs` does the machine no harm: it gives
/// the opponent no line, and unless it fills the grid the machine's move on
/// the empty cell `ours` leaves a position that is safe.
spec fn answered(
    board: Board,
    player_tile: Tile,
    computer_tile: Tile,
    theirs: int,
    ours: int,
) -> bool {
    let met = place(board, theirs, player_tile);
    &&& !holds_line(met, player_tile)
    &&& all_marked(met) || {
        &&& 0 <= ours < 9
        &&& cell(met, ours) == Tile::Empty
        &&& safe(
            after(board, player_tile, computer_tile, theirs, ours),
            player_tile,
            computer_tile,
        )
    }
}

/// What every step of the argument needs: how a mark changes the cells, and
/// that a position which the opponent has not won, and which is won by the
/// machine or full, is safe.
proof fn lemma_marks(player_tile: Tile, computer_tile: Tile)
    requires
        two_marks(player_tile, computer_tile),
    ensures
        forall|board: Board, i: int, tile: Tile, j: int|
            0 <= i < 9 && 0 <= j < 9 ==> #[trigger] cell(place(board, i, tile), j) == if j == i {
                tile
            } else {
                cell(board, j)
            },
        forall|board: Board|
            !holds_line(board, player_tile) && (holds_line(board, computer_tile) || all_marked(
                board,
            )) ==> #[trigger] safe(board, player_tile, computer_tile),
{
    reveal(safe);
    assert forall|board: Board|
        !holds_line(board, player_tile) && (holds_line(board, computer_tile) || all_marked(
            board,
        )) implies #[trigger] safe(board, player_tile, computer_tile) by {
        lemma_state_by_lines(board, player_tile, computer_tile);
    }
}

/// A position in which neither side holds a line, and in which every move
/// of the opponent is answered, is safe.
proof fn lemma_every_move_answered(board: Board, player_tile: Tile, computer_tile: Tile)
    requires
        two_marks(player_tile, computer_tile),
        !holds_line(board, player_tile),
        !holds_line(board, computer_tile),
        forall|theirs: int|
            0 <= theirs < 9 && cell(board, theirs) == Tile::Empty ==> exists|ours: int|
                #[trigger] answered(board, player_tile, computer_tile, theirs, ours),
    ensures
        safe(board, player_tile, computer_tile),
{
    reveal(safe);
    lemma_state_by_lines(board, player_tile, computer_tile);
    if !all_marked(board) {
        let theirs = lemma_score_is_best_move(board, player_tile, computer_tile, false);
        let ours = choose|ours: int|
            #[trigger] answered(board, player_tile, computer_tile, theirs, ours);
        let met = place(board, theirs, player_tile);
        lemma_marks(player_tile, computer_tile);
        lemma_state_by_lines(met, player_tile, computer_tile);
        assert(!holds_line(met, computer_tile));
        if !all_marked(met) {
            lemma_score_is_best_move(met, player_tile, computer_tile, true);
            assert(score(place(met, ours, computer_tile), player_tile, computer_tile, false)
                <= score(met, player_tile, computer_tile, true));
        }
    }
}


/// The empty grid is worth 0 or more to the machine, whoever moves first:
/// the machine need not lose the game.
pub proof fn lemma_empty_grid_is_safe(
    board: Board,
    player_tile: Tile,
    computer_tile: Tile,
    maximizing: bool,
)
    requires
        two_marks(player_tile, computer_tile),
        forall|i: int| 0 <= i < 9 ==> cell(board, i) == Tile::Empty,
    ensures
        score(board, player_tile, computer_tile, maximizing) >= 0,
{
    reveal(safe);
    lemma_marks(player_tile, computer_tile);
    if maximizing {
        lemma_state_by_lines(board, player_tile, computer_tile);
        lemma_score_is_best_move(board, player_tile, computer_tile, true);
        hold_ceeeeeeee(place(board, 0, computer_tile), player_tile, computer_tile);
        assert(score(place(board, 0, computer_tile), player_tile, computer_tile, false) <= score(
            board,
            player_tile,
            computer_tile,
            true,
        ));
    } else {
        hold_eeeeeeeee(board, player_tile, computer_tile);
    }
}

/// Under the best play of both sides the game is a tie: the empty grid is
/// worth 0 to the machine, whoever moves first.
pub proof fn lemma_empty_grid_is_a_tie(
    board: Board,
    player_tile: Tile,
    computer_tile: Tile,
    maximizing: bool,
)
    requires
        two_marks(player_tile, computer_tile),
        forall|i: int| 0 <= i < 9 ==> cell(board, i) == Tile::Empty,
    ensures
        score(board, player_tile, computer_tile, maximizing) == 0,
{
    lemma_empty_grid_is_safe(board, player_tile, computer_tile, maximizing);
    lemma_empty_grid_is_safe(board, computer_tile, player_tile, !maximizing);
    lemma_score_mirrors(board, player_tile, computer_tile, maximizing);
}

// The positions, each under the name of its nine cells row by row: `e` for
// an empty cell, `p` for a mark of the opponent, `c` for one of the machine.

proof fn hold_eeeeeeeee(board: Board, p: Tile, c: Tile)
    requires
        two_marks(p, c),
        shows(board, E, E, E, E, E, E, E, E, E),
    ensures
        safe(board, p, c),
{
    lemma_marks(p, c);
    hold_peeeceeee(after(board, p, c, 0, 4), p, c);
    hold_epeeceeee(after(board, p, c, 1, 4), p, c);
    hold_eepeceeee(after(board, p, c, 2, 4), p, c);
    hold_eeepceeee(after(board, p, c, 3, 4), p, c);
    hold_ceeepeeee(after(board, p, c, 4, 0), p, c);
    hold_eeeecpeee(after(board, p, c, 5, 4), p, c);
    hold_eeeecepee(after(board, p, c, 6, 4), p, c);
    hold_eeeeceepe(after(board, p, c, 7, 4), p, c);
    hold_eeeeceeep(after(board, p, c, 8, 4), p, c);
    assert(answered(board, p, c, 0, 4));
    assert(answered(board, p, c, 1, 4));
    assert(answered(board, p, c, 2, 4));
    assert(answered(board, p, c, 3, 4));
    assert(answered(board, p, c, 4, 0));
    assert(answered(board, p, c, 5, 4));
    assert(answered(board, p, c, 6, 4));
    assert(answered(board, p, c, 7, 4));
    assert(answered(board, p, c, 8, 4));
    lemma_every_move_answered(board, p, c);
}

proof fn hold_ceeeeeeee(board: Board, p: Tile, c: Tile)
    requires
        two_marks(p, c),
        shows(board, c, E, E, E, E, E, E, E, E),
    ensures
        safe(board, p, c),
{
    lemma_marks(p, c);
    hold_cpeceeeee(after(board, p, c, 1, 3), p, c);
    hold_cepceeeee(after(board, p, c, 2, 3), p, c);
    hold_ccepeeeee(after(board, p, c, 3, 1), p, c);
    hold_cceepeeee(after(board, p, c, 4, 1), p, c);
    hold_ceceepeee(after(board, p, c, 5, 2), p, c);
    hold_cceeeepee(after(board, p, c, 6, 1), p, c);
    hold_ceceeeepe(after(board, p, c, 7, 2), p, c);
    hold_ceceeeeep(after(board, p, c, 8, 2), p, c);
    assert(answered(board, p, c, 1, 3));
    assert(answered(board, p, c, 2, 3));
    assert(answered(board, p, c, 3, 1));
    assert(answered(board, p, c, 4, 1));
    assert(answered(board, p, c, 5, 2));
    assert(answered(board, p, c, 6, 1));
    assert(answered(board, p, c, 7, 2));
    assert(answered(board, p, c, 8, 2));
    lemma_every_move_answered(board, p, c);
}

proof fn hold_eeeeceeep(board: Board, p: Tile, c: Tile)
    requires
        two_marks(p, c),
        shows(board, E, E, E, E, c, E, E, E, p),
    ensures
        safe(board, p, c),
{
    lemma_marks(p, c);
    hold_pceeceeep(after(board, p, c, 0, 1), p, c);
    hold_epecceeep(after(board, p, c, 1, 3), p, c);
    hold_eepecceep(after(board, p, c, 2, 5), p, c);
    hold_ecepceeep(after(board, p, c, 3, 1), p, c);
    hold_eececpeep(after(board, p, c, 5, 2), p, c);
    hold_eeeecepcp(after(board, p, c, 6, 7), p, c);
    hold_eeeececpp(after(board, p, c, 7, 6), p, c);
    assert(answered(board, p, c, 0, 1));
    assert(answered(board, p, c, 1, 3));
    assert(answered(board, p, c, 2, 5));
    assert(answered(board, p, c, 3, 1));
    assert(answered(board, p, c, 5, 2));
    assert(answered(board, p, c, 6, 7));
    assert(answered(board, p, c, 7, 6));
    lemma_every_move_answered(board, p, c);
}

proof fn hold_eeeeceepe(board: Board, p: Tile, c: Tile)
    requires
        two_marks(p, c),
        shows(board, E, E, E, E, c, E, E, p, E),
    ensures
        safe(board, p, c),
{
    lemma_marks(p, c);
    hold_peecceepe(after(board, p, c, 0, 3), p, c);
    hold_cpeeceepe(after(board, p, c, 1, 0), p, c);
    hold_eepcceepe(after(board, p, c, 2, 3), p, c);
    hold_ceepceepe(after(board, p, c, 3, 0), p, c);
    hold_eececpepe(after(board, p, c, 5, 2), p, c);
    hold_eeeeceppc(after(board, p, c, 6, 8), p, c);
    hold_eeeececpp(after(board, p, c, 8, 6), p, c);
    assert(answered(board, p, c, 0, 3));
    assert(answered(board, p, c, 1, 0));
    assert(answered(board, p, c, 2, 3));
    assert(answered(board, p, c, 3, 0));
    assert(answered(board, p, c, 5, 2));
    assert(answered(board, p, c, 6, 8));
    assert(answered(board, p, c, 8, 6));
    lemma_every_move_answered(board, p, c);
}

proof fn hold_eeeecepee(board: Board, p: Tile, c: Tile)
    requires
        two_marks(p, c),
        shows(board, E, E, E, E, c, E, p, E, E),
    ensures
        safe(board, p, c),
{
    lemma_marks(p, c);
    hold_peeccepee(after(board, p, c, 0, 3), p, c);
    hold_epeccepee(after(board, p, c, 1, 3), p, c);
    hold_ecpecepee(after(board, p, c, 2, 1), p, c);
    hold_ceepcepee(after(board, p, c, 3, 0), p, c);
    hold_eceecppee(after(board, p, c, 5, 1), p, c);
    hold_eeeeceppc(after(board, p, c, 7, 8), p, c);
    hold_eeeecepcp(after(board, p, c, 8, 7), p, c);
    assert(answered(board, p, c, 0, 3));
    assert(answered(board, p, c, 1, 3));
    assert(answered(board, p, c, 2, 1));
    assert(answered(board, p, c, 3, 0));
    assert(answered(board, p, c, 5, 1));
    assert(answered(board, p, c, 7, 8));
    assert(answered(board, p, c, 8, 7));
    lemma_every_move_answered(board, p, c);
}

proof fn hold_eeeecpeee(board: Board, p: Tile, c: Tile)
    requires
        two_marks(p, c),
        shows(board, E, E, E, E, c, p, E, E, E),
    ensures
        safe(board, p, c),
{
    lemma_marks(p, c);
    hold_pceecpeee(after(board, p, c, 0, 1), p, c);
    hold_cpeecpeee(after(board, p, c, 1, 0), p, c);
    hold_eepecpeec(after(board, p, c, 2, 8), p, c);
    hold_ceepcpeee(after(board, p, c, 3, 0), p, c);
    hold_eceecppee(after(board, p, c, 6, 1), p, c);
    hold_eececpepe(after(board, p, c, 7, 2), p, c);
    hold_eececpeep(after(board, p, c, 8, 2), p, c);
    assert(answered(board, p, c, 0, 1));
    assert(answered(board, p, c, 1, 0));
    assert(answered(board, p, c, 2, 8));
    assert(answered(board, p, c, 3, 0));
    assert(answered(board, p, c, 6, 1));
    assert(answered(board, p, c, 7, 2));
    assert(answered(board, p, c, 8, 2));
    lemma_every_move_answered(board, p, c);
}

proof fn hold_eeepceeee(board: Board, p: Tile, c: Tile)
    requires
        two_marks(p, c),
        shows(board, E, E, E, p, c, E, E, E, E),
    ensures
        safe(board, p, c),
{
    lemma_marks(p, c);
    hold_peepcecee(after(board, p, c, 0, 6), p, c);
    hold_cpepceeee(after(board, p, c, 1, 0), p, c);
    hold_ecppceeee(after(board, p, c, 2, 1), p, c);
    hold_ceepcpeee(after(board, p, c, 5, 0), p, c);
    hold_ceepcepee(after(board, p, c, 6, 0), p, c);
    hold_ceepceepe(after(board, p, c, 7, 0), p, c);
    hold_ecepceeep(after(board, p, c, 8, 1), p, c);
    assert(answered(board, p, c, 0, 6));
    assert(answered(board, p, c, 1, 0));
    assert(answered(board, p, c, 2, 1));
    assert(answered(board, p, c, 5, 0));
    assert(answered(board, p, c, 6, 0));
    assert(answered(board, p, c, 7, 0));
    assert(answered(board, p, c, 8, 1));
    lemma_every_move_answered(board, p, c);
}

proof fn hold_eepeceeee(board: Board, p: Tile, c: Tile)
    requires
        two_marks(p, c),
        shows(board, E, E, p, E, c, E, E, E, E),
    ensures
        safe(board, p, c),
{
    lemma_marks(p, c);
    hold_pcpeceeee(after(board, p, c, 0, 1), p, c);
    hold_cppeceeee(after(board, p, c, 1, 0), p, c);
    hold_ecppceeee(after(board, p, c, 3, 1), p, c);
    hold_eepecpeec(after(board, p, c, 5, 8), p, c);
    hold_ecpecepee(after(board, p, c, 6, 1), p, c);
    hold_eepcceepe(after(board, p, c, 7, 3), p, c);
    hold_eepecceep(after(board, p, c, 8, 5), p, c);
    assert(answered(board, p, c, 0, 1));
    assert(answered(board, p, c, 1, 0));
    assert(answered(board, p, c, 3, 1));
    assert(answered(board, p, c, 5, 8));
    assert(answered(board, p, c, 6, 1));
    assert(answered(board, p, c, 7, 3));
    assert(answered(board, p, c, 8, 5));
    lemma_every_move_answered(board, p, c);
}

proof fn hold_epeeceeee(board: Board, p: Tile, c: Tile)
    requires
        two_marks(p, c),
        shows(board, E, p, E, E, c, E, E, E, E),
    ensures
        safe(board, p, c),
{
    lemma_marks(p, c);
    hold_ppceceeee(after(board, p, c, 0, 2), p, c);
    hold_cppeceeee(after(board, p, c, 2, 0), p, c);
    hold_cpepceeee(after(board, p, c, 3, 0), p, c);
    hold_cpeecpeee(after(board, p, c, 5, 0), p, c);
    hold_epeccepee(after(board, p, c, 6, 3), p, c);
    hold_cpeeceepe(after(board, p, c, 7, 0), p, c);
    hold_epecceeep(after(board, p, c, 8, 3), p, c);
    assert(answered(board, p, c, 0, 2));
    assert(answered(board, p, c, 2, 0));
    assert(answered(board, p, c, 3, 0));
    assert(answered(board, p, c, 5, 0));
    assert(answered(board, p, c, 6, 3));
    assert(answered(board, p, c, 7, 0));
    assert(answered(board, p, c, 8, 3));
    lemma_every_move_answered(board, p, c);
}

proof fn hold_peeeceeee(board: Board, p: Tile, c: Tile)
    requires
        two_marks(p, c),
        shows(board, p, E, E, E, c, E, E, E, E),
    ensures
        safe(board, p, c),
{
    lemma_marks(p, c);
    hold_ppceceeee(after(board, p, c, 1, 2), p, c);
    hold_pcpeceeee(after(board, p, c, 2, 1), p, c);
    hold_peepcecee(after(board, p, c, 3, 6), p, c);
    hold_pceecpeee(after(board, p, c, 5, 1), p, c);
    hold_peeccepee(after(board, p, c, 6, 3), p, c);
    hold_peecceepe(after(board, p, c, 7, 3), p, c);
    hold_pceeceeep(after(board, p, c, 8, 1), p, c);
    assert(answered(board, p, c, 1, 2));
    assert(answered(board, p, c, 2, 1));
    assert(answered(board, p, c, 3, 6));
    assert(answered(board, p, c, 5, 1));
    assert(answered(board, p, c, 6, 3));
    assert(answered(board, p, c, 7, 3));
    assert(answered(board, p, c, 8, 1));
    lemma_every_move_answered(board, p, c);
}

proof fn hold_ceeepeeee(board: Board, p: Tile, c: Tile)
    requires
        two_marks(p, c),
        shows(board, c, E, E, E, p, E, E, E, E),
    ensures
        safe(board, p, c),
{
    lemma_marks(p, c);
    hold_cpeepeece(after(board, p, c, 1, 7), p, c);
    hold_cepepecee(after(board, p, c, 2, 6), p, c);
    hold_ceeppceee(after(board, p, c, 3, 5), p, c);
    hold_ceecppeee(after(board, p, c, 5, 3), p, c);
    hold_cecepepee(after(board, p, c, 6, 2), p, c);
    hold_cceepeepe(after(board, p, c, 7, 1), p, c);
    hold_cecepeeep(after(board, p, c, 8, 2), p, c);
    assert(answered(board, p, c, 1, 7));
    assert(answered(board, p, c, 2, 6));
    assert(answered(board, p, c, 3, 5));
    assert(answered(board, p, c, 5, 3));
    assert(answered(board, p, c, 6, 2));
    assert(answered(board, p, c, 7, 1));
    assert(answered(board, p, c, 8, 2));
    lemma_every_move_answered(board, p, c);
}

proof fn hold_cepceeeee(board: Board, p: Tile, c: Tile)
    requires
        two_marks(p, c),
        shows(board, c, E, p, c, E, E, E, E, E),
    ensures
        safe(board, p, c),
{
    lemma_marks(p, c);
    hold_cepccepee(after(board, p, c, 6, 4), p, c);
    assert(answered(board, p, c, 1, 6));
    assert(answered(board, p, c, 4, 6));
    assert(answered(board, p, c, 5, 6));
    assert(answered(board, p, c, 6, 4));
    assert(answered(board, p, c, 7, 6));
    assert(answered(board, p, c, 8, 6));
    lemma_every_move_answered(board, p, c);
}

proof fn hold_ceceeeeep(board: Board, p: Tile, c: Tile)
    requires
        two_marks(p, c),
        shows(board, c, E, c, E, E, E, E, E, p),
    ensures
        safe(board, p, c),
{
    lemma_marks(p, c);
    hold_cpceeecep(after(board, p, c, 1, 6), p, c);
    assert(answered(board, p, c, 1, 6));
    assert(answered(board, p, c, 3, 1));
    assert(answered(board, p, c, 4, 1));
    assert(answered(board, p, c, 5, 1));
    assert(answered(board, p, c, 6, 1));
    assert(answered(board, p, c, 7, 1));
    lemma_every_move_answered(board, p, c);
}

proof fn hold_ceceeeepe(board: Board, p: Tile, c: Tile)
    requires
        two_marks(p, c),
        shows(board, c, E, c, E, E, E, E, p, E),
    ensures
        safe(board, p, c),
{
    lemma_marks(p, c);
    hold_cpceceepe(after(board, p, c, 1, 4), p, c);
    assert(answered(board, p, c, 1, 4));
    assert(answered(board, p, c, 3, 1));
    assert(answered(board, p, c, 4, 1));
    assert(answered(board, p, c, 5, 1));
    assert(answered(board, p, c, 6, 1));
    assert(answered(board, p, c, 8, 1));
    lemma_every_move_answered(board, p, c);
}

proof fn hold_ceceepeee(board: Board, p: Tile, c: Tile)
    requires
        two_marks(p, c),
        shows(board, c, E, c, E, E, p, E, E, E),
    ensures
        safe(board, p, c),
{
    lemma_marks(p, c);
    hold_cpcecpeee(after(board, p, c, 1, 4), p, c);
    assert(answered(board, p, c, 1, 4));
    assert(answered(board, p, c, 3, 1));
    assert(answered(board, p, c, 4, 1));
    assert(answered(board, p, c, 6, 1));
    assert(answered(board, p, c, 7, 1));
    assert(answered(board, p, c, 8, 1));
    lemma_every_move_answered(board, p, c);
}

proof fn hold_cpeceeeee(board: Board, p: Tile, c: Tile)
    requires
        two_marks(p, c),
        shows(board, c, p, E, c, E, E, E, E, E),
    ensures
        safe(board, p, c),
{
    lemma_marks(p, c);
    hold_cpeccepee(after(board, p, c, 6, 4), p, c);
    assert(answered(board, p, c, 2, 6));
    assert(answered(board, p, c, 4, 6));
    assert(answered(board, p, c, 5, 6));
    assert(answered(board, p, c, 6, 4));
    assert(answered(board, p, c, 7, 6));
    assert(answered(board, p, c, 8, 6));
    lemma_every_move_answered(board, p, c);
}

proof fn hold_cceeeepee(board: Board, p: Tile, c: Tile)
    requires
        two_marks(p, c),
        shows(board, c, c, E, E, E, E, p, E, E),
    ensures
        safe(board, p, c),
{
    lemma_marks(p, c);
    hold_ccpecepee(after(board, p, c, 2, 4), p, c);
    assert(answered(board, p, c, 2, 4));
    assert(answered(board, p, c, 3, 2));
    assert(answered(board, p, c, 4, 2));
    assert(answered(board, p, c, 5, 2));
    assert(answered(board, p, c, 7, 2));
    assert(answered(board, p, c, 8, 2));
    lemma_every_move_answered(board, p, c);
}

proof fn hold_cceepeeee(board: Board, p: Tile, c: Tile)
    requires
        two_marks(p, c),
        shows(board, c, c, E, E, p, E, E, E, E),
    ensures
        safe(board, p, c),
{
    lemma_marks(p, c);
    hold_ccpepecee(after(board, p, c, 2, 6), p, c);
    assert(answered(board, p, c, 2, 6));
    assert(answered(board, p, c, 3, 2));
    assert(answered(board, p, c, 5, 2));
    assert(answered(board, p, c, 6, 2));
    assert(answered(board, p, c, 7, 2));
    assert(answered(board, p, c, 8, 2));
    lemma_every_move_answered(board, p, c);
}

proof fn hold_ccepeeeee(board: Board, p: Tile, c: Tile)
    requires
        two_marks(p, c),
        shows(board, c, c, E, p, E, E, E, E, E),
    ensures
        safe(board, p, c),
{
    lemma_marks(p, c);
    hold_ccppceeee(after(board, p, c, 2, 4), p, c);
    assert(answered(board, p, c, 2, 4));
    assert(answered(board, p, c, 4, 2));
    assert(answered(board, p, c, 5, 2));
    assert(answered(board, p, c, 6, 2));
    assert(answered(board, p, c, 7, 2));
    assert(answered(board, p, c, 8, 2));
    lemma_every_move_answered(board, p, c);
}

proof fn hold_eeeeceppc(board: Board, p: Tile, c: Tile)
    requires
        two_marks(p, c),
        shows(board, E, E, E, E, c, E, p, p, c),
    ensures
        safe(board, p, c),
{
    lemma_marks(p, c);
    hold_peecceppc(after(board, p, c, 0, 3), p, c);
    assert(answered(board, p, c, 0, 3));
    assert(answered(board, p, c, 1, 0));
    assert(answered(board, p, c, 2, 0));
    assert(answered(board, p, c, 3, 0));
    assert(answered(board, p, c, 5, 0));
    lemma_every_move_answered(board, p, c);
}

proof fn hold_eeeecepcp(board: Board, p: Tile, c: Tile)
    requires
        two_marks(p, c),
        shows(board, E, E, E, E, c, E, p, c, p),
    ensures
        safe(board, p, c),
{
    lemma_marks(p, c);
    hold_epeccepcp(after(board, p, c, 1, 3), p, c);
    assert(answered(board, p, c, 0, 1));
    assert(answered(board, p, c, 1, 3));
    assert(answered(board, p, c, 2, 1));
    assert(answered(board, p, c, 3, 1));
    assert(answered(board, p, c, 5, 1));
    lemma_every_move_answered(board, p, c);
}

proof fn hold_eeeececpp(board: Board, p: Tile, c: Tile)
    requires
        two_marks(p, c),
        shows(board, E, E, E, E, c, E, c, p, p),
    ensures
        safe(board, p, c),
{
    lemma_marks(p, c);
    hold_eepecccpp(after(board, p, c, 2, 5), p, c);
    assert(answered(board, p, c, 0, 2));
    assert(answered(board, p, c, 1, 2));
    assert(answered(board, p, c, 2, 5));
    assert(answered(board, p, c, 3, 2));
    assert(answered(board, p, c, 5, 2));
    lemma_every_move_answered(board, p, c);
}

proof fn hold_eepecpeec(board: Board, p: Tile, c: Tile)
    requires
        two_marks(p, c),
        shows(board, E, E, p, E, c, p, E, E, c),
    ensures
        safe(board, p, c),
{
    lemma_marks(p, c);
    hold_pcpecpeec(after(board, p, c, 0, 1), p, c);
    assert(answered(board, p, c, 0, 1));
    assert(answered(board, p, c, 1, 0));
    assert(answered(board, p, c, 3, 0));
    assert(answered(board, p, c, 6, 0));
    assert(answered(board, p, c, 7, 0));
    lemma_every_move_answered(board, p, c);
}

proof fn hold_eepecceep(board: Board, p: Tile, c: Tile)
    requires
        two_marks(p, c),
        shows(board, E, E, p, E, c, c, E, E, p),
    ensures
        safe(board, p, c),
{
    lemma_marks(p, c);
    hold_ecppcceep(after(board, p, c, 3, 1), p, c);
    assert(answered(board, p, c, 0, 3));
    assert(answered(board, p, c, 1, 3));
    assert(answered(board, p, c, 3, 1));
    assert(answered(board, p, c, 6, 3));
    assert(answered(board, p, c, 7, 3));
    lemma_every_move_answered(board, p, c);
}

proof fn hold_eepcceepe(board: Board, p: Tile, c: Tile)
    requires
        two_marks(p, c),
        shows(board, E, E, p, c, c, E, E, p, E),
    ensures
        safe(board, p, c),
{
    lemma_marks(p, c);
    hold_eepccpepc(after(board, p, c, 5, 8), p, c);
    assert(answered(board, p, c, 0, 5));
    assert(answered(board, p, c, 1, 5));
    assert(answered(board, p, c, 5, 8));
    assert(answered(board, p, c, 6, 5));
    assert(answered(board, p, c, 8, 5));
    lemma_every_move_answered(board, p, c);
}

proof fn hold_eececpeep(board: Board, p: Tile, c: Tile)
    requires
        two_marks(p, c),
        shows(board, E, E, c, E, c, p, E, E, p),
    ensures
        safe(board, p, c),
{
    lemma_marks(p, c);
    hold_eececppcp(after(board, p, c, 6, 7), p, c);
    assert(answered(board, p, c, 0, 6));
    assert(answered(board, p, c, 1, 6));
    assert(answered(board, p, c, 3, 6));
    assert(answered(board, p, c, 6, 7));
    assert(answered(board, p, c, 7, 6));
    lemma_every_move_answered(board, p, c);
}

proof fn hold_eececpepe(board: Board, p: Tile, c: Tile)
    requires
        two_marks(p, c),
        shows(board, E, E, c, E, c, p, E, p, E),
    ensures
        safe(board, p, c),
{
    lemma_marks(p, c);
    hold_eececpppc(after(board, p, c, 6, 8), p, c);
    assert(answered(board, p, c, 0, 6));
    assert(answered(board, p, c, 1, 6));
    assert(answered(board, p, c, 3, 6));
    assert(answered(board, p, c, 6, 8));
    assert(answered(board, p, c, 8, 6));
    lemma_every_move_answered(board, p, c);
}

proof fn hold_epecceeep(board: Board, p: Tile, c: Tile)
    requires
        two_marks(p, c),
        shows(board, E, p, E, c, c, E, E, E, p),
    ensures
        safe(board, p, c),
{
    lemma_marks(p, c);
    hold_epcccpeep(after(board, p, c, 5, 2), p, c);
    assert(answered(board, p, c, 0, 5));
    assert(answered(board, p, c, 2, 5));
    assert(answered(board, p, c, 5, 2));
    assert(answered(board, p, c, 6, 5));
    assert(answered(board, p, c, 7, 5));
    lemma_every_move_answered(board, p, c);
}

proof fn hold_epeccepee(board: Board, p: Tile, c: Tile)
    requires
        two_marks(p, c),
        shows(board, E, p, E, c, c, E, p, E, E),
    ensures
        safe(board, p, c),
{
    lemma_marks(p, c);
    hold_epeccppec(after(board, p, c, 5, 8), p, c);
    assert(answered(board, p, c, 0, 5));
    assert(answered(board, p, c, 2, 5));
    assert(answered(board, p, c, 5, 8));
    assert(answered(board, p, c, 7, 5));
    assert(answered(board, p, c, 8, 5));
    lemma_every_move_answered(board, p, c);
}

proof fn hold_eceecppee(board: Board, p: Tile, c: Tile)
    requires
        two_marks(p, c),
        shows(board, E, c, E, E, c, p, p, E, E),
    ensures
        safe(board, p, c),
{
    lemma_marks(p, c);
    hold_eceecpppc(after(board, p, c, 7, 8), p, c);
    assert(answered(board, p, c, 0, 7));
    assert(answered(board, p, c, 2, 7));
    assert(answered(board, p, c, 3, 7));
    assert(answered(board, p, c, 7, 8));
    assert(answered(board, p, c, 8, 7));
    lemma_every_move_answered(board, p, c);
}

proof fn hold_ecepceeep(board: Board, p: Tile, c: Tile)
    requires
        two_marks(p, c),
        shows(board, E, c, E, p, c, E, E, E, p),
    ensures
        safe(board, p, c),
{
    lemma_marks(p, c);
    hold_ecepcecpp(after(board, p, c, 7, 6), p, c);
    assert(answered(board, p, c, 0, 7));
    assert(answered(board, p, c, 2, 7));
    assert(answered(board, p, c, 5, 7));
    assert(answered(board, p, c, 6, 7));
    assert(answered(board, p, c, 7, 6));
    lemma_every_move_answered(board, p, c);
}

proof fn hold_ecpecepee(board: Board, p: Tile, c: Tile)
    requires
        two_marks(p, c),
        shows(board, E, c, p, E, c, E, p, E, E),
    ensures
        safe(board, p, c),
{
    lemma_marks(p, c);
    hold_ecpeceppc(after(board, p, c, 7, 8), p, c);
    assert(answered(board, p, c, 0, 7));
    assert(answered(board, p, c, 3, 7));
    assert(answered(board, p, c, 5, 7));
    assert(answered(board, p, c, 7, 8));
    assert(answered(board, p, c, 8, 7));
    lemma_every_move_answered(board, p, c);
}

proof fn hold_ecppceeee(board: Board, p: Tile, c: Tile)
    requires
        two_marks(p, c),
        shows(board, E, c, p, p, c, E, E, E, E),
    ensures
        safe(board, p, c),
{
    lemma_marks(p, c);
    hold_ecppceepc(after(board, p, c, 7, 8), p, c);
    assert(answered(board, p, c, 0, 7));
    assert(answered(board, p, c, 5, 7));
    assert(answered(board, p, c, 6, 7));
    assert(answered(board, p, c, 7, 8));
    assert(answered(board, p, c, 8, 7));
    lemma_every_move_answered(board, p, c);
}

proof fn hold_peepcecee(board: Board, p: Tile, c: Tile)
    requires
        two_marks(p, c),
        shows(board, p, E, E, p, c, E, c, E, E),
    ensures
        safe(board, p, c),
{
    lemma_marks(p, c);
    hold_pcppcecee(after(board, p, c, 2, 1), p, c);
    assert(answered(board, p, c, 1, 2));
    assert(answered(board, p, c, 2, 1));
    assert(answered(board, p, c, 5, 2));
    assert(answered(board, p, c, 7, 2));
    assert(answered(board, p, c, 8, 2));
    lemma_every_move_answered(board, p, c);
}

proof fn hold_peecceepe(board: Board, p: Tile, c: Tile)
    requires
        two_marks(p, c),
        shows(board, p, E, E, c, c, E, E, p, E),
    ensures
        safe(board, p, c),
{
    lemma_marks(p, c);
    hold_pecccpepe(after(board, p, c, 5, 2), p, c);
    assert(answered(board, p, c, 1, 5));
    assert(answered(board, p, c, 2, 5));
    assert(answered(board, p, c, 5, 2));
    assert(answered(board, p, c, 6, 5));
    assert(answered(board, p, c, 8, 5));
    lemma_every_move_answered(board, p, c);
}

proof fn hold_peeccepee(board: Board, p: Tile, c: Tile)
    requires
        two_marks(p, c),
        shows(board, p, E, E, c, c, E, p, E, E),
    ensures
        safe(board, p, c),
{
    lemma_marks(p, c);
    hold_pceccppee(after(board, p, c, 5, 1), p, c);
    assert(answered(board, p, c, 1, 5));
    assert(answered(board, p, c, 2, 5));
    assert(answered(board, p, c, 5, 1));
    assert(answered(board, p, c, 7, 5));
    assert(answered(board, p, c, 8, 5));
    lemma_every_move_answered(board, p, c);
}

proof fn hold_ppceceeee(board: Board, p: Tile, c: Tile)
    requires
        two_marks(p, c),
        shows(board, p, p, c, E, c, E, E, E, E),
    ensures
        safe(board, p, c),
{
    lemma_marks(p, c);
    hold_ppcccepee(after(board, p, c, 6, 3), p, c);
    assert(answered(board, p, c, 3, 6));
    assert(answered(board, p, c, 5, 6));
    assert(answered(board, p, c, 6, 3));
    assert(answered(board, p, c, 7, 6));
    assert(answered(board, p, c, 8, 6));
    lemma_every_move_answered(board, p, c);
}

proof fn hold_pceeceeep(board: Board, p: Tile, c: Tile)
    requires
        two_marks(p, c),
        shows(board, p, c, E, E, c, E, E, E, p),
    ensures
        safe(board, p, c),
{
    lemma_marks(p, c);
    hold_pceececpp(after(board, p, c, 7, 6), p, c);
    assert(answered(board, p, c, 2, 7));
    assert(answered(board, p, c, 3, 7));
    assert(answered(board, p, c, 5, 7));
    assert(answered(board, p, c, 6, 7));
    assert(answered(board, p, c, 7, 6));
    lemma_every_move_answered(board, p, c);
}

proof fn hold_pceecpeee(board: Board, p: Tile, c: Tile)
    requires
        two_marks(p, c),
        shows(board, p, c, E, E, c, p, E, E, E),
    ensures
        safe(board, p, c),
{
    lemma_marks(p, c);
    hold_pceecpcpe(after(board, p, c, 7, 6), p, c);
    assert(answered(board, p, c, 2, 7));
    assert(answered(board, p, c, 3, 7));
    assert(answered(board, p, c, 6, 7));
    assert(answered(board, p, c, 7, 6));
    assert(answered(board, p, c, 8, 7));
    lemma_every_move_answered(board, p, c);
}

proof fn hold_pcpeceeee(board: Board, p: Tile, c: Tile)
    requires
        two_marks(p, c),
        shows(board, p, c, p, E, c, E, E, E, E),
    ensures
        safe(board, p, c),
{
    lemma_marks(p, c);
    hold_pcpcceepe(after(board, p, c, 7, 3), p, c);
    assert(answered(board, p, c, 3, 7));
    assert(answered(board, p, c, 5, 7));
    assert(answered(board, p, c, 6, 7));
    assert(answered(board, p, c, 7, 3));
    assert(answered(board, p, c, 8, 7));
    lemma_every_move_answered(board, p, c);
}

proof fn hold_ceeppceee(board: Board, p: Tile, c: Tile)
    requires
        two_marks(p, c),
        shows(board, c, E, E, p, p, c, E, E, E),
    ensures
        safe(board, p, c),
{
    lemma_marks(p, c);
    hold_cpeppcece(after(board, p, c, 1, 7), p, c);
    hold_cepppccee(after(board, p, c, 2, 6), p, c);
    hold_cecppcpee(after(board, p, c, 6, 2), p, c);
    hold_cceppcepe(after(board, p, c, 7, 1), p, c);
    hold_cceppceep(after(board, p, c, 8, 1), p, c);
    assert(answered(board, p, c, 1, 7));
    assert(answered(board, p, c, 2, 6));
    assert(answered(board, p, c, 6, 2));
    assert(answered(board, p, c, 7, 1));
    assert(answered(board, p, c, 8, 1));
    lemma_every_move_answered(board, p, c);
}

proof fn hold_ceepceepe(board: Board, p: Tile, c: Tile)
    requires
        two_marks(p, c),
        shows(board, c, E, E, p, c, E, E, p, E),
    ensures
        safe(board, p, c),
{
    lemma_marks(p, c);
    hold_ceepcecpp(after(board, p, c, 8, 6), p, c);
    assert(answered(board, p, c, 1, 8));
    assert(answered(board, p, c, 2, 8));
    assert(answered(board, p, c, 5, 8));
    assert(answered(board, p, c, 6, 8));
    assert(answered(board, p, c, 8, 6));
    lemma_every_move_answered(board, p, c);
}

proof fn hold_ceepcepee(board: Board, p: Tile, c: Tile)
    requires
        two_marks(p, c),
        shows(board, c, E, E, p, c, E, p, E, E),
    ensures
        safe(board, p, c),
{
    lemma_marks(p, c);
    hold_ceepcepcp(after(board, p, c, 8, 7), p, c);
    assert(answered(board, p, c, 1, 8));
    assert(answered(board, p, c, 2, 8));
    assert(answered(board, p, c, 5, 8));
    assert(answered(board, p, c, 7, 8));
    assert(answered(board, p, c, 8, 7));
    lemma_every_move_answered(board, p, c);
}

proof fn hold_ceepcpeee(board: Board, p: Tile, c: Tile)
    requires
        two_marks(p, c),
        shows(board, c, E, E, p, c, p, E, E, E),
    ensures
        safe(board, p, c),
{
    lemma_marks(p, c);
    hold_cecpcpeep(after(board, p, c, 8, 2), p, c);
    assert(answered(board, p, c, 1, 8));
    assert(answered(board, p, c, 2, 8));
    assert(answered(board, p, c, 6, 8));
    assert(answered(board, p, c, 7, 8));
    assert(answered(board, p, c, 8, 2));
    lemma_every_move_answered(board, p, c);
}

proof fn hold_ceecppeee(board: Board, p: Tile, c: Tile)
    requires
        two_marks(p, c),
        shows(board, c, E, E, c, p, p, E, E, E),
    ensures
        safe(board, p, c),
{
    lemma_marks(p, c);
    hold_ceccpppee(after(board, p, c, 6, 2), p, c);
    assert(answered(board, p, c, 1, 6));
    assert(answered(board, p, c, 2, 6));
    assert(answered(board, p, c, 6, 2));
    assert(answered(board, p, c, 7, 6));
    assert(answered(board, p, c, 8, 6));
    lemma_every_move_answered(board, p, c);
}

proof fn hold_cepepecee(board: Board, p: Tile, c: Tile)
    requires
        two_marks(p, c),
        shows(board, c, E, p, E, p, E, c, E, E),
    ensures
        safe(board, p, c),
{
    lemma_marks(p, c);
    hold_cepppccee(after(board, p, c, 3, 5), p, c);
    assert(answered(board, p, c, 1, 3));
    assert(answered(board, p, c, 3, 5));
    assert(answered(board, p, c, 5, 3));
    assert(answered(board, p, c, 7, 3));
    assert(answered(board, p, c, 8, 3));
    lemma_every_move_answered(board, p, c);
}

proof fn hold_cecepeeep(board: Board, p: Tile, c: Tile)
    requires
        two_marks(p, c),
        shows(board, c, E, c, E, p, E, E, E, p),
    ensures
        safe(board, p, c),
{
    lemma_marks(p, c);
    hold_cpcepeecp(after(board, p, c, 1, 7), p, c);
    assert(answered(board, p, c, 1, 7));
    assert(answered(board, p, c, 3, 1));
    assert(answered(board, p, c, 5, 1));
    assert(answered(board, p, c, 6, 1));
    assert(answered(board, p, c, 7, 1));
    lemma_every_move_answered(board, p, c);
}

proof fn hold_cecepepee(board: Board, p: Tile, c: Tile)
    requires
        two_marks(p, c),
        shows(board, c, E, c, E, p, E, p, E, E),
    ensures
        safe(board, p, c),
{
    lemma_marks(p, c);
    hold_cpcepepce(after(board, p, c, 1, 7), p, c);
    assert(answered(board, p, c, 1, 7));
    assert(answered(board, p, c, 3, 1));
    assert(answered(board, p, c, 5, 1));
    assert(answered(board, p, c, 7, 1));
    assert(answered(board, p, c, 8, 1));
    lemma_every_move_answered(board, p, c);
}

proof fn hold_cpeepeece(board: Board, p: Tile, c: Tile)
    requires
        two_marks(p, c),
        shows(board, c, p, E, E, p, E, E, c, E),
    ensures
        safe(board, p, c),
{
    lemma_marks(p, c);
    hold_cppepecce(after(board, p, c, 2, 6), p, c);
    hold_cpeppcece(after(board, p, c, 3, 5), p, c);
    hold_cpecppece(after(board, p, c, 5, 3), p, c);
    hold_cpcepepce(after(board, p, c, 6, 2), p, c);
    hold_cpecpeecp(after(board, p, c, 8, 3), p, c);
    assert(answered(board, p, c, 2, 6));
    assert(answered(board, p, c, 3, 5));
    assert(answered(board, p, c, 5, 3));
    assert(answered(board, p, c, 6, 2));
    assert(answered(board, p, c, 8, 3));
    lemma_every_move_answered(board, p, c);
}

proof fn hold_cpeeceepe(board: Board, p: Tile, c: Tile)
    requires
        two_marks(p, c),
        shows(board, c, p, E, E, c, E, E, p, E),
    ensures
        safe(board, p, c),
{
    lemma_marks(p, c);
    hold_cpeececpp(after(board, p, c, 8, 6), p, c);
    assert(answered(board, p, c, 2, 8));
    assert(answered(board, p, c, 3, 8));
    assert(answered(board, p, c, 5, 8));
    assert(answered(board, p, c, 6, 8));
    assert(answered(board, p, c, 8, 6));
    lemma_every_move_answered(board, p, c);
}

proof fn hold_cpeecpeee(board: Board, p: Tile, c: Tile)
    requires
        two_marks(p, c),
        shows(board, c, p, E, E, c, p, E, E, E),
    ensures
        safe(board, p, c),
{
    lemma_marks(p, c);
    hold_cpcecpeep(after(board, p, c, 8, 2), p, c);
    assert(answered(board, p, c, 2, 8));
    assert(answered(board, p, c, 3, 8));
    assert(answered(board, p, c, 6, 8));
    assert(answered(board, p, c, 7, 8));
    assert(answered(board, p, c, 8, 2));
    lemma_every_move_answered(board, p, c);
}

proof fn hold_cpepceeee(board: Board, p: Tile, c: Tile)
    requires
        two_marks(p, c),
        shows(board, c, p, E, p, c, E, E, E, E),
    ensures
        safe(board, p, c),
{
    lemma_marks(p, c);
    hold_cpcpceeep(after(board, p, c, 8, 2), p, c);
    assert(answered(board, p, c, 2, 8));
    assert(answered(board, p, c, 5, 8));
    assert(answered(board, p, c, 6, 8));
    assert(answered(board, p, c, 7, 8));
    assert(answered(board, p, c, 8, 2));
    lemma_every_move_answered(board, p, c);
}

proof fn hold_cppeceeee(board: Board, p: Tile, c: Tile)
    requires
        two_marks(p, c),
        shows(board, c, p, p, E, c, E, E, E, E),
    ensures
        safe(board, p, c),
{
    lemma_marks(p, c);
    hold_cppecceep(after(board, p, c, 8, 5), p, c);
    assert(answered(board, p, c, 3, 8));
    assert(answered(board, p, c, 5, 8));
    assert(answered(board, p, c, 6, 8));
    assert(answered(board, p, c, 7, 8));
    assert(answered(board, p, c, 8, 5));
    lemma_every_move_answered(board, p, c);
}

proof fn hold_cceepeepe(board: Board, p: Tile, c: Tile)
    requires
        two_marks(p, c),
        shows(board, c, c, E, E, p, E, E, p, E),
    ensures
        safe(board, p, c),
{
    lemma_marks(p, c);
    hold_ccpepecpe(after(board, p, c, 2, 6), p, c);
    assert(answered(board, p, c, 2, 6));
    assert(answered(board, p, c, 3, 2));
    assert(answered(board, p, c, 5, 2));
    assert(answered(board, p, c, 6, 2));
    assert(answered(board, p, c, 8, 2));
    lemma_every_move_answered(board, p, c);
}

proof fn hold_cepccepee(board: Board, p: Tile, c: Tile)
    requires
        two_marks(p, c),
        shows(board, c, E, p, c, c, E, p, E, E),
    ensures
        safe(board, p, c),
{
    lemma_marks(p, c);
    assert(answered(board, p, c, 1, 5));
    assert(answered(board, p, c, 5, 8));
    assert(answered(board, p, c, 7, 5));
    assert(answered(board, p, c, 8, 5));
    lemma_every_move_answered(board, p, c);
}

proof fn hold_cpeccepee(board: Board, p: Tile, c: Tile)
    requires
        two_marks(p, c),
        shows(board, c, p, E, c, c, E, p, E, E),
    ensures
        safe(board, p, c),
{
    lemma_marks(p, c);
    assert(answered(board, p, c, 2, 5));
    assert(answered(board, p, c, 5, 8));
    assert(answered(board, p, c, 7, 5));
    assert(answered(board, p, c, 8, 5));
    lemma_every_move_answered(board, p, c);
}

proof fn hold_cpceeecep(board: Board, p: Tile, c: Tile)
    requires
        two_marks(p, c),
        shows(board, c, p, c, E, E, E, c, E, p),
    ensures
        safe(board, p, c),
{
    lemma_marks(p, c);
    assert(answered(board, p, c, 3, 4));
    assert(answered(board, p, c, 4, 3));
    assert(answered(board, p, c, 5, 3));
    assert(answered(board, p, c, 7, 3));
    lemma_every_move_answered(board, p, c);
}

proof fn hold_cpceceepe(board: Board, p: Tile, c: Tile)
    requires
        two_marks(p, c),
        shows(board, c, p, c, E, c, E, E, p, E),
    ensures
        safe(board, p, c),
{
    lemma_marks(p, c);
    assert(answered(board, p, c, 3, 6));
    assert(answered(board, p, c, 5, 6));
    assert(answered(board, p, c, 6, 8));
    assert(answered(board, p, c, 8, 6));
    lemma_every_move_answered(board, p, c);
}

proof fn hold_cpcecpeee(board: Board, p: Tile, c: Tile)
    requires
        two_marks(p, c),
        shows(board, c, p, c, E, c, p, E, E, E),
    ensures
        safe(board, p, c),
{
    lemma_marks(p, c);
    assert(answered(board, p, c, 3, 6));
    assert(answered(board, p, c, 6, 8));
    assert(answered(board, p, c, 7, 6));
    assert(answered(board, p, c, 8, 6));
    lemma_every_move_answered(board, p, c);
}

proof fn hold_ccpepecee(board: Board, p: Tile, c: Tile)
    requires
        two_marks(p, c),
        shows(board, c, c, p, E, p, E, c, E, E),
    ensures
        safe(board, p, c),
{
    lemma_marks(p, c);
    hold_ccpppccee(after(board, p, c, 3, 5), p, c);
    assert(answered(board, p, c, 3, 5));
    assert(answered(board, p, c, 5, 3));
    assert(answered(board, p, c, 7, 3));
    assert(answered(board, p, c, 8, 3));
    lemma_every_move_answered(board, p, c);
}

proof fn hold_ccpecepee(board: Board, p: Tile, c: Tile)
    requires
        two_marks(p, c),
        shows(board, c, c, p, E, c, E, p, E, E),
    ensures
        safe(board, p, c),
{
    lemma_marks(p, c);
    assert(answered(board, p, c, 3, 7));
    assert(answered(board, p, c, 5, 7));
    assert(answered(board, p, c, 7, 8));
    assert(answered(board, p, c, 8, 7));
    lemma_every_move_answered(board, p, c);
}

proof fn hold_ccppceeee(board: Board, p: Tile, c: Tile)
    requires
        two_marks(p, c),
        shows(board, c, c, p, p, c, E, E, E, E),
    ensures
        safe(board, p, c),
{
    lemma_marks(p, c);
    assert(answered(board, p, c, 5, 7));
    assert(answered(board, p, c, 6, 7));
    assert(answered(board, p, c, 7, 8));
    assert(answered(board, p, c, 8, 7));
    lemma_every_move_answered(board, p, c);
}

proof fn hold_eepecccpp(board: Board, p: Tile, c: Tile)
    requires
        two_marks(p, c),
        shows(board, E, E, p, E, c, c, c, p, p),
    ensures
        safe(board, p, c),
{
    lemma_marks(p, c);
    hold_ceppcccpp(after(board, p, c, 3, 0), p, c);
    assert(answered(board, p, c, 0, 3));
    assert(answered(board, p, c, 1, 3));
    assert(answered(board, p, c, 3, 0));
    lemma_every_move_answered(board, p, c);
}

proof fn hold_eepccpepc(board: Board, p: Tile, c: Tile)
    requires
        two_marks(p, c),
        shows(board, E, E, p, c, c, p, E, p, c),
    ensures
        safe(board, p, c),
{
    lemma_marks(p, c);
    hold_pcpccpepc(after(board, p, c, 0, 1), p, c);
    assert(answered(board, p, c, 0, 1));
    assert(answered(board, p, c, 1, 0));
    assert(answered(board, p, c, 6, 0));
    lemma_every_move_answered(board, p, c);
}

proof fn hold_eececpppc(board: Board, p: Tile, c: Tile)
    requires
        two_marks(p, c),
        shows(board, E, E, c, E, c, p, p, p, c),
    ensures
        safe(board, p, c),
{
    lemma_marks(p, c);
    hold_pecccpppc(after(board, p, c, 0, 3), p, c);
    assert(answered(board, p, c, 0, 3));
    assert(answered(board, p, c, 1, 0));
    assert(answered(board, p, c, 3, 0));
    lemma_every_move_answered(board, p, c);
}

proof fn hold_eececppcp(board: Board, p: Tile, c: Tile)
    requires
        two_marks(p, c),
        shows(board, E, E, c, E, c, p, p, c, p),
    ensures
        safe(board, p, c),
{
    lemma_marks(p, c);
    hold_cpcecppcp(after(board, p, c, 1, 0), p, c);
    assert(answered(board, p, c, 0, 1));
    assert(answered(board, p, c, 1, 0));
    assert(answered(board, p, c, 3, 1));
    lemma_every_move_answered(board, p, c);
}

proof fn hold_epeccepcp(board: Board, p: Tile, c: Tile)
    requires
        two_marks(p, c),
        shows(board, E, p, E, c, c, E, p, c, p),
    ensures
        safe(board, p, c),
{
    lemma_marks(p, c);
    hold_epcccppcp(after(board, p, c, 5, 2), p, c);
    assert(answered(board, p, c, 0, 5));
    assert(answered(board, p, c, 2, 5));
    assert(answered(board, p, c, 5, 2));
    lemma_every_move_answered(board, p, c);
}

proof fn hold_epeccppec(board: Board, p: Tile, c: Tile)
    requires
        two_marks(p, c),
        shows(board, E, p, E, c, c, p, p, E, c),
    ensures
        safe(board, p, c),
{
    lemma_marks(p, c);
    hold_ppcccppec(after(board, p, c, 0, 2), p, c);
    assert(answered(board, p, c, 0, 2));
    assert(answered(board, p, c, 2, 0));
    assert(answered(board, p, c, 7, 0));
    lemma_every_move_answered(board, p, c);
}

proof fn hold_epcccpeep(board: Board, p: Tile, c: Tile)
    requires
        two_marks(p, c),
        shows(board, E, p, c, c, c, p, E, E, p),
    ensures
        safe(board, p, c),
{
    lemma_marks(p, c);
    hold_epcccppcp(after(board, p, c, 6, 7), p, c);
    assert(answered(board, p, c, 0, 6));
    assert(answered(board, p, c, 6, 7));
    assert(answered(board, p, c, 7, 6));
    lemma_every_move_answered(board, p, c);
}

proof fn hold_eceecpppc(board: Board, p: Tile, c: Tile)
    requires
        two_marks(p, c),
        shows(board, E, c, E, E, c, p, p, p, c),
    ensures
        safe(board, p, c),
{
    lemma_marks(p, c);
    hold_pceccpppc(after(board, p, c, 0, 3), p, c);
    assert(answered(board, p, c, 0, 3));
    assert(answered(board, p, c, 2, 0));
    assert(answered(board, p, c, 3, 0));
    lemma_every_move_answered(board, p, c);
}

proof fn hold_ecepcecpp(board: Board, p: Tile, c: Tile)
    requires
        two_marks(p, c),
        shows(board, E, c, E, p, c, E, c, p, p),
    ensures
        safe(board, p, c),
{
    lemma_marks(p, c);
    hold_ecppcccpp(after(board, p, c, 2, 5), p, c);
    assert(answered(board, p, c, 0, 2));
    assert(answered(board, p, c, 2, 5));
    assert(answered(board, p, c, 5, 2));
    lemma_every_move_answered(board, p, c);
}

proof fn hold_ecpeceppc(board: Board, p: Tile, c: Tile)
    requires
        two_marks(p, c),
        shows(board, E, c, p, E, c, E, p, p, c),
    ensures
        safe(board, p, c),
{
    lemma_marks(p, c);
    hold_pcpcceppc(after(board, p, c, 0, 3), p, c);
    assert(answered(board, p, c, 0, 3));
    assert(answered(board, p, c, 3, 0));
    assert(answered(board, p, c, 5, 0));
    lemma_every_move_answered(board, p, c);
}

proof fn hold_ecppceepc(board: Board, p: Tile, c: Tile)
    requires
        two_marks(p, c),
        shows(board, E, c, p, p, c, E, E, p, c),
    ensures
        safe(board, p, c),
{
    lemma_marks(p, c);
    hold_pcppcecpc(after(board, p, c, 0, 6), p, c);
    assert(answered(board, p, c, 0, 6));
    assert(answered(board, p, c, 5, 0));
    assert(answered(board, p, c, 6, 0));
    lemma_every_move_answered(board, p, c);
}

proof fn hold_ecppcceep(board: Board, p: Tile, c: Tile)
    requires
        two_marks(p, c),
        shows(board, E, c, p, p, c, c, E, E, p),
    ensures
        safe(board, p, c),
{
    lemma_marks(p, c);
    hold_ecppcccpp(after(board, p, c, 7, 6), p, c);
    assert(answered(board, p, c, 0, 7));
    assert(answered(board, p, c, 6, 7));
    assert(answered(board, p, c, 7, 6));
    lemma_every_move_answered(board, p, c);
}

proof fn hold_peecceppc(board: Board, p: Tile, c: Tile)
    requires
        two_marks(p, c),
        shows(board, p, E, E, c, c, E, p, p, c),
    ensures
        safe(board, p, c),
{
    lemma_marks(p, c);
    hold_pceccpppc(after(board, p, c, 5, 1), p, c);
    assert(answered(board, p, c, 1, 5));
    assert(answered(board, p, c, 2, 5));
    assert(answered(board, p, c, 5, 1));
    lemma_every_move_answered(board, p, c);
}

proof fn hold_pecccpepe(board: Board, p: Tile, c: Tile)
    requires
        two_marks(p, c),
        shows(board, p, E, c, c, c, p, E, p, E),
    ensures
        safe(board, p, c),
{
    lemma_marks(p, c);
    hold_pecccpppc(after(board, p, c, 6, 8), p, c);
    assert(answered(board, p, c, 1, 6));
    assert(answered(board, p, c, 6, 8));
    assert(answered(board, p, c, 8, 6));
    lemma_every_move_answered(board, p, c);
}

proof fn hold_ppcccepee(board: Board, p: Tile, c: Tile)
    requires
        two_marks(p, c),
        shows(board, p, p, c, c, c, E, p, E, E),
    ensures
        safe(board, p, c),
{
    lemma_marks(p, c);
    hold_ppcccppce(after(board, p, c, 5, 7), p, c);
    assert(answered(board, p, c, 5, 7));
    assert(answered(board, p, c, 7, 5));
    assert(answered(board, p, c, 8, 5));
    lemma_every_move_answered(board, p, c);
}

proof fn hold_pceececpp(board: Board, p: Tile, c: Tile)
    requires
        two_marks(p, c),
        shows(board, p, c, E, E, c, E, c, p, p),
    ensures
        safe(board, p, c),
{
    lemma_marks(p, c);
    hold_pcpecccpp(after(board, p, c, 2, 5), p, c);
    assert(answered(board, p, c, 2, 5));
    assert(answered(board, p, c, 3, 2));
    assert(answered(board, p, c, 5, 2));
    lemma_every_move_answered(board, p, c);
}

proof fn hold_pceecpcpe(board: Board, p: Tile, c: Tile)
    requires
        two_marks(p, c),
        shows(board, p, c, E, E, c, p, c, p, E),
    ensures
        safe(board, p, c),
{
    lemma_marks(p, c);
    hold_pcpecpcpc(after(board, p, c, 2, 8), p, c);
    assert(answered(board, p, c, 2, 8));
    assert(answered(board, p, c, 3, 2));
    assert(answered(board, p, c, 8, 2));
    lemma_every_move_answered(board, p, c);
}

proof fn hold_pceccppee(board: Board, p: Tile, c: Tile)
    requires
        two_marks(p, c),
        shows(board, p, c, E, c, c, p, p, E, E),
    ensures
        safe(board, p, c),
{
    lemma_marks(p, c);
    hold_pceccpppc(after(board, p, c, 7, 8), p, c);
    assert(answered(board, p, c, 2, 7));
    assert(answered(board, p, c, 7, 8));
    assert(answered(board, p, c, 8, 7));
    lemma_every_move_answered(board, p, c);
}

proof fn hold_pcpecpeec(board: Board, p: Tile, c: Tile)
    requires
        two_marks(p, c),
        shows(board, p, c, p, E, c, p, E, E, c),
    ensures
        safe(board, p, c),
{
    lemma_marks(p, c);
    hold_pcpccpepc(after(board, p, c, 7, 3), p, c);
    assert(answered(board, p, c, 3, 7));
    assert(answered(board, p, c, 6, 7));
    assert(answered(board, p, c, 7, 3));
    lemma_every_move_answered(board, p, c);
}

proof fn hold_pcppcecee(board: Board, p: Tile, c: Tile)
    requires
        two_marks(p, c),
        shows(board, p, c, p, p, c, E, c, E, E),
    ensures
        safe(board, p, c),
{
    lemma_marks(p, c);
    hold_pcppcccpe(after(board, p, c, 7, 5), p, c);
    assert(answered(board, p, c, 5, 7));
    assert(answered(board, p, c, 7, 5));
    assert(answered(board, p, c, 8, 7));
    lemma_every_move_answered(board, p, c);
}

proof fn hold_pcpcceepe(board: Board, p: Tile, c: Tile)
    requires
        two_marks(p, c),
        shows(board, p, c, p, c, c, E, E, p, E),
    ensures
        safe(board, p, c),
{
    lemma_marks(p, c);
    hold_pcpccpepc(after(board, p, c, 5, 8), p, c);
    assert(answered(board, p, c, 5, 8));
    assert(answered(board, p, c, 6, 5));
    assert(answered(board, p, c, 8, 5));
    lemma_every_move_answered(board, p, c);
}

proof fn hold_ceepcepcp(board: Board, p: Tile, c: Tile)
    requires
        two_marks(p, c),
        shows(board, c, E, E, p, c, E, p, c, p),
    ensures
        safe(board, p, c),
{
    lemma_marks(p, c);
    hold_cpcpcepcp(after(board, p, c, 1, 2), p, c);
    assert(answered(board, p, c, 1, 2));
    assert(answered(board, p, c, 2, 1));
    assert(answered(board, p, c, 5, 1));
    lemma_every_move_answered(board, p, c);
}

proof fn hold_ceepcecpp(board: Board, p: Tile, c: Tile)
    requires
        two_marks(p, c),
        shows(board, c, E, E, p, c, E, c, p, p),
    ensures
        safe(board, p, c),
{
    lemma_marks(p, c);
    hold_ceppcccpp(after(board, p, c, 2, 5), p, c);
    assert(answered(board, p, c, 1, 2));
    assert(answered(board, p, c, 2, 5));
    assert(answered(board, p, c, 5, 2));
    lemma_every_move_answered(board, p, c);
}

proof fn hold_cepppccee(board: Board, p: Tile, c: Tile)
    requires
        two_marks(p, c),
        shows(board, c, E, p, p, p, c, c, E, E),
    ensures
        safe(board, p, c),
{
    lemma_marks(p, c);
    hold_cppppccce(after(board, p, c, 1, 7), p, c);
    hold_ccpppccpe(after(board, p, c, 7, 1), p, c);
    hold_ccpppccep(after(board, p, c, 8, 1), p, c);
    assert(answered(board, p, c, 1, 7));
    assert(answered(board, p, c, 7, 1));
    assert(answered(board, p, c, 8, 1));
    lemma_every_move_answered(board, p, c);
}

proof fn hold_cecppcpee(board: Board, p: Tile, c: Tile)
    requires
        two_marks(p, c),
        shows(board, c, E, c, p, p, c, p, E, E),
    ensures
        safe(board, p, c),
{
    lemma_marks(p, c);
    assert(answered(board, p, c, 1, 8));
    assert(answered(board, p, c, 7, 1));
    assert(answered(board, p, c, 8, 1));
    lemma_every_move_answered(board, p, c);
}

proof fn hold_cecpcpeep(board: Board, p: Tile, c: Tile)
    requires
        two_marks(p, c),
        shows(board, c, E, c, p, c, p, E, E, p),
    ensures
        safe(board, p, c),
{
    lemma_marks(p, c);
    assert(answered(board, p, c, 1, 6));
    assert(answered(board, p, c, 6, 1));
    assert(answered(board, p, c, 7, 1));
    lemma_every_move_answered(board, p, c);
}

proof fn hold_ceccpppee(board: Board, p: Tile, c: Tile)
    requires
        two_marks(p, c),
        shows(board, c, E, c, c, p, p, p, E, E),
    ensures
        safe(board, p, c),
{
    lemma_marks(p, c);
    hold_cpccpppce(after(board, p, c, 1, 7), p, c);
    assert(answered(board, p, c, 1, 7));
    assert(answered(board, p, c, 7, 1));
    assert(answered(board, p, c, 8, 1));
    lemma_every_move_answered(board, p, c);
}

proof fn hold_cpeececpp(board: Board, p: Tile, c: Tile)
    requires
        two_marks(p, c),
        shows(board, c, p, E, E, c, E, c, p, p),
    ensures
        safe(board, p, c),
{
    lemma_marks(p, c);
    assert(answered(board, p, c, 2, 3));
    assert(answered(board, p, c, 3, 2));
    assert(answered(board, p, c, 5, 2));
    lemma_every_move_answered(board, p, c);
}

proof fn hold_cpeppcece(board: Board, p: Tile, c: Tile)
    requires
        two_marks(p, c),
        shows(board, c, p, E, p, p, c, E, c, E),
    ensures
        safe(board, p, c),
{
    lemma_marks(p, c);
    hold_cppppccce(after(board, p, c, 2, 6), p, c);
    hold_cpcppcpce(after(board, p, c, 6, 2), p, c);
    hold_cpcppcecp(after(board, p, c, 8, 2), p, c);
    assert(answered(board, p, c, 2, 6));
    assert(answered(board, p, c, 6, 2));
    assert(answered(board, p, c, 8, 2));
    lemma_every_move_answered(board, p, c);
}

proof fn hold_cpecpeecp(board: Board, p: Tile, c: Tile)
    requires
        two_marks(p, c),
        shows(board, c, p, E, c, p, E, E, c, p),
    ensures
        safe(board, p, c),
{
    lemma_marks(p, c);
    hold_cpccpepcp(after(board, p, c, 6, 2), p, c);
    assert(answered(board, p, c, 2, 6));
    assert(answered(board, p, c, 5, 6));
    assert(answered(board, p, c, 6, 2));
    lemma_every_move_answered(board, p, c);
}

proof fn hold_cpecppece(board: Board, p: Tile, c: Tile)
    requires
        two_marks(p, c),
        shows(board, c, p, E, c, p, p, E, c, E),
    ensures
        safe(board, p, c),
{
    lemma_marks(p, c);
    hold_cpccpppce(after(board, p, c, 6, 2), p, c);
    assert(answered(board, p, c, 2, 6));
    assert(answered(board, p, c, 6, 2));
    assert(answered(board, p, c, 8, 6));
    lemma_every_move_answered(board, p, c);
}

proof fn hold_cppepecce(board: Board, p: Tile, c: Tile)
    requires
        two_marks(p, c),
        shows(board, c, p, p, E, p, E, c, c, E),
    ensures
        safe(board, p, c),
{
    lemma_marks(p, c);
    assert(answered(board, p, c, 3, 8));
    assert(answered(board, p, c, 5, 3));
    assert(answered(board, p, c, 8, 3));
    lemma_every_move_answered(board, p, c);
}

proof fn hold_cppecceep(board: Board, p: Tile, c: Tile)
    requires
        two_marks(p, c),
        shows(board, c, p, p, E, c, c, E, E, p),
    ensures
        safe(board, p, c),
{
    lemma_marks(p, c);
    hold_cpppcccep(after(board, p, c, 3, 6), p, c);
    assert(answered(board, p, c, 3, 6));
    assert(answered(board, p, c, 6, 3));
    assert(answered(board, p, c, 7, 3));
    lemma_every_move_answered(board, p, c);
}

proof fn hold_cpcepeecp(board: Board, p: Tile, c: Tile)
    requires
        two_marks(p, c),
        shows(board, c, p, c, E, p, E, E, c, p),
    ensures
        safe(board, p, c),
{
    lemma_marks(p, c);
    hold_cpcppcecp(after(board, p, c, 3, 5), p, c);
    hold_cpccppecp(after(board, p, c, 5, 3), p, c);
    hold_cpccpepcp(after(board, p, c, 6, 3), p, c);
    assert(answered(board, p, c, 3, 5));
    assert(answered(board, p, c, 5, 3));
    assert(answered(board, p, c, 6, 3));
    lemma_every_move_answered(board, p, c);
}

proof fn hold_cpcepepce(board: Board, p: Tile, c: Tile)
    requires
        two_marks(p, c),
        shows(board, c, p, c, E, p, E, p, c, E),
    ensures
        safe(board, p, c),
{
    lemma_marks(p, c);
    hold_cpcppcpce(after(board, p, c, 3, 5), p, c);
    hold_cpccpppce(after(board, p, c, 5, 3), p, c);
    hold_cpccpepcp(after(board, p, c, 8, 3), p, c);
    assert(answered(board, p, c, 3, 5));
    assert(answered(board, p, c, 5, 3));
    assert(answered(board, p, c, 8, 3));
    lemma_every_move_answered(board, p, c);
}

proof fn hold_cpcecpeep(board: Board, p: Tile, c: Tile)
    requires
        two_marks(p, c),
        shows(board, c, p, c, E, c, p, E, E, p),
    ensures
        safe(board, p, c),
{
    lemma_marks(p, c);
    hold_cpcecppcp(after(board, p, c, 6, 7), p, c);
    assert(answered(board, p, c, 3, 6));
    assert(answered(board, p, c, 6, 7));
    assert(answered(board, p, c, 7, 6));
    lemma_every_move_answered(board, p, c);
}

proof fn hold_cpcpceeep(board: Board, p: Tile, c: Tile)
    requires
        two_marks(p, c),
        shows(board, c, p, c, p, c, E, E, E, p),
    ensures
        safe(board, p, c),
{
    lemma_marks(p, c);
    hold_cpcpcepcp(after(board, p, c, 6, 7), p, c);
    assert(answered(board, p, c, 5, 6));
    assert(answered(board, p, c, 6, 7));
    assert(answered(board, p, c, 7, 6));
    lemma_every_move_answered(board, p, c);
}

proof fn hold_cceppceep(board: Board, p: Tile, c: Tile)
    requires
        two_marks(p, c),
        shows(board, c, c, E, p, p, c, E, E, p),
    ensures
        safe(board, p, c),
{
    lemma_marks(p, c);
    hold_ccpppccep(after(board, p, c, 2, 6), p, c);
    assert(answered(board, p, c, 2, 6));
    assert(answered(board, p, c, 6, 2));
    assert(answered(board, p, c, 7, 2));
    lemma_every_move_answered(board, p, c);
}

proof fn hold_cceppcepe(board: Board, p: Tile, c: Tile)
    requires
        two_marks(p, c),
        shows(board, c, c, E, p, p, c, E, p, E),
    ensures
        safe(board, p, c),
{
    lemma_marks(p, c);
    hold_ccpppccpe(after(board, p, c, 2, 6), p, c);
    assert(answered(board, p, c, 2, 6));
    assert(answered(board, p, c, 6, 2));
    assert(answered(board, p, c, 8, 2));
    lemma_every_move_answered(board, p, c);
}

proof fn hold_ccpepecpe(board: Board, p: Tile, c: Tile)
    requires
        two_marks(p, c),
        shows(board, c, c, p, E, p, E, c, p, E),
    ensures
        safe(board, p, c),
{
    lemma_marks(p, c);
    hold_ccpppccpe(after(board, p, c, 3, 5), p, c);
    assert(answered(board, p, c, 3, 5));
    assert(answered(board, p, c, 5, 3));
    assert(answered(board, p, c, 8, 3));
    lemma_every_move_answered(board, p, c);
}

proof fn hold_ccpppccee(board: Board, p: Tile, c: Tile)
    requires
        two_marks(p, c),
        shows(board, c, c, p, p, p, c, c, E, E),
    ensures
        safe(board, p, c),
{
    lemma_marks(p, c);
    assert(answered(board, p, c, 7, 8));
    assert(answered(board, p, c, 8, 7));
    lemma_every_move_answered(board, p, c);
}

proof fn hold_epcccppcp(board: Board, p: Tile, c: Tile)
    requires
        two_marks(p, c),
        shows(board, E, p, c, c, c, p, p, c, p),
    ensures
        safe(board, p, c),
{
    lemma_marks(p, c);
    assert(answered(board, p, c, 0, 0));
    lemma_every_move_answered(board, p, c);
}

proof fn hold_ecppcccpp(board: Board, p: Tile, c: Tile)
    requires
        two_marks(p, c),
        shows(board, E, c, p, p, c, c, c, p, p),
    ensures
        safe(board, p, c),
{
    lemma_marks(p, c);
    assert(answered(board, p, c, 0, 0));
    lemma_every_move_answered(board, p, c);
}

proof fn hold_pecccpppc(board: Board, p: Tile, c: Tile)
    requires
        two_marks(p, c),
        shows(board, p, E, c, c, c, p, p, p, c),
    ensures
        safe(board, p, c),
{
    lemma_marks(p, c);
    assert(answered(board, p, c, 1, 1));
    lemma_every_move_answered(board, p, c);
}

proof fn hold_ppcccppec(board: Board, p: Tile, c: Tile)
    requires
        two_marks(p, c),
        shows(board, p, p, c, c, c, p, p, E, c),
    ensures
        safe(board, p, c),
{
    lemma_marks(p, c);
    assert(answered(board, p, c, 7, 7));
    lemma_every_move_answered(board, p, c);
}

proof fn hold_ppcccppce(board: Board, p: Tile, c: Tile)
    requires
        two_marks(p, c),
        shows(board, p, p, c, c, c, p, p, c, E),
    ensures
        safe(board, p, c),
{
    lemma_marks(p, c);
    assert(answered(board, p, c, 8, 8));
    lemma_every_move_answered(board, p, c);
}

proof fn hold_pceccpppc(board: Board, p: Tile, c: Tile)
    requires
        two_marks(p, c),
        shows(board, p, c, E, c, c, p, p, p, c),
    ensures
        safe(board, p, c),
{
    lemma_marks(p, c);
    assert(answered(board, p, c, 2, 2));
    lemma_every_move_answered(board, p, c);
}

proof fn hold_pcpecpcpc(board: Board, p: Tile, c: Tile)
    requires
        two_marks(p, c),
        shows(board, p, c, p, E, c, p, c, p, c),
    ensures
        safe(board, p, c),
{
    lemma_marks(p, c);
    assert(answered(board, p, c, 3, 3));
    lemma_every_move_answered(board, p, c);
}

proof fn hold_pcpecccpp(board: Board, p: Tile, c: Tile)
    requires
        two_marks(p, c),
        shows(board, p, c, p, E, c, c, c, p, p),
    ensures
        safe(board, p, c),
{
    lemma_marks(p, c);
    assert(answered(board, p, c, 3, 3));
    lemma_every_move_answered(board, p, c);
}

proof fn hold_pcppcecpc(board: Board, p: Tile, c: Tile)
    requires
        two_marks(p, c),
        shows(board, p, c, p, p, c, E, c, p, c),
    ensures
        safe(board, p, c),
{
    lemma_marks(p, c);
    assert(answered(board, p, c, 5, 5));
    lemma_every_move_answered(board, p, c);
}

proof fn hold_pcppcccpe(board: Board, p: Tile, c: Tile)
    requires
        two_marks(p, c),
        shows(board, p, c, p, p, c, c, c, p, E),
    ensures
        safe(board, p, c),
{
    lemma_marks(p, c);
    assert(answered(board, p, c, 8, 8));
    lemma_every_move_answered(board, p, c);
}

proof fn hold_pcpcceppc(board: Board, p: Tile, c: Tile)
    requires
        two_marks(p, c),
        shows(board, p, c, p, c, c, E, p, p, c),
    ensures
        safe(board, p, c),
{
    lemma_marks(p, c);
    assert(answered(board, p, c, 5, 5));
    lemma_every_move_answered(board, p, c);
}

proof fn hold_pcpccpepc(board: Board, p: Tile, c: Tile)
    requires
        two_marks(p, c),
        shows(board, p, c, p, c, c, p, E, p, c),
    ensures
        safe(board, p, c),
{
    lemma_marks(p, c);
    assert(answered(board, p, c, 6, 6));
    lemma_every_move_answered(board, p, c);
}

proof fn hold_ceppcccpp(board: Board, p: Tile, c: Tile)
    requires
        two_marks(p, c),
        shows(board, c, E, p, p, c, c, c, p, p),
    ensures
        safe(board, p, c),
{
    lemma_marks(p, c);
    assert(answered(board, p, c, 1, 1));
    lemma_every_move_answered(board, p, c);
}

proof fn hold_cppppccce(board: Board, p: Tile, c: Tile)
    requires
        two_marks(p, c),
        shows(board, c, p, p, p, p, c, c, c, E),
    ensures
        safe(board, p, c),
{
    lemma_marks(p, c);
    assert(answered(board, p, c, 8, 8));
    lemma_every_move_answered(board, p, c);
}

proof fn hold_cpppcccep(board: Board, p: Tile, c: Tile)
    requires
        two_marks(p, c),
        shows(board, c, p, p, p, c, c, c, E, p),
    ensures
        safe(board, p, c),
{
    lemma_marks(p, c);
    assert(answered(board, p, c, 7, 7));
    lemma_every_move_answered(board, p, c);
}

proof fn hold_cpcecppcp(board: Board, p: Tile, c: Tile)
    requires
        two_marks(p, c),
        shows(board, c, p, c, E, c, p, p, c, p),
    ensures
        safe(board, p, c),
{
    lemma_marks(p, c);
    assert(answered(board, p, c, 3, 3));
    lemma_every_move_answered(board, p, c);
}

proof fn hold_cpcppcecp(board: Board, p: Tile, c: Tile)
    requires
        two_marks(p, c),
        shows(board, c, p, c, p, p, c, E, c, p),
    ensures
        safe(board, p, c),
{
    lemma_marks(p, c);
    assert(answered(board, p, c, 6, 6));
    lemma_every_move_answered(board, p, c);
}

proof fn hold_cpcppcpce(board: Board, p: Tile, c: Tile)
    requires
        two_marks(p, c),
        shows(board, c, p, c, p, p, c, p, c, E),
    ensures
        safe(board, p, c),
{
    lemma_marks(p, c);
    assert(answered(board, p, c, 8, 8));
    lemma_every_move_answered(board, p, c);
}

proof fn hold_cpcpcepcp(board: Board, p: Tile, c: Tile)
    requires
        two_marks(p, c),
        shows(board, c, p, c, p, c, E, p, c, p),
    ensures
        safe(board, p, c),
{
    lemma_marks(p, c);
    assert(answered(board, p, c, 5, 5));
    lemma_every_move_answered(board, p, c);
}

proof fn hold_cpccpepcp(board: Board, p: Tile, c: Tile)
    requires
        two_marks(p, c),
        shows(board, c, p, c, c, p, E, p, c, p),
    ensures
        safe(board, p, c),
{
    lemma_marks(p, c);
    assert(answered(board, p, c, 5, 5));
    lemma_every_move_answered(board, p, c);
}

proof fn hold_cpccppecp(board: Board, p: Tile, c: Tile)
    requires
        two_marks(p, c),
        shows(board, c, p, c, c, p, p, E, c, p),
    ensures
        safe(board, p, c),
{
    lemma_marks(p, c);
    assert(answered(board, p, c, 6, 6));
    lemma_every_move_answered(board, p, c);
}

proof fn hold_cpccpppce(board: Board, p: Tile, c: Tile)
    requires
        two_marks(p, c),
        shows(board, c, p, c, c, p, p, p, c, E),
    ensures
        safe(board, p, c),
{
    lemma_marks(p, c);
    assert(answered(board, p, c, 8, 8));
    lemma_every_move_answered(board, p, c);
}

proof fn hold_ccpppccep(board: Board, p: Tile, c: Tile)
    requires
        two_marks(p, c),
        shows(board, c, c, p, p, p, c, c, E, p),
    ensures
        safe(board, p, c),
{
    lemma_marks(p, c);
    assert(answered(board, p, c, 7, 7));
    lemma_every_move_answered(board, p, c);
}

proof fn hold_ccpppccpe(board: Board, p: Tile, c: Tile)
    requires
        two_marks(p, c),
        shows(board, c, c, p, p, p, c, c, p, E),
    ensures
        safe(board, p, c),
{
    lemma_marks(p, c);
    assert(answered(board, p, c, 8, 8));
    lemma_every_move_answered(board, p, c);
}

} // verus!
