//! The grid, its cells, and the verdict on a position.
//!
//! A position is judged by its eight lines, taken in a fixed order: the three
//! rows from the top, the three columns from the left, the diagonal that
//! starts in the top left corner, and the diagonal that starts in the top
//! right corner. The first line that one of the two players holds decides;
//! when none does, the position is a tie if no cell is empty, and play goes on
//! otherwise. Nothing is asked of the number of marks on the grid.

use vstd::prelude::*;

verus! {

/// What a cell of the grid holds.
#[derive(Clone, Copy, PartialEq, Eq, Debug, Structural)]
pub enum Tile {
    Empty,
    X,
    O,
}

/// The grid: three rows of three cells, `board[row][column]`.
pub type Board = [[Tile; 3]; 3];

/// The verdict on a position.
#[derive(Clone, Copy, PartialEq, Eq, Debug, Structural)]
pub enum BoardState {
    /// The tile that holds the deciding line.
    Win(Tile),
    Tie,
    Continue,
}

/// The cell with number `i`, the cells being numbered row by row:
/// cell `i` lies in row `i / 3` and column `i % 3`.
pub open spec fn cell(board: Board, i: int) -> Tile {
    board[i / 3][i % 3]
}

/// The number of the cell that a move names. A move is written as column,
/// then row, both counted from 0.
pub open spec fn spot_number(spot: [usize; 2]) -> int {
    spot[1] * 3 + spot[0]
}

/// `board` with `tile` put on cell `i`.
pub open spec fn place(board: Board, i: int, tile: Tile) -> Board {
    vstd::array::spec_array_update(
        board,
        i / 3,
        vstd::array::spec_array_update(board[i / 3], i % 3, tile),
    )
}

/// How many of the first `n` cells hold `tile`.
pub open spec fn count(board: Board, tile: Tile, n: int) -> nat
    decreases n,
{
    if n <= 0 {
        0
    } else if cell(board, n - 1) == tile {
        count(board, tile, n - 1) + 1
    } else {
        count(board, tile, n - 1)
    }
}

/// How many of the first `n` cells are empty.
pub open spec fn tally(board: Board, n: int) -> nat {
    count(board, Tile::Empty, n)
}

/// How many cells are empty.
pub open spec fn vacancies(board: Board) -> nat {
    tally(board, 9)
}

/// No cell is empty.
pub open spec fn is_full(board: Board) -> bool {
    forall|i: int| 0 <= i < 9 ==> cell(board, i) != Tile::Empty
}

/// The numbers of the three cells of line `k`, for `k` from 0 to 7, in the
/// order in which the lines are judged.
pub open spec fn line(k: int) -> (int, int, int) {
    if k < 3 {
        (3 * k, 3 * k + 1, 3 * k + 2)
    } else if k < 6 {
        (k - 3, k, k + 3)
    } else if k == 6 {
        (0, 4, 8)
    } else {
        (2, 4, 6)
    }
}

/// All three cells of line `k` hold `tile`.
pub open spec fn line_held(board: Board, k: int, tile: Tile) -> bool {
    &&& cell(board, line(k).0) == tile
    &&& cell(board, line(k).1) == tile
    &&& cell(board, line(k).2) == tile
}

/// The three cells of line `k` hold the same, be it a mark or nothing.
pub open spec fn line_uniform(board: Board, k: int) -> bool {
    line_held(board, k, cell(board, line(k).0))
}

/// Line `k` is held by one of the two players.
pub open spec fn line_won(board: Board, k: int, player_tile: Tile, computer_tile: Tile) -> bool {
    ||| line_held(board, k, player_tile)
    ||| line_held(board, k, computer_tile)
}

/// `tile` holds one of the eight lines.
pub open spec fn holds_line(board: Board, tile: Tile) -> bool {
    ||| line_held(board, 0, tile)
    ||| line_held(board, 1, tile)
    ||| line_held(board, 2, tile)
    ||| line_held(board, 3, tile)
    ||| line_held(board, 4, tile)
    ||| line_held(board, 5, tile)
    ||| line_held(board, 6, tile)
    ||| line_held(board, 7, tile)
}

/// Each of the nine cells holds a mark.
pub open spec fn all_marked(board: Board) -> bool {
    &&& cell(board, 0) != Tile::Empty
    &&& cell(board, 1) != Tile::Empty
    &&& cell(board, 2) != Tile::Empty
    &&& cell(board, 3) != Tile::Empty
    &&& cell(board, 4) != Tile::Empty
    &&& cell(board, 5) != Tile::Empty
    &&& cell(board, 6) != Tile::Empty
    &&& cell(board, 7) != Tile::Empty
    &&& cell(board, 8) != Tile::Empty
}

/// The first line from `k` on that one of the two players holds.
pub open spec fn first_won(board: Board, k: int, player_tile: Tile, computer_tile: Tile) -> Option<
    int,
>
    decreases 8 - k,
{
    if k >= 8 {
        None
    } else if line_won(board, k, player_tile, computer_tile) {
        Some(k)
    } else {
        first_won(board, k + 1, player_tile, computer_tile)
    }
}

/// The verdict on `board` in a game between `player_tile` and
/// `computer_tile`: a win for the tile on the first line that one of them
/// holds, a tie where neither holds a line and the grid is full, and else
/// the sign to go on.
pub open spec fn board_state(board: Board, player_tile: Tile, computer_tile: Tile) -> BoardState {
    match first_won(board, 0, player_tile, computer_tile) {
        Some(k) => BoardState::Win(cell(board, line(k).0)),
        None => if is_full(board) {
            BoardState::Tie
        } else {
            BoardState::Continue
        },
    }
}

/// The verdict on a line of the cells `a`, `b` and `c`: the player who holds
/// it, if one does.
fn line_verdict(a: Tile, b: Tile, c: Tile, player_tile: Tile, computer_tile: Tile) -> (won: Option<
    Tile,
>)
    ensures
        won == if a == b && b == c && (a == player_tile || a == computer_tile) {
            Some(a)
        } else {
            None
        },
{
    if a == b && b == c {
        if a == player_tile {
            return Some(player_tile);
        } else if a == computer_tile {
            return Some(computer_tile);
        }
    }
    None
}

/// Evaluates a position: who has won, if anybody has, and else whether
/// play goes on. Any grid is accepted, whatever the number of marks on it;
/// where both players hold a line, the line that comes first in the order of
/// judging decides.
pub fn check_board(board: &Board, player_tile: Tile, computer_tile: Tile) -> (state: BoardState)
    ensures
        state == board_state(*board, player_tile, computer_tile),
{
    for row in 0..3usize
        invariant
            forall|k: int| 0 <= k < row ==> !line_won(*board, k, player_tile, computer_tile),
    {
        if let Some(tile) = line_verdict(
            board[row][0],
            board[row][1],
            board[row][2],
            player_tile,
            computer_tile,
        ) {
            proof {
                lemma_first_won_is(*board, row as int, player_tile, computer_tile);
            }
            return BoardState::Win(tile);
        }
    }
    for col in 0..3usize
        invariant
            forall|k: int| 0 <= k < 3 + col ==> !line_won(*board, k, player_tile, computer_tile),
    {
        if let Some(tile) = line_verdict(
            board[0][col],
            board[1][col],
            board[2][col],
            player_tile,
            computer_tile,
        ) {
            proof {
                lemma_first_won_is(*board, 3 + col as int, player_tile, computer_tile);
            }
            return BoardState::Win(tile);
        }
    }
    if let Some(tile) = line_verdict(
        board[0][0],
        board[1][1],
        board[2][2],
        player_tile,
        computer_tile,
    ) {
        proof {
            lemma_first_won_is(*board, 6, player_tile, computer_tile);
        }
        return BoardState::Win(tile);
    }
    if let Some(tile) = line_verdict(
        board[0][2],
        board[1][1],
        board[2][0],
        player_tile,
        computer_tile,
    ) {
        proof {
            lemma_first_won_is(*board, 7, player_tile, computer_tile);
        }
        return BoardState::Win(tile);
    }
    proof {
        lemma_first_won_none(*board, player_tile, computer_tile);
    }
    let mut full = true;
    for row in 0..3usize
        invariant
            full == forall|i: int| 0 <= i < 3 * row ==> cell(*board, i) != Tile::Empty,
    {
        for col in 0..3usize
            invariant
                row < 3,
                full == forall|i: int| 0 <= i < 3 * row + col ==> cell(*board, i) != Tile::Empty,
        {
            if board[row][col] == Tile::Empty {
                assert(cell(*board, 3 * row + col) == Tile::Empty);
                full = false;
            }
        }
    }
    if full {
        BoardState::Tie
    } else {
        BoardState::Continue
    }
}

/// The line that decides is the first that a player holds: where line `k` is
/// held and none before it is, `first_won` from 0 on is `k`.
pub proof fn lemma_first_won_is(board: Board, k: int, player_tile: Tile, computer_tile: Tile)
    requires
        0 <= k < 8,
        line_won(board, k, player_tile, computer_tile),
        forall|j: int| 0 <= j < k ==> !line_won(board, j, player_tile, computer_tile),
    ensures
        first_won(board, 0, player_tile, computer_tile) == Some(k),
{
    reveal_with_fuel(first_won, 9);
}

/// Where no player holds a line, no line decides.
pub proof fn lemma_first_won_none(board: Board, player_tile: Tile, computer_tile: Tile)
    requires
        forall|j: int| 0 <= j < 8 ==> !line_won(board, j, player_tile, computer_tile),
    ensures
        first_won(board, 0, player_tile, computer_tile) is None,
{
    reveal_with_fuel(first_won, 9);
}

/// The verdict does not depend on which of the two tiles is the player's and
/// which the machine's.
pub proof fn lemma_state_either_way(board: Board, player_tile: Tile, computer_tile: Tile)
    ensures
        board_state(board, player_tile, computer_tile) == board_state(
            board,
            computer_tile,
            player_tile,
        ),
{
    reveal_with_fuel(first_won, 9);
}

/// The winner is one of the two players, and holds a line.
pub proof fn lemma_winner_holds_line(board: Board, player_tile: Tile, computer_tile: Tile)
    ensures
        board_state(board, player_tile, computer_tile) matches BoardState::Win(tile) ==> {
            &&& tile == player_tile || tile == computer_tile
            &&& exists|k: int| 0 <= k < 8 && line_held(board, k, tile)
        },
{
    reveal_with_fuel(first_won, 9);
    if let Some(k) = first_won(board, 0, player_tile, computer_tile) {
        assert(0 <= k < 8 && line_won(board, k, player_tile, computer_tile));
        assert(line_held(board, k, cell(board, line(k).0)));
    }
}

/// A player who holds a line wins, whichever of the two tiles is theirs,
/// provided that the other player holds no line.
pub proof fn lemma_held_line_wins(board: Board, side: Tile, other: Tile, k: int)
    requires
        0 <= k < 8,
        line_held(board, k, side),
        forall|j: int| 0 <= j < 8 ==> !line_held(board, j, other),
    ensures
        board_state(board, side, other) == BoardState::Win(side),
        board_state(board, other, side) == BoardState::Win(side),
{
    reveal_with_fuel(first_won, 9);
}

/// The verdict read off the lines that the two players hold: the one who
/// alone holds a line has won; where neither holds one, the grid is a tie if
/// every cell is marked, and play goes on if not.
pub proof fn lemma_state_by_lines(board: Board, player_tile: Tile, computer_tile: Tile)
    ensures
        all_marked(board) <==> is_full(board),
        holds_line(board, player_tile) && !holds_line(board, computer_tile) ==> board_state(
            board,
            player_tile,
            computer_tile,
        ) == BoardState::Win(player_tile),
        holds_line(board, computer_tile) && !holds_line(board, player_tile) ==> board_state(
            board,
            player_tile,
            computer_tile,
        ) == BoardState::Win(computer_tile),
        !holds_line(board, player_tile) && !holds_line(board, computer_tile) ==> board_state(
            board,
            player_tile,
            computer_tile,
        ) == if all_marked(board) {
            BoardState::Tie
        } else {
            BoardState::Continue
        },
{
    reveal_with_fuel(first_won, 9);
    reveal_with_fuel(count, 10);
    lemma_full_no_vacancy(board);
}

/// A grid without an empty cell on which no line is uniform is a tie.
pub proof fn lemma_full_without_line_is_tie(board: Board, player_tile: Tile, computer_tile: Tile)
    requires
        is_full(board),
        forall|k: int| 0 <= k < 8 ==> !line_uniform(board, k),
    ensures
        board_state(board, player_tile, computer_tile) == BoardState::Tie,
{
    assert forall|k: int| 0 <= k < 8 implies !line_won(
        board,
        k,
        player_tile,
        computer_tile,
    ) by {
        assert(!line_uniform(board, k));
    }
    lemma_first_won_none(board, player_tile, computer_tile);
}

/// On a grid with an empty cell on which no line is uniform, play goes on.
pub proof fn lemma_open_without_line_continues(
    board: Board,
    player_tile: Tile,
    computer_tile: Tile,
)
    requires
        !is_full(board),
        forall|k: int| 0 <= k < 8 ==> !line_uniform(board, k),
    ensures
        board_state(board, player_tile, computer_tile) == BoardState::Continue,
{
    assert forall|k: int| 0 <= k < 8 implies !line_won(
        board,
        k,
        player_tile,
        computer_tile,
    ) by {
        assert(!line_uniform(board, k));
    }
    lemma_first_won_none(board, player_tile, computer_tile);
}

/// A mark put on a cell changes that cell and no other.
pub proof fn lemma_place_cells(board: Board, i: int, tile: Tile)
    requires
        0 <= i < 9,
    ensures
        forall|j: int|
            0 <= j < 9 ==> #[trigger] cell(place(board, i, tile), j) == if j == i {
                tile
            } else {
                cell(board, j)
            },
{
}

/// What a mark put on the empty cell `i` does to the counts among the first
/// `n` cells, where cell `i` is one of them: one more of its kind, and one
/// empty cell fewer.
pub proof fn lemma_place_count(board: Board, i: int, tile: Tile, counted: Tile, n: int)
    requires
        0 <= i < 9,
        0 <= n <= 9,
        cell(board, i) == Tile::Empty,
        tile != Tile::Empty,
    ensures
        count(place(board, i, tile), counted, n) == count(board, counted, n) + (if i < n {
            if counted == tile {
                1int
            } else if counted == Tile::Empty {
                -1int
            } else {
                0int
            }
        } else {
            0int
        }),
    decreases n,
{
    if n > 0 {
        lemma_place_count(board, i, tile, counted, n - 1);
        lemma_place_cells(board, i, tile);
        assert(cell(place(board, i, tile), n - 1) == if n - 1 == i {
            tile
        } else {
            cell(board, n - 1)
        });
    }
}

/// A mark put on an empty cell leaves one empty cell fewer.
pub proof fn lemma_place_fills(board: Board, i: int, tile: Tile)
    requires
        0 <= i < 9,
        cell(board, i) == Tile::Empty,
        tile != Tile::Empty,
    ensures
        vacancies(place(board, i, tile)) + 1 == vacancies(board),
{
    lemma_place_count(board, i, tile, Tile::Empty, 9);
}

/// The tally grows with the number of cells.
pub proof fn lemma_tally_grows(board: Board, a: int, b: int)
    requires
        a <= b,
    ensures
        tally(board, a) <= tally(board, b),
    decreases b - a,
{
    if a < b {
        lemma_tally_grows(board, a, b - 1);
    }
}

/// An empty cell among the first `n` is counted.
pub proof fn lemma_tally_counts(board: Board, n: int, i: int)
    requires
        0 <= i < n,
        cell(board, i) == Tile::Empty,
    ensures
        tally(board, n) > 0,
    decreases n,
{
    if i < n - 1 {
        lemma_tally_counts(board, n - 1, i);
    }
}

/// Of `n` cells at most `n` are empty.
pub proof fn lemma_tally_within(board: Board, n: int)
    requires
        0 <= n,
    ensures
        tally(board, n) <= n,
    decreases n,
{
    if n > 0 {
        lemma_tally_within(board, n - 1);
    }
}

/// None of the first `n` cells is empty exactly when their tally is 0.
proof fn lemma_tally_zero(board: Board, n: int)
    requires
        0 <= n <= 9,
    ensures
        tally(board, n) == 0 <==> forall|i: int| 0 <= i < n ==> cell(board, i) != Tile::Empty,
    decreases n,
{
    if n > 0 {
        lemma_tally_zero(board, n - 1);
    }
}

/// A grid is full exactly when it has no vacancy.
pub proof fn lemma_full_no_vacancy(board: Board)
    ensures
        is_full(board) <==> vacancies(board) == 0,
{
    lemma_tally_zero(board, 9);
}

} // verus!
