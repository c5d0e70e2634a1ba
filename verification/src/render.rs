//! What the terminal shows: the grid in colour, the lines that begin with an
//! arrow, and the news of a move or of the end of a game.
//!
//! A text is painted by putting an escape sequence before it that names the
//! colour, and one after it that takes the colour back.

use crate::board::{Board, Tile};
use crate::notation::{column_letter, index_to_string, row_digit};
use crate::play::Ending;
use vstd::prelude::*;

verus! {

/// The colours in use.
#[derive(Clone, Copy, PartialEq, Eq, Debug)]
pub enum Ink {
    Red,
    Green,
    Yellow,
    White,
    /// A colour by its shares of red, green and blue.
    Rgb(u8, u8, u8),
}

/// The character of the digit `d`, for `d` from 0 to 9.
pub open spec fn digit(d: int) -> char {
    if d == 0 {
        '0'
    } else if d == 1 {
        '1'
    } else if d == 2 {
        '2'
    } else if d == 3 {
        '3'
    } else if d == 4 {
        '4'
    } else if d == 5 {
        '5'
    } else if d == 6 {
        '6'
    } else if d == 7 {
        '7'
    } else if d == 8 {
        '8'
    } else {
        '9'
    }
}

/// The number `n` in decimal digits, without leading zeros.
pub open spec fn decimal(n: nat) -> Seq<char>
    decreases n,
{
    if n < 10 {
        seq![digit(n as int)]
    } else {
        decimal(n / 10).push(digit((n % 10) as int))
    }
}

/// The whole number `n` in decimal digits, with a minus sign before them
/// where it is below 0.
pub open spec fn signed_decimal(n: int) -> Seq<char> {
    if n < 0 {
        "-"@ + decimal((-n) as nat)
    } else {
        decimal(n as nat)
    }
}

/// Half of `n`, rounded towards 0.
pub open spec fn half(n: int) -> int {
    if n < 0 {
        -((-n) / 2)
    } else {
        n / 2
    }
}

/// The number by which an escape sequence names a colour.
pub open spec fn ink_code(ink: Ink) -> Seq<char> {
    match ink {
        Ink::Red => "31"@,
        Ink::Green => "32"@,
        Ink::Yellow => "33"@,
        Ink::White => "37"@,
        Ink::Rgb(r, g, b) => "38;2;"@ + decimal(r as nat) + ";"@ + decimal(g as nat) + ";"@
            + decimal(b as nat),
    }
}

/// `text` painted with `ink`, in bold type where `bold` says so: the escape
/// sequence that sets the type and the colour, the text, and the escape
/// sequence that resets both.
pub open spec fn painted(ink: Ink, bold: bool, text: Seq<char>) -> Seq<char> {
    "\x1B["@ + (if bold {
        "1;"@
    } else {
        Seq::<char>::empty()
    }) + ink_code(ink) + "m"@ + text + "\x1B[0m"@
}

/// Calls `ansi_term::Colour::paint` and writes the result out. Nothing is
/// proved of it: the contract says what the crate's source shows, that the
/// text comes out between the escape sequence of the colour and the reset.
#[verifier::external_body]
fn paint(ink: Ink, text: &str) -> (out: String)
    ensures
        out@ == painted(ink, false, text@),
{
    let colour = match ink {
        Ink::Red => ansi_term::Colour::Red,
        Ink::Green => ansi_term::Colour::Green,
        Ink::Yellow => ansi_term::Colour::Yellow,
        Ink::White => ansi_term::Colour::White,
        Ink::Rgb(r, g, b) => ansi_term::Colour::RGB(r, g, b),
    };
    colour.paint(text).to_string()
}

/// Calls `ansi_term::Colour::bold` and `ansi_term::Style::paint`, and writes
/// the result out. Nothing is proved of it: the contract says what the
/// crate's source shows, that the text comes out between the escape sequence
/// of bold type and the colour and the reset.
#[verifier::external_body]
fn paint_bold(ink: Ink, text: &str) -> (out: String)
    ensures
        out@ == painted(ink, true, text@),
{
    let colour = match ink {
        Ink::Red => ansi_term::Colour::Red,
        Ink::Green => ansi_term::Colour::Green,
        Ink::Yellow => ansi_term::Colour::Yellow,
        Ink::White => ansi_term::Colour::White,
        Ink::Rgb(r, g, b) => ansi_term::Colour::RGB(r, g, b),
    };
    colour.bold().paint(text).to_string()
}

/// Writes a number in decimal digits.
pub fn decimal_text(n: u32) -> (text: String)
    ensures
        text@ == decimal(n as nat),
    decreases n,
{
    proof {
        reveal_strlit("0");
        reveal_strlit("1");
        reveal_strlit("2");
        reveal_strlit("3");
        reveal_strlit("4");
        reveal_strlit("5");
        reveal_strlit("6");
        reveal_strlit("7");
        reveal_strlit("8");
        reveal_strlit("9");
    }
    let mut text = if n < 10 {
        String::new()
    } else {
        decimal_text(n / 10)
    };
    let last: u32 = n % 10;
    if last == 0 {
        text.append("0");
    } else if last == 1 {
        text.append("1");
    } else if last == 2 {
        text.append("2");
    } else if last == 3 {
        text.append("3");
    } else if last == 4 {
        text.append("4");
    } else if last == 5 {
        text.append("5");
    } else if last == 6 {
        text.append("6");
    } else if last == 7 {
        text.append("7");
    } else if last == 8 {
        text.append("8");
    } else {
        text.append("9");
    }
    assert(text@ =~= decimal(n as nat));
    text
}

/// The colour of the crosses.
pub open spec fn orange() -> Ink {
    Ink::Rgb(255, 165, 0)
}

/// The line that frames the rows of the grid.
pub open spec fn frame() -> Seq<char> {
    painted(Ink::Green, false, "    +---+---+---+"@)
}

/// A cell of the grid as it is shown: two blanks where it is empty, and
/// else its mark in bold type and a blank, the crosses in orange and the
/// noughts in red.
pub open spec fn tile_picture(tile: Tile) -> Seq<char> {
    match tile {
        Tile::Empty => "  "@,
        Tile::X => painted(orange(), true, "X "@),
        Tile::O => painted(Ink::Red, true, "O "@),
    }
}

/// The first `n` cells of a row as they are shown, a green bar before each.
pub open spec fn cells_picture(board: Board, row: int, n: int) -> Seq<char>
    decreases n,
{
    if n <= 0 {
        Seq::<char>::empty()
    } else {
        cells_picture(board, row, n - 1) + painted(Ink::Green, false, "| "@) + tile_picture(
            board[row][n - 1],
        )
    }
}

/// A row of the grid as it is shown: the frame above it, then its number
/// from 1 on, its three cells, and a green bar at the end.
pub open spec fn row_picture(board: Board, row: int) -> Seq<char> {
    frame() + "\n "@ + seq![row_digit(row)] + "  "@ + cells_picture(board, row, 3) + painted(
        Ink::Green,
        false,
        "|"@,
    ) + "\n"@
}

/// The first `n` rows of the grid as they are shown.
pub open spec fn rows_picture(board: Board, n: int) -> Seq<char>
    decreases n,
{
    if n <= 0 {
        Seq::<char>::empty()
    } else {
        rows_picture(board, n - 1) + row_picture(board, n - 1)
    }
}

/// The grid as it is shown: the letters of the columns, the three rows, and
/// the frame below them.
pub open spec fn board_picture(board: Board) -> Seq<char> {
    "      A   B   C\n"@ + rows_picture(board, 3) + frame() + "\n"@
}

/// Draws a cell of the grid.
fn draw_tile(tile: Tile) -> (text: String)
    ensures
        text@ == tile_picture(tile),
{
    match tile {
        Tile::Empty => "  ".to_string(),
        Tile::X => paint_bold(Ink::Rgb(255, 165, 0), "X "),
        Tile::O => paint_bold(Ink::Red, "O "),
    }
}

/// Draws one row of the grid.
fn draw_row(board: &Board, row: usize) -> (text: String)
    requires
        row < 3,
    ensures
        text@ == row_picture(*board, row as int),
{
    proof {
        reveal_strlit("1");
        reveal_strlit("2");
        reveal_strlit("3");
    }
    let mut text = paint(Ink::Green, "    +---+---+---+");
    text.append("\n ");
    if row == 0 {
        text.append("1");
    } else if row == 1 {
        text.append("2");
    } else {
        text.append("3");
    }
    text.append("  ");
    let ghost start = text@;
    assert(start =~= frame() + "\n "@ + seq![row_digit(row as int)] + "  "@);
    for col in 0..3usize
        invariant
            row < 3,
            text@ == start + cells_picture(*board, row as int, col as int),
    {
        let bar = paint(Ink::Green, "| ");
        let mark = draw_tile(board[row][col]);
        text.append(bar.as_str());
        text.append(mark.as_str());
        assert(text@ =~= start + cells_picture(*board, row as int, col + 1));
    }
    let bar = paint(Ink::Green, "|");
    text.append(bar.as_str());
    text.append("\n");
    text
}

/// Draws the grid: the text that shows it on a terminal, line by line.
pub fn draw_board(board: &Board) -> (text: String)
    ensures
        text@ == board_picture(*board),
{
    let mut text = "      A   B   C\n".to_string();
    let ghost start = text@;
    for row in 0..3usize
        invariant
            text@ == start + rows_picture(*board, row as int),
    {
        let line = draw_row(board, row);
        text.append(line.as_str());
        assert(text@ =~= start + rows_picture(*board, row + 1));
    }
    let line = paint(Ink::Green, "    +---+---+---+");
    text.append(line.as_str());
    text.append("\n");
    text
}

/// A line with an arrow before it: the arrow `>>>` in bold type and the
/// colour `ink`, a blank, and the text.
pub fn arrow_text(text: &str, ink: Ink) -> (line: String)
    ensures
        line@ == painted(ink, true, ">>>"@) + " "@ + text@,
{
    let mut line = paint_bold(ink, ">>>");
    line.append(" ");
    line.append(text);
    line
}

/// The news of how a game ended, in bold type: in green that the player has
/// won, in red that the player has lost, in yellow that nobody has.
pub fn ending_text(ending: Ending) -> (line: String)
    ensures
        line@ == match ending {
            Ending::PlayerWins => painted(Ink::Green, true, ">>> You win!"@),
            Ending::ComputerWins => painted(Ink::Red, true, ">>> You lose!"@),
            Ending::Tie => painted(Ink::Yellow, true, ">>> Tie!"@),
        },
{
    match ending {
        Ending::PlayerWins => paint_bold(Ink::Green, ">>> You win!"),
        Ending::ComputerWins => paint_bold(Ink::Red, ">>> You lose!"),
        Ending::Tie => paint_bold(Ink::Yellow, ">>> Tie!"),
    }
}

/// The news of a move of the machine, as it is shown: the move `pick`, the
/// time `elapsed` that the search took, and half the count `iterations` of
/// the positions that it looked at.
pub open spec fn pick_picture(pick: [usize; 2], iterations: i32, elapsed: Seq<char>) -> Seq<char> {
    painted(Ink::Red, true, ">>>"@) + " "@ + painted(Ink::Red, false, "Computer picked:"@) + " "@
        + seq![column_letter(pick[0] as int), row_digit(pick[1] as int)] + " "@ + painted(
        Ink::Red,
        false,
        "in"@,
    ) + " "@ + elapsed + " "@ + painted(Ink::Red, false, "after checking"@) + " "@ + painted(
        Ink::White,
        true,
        signed_decimal(half(iterations as int)),
    ) + " "@ + painted(Ink::Red, false, "permutations."@)
}

/// Writes half of a count, rounded towards 0.
fn half_text(count: i32) -> (text: String)
    ensures
        text@ == signed_decimal(half(count as int)),
{
    let mut text = String::new();
    if count < 0 {
        let halved: u32 = ((0 - count as i64) / 2) as u32;
        if halved > 0 {
            text.append("-");
        }
        text.append(decimal_text(halved).as_str());
    } else {
        text.append(decimal_text((count / 2) as u32).as_str());
    }
    assert(text@ =~= signed_decimal(half(count as int)));
    text
}

/// Tells of a move of the machine. The count is halved, since the search
/// counts the positions of both sides.
pub fn pick_text(pick: [usize; 2], iterations: i32, elapsed: &str) -> (line: String)
    requires
        pick[0] < 3,
        pick[1] < 3,
    ensures
        line@ == pick_picture(pick, iterations, elapsed@),
{
    let mut line = paint_bold(Ink::Red, ">>>");
    line.append(" ");
    line.append(paint(Ink::Red, "Computer picked:").as_str());
    line.append(" ");
    line.append(index_to_string(pick).as_str());
    line.append(" ");
    line.append(paint(Ink::Red, "in").as_str());
    line.append(" ");
    line.append(elapsed);
    line.append(" ");
    line.append(paint(Ink::Red, "after checking").as_str());
    line.append(" ");
    line.append(paint_bold(Ink::White, half_text(iterations).as_str()).as_str());
    line.append(" ");
    line.append(paint(Ink::Red, "permutations.").as_str());
    line
}

} // verus!
