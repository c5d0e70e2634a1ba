//! How cells and moves are written: a move is a column letter, `a` to `c`,
//! followed by a row digit, `1` to `3`.

use crate::board::{cell, Board, Tile};
use vstd::prelude::*;

verus! {

/// The character that stands for a tile.
pub open spec fn glyph(tile: Tile) -> char {
    match tile {
        Tile::Empty => ' ',
        Tile::X => 'X',
        Tile::O => 'O',
    }
}

impl Tile {
    /// The tile as text: one character, a blank for the empty tile.
    pub fn to_string(&self) -> (text: String)
        ensures
            text@ == seq![glyph(*self)],
    {
        proof {
            reveal_strlit(" ");
            reveal_strlit("X");
            reveal_strlit("O");
        }
        let text = match self {
            Tile::Empty => " ".to_string(),
            Tile::X => "X".to_string(),
            Tile::O => "O".to_string(),
        };
        assert(text@ =~= seq![glyph(*self)]);
        text
    }
}

/// The capital letter of column `column`, for the columns 0 to 2.
pub open spec fn column_letter(column: int) -> char {
    if column == 0 {
        'A'
    } else if column == 1 {
        'B'
    } else {
        'C'
    }
}

/// The digit of row `row`, for the rows 0 to 2.
pub open spec fn row_digit(row: int) -> char {
    if row == 0 {
        '1'
    } else if row == 1 {
        '2'
    } else {
        '3'
    }
}

/// Writes a move, given as column and row, as a capital letter and a digit:
/// the move to column 1 and row 2 is `B3`.
pub fn index_to_string(index: [usize; 2]) -> (string: String)
    requires
        index[0] < 3,
        index[1] < 3,
    ensures
        string@ == seq![column_letter(index[0] as int), row_digit(index[1] as int)],
{
    proof {
        reveal_strlit("A");
        reveal_strlit("B");
        reveal_strlit("C");
        reveal_strlit("1");
        reveal_strlit("2");
        reveal_strlit("3");
    }
    let mut string = String::new();
    if index[0] == 0 {
        string.append("A");
    } else if index[0] == 1 {
        string.append("B");
    } else {
        string.append("C");
    }
    if index[1] == 0 {
        string.append("1");
    } else if index[1] == 1 {
        string.append("2");
    } else {
        string.append("3");
    }
    assert(string@ =~= seq![column_letter(index[0] as int), row_digit(index[1] as int)]);
    string
}

/// `c` is one of the small letters that name a column.
pub open spec fn is_column_letter(c: char) -> bool {
    c == 'a' || c == 'b' || c == 'c'
}

/// `c` is one of the digits that name a row.
pub open spec fn is_row_digit(c: char) -> bool {
    c == '1' || c == '2' || c == '3'
}

/// The column that the letter `c` names.
pub open spec fn column_of(c: char) -> int {
    if c == 'a' {
        0
    } else if c == 'b' {
        1
    } else {
        2
    }
}

/// The row that the digit `c` names.
pub open spec fn row_of(c: char) -> int {
    if c == '1' {
        0
    } else if c == '2' {
        1
    } else {
        2
    }
}

/// Reads a move from its first two characters, a column letter and a row
/// digit, as column and row. Characters after the second are not looked at,
/// and a coordinate whose character is missing is 0.
pub fn convert_input(input: &String) -> (coords: [usize; 2])
    requires
        input@.len() >= 1 ==> is_column_letter(input@[0]),
        input@.len() >= 2 ==> is_row_digit(input@[1]),
    ensures
        coords[0] == if input@.len() >= 1 {
            column_of(input@[0])
        } else {
            0
        },
        coords[1] == if input@.len() >= 2 {
            row_of(input@[1])
        } else {
            0
        },
{
    let text = input.as_str();
    let length = text.unicode_len();
    let mut coords: [usize; 2] = [0; 2];
    if length >= 1 {
        let letter = text.get_char(0);
        if letter == 'a' {
            coords[0] = 0;
        } else if letter == 'b' {
            coords[0] = 1;
        } else {
            coords[0] = 2;
        }
    }
    if length >= 2 {
        let digit = text.get_char(1);
        if digit == '1' {
            coords[1] = 0;
        } else if digit == '2' {
            coords[1] = 1;
        } else {
            coords[1] = 2;
        }
    }
    coords
}

/// Why a line of input names no move that can be made.
#[derive(Clone, Copy, PartialEq, Eq, Debug, Structural)]
pub enum InputError {
    /// The input is not two bytes long.
    Length,
    /// The first character is no letter.
    NonAlpha,
    /// The second character is no digit.
    NonNumeric,
    /// The letter names no column, or the digit no row.
    OutOfBounds,
    /// The cell is not empty.
    Taken,
}

impl InputError {
    /// The sentence that tells the player what was wrong.
    pub fn message(&self) -> (text: String)
        ensures
            text@ == match *self {
                InputError::Length => "Input was not 2 chars long!"@,
                InputError::NonAlpha => "Inputs first index wasn't alphabetic!"@,
                InputError::NonNumeric => "Inputs second index wasn't numeric!"@,
                InputError::OutOfBounds => "Input was out of bounds!"@,
                InputError::Taken => "Input is occupied!"@,
            },
    {
        match self {
            InputError::Length => "Input was not 2 chars long!".to_string(),
            InputError::NonAlpha => "Inputs first index wasn't alphabetic!".to_string(),
            InputError::NonNumeric => "Inputs second index wasn't numeric!".to_string(),
            InputError::OutOfBounds => "Input was out of bounds!".to_string(),
            InputError::Taken => "Input is occupied!".to_string(),
        }
    }
}

/// What a line of input asks for.
#[derive(Clone, Copy, PartialEq, Eq, Debug)]
pub enum Command {
    /// To leave the game.
    Exit,
    /// To mark the cell at this column and row, which is empty.
    Move([usize; 2]),
    /// Nothing that can be done: the player is asked again.
    Retry(InputError),
}

/// `c` is one of the digits `0` to `9`.
pub open spec fn is_digit(c: char) -> bool {
    '0' <= c <= '9'
}

/// The word that ends the game.
pub open spec fn exit_word() -> Seq<char> {
    seq!['e', 'x', 'i', 't']
}

/// What is wrong with `input` as a move on `board`, if anything is. The
/// first fault counts, and they are looked for in this order: the length in
/// bytes, the first character, the second character, the cell.
/// `first_alphabetic` says whether the first character is a letter of any
/// alphabet.
///
/// An input of two bytes holds one character or two. Where it holds one, that
/// character is no column letter, so that the second character is only looked
/// at where there is one.
pub open spec fn input_fault(input: Seq<char>, first_alphabetic: bool, board: Board) -> Option<
    InputError,
> {
    if vstd::utf8::encode_utf8(input).len() != 2 {
        Some(InputError::Length)
    } else if !first_alphabetic {
        Some(InputError::NonAlpha)
    } else if !is_column_letter(input[0]) {
        Some(InputError::OutOfBounds)
    } else if !is_digit(input[1]) {
        Some(InputError::NonNumeric)
    } else if !is_row_digit(input[1]) {
        Some(InputError::OutOfBounds)
    } else if cell(board, row_of(input[1]) * 3 + column_of(input[0])) != Tile::Empty {
        Some(InputError::Taken)
    } else {
        None
    }
}

/// `command` is what `input` asks for on `board`: to leave, for the word
/// `exit`; the move that it names, where nothing is wrong with it; and
/// otherwise to be asked again, with the first fault found.
pub open spec fn answers(
    command: Command,
    input: Seq<char>,
    first_alphabetic: bool,
    board: Board,
) -> bool {
    match command {
        Command::Exit => input == exit_word(),
        Command::Move(coords) => {
            &&& input != exit_word()
            &&& input_fault(input, first_alphabetic, board) is None
            &&& coords[0] == column_of(input[0])
            &&& coords[1] == row_of(input[1])
        },
        Command::Retry(fault) => {
            &&& input != exit_word()
            &&& input_fault(input, first_alphabetic, board) == Some(fault)
        },
    }
}

/// Every character takes at least one byte.
proof fn lemma_bytes_per_char(chars: Seq<char>)
    ensures
        vstd::utf8::encode_utf8(chars).len() >= chars.len(),
    decreases chars.len(),
{
    if chars.len() > 0 {
        lemma_bytes_per_char(chars.drop_first());
    }
}

/// An input of two bytes that starts with a column letter holds two
/// characters; any input of two bytes holds at least one.
proof fn lemma_two_bytes(input: Seq<char>)
    requires
        vstd::utf8::encode_utf8(input).len() == 2,
    ensures
        input.len() >= 1,
        is_column_letter(input[0]) ==> input.len() == 2,
{
    lemma_bytes_per_char(input);
    if input.len() >= 1 && is_column_letter(input[0]) {
        let rest = input.drop_first();
        lemma_bytes_per_char(rest);
        assert(vstd::utf8::encode_scalar(input[0] as u32).len() == 1);
        if rest.len() > 0 {
            lemma_bytes_per_char(rest.drop_first());
        }
    }
}

/// Judges a line of input that has been trimmed and put in small letters:
/// the word `exit` asks to leave; a column letter and a row digit that name
/// an empty cell of `board` ask for that move; for anything else the player
/// is asked again, with the first fault that `input_fault` finds.
/// `first_alphabetic` says whether the first character of `input` is a
/// letter of any alphabet; it is not looked at where `input` is empty.
pub fn judge_input(input: &String, first_alphabetic: bool, board: &Board) -> (command: Command)
    ensures
        answers(command, input@, first_alphabetic, *board),
{
    let word = "exit".to_string();
    proof {
        reveal_strlit("exit");
        assert(word@ =~= exit_word());
    }
    if *input == word {
        return Command::Exit;
    }
    let text = input.as_str();
    if text.as_bytes().len() != 2 {
        return Command::Retry(InputError::Length);
    }
    proof {
        lemma_two_bytes(input@);
    }
    if !first_alphabetic {
        return Command::Retry(InputError::NonAlpha);
    }
    let letter = text.get_char(0);
    if !(letter == 'a' || letter == 'b' || letter == 'c') {
        return Command::Retry(InputError::OutOfBounds);
    }
    let digit = text.get_char(1);
    if !('0' <= digit && digit <= '9') {
        return Command::Retry(InputError::NonNumeric);
    }
    if !(digit == '1' || digit == '2' || digit == '3') {
        return Command::Retry(InputError::OutOfBounds);
    }
    let coords = convert_input(input);
    if board[coords[1]][coords[0]] != Tile::Empty {
        return Command::Retry(InputError::Taken);
    }
    Command::Move(coords)
}

/// What `str::trim` makes of a text: the text without the white space at
/// its two ends.
pub uninterp spec fn trimmed(text: Seq<char>) -> Seq<char>;

/// What `str::to_lowercase` makes of a text: the text in small letters.
pub uninterp spec fn lowercased(text: Seq<char>) -> Seq<char>;

/// What `char::is_alphabetic` says of a character: whether Unicode counts it
/// as a letter.
pub uninterp spec fn alphabetic(c: char) -> bool;

/// Calls `str::trim`. Nothing is proved of it: its result is taken to
/// depend on the text alone, and is called `trimmed`.
#[verifier::external_body]
fn trim(text: &str) -> (inner: &str)
    ensures
        inner@ == trimmed(text@),
{
    text.trim()
}

/// Calls `str::to_lowercase`. Nothing is proved of it: its result is taken
/// to depend on the text alone, and is called `lowercased`.
#[verifier::external_body]
fn to_lowercase(text: &str) -> (small: String)
    ensures
        small@ == lowercased(text@),
{
    text.to_lowercase()
}

/// Calls `char::is_alphabetic`. Nothing is proved of it: its result is taken
/// to depend on the character alone, and is called `alphabetic`.
#[verifier::external_body]
fn is_alphabetic(c: char) -> (yes: bool)
    ensures
        yes == alphabetic(c),
{
    c.is_alphabetic()
}

/// The form in which a line is judged: trimmed, and in small letters.
pub open spec fn normal_form(line: Seq<char>) -> Seq<char> {
    lowercased(trimmed(line))
}

/// Puts a line in the form in which it is judged.
pub fn normalize(line: &str) -> (input: String)
    ensures
        input@ == normal_form(line@),
{
    to_lowercase(trim(line))
}

/// Reads one line that the player typed. The line is trimmed and put in
/// small letters, and then judged as `judge_input` does.
pub fn parse_input(line: &str, board: &Board) -> (command: Command)
    ensures
        answers(
            command,
            normal_form(line@),
            normal_form(line@).len() > 0 && alphabetic(normal_form(line@)[0]),
            *board,
        ),
{
    let input = normalize(line);
    let first_alphabetic = input.as_str().unicode_len() > 0 && is_alphabetic(
        input.as_str().get_char(0),
    );
    judge_input(&input, first_alphabetic, board)
}

} // verus!
