use ansi_term::Colour::{Green, Red, White, Yellow, RGB};
use tictactoe::board::Tile;
use tictactoe::play::Ending;
use tictactoe::render::{arrow_text, decimal_text, draw_board, ending_text, pick_text, Ink};

const E: Tile = Tile::Empty;
const X: Tile = Tile::X;
const O: Tile = Tile::O;

fn printed_board(board: &[[Tile; 3]; 3]) -> String {
    let mut out = String::from("      A   B   C\n");
    for (row_id, row) in board.iter().enumerate() {
        out += &format!("{}\n {}  ", Green.paint("    +---+---+---+"), row_id + 1);
        for &tile in row {
            out += &format!("{}", Green.paint("| "));
            match tile {
                Tile::Empty => out += "  ",
                Tile::X => out += &format!("{}", RGB(255, 165, 0).bold().paint("X ")),
                Tile::O => out += &format!("{}", Red.bold().paint("O ")),
            }
        }
        out += &format!("{}\n", Green.paint("|"));
    }
    out += &format!("{}\n", Green.paint("    +---+---+---+"));
    out
}

#[test]
fn numbers_in_decimal() {
    assert_eq!(decimal_text(0), "0");
    assert_eq!(decimal_text(7), "7");
    assert_eq!(decimal_text(10), "10");
    assert_eq!(decimal_text(109), "109");
    assert_eq!(decimal_text(274_972), "274972");
    assert_eq!(decimal_text(1_073_741_823), "1073741823");
    assert_eq!(decimal_text(u32::MAX), "4294967295");
}

#[test]
fn empty_board_drawn() {
    let board = [[E; 3]; 3];
    let frame = "\x1b[32m    +---+---+---+\x1b[0m\n";
    let cells = "\x1b[32m| \x1b[0m  \x1b[32m| \x1b[0m  \x1b[32m| \x1b[0m  \x1b[32m|\x1b[0m\n";
    let expected = format!(
        "      A   B   C\n{frame} 1  {cells}{frame} 2  {cells}{frame} 3  {cells}{frame}"
    );
    assert_eq!(draw_board(&board), expected);
}

#[test]
fn marks_drawn_in_their_colours() {
    let board = [[X, E, O], [E, E, E], [E, E, E]];
    let text = draw_board(&board);
    let first_row = text.lines().nth(2).unwrap();
    assert_eq!(
        first_row,
        " 1  \x1b[32m| \x1b[0m\x1b[1;38;2;255;165;0mX \x1b[0m\x1b[32m| \x1b[0m  \
         \x1b[32m| \x1b[0m\x1b[1;31mO \x1b[0m\x1b[32m|\x1b[0m"
    );
}

#[test]
fn boards_drawn_as_printed() {
    let boards = [
        [[E, E, E], [E, E, E], [E, E, E]],
        [[X, E, O], [E, X, E], [O, E, E]],
        [[X, O, X], [X, O, O], [O, X, X]],
        [[O, O, O], [X, X, X], [E, E, E]],
    ];
    for board in boards {
        assert_eq!(draw_board(&board), printed_board(&board));
    }
}

#[test]
fn lines_with_an_arrow() {
    assert_eq!(
        arrow_text("Input is occupied!", Ink::Red),
        "\x1b[1;31m>>>\x1b[0m Input is occupied!"
    );
    assert_eq!(arrow_text("", Ink::Green), "\x1b[1;32m>>>\x1b[0m ");
    assert_eq!(
        arrow_text("Examples: a3, B1, c2", Ink::Green),
        format!("{} {}", Green.bold().paint(">>>"), "Examples: a3, B1, c2")
    );
    assert_eq!(arrow_text("x", Ink::Yellow), format!("{} x", Yellow.bold().paint(">>>")));
    assert_eq!(arrow_text("x", Ink::White), format!("{} x", White.bold().paint(">>>")));
    assert_eq!(
        arrow_text("x", Ink::Rgb(1, 20, 255)),
        "\x1b[1;38;2;1;20;255m>>>\x1b[0m x"
    );
}

#[test]
fn count_is_halved_towards_zero() {
    for count in [0, 1, 2, 3, 1_000_001, i32::MAX, -1, -2, -3, -549_945, i32::MIN] {
        let line = pick_text([2, 1], count, "9s");
        let expected = format!("{}", White.bold().paint((count / 2).to_string()));
        assert!(line.contains(&expected), "{line}");
        assert!(line.contains(" C2 "));
    }
}

#[test]
fn news_of_the_ending() {
    assert_eq!(ending_text(Ending::PlayerWins), "\x1b[1;32m>>> You win!\x1b[0m");
    assert_eq!(ending_text(Ending::ComputerWins), "\x1b[1;31m>>> You lose!\x1b[0m");
    assert_eq!(ending_text(Ending::Tie), "\x1b[1;33m>>> Tie!\x1b[0m");
}

#[test]
fn news_of_a_move() {
    assert_eq!(
        pick_text([1, 2], 549_945, "1.5ms"),
        "\x1b[1;31m>>>\x1b[0m \x1b[31mComputer picked:\x1b[0m B3 \x1b[31min\x1b[0m 1.5ms \
         \x1b[31mafter checking\x1b[0m \x1b[1;37m274972\x1b[0m \x1b[31mpermutations.\x1b[0m"
    );
    assert_eq!(
        pick_text([0, 0], 1, ""),
        format!(
            "{} {} {} {} {} {} {} {}",
            Red.bold().paint(">>>"),
            Red.paint("Computer picked:"),
            "A1",
            Red.paint("in"),
            "",
            Red.paint("after checking"),
            White.bold().paint((1 / 2).to_string()),
            Red.paint("permutations.")
        )
    );
}
