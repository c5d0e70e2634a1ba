use tictactoe::board::Tile;
use tictactoe::notation::{
    convert_input, index_to_string, judge_input, normalize, parse_input, Command, InputError,
};

const E: Tile = Tile::Empty;
const X: Tile = Tile::X;
const O: Tile = Tile::O;

#[test]
fn tiles_as_text() {
    assert_eq!(Tile::Empty.to_string(), " ");
    assert_eq!(Tile::X.to_string(), "X");
    assert_eq!(Tile::O.to_string(), "O");
}

#[test]
fn moves_as_text() {
    assert_eq!(index_to_string([0, 0]), "A1");
    assert_eq!(index_to_string([1, 0]), "B1");
    assert_eq!(index_to_string([2, 0]), "C1");
    assert_eq!(index_to_string([0, 1]), "A2");
    assert_eq!(index_to_string([1, 2]), "B3");
    assert_eq!(index_to_string([2, 2]), "C3");
}

#[test]
fn text_as_moves() {
    assert_eq!(convert_input(&String::from("a1")), [0, 0]);
    assert_eq!(convert_input(&String::from("b1")), [1, 0]);
    assert_eq!(convert_input(&String::from("c2")), [2, 1]);
    assert_eq!(convert_input(&String::from("a3")), [0, 2]);
    assert_eq!(convert_input(&String::from("c3")), [2, 2]);
}

#[test]
fn text_as_moves_reads_two_characters() {
    assert_eq!(convert_input(&String::from("")), [0, 0]);
    assert_eq!(convert_input(&String::from("c")), [2, 0]);
    assert_eq!(convert_input(&String::from("b3 and more")), [1, 2]);
}

#[test]
fn text_and_moves_agree() {
    for column in 0..3 {
        for row in 0..3 {
            let text = index_to_string([column, row]).to_lowercase();
            assert_eq!(convert_input(&text), [column, row]);
        }
    }
}

#[test]
fn judged_as_exit() {
    let board = [[E; 3]; 3];
    assert_eq!(judge_input(&String::from("exit"), true, &board), Command::Exit);
    assert_eq!(judge_input(&String::from("exit"), false, &board), Command::Exit);
}

#[test]
fn judged_as_move() {
    let board = [[X, E, E], [E, O, E], [E, E, E]];
    assert_eq!(judge_input(&String::from("b1"), true, &board), Command::Move([1, 0]));
    assert_eq!(judge_input(&String::from("a3"), true, &board), Command::Move([0, 2]));
    assert_eq!(judge_input(&String::from("c3"), true, &board), Command::Move([2, 2]));
}

#[test]
fn judged_as_too_long_or_too_short() {
    let board = [[E; 3]; 3];
    for text in ["", "a", "a12", "exit ", "quit", "1", "\u{20ac}"] {
        assert_eq!(
            judge_input(&String::from(text), true, &board),
            Command::Retry(InputError::Length)
        );
    }
}

#[test]
fn judged_as_not_alphabetic() {
    let board = [[E; 3]; 3];
    assert_eq!(
        judge_input(&String::from("11"), false, &board),
        Command::Retry(InputError::NonAlpha)
    );
    assert_eq!(
        judge_input(&String::from("!x"), false, &board),
        Command::Retry(InputError::NonAlpha)
    );
}

#[test]
fn judged_as_not_numeric() {
    let board = [[E; 3]; 3];
    assert_eq!(
        judge_input(&String::from("ab"), true, &board),
        Command::Retry(InputError::NonNumeric)
    );
    assert_eq!(
        judge_input(&String::from("c!"), true, &board),
        Command::Retry(InputError::NonNumeric)
    );
}

#[test]
fn judged_as_out_of_bounds() {
    let board = [[E; 3]; 3];
    for text in ["d1", "z9", "zz", "a4", "b9", "a0", "c0", "\u{e9}"] {
        assert_eq!(
            judge_input(&String::from(text), true, &board),
            Command::Retry(InputError::OutOfBounds)
        );
    }
}

#[test]
fn judged_as_taken() {
    let board = [[X, E, E], [E, O, E], [E, E, E]];
    assert_eq!(judge_input(&String::from("a1"), true, &board), Command::Retry(InputError::Taken));
    assert_eq!(judge_input(&String::from("b2"), true, &board), Command::Retry(InputError::Taken));
}

#[test]
fn first_fault_is_reported() {
    let board = [[X, E, E], [E, E, E], [E, E, E]];
    assert_eq!(
        judge_input(&String::from("!!"), false, &board),
        Command::Retry(InputError::NonAlpha)
    );
    assert_eq!(
        judge_input(&String::from("z!"), true, &board),
        Command::Retry(InputError::OutOfBounds)
    );
    assert_eq!(
        judge_input(&String::from("a!"), true, &board),
        Command::Retry(InputError::NonNumeric)
    );
}

#[test]
fn lines_are_trimmed_and_put_in_small_letters() {
    assert_eq!(normalize("a1"), "a1");
    assert_eq!(normalize("  B2 \n"), "b2");
    assert_eq!(normalize("\tEXIT\r\n"), "exit");
    assert_eq!(normalize(" a 1 "), "a 1");
    assert_eq!(normalize("\n"), "");
}

#[test]
fn parsed_lines_are_trimmed() {
    let board = [[E; 3]; 3];
    assert_eq!(parse_input("a1\n", &board), Command::Move([0, 0]));
    assert_eq!(parse_input("  c2 \r\n", &board), Command::Move([2, 1]));
    assert_eq!(parse_input("\texit\n", &board), Command::Exit);
}

#[test]
fn parsed_lines_are_put_in_small_letters() {
    let board = [[E; 3]; 3];
    assert_eq!(parse_input("A3", &board), Command::Move([0, 2]));
    assert_eq!(parse_input("B1", &board), Command::Move([1, 0]));
    assert_eq!(parse_input("EXIT", &board), Command::Exit);
    assert_eq!(parse_input("Exit\n", &board), Command::Exit);
}

#[test]
fn parsed_lines_with_faults() {
    let board = [[E, E, E], [E, O, E], [E, E, E]];
    assert_eq!(parse_input("\n", &board), Command::Retry(InputError::Length));
    assert_eq!(parse_input("a 1", &board), Command::Retry(InputError::Length));
    assert_eq!(parse_input("a10", &board), Command::Retry(InputError::Length));
    assert_eq!(parse_input("12", &board), Command::Retry(InputError::NonAlpha));
    assert_eq!(parse_input("?2", &board), Command::Retry(InputError::NonAlpha));
    assert_eq!(parse_input("\u{a7}", &board), Command::Retry(InputError::NonAlpha));
    assert_eq!(parse_input("aa", &board), Command::Retry(InputError::NonNumeric));
    assert_eq!(parse_input("D1", &board), Command::Retry(InputError::OutOfBounds));
    assert_eq!(parse_input("z2", &board), Command::Retry(InputError::OutOfBounds));
    assert_eq!(parse_input("\u{e9}", &board), Command::Retry(InputError::OutOfBounds));
    assert_eq!(parse_input("c7", &board), Command::Retry(InputError::OutOfBounds));
    assert_eq!(parse_input("b0", &board), Command::Retry(InputError::OutOfBounds));
    assert_eq!(parse_input("b2", &board), Command::Retry(InputError::Taken));
    assert_eq!(parse_input("B2", &board), Command::Retry(InputError::Taken));
}

#[test]
fn fault_messages() {
    assert_eq!(InputError::Length.message(), "Input was not 2 chars long!");
    assert_eq!(InputError::NonAlpha.message(), "Inputs first index wasn't alphabetic!");
    assert_eq!(InputError::NonNumeric.message(), "Inputs second index wasn't numeric!");
    assert_eq!(InputError::OutOfBounds.message(), "Input was out of bounds!");
    assert_eq!(InputError::Taken.message(), "Input is occupied!");
}
