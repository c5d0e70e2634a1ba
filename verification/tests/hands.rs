use tictactoe::board::Tile;
use tictactoe::hands::{assign_hands, hands_for};

#[test]
fn hands_follow_the_draw() {
    assert_eq!(hands_for(true), (Tile::X, Tile::O));
    assert_eq!(hands_for(false), (Tile::O, Tile::X));
}

#[test]
fn hands_are_the_two_marks() {
    for _ in 0..200 {
        let hands = assign_hands();
        assert!(hands == (Tile::X, Tile::O) || hands == (Tile::O, Tile::X));
    }
}

#[test]
fn both_hands_are_dealt() {
    fastrand::seed(7);
    let mut crosses = 0;
    let mut noughts = 0;
    for _ in 0..200 {
        match assign_hands().0 {
            Tile::X => crosses += 1,
            _ => noughts += 1,
        }
    }
    assert!(crosses > 0 && noughts > 0);
}
