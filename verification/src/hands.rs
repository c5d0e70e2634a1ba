//! Who plays which mark.

use crate::board::Tile;
use vstd::prelude::*;

verus! {

/// Calls `fastrand::bool`, which draws from the generator of the running
/// thread. Nothing is claimed of what it returns.
#[verifier::external_body]
fn random_bool() -> (drawn: bool) {
    fastrand::bool()
}

/// The player's tile and the machine's, in this order, where `player_is_x`
/// says that the player has the crosses.
pub fn hands_for(player_is_x: bool) -> (hands: (Tile, Tile))
    ensures
        hands == if player_is_x {
            (Tile::X, Tile::O)
        } else {
            (Tile::O, Tile::X)
        },
{
    let player_tile = if player_is_x {
        Tile::X
    } else {
        Tile::O
    };
    let computer_tile = match player_tile {
        Tile::X => Tile::O,
        _ => Tile::X,
    };
    (player_tile, computer_tile)
}

/// Deals the marks by chance: the player's tile and the machine's, in this
/// order. Whatever is drawn, one of the two has the crosses and the other the
/// noughts.
pub fn assign_hands() -> (hands: (Tile, Tile))
    ensures
        hands == (Tile::X, Tile::O) || hands == (Tile::O, Tile::X),
{
    hands_for(random_bool())
}

} // verus!
