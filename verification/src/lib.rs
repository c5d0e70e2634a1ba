//! Noughts and crosses against an opponent that never loses.
//!
//! - `board`: the grid and the verdict on a position.
//! - `search`: the exhaustive search that scores a position and picks the
//!   machine's move.
//! - `play`: whole games, and what holds of all of them.
//! - `book`: the proof that the empty grid is a tie under the best play.
//! - `notation`: how moves are written, and what a line of input asks for.
//! - `hands`: who plays which mark.
//! - `render`: what the terminal shows.

pub mod board;
pub mod book;
pub mod hands;
pub mod notation;
pub mod play;
pub mod render;
pub mod search;
