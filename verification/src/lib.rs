//! Rules engine of a falling-block puzzle game: the grid, the pieces that fall
//! in it, how they move, turn and come to rest, and how full rows disappear.
//!
//! The functions here are verified against contracts stated over the
//! mathematical view of the grid (a sequence of rows of cells) and of a piece
//! (a sequence of four squares). What is taken on trust of the crates `rand`
//! and `tui` is said where it stands: in `bag` and in `layout`.

pub mod bag;
pub mod cell;
pub mod collision;
pub mod game;
pub mod kicks;
pub mod layout;
pub mod lines;
pub mod movement;
pub mod placement;
pub mod playfield;
pub mod rotation;
pub mod tetromino;
