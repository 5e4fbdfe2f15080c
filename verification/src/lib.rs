//! Core of a falling-block puzzle game: a fixed-size grid of locked cells,
//! the seven tetromino shapes with pivot rotation, a falling piece bound to a
//! board position, and the tick/command state machine that drops, locks and
//! scores pieces.  Everything here is verified; the platform shell (window,
//! rendering, keyboard) lives outside and only feeds commands and ticks in and
//! reads snapshots back.

pub mod game;
pub mod grid;
pub mod piece;
pub mod pos;
mod rng;

pub use game::Command;
pub use game::GameState;
pub use grid::Grid;
pub use piece::MovingPiece;
pub use piece::Piece;
pub use pos::Pos;
