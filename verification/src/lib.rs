//! Triversi: a capture game for three players on a triangular board.
//!
//! The crate holds the rules of the game: the geometry of the board, the
//! board itself, the computation of the legal moves with what each of them
//! captures, the history of a game and the state machine that sequences the
//! turns. Every function is verified against the contract it carries.

pub mod availables;
pub mod board;
pub mod capture;
pub mod count;
pub mod error;
pub mod history;
pub mod lattice_board;
pub mod layout;
pub mod logic_board;
pub mod mark;
pub mod names;
pub mod player;
pub mod position;
pub mod system;
pub mod text;
