//! Chess position representation and pseudo-legal move generation.
//!
//! Every executable function carries a contract stated over the mathematical
//! model of a position (`Position`), and the rules of movement are proved
//! against that model.

pub mod board;
pub mod fen;
pub mod fen_round_trip;
pub mod move_gen;
pub mod movement;
pub mod moves;
pub mod piece;
