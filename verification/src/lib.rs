//! A verified chess position engine: bitboard board representation, FEN
//! encoding and decoding, legal-move generation, move application, and
//! game-status classification.

pub mod attacks;
pub mod bitboard;
pub mod board;
pub mod error;
pub mod fen;
pub mod movegen;
pub mod moves;
pub mod piece;
pub mod position;
pub mod rules;
pub mod square;
