//! A chess rules engine: pieces and their movement shapes, a board with its
//! bookkeeping, move validation, move enumeration and a FEN decoder.

pub mod board;
pub mod fen;
pub mod movegen;
pub mod notation;
pub mod piece;
pub mod position;
pub mod rules;
pub mod text;
