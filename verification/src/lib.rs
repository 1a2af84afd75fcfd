//! A chess engine on bitboards: legal move generation, move application and
//! the classification of a position, with positions read and written in FEN
//! and moves in UCI.

pub mod bits;
pub mod text;
pub mod types;
pub mod geometry;
pub mod tables;
pub mod position;
pub mod board;
pub mod attack;
pub mod movegen;
pub mod legal;
pub mod fen;
pub mod game;
pub mod bots;
pub mod laws;
pub mod fen_laws;
pub mod listing;
