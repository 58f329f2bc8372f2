//! A rules-validation engine for a reduced form of standard chess.
//!
//! Given an immutable game state and a proposed move, the engine decides
//! whether the move is legal and, if so, produces the resulting state.
//! Everything is a pure, deterministic transition function: no I/O, no
//! hidden state, and every accepted move yields a brand-new value.

pub mod board;
pub mod engine;
pub mod laws;
pub mod piece;
pub mod rules;
