//! Decision core of a chess engine: position model, evaluation,
//! transposition tables, move ordering and an iterative-deepening
//! alpha-beta search, with machine-checked contracts.
//!
//! `model` says as a function what a search returns that the clock does
//! not stop; `search` is the search itself, proved to return that.

pub mod def;
pub mod util;
pub mod bits;
pub mod bitboard;
pub mod state;
pub mod mov_table;
pub mod hash_tbl;
pub mod prng;
pub mod eval;
pub mod model;
pub mod search;
pub mod uci;
