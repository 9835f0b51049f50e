//! A registry of crossword puzzles keyed by the hash of their solution.
//!
//! The owner registers puzzles; anyone may submit a candidate solution, which
//! is hashed and looked up. The first correct submission moves the puzzle from
//! unsolved to solved and earns the fixed prize.

pub mod crossword;
pub mod hashing;
pub mod laws;
pub mod store;
pub mod types;
pub mod unsolved;
