//! A placement engine for a falling-block puzzle: a piece catalog, a board
//! model with gravity and line clearing, a linear board evaluator, an
//! exhaustive placement search and a translator from placements to
//! controller commands.

pub mod piece;
pub mod board;
pub mod eval;
pub mod search;
pub mod commands;
pub mod session;
