//! A verified core of the Phase rules engine: turn control, public-state
//! synchronisation, combat and replacement-choice handling, a few effect
//! resolvers, and the Oracle-text phrase grammar.

pub mod ability;
pub mod replacement;
pub mod seqs;
pub mod state;
pub mod types;
pub mod game;
pub mod parser;
pub mod persistence;
pub mod messages;
