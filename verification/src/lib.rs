//! A verified library for a small dice game played under two fixed
//! strategies, together with a standalone unit-conversion utility.
//!
//! The game: a player has a fixed number of turns; on each turn they either
//! reroll a die or bank its current face value. Strategy one consults a
//! backward-induction expected-value table; strategy two banks only on the
//! maximum face. Expected values are held as integers scaled by a fixed
//! power of two, so every comparison and every table entry is exact
//! integer arithmetic.

pub mod expected_values;
pub mod game;
pub mod rng;
pub mod simulation;
pub mod text;
pub mod unit_conversion;
