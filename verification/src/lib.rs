//! Core of a button-driven desktop calculator: a token log of the input
//! entered since the last clear, a state machine that mutates the log on
//! each button press, and an evaluator that reduces the log left to right.
//!
//! Numeric work is double-precision floating point, which the verified
//! core cannot carry; the evaluator therefore emits an explicit list of
//! arithmetic steps, and the surrounding shell folds them into a number
//! and hands the rendered result back to the log.

pub mod eval;
pub mod laws;
pub mod state;
pub mod text;
pub mod token;
