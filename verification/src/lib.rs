//! A calculator for arithmetic written in reverse Polish notation.

pub mod arith;
pub mod calc;
pub mod error;
pub mod eval;
pub mod laws;
pub mod number;
pub mod text;
pub mod token;
pub mod trace;

pub use calc::RpnCalculator;
pub use error::EvalError;
