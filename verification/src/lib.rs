//! Symbolic boolean expression trees over indexed variables.
//!
//! Expressions are built by smart constructors that keep commutative
//! operands in a canonical order and fold local algebraic identities
//! (idempotence, double negation, negation pushdown, xor recognition).
//! A truth-table synthesizer turns an explicit output vector into an
//! expression tree by recursive Shannon expansion.

pub mod algo;
pub mod expr;
pub mod laws;
pub mod synth;

pub use expr::Expr;
pub use synth::LengthError;
