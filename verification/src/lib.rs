//! Rank-1 constraint system (R1CS) synthesis.
//!
//! An arithmetic circuit describes its private witness values, its public
//! inputs and the algebraic relations between them by allocating variables in
//! a constraint system and enforcing rank-1 constraints `A * B = C`, where
//! `A`, `B` and `C` are linear combinations of the allocated variables.
//! A run without witness values records the circuit's shape alone (for key
//! setup); a run with witness values additionally records a satisfying
//! assignment (for proving). Producing identical shapes in both runs is the
//! obligation this crate proves, together with the algebraic relations the
//! two concrete circuits establish.

pub mod field;
pub mod r1cs;
pub mod cubic;
pub mod multiply;
