//! A prover for the sumcheck protocol over composites of multilinear polynomials.
//!
//! The prover keeps one record per multilinear operand and goes through the
//! rounds of the protocol: in each round it sums an evaluator's shares over
//! the remaining hypercube ([`prover::ProverState::sum_round_evals`]) and then
//! folds the verifier's challenge into every operand
//! ([`prover::ProverState::fold`]). An operand is read through the tensor of
//! the challenges until its switchover round and stored in folded form from
//! then on; [`contraction`] proves that both give the same values.
pub mod binary_field;
pub mod contraction;
pub mod error;
pub mod evaluator;
pub mod field;
pub mod multilinear;
pub mod prover;
pub mod query;
pub mod round_coeffs;
pub mod vertex_sum;
