//! Polynomial commitments and evaluation proofs of the FRI family over prime fields.
//!
//! A polynomial is committed to by the root of a BLAKE3 hash tree over its values on a domain
//! eight times its length. To prove a value `f(r)`, the prover commits to the quotient of
//! `f - f(r)` by `X - r`, folds it down to a constant with challenges drawn from its own
//! commitments, and opens every layer at one query point; the verifier checks the openings and
//! recomputes the fold.
//!
//! The modules, from the ground up: [`arith`] and [`units`] hold the arithmetic of residues,
//! [`field`] the field interface with its two fields, [`domains`] the power-of-two subgroups,
//! [`fft`] the transforms, [`polynomial`] the polynomials, [`hash`] the digests, [`fri`] the
//! commitments, paths, folds and proofs, and [`plonk`] the protocols built on them.

pub mod arith;
pub mod bytes;
pub mod constants;
pub mod domains;
pub mod fft;
pub mod field;
pub mod fri;
pub mod hash;
pub mod plonk;
pub mod polynomial;
pub mod stark;
pub mod units;
pub mod utils;
pub mod wide;

pub use crate::fri::evaluation::FriProof;
