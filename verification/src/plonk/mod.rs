//! Polynomial protocols in the style of PLONK, each reduced to evaluation proofs.

use vstd::prelude::*;
use crate::field::PrimeField;
use crate::fri::evaluation::FriProof;
use crate::fri::FriCommitment;
use crate::polynomial::Polynomial;

pub mod proofs;
pub mod protocols;

verus! {

/// A claimed value of a committed polynomial with the proof of the claim.
pub struct Evaluation<F: PrimeField> {
    pub eval: F,
    pub eval_proof: FriProof<F>,
}

/// A circuit: a selector polynomial and the gates it selects among.
pub struct Circuit<F: PrimeField> {
    pub selector: Polynomial<F>,
    pub gates: Vec<Gate<F>>,
}

/// A gate with its two input wires.
pub struct Gate<F: PrimeField> {
    pub wires: (F, F),
}

/// A proof that a polynomial vanishes on a set: the values of the polynomial and of its
/// quotient by the vanishing polynomial at a challenge point.
pub struct ZeroTestProof<F: PrimeField> {
    pub f_r: Evaluation<F>,
    pub q_r: Evaluation<F>,
}

/// A proof that the values of a polynomial on a subgroup multiply to one.
pub struct ProductCheckProof<F: PrimeField> {
    pub end_eval: Evaluation<F>,
    pub t_r: Evaluation<F>,
    pub t_wr: Evaluation<F>,
    pub q_r: Evaluation<F>,
    pub f_wr: Evaluation<F>,
}

/// A proof that the quotients of the values of two polynomials on a subgroup multiply to one.
pub struct RationalProductCheckProof<F: PrimeField> {
    pub end_eval: Evaluation<F>,
    pub t_r: Evaluation<F>,
    pub t_wr: Evaluation<F>,
    pub q_r: Evaluation<F>,
    pub g_wr: Evaluation<F>,
    pub f_wr: Evaluation<F>,
}

/// A proof that the values of one polynomial on a subgroup are a permutation of those of
/// another.
pub struct PermutationCheckProof<F: PrimeField> {
    pub f_com: FriCommitment<F>,
    pub end_eval: Evaluation<F>,
    pub t_r: Evaluation<F>,
    pub t_wr: Evaluation<F>,
    pub q_r: Evaluation<F>,
    pub g_wr: Evaluation<F>,
    pub f_wr: Evaluation<F>,
}

/// A proof that the values of one polynomial on a subgroup are those of another under a
/// prescribed permutation.
pub struct PrescribedPermutationCheckProof<F: PrimeField> {
    pub f_com: FriCommitment<F>,
    pub g_com: FriCommitment<F>,
    pub end_eval: Evaluation<F>,
    pub t_r: Evaluation<F>,
    pub t_wr: Evaluation<F>,
    pub q_r: Evaluation<F>,
    pub g_wr: Evaluation<F>,
    pub f_wr: Evaluation<F>,
    pub w_wr: Evaluation<F>,
}

} // verus!
