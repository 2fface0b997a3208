//! The verifiers of the polynomial protocols.

use vstd::prelude::*;
use crate::arith::{fmul, fsub};
use crate::field::PrimeField;
use crate::fri::evaluation::FriProof;
use crate::fri::fold::challenge_of;
use crate::fri::{FriCommitment, VerificationResult};
use crate::plonk::{
    Evaluation, PermutationCheckProof, PrescribedPermutationCheckProof, ProductCheckProof,
    RationalProductCheckProof, ZeroTestProof,
};

verus! {

/// The verdict for a condition.
pub open spec fn verdict(accepted: bool) -> VerificationResult {
    if accepted {
        VerificationResult::ValidProof
    } else {
        VerificationResult::InvalidProof
    }
}

impl<F: PrimeField> Evaluation<F> {
    /// The claim that a polynomial has the value `eval`, with its proof.
    pub fn new(eval: F, eval_proof: FriProof<F>) -> (r: Self)
        ensures
            r.eval == eval,
            r.eval_proof == eval_proof,
    {
        Self { eval, eval_proof }
    }

    /// The lists of the proof fit one another.
    pub open spec fn well_formed(&self) -> bool {
        self.eval_proof.fri_challenge.well_formed()
    }

    /// The proof of the claim passes the verifier.
    pub open spec fn accepts(&self) -> bool {
        self.eval_proof.accepts()
    }

    /// Checks the proof of the claim.
    pub fn check(&self) -> (r: VerificationResult)
        requires
            self.well_formed(),
        ensures
            r == verdict(self.accepts()),
    {
        if self.eval_proof.verify().is_valid() {
            return VerificationResult::ValidProof;
        }
        VerificationResult::InvalidProof
    }

    /// The claimed value.
    pub fn evaluation(&self) -> (r: F)
        ensures
            r == self.eval,
    {
        self.eval
    }
}

impl<F: PrimeField> ZeroTestProof<F> {
    /// The proof made of the two evaluations.
    pub fn new(f_r: Evaluation<F>, q_r: Evaluation<F>) -> (r: Self)
        ensures
            r.f_r == f_r,
            r.q_r == q_r,
    {
        Self { f_r, q_r }
    }

    /// The lists of both proofs fit one another.
    pub open spec fn well_formed(&self) -> bool {
        self.f_r.well_formed() && self.q_r.well_formed()
    }

    /// Both evaluation proofs pass, and the value of the polynomial is the value of the
    /// quotient times the value of the vanishing polynomial, which is taken to be one.
    pub open spec fn accepts(&self) -> bool {
        &&& self.f_r.accepts()
        &&& self.q_r.accepts()
        &&& self.f_r.eval.value() == fmul(self.q_r.eval.value(), 1, F::modulus())
    }

    /// Checks the proof.
    pub fn verify(&self) -> (r: VerificationResult)
        requires
            self.well_formed(),
        ensures
            r == verdict(self.accepts()),
    {
        if !self.f_r.check().is_valid() {
            return VerificationResult::InvalidProof;
        }
        if !self.q_r.check().is_valid() {
            return VerificationResult::InvalidProof;
        }
        let vp: F = F::one();
        if !self.f_r.evaluation().equals(&self.q_r.evaluation().mul(&vp)) {
            return VerificationResult::InvalidProof;
        }
        VerificationResult::ValidProof
    }
}

impl<F: PrimeField> ProductCheckProof<F> {
    /// The proof made of the five evaluations.
    pub fn new(
        end_eval: Evaluation<F>,
        t_r: Evaluation<F>,
        t_wr: Evaluation<F>,
        q_r: Evaluation<F>,
        f_wr: Evaluation<F>,
    ) -> (r: Self)
        ensures
            r.end_eval == end_eval,
            r.t_r == t_r,
            r.t_wr == t_wr,
            r.q_r == q_r,
            r.f_wr == f_wr,
    {
        Self { end_eval, t_r, t_wr, q_r, f_wr }
    }

    /// The lists of all proofs fit one another.
    pub open spec fn well_formed(&self) -> bool {
        &&& self.end_eval.well_formed()
        &&& self.t_r.well_formed()
        &&& self.t_wr.well_formed()
        &&& self.q_r.well_formed()
        &&& self.f_wr.well_formed()
    }

    /// All evaluation proofs pass, the running product ends in one, and
    /// `t(wr) - t(r) * f(wr) == q(r)`.
    pub open spec fn accepts(&self) -> bool {
        let p = F::modulus();
        &&& self.end_eval.accepts()
        &&& self.t_r.accepts()
        &&& self.t_wr.accepts()
        &&& self.q_r.accepts()
        &&& self.f_wr.accepts()
        &&& self.end_eval.eval.value() == 1
        &&& fsub(
            self.t_wr.eval.value(),
            fmul(self.t_r.eval.value(), self.f_wr.eval.value(), p),
            p,
        ) == fmul(self.q_r.eval.value(), 1, p)
    }

    /// Checks the proof.
    pub fn verify(&self) -> (r: VerificationResult)
        requires
            self.well_formed(),
        ensures
            r == verdict(self.accepts()),
    {
        if !self.end_eval.check().is_valid() {
            return VerificationResult::InvalidProof;
        }
        if !self.t_r.check().is_valid() {
            return VerificationResult::InvalidProof;
        }
        if !self.t_wr.check().is_valid() {
            return VerificationResult::InvalidProof;
        }
        if !self.q_r.check().is_valid() {
            return VerificationResult::InvalidProof;
        }
        if !self.f_wr.check().is_valid() {
            return VerificationResult::InvalidProof;
        }
        let vp: F = F::one();
        if !self.end_eval.evaluation().equals(&F::one()) {
            return VerificationResult::InvalidProof;
        }
        let lhs: F = self.t_wr.evaluation().sub(
            &self.t_r.evaluation().mul(&self.f_wr.evaluation()),
        );
        let rhs: F = self.q_r.evaluation().mul(&vp);
        if !lhs.equals(&rhs) {
            return VerificationResult::InvalidProof;
        }
        VerificationResult::ValidProof
    }
}

impl<F: PrimeField> RationalProductCheckProof<F> {
    /// The proof made of the six evaluations.
    pub fn new(
        end_eval: Evaluation<F>,
        t_r: Evaluation<F>,
        t_wr: Evaluation<F>,
        q_r: Evaluation<F>,
        g_wr: Evaluation<F>,
        f_wr: Evaluation<F>,
    ) -> (r: Self)
        ensures
            r.end_eval == end_eval,
            r.t_r == t_r,
            r.t_wr == t_wr,
            r.q_r == q_r,
            r.g_wr == g_wr,
            r.f_wr == f_wr,
    {
        Self { end_eval, t_r, t_wr, q_r, g_wr, f_wr }
    }

    /// The lists of all proofs fit one another.
    pub open spec fn well_formed(&self) -> bool {
        &&& self.end_eval.well_formed()
        &&& self.t_r.well_formed()
        &&& self.t_wr.well_formed()
        &&& self.q_r.well_formed()
        &&& self.g_wr.well_formed()
        &&& self.f_wr.well_formed()
    }

    /// All evaluation proofs pass, the running product ends in one, and
    /// `t(wr) * g(wr) - t(r) * f(wr) == q(r)`.
    pub open spec fn accepts(&self) -> bool {
        let p = F::modulus();
        &&& self.end_eval.accepts()
        &&& self.t_r.accepts()
        &&& self.t_wr.accepts()
        &&& self.q_r.accepts()
        &&& self.g_wr.accepts()
        &&& self.f_wr.accepts()
        &&& self.end_eval.eval.value() == 1
        &&& fsub(
            fmul(self.t_wr.eval.value(), self.g_wr.eval.value(), p),
            fmul(self.t_r.eval.value(), self.f_wr.eval.value(), p),
            p,
        ) == fmul(self.q_r.eval.value(), 1, p)
    }

    /// Checks the proof.
    pub fn verify(&self) -> (r: VerificationResult)
        requires
            self.well_formed(),
        ensures
            r == verdict(self.accepts()),
    {
        if !self.end_eval.check().is_valid() {
            return VerificationResult::InvalidProof;
        }
        if !self.t_r.check().is_valid() {
            return VerificationResult::InvalidProof;
        }
        if !self.t_wr.check().is_valid() {
            return VerificationResult::InvalidProof;
        }
        if !self.q_r.check().is_valid() {
            return VerificationResult::InvalidProof;
        }
        if !self.g_wr.check().is_valid() {
            return VerificationResult::InvalidProof;
        }
        if !self.f_wr.check().is_valid() {
            return VerificationResult::InvalidProof;
        }
        let vp: F = F::one();
        if !self.end_eval.evaluation().equals(&F::one()) {
            return VerificationResult::InvalidProof;
        }
        let lhs: F = self.t_wr.evaluation().mul(&self.g_wr.evaluation()).sub(
            &self.t_r.evaluation().mul(&self.f_wr.evaluation()),
        );
        let rhs: F = self.q_r.evaluation().mul(&vp);
        if !lhs.equals(&rhs) {
            return VerificationResult::InvalidProof;
        }
        VerificationResult::ValidProof
    }
}

impl<F: PrimeField> PermutationCheckProof<F> {
    /// The proof made of the commitment and the six evaluations.
    pub fn new(
        f_com: FriCommitment<F>,
        end_eval: Evaluation<F>,
        t_r: Evaluation<F>,
        t_wr: Evaluation<F>,
        q_r: Evaluation<F>,
        g_wr: Evaluation<F>,
        f_wr: Evaluation<F>,
    ) -> (r: Self)
        ensures
            r.f_com == f_com,
            r.end_eval == end_eval,
            r.t_r == t_r,
            r.t_wr == t_wr,
            r.q_r == q_r,
            r.g_wr == g_wr,
            r.f_wr == f_wr,
    {
        Self { f_com, end_eval, t_r, t_wr, q_r, g_wr, f_wr }
    }

    /// The lists of all proofs fit one another.
    pub open spec fn well_formed(&self) -> bool {
        &&& self.end_eval.well_formed()
        &&& self.t_r.well_formed()
        &&& self.t_wr.well_formed()
        &&& self.q_r.well_formed()
        &&& self.g_wr.well_formed()
        &&& self.f_wr.well_formed()
    }

    /// All evaluation proofs pass, the running product ends in one, and with the challenge
    /// `r` drawn from the commitment, `t(wr) * (r - g(wr)) - t(r) * (r - f(wr)) == q(r)`.
    pub open spec fn accepts(&self) -> bool {
        let p = F::modulus();
        let r = challenge_of::<F>(self.f_com@);
        let g = fsub(r, self.g_wr.eval.value(), p);
        let f = fsub(r, self.f_wr.eval.value(), p);
        &&& self.end_eval.accepts()
        &&& self.t_r.accepts()
        &&& self.t_wr.accepts()
        &&& self.q_r.accepts()
        &&& self.g_wr.accepts()
        &&& self.f_wr.accepts()
        &&& self.end_eval.eval.value() == 1
        &&& fsub(fmul(self.t_wr.eval.value(), g, p), fmul(self.t_r.eval.value(), f, p), p) == fmul(
            self.q_r.eval.value(),
            1,
            p,
        )
    }

    /// Checks the proof.
    pub fn verify(&self) -> (r: VerificationResult)
        requires
            self.well_formed(),
        ensures
            r == verdict(self.accepts()),
    {
        if !self.end_eval.check().is_valid() {
            return VerificationResult::InvalidProof;
        }
        if !self.t_r.check().is_valid() {
            return VerificationResult::InvalidProof;
        }
        if !self.t_wr.check().is_valid() {
            return VerificationResult::InvalidProof;
        }
        if !self.q_r.check().is_valid() {
            return VerificationResult::InvalidProof;
        }
        if !self.g_wr.check().is_valid() {
            return VerificationResult::InvalidProof;
        }
        if !self.f_wr.check().is_valid() {
            return VerificationResult::InvalidProof;
        }
        let vp: F = F::one();
        let r: F = self.f_com.interpret_as_element();
        let g: F = r.sub(&self.g_wr.evaluation());
        let f: F = r.sub(&self.f_wr.evaluation());
        if !self.end_eval.evaluation().equals(&F::one()) {
            return VerificationResult::InvalidProof;
        }
        let lhs: F = self.t_wr.evaluation().mul(&g).sub(&self.t_r.evaluation().mul(&f));
        let rhs: F = self.q_r.evaluation().mul(&vp);
        if !lhs.equals(&rhs) {
            return VerificationResult::InvalidProof;
        }
        VerificationResult::ValidProof
    }
}

impl<F: PrimeField> PrescribedPermutationCheckProof<F> {
    /// The proof made of the two commitments and the seven evaluations.
    pub fn new(
        f_com: FriCommitment<F>,
        g_com: FriCommitment<F>,
        end_eval: Evaluation<F>,
        t_r: Evaluation<F>,
        t_wr: Evaluation<F>,
        q_r: Evaluation<F>,
        f_wr: Evaluation<F>,
        g_wr: Evaluation<F>,
        w_wr: Evaluation<F>,
    ) -> (r: Self)
        ensures
            r.f_com == f_com,
            r.g_com == g_com,
            r.end_eval == end_eval,
            r.t_r == t_r,
            r.t_wr == t_wr,
            r.q_r == q_r,
            r.f_wr == f_wr,
            r.g_wr == g_wr,
            r.w_wr == w_wr,
    {
        Self { f_com, g_com, end_eval, t_r, t_wr, q_r, f_wr, g_wr, w_wr }
    }

    /// The lists of all proofs fit one another.
    pub open spec fn well_formed(&self) -> bool {
        &&& self.end_eval.well_formed()
        &&& self.t_r.well_formed()
        &&& self.t_wr.well_formed()
        &&& self.q_r.well_formed()
        &&& self.g_wr.well_formed()
        &&& self.f_wr.well_formed()
        &&& self.w_wr.well_formed()
    }

    /// All evaluation proofs pass, the running product ends in one, and with the challenges
    /// `r` and `s` drawn from the two commitments,
    /// `t(wr) * (r - s - g(wr)) - t(r) * (r - s * w(wr) - f(wr)) == q(r)`.
    pub open spec fn accepts(&self) -> bool {
        let p = F::modulus();
        let r = challenge_of::<F>(self.f_com@);
        let s = challenge_of::<F>(self.g_com@);
        let f = fsub(fsub(r, fmul(s, self.w_wr.eval.value(), p), p), self.f_wr.eval.value(), p);
        let g = fsub(fsub(r, fmul(s, 1, p), p), self.g_wr.eval.value(), p);
        &&& self.end_eval.accepts()
        &&& self.t_r.accepts()
        &&& self.t_wr.accepts()
        &&& self.q_r.accepts()
        &&& self.g_wr.accepts()
        &&& self.f_wr.accepts()
        &&& self.w_wr.accepts()
        &&& self.end_eval.eval.value() == 1
        &&& fsub(fmul(self.t_wr.eval.value(), g, p), fmul(self.t_r.eval.value(), f, p), p) == fmul(
            self.q_r.eval.value(),
            1,
            p,
        )
    }

    /// Checks the proof.
    pub fn verify(&self) -> (r: VerificationResult)
        requires
            self.well_formed(),
        ensures
            r == verdict(self.accepts()),
    {
        if !self.end_eval.check().is_valid() {
            return VerificationResult::InvalidProof;
        }
        if !self.t_r.check().is_valid() {
            return VerificationResult::InvalidProof;
        }
        if !self.t_wr.check().is_valid() {
            return VerificationResult::InvalidProof;
        }
        if !self.q_r.check().is_valid() {
            return VerificationResult::InvalidProof;
        }
        if !self.g_wr.check().is_valid() {
            return VerificationResult::InvalidProof;
        }
        if !self.f_wr.check().is_valid() {
            return VerificationResult::InvalidProof;
        }
        if !self.w_wr.check().is_valid() {
            return VerificationResult::InvalidProof;
        }
        let vp: F = F::one();
        let r: F = self.f_com.interpret_as_element();
        let s: F = self.g_com.interpret_as_element();
        let a: F = F::one();
        let f: F = r.sub(&s.mul(&self.w_wr.evaluation())).sub(&self.f_wr.evaluation());
        let g: F = r.sub(&s.mul(&a)).sub(&self.g_wr.evaluation());
        if !self.end_eval.evaluation().equals(&F::one()) {
            return VerificationResult::InvalidProof;
        }
        let lhs: F = self.t_wr.evaluation().mul(&g).sub(&self.t_r.evaluation().mul(&f));
        let rhs: F = self.q_r.evaluation().mul(&vp);
        if !lhs.equals(&rhs) {
            return VerificationResult::InvalidProof;
        }
        VerificationResult::ValidProof
    }
}

} // verus!
