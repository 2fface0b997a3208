//! The provers of the polynomial protocols.

use vstd::prelude::*;
use vstd::arithmetic::power2::{lemma2_to64, lemma_pow2_strictly_increases, pow2};
use crate::arith::{ceil_log2, is_power_of_two, lemma_ceil_log2_bounds, lemma_log2_pow2};
use crate::field::{values, PrimeField};
use crate::fri::commitment::commitment_root;
use crate::fri::evaluation::{is_proof_for, FriProof};
use crate::fri::fold::challenge_of;
use crate::fri::shift::shift_spec;
use crate::plonk::{Evaluation, ZeroTestProof};
use crate::polynomial::arithmetic::{division_holds, quotient_len};
use crate::polynomial::{poly_eval, stripped, Polynomial};

verus! {

/// `proof` is the zero test of the polynomial `f` with the quotient `q`: the challenge is
/// drawn from the commitment to `q`, and both polynomials are evaluated and opened there.
pub open spec fn is_zero_test_for<F: PrimeField>(
    proof: ZeroTestProof<F>,
    f: Seq<int>,
    q: Seq<int>,
) -> bool {
    let p = F::modulus();
    let r = challenge_of::<F>(commitment_root::<F>(q));
    &&& proof.f_r.eval.value() == poly_eval(f, r, p)
    &&& proof.q_r.eval.value() == poly_eval(q, r, p)
    &&& is_proof_for(proof.f_r.eval_proof, shift_spec(f, r, p))
    &&& is_proof_for(proof.q_r.eval_proof, shift_spec(q, r, p))
    &&& proof.well_formed()
}

impl<F: PrimeField> Polynomial<F> {
    /// The zero test: divides the polynomial by `z`, which stands for the vanishing polynomial
    /// of the set, draws the challenge from the commitment to the quotient, and proves the
    /// values of the polynomial and of the quotient at the challenge.
    pub fn zero_test(&self, z: &Polynomial<F>) -> (proof: ZeroTestProof<F>)
        requires
            is_power_of_two(self@.len()),
            4 <= self@.len() <= 0x1000_0000,
            ceil_log2(self@.len()) + 3 <= F::two_adicity(),
            stripped(z@).len() > 0,
            stripped(z@).len() + 2 <= self@.len(),
        ensures
            exists|q: Seq<int>, rem: Seq<int>|
                {
                    &&& #[trigger] division_holds(self@, q, stripped(z@), rem, F::modulus())
                    &&& rem.len() < stripped(z@).len()
                    &&& stripped(rem) == rem
                    &&& q.len() == quotient_len(self@.len(), stripped(z@).len())
                    &&& is_zero_test_for(proof, self@, q)
                },
    {
        let (q_x, remainder) = self.long_division(z);
        proof {
            let n = self@.len();
            let m = (n - stripped(z@).len() + 1) as nat;
            lemma2_to64();
            crate::arith::lemma_power_of_two_logs(n);
            lemma_ceil_log2_bounds(m);
            crate::arith::lemma_ceil_log2_le(m, ceil_log2(n));
            lemma_log2_pow2(ceil_log2(m));
            if ceil_log2(m) < 2 {
                assert(ceil_log2(m) == 0 || ceil_log2(m) == 1);
                assert(pow2(ceil_log2(m)) <= 2);
            }
            if ceil_log2(m) > 2 {
                lemma_pow2_strictly_increases(2, ceil_log2(m));
            }
            if ceil_log2(m) < ceil_log2(n) {
                lemma_pow2_strictly_increases(ceil_log2(m), ceil_log2(n));
            }
        }
        let r: F = q_x.commitment().interpret_as_element();
        let f_eval: F = self.eval_single(&r);
        let q_eval: F = q_x.eval_single(&r);
        let f_eval_proof: FriProof<F> = FriProof::evaluation_proof(self, Some(r));
        let q_eval_proof: FriProof<F> = FriProof::evaluation_proof(&q_x, Some(r));
        let proof = ZeroTestProof::new(
            Evaluation::new(f_eval, f_eval_proof),
            Evaluation::new(q_eval, q_eval_proof),
        );
        proof {
            assert(division_holds(self@, q_x@, stripped(z@), values(remainder@), F::modulus()));
            assert(is_zero_test_for(proof, self@, q_x@));
        }
        proof
    }
}

} // verus!
