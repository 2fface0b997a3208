//! The non-interactive prover and the verifier.

use vstd::prelude::*;
use vstd::arithmetic::div_mod::{
    lemma_fundamental_div_mod, lemma_mod_bound, lemma_mod_multiples_vanish, lemma_small_mod,
};
use vstd::arithmetic::mul::{lemma_mul_basics, lemma_mul_is_commutative};
use vstd::arithmetic::power::lemma1_pow;
use vstd::arithmetic::power2::{
    lemma2_to64, lemma2_to64_rest, lemma_pow2_adds, lemma_pow2_pos,
    lemma_pow2_strictly_increases, pow2,
};
use crate::arith::{
    be_value, ceil_log2, fneg, fpow, is_power_of_two, lemma_ceil_log2_le, lemma_fpow_add,
    lemma_fpow_mul, lemma_fpow_pow2_step, lemma_log2_pow2, lemma_power_of_two_logs, pow2_u64,
};
use crate::constants::{FRI_BLOWUP_FACTOR, FRI_BLOWUP_LOG};
use crate::domains::{lemma_generator_order, subgroup_generator};
use crate::fft::theorems::{lemma_eval_padded, lemma_ntt_is_evaluation};
use crate::field::PrimeField;
use crate::fri::authentication::path_for;
use crate::fri::commitment::{blown_up, commitment_root};
use crate::fri::fold::{challenge_of, constant_root, layer, lemma_layer_len};
use crate::fri::shift::{lemma_shift_len, shift_spec};
use crate::fri::{AuthenticationPath, FriChallenge, FriCommitment, VerificationResult};
use crate::polynomial::{canonical, padded, poly_eval, Polynomial};

verus! {

/// A proof that a committed polynomial has a certain value at a point: the commitment to the
/// witness polynomial and the answers to one query on its fold.
#[derive(Debug)]
pub struct FriProof<F: PrimeField> {
    pub w_com: FriCommitment<F>,
    pub fri_challenge: FriChallenge<F>,
}

/// Every power of the generator of the blown-up domain of a polynomial, and the negative of
/// every such power, is a point whose value is among the evaluations on that domain.
pub proof fn lemma_power_has_leaf<F: PrimeField>(a: Seq<int>, m: nat, e: nat)
    requires
        a.len() == pow2(m),
        m + 3 <= F::two_adicity(),
        canonical(a, F::modulus()),
    ensures
        ({
            let x = fpow(subgroup_generator::<F>(m + 3), e, F::modulus());
            &&& exists|i: int|
                0 <= i < blown_up::<F>(a).len() && #[trigger] blown_up::<F>(a)[i] == poly_eval(
                    a,
                    x,
                    F::modulus(),
                )
            &&& exists|i: int|
                0 <= i < blown_up::<F>(a).len() && #[trigger] blown_up::<F>(a)[i] == poly_eval(
                    a,
                    fneg(x, F::modulus()),
                    F::modulus(),
                )
        }),
{
    F::lemma_parameters();
    let p = F::modulus();
    let g = subgroup_generator::<F>(m + 3);
    let size = pow2(m + 3);
    lemma2_to64();
    lemma_pow2_adds(3, m);
    lemma_pow2_pos(m + 3);
    lemma_log2_pow2(m + 3);
    assert(size == FRI_BLOWUP_FACTOR as nat * a.len());
    lemma_generator_order::<F>(m + 3);
    let wide = padded(a, size);
    assert(canonical(wide, p));
    assert(blown_up::<F>(a) == crate::fft::ntt(wide, g, p));
    assert forall|t: nat| #![trigger fpow(g, t, p)]
        exists|i: int|
            0 <= i < blown_up::<F>(a).len() && #[trigger] blown_up::<F>(a)[i] == poly_eval(
                a,
                fpow(g, t, p),
                p,
            ) by {
        let i = (t % size) as int;
        let q = t / size;
        lemma_fundamental_div_mod(t as int, size as int);
        lemma_mod_bound(t as int, size as int);
        lemma_fpow_add(g, (size * q) as nat, i as nat, p);
        lemma_fpow_mul(g, size, q, p);
        lemma1_pow(q);
        lemma_small_mod(1, p as nat);
        assert(fpow(g, (size * q) as nat, p) == 1);
        lemma_mod_bound(vstd::arithmetic::power::pow(g, i as nat), p);
        lemma_mul_basics(fpow(g, i as nat, p));
        lemma_small_mod(fpow(g, i as nat, p) as nat, p as nat);
        assert(fpow(g, t, p) == fpow(g, i as nat, p));
        lemma_ntt_is_evaluation(wide, g, p, m + 3, i);
        lemma_eval_padded(a, size, fpow(g, i as nat, p));
        assert(blown_up::<F>(a)[i] == poly_eval(a, fpow(g, t, p), p));
    }
    let x = fpow(g, e, p);
    let half = pow2(m + 2);
    lemma_fpow_add(g, e, half, p);
    assert(x * (p - 1) == (-x) + x * p) by (nonlinear_arith);
    lemma_mod_multiples_vanish(x, -x, p);
    lemma_mul_is_commutative(x, p);
    assert(fpow(g, e + half, p) == fneg(x, p));
}

/// The point at which the evaluation of `f` is proved: the given one, or the challenge drawn
/// from the commitment to `f`.
pub open spec fn proof_point<F: PrimeField>(f: Seq<int>, r: Option<F>) -> int {
    match r {
        Some(x) => x.value(),
        None => challenge_of::<F>(commitment_root::<F>(f)),
    }
}

/// The query point of a witness `w`: the generator of its blown-up domain raised to the low 64
/// bits of the commitment to its last layer.
pub open spec fn query_point<F: PrimeField>(w: Seq<int>) -> int {
    let k = ceil_log2(w.len());
    fpow(
        subgroup_generator::<F>(k + 3),
        (be_value(commitment_root::<F>(layer::<F>(w, k))) % 0x1_0000_0000_0000_0000) as nat,
        F::modulus(),
    )
}

/// The point of the query on the `i`-th folded layer: the negative of the query point squared
/// `i` times.
pub open spec fn layer_point<F: PrimeField>(w: Seq<int>, i: nat) -> int {
    fneg(fpow(query_point::<F>(w), pow2(i), F::modulus()), F::modulus())
}

/// `proof` is the proof that the prover builds for the witness `w`.
pub open spec fn is_proof_for<F: PrimeField>(proof: FriProof<F>, w: Seq<int>) -> bool {
    let p = F::modulus();
    let k = ceil_log2(w.len());
    let rho = query_point::<F>(w);
    let c = proof.fri_challenge;
    &&& proof.w_com@ == commitment_root::<F>(w)
    &&& c.positive_evaluation.value() == poly_eval(w, rho, p)
    &&& c.negative_evaluation.value() == poly_eval(w, fneg(rho, p), p)
    &&& path_for(c.positive_authentication_path, w, rho)
    &&& path_for(c.negative_authentication_path, w, fneg(rho, p))
    &&& c.commitment_vector@.len() == k
    &&& c.fold_queries@.len() == k - 1
    &&& c.authentication_vector@.len() == k - 1
    &&& forall|i: int|
        0 <= i < k ==> (#[trigger] c.commitment_vector@[i])@ == commitment_root::<F>(
            layer::<F>(w, (i + 1) as nat),
        )
    &&& forall|i: int|
        0 <= i < k - 1 ==> (#[trigger] c.fold_queries@[i]).value() == poly_eval(
            layer::<F>(w, (i + 1) as nat),
            layer_point::<F>(w, (i + 1) as nat),
            p,
        )
    &&& forall|i: int|
        0 <= i < k - 1 ==> path_for(
            #[trigger] c.authentication_vector@[i],
            layer::<F>(w, (i + 1) as nat),
            layer_point::<F>(w, (i + 1) as nat),
        )
}

impl<F: PrimeField> FriProof<F> {
    /// The proof made of a commitment to the witness and the answers to the query.
    pub fn new(w_com: FriCommitment<F>, fri_challenge: FriChallenge<F>) -> (r: Self)
        ensures
            r.w_com == w_com,
            r.fri_challenge == fri_challenge,
    {
        Self { w_com, fri_challenge }
    }

    /// The commitment to the witness.
    pub fn w_com(&self) -> (r: &FriCommitment<F>)
        ensures
            r == self.w_com,
    {
        &self.w_com
    }

    /// The answers to the query.
    pub fn fri_challenge(&self) -> (r: &FriChallenge<F>)
        ensures
            r == self.fri_challenge,
    {
        &self.fri_challenge
    }

    /// Proves the value of `f_x` at `r`, or at the challenge drawn from its commitment where
    /// no point is given.
    ///
    /// The witness `(f - f(r)) / (X - r)` is committed and folded down to a constant; the
    /// commitment to the constant fixes the query point; the witness is opened there and at
    /// its negative, and every folded layer but the last at the negative of the point squared
    /// once more for each fold.
    ///
    /// The polynomial must have at least four coefficients, so that the witness can be folded
    /// at least once, and the field a subgroup of eight times as many elements. The verifier
    /// accepts the proof.
    pub fn evaluation_proof(f_x: &Polynomial<F>, r: Option<F>) -> (proof: Self)
        requires
            is_power_of_two(f_x@.len()),
            4 <= f_x@.len() <= 0x1000_0000,
            ceil_log2(f_x@.len()) + 3 <= F::two_adicity(),
        ensures
            is_proof_for(proof, shift_spec(f_x@, proof_point(f_x@, r), F::modulus())),
            proof.fri_challenge.well_formed(),
            proof.accepts(),
    {
        let ghost p = F::modulus();
        let ghost k = ceil_log2(f_x@.len());
        proof {
            F::lemma_parameters();
            lemma2_to64();
            lemma2_to64_rest();
            lemma_power_of_two_logs(f_x@.len());
            lemma_ceil_log2_le(f_x@.len(), 28);
            if k < 2 {
                lemma_pow2_strictly_increases(k, 2);
            }
            lemma_shift_len(f_x@, proof_point(f_x@, r), p, k);
            lemma_log2_pow2(k);
            lemma_pow2_adds(3, k);
            lemma_log2_pow2(k + 3);
        }
        let w_x: Polynomial<F> = match r {
            Some(x) => f_x.shift_polynomial(x),
            None => f_x.shift_polynomial(f_x.commitment().interpret_as_element()),
        };
        let ghost w = w_x@;
        assert(w == shift_spec(f_x@, proof_point(f_x@, r), p));
        let w_commitment: FriCommitment<F> = w_x.commitment();
        let (commitment_vector, polynomial_vector) = w_x.fold_full();
        let layers: usize = polynomial_vector.len();
        let domain_size: u64 = (f_x.len() * FRI_BLOWUP_FACTOR) as u64;
        let random_root_of_unity: F = commitment_vector[layers
            - 1].interpret_as_root_of_unity(domain_size);
        let ghost rho = random_root_of_unity.value();
        let ghost exponent = (be_value(commitment_root::<F>(layer::<F>(w, k)))
            % 0x1_0000_0000_0000_0000) as nat;
        proof {
            assert(rho == query_point::<F>(w));
            w_x.lemma_canonical();
            lemma_power_has_leaf::<F>(w, k, exponent);
        }
        let negated_root: F = random_root_of_unity.neg();
        let positive_authentication_path: AuthenticationPath<F> = w_x.authentication_path_for(
            &random_root_of_unity,
        );
        let negative_authentication_path: AuthenticationPath<F> = w_x.authentication_path_for(
            &negated_root,
        );
        let positive_evaluation: F = w_x.eval_single(&random_root_of_unity);
        let negative_evaluation: F = w_x.eval_single(&negated_root);
        let mut auth_vec: Vec<AuthenticationPath<F>> = Vec::new();
        let mut query_vec: Vec<F> = Vec::new();
        let mut target: F = random_root_of_unity.square();
        proof {
            lemma_fpow_pow2_step(rho, 0, p);
            vstd::arithmetic::power::lemma_pow1(rho);
            random_root_of_unity.lemma_value_bounds();
            lemma_small_mod(rho as nat, p as nat);
            crate::domains::lemma_square_of_power::<F>(k + 3, exponent);
        }
        let mut i: usize = 0;
        while i < layers - 1
            invariant
                i <= layers - 1,
                layers == k,
                k >= 2,
                k + 3 <= F::two_adicity(),
                p == F::modulus(),
                p > 2,
                w.len() == pow2(k),
                w.len() <= 0x1000_0000,
                rho == query_point::<F>(w),
                polynomial_vector@.len() == layers,
                forall|t: int|
                    0 <= t < layers ==> (#[trigger] polynomial_vector@[t])@ == layer::<F>(
                        w,
                        (t + 1) as nat,
                    ),
                target.value() == fpow(rho, pow2((i + 1) as nat), p),
                target.value() == fpow(subgroup_generator::<F>((k + 3 - (i + 1)) as nat), exponent, p),
                auth_vec@.len() == i,
                query_vec@.len() == i,
                forall|t: int|
                    0 <= t < i ==> (#[trigger] query_vec@[t]).value() == poly_eval(
                        layer::<F>(w, (t + 1) as nat),
                        layer_point::<F>(w, (t + 1) as nat),
                        p,
                    ),
                forall|t: int|
                    0 <= t < i ==> path_for(
                        #[trigger] auth_vec@[t],
                        layer::<F>(w, (t + 1) as nat),
                        layer_point::<F>(w, (t + 1) as nat),
                    ),
            decreases layers - 1 - i,
        {
            let polynomial: &Polynomial<F> = &polynomial_vector[i];
            let negated_target: F = target.neg();
            proof {
                let depth = (k - (i + 1)) as nat;
                lemma_layer_len::<F>(w, k, (i + 1) as nat);
                lemma_log2_pow2(depth);
                lemma_pow2_pos(depth);
                lemma_pow2_strictly_increases(depth, k);
                lemma2_to64_rest();
                polynomial.lemma_canonical();
                lemma_power_has_leaf::<F>(polynomial@, depth, exponent);
                lemma_fpow_pow2_step(rho, (i + 1) as nat, p);
                crate::domains::lemma_square_of_power::<F>((k + 3 - (i + 1)) as nat, exponent);
            }
            auth_vec.push(polynomial.authentication_path_for(&negated_target));
            query_vec.push(polynomial.eval_single(&negated_target));
            target = target.square();
            i += 1;
        }
        let fri_challenge: FriChallenge<F> = FriChallenge::new(
            positive_evaluation,
            negative_evaluation,
            positive_authentication_path,
            negative_authentication_path,
            auth_vec,
            query_vec,
            commitment_vector,
        );
        let proof = Self::new(w_commitment, fri_challenge);
        proof {
            crate::fri::completeness::lemma_honest_proof_accepted(proof, w);
        }
        proof
    }

    /// The proof passes every check of the verifier: each queried evaluation is a leaf of its
    /// path, each path leads to the commitment of its layer, and the fold recomputed from
    /// the evaluations ends in the constant that the last commitment commits to.
    pub open spec fn accepts(&self) -> bool {
        let c = self.fri_challenge;
        let last = c.commitment_vector@[c.commitment_vector@.len() - 1]@;
        let root = fpow(
            subgroup_generator::<F>(c.commitment_vector@.len() + 3),
            (be_value(last) % 0x1_0000_0000_0000_0000) as nat,
            F::modulus(),
        );
        &&& holds(c.positive_authentication_path, c.positive_evaluation)
        &&& holds(c.negative_authentication_path, c.negative_evaluation)
        &&& forall|i: int|
            0 <= i < c.authentication_vector@.len() ==> holds(
                #[trigger] c.authentication_vector@[i],
                c.fold_queries@[i],
            )
        &&& self.w_com@ == c.positive_authentication_path.derived_root()
        &&& self.w_com@ == c.negative_authentication_path.derived_root()
        &&& forall|i: int|
            0 <= i < c.authentication_vector@.len() ==> (
            #[trigger] c.authentication_vector@[i]).derived_root() == c.commitment_vector@[i]@
        &&& constant_root::<F>(c.folded_value(self.w_com@, root)) == last
    }

    /// Checks the proof: `ValidProof` if it passes every check, `InvalidProof` otherwise.
    pub fn verify(&self) -> (r: VerificationResult)
        requires
            self.fri_challenge.well_formed(),
        ensures
            r == (if self.accepts() {
                VerificationResult::ValidProof
            } else {
                VerificationResult::InvalidProof
            }),
    {
        let challenge: &FriChallenge<F> = self.fri_challenge();
        let paths: &Vec<AuthenticationPath<F>> = challenge.authentication_paths();
        if !challenge.positive_authentication_path().contains_evaluation(
            &challenge.positive_evaluation(),
        ) {
            return VerificationResult::InvalidProof;
        }
        if !challenge.negative_authentication_path().contains_evaluation(
            &challenge.negative_evaluation(),
        ) {
            return VerificationResult::InvalidProof;
        }
        let count: usize = paths.len();
        let mut i: usize = 0;
        while i < count
            invariant
                i <= count,
                count == paths@.len(),
                paths == self.fri_challenge.authentication_vector,
                challenge == self.fri_challenge,
                self.fri_challenge.well_formed(),
                forall|t: int|
                    0 <= t < i ==> holds(#[trigger] paths@[t], challenge.fold_queries@[t]),
            decreases count - i,
        {
            if !paths[i].contains_evaluation(&challenge.fold_queries()[i]) {
                return VerificationResult::InvalidProof;
            }
            i += 1;
        }
        if !self.w_com().value().equals(&challenge.positive_authentication_path().derive_root()) {
            return VerificationResult::InvalidProof;
        }
        if !self.w_com().value().equals(&challenge.negative_authentication_path().derive_root()) {
            return VerificationResult::InvalidProof;
        }
        let mut i: usize = 0;
        while i < count
            invariant
                i <= count,
                count == paths@.len(),
                paths == self.fri_challenge.authentication_vector,
                challenge == self.fri_challenge,
                self.fri_challenge.well_formed(),
                forall|t: int|
                    0 <= t < i ==> (#[trigger] paths@[t]).derived_root()
                        == challenge.commitment_vector@[t]@,
            decreases count - i,
        {
            if !paths[i].derive_root().equals(&challenge.commitment_vector()[i].value()) {
                return VerificationResult::InvalidProof;
            }
            i += 1;
        }
        let layers: usize = challenge.commitment_vector().len();
        proof {
            lemma2_to64();
            lemma2_to64_rest();
            if layers + 3 < 63 {
                lemma_pow2_strictly_increases((layers + 3) as nat, 63);
            }
            lemma_log2_pow2((layers + 3) as nat);
        }
        let last: &FriCommitment<F> = &challenge.commitment_vector()[layers - 1];
        let should_be_root: F = last.interpret_as_root_of_unity(
            pow2_u64((layers + FRI_BLOWUP_LOG) as u32),
        );
        proof {
            crate::domains::lemma_generator_is_a_unit::<F>(
                (layers + 3) as nat,
                (be_value(last@) % 0x1_0000_0000_0000_0000) as nat,
            );
            should_be_root.lemma_value_bounds();
            crate::field::lemma_unit_iff_nonzero::<F>(should_be_root.value());
        }
        let should_be_constant_function: crate::hash::Hash = challenge.query_check(
            self.w_com(),
            &should_be_root,
        );
        if !should_be_constant_function.equals(&last.value()) {
            return VerificationResult::InvalidProof;
        }
        VerificationResult::ValidProof
    }
}

/// One of the two leaves of the path is the evaluation.
pub open spec fn holds<F: PrimeField>(path: AuthenticationPath<F>, evaluation: F) -> bool {
    path.first_evaluation.value() == evaluation.value() || path.second_evaluation.value()
        == evaluation.value()
}

/// Against an accepted proof, a proof that differs from it only in the commitment to the
/// witness is rejected.
pub proof fn lemma_changed_commitment_rejected<F: PrimeField>(proof: FriProof<F>, changed: FriProof<F>)
    requires
        proof.accepts(),
        changed.fri_challenge == proof.fri_challenge,
        changed.w_com@ != proof.w_com@,
    ensures
        !changed.accepts(),
{
}

/// A proof in which a queried evaluation is not one of the two leaves of its path is
/// rejected, whatever the rest of the proof holds.
pub proof fn lemma_foreign_evaluation_rejected<F: PrimeField>(proof: FriProof<F>)
    requires
        ({
            let c = proof.fri_challenge;
            ||| !holds(c.positive_authentication_path, c.positive_evaluation)
            ||| !holds(c.negative_authentication_path, c.negative_evaluation)
            ||| exists|i: int|
                0 <= i < c.authentication_vector@.len() && !holds(
                    #[trigger] c.authentication_vector@[i],
                    c.fold_queries@[i],
                )
        }),
    ensures
        !proof.accepts(),
{
}

/// A proof in which a path leads to another digest than the commitment of its layer is
/// rejected, whatever the rest of the proof holds.
pub proof fn lemma_foreign_path_rejected<F: PrimeField>(proof: FriProof<F>)
    requires
        ({
            let c = proof.fri_challenge;
            ||| c.positive_authentication_path.derived_root() != proof.w_com@
            ||| c.negative_authentication_path.derived_root() != proof.w_com@
            ||| exists|i: int|
                0 <= i < c.authentication_vector@.len() && (
                #[trigger] c.authentication_vector@[i]).derived_root() != c.commitment_vector@[i]@
        }),
    ensures
        !proof.accepts(),
{
}

} // verus!
