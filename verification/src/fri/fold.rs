//! Folding: halving a polynomial with challenges drawn from its own commitments, and the
//! verifier's recomputation of the fold from queried evaluations.

use vstd::prelude::*;
use vstd::arithmetic::power2::{lemma2_to64, lemma_pow2_pos, lemma_pow2_unfold, pow2};
use crate::arith::{
    be_value, ceil_log2, fadd, fmul, fsub, is_power_of_two, is_unit, lemma_inverse_unique,
    lemma_log2_pow2, lemma_pow2_is_unit, lemma_power_of_two_logs, lemma_unit_mul,
};
use crate::constants::FRI_BLOWUP_FACTOR;
use crate::fft::inverse_of;
use crate::field::{encoding, lemma_unit_iff_nonzero, values, PrimeField};
use crate::fri::commitment::{commitment_root, leaf_hash, node_hash};
use crate::fri::{commitment_views, FriChallenge, FriCommitment};
use crate::hash::blake3_digest;
use crate::polynomial::Polynomial;

verus! {

/// One fold with the challenge `alpha`: each pair of coefficients `(c[2i], c[2i+1])` becomes
/// `c[2i] + alpha * c[2i+1]`.
pub open spec fn fold_once(a: Seq<int>, alpha: int, p: int) -> Seq<int> {
    Seq::new(a.len() / 2, |i: int| fadd(a[2 * i], fmul(a[2 * i + 1], alpha, p), p))
}

/// The challenge drawn from a commitment: its digest, read as a big-endian number, modulo
/// the characteristic.
pub open spec fn challenge_of<F: PrimeField>(root: Seq<u8>) -> int {
    be_value(root) % F::modulus()
}

/// The fold of a polynomial with the challenge drawn from its own commitment.
pub open spec fn next_layer<F: PrimeField>(a: Seq<int>) -> Seq<int> {
    fold_once(a, challenge_of::<F>(commitment_root::<F>(a)), F::modulus())
}

/// The polynomial after `i` folds.
pub open spec fn layer<F: PrimeField>(a: Seq<int>, i: nat) -> Seq<int>
    decreases i,
{
    if i == 0 {
        a
    } else {
        next_layer::<F>(layer::<F>(a, (i - 1) as nat))
    }
}

/// The `i`-th fold of a polynomial of `2^k` coefficients has `2^(k - i)` coefficients.
pub proof fn lemma_layer_len<F: PrimeField>(a: Seq<int>, k: nat, i: nat)
    requires
        a.len() == pow2(k),
        i <= k,
    ensures
        layer::<F>(a, i).len() == pow2((k - i) as nat),
    decreases i,
{
    if i > 0 {
        lemma_layer_len::<F>(a, k, (i - 1) as nat);
        lemma_pow2_unfold((k - i + 1) as nat);
    }
}

/// What the verifier computes from two evaluations `x` and `y` of a layer at a point `t` and
/// its negative: the value of the next layer at `t^2`, that is `(x + y) / 2 + alpha * (x - y) /
/// (2 * t)`.
pub open spec fn fold_step(x: int, y: int, alpha: int, t: int, p: int) -> int {
    let even = fmul(fadd(x, y, p), inverse_of(2, p), p);
    let odd = fmul(fsub(x, y, p), inverse_of(fmul(2, t, p), p), p);
    fadd(even, fmul(alpha, odd, p), p)
}

/// The value assembled from `acc` by one fold step for each query, the point being squared
/// after each step.
pub open spec fn assemble(acc: int, target: int, queries: Seq<int>, alphas: Seq<int>, p: int) -> int
    decreases queries.len(),
{
    if queries.len() == 0 {
        acc
    } else {
        assemble(
            fold_step(acc, queries[0], alphas[0], target, p),
            fmul(target, target, p),
            queries.drop_first(),
            alphas.drop_first(),
            p,
        )
    }
}

/// The commitment to the constant polynomial `c`: the root of the tree over
/// `FRI_BLOWUP_FACTOR` leaves that all encode `c`.
pub open spec fn constant_root<F: PrimeField>(c: int) -> Seq<u8> {
    let leaf = blake3_digest(encoding::<F>(c) + encoding::<F>(c));
    let node = blake3_digest(leaf + leaf);
    blake3_digest(node + node)
}

/// The challenges drawn from a sequence of commitments.
pub open spec fn challenges_of<F: PrimeField>(roots: Seq<Seq<u8>>) -> Seq<int> {
    Seq::new(roots.len(), |i: int| challenge_of::<F>(roots[i]))
}

impl<F: PrimeField> Polynomial<F> {
    /// One fold with the challenge `alpha`.
    pub fn fold_with(&self, alpha: &F) -> (r: Self)
        ensures
            r@ == fold_once(self@, alpha.value(), F::modulus()),
    {
        let target_length: usize = self.len() / 2;
        let mut folded: Vec<F> = Vec::new();
        let mut i: usize = 0;
        while i < target_length
            invariant
                i <= target_length,
                target_length == self@.len() / 2,
                self@.len() <= usize::MAX,
                folded@.len() == i,
                forall|t: int|
                    0 <= t < i ==> (#[trigger] folded@[t]).value() == fold_once(
                        self@,
                        alpha.value(),
                        F::modulus(),
                    )[t],
            decreases target_length - i,
        {
            let element: F = self.coefficient_at(2 * i).add(
                &self.coefficient_at(2 * i + 1).mul(alpha),
            );
            folded.push(element);
            i += 1;
        }
        assert(values(folded@) =~= fold_once(self@, alpha.value(), F::modulus()));
        Polynomial::from_vec(folded)
    }

    /// Folds the polynomial down to a constant. Returns the commitments of the folded layers
    /// and the layers themselves: entry `i` of either is the polynomial after `i + 1` folds,
    /// each fold taking its challenge from the commitment of the layer it folds.
    pub fn fold_full(&self) -> (r: (Vec<FriCommitment<F>>, Vec<Self>))
        requires
            is_power_of_two(self@.len()),
            2 <= self@.len() <= 0x1000_0000,
        ensures
            r.0@.len() == ceil_log2(self@.len()),
            r.1@.len() == ceil_log2(self@.len()),
            forall|i: int|
                0 <= i < r.1@.len() ==> (#[trigger] r.1@[i])@ == layer::<F>(self@, (i + 1) as nat),
            forall|i: int|
                0 <= i < r.0@.len() ==> (#[trigger] r.0@[i])@ == commitment_root::<F>(
                    layer::<F>(self@, (i + 1) as nat),
                ),
    {
        let ghost k = ceil_log2(self@.len());
        let ghost a = self@;
        proof {
            lemma_power_of_two_logs(self@.len());
            lemma2_to64();
            assert(layer::<F>(a, 1) == next_layer::<F>(layer::<F>(a, 0)));
        }
        let mut commitment_vector: Vec<FriCommitment<F>> = Vec::new();
        let mut polynomial_vector: Vec<Self> = Vec::new();
        let com: FriCommitment<F> = self.commitment();
        let r: F = com.interpret_as_element();
        let mut intermediate: Self = self.fold_with(&r);
        let ghost mut done: nat = 1;
        while intermediate.len() > 1
            invariant
                a == self@,
                a.len() == pow2(k),
                a.len() <= 0x1000_0000,
                1 <= done <= k,
                intermediate@ == layer::<F>(a, done),
                commitment_vector@.len() == done - 1,
                polynomial_vector@.len() == done - 1,
                forall|i: int|
                    0 <= i < done - 1 ==> (#[trigger] polynomial_vector@[i])@ == layer::<F>(
                        a,
                        (i + 1) as nat,
                    ),
                forall|i: int|
                    0 <= i < done - 1 ==> (#[trigger] commitment_vector@[i])@
                        == commitment_root::<F>(layer::<F>(a, (i + 1) as nat)),
            decreases intermediate@.len(),
        {
            proof {
                lemma_layer_len::<F>(a, k, done);
                lemma_log2_pow2((k - done) as nat);
                lemma_pow2_pos((k - done) as nat);
                if done < k {
                    vstd::arithmetic::power2::lemma_pow2_strictly_increases((k - done) as nat, k);
                } else {
                    lemma2_to64();
                }
                assert(layer::<F>(a, done + 1) == next_layer::<F>(layer::<F>(a, done)));
            }
            polynomial_vector.push(Polynomial::from_vec(intermediate.coefficients()));
            let com: FriCommitment<F> = intermediate.commitment();
            let r: F = com.interpret_as_element();
            intermediate = intermediate.fold_with(&r);
            commitment_vector.push(com);
            proof {
                done = done + 1;
            }
        }
        proof {
            lemma_layer_len::<F>(a, k, done);
            lemma_log2_pow2(0);
            lemma2_to64();
            if done < k {
                lemma_pow2_pos((k - done) as nat);
                vstd::arithmetic::power2::lemma_pow2_strictly_increases(0, (k - done) as nat);
            }
            assert(done == k);
        }
        commitment_vector.push(intermediate.commitment());
        polynomial_vector.push(intermediate);
        (commitment_vector, polynomial_vector)
    }
}

impl<F: PrimeField> FriChallenge<F> {
    /// The lists of the challenge fit one another: a path for every fold query, a commitment
    /// for every layer, and one layer more than there are fold queries; and there are at most
    /// 60 layers, so that the size of the domain fits 64 bits.
    pub open spec fn well_formed(&self) -> bool {
        &&& self.authentication_vector@.len() == self.fold_queries@.len()
        &&& self.commitment_vector@.len() == self.fold_queries@.len() + 1
        &&& self.commitment_vector@.len() <= 60
    }

    /// Whether the lists of the challenge fit one another, as the verifier needs them to.
    pub fn is_well_formed(&self) -> (r: bool)
        ensures
            r == self.well_formed(),
    {
        let queries: usize = self.fold_queries.len();
        let layers: usize = self.commitment_vector.len();
        self.authentication_vector.len() == queries && layers >= 1 && layers - 1 == queries
            && layers <= 60
    }

    /// The value that the fold recomputed from the queried evaluations ends in, for the
    /// commitment `top` of the unfolded polynomial and the query point `root`.
    pub open spec fn folded_value(&self, top: Seq<u8>, root: int) -> int {
        let p = F::modulus();
        assemble(
            fold_step(
                self.positive_evaluation.value(),
                self.negative_evaluation.value(),
                challenge_of::<F>(top),
                root,
                p,
            ),
            fmul(root, root, p),
            values(self.fold_queries@),
            challenges_of::<F>(commitment_views(self.commitment_vector@)),
            p,
        )
    }

    /// Recomputes the fold from the queried evaluations and returns the commitment that the
    /// last layer, a constant, must have.
    pub fn query_check(&self, top_commitment: &FriCommitment<F>, random_root_of_unity: &F) -> (r:
        crate::hash::Hash)
        requires
            self.fold_queries@.len() <= self.commitment_vector@.len(),
            random_root_of_unity.value() != 0,
        ensures
            r@ == constant_root::<F>(
                self.folded_value(top_commitment@, random_root_of_unity.value()),
            ),
    {
        let ghost p = F::modulus();
        let ghost queries = values(self.fold_queries@);
        let ghost alphas = challenges_of::<F>(commitment_views(self.commitment_vector@));
        proof {
            F::lemma_parameters();
            lemma2_to64();
            lemma_pow2_is_unit(1, p);
            vstd::arithmetic::div_mod::lemma_small_mod(2, p as nat);
            random_root_of_unity.lemma_value_bounds();
            lemma_unit_iff_nonzero::<F>(random_root_of_unity.value());
            lemma_unit_mul(2, random_root_of_unity.value(), p);
            lemma_unit_mul(random_root_of_unity.value(), random_root_of_unity.value(), p);
        }
        let two: F = F::from_u64(2);
        let half: F = two.invert().unwrap();
        let mut target: F = random_root_of_unity.square();
        let alpha: F = top_commitment.interpret_as_element();
        let even: F = self.positive_evaluation().add(&self.negative_evaluation()).mul(&half);
        let doubled: F = two.mul(random_root_of_unity);
        proof {
            doubled.lemma_value_bounds();
            lemma_unit_iff_nonzero::<F>(doubled.value());
        }
        let first_denominator: F = doubled.invert().unwrap();
        let odd: F = self.positive_evaluation().sub(&self.negative_evaluation()).mul(
            &first_denominator,
        );
        proof {
            lemma_inverse_unique(2, half.value(), inverse_of(2, p), p);
            lemma_inverse_unique(
                fmul(2, random_root_of_unity.value(), p),
                first_denominator.value(),
                inverse_of(fmul(2, random_root_of_unity.value(), p), p),
                p,
            );
        }
        let mut assembled: F = even.add(&alpha.mul(&odd));
        let n: usize = self.fold_queries.len();
        let mut i: usize = 0;
        proof {
            assert(queries.subrange(0, n as int) =~= queries);
            assert(alphas.subrange(0, alphas.len() as int) =~= alphas);
        }
        while i < n
            invariant
                i <= n,
                n == self.fold_queries@.len(),
                n <= self.commitment_vector@.len(),
                p == F::modulus(),
                p > 2,
                p % 2 == 1,
                two.value() == 2,
                2int % p == 2,
                is_unit(2, p),
                half.value() == inverse_of(2, p),
                is_unit(target.value(), p),
                queries == values(self.fold_queries@),
                alphas == challenges_of::<F>(commitment_views(self.commitment_vector@)),
                assemble(
                    assembled.value(),
                    target.value(),
                    queries.subrange(i as int, n as int),
                    alphas.subrange(i as int, alphas.len() as int),
                    p,
                ) == self.folded_value(top_commitment@, random_root_of_unity.value()),
            decreases n - i,
        {
            proof {
                let rest = queries.subrange(i as int, n as int);
                let rest_alphas = alphas.subrange(i as int, alphas.len() as int);
                assert(rest.drop_first() =~= queries.subrange(i + 1, n as int));
                assert(rest_alphas.drop_first() =~= alphas.subrange(i + 1, alphas.len() as int));
                lemma_unit_mul(2, target.value(), p);
                lemma_unit_mul(target.value(), target.value(), p);
            }
            let alpha: F = self.commitment_vector[i].interpret_as_element();
            let query: F = self.fold_queries[i];
            let even: F = assembled.add(&query).mul(&half);
            let doubled: F = two.mul(&target);
            proof {
                doubled.lemma_value_bounds();
                lemma_unit_iff_nonzero::<F>(doubled.value());
            }
            let denominator: F = doubled.invert().unwrap();
            proof {
                lemma_inverse_unique(
                    fmul(2, target.value(), p),
                    denominator.value(),
                    inverse_of(fmul(2, target.value(), p), p),
                    p,
                );
            }
            let odd: F = assembled.sub(&query).mul(&denominator);
            assembled = even.add(&alpha.mul(&odd));
            target = target.square();
            i += 1;
        }
        let leaf: crate::hash::Hash = leaf_hash(&assembled, &assembled);
        let node: crate::hash::Hash = node_hash(&leaf, &leaf);
        node_hash(&node, &node)
    }
}

} // verus!
