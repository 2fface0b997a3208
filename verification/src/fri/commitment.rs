//! Commitments: the hash tree over the evaluations of a polynomial on the blown-up domain.

use vstd::prelude::*;
use vstd::arithmetic::power2::{
    lemma2_to64, lemma2_to64_rest, lemma_pow2_adds, lemma_pow2_pos,
    lemma_pow2_strictly_increases, lemma_pow2_unfold, pow2,
};
use crate::arith::{
    be_value, ceil_log2, ceil_log2_u64, fpow, is_power_of_two, lemma_le_bytes_of_value,
    lemma_log2_pow2, lemma_power_of_two_logs, limbs_value,
};
use crate::constants::{FRI_BLOWUP_FACTOR, FRI_BLOWUP_LOG};
use crate::domains::{subgroup_generator, Domain};
use crate::fft::ntt;
use crate::fft::serial::serial_fft;
use crate::field::{encoding, values, PrimeField};
use crate::fri::FriCommitment;
use crate::hash::{blake3_digest, digest_of_pair};
use crate::polynomial::arithmetic::extend_with_zeros;
use crate::polynomial::{padded, Polynomial};
use crate::utils::field_element_from_bytes;
use crate::wide::u256_from_big_endian;

verus! {

/// The evaluations that a commitment is built over: the transform of the coefficients, padded
/// with zeros to `FRI_BLOWUP_FACTOR` times their number, with the generator of the subgroup of
/// that order.
pub open spec fn blown_up<F: PrimeField>(a: Seq<int>) -> Seq<int> {
    let size = FRI_BLOWUP_FACTOR as nat * a.len();
    ntt(padded(a, size), subgroup_generator::<F>(ceil_log2(size)), F::modulus())
}

/// The canonical encodings of a sequence of residues.
pub open spec fn encodings<F: PrimeField>(v: Seq<int>) -> Seq<Seq<u8>> {
    Seq::new(v.len(), |i: int| encoding::<F>(v[i]))
}

/// The digests of the adjacent pairs of a layer: entry `i` is the digest of entry `2 * i`
/// followed by entry `2 * i + 1`.
pub open spec fn pair_hashes(layer: Seq<Seq<u8>>) -> Seq<Seq<u8>> {
    Seq::new(layer.len() / 2, |i: int| blake3_digest(layer[2 * i] + layer[2 * i + 1]))
}

/// The root of the complete binary hash tree over a layer.
pub open spec fn merkle_root(layer: Seq<Seq<u8>>) -> Seq<u8>
    decreases layer.len(),
{
    if layer.len() <= 1 {
        layer[0]
    } else {
        merkle_root(pair_hashes(layer))
    }
}

/// The commitment to the polynomial with coefficients `a`.
pub open spec fn commitment_root<F: PrimeField>(a: Seq<int>) -> Seq<u8> {
    merkle_root(encodings::<F>(blown_up::<F>(a)))
}

/// The byte strings of a sequence of digests.
pub open spec fn digests(s: Seq<crate::hash::Hash>) -> Seq<Seq<u8>> {
    Seq::new(s.len(), |i: int| s[i]@)
}

/// The digest of the encodings of two field elements, the first followed by the second.
pub fn leaf_hash<F: PrimeField>(first: &F, second: &F) -> (r: crate::hash::Hash)
    ensures
        r@ == blake3_digest(encoding::<F>(first.value()) + encoding::<F>(second.value())),
{
    let left: Vec<u8> = first.to_repr();
    let right: Vec<u8> = second.to_repr();
    proof {
        lemma_le_bytes_of_value(left@);
        lemma_le_bytes_of_value(right@);
    }
    digest_of_pair(left.as_slice(), right.as_slice())
}

/// The digest of two digests, the first followed by the second.
pub fn node_hash(left: &crate::hash::Hash, right: &crate::hash::Hash) -> (r: crate::hash::Hash)
    ensures
        r@ == blake3_digest(left@ + right@),
{
    digest_of_pair(left.as_bytes().as_slice(), right.as_bytes().as_slice())
}

/// The next layer of the tree above a layer of digests.
pub fn hash_pairs(layer: &Vec<crate::hash::Hash>) -> (r: Vec<crate::hash::Hash>)
    ensures
        digests(r@) == pair_hashes(digests(layer@)),
{
    let mut next: Vec<crate::hash::Hash> = Vec::new();
    let count: usize = layer.len() / 2;
    let mut i: usize = 0;
    while i < count
        invariant
            i <= count,
            count == layer@.len() / 2,
            layer@.len() <= usize::MAX,
            next@.len() == i,
            forall|t: int|
                0 <= t < i ==> (#[trigger] next@[t])@ == blake3_digest(
                    layer@[2 * t]@ + layer@[2 * t + 1]@,
                ),
        decreases count - i,
    {
        next.push(node_hash(&layer[2 * i], &layer[2 * i + 1]));
        i += 1;
    }
    assert(digests(next@) =~= pair_hashes(digests(layer@)));
    next
}

impl<F: PrimeField> Polynomial<F> {
    /// The evaluations on the blown-up domain.
    pub fn blown_up_evaluations(&self) -> (r: Vec<F>)
        requires
            is_power_of_two(self@.len()),
            self@.len() <= 0x1000_0000,
        ensures
            values(r@) == blown_up::<F>(self@),
            r@.len() == FRI_BLOWUP_FACTOR * self@.len(),
    {
        let mut evaluations: Vec<F> = self.coefficients();
        let n: usize = evaluations.len();
        proof {
            lemma2_to64();
            lemma2_to64_rest();
            lemma_power_of_two_logs(self@.len());
            let k = ceil_log2(self@.len());
            crate::arith::lemma_ceil_log2_le(self@.len(), 28);
            lemma_pow2_adds(3, k);
            lemma_log2_pow2(k + 3);
            if k + 3 < 31 {
                lemma_pow2_strictly_increases(k + 3, 31);
            }
        }
        let log_n: usize = ceil_log2_u64(n as u64) as usize;
        let extended_log_n: usize = log_n + FRI_BLOWUP_LOG;
        let omega: F = Domain::root_with_order_unchecked((FRI_BLOWUP_FACTOR * n) as u64);
        extend_with_zeros(&mut evaluations, FRI_BLOWUP_FACTOR * n);
        serial_fft(evaluations.as_mut_slice(), &omega, extended_log_n as u32);
        evaluations
    }

    /// The commitment to the polynomial: the root of the hash tree whose leaves are the
    /// encoded evaluations on the blown-up domain.
    pub fn commitment(&self) -> (r: FriCommitment<F>)
        requires
            is_power_of_two(self@.len()),
            self@.len() <= 0x1000_0000,
        ensures
            r@ == commitment_root::<F>(self@),
    {
        let evaluations: Vec<F> = self.blown_up_evaluations();
        let ghost leaves = encodings::<F>(values(evaluations@));
        let count: usize = evaluations.len() / 2;
        let mut hash_vector: Vec<crate::hash::Hash> = Vec::new();
        let mut i: usize = 0;
        while i < count
            invariant
                i <= count,
                count == evaluations@.len() / 2,
                evaluations@.len() % 2 == 0,
                evaluations@.len() <= usize::MAX,
                hash_vector@.len() == i,
                forall|t: int|
                    0 <= t < i ==> (#[trigger] hash_vector@[t])@ == blake3_digest(
                        encoding::<F>(evaluations@[2 * t].value()) + encoding::<F>(
                            evaluations@[2 * t + 1].value(),
                        ),
                    ),
            decreases count - i,
        {
            hash_vector.push(leaf_hash(&evaluations[2 * i], &evaluations[2 * i + 1]));
            i += 1;
        }
        proof {
            assert(digests(hash_vector@) =~= pair_hashes(leaves));
            lemma_power_of_two_logs(self@.len());
            lemma2_to64();
            lemma_pow2_adds(2, ceil_log2(self@.len()));
        }
        let ghost mut height: nat = ceil_log2(self@.len()) + 2;
        while hash_vector.len() > 1
            invariant
                hash_vector@.len() == pow2(height),
                merkle_root(digests(hash_vector@)) == merkle_root(leaves),
            decreases hash_vector@.len(),
        {
            let ghost below = digests(hash_vector@);
            hash_vector = hash_pairs(&hash_vector);
            proof {
                if height == 0 {
                    lemma2_to64();
                }
                lemma_pow2_unfold(height);
                height = (height - 1) as nat;
                lemma_pow2_pos(height);
                assert(digests(hash_vector@).len() == below.len() / 2);
            }
        }
        proof {
            lemma_pow2_pos(height);
        }
        FriCommitment::new(hash_vector[0])
    }
}

impl<F: PrimeField> FriCommitment<F> {
    /// The field element that the root digest, read as a big-endian number, reduces to.
    pub fn interpret_as_element(&self) -> (r: F)
        ensures
            r.value() == be_value(self@) % F::modulus(),
    {
        let digest: crate::hash::Hash = self.value();
        field_element_from_bytes(digest.as_bytes().as_slice())
    }

    /// A root of unity of order dividing `domain_size` rounded up to a power of two: the
    /// generator of that subgroup raised to the low 64 bits of the root digest, read as a
    /// big-endian number.
    pub fn interpret_as_root_of_unity(&self, domain_size: u64) -> (r: F)
        ensures
            r.value() == fpow(
                subgroup_generator::<F>(ceil_log2(domain_size as nat)),
                (be_value(self@) % 0x1_0000_0000_0000_0000) as nat,
                F::modulus(),
            ),
    {
        let digest: crate::hash::Hash = self.value();
        let limbs: [u64; 4] = u256_from_big_endian(digest.as_bytes().as_slice());
        let random_exponent: u64 = limbs[0];
        proof {
            reveal_with_fuel(limbs_value, 5);
            let high = limbs@[1] as int + 0x1_0000_0000_0000_0000 * (limbs@[2] as int
                + 0x1_0000_0000_0000_0000 * (limbs@[3] as int));
            assert(limbs@.drop_first()[0] == limbs@[1]);
            assert(limbs@.drop_first().drop_first()[0] == limbs@[2]);
            assert(limbs@.drop_first().drop_first().drop_first()[0] == limbs@[3]);
            assert(limbs_value(limbs@) == limbs@[0] as int + 0x1_0000_0000_0000_0000 * high);
            vstd::arithmetic::div_mod::lemma_fundamental_div_mod_converse(
                limbs_value(limbs@),
                0x1_0000_0000_0000_0000,
                high,
                limbs@[0] as int,
            );
        }
        let base: F = Domain::root_with_order_unchecked(domain_size);
        base.pow(random_exponent)
    }
}

} // verus!
