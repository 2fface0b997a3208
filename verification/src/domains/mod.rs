//! Power-of-two multiplicative subgroups of a prime field.

use vstd::prelude::*;
use vstd::arithmetic::power2::{
    lemma2_to64, lemma2_to64_rest, lemma_pow2_adds, lemma_pow2_pos, pow2,
};
use vstd::arithmetic::power::lemma_pow1;
use vstd::arithmetic::div_mod::{lemma_small_mod, lemma_mod_multiples_vanish};
use crate::arith::{
    ceil_log2, ceil_log2_u64, fmul, fpow, is_unit, lemma_ceil_log2_le, lemma_fpow_double,
    lemma_fpow_mul, lemma_fpow_pow2_step, lemma_root_of_one_is_unit, next_power_of_two, pow2_u64,
};
use crate::field::PrimeField;

verus! {

/// Why a domain could not be built.
#[derive(Debug, Clone, Copy, PartialEq, Eq)]
pub enum SynthesisError {
    /// The requested size exceeds the largest power-of-two subgroup of the field.
    SizeExceedsTwoAdicity,
}

/// A multiplicative subgroup of order `size == 2^power_of_two` with its generator.
#[derive(Debug)]
pub struct Domain<F: PrimeField> {
    pub size: u64,
    pub power_of_two: u64,
    pub generator: F,
}

impl<F: PrimeField> Clone for Domain<F> {
    /// The same domain.
    fn clone(&self) -> (r: Self)
        ensures
            r == *self,
    {
        Self { size: self.size, power_of_two: self.power_of_two, generator: self.generator }
    }
}

impl<F: PrimeField> Copy for Domain<F> {

}

/// The residue of the generator of the subgroup of order `2^k`: the field's root of unity
/// squared `S - k` times, and the root of unity itself once `k` exceeds `S`.
pub open spec fn subgroup_generator<F: PrimeField>(k: nat) -> int {
    let squarings = if k <= F::two_adicity() {
        (F::two_adicity() - k) as nat
    } else {
        0
    };
    fpow(F::root_of_unity_value(), pow2(squarings), F::modulus())
}

/// The generator of the subgroup of order `2^k` has order exactly `2^k`: its `2^k`-th power is
/// one, and its `2^(k-1)`-th power is minus one.
pub proof fn lemma_generator_order<F: PrimeField>(k: nat)
    requires
        k <= F::two_adicity(),
    ensures
        fpow(subgroup_generator::<F>(k), pow2(k), F::modulus()) == 1,
        k >= 1 ==> fpow(subgroup_generator::<F>(k), pow2((k - 1) as nat), F::modulus())
            == F::modulus() - 1,
        0 <= subgroup_generator::<F>(k) < F::modulus(),
{
    F::lemma_parameters();
    let p = F::modulus();
    let s = F::two_adicity();
    let root = F::root_of_unity_value();
    let low = (s - k) as nat;
    lemma_fpow_mul(root, pow2(low), pow2(k), p);
    lemma_pow2_adds(low, k);
    assert(fpow(subgroup_generator::<F>(k), pow2(k), p) == fpow(root, pow2(s), p));
    lemma_fpow_pow2_step(root, (s - 1) as nat, p);
    assert(fpow(root, pow2(s), p) == fmul(p - 1, p - 1, p));
    assert((p - 1) * (p - 1) == p * (p - 2) + 1) by (nonlinear_arith);
    lemma_mod_multiples_vanish(p - 2, 1, p);
    lemma_small_mod(1, p as nat);
    assert(((p - 1) * (p - 1)) % p == 1) by {
        vstd::arithmetic::mul::lemma_mul_is_commutative(p, p - 2);
    }
    if k >= 1 {
        lemma_fpow_mul(root, pow2(low), pow2((k - 1) as nat), p);
        lemma_pow2_adds(low, (k - 1) as nat);
    }
}

impl<F: PrimeField> Domain<F> {
    /// The domain holds the subgroup of the order it names.
    pub open spec fn well_formed(&self) -> bool {
        &&& self.power_of_two <= F::two_adicity()
        &&& self.size == pow2(self.power_of_two as nat)
        &&& self.generator.value() == subgroup_generator::<F>(self.power_of_two as nat)
    }

    /// The generator of the subgroup whose order is `order` rounded up to a power of two. No
    /// check is made that the field has such a subgroup: beyond `2^S` the field's root of unity
    /// is returned unchanged.
    pub fn root_with_order_unchecked(order: u64) -> (g: F)
        ensures
            g.value() == subgroup_generator::<F>(ceil_log2(order as nat)),
    {
        let log_n: u32 = ceil_log2_u64(order);
        Self::generator_for_log(log_n)
    }

    /// The field's root of unity squared `S - log_n` times.
    fn generator_for_log(log_n: u32) -> (g: F)
        ensures
            g.value() == subgroup_generator::<F>(log_n as nat),
    {
        let max_power_of_two: u32 = F::s();
        let mut g: F = F::root_of_unity();
        let mut i: u32 = log_n;
        proof {
            F::lemma_parameters();
            lemma2_to64();
            lemma_pow1(F::root_of_unity_value());
            lemma_small_mod(F::root_of_unity_value() as nat, F::modulus() as nat);
        }
        while i < max_power_of_two
            invariant
                max_power_of_two == F::two_adicity(),
                F::modulus() > 2,
                log_n <= i,
                log_n < max_power_of_two ==> i <= max_power_of_two,
                log_n >= max_power_of_two ==> i == log_n,
                g.value() == fpow(F::root_of_unity_value(), pow2((i - log_n) as nat), F::modulus()),
            decreases max_power_of_two - i,
        {
            proof {
                lemma_fpow_pow2_step(F::root_of_unity_value(), (i - log_n) as nat, F::modulus());
            }
            g = g.square();
            i += 1;
        }
        g
    }

    /// The domain of the least power-of-two size that is at least `size`, if the field has a
    /// subgroup of that order.
    pub fn new_for_size(size: u64) -> (r: Result<Self, SynthesisError>)
        requires
            size <= 0x8000_0000_0000_0000,
        ensures
            r.is_ok() <==> ceil_log2(size as nat) <= F::two_adicity(),
            r matches Ok(d) ==> {
                &&& d.well_formed()
                &&& d.power_of_two == ceil_log2(size as nat)
                &&& d.size == next_power_of_two(size as nat)
                &&& fpow(d.generator.value(), d.size as nat, F::modulus()) == 1
                &&& d.size >= 2 ==> fpow(d.generator.value(), (d.size / 2) as nat, F::modulus())
                    == F::modulus() - 1
            },
            r matches Err(e) ==> e == SynthesisError::SizeExceedsTwoAdicity,
    {
        proof {
            lemma2_to64_rest();
            lemma_ceil_log2_le(size as nat, 63);
        }
        let power_of_two: u32 = ceil_log2_u64(size);
        let max_power_of_two: u32 = F::s();
        if power_of_two > max_power_of_two {
            return Err(SynthesisError::SizeExceedsTwoAdicity);
        }
        let generator: F = Self::generator_for_log(power_of_two);
        proof {
            lemma_generator_order::<F>(power_of_two as nat);
            lemma2_to64();
            if power_of_two >= 1 {
                vstd::arithmetic::power2::lemma_pow2_unfold(power_of_two as nat);
            }
        }
        Ok(Self { size: pow2_u64(power_of_two), power_of_two: power_of_two as u64, generator })
    }
}

/// The square of a power of a subgroup's generator is that power of the generator of the
/// subgroup of half the order.
pub proof fn lemma_square_of_power<F: PrimeField>(k: nat, e: nat)
    requires
        1 <= k <= F::two_adicity(),
    ensures
        ({
            let x = fpow(subgroup_generator::<F>(k), e, F::modulus());
            fmul(x, x, F::modulus()) == fpow(subgroup_generator::<F>((k - 1) as nat), e, F::modulus())
        }),
{
    F::lemma_parameters();
    let p = F::modulus();
    let root = F::root_of_unity_value();
    let g = subgroup_generator::<F>(k);
    let s = F::two_adicity();
    // g^2 is the generator of half the order
    lemma_fpow_pow2_step(root, (s - k) as nat, p);
    let g2 = subgroup_generator::<F>((k - 1) as nat);
    assert(g2 == fmul(g, g, p));
    // (g^e)^2 == g^(2e) == (g^2)^e
    lemma_fpow_double(g, e, p);
    lemma_fpow_mul(g, 2, e, p);
    vstd::arithmetic::power::lemma_square_is_pow2(g);
    assert(fpow(g, 2, p) == g2);
    assert(fpow(g2, e, p) == fpow(g, 2 * e, p));
}

/// Every power of the root that a domain size yields is a unit, whether or not the field has
/// a subgroup of that size.
pub proof fn lemma_generator_is_a_unit<F: PrimeField>(k: nat, e: nat)
    ensures
        is_unit(subgroup_generator::<F>(k), F::modulus()),
        is_unit(fpow(subgroup_generator::<F>(k), e, F::modulus()), F::modulus()),
{
    F::lemma_parameters();
    let s = F::two_adicity();
    if k <= s {
        lemma_generator_order::<F>(k);
        lemma_pow2_pos(k);
        lemma_root_of_one_is_unit(subgroup_generator::<F>(k), pow2(k), e, F::modulus());
    } else {
        lemma_generator_order::<F>(s);
        lemma_pow2_pos(s);
        assert(subgroup_generator::<F>(k) == subgroup_generator::<F>(s));
        lemma_root_of_one_is_unit(subgroup_generator::<F>(s), pow2(s), e, F::modulus());
    }
}

} // verus!
