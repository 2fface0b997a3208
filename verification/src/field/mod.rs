//! The prime-field interface that the transforms, polynomials and proofs are written against.

use vstd::prelude::*;
use vstd::arithmetic::power::pow;
use vstd::arithmetic::power2::pow2;
use vstd::arithmetic::div_mod::{lemma_mod_twice, lemma_small_mod};
use vstd::arithmetic::mul::lemma_mul_basics;
use vstd::arithmetic::power::{lemma_pow0, lemma_square_is_pow2};
use crate::arith::{
    fadd, fmul, fneg, fpow, fsub, is_inverse, is_unit, le_value, lemma_fmul_assoc,
    lemma_fpow_mul, lemma_fpow_step, lemma_le_bytes_of_value, lemma_le_value_of_bytes,
    le_bytes, limbs_value,
};

pub mod fp;
pub mod fp_group;
pub mod goldilocks;
pub mod goldilocks_group;

verus! {

/// An element of a prime field with a large power-of-two subgroup.
///
/// Every element stands for its canonical residue `value()` in `[0, modulus())`, and all
/// operations are stated over these residues.
pub trait PrimeField: Sized + Copy {
    /// The characteristic of the field.
    spec fn modulus() -> int;

    /// The exponent `S` of the power-of-two subgroup that `root_of_unity` generates.
    spec fn two_adicity() -> nat;

    /// The residue of the fixed generator of the subgroup of order `2^S`.
    spec fn root_of_unity_value() -> int;

    /// The number of bytes of the canonical encoding.
    spec fn repr_width() -> nat;

    /// The canonical residue of an element.
    spec fn value(&self) -> int;

    /// The shape of the field: an odd modulus that fits the encoding, `2^S` dividing
    /// `modulus() - 1`, and a root of unity of order exactly `2^S`.
    proof fn lemma_parameters()
        ensures
            Self::modulus() > 2,
            Self::modulus() % 2 == 1,
            0 < Self::repr_width() <= 32,
            Self::modulus() <= pow(256, Self::repr_width()),
            0 < Self::two_adicity() < 256,
            (Self::modulus() - 1) % (pow2(Self::two_adicity()) as int) == 0,
            0 <= Self::root_of_unity_value() < Self::modulus(),
            fpow(
                Self::root_of_unity_value(),
                pow2((Self::two_adicity() - 1) as nat),
                Self::modulus(),
            ) == Self::modulus() - 1,
    ;

    /// The modulus is prime: every non-zero residue has an inverse.
    proof fn lemma_nonzero_is_unit(a: int)
        requires
            0 < a < Self::modulus(),
        ensures
            is_unit(a, Self::modulus()),
    ;

    /// Residues are canonical.
    proof fn lemma_value_bounds(&self)
        ensures
            0 <= self.value() < Self::modulus(),
    ;

    /// The additive identity.
    fn zero() -> (r: Self)
        ensures
            r.value() == 0,
    ;

    /// The multiplicative identity.
    fn one() -> (r: Self)
        ensures
            r.value() == 1,
    ;

    /// The element that an unsigned integer reduces to.
    fn from_u64(x: u64) -> (r: Self)
        ensures
            r.value() == (x as int) % Self::modulus(),
    ;

    /// The exponent `S`.
    fn s() -> (r: u32)
        ensures
            r == Self::two_adicity(),
    ;

    /// The fixed generator of the subgroup of order `2^S`.
    fn root_of_unity() -> (r: Self)
        ensures
            r.value() == Self::root_of_unity_value(),
    ;

    /// Field addition.
    fn add(&self, rhs: &Self) -> (r: Self)
        ensures
            r.value() == fadd(self.value(), rhs.value(), Self::modulus()),
    ;

    /// Field subtraction.
    fn sub(&self, rhs: &Self) -> (r: Self)
        ensures
            r.value() == fsub(self.value(), rhs.value(), Self::modulus()),
    ;

    /// Field multiplication.
    fn mul(&self, rhs: &Self) -> (r: Self)
        ensures
            r.value() == fmul(self.value(), rhs.value(), Self::modulus()),
    ;

    /// Additive inverse.
    fn neg(&self) -> (r: Self)
        ensures
            r.value() == fneg(self.value(), Self::modulus()),
    ;

    /// Field squaring.
    fn square(&self) -> (r: Self)
        ensures
            r.value() == fmul(self.value(), self.value(), Self::modulus()),
    ;

    /// The multiplicative inverse of every element but zero.
    fn invert(&self) -> (r: Option<Self>)
        ensures
            match r {
                Some(inv) => is_inverse(self.value(), inv.value(), Self::modulus()),
                None => self.value() == 0,
            },
            r.is_some() <==> self.value() != 0,
    ;

    /// Exponentiation by an unsigned integer, by repeated squaring from the lowest bit of the
    /// exponent upward.
    fn pow(&self, exp: u64) -> (r: Self)
        ensures
            r.value() == fpow(self.value(), exp as nat, Self::modulus()),
    {
        let ghost p = Self::modulus();
        let ghost target = fpow(self.value(), exp as nat, p);
        let mut result: Self = Self::one();
        let mut square: Self = *self;
        let mut e: u64 = exp;
        proof {
            Self::lemma_parameters();
            lemma_mod_twice(pow(self.value(), exp as nat), p);
            lemma_mul_basics(fpow(self.value(), exp as nat, p));
        }
        while e > 0
            invariant
                p == Self::modulus(),
                p > 2,
                fmul(result.value(), fpow(square.value(), e as nat, p), p) == target,
            decreases e,
        {
            let ghost r0 = result.value();
            let ghost b0 = square.value();
            let ghost h = (e / 2) as nat;
            proof {
                lemma_fpow_mul(b0, 2, h, p);
                lemma_square_is_pow2(b0);
                assert(fpow(fmul(b0, b0, p), h, p) == fpow(b0, 2 * h, p));
                if e % 2 == 1 {
                    lemma_fpow_step(b0, 2 * h, p);
                    lemma_fmul_assoc(r0, b0, fpow(b0, 2 * h, p), p);
                    assert(2 * h + 1 == e);
                } else {
                    assert(2 * h == e);
                }
            }
            if e % 2 == 1 {
                result = result.mul(&square);
            }
            square = square.square();
            e = e / 2;
        }
        proof {
            lemma_pow0(square.value());
            result.lemma_value_bounds();
            lemma_mul_basics(result.value());
            lemma_small_mod(result.value() as nat, p as nat);
            lemma_small_mod(1, p as nat);
            assert(e == 0);
            assert(fpow(square.value(), 0, p) == 1);
            assert(fmul(result.value(), 1, p) == result.value());
        }
        result
    }

    /// Equality of elements is equality of residues.
    fn equals(&self, rhs: &Self) -> (r: bool)
        ensures
            r == (self.value() == rhs.value()),
    ;

    /// Whether the element is the additive identity.
    fn is_zero(&self) -> (r: bool)
        ensures
            r == (self.value() == 0),
    ;

    /// The number of bytes of the canonical encoding.
    fn repr_len() -> (r: usize)
        ensures
            r == Self::repr_width(),
    ;

    /// The canonical little-endian encoding, of fixed width.
    fn to_repr(&self) -> (r: Vec<u8>)
        ensures
            r@ == le_bytes(self.value(), Self::repr_width()),
            r@.len() == Self::repr_width(),
            le_value(r@) == self.value(),
    ;

    /// Decodes a canonical little-endian encoding; anything else is rejected.
    fn from_repr(bytes: &[u8]) -> (r: Option<Self>)
        ensures
            r.is_some() <==> (bytes@.len() == Self::repr_width() && le_value(bytes@)
                < Self::modulus()),
            r matches Some(x) ==> x.value() == le_value(bytes@),
    ;

    /// The modulus as four little-endian 64-bit limbs.
    fn modulus_limbs() -> (r: [u64; 4])
        ensures
            limbs_value(r@) == Self::modulus(),
    ;
}

/// A canonical residue is a unit exactly if it is not zero.
pub proof fn lemma_unit_iff_nonzero<F: PrimeField>(a: int)
    requires
        0 <= a < F::modulus(),
    ensures
        is_unit(a, F::modulus()) <==> a != 0,
{
    F::lemma_parameters();
    if a != 0 {
        F::lemma_nonzero_is_unit(a);
    } else if is_unit(a, F::modulus()) {
        let y = choose|y: int| is_inverse(a, y, F::modulus());
        assert(0 * y == 0);
        lemma_small_mod(0, F::modulus() as nat);
    }
}

/// The canonical encoding of the residue `v`: its `repr_width()` little-endian bytes.
pub open spec fn encoding<F: PrimeField>(v: int) -> Seq<u8> {
    le_bytes(v, F::repr_width())
}

/// Encoding and decoding are inverse to one another: the encoding of a residue has the
/// field's width and decodes to that residue, and a string of that width is the encoding of
/// its value.
pub proof fn lemma_encoding_round_trip<F: PrimeField>(v: int, s: Seq<u8>)
    requires
        0 <= v < F::modulus(),
        s.len() == F::repr_width(),
    ensures
        encoding::<F>(v).len() == F::repr_width(),
        le_value(encoding::<F>(v)) == v,
        encoding::<F>(le_value(s)) == s,
{
    F::lemma_parameters();
    lemma_le_value_of_bytes(v, F::repr_width());
    lemma_le_bytes_of_value(s);
}

/// The residues of a sequence of elements.
pub open spec fn values<F: PrimeField>(s: Seq<F>) -> Seq<int> {
    Seq::new(s.len(), |i: int| s[i].value())
}

} // verus!
