//! The 64-bit field of characteristic `2^64 - 2^32 + 1`.

use vstd::prelude::*;
use vstd::arithmetic::div_mod::{lemma_fundamental_div_mod, lemma_mod_add_multiples_vanish};
use vstd::arithmetic::power::{lemma_pow1, pow};
use vstd::arithmetic::power2::{lemma2_to64, pow2};
use crate::arith::{
    fmul, fpow, fsub, gcd, is_inverse, lemma_common_factor_not_unit, lemma_euclid_step,
    lemma_fpow_pow2_step, lemma_gcd_divides, lemma_le_bytes_of_value, limbs_value,
};
use crate::bytes::{le_bytes_from_u64, u64_from_le_bytes};
use crate::field::PrimeField;

verus! {

/// The modulus `2^64 - 2^32 + 1`.
pub const GOLDILOCKS_MODULUS: u64 = 0xffff_ffff_0000_0001;

/// A generator of the subgroup of order `2^32`. Its square is `3^((p - 1) / 2^32)`: 3 is a
/// square modulo `p`, so that power of 3 itself only generates the subgroup of order `2^31`.
pub const GOLDILOCKS_ROOT_OF_UNITY: u64 = 1696221132440069403;

/// An element of the Goldilocks field, held as its canonical residue.
#[derive(Clone, Copy, Debug, PartialEq, Eq, Hash)]
pub struct Goldilocks(u64);

/// Thirty-one squarings take the root of unity to `-1`, so its order is exactly `2^32`.
proof fn lemma_root_of_unity_order()
    ensures
        fpow(GOLDILOCKS_ROOT_OF_UNITY as int, pow2(31), GOLDILOCKS_MODULUS as int)
            == GOLDILOCKS_MODULUS as int - 1,
{
    let p = GOLDILOCKS_MODULUS as int;
    let r = GOLDILOCKS_ROOT_OF_UNITY as int;
    lemma2_to64();
    lemma_pow1(r);
    assert(fpow(r, pow2(0), p) == r);
    lemma_fpow_pow2_step(r, 0, p);
    assert(fpow(r, pow2(1), p) == 12845536442210729893int);
    lemma_fpow_pow2_step(r, 1, p);
    assert(fpow(r, pow2(2), p) == 17818703099670063525int);
    lemma_fpow_pow2_step(r, 2, p);
    assert(fpow(r, pow2(3), p) == 5115650025456611651int);
    lemma_fpow_pow2_step(r, 3, p);
    assert(fpow(r, pow2(4), p) == 10453932780379453782int);
    lemma_fpow_pow2_step(r, 4, p);
    assert(fpow(r, pow2(5), p) == 9511726604490599885int);
    lemma_fpow_pow2_step(r, 5, p);
    assert(fpow(r, pow2(6), p) == 10386016357418921484int);
    lemma_fpow_pow2_step(r, 6, p);
    assert(fpow(r, pow2(7), p) == 12825987740469377516int);
    lemma_fpow_pow2_step(r, 7, p);
    assert(fpow(r, pow2(8), p) == 8107878856729910514int);
    lemma_fpow_pow2_step(r, 8, p);
    assert(fpow(r, pow2(9), p) == 10724164058895416804int);
    lemma_fpow_pow2_step(r, 9, p);
    assert(fpow(r, pow2(10), p) == 11587594421694743929int);
    lemma_fpow_pow2_step(r, 10, p);
    assert(fpow(r, pow2(11), p) == 1634727153484504029int);
    lemma_fpow_pow2_step(r, 11, p);
    assert(fpow(r, pow2(12), p) == 14862771283171695220int);
    lemma_fpow_pow2_step(r, 12, p);
    assert(fpow(r, pow2(13), p) == 8208443742397721971int);
    lemma_fpow_pow2_step(r, 13, p);
    assert(fpow(r, pow2(14), p) == 9574120903694676522int);
    lemma_fpow_pow2_step(r, 14, p);
    assert(fpow(r, pow2(15), p) == 7263682523083494386int);
    lemma_fpow_pow2_step(r, 15, p);
    assert(fpow(r, pow2(16), p) == 9305073981236941918int);
    lemma_fpow_pow2_step(r, 16, p);
    assert(fpow(r, pow2(17), p) == 7485633586531034559int);
    lemma_fpow_pow2_step(r, 17, p);
    assert(fpow(r, pow2(18), p) == 17345015821883581672int);
    lemma_fpow_pow2_step(r, 18, p);
    assert(fpow(r, pow2(19), p) == 10674664745462474654int);
    lemma_fpow_pow2_step(r, 19, p);
    assert(fpow(r, pow2(20), p) == 14763866748926558449int);
    lemma_fpow_pow2_step(r, 20, p);
    assert(fpow(r, pow2(21), p) == 15188579624681553725int);
    lemma_fpow_pow2_step(r, 21, p);
    assert(fpow(r, pow2(22), p) == 7500740417092890225int);
    lemma_fpow_pow2_step(r, 22, p);
    assert(fpow(r, pow2(23), p) == 4545880015766881148int);
    lemma_fpow_pow2_step(r, 23, p);
    assert(fpow(r, pow2(24), p) == 8288405288461869359int);
    lemma_fpow_pow2_step(r, 24, p);
    assert(fpow(r, pow2(25), p) == 18446741870357774849int);
    lemma_fpow_pow2_step(r, 25, p);
    assert(fpow(r, pow2(26), p) == 18446744069414584313int);
    lemma_fpow_pow2_step(r, 26, p);
    assert(fpow(r, pow2(27), p) == 64int);
    lemma_fpow_pow2_step(r, 27, p);
    assert(fpow(r, pow2(28), p) == 4096int);
    lemma_fpow_pow2_step(r, 28, p);
    assert(fpow(r, pow2(29), p) == 16777216int);
    lemma_fpow_pow2_step(r, 29, p);
    assert(fpow(r, pow2(30), p) == 281474976710656int);
    lemma_fpow_pow2_step(r, 30, p);
    assert(fpow(r, pow2(31), p) == 18446744069414584320int);
}

impl Goldilocks {
    #[verifier::type_invariant]
    spec fn canonical(self) -> bool {
        self.0 < GOLDILOCKS_MODULUS
    }

    /// The canonical residue as a machine integer.
    pub fn to_u64(&self) -> (r: u64)
        ensures
            r as int == self.value(),
    {
        proof {
            use_type_invariant(self);
        }
        self.0
    }
}

impl From<u64> for Goldilocks {
    /// The element that an unsigned integer reduces to.
    fn from(x: u64) -> (r: Self) {
        Goldilocks(x % GOLDILOCKS_MODULUS)
    }
}

impl vstd::std_specs::convert::FromSpecImpl<u64> for Goldilocks {
    open spec fn obeys_from_spec() -> bool {
        true
    }

    closed spec fn from_spec(x: u64) -> Self {
        Goldilocks((x % GOLDILOCKS_MODULUS) as u64)
    }
}

impl PrimeField for Goldilocks {
    open spec fn modulus() -> int {
        GOLDILOCKS_MODULUS as int
    }

    open spec fn two_adicity() -> nat {
        32
    }

    open spec fn root_of_unity_value() -> int {
        GOLDILOCKS_ROOT_OF_UNITY as int
    }

    open spec fn repr_width() -> nat {
        8
    }

    closed spec fn value(&self) -> int {
        (self.0 as int) % (GOLDILOCKS_MODULUS as int)
    }

    proof fn lemma_parameters() {
        lemma2_to64();
        assert(pow(256, 8) == 0x1_0000_0000_0000_0000) by {
            reveal_with_fuel(pow, 9);
        }
        assert(Self::repr_width() == 8);
        assert(Self::two_adicity() == 32);
        assert(Self::modulus() == GOLDILOCKS_MODULUS as int);
        assert(Self::root_of_unity_value() == GOLDILOCKS_ROOT_OF_UNITY as int);
        lemma_root_of_unity_order();
    }

    proof fn lemma_nonzero_is_unit(a: int) {
        crate::field::goldilocks_group::lemma_group_generator();
        assert(Self::modulus() == crate::field::goldilocks_group::group_modulus());
        crate::units::lemma_certified_units(
            crate::field::goldilocks_group::group_generator(),
            crate::field::goldilocks_group::group_modulus(),
            crate::field::goldilocks_group::group_factors(),
            a,
        );
    }

    proof fn lemma_value_bounds(&self) {
    }

    fn zero() -> (r: Self) {
        Goldilocks(0)
    }

    fn one() -> (r: Self) {
        Goldilocks(1)
    }

    fn from_u64(x: u64) -> (r: Self) {
        Goldilocks(x % GOLDILOCKS_MODULUS)
    }

    fn s() -> (r: u32) {
        32
    }

    fn root_of_unity() -> (r: Self) {
        Goldilocks(GOLDILOCKS_ROOT_OF_UNITY)
    }

    fn add(&self, rhs: &Self) -> (r: Self) {
        proof {
            use_type_invariant(self);
            use_type_invariant(rhs);
        }
        let wide: u128 = self.0 as u128 + rhs.0 as u128;
        Goldilocks((wide % (GOLDILOCKS_MODULUS as u128)) as u64)
    }

    fn sub(&self, rhs: &Self) -> (r: Self) {
        proof {
            use_type_invariant(self);
            use_type_invariant(rhs);
            lemma_mod_add_multiples_vanish(
                self.0 as int - rhs.0 as int,
                GOLDILOCKS_MODULUS as int,
            );
        }
        let wide: u128 = self.0 as u128 + (GOLDILOCKS_MODULUS - rhs.0) as u128;
        Goldilocks((wide % (GOLDILOCKS_MODULUS as u128)) as u64)
    }

    fn mul(&self, rhs: &Self) -> (r: Self) {
        proof {
            use_type_invariant(self);
            use_type_invariant(rhs);
            assert(self.0 as int * rhs.0 as int <= 0xffff_ffff_ffff_ffff * 0xffff_ffff_ffff_ffff)
                by (nonlinear_arith)
                requires
                    0 <= self.0 as int <= 0xffff_ffff_ffff_ffff,
                    0 <= rhs.0 as int <= 0xffff_ffff_ffff_ffff,
            ;
        }
        let wide: u128 = self.0 as u128 * rhs.0 as u128;
        Goldilocks((wide % (GOLDILOCKS_MODULUS as u128)) as u64)
    }

    fn neg(&self) -> (r: Self) {
        proof {
            use_type_invariant(self);
        }
        if self.0 == 0 {
            Goldilocks(0)
        } else {
            proof {
                lemma_mod_add_multiples_vanish(-(self.0 as int), GOLDILOCKS_MODULUS as int);
            }
            Goldilocks(GOLDILOCKS_MODULUS - self.0)
        }
    }

    fn square(&self) -> (r: Self) {
        self.mul(self)
    }

    fn invert(&self) -> (r: Option<Self>) {
        proof {
            use_type_invariant(self);
        }
        let ghost p = GOLDILOCKS_MODULUS as int;
        let ghost a = self.0 as int;
        let mut r0: u64 = GOLDILOCKS_MODULUS;
        let mut r1: u64 = self.0;
        let mut t0: u64 = 0;
        let mut t1: u64 = 1;
        while r1 != 0
            invariant
                p == GOLDILOCKS_MODULUS as int,
                a == self.0 as int,
                0 < r0 <= GOLDILOCKS_MODULUS,
                r1 < GOLDILOCKS_MODULUS,
                t0 < GOLDILOCKS_MODULUS,
                t1 < GOLDILOCKS_MODULUS,
                (t0 as int * a) % p == (r0 as int) % p,
                (t1 as int * a) % p == (r1 as int) % p,
                gcd(r0 as nat, r1 as nat) == gcd(p as nat, a as nat),
            decreases r1,
        {
            let q: u64 = r0 / r1;
            let r2: u64 = r0 % r1;
            proof {
                assert(q as int * t1 as int <= 0xffff_ffff_ffff_ffff * 0xffff_ffff_ffff_ffff)
                    by (nonlinear_arith)
                    requires
                        0 <= q as int <= 0xffff_ffff_ffff_ffff,
                        0 <= t1 as int <= 0xffff_ffff_ffff_ffff,
                ;
            }
            let qt: u64 = ((q as u128 * t1 as u128) % (GOLDILOCKS_MODULUS as u128)) as u64;
            let t2: u64 = ((t0 as u128 + (GOLDILOCKS_MODULUS - qt) as u128) % (
            GOLDILOCKS_MODULUS as u128)) as u64;
            proof {
                assert(qt as int == fmul(q as int, t1 as int, p));
                lemma_mod_add_multiples_vanish(t0 as int - qt as int, p);
                assert(t2 as int == fsub(t0 as int, qt as int, p));
                lemma_euclid_step(a, p, r0 as int, r1 as int, t0 as int, t1 as int, q as int);
                lemma_fundamental_div_mod(r0 as int, r1 as int);
                assert(r0 as int - q as int * r1 as int == r2 as int) by (nonlinear_arith)
                    requires
                        r0 as int == r1 as int * q as int + r2 as int,
                ;
            }
            r0 = r1;
            r1 = r2;
            t0 = t1;
            t1 = t2;
        }
        if r0 == 1 {
            proof {
                assert((a * t0 as int) % p == 1) by (nonlinear_arith)
                    requires
                        (t0 as int * a) % p == 1,
                ;
                assert(is_inverse(a, t0 as int, p));
                assert(a != 0) by {
                    assert(0 * (t0 as int) == 0);
                }
            }
            Some(Goldilocks(t0))
        } else {
            proof {
                lemma_gcd_divides(p as nat, a as nat);
                lemma_common_factor_not_unit(a, p, r0 as int);
                if a != 0 {
                    Self::lemma_nonzero_is_unit(a);
                }
            }
            None
        }
    }

    fn equals(&self, rhs: &Self) -> (r: bool) {
        proof {
            use_type_invariant(self);
            use_type_invariant(rhs);
        }
        self.0 == rhs.0
    }

    fn is_zero(&self) -> (r: bool) {
        proof {
            use_type_invariant(self);
        }
        self.0 == 0
    }

    fn repr_len() -> (r: usize) {
        8
    }

    fn to_repr(&self) -> (r: Vec<u8>) {
        proof {
            use_type_invariant(self);
        }
        let bytes: Vec<u8> = le_bytes_from_u64(self.0);
        proof {
            lemma_le_bytes_of_value(bytes@);
        }
        bytes
    }

    fn from_repr(bytes: &[u8]) -> (r: Option<Self>) {
        if bytes.len() != 8 {
            return None;
        }
        let x: u64 = u64_from_le_bytes(bytes);
        if x < GOLDILOCKS_MODULUS {
            Some(Goldilocks(x))
        } else {
            None
        }
    }

    fn modulus_limbs() -> (r: [u64; 4]) {
        let limbs: [u64; 4] = [GOLDILOCKS_MODULUS, 0, 0, 0];
        proof {
            reveal_with_fuel(limbs_value, 5);
        }
        limbs
    }
}

} // verus!
