//! Sums, products and quotients of polynomials.

use vstd::prelude::*;
use vstd::arithmetic::div_mod::{
    lemma_add_mod_noop, lemma_mod_twice, lemma_small_mod, lemma_sub_mod_noop,
};
use vstd::arithmetic::power2::{lemma2_to64, lemma2_to64_rest, lemma_pow2_strictly_increases, pow2};
use crate::arith::{
    ceil_log2, ceil_log2_u64, fadd, fmul, fneg, fsub, is_inverse, is_power_of_two,
    lemma_ceil_log2_bounds, lemma_ceil_log2_le, lemma_inverse_cancels, lemma_inverse_unique,
    lemma_log2_pow2, lemma_power_of_two_logs, next_power_of_two, pow2_u64,
};
use crate::domains::{subgroup_generator, Domain};
use crate::fft::serial::{serial_fft, serial_ifft};
use crate::fft::{intt, inverse_of, ntt};
use crate::field::{values, PrimeField};
use crate::polynomial::{
    coeff, lemma_stripped, lemma_values_canonical, padded, stripped, zero_vec, zeros,
    Polynomial,
};

verus! {

/// The coefficient-wise sum; the tail of the longer operand is kept.
pub open spec fn poly_add(a: Seq<int>, b: Seq<int>, p: int) -> Seq<int> {
    Seq::new(
        if a.len() > b.len() {
            a.len()
        } else {
            b.len()
        },
        |i: int|
            if i < a.len() && i < b.len() {
                fadd(a[i], b[i], p)
            } else if i < a.len() {
                a[i]
            } else {
                b[i]
            },
    )
}

/// The coefficient-wise difference; the tail of a longer subtrahend is negated.
pub open spec fn poly_sub(a: Seq<int>, b: Seq<int>, p: int) -> Seq<int> {
    Seq::new(
        if a.len() > b.len() {
            a.len()
        } else {
            b.len()
        },
        |i: int|
            if i < a.len() && i < b.len() {
                fsub(a[i], b[i], p)
            } else if i < a.len() {
                a[i]
            } else {
                fneg(b[i], p)
            },
    )
}

/// The sum of `a[i] * b[k - i]` over the first `n` indices `i`.
pub open spec fn conv_upto(a: Seq<int>, b: Seq<int>, k: int, n: nat) -> int
    decreases n,
{
    if n == 0 {
        0
    } else {
        conv_upto(a, b, k, (n - 1) as nat) + a[n - 1] * coeff(b, k - (n - 1))
    }
}

/// The coefficient of `x^k` in the schoolbook product of `a` and `b`, over the integers.
pub open spec fn conv(a: Seq<int>, b: Seq<int>, k: int) -> int {
    conv_upto(a, b, k, a.len())
}

/// `dividend == quotient * divisor + remainder`, coefficient by coefficient modulo `p`.
pub open spec fn division_holds(
    dividend: Seq<int>,
    quotient: Seq<int>,
    divisor: Seq<int>,
    remainder: Seq<int>,
    p: int,
) -> bool {
    forall|k: int| #[trigger]
        coeff(dividend, k) == (conv(quotient, divisor, k) + coeff(remainder, k)) % p
}

/// The length of the quotient vector of a division: the least power of two that holds the
/// `n - d + 1` coefficients, and nothing where the dividend is shorter than the divisor.
pub open spec fn quotient_len(n: nat, d: nat) -> nat {
    if n >= d {
        next_power_of_two((n - d + 1) as nat)
    } else {
        0
    }
}

/// Changing one factor changes the sum by the change times its cofactor.
pub proof fn lemma_conv_update(a: Seq<int>, b: Seq<int>, k: int, n: nat, i: int, c: int)
    requires
        0 <= i < a.len(),
        n <= a.len(),
    ensures
        conv_upto(a.update(i, c), b, k, n) == conv_upto(a, b, k, n) + (if i < n {
            (c - a[i]) * coeff(b, k - i)
        } else {
            0
        }),
    decreases n,
{
    if n > 0 {
        lemma_conv_update(a, b, k, (n - 1) as nat, i, c);
        if i == n - 1 {
            assert(c * coeff(b, k - i) == a[i] * coeff(b, k - i) + (c - a[i]) * coeff(b, k - i))
                by (nonlinear_arith);
        }
    }
}

/// Zero factors sum to zero.
pub proof fn lemma_conv_zeros(z: nat, b: Seq<int>, k: int, n: nat)
    requires
        n <= z,
    ensures
        conv_upto(zeros(z), b, k, n) == 0,
    decreases n,
{
    if n > 0 {
        lemma_conv_zeros(z, b, k, (n - 1) as nat);
    }
}

/// Only the factors below `n` count.
pub proof fn lemma_conv_prefix(a: Seq<int>, a2: Seq<int>, b: Seq<int>, k: int, n: nat)
    requires
        n <= a.len(),
        n <= a2.len(),
        forall|i: int| 0 <= i < n ==> a[i] == a2[i],
    ensures
        conv_upto(a, b, k, n) == conv_upto(a2, b, k, n),
    decreases n,
{
    if n > 0 {
        lemma_conv_prefix(a, a2, b, k, (n - 1) as nat);
    }
}

/// Zero factors at the end add nothing.
pub proof fn lemma_conv_zero_tail(a: Seq<int>, b: Seq<int>, k: int, from: nat, n: nat)
    requires
        from <= n <= a.len(),
        forall|i: int| from <= i < n ==> a[i] == 0,
    ensures
        conv_upto(a, b, k, n) == conv_upto(a, b, k, from),
    decreases n,
{
    if n > from {
        lemma_conv_zero_tail(a, b, k, from, (n - 1) as nat);
    }
}

/// Padding the quotient with zeros keeps the product.
pub proof fn lemma_conv_padded(a: Seq<int>, b: Seq<int>, k: int, n: nat)
    ensures
        conv(padded(a, n), b, k) == conv(a, b, k),
{
    let big = padded(a, n);
    if n >= a.len() {
        lemma_conv_zero_tail(big, b, k, a.len(), big.len());
        lemma_conv_prefix(big, a, b, k, a.len());
    }
}

/// Stripping keeps every coefficient.
pub proof fn lemma_coeff_stripped(a: Seq<int>, k: int)
    ensures
        coeff(stripped(a), k) == coeff(a, k),
{
    lemma_stripped(a);
}

/// What one round of long division does to the identity at `x^k`: the quotient gains `c * t`,
/// the remainder loses it.
pub proof fn lemma_division_round(x: int, t: int, r: int, p: int)
    requires
        p > 0,
    ensures
        (x + t + fsub(r, t % p, p)) % p == (x + r) % p,
{
    lemma_sub_mod_noop(r, t % p, p);
    lemma_sub_mod_noop(r, t, p);
    lemma_mod_twice(t, p);
    lemma_add_mod_noop(x + t, (r - t % p) % p, p);
    lemma_mod_twice(r - t, p);
    lemma_add_mod_noop(x + t, r - t, p);
}

/// The entry-wise product.
pub open spec fn pointwise_mul(a: Seq<int>, b: Seq<int>, p: int) -> Seq<int> {
    Seq::new(a.len(), |i: int| fmul(a[i], b[i], p))
}

/// The entry-wise quotient: each entry of `a` times the inverse of the entry of `b`.
pub open spec fn pointwise_div(a: Seq<int>, b: Seq<int>, p: int) -> Seq<int> {
    Seq::new(a.len(), |i: int| fmul(a[i], inverse_of(b[i], p), p))
}

/// The product computed through transforms of size `2^(ceil_log2(|a|) + ceil_log2(|b|))`:
/// both operands are padded to that size and transformed, the transforms are multiplied
/// entry-wise, and the product is transformed back.
pub open spec fn poly_mul_fft<F: PrimeField>(a: Seq<int>, b: Seq<int>) -> Seq<int> {
    let log = ceil_log2(a.len()) + ceil_log2(b.len());
    let size = pow2(log);
    let w = subgroup_generator::<F>(log);
    let p = F::modulus();
    intt(pointwise_mul(ntt(padded(a, size), w, p), ntt(padded(b, size), w, p), p), w, p)
}

/// The coefficients of `X - c`.
pub open spec fn linear_factor(c: int, p: int) -> Seq<int> {
    seq![fneg(c, p), 1int]
}

/// The product of the factors `X - g^i` for `i` from 0 to `t`, multiplied one after another
/// through transforms.
pub open spec fn divisor_product<F: PrimeField>(g: int, t: nat) -> Seq<int>
    decreases t,
{
    if t == 0 {
        linear_factor(1, F::modulus())
    } else {
        poly_mul_fft::<F>(
            divisor_product::<F>(g, (t - 1) as nat),
            linear_factor(crate::arith::fpow(g, t, F::modulus()), F::modulus()),
        )
    }
}

/// The size of the transforms of a division through transforms: the length of the dividend
/// times its binary logarithm.
pub open spec fn fft_division_size(n: nat) -> nat {
    n * crate::arith::floor_log2(n)
}

/// The transform of the divisor in a division through transforms.
pub open spec fn fft_divisor_values<F: PrimeField>(n: nat, b: Seq<int>) -> Seq<int> {
    let size = fft_division_size(n);
    ntt(padded(b, size), subgroup_generator::<F>(ceil_log2(size)), F::modulus())
}

/// The quotient computed through transforms of size `fft_division_size(|a|)`: both operands
/// are padded to that size and transformed, the transforms are divided entry-wise, the
/// quotient is transformed back and its trailing zeros are removed.
pub open spec fn poly_div_fft<F: PrimeField>(a: Seq<int>, b: Seq<int>) -> Seq<int> {
    let size = fft_division_size(a.len());
    let w = subgroup_generator::<F>(ceil_log2(size));
    let p = F::modulus();
    stripped(
        intt(pointwise_div(ntt(padded(a, size), w, p), fft_divisor_values::<F>(a.len(), b), p), w, p),
    )
}

/// Extends `v` by zero elements to the length `target`.
pub fn extend_with_zeros<F: PrimeField>(v: &mut Vec<F>, target: usize)
    requires
        old(v)@.len() <= target,
    ensures
        values(final(v)@) == padded(values(old(v)@), target as nat),
        final(v)@.len() == target,
{
    let ghost short = values(v@);
    let mut extension: Vec<F> = zero_vec(target - v.len());
    v.append(&mut extension);
    assert(values(v@) =~= padded(short, target as nat));
}

impl<F: PrimeField> Polynomial<F> {
    /// The sum of two polynomials.
    pub fn add(self, other: Self) -> (r: Self)
        ensures
            r@ == poly_add(self@, other@, F::modulus()),
    {
        let mut coeff: Vec<F> = Vec::new();
        let n: usize = self.len();
        let m: usize = other.len();
        let total: usize = if n > m {
            n
        } else {
            m
        };
        let mut i: usize = 0;
        while i < total
            invariant
                i <= total,
                n == self@.len(),
                m == other@.len(),
                total == (if n > m {
                    n
                } else {
                    m
                }),
                coeff@.len() == i,
                forall|t: int|
                    0 <= t < i ==> (#[trigger] coeff@[t]).value() == poly_add(
                        self@,
                        other@,
                        F::modulus(),
                    )[t],
            decreases total - i,
        {
            if i >= m {
                coeff.push(self.coefficient_at(i));
            } else if i >= n {
                coeff.push(other.coefficient_at(i));
            } else {
                coeff.push(self.coefficient_at(i).add(&other.coefficient_at(i)));
            }
            i += 1;
        }
        assert(values(coeff@) =~= poly_add(self@, other@, F::modulus()));
        Self::from_vec(coeff)
    }

    /// The difference of two polynomials.
    pub fn sub(self, other: Self) -> (r: Self)
        ensures
            r@ == poly_sub(self@, other@, F::modulus()),
    {
        let mut coeff: Vec<F> = Vec::new();
        let n: usize = self.len();
        let m: usize = other.len();
        let total: usize = if n > m {
            n
        } else {
            m
        };
        let mut i: usize = 0;
        while i < total
            invariant
                i <= total,
                n == self@.len(),
                m == other@.len(),
                total == (if n > m {
                    n
                } else {
                    m
                }),
                coeff@.len() == i,
                forall|t: int|
                    0 <= t < i ==> (#[trigger] coeff@[t]).value() == poly_sub(
                        self@,
                        other@,
                        F::modulus(),
                    )[t],
            decreases total - i,
        {
            if i >= m {
                coeff.push(self.coefficient_at(i));
            } else if i >= n {
                coeff.push(F::zero().sub(&other.coefficient_at(i)));
            } else {
                coeff.push(self.coefficient_at(i).sub(&other.coefficient_at(i)));
            }
            i += 1;
        }
        assert(values(coeff@) =~= poly_sub(self@, other@, F::modulus()));
        Self::from_vec(coeff)
    }

    /// Schoolbook long division by `divisor`, whose trailing zero coefficients are ignored.
    ///
    /// Returns the quotient, padded with zeros to a power-of-two length, and the remainder
    /// without trailing zeros. A dividend shorter than the divisor gives the empty quotient.
    pub fn long_division(&self, divisor: &Polynomial<F>) -> (r: (Self, Vec<F>))
        requires
            self@.len() <= 0x8000_0000,
            stripped(divisor@).len() > 0,
        ensures
            division_holds(self@, r.0@, stripped(divisor@), values(r.1@), F::modulus()),
            r.1@.len() < stripped(divisor@).len(),
            stripped(values(r.1@)) == values(r.1@),
            r.0@.len() == quotient_len(self@.len(), stripped(divisor@).len()),
    {
        let ghost p = F::modulus();
        let ghost a = self@;
        let dividend: Vec<F> = self.coefficients();
        let mut divisor: Vec<F> = divisor.coefficients();
        let ghost full_divisor = values(divisor@);
        proof {
            F::lemma_parameters();
            lemma_stripped(full_divisor);
            self.lemma_canonical();
        }
        while divisor.len() > 0 && divisor[divisor.len() - 1].is_zero()
            invariant
                divisor@.len() <= full_divisor.len(),
                values(divisor@) == full_divisor.subrange(0, divisor@.len() as int),
                stripped(values(divisor@)) == stripped(full_divisor),
            decreases divisor@.len(),
        {
            let ghost before = values(divisor@);
            divisor.pop();
            proof {
                assert(values(divisor@) =~= before.drop_last());
                assert(values(divisor@) =~= full_divisor.subrange(0, divisor@.len() as int));
            }
        }
        let divisor_len: usize = divisor.len();
        let ghost d = values(divisor@);
        assert(d == stripped(full_divisor));
        let n: usize = dividend.len();
        let mut remainder: Vec<F> = dividend;
        let mut quotient: Vec<F> = if n >= divisor_len {
            zero_vec(n - divisor_len + 1)
        } else {
            Vec::new()
        };
        proof {
            assert forall|k: int| #[trigger]
                coeff(a, k) == (conv(values(quotient@), d, k) + coeff(values(remainder@), k))
                    % p by {
                if n >= divisor_len {
                    lemma_conv_zeros((n - divisor_len + 1) as nat, d, k, values(quotient@).len());
                }
                if 0 <= k < a.len() {
                    lemma_small_mod(a[k] as nat, p as nat);
                }
                lemma_small_mod(0, p as nat);
            }
            assert forall|t: int| 0 <= t < quotient@.len() implies (#[trigger] quotient@[t]).value()
                == 0 by {
                assert(values(quotient@)[t] == 0);
            }
        }
        let lead: F = divisor[divisor_len - 1];
        proof {
            lemma_stripped(full_divisor);
            assert(lead.value() == d.last());
        }
        let lead_inv: F = lead.invert().unwrap();
        while remainder.len() >= divisor_len
            invariant
                p == F::modulus(),
                p > 2,
                a == self@,
                d == values(divisor@),
                divisor_len == divisor@.len(),
                divisor_len > 0,
                lead.value() == d.last(),
                is_inverse(lead.value(), lead_inv.value(), p),
                remainder@.len() <= n,
                n <= 0x8000_0000,
                n >= divisor_len ==> remainder@.len() + 1 >= divisor_len,
                n >= divisor_len ==> quotient@.len() == n - divisor_len + 1,
                n < divisor_len ==> quotient@.len() == 0,
                forall|t: int|
                    0 <= t <= remainder@.len() - divisor_len ==> (#[trigger] quotient@[t]).value()
                        == 0,
                division_holds(a, values(quotient@), d, values(remainder@), p),
            decreases remainder@.len(),
        {
            let i: usize = remainder.len() - divisor_len;
            let c: F = remainder[remainder.len() - 1].mul(&lead_inv);
            let ghost q0 = values(quotient@);
            let ghost r0 = values(remainder@);
            quotient[i] = c;
            proof {
                assert(values(quotient@) =~= q0.update(i as int, c.value()));
            }
            let mut j: usize = 0;
            while j < divisor_len
                invariant
                    j <= divisor_len,
                    divisor_len == divisor@.len(),
                    d == values(divisor@),
                    remainder@.len() == r0.len(),
                    i + divisor_len == r0.len(),
                    r0.len() <= 0x8000_0000,
                    p == F::modulus(),
                    forall|t: int|
                        0 <= t < r0.len() ==> (#[trigger] remainder@[t]).value() == (if i <= t < i
                            + j {
                            fsub(r0[t], fmul(c.value(), d[t - i], p), p)
                        } else {
                            r0[t]
                        }),
                decreases divisor_len - j,
            {
                let updated: F = remainder[i + j].sub(&c.mul(&divisor[j]));
                remainder[i + j] = updated;
                j += 1;
            }
            let ghost r1 = values(remainder@);
            remainder.pop();
            proof {
                let q1 = values(quotient@);
                let r2 = values(remainder@);
                assert(r2 =~= r1.drop_last());
                lemma_values_canonical(remainder@);
                assert forall|k: int| #[trigger]
                    coeff(a, k) == (conv(q1, d, k) + coeff(r2, k)) % p by {
                    lemma_conv_update(q0, d, k, q0.len(), i as int, c.value());
                    let x = conv(q0, d, k);
                    let t = c.value() * coeff(d, k - i);
                    assert(q0[i as int] == 0);
                    assert(conv(q1, d, k) == x + t);
                    assert(coeff(a, k) == (x + coeff(r0, k)) % p);
                    if i <= k < r0.len() - 1 {
                        assert(r2[k] == fsub(r0[k], fmul(c.value(), d[k - i], p), p));
                        lemma_division_round(x, t, r0[k], p);
                    } else if k == r0.len() - 1 {
                        lemma_inverse_cancels(r0.last(), lead.value(), lead_inv.value(), p);
                        assert(t % p == r0.last() % p);
                        lemma_add_mod_noop(x, t, p);
                        lemma_add_mod_noop(x, r0.last(), p);
                    } else {
                        assert(coeff(d, k - i) == 0);
                        assert(t == 0) by (nonlinear_arith)
                            requires
                                t == c.value() * 0,
                        ;
                    }
                }
            }
        }
        proof {
            lemma_stripped(values(remainder@));
        }
        let ghost r_full = values(remainder@);
        while remainder.len() > 0 && remainder[remainder.len() - 1].is_zero()
            invariant
                remainder@.len() <= r_full.len(),
                values(remainder@) == r_full.subrange(0, remainder@.len() as int),
                stripped(values(remainder@)) == stripped(r_full),
            decreases remainder@.len(),
        {
            let ghost before = values(remainder@);
            remainder.pop();
            proof {
                assert(values(remainder@) =~= before.drop_last());
                assert(values(remainder@) =~= r_full.subrange(0, remainder@.len() as int));
            }
        }
        let ghost q_short = values(quotient@);
        let qlen: usize = quotient.len();
        if qlen > 0 {
            proof {
                lemma2_to64();
                lemma2_to64_rest();
                lemma_ceil_log2_le(qlen as nat, 31);
                lemma_ceil_log2_bounds(qlen as nat);
                if ceil_log2(qlen as nat) < 31 {
                    lemma_pow2_strictly_increases(ceil_log2(qlen as nat), 31);
                }
            }
            let target: u64 = pow2_u64(ceil_log2_u64(qlen as u64));
            let mut resize: Vec<F> = zero_vec((target as usize) - qlen);
            quotient.append(&mut resize);
            proof {
                assert(values(quotient@) =~= padded(q_short, target as nat));
            }
        }
        proof {
            let q = values(quotient@);
            let r = values(remainder@);
            assert(r == stripped(r_full));
            assert forall|k: int| #[trigger] coeff(a, k) == (conv(q, d, k) + coeff(r, k)) % p by {
                lemma_coeff_stripped(r_full, k);
                if qlen > 0 {
                    lemma_conv_padded(q_short, d, k, q.len());
                }
                assert(coeff(a, k) == (conv(q_short, d, k) + coeff(r_full, k)) % p);
            }
        }
        (Self::from_vec(quotient), remainder)
    }

    /// The polynomial minus the constant `w`.
    pub fn sub_constant(&self, w: F) -> (r: Self)
        requires
            self@.len() >= 1,
        ensures
            r@ == self@.update(0, fsub(self@[0], w.value(), F::modulus())),
    {
        let mut coefficients: Vec<F> = self.coefficients();
        let first: F = coefficients[0].sub(&w);
        coefficients[0] = first;
        assert(values(coefficients@) =~= self@.update(0, fsub(self@[0], w.value(), F::modulus())));
        Self::from_vec(coefficients)
    }
    /// The product of two polynomials, through transforms.
    pub fn mul(self, other: Self) -> (r: Self)
        requires
            ceil_log2(self@.len()) + ceil_log2(other@.len()) < 32,
            ceil_log2(self@.len()) + ceil_log2(other@.len()) <= F::two_adicity(),
        ensures
            r@ == poly_mul_fft::<F>(self@, other@),
            r@ == crate::polynomial::product::schoolbook_product(
                self@,
                other@,
                pow2(ceil_log2(self@.len()) + ceil_log2(other@.len())),
                F::modulus(),
            ),
            r@.len() == pow2(ceil_log2(self@.len()) + ceil_log2(other@.len())),
    {
        let ghost p = F::modulus();
        proof {
            self.lemma_canonical();
            other.lemma_canonical();
            crate::polynomial::product::lemma_mul_is_schoolbook::<F>(self@, other@);
        }
        let ghost la = ceil_log2(self@.len());
        let ghost lb = ceil_log2(other@.len());
        let log_n: u32 = (self.log_n() + other.log_n()) as u32;
        proof {
            lemma2_to64();
            lemma2_to64_rest();
            if log_n < 31 {
                lemma_pow2_strictly_increases(log_n as nat, 31);
            }
            lemma_ceil_log2_bounds(self@.len());
            lemma_ceil_log2_bounds(other@.len());
            if la < log_n {
                lemma_pow2_strictly_increases(la, log_n as nat);
            }
            if lb < log_n {
                lemma_pow2_strictly_increases(lb, log_n as nat);
            }
            lemma_log2_pow2(log_n as nat);
            crate::domains::lemma_generator_is_a_unit::<F>(log_n as nat, 0);
        }
        let new_size: usize = pow2_u64(log_n) as usize;
        let mut resized_one: Vec<F> = self.coefficients();
        extend_with_zeros(&mut resized_one, new_size);
        let mut resized_two: Vec<F> = other.coefficients();
        extend_with_zeros(&mut resized_two, new_size);
        let omega: F = Domain::<F>::new_for_size(new_size as u64).unwrap().generator;
        proof {
            omega.lemma_value_bounds();
            crate::field::lemma_unit_iff_nonzero::<F>(omega.value());
        }
        serial_fft(resized_one.as_mut_slice(), &omega, log_n);
        serial_fft(resized_two.as_mut_slice(), &omega, log_n);
        let mut fourier: Vec<F> = Vec::new();
        let mut i: usize = 0;
        while i < new_size
            invariant
                i <= new_size,
                resized_one@.len() == new_size,
                resized_two@.len() == new_size,
                fourier@.len() == i,
                forall|t: int|
                    0 <= t < i ==> (#[trigger] fourier@[t]).value() == fmul(
                        resized_one@[t].value(),
                        resized_two@[t].value(),
                        F::modulus(),
                    ),
            decreases new_size - i,
        {
            fourier.push(resized_one[i].mul(&resized_two[i]));
            i += 1;
        }
        proof {
            assert(values(fourier@) =~= pointwise_mul(
                values(resized_one@),
                values(resized_two@),
                p,
            ));
        }
        serial_ifft(fourier.as_mut_slice(), &omega, log_n);
        Self::from_vec(fourier)
    }

    /// The quotient by `other`, through transforms of size `fft_division_size` of the length.
    ///
    /// The length must be a power of two whose product with its logarithm is a power of two
    /// again, and no value of the divisor on the transform domain may lack an inverse.
    pub fn divide_fft(&self, other: &Self) -> (r: Self)
        requires
            is_power_of_two(self@.len()),
            other@.len() <= self@.len(),
            is_power_of_two(fft_division_size(self@.len())),
            ceil_log2(fft_division_size(self@.len())) < 32,
            ceil_log2(fft_division_size(self@.len())) <= F::two_adicity(),
            forall|i: int|
                0 <= i < fft_division_size(self@.len()) ==> #[trigger] fft_divisor_values::<F>(
                    self@.len(),
                    other@,
                )[i] != 0,
        ensures
            r@ == poly_div_fft::<F>(self@, other@),
    {
        let ghost p = F::modulus();
        let ghost size = fft_division_size(self@.len());
        let ghost w = subgroup_generator::<F>(ceil_log2(size));
        let mut dividend: Vec<F> = self.coefficients();
        let mut divisor: Vec<F> = other.coefficients();
        let dividend_len: usize = dividend.len();
        proof {
            F::lemma_parameters();
            lemma2_to64();
            lemma2_to64_rest();
            lemma_power_of_two_logs(self@.len());
            lemma_power_of_two_logs(size);
            lemma_pow2_strictly_increases(ceil_log2(size), 32);
            lemma_ceil_log2_le(self@.len(), 64);
            assert(size >= self@.len()) by (nonlinear_arith)
                requires
                    size == self@.len() * crate::arith::floor_log2(self@.len()),
                    size >= 1,
            ;
            crate::domains::lemma_generator_is_a_unit::<F>(ceil_log2(size), 0);
        }
        let log_n: u32 = ceil_log2_u64(dividend_len as u64);
        let kth_roots: u64 = dividend_len as u64 * log_n as u64;
        let log_size: u32 = ceil_log2_u64(kth_roots);
        let evaluation_domain: Domain<F> = Domain::new_for_size(kth_roots).unwrap();
        let omega: F = evaluation_domain.generator;
        proof {
            omega.lemma_value_bounds();
            crate::field::lemma_unit_iff_nonzero::<F>(omega.value());
        }
        extend_with_zeros(&mut dividend, kth_roots as usize);
        extend_with_zeros(&mut divisor, kth_roots as usize);
        serial_fft(dividend.as_mut_slice(), &omega, log_size);
        serial_fft(divisor.as_mut_slice(), &omega, log_size);
        let ghost numerators = values(dividend@);
        let ghost denominators = values(divisor@);
        assert(denominators == fft_divisor_values::<F>(self@.len(), other@));
        let total: usize = dividend.len();
        let mut i: usize = 0;
        while i < total
            invariant
                i <= total,
                p == F::modulus(),
                p > 2,
                dividend@.len() == total,
                divisor@.len() == total,
                numerators.len() == total,
                denominators == values(divisor@),
                forall|t: int| 0 <= t < total ==> #[trigger] denominators[t] != 0,
                forall|t: int|
                    0 <= t < total ==> (#[trigger] dividend@[t]).value() == (if t < i {
                        fmul(numerators[t], inverse_of(denominators[t], p), p)
                    } else {
                        numerators[t]
                    }),
            decreases total - i,
        {
            assert(denominators[i as int] != 0);
            let inverse: F = divisor[i].invert().unwrap();
            proof {
                divisor@[i as int].lemma_value_bounds();
                crate::field::lemma_unit_iff_nonzero::<F>(denominators[i as int]);
                lemma_inverse_unique(
                    denominators[i as int],
                    inverse.value(),
                    inverse_of(denominators[i as int], p),
                    p,
                );
            }
            let quotient: F = dividend[i].mul(&inverse);
            dividend[i] = quotient;
            i += 1;
        }
        proof {
            assert(values(dividend@) =~= pointwise_div(numerators, denominators, p));
        }
        serial_ifft(dividend.as_mut_slice(), &omega, log_size);
        let ghost full = values(dividend@);
        proof {
            lemma_stripped(full);
        }
        while dividend.len() > 0 && dividend[dividend.len() - 1].is_zero()
            invariant
                dividend@.len() <= full.len(),
                values(dividend@) == full.subrange(0, dividend@.len() as int),
                stripped(values(dividend@)) == stripped(full),
            decreases dividend@.len(),
        {
            let ghost before = values(dividend@);
            dividend.pop();
            proof {
                assert(values(dividend@) =~= before.drop_last());
                assert(values(dividend@) =~= full.subrange(0, dividend@.len() as int));
            }
        }
        Self::from_vec(dividend)
    }

    /// The product of the factors `X - g^i` over the first `roots` powers of the generator `g`
    /// of the subgroup of order `roots` rounded up to a power of two, without trailing zeros
    /// and padded to a power-of-two length. No roots at all give the single factor `X - 1`.
    pub fn divisor_polynomial(roots: u64) -> (r: Self)
        requires
            roots <= 31,
            roots <= F::two_adicity(),
        ensures
            ({
                let g = subgroup_generator::<F>(ceil_log2(roots as nat));
                let product = divisor_product::<F>(
                    g,
                    if roots == 0 {
                        0nat
                    } else {
                        (roots - 1) as nat
                    },
                );
                r@ == padded(stripped(product), next_power_of_two(stripped(product).len()))
            }),
    {
        let ghost p = F::modulus();
        proof {
            F::lemma_parameters();
            lemma2_to64();
            lemma_ceil_log2_bounds(roots as nat);
            crate::arith::lemma_ceil_log2_le(roots as nat, 5);
        }
        let gen_base: F = Domain::<F>::root_with_order_unchecked(roots);
        let ghost g = gen_base.value();
        let mut first: Vec<F> = Vec::new();
        first.push(F::zero().sub(&F::one()));
        first.push(F::one());
        let mut polynomial: Self = Polynomial::from_vec(first);
        let mut gen: F = gen_base;
        proof {
            assert(polynomial@ =~= linear_factor(1, p));
            vstd::arithmetic::power::lemma_pow1(g);
            gen_base.lemma_value_bounds();
            lemma_small_mod(g as nat, p as nat);
            lemma_log2_pow2(1);
            assert(polynomial@.len() == pow2(1));
        }
        let mut i: u64 = 1;
        while i < roots
            invariant
                1 <= i,
                roots >= 1 ==> i <= roots,
                roots == 0 ==> i == 1,
                roots <= 31,
                roots <= F::two_adicity(),
                p == F::modulus(),
                p > 2,
                g == gen_base.value(),
                gen.value() == crate::arith::fpow(g, i as nat, p),
                polynomial@ == divisor_product::<F>(g, (i - 1) as nat),
                polynomial@.len() == pow2(i as nat),
            decreases roots - i,
        {
            let mut factor: Vec<F> = Vec::new();
            factor.push(F::zero().sub(&gen));
            factor.push(F::one());
            let new_poly: Self = Polynomial::from_vec(factor);
            proof {
                lemma2_to64();
                assert(new_poly@ =~= linear_factor(gen.value(), p));
                assert(new_poly@.len() == pow2(1));
                lemma_log2_pow2(i as nat);
                lemma_log2_pow2(1);
                crate::arith::lemma_fpow_step(g, i as nat, p);
                assert(divisor_product::<F>(g, i as nat) == poly_mul_fft::<F>(
                    divisor_product::<F>(g, (i - 1) as nat),
                    linear_factor(crate::arith::fpow(g, i as nat, p), p),
                ));
            }
            polynomial = polynomial.mul(new_poly);
            gen = gen.mul(&gen_base);
            i += 1;
        }
        proof {
            lemma2_to64();
            if i < 31 {
                lemma_pow2_strictly_increases(i as nat, 31);
            }
        }
        polynomial.pop_zeros();
        polynomial
    }

    /// The square of the polynomial, through transforms.
    pub fn square(self) -> (r: Self)
        requires
            2 * ceil_log2(self@.len()) < 32,
            2 * ceil_log2(self@.len()) <= F::two_adicity(),
        ensures
            r@ == poly_mul_fft::<F>(self@, self@),
    {
        let copy: Self = Self::from_vec(self.coefficients());
        copy.mul(self)
    }

    /// Adds the constant `w` to the polynomial.
    pub fn add_constant(&mut self, w: F)
        requires
            old(self)@.len() >= 1,
        ensures
            final(self)@ == old(self)@.update(0, fadd(old(self)@[0], w.value(), F::modulus())),
    {
        let mut coefficients: Vec<F> = self.coefficients();
        let first: F = coefficients[0].add(&w);
        coefficients[0] = first;
        assert(values(coefficients@) =~= self@.update(0, fadd(self@[0], w.value(), F::modulus())));
        *self = Self::from_vec(coefficients);
    }
}

} // verus!
