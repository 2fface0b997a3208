//! Polynomials over a prime field, held as coefficient vectors from the constant term upward.

use vstd::prelude::*;
use vstd::arithmetic::div_mod::{
    lemma_add_mod_noop, lemma_mod_twice, lemma_mul_mod_noop_general, lemma_small_mod,
};
use vstd::arithmetic::power::pow;
use vstd::arithmetic::power2::{lemma2_to64, lemma2_to64_rest, pow2};
use crate::arith::{
    ceil_log2, ceil_log2_u64, fadd, fmul, lemma_ceil_log2_bounds, lemma_ceil_log2_le,
    next_power_of_two, pow2_u64,
};
use crate::field::{values, PrimeField};

pub mod arithmetic;
pub mod division;
pub mod product;

verus! {

/// The value of the polynomial with coefficients `a` at `x`, over the integers.
pub open spec fn poly_eval_int(a: Seq<int>, x: int) -> int
    decreases a.len(),
{
    if a.len() == 0 {
        0
    } else {
        a[0] + x * poly_eval_int(a.drop_first(), x)
    }
}

/// The value of the polynomial with coefficients `a` at `x`, modulo `p`.
pub open spec fn poly_eval(a: Seq<int>, x: int, p: int) -> int {
    poly_eval_int(a, x) % p
}

/// The sum of the terms `a[i] * x^i`.
pub open spec fn power_sum(a: Seq<int>, x: int) -> int
    decreases a.len(),
{
    if a.len() == 0 {
        0
    } else {
        power_sum(a.drop_last(), x) + a.last() * pow(x, (a.len() - 1) as nat)
    }
}

/// `n` zero coefficients.
pub open spec fn zeros(n: nat) -> Seq<int> {
    Seq::new(n, |i: int| 0int)
}

/// `a` without its trailing zero coefficients.
pub open spec fn stripped(a: Seq<int>) -> Seq<int>
    decreases a.len(),
{
    if a.len() > 0 && a.last() == 0 {
        stripped(a.drop_last())
    } else {
        a
    }
}

/// `a` extended by zero coefficients to the length `n`; `a` itself if it is longer.
pub open spec fn padded(a: Seq<int>, n: nat) -> Seq<int> {
    if n >= a.len() {
        a + zeros((n - a.len()) as nat)
    } else {
        a
    }
}

/// The coefficient of `x^i`, zero beyond the vector.
pub open spec fn coeff(a: Seq<int>, i: int) -> int {
    if 0 <= i < a.len() {
        a[i]
    } else {
        0
    }
}

/// Every entry is a canonical residue modulo `p`.
pub open spec fn canonical(a: Seq<int>, p: int) -> bool {
    forall|i: int| 0 <= i < a.len() ==> 0 <= #[trigger] a[i] < p
}

/// The residues of field elements are canonical.
pub proof fn lemma_values_canonical<F: PrimeField>(s: Seq<F>)
    ensures
        canonical(values(s), F::modulus()),
{
    assert forall|i: int| 0 <= i < s.len() implies 0 <= #[trigger] values(s)[i] < F::modulus() by {
        s[i].lemma_value_bounds();
    }
}

/// One step of Horner's rule on residues follows the integer recursion.
pub proof fn lemma_horner_step(rest: int, acc: int, x: int, c: int, p: int)
    requires
        p > 0,
        acc == rest % p,
    ensures
        fadd(fmul(acc, x, p), c, p) == (c + x * rest) % p,
{
    lemma_mul_mod_noop_general(rest, x, p);
    lemma_mod_twice(rest, p);
    assert(fmul(acc, x, p) == (rest * x) % p);
    lemma_add_mod_noop((rest * x) % p, c, p);
    lemma_add_mod_noop(rest * x, c, p);
    lemma_mod_twice(rest * x, p);
    vstd::arithmetic::mul::lemma_mul_is_commutative(rest, x);
}

/// Stripping leaves no trailing zero and changes nothing before the new end.
pub proof fn lemma_stripped(a: Seq<int>)
    ensures
        stripped(a).len() <= a.len(),
        stripped(a) == a.subrange(0, stripped(a).len() as int),
        stripped(a).len() > 0 ==> stripped(a).last() != 0,
        forall|i: int| stripped(a).len() <= i < a.len() ==> a[i] == 0,
    decreases a.len(),
{
    if a.len() > 0 && a.last() == 0 {
        lemma_stripped(a.drop_last());
        let s = stripped(a);
        assert(s =~= a.subrange(0, s.len() as int));
        assert forall|i: int| s.len() <= i < a.len() implies a[i] == 0 by {
            if i < a.len() - 1 {
                assert(a.drop_last()[i] == a[i]);
            }
        }
    } else {
        assert(a =~= a.subrange(0, a.len() as int));
    }
}

/// One more coefficient adds one more term.
pub proof fn lemma_eval_push(a: Seq<int>, c: int, x: int)
    ensures
        poly_eval_int(a.push(c), x) == poly_eval_int(a, x) + c * pow(x, a.len()),
    decreases a.len(),
{
    reveal(pow);
    if a.len() == 0 {
        assert(a.push(c).drop_first() =~= Seq::<int>::empty());
        assert(poly_eval_int(a.push(c).drop_first(), x) == 0);
        assert(a.push(c)[0] == c);
        assert(poly_eval_int(a.push(c), x) == c + x * 0);
        assert(x * 0 == 0);
        assert(c * 1 == c);
    } else {
        lemma_eval_push(a.drop_first(), c, x);
        assert(a.push(c).drop_first() =~= a.drop_first().push(c));
        let rest = poly_eval_int(a.drop_first(), x);
        let top = pow(x, (a.len() - 1) as nat);
        assert(pow(x, a.len()) == x * top);
        assert(x * (rest + c * top) == x * rest + c * (x * top)) by (nonlinear_arith);
    }
}

/// The value of a polynomial is the sum of its terms `a[i] * x^i`.
pub proof fn lemma_eval_is_power_sum(a: Seq<int>, x: int)
    ensures
        poly_eval_int(a, x) == power_sum(a, x),
    decreases a.len(),
{
    if a.len() > 0 {
        lemma_eval_is_power_sum(a.drop_last(), x);
        lemma_eval_push(a.drop_last(), a.last(), x);
        assert(a.drop_last().push(a.last()) =~= a);
    }
}

/// A vector of `n` zero elements.
pub fn zero_vec<F: PrimeField>(n: usize) -> (v: Vec<F>)
    ensures
        values(v@) == zeros(n as nat),
        v@.len() == n,
{
    let mut v: Vec<F> = Vec::new();
    let mut i: usize = 0;
    while i < n
        invariant
            i <= n,
            v@.len() == i,
            forall|t: int| 0 <= t < i ==> (#[trigger] v@[t]).value() == 0,
        decreases n - i,
    {
        v.push(F::zero());
        i += 1;
    }
    assert(values(v@) =~= zeros(n as nat));
    v
}

/// A polynomial: its coefficient vector, the constant term first. The protocols of this crate
/// work on vectors whose length is a power of two, padded with zero coefficients.
#[derive(Debug)]
pub struct Polynomial<F: PrimeField>(Vec<F>);

impl<F: PrimeField> View for Polynomial<F> {
    type V = Seq<int>;

    /// The residues of the coefficients.
    closed spec fn view(&self) -> Seq<int> {
        values(self.0@)
    }
}

impl<F: PrimeField> Clone for Polynomial<F> {
    /// A polynomial with the same coefficients.
    fn clone(&self) -> (r: Self)
        ensures
            r@ == self@,
    {
        Self(self.coefficients())
    }
}

impl<F: PrimeField> Polynomial<F> {
    /// The polynomial with the coefficients `v`.
    pub fn from_vec(v: Vec<F>) -> (r: Self)
        ensures
            r@ == values(v@),
    {
        Self(v)
    }

    /// The polynomial with the coefficients `v`.
    pub fn from_coefficients(v: Vec<F>) -> (r: Self)
        ensures
            r@ == values(v@),
    {
        Self(v)
    }

    /// The coefficients are canonical residues.
    pub proof fn lemma_canonical(&self)
        ensures
            canonical(self@, F::modulus()),
    {
        lemma_values_canonical(self.0@);
    }

    /// The value at `point`, by Horner's rule from the leading coefficient downward.
    pub fn eval_single(&self, point: &F) -> (r: F)
        requires
            self@.len() >= 1,
        ensures
            r.value() == poly_eval(self@, point.value(), F::modulus()),
    {
        let n: usize = self.0.len();
        let ghost p = F::modulus();
        let ghost x = point.value();
        let ghost a = self@;
        let mut result: F = self.leading_coefficient();
        let mut i: usize = n - 1;
        proof {
            F::lemma_parameters();
            result.lemma_value_bounds();
            lemma_small_mod(result.value() as nat, p as nat);
            let tail = a.subrange(n - 1, n as int);
            assert(tail.drop_first() =~= Seq::<int>::empty());
            assert(poly_eval_int(tail.drop_first(), x) == 0);
            assert(poly_eval_int(tail, x) == a[n - 1] + x * 0);
        }
        while i > 0
            invariant
                i < n,
                n == self.0@.len(),
                a == self@,
                a.len() == n,
                p == F::modulus(),
                p > 2,
                x == point.value(),
                result.value() == poly_eval(a.subrange(i as int, n as int), x, p),
            decreases i,
        {
            proof {
                let tail = a.subrange(i - 1, n as int);
                assert(tail.drop_first() =~= a.subrange(i as int, n as int));
                lemma_horner_step(
                    poly_eval_int(a.subrange(i as int, n as int), x),
                    result.value(),
                    x,
                    a[i - 1],
                    p,
                );
            }
            i -= 1;
            result = result.mul(point).add(&self.0[i]);
        }
        proof {
            assert(a.subrange(0, n as int) =~= a);
        }
        result
    }

    /// Removes the trailing zero coefficients, then pads with zeros up to the next power of
    /// two. The zero polynomial becomes the single coefficient zero.
    pub fn pop_zeros(&mut self)
        requires
            old(self)@.len() <= 0x8000_0000,
        ensures
            final(self)@ == padded(
                stripped(old(self)@),
                next_power_of_two(stripped(old(self)@).len()),
            ),
    {
        let ghost a = self@;
        proof {
            lemma_stripped(a);
        }
        let mut n: usize = self.0.len();
        while n > 0 && self.0[n - 1].is_zero()
            invariant
                n == self.0@.len(),
                n <= a.len(),
                self@ == a.subrange(0, n as int),
                stripped(a) == stripped(self@),
            decreases n,
        {
            self.0.pop();
            n -= 1;
            proof {
                let before = a.subrange(0, n + 1);
                assert(before.drop_last() =~= a.subrange(0, n as int));
                assert(self@ =~= a.subrange(0, n as int));
            }
        }
        proof {
            lemma2_to64();
            lemma2_to64_rest();
            lemma_ceil_log2_le(n as nat, 31);
            lemma_ceil_log2_bounds(n as nat);
            if ceil_log2(n as nat) < 31 {
                vstd::arithmetic::power2::lemma_pow2_strictly_increases(ceil_log2(n as nat), 31);
            }
        }
        let target: u64 = pow2_u64(ceil_log2_u64(n as u64));
        let ghost short = self@;
        let mut extension: Vec<F> = zero_vec((target as usize) - n);
        self.0.append(&mut extension);
        proof {
            assert(self@ =~= padded(short, target as nat));
        }
    }

    /// The polynomial `X^roots - 1`, padded with zeros to the next power of two.
    pub fn vanishing_polynomial(roots: u128) -> (r: Self)
        requires
            1 <= roots < 0x8000_0000,
        ensures
            r@ == padded(
                seq![F::modulus() - 1] + zeros((roots - 1) as nat) + seq![1int],
                next_power_of_two((roots + 1) as nat),
            ),
    {
        let mut v: Vec<F> = Vec::new();
        v.push(F::zero().sub(&F::one()));
        let mut middle: Vec<F> = zero_vec((roots - 1) as usize);
        v.append(&mut middle);
        v.push(F::one());
        let ghost core = values(v@);
        proof {
            F::lemma_parameters();
            vstd::arithmetic::div_mod::lemma_mod_add_multiples_vanish(-1, F::modulus());
            lemma_small_mod((F::modulus() - 1) as nat, F::modulus() as nat);
            assert(core =~= seq![F::modulus() - 1] + zeros((roots - 1) as nat) + seq![1int]);
            lemma2_to64();
            lemma2_to64_rest();
            lemma_ceil_log2_le((roots + 1) as nat, 31);
            lemma_ceil_log2_bounds((roots + 1) as nat);
            if ceil_log2((roots + 1) as nat) < 31 {
                vstd::arithmetic::power2::lemma_pow2_strictly_increases(
                    ceil_log2((roots + 1) as nat),
                    31,
                );
            }
        }
        let len: usize = v.len();
        let target: u64 = pow2_u64(ceil_log2_u64(len as u64));
        let mut additional_zeros: Vec<F> = zero_vec((target as usize) - len);
        v.append(&mut additional_zeros);
        proof {
            assert(values(v@) =~= padded(core, target as nat));
        }
        Self::from_vec(v)
    }

    /// Extends the vector by zero coefficients to the length `2^new_base`, which must exceed
    /// the present length.
    pub fn pad_to_base(&mut self, new_base: usize)
        requires
            new_base < 32,
            pow2(new_base as nat) > old(self)@.len(),
        ensures
            final(self)@ == padded(old(self)@, pow2(new_base as nat)),
    {
        proof {
            lemma2_to64();
            if new_base < 31 {
                vstd::arithmetic::power2::lemma_pow2_strictly_increases(new_base as nat, 31);
            }
        }
        let size: u64 = pow2_u64(new_base as u32);
        let ghost short = self@;
        let mut extension: Vec<F> = zero_vec((size as usize) - self.0.len());
        self.0.append(&mut extension);
        proof {
            assert(self@ =~= padded(short, size as nat));
        }
    }

    /// A copy of the coefficient vector.
    pub fn coefficients(&self) -> (v: Vec<F>)
        ensures
            values(v@) == self@,
            v@.len() == self@.len(),
    {
        let mut v: Vec<F> = Vec::new();
        let n: usize = self.0.len();
        let mut i: usize = 0;
        while i < n
            invariant
                i <= n,
                n == self.0@.len(),
                v@.len() == i,
                forall|t: int| 0 <= t < i ==> (#[trigger] v@[t]).value() == self.0@[t].value(),
            decreases n - i,
        {
            v.push(self.0[i]);
            i += 1;
        }
        assert(values(v@) =~= self@);
        v
    }

    /// The last coefficient of the vector.
    pub fn leading_coefficient(&self) -> (r: F)
        requires
            self@.len() >= 1,
        ensures
            r.value() == self@.last(),
    {
        let index: usize = self.0.len();
        self.0[index - 1]
    }

    /// The coefficient of `X^index`.
    pub fn coefficient_at(&self, index: usize) -> (r: F)
        requires
            index < self@.len(),
        ensures
            r.value() == self@[index as int],
    {
        self.0[index]
    }

    /// The length of the coefficient vector.
    pub fn len(&self) -> (r: usize)
        ensures
            r == self@.len(),
    {
        self.0.len()
    }

    /// The value at `x`, term by term from the constant term upward.
    pub fn eval_at_naive(&self, x: &F) -> (r: F)
        requires
            self@.len() >= 1,
        ensures
            r.value() == poly_eval(self@, x.value(), F::modulus()),
    {
        let n: usize = self.0.len();
        let ghost p = F::modulus();
        let ghost a = self@;
        let mut e: F = *x;
        let mut ret: F = self.0[0];
        proof {
            F::lemma_parameters();
            ret.lemma_value_bounds();
            x.lemma_value_bounds();
            lemma_small_mod(ret.value() as nat, p as nat);
            lemma_small_mod(x.value() as nat, p as nat);
            vstd::arithmetic::power::lemma_pow1(x.value());
            let first = a.subrange(0, 1);
            assert(first.drop_first() =~= Seq::<int>::empty());
            assert(poly_eval_int(first.drop_first(), x.value()) == 0);
            assert(first[0] == a[0]);
            assert(poly_eval_int(first, x.value()) == a[0] + x.value() * 0);
        }
        let mut i: usize = 1;
        while i < n
            invariant
                1 <= i <= n,
                n == self.0@.len(),
                a == self@,
                p == F::modulus(),
                p > 2,
                ret.value() == poly_eval(a.subrange(0, i as int), x.value(), p),
                e.value() == crate::arith::fpow(x.value(), i as nat, p),
            decreases n - i,
        {
            proof {
                let before = a.subrange(0, i as int);
                assert(a.subrange(0, i + 1) =~= before.push(a[i as int]));
                lemma_eval_push(before, a[i as int], x.value());
                let term = pow(x.value(), i as nat);
                lemma_mul_mod_noop_general(term, a[i as int], p);
                self.0@[i as int].lemma_value_bounds();
                lemma_small_mod(a[i as int] as nat, p as nat);
                lemma_add_mod_noop(poly_eval_int(before, x.value()), term * a[i as int], p);
                lemma_mod_twice(poly_eval_int(before, x.value()), p);
                lemma_add_mod_noop(
                    poly_eval_int(before, x.value()) % p,
                    (term * a[i as int]) % p,
                    p,
                );
                lemma_mod_twice(term * a[i as int], p);
                vstd::arithmetic::mul::lemma_mul_is_commutative(term, a[i as int]);
                crate::arith::lemma_fpow_step(x.value(), i as nat, p);
            }
            ret = ret.add(&e.mul(&self.0[i]));
            e = e.mul(x);
            i += 1;
        }
        proof {
            assert(a.subrange(0, n as int) =~= a);
        }
        ret
    }

    /// The exponent of the least power of two that is at least the length.
    pub fn log_n(&self) -> (r: usize)
        ensures
            r == ceil_log2(self@.len()),
    {
        ceil_log2_u64(self.0.len() as u64) as usize
    }
}

} // verus!
