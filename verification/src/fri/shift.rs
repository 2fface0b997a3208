//! The witness of an evaluation: the quotient of `f - f(r)` by `x - r`.

use vstd::prelude::*;
use vstd::arithmetic::div_mod::{
    lemma_add_mod_noop, lemma_mod_twice, lemma_mul_mod_noop_general, lemma_small_mod,
    lemma_sub_mod_noop,
};
use vstd::arithmetic::power2::{lemma2_to64, lemma_pow2_strictly_increases, lemma_pow2_unfold, pow2};
use crate::arith::{ceil_log2, fneg, lemma_ceil_log2_bounds, lemma_ceil_log2_le, next_power_of_two};
use crate::field::{values, PrimeField};
use crate::polynomial::arithmetic::{conv, conv_upto, division_holds};
use crate::polynomial::{canonical, coeff, padded, poly_eval, poly_eval_int, stripped, Polynomial};

verus! {

/// The coefficients of `a` from `x^k` upward; nothing beyond the end.
pub open spec fn tail(a: Seq<int>, k: int) -> Seq<int> {
    if 0 <= k < a.len() {
        a.subrange(k, a.len() as int)
    } else {
        Seq::empty()
    }
}

/// The quotient of the polynomial `a` by `X - x`, padded with zeros to a power-of-two length:
/// its coefficient of `X^i` is the value at `x` of the polynomial made of the coefficients
/// of `a` above `X^i`. A polynomial of fewer than two coefficients has the empty quotient.
pub open spec fn shift_spec(a: Seq<int>, x: int, p: int) -> Seq<int> {
    if a.len() < 2 {
        Seq::empty()
    } else {
        padded(
            Seq::new((a.len() - 1) as nat, |i: int| poly_eval(tail(a, i + 1), x, p)),
            next_power_of_two((a.len() - 1) as nat),
        )
    }
}

/// A vector of `2^k` coefficients, `k >= 1`, has a quotient by a linear factor of as many
/// coefficients, unless `k == 1`, where the quotient is a constant.
pub proof fn lemma_shift_len(a: Seq<int>, x: int, p: int, k: nat)
    requires
        a.len() == pow2(k),
        k >= 1,
    ensures
        k >= 2 ==> shift_spec(a, x, p).len() == a.len(),
        k == 1 ==> shift_spec(a, x, p).len() == 1,
{
    lemma2_to64();
    lemma_pow2_unfold(k);
    vstd::arithmetic::power2::lemma_pow2_pos((k - 1) as nat);
    let m = (a.len() - 1) as nat;
    lemma_ceil_log2_le(m, k);
    lemma_ceil_log2_bounds(m);
    if k >= 2 {
        lemma_pow2_unfold((k - 1) as nat);
        if ceil_log2(m) < k {
            if ceil_log2(m) < k - 1 {
                lemma_pow2_strictly_increases(ceil_log2(m), (k - 1) as nat);
            }
            assert(m <= pow2((k - 1) as nat));
        }
    }
}

/// The product with a linear factor `d0 + X` has two terms at each power.
pub proof fn lemma_conv_linear(q: Seq<int>, d0: int, k: int, m: nat)
    requires
        m <= q.len(),
    ensures
        conv_upto(q, seq![d0, 1int], k, m) == (if 0 <= k < m {
            q[k] * d0
        } else {
            0
        }) + (if 1 <= k <= m {
            q[k - 1]
        } else {
            0
        }),
    decreases m,
{
    if m > 0 {
        lemma_conv_linear(q, d0, k, (m - 1) as nat);
        let d = seq![d0, 1int];
        let j = k - (m - 1);
        if j == 0 {
            assert(coeff(d, j) == d0);
        } else if j == 1 {
            assert(coeff(d, j) == 1);
            assert(q[m - 1] * 1 == q[m - 1]);
        } else {
            assert(coeff(d, j) == 0);
            assert(q[m - 1] * 0 == 0);
        }
    }
}

/// From `c == (b + q) % p` with a canonical `q`, and `b` congruent to `-x * t`, the residue
/// `q` is `(c + x * t) % p`.
proof fn lemma_solve_for_quotient(c: int, q: int, top: int, d0: int, x: int, t: int, p: int)
    requires
        p > 0,
        0 <= q < p,
        d0 == (-x) % p,
        top == t % p,
        c % p == (top * d0 + q) % p,
    ensures
        q == (c + x * t) % p,
{
    lemma_mul_mod_noop_general(t, -x, p);
    lemma_mod_twice(-x, p);
    assert((top * d0) % p == (t * (-x)) % p);
    lemma_add_mod_noop(top * d0, q, p);
    lemma_add_mod_noop(t * (-x), q, p);
    assert(c % p == (t * (-x) + q) % p);
    // add x * t on both sides
    lemma_add_mod_noop(c, x * t, p);
    lemma_add_mod_noop(t * (-x) + q, x * t, p);
    assert(t * (-x) + q + x * t == q) by (nonlinear_arith);
    lemma_small_mod(q as nat, p as nat);
}

/// In a division by `X - x` with a remainder of at most one coefficient, the quotient's
/// coefficient of `X^(k-1)` is the value at `x` of the dividend's coefficients from `X^k` upward.
pub proof fn lemma_linear_quotient(
    a: Seq<int>,
    q: Seq<int>,
    rem: Seq<int>,
    x: int,
    p: int,
    k: int,
)
    requires
        p > 1,
        canonical(a, p),
        canonical(q, p),
        rem.len() <= 1,
        q.len() + 1 >= a.len(),
        division_holds(a, q, seq![(-x) % p, 1int], rem, p),
        1 <= k <= q.len(),
    ensures
        q[k - 1] == poly_eval(tail(a, k), x, p),
    decreases q.len() - k,
{
    let d0 = (-x) % p;
    let d = seq![d0, 1int];
    lemma_conv_linear(q, d0, k, q.len());
    assert(coeff(a, k) == (conv(q, d, k) + coeff(rem, k)) % p);
    assert(coeff(rem, k) == 0);
    let t = poly_eval_int(tail(a, k + 1), x);
    let top = if k < q.len() {
        q[k]
    } else {
        0
    };
    if k < q.len() {
        lemma_linear_quotient(a, q, rem, x, p, k + 1);
    } else {
        assert(tail(a, k + 1) =~= Seq::<int>::empty());
        lemma_small_mod(0, p as nat);
    }
    assert(top == t % p);
    assert(conv(q, d, k) == top * d0 + q[k - 1]);
    let c = coeff(a, k);
    lemma_small_mod(c as nat, p as nat);
    lemma_solve_for_quotient(c, q[k - 1], top, d0, x, t, p);
    if k < a.len() {
        assert(tail(a, k).drop_first() =~= tail(a, k + 1));
        assert(poly_eval_int(tail(a, k), x) == a[k] + x * t);
    } else {
        assert(tail(a, k) =~= Seq::<int>::empty());
        assert(tail(a, k + 1) =~= Seq::<int>::empty());
        assert(x * 0 == 0);
    }
}

impl<F: PrimeField> Polynomial<F> {
    /// The quotient `w` of `f - f(r)` by `X - r`, by long division: `w * (X - r) + f(r) == f`.
    pub fn shift_polynomial(&self, r: F) -> (w: Self)
        requires
            1 <= self@.len() <= 0x8000_0000,
        ensures
            w@ == shift_spec(self@, r.value(), F::modulus()),
            division_holds(
                self@,
                w@,
                seq![fneg(r.value(), F::modulus()), 1int],
                seq![poly_eval(self@, r.value(), F::modulus())],
                F::modulus(),
            ),
    {
        let ghost p = F::modulus();
        let ghost a = self@;
        let ghost x = r.value();
        let eval: F = self.eval_single(&r);
        let numerator: Self = self.sub_constant(eval);
        let mut linear: Vec<F> = Vec::new();
        linear.push(F::zero().sub(&r));
        linear.push(F::one());
        let denominator: Self = Polynomial::from_vec(linear);
        let ghost d = seq![(-x) % p, 1int];
        proof {
            F::lemma_parameters();
            assert(denominator@ =~= d);
            assert(stripped(d) == d);
            lemma_small_mod(1, p as nat);
        }
        let (w_x, remainder) = numerator.long_division(&denominator);
        proof {
            let b = numerator@;
            let q = w_x@;
            let rem = values(remainder@);
            let fx = poly_eval(a, x, p);
            let n = a.len();
            self.lemma_canonical();
            numerator.lemma_canonical();
            w_x.lemma_canonical();
            crate::polynomial::lemma_values_canonical(remainder@);
            crate::polynomial::lemma_stripped(rem);
            if n >= 2 {
                lemma_ceil_log2_bounds((n - 1) as nat);
                assert forall|i: int| 0 <= i < q.len() implies q[i] == shift_spec(a, x, p)[i] by {
                    lemma_linear_quotient(b, q, rem, x, p, i + 1);
                    if i + 1 < n {
                        assert(tail(b, i + 1) =~= tail(a, i + 1));
                    } else {
                        lemma_small_mod(0, p as nat);
                    }
                }
                assert(q =~= shift_spec(a, x, p));
            }
            // the remainder vanishes, and the constant goes back to the right-hand side
            assert forall|k: int| #[trigger]
                coeff(a, k) == (conv(q, d, k) + coeff(seq![fx], k)) % p by {
                assert(coeff(b, k) == (conv(q, d, k) + coeff(rem, k)) % p);
                lemma_conv_linear(q, (-x) % p, k, q.len());
                if k == 0 {
                    let t = poly_eval_int(tail(a, 1), x);
                    let top = if q.len() > 0 {
                        q[0]
                    } else {
                        0
                    };
                    if q.len() > 0 {
                        lemma_linear_quotient(b, q, rem, x, p, 1);
                        assert(tail(b, 1) =~= tail(a, 1));
                    } else {
                        assert(tail(a, 1) =~= Seq::<int>::empty());
                        lemma_small_mod(0, p as nat);
                    }
                    assert(top == t % p);
                    assert(a.drop_first() =~= tail(a, 1));
                    assert(poly_eval_int(a, x) == a[0] + x * t);
                    let r0 = coeff(rem, 0);
                    assert(conv(q, d, 0) == top * ((-x) % p));
                    lemma_small_mod(b[0] as nat, p as nat);
                    lemma_solve_for_quotient(b[0], r0, top, (-x) % p, x, t, p);
                    // r0 == (a[0] - fx + x * t) % p == 0
                    lemma_sub_mod_noop(a[0], fx, p);
                    lemma_add_mod_noop(a[0] - fx, x * t, p);
                    lemma_add_mod_noop(b[0], x * t, p);
                    lemma_mod_twice(a[0] - fx, p);
                    lemma_sub_mod_noop(a[0] + x * t, fx, p);
                    lemma_mod_twice(a[0] + x * t, p);
                    assert(a[0] - fx + x * t == a[0] + x * t - fx);
                    assert(r0 == 0);
                    // a[0] == (conv + fx) % p
                    lemma_add_mod_noop(conv(q, d, 0), fx, p);
                    lemma_add_mod_noop(b[0], fx, p);
                    lemma_add_mod_noop(a[0] - fx, fx, p);
                    lemma_small_mod(a[0] as nat, p as nat);
                }
            }
        }
        w_x
    }
}

} // verus!
