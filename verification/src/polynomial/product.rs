//! The product through transforms is the schoolbook product.

use vstd::prelude::*;
use vstd::arithmetic::div_mod::{lemma_mod_bound, lemma_mod_twice, lemma_mul_mod_noop_general};
use vstd::arithmetic::power::pow;
use vstd::arithmetic::power2::{lemma_pow2_adds, lemma_pow2_pos, pow2};
use crate::arith::{ceil_log2, fpow, lemma_ceil_log2_bounds};
use crate::domains::{lemma_generator_order, subgroup_generator};
use crate::fft::laws::lemma_intt_undoes_ntt;
use crate::fft::ntt;
use crate::fft::theorems::{
    lemma_eval_combination, lemma_eval_padded, lemma_eval_zeros, lemma_ntt_is_evaluation,
};
use crate::field::PrimeField;
use crate::polynomial::arithmetic::{
    conv, conv_upto, lemma_conv_prefix, pointwise_mul, poly_mul_fft,
};
use crate::polynomial::{canonical, coeff, lemma_eval_push, padded, poly_eval_int, zeros};

verus! {

/// The first `n` coefficients of the schoolbook product of `a` and `b`, modulo `p`.
pub open spec fn schoolbook_product(a: Seq<int>, b: Seq<int>, n: nat, p: int) -> Seq<int> {
    Seq::new(n, |k: int| conv(a, b, k) % p)
}

/// The first `n` coefficients of the schoolbook product over the integers.
pub open spec fn conv_seq(a: Seq<int>, b: Seq<int>, n: nat) -> Seq<int> {
    Seq::new(n, |k: int| conv(a, b, k))
}

/// The coefficients of `b` moved up by `s` places, in a vector of `n` entries.
pub open spec fn shifted(b: Seq<int>, s: nat, n: nat) -> Seq<int> {
    Seq::new(n, |k: int| coeff(b, k - s))
}

/// Moving the coefficients up by `s` places multiplies the value by `x^s`.
pub proof fn lemma_eval_shifted(b: Seq<int>, s: nat, n: nat, x: int)
    requires
        n >= s + b.len(),
    ensures
        poly_eval_int(shifted(b, s, n), x) == pow(x, s) * poly_eval_int(b, x),
    decreases s,
{
    reveal(pow);
    if s == 0 {
        assert(shifted(b, 0, n) =~= padded(b, n));
        lemma_eval_padded(b, n, x);
        assert(1 * poly_eval_int(b, x) == poly_eval_int(b, x));
    } else {
        let here = shifted(b, s, n);
        assert(here.drop_first() =~= shifted(b, (s - 1) as nat, (n - 1) as nat));
        lemma_eval_shifted(b, (s - 1) as nat, (n - 1) as nat, x);
        let below = pow(x, (s - 1) as nat);
        let value = poly_eval_int(b, x);
        assert(here[0] == 0);
        assert(x * (below * value) == (x * below) * value) by (nonlinear_arith);
    }
}

/// Over the integers, the value of `u + alpha * v` is the value of `u` plus `alpha` times the
/// value of `v`.
pub proof fn lemma_eval_linear(c: Seq<int>, u: Seq<int>, v: Seq<int>, alpha: int, x: int)
    requires
        c.len() == u.len(),
        c.len() == v.len(),
        forall|i: int| 0 <= i < c.len() ==> #[trigger] c[i] == u[i] + alpha * v[i],
    ensures
        poly_eval_int(c, x) == poly_eval_int(u, x) + alpha * poly_eval_int(v, x),
    decreases c.len(),
{
    if c.len() > 0 {
        let c1 = c.drop_first();
        let u1 = u.drop_first();
        let v1 = v.drop_first();
        assert forall|i: int| 0 <= i < c1.len() implies #[trigger] c1[i] == u1[i] + alpha
            * v1[i] by {
            assert(c1[i] == c[i + 1]);
        }
        lemma_eval_linear(c1, u1, v1, alpha, x);
        let uu = poly_eval_int(u1, x);
        let vv = poly_eval_int(v1, x);
        assert((u[0] + alpha * v[0]) + x * (uu + alpha * vv) == (u[0] + x * uu) + alpha * (v[0]
            + x * vv)) by (nonlinear_arith);
    } else {
        assert(alpha * 0 == 0);
    }
}

/// The value of the schoolbook product is the product of the values.
pub proof fn lemma_eval_product(a: Seq<int>, b: Seq<int>, n: nat, x: int)
    requires
        n + 1 >= a.len() + b.len(),
    ensures
        poly_eval_int(conv_seq(a, b, n), x) == poly_eval_int(a, x) * poly_eval_int(b, x),
    decreases a.len(),
{
    if a.len() == 0 {
        assert(conv_seq(a, b, n) =~= zeros(n));
        lemma_eval_zeros(n, x);
        assert(0 * poly_eval_int(b, x) == 0);
    } else {
        let front = a.drop_last();
        let last = a.last();
        let s = (a.len() - 1) as nat;
        lemma_eval_product(front, b, n, x);
        lemma_eval_shifted(b, s, n, x);
        let whole = conv_seq(a, b, n);
        let part = conv_seq(front, b, n);
        let moved = shifted(b, s, n);
        assert forall|k: int| 0 <= k < n implies #[trigger] whole[k] == part[k] + last
            * moved[k] by {
            lemma_conv_prefix(a, front, b, k, s);
            assert(conv_upto(a, b, k, a.len()) == conv_upto(a, b, k, s) + a[s as int] * coeff(
                b,
                k - s,
            ));
        }
        lemma_eval_linear(whole, part, moved, last, x);
        lemma_eval_push(front, last, x);
        assert(front.push(last) =~= a);
        let pf = poly_eval_int(front, x);
        let pb = poly_eval_int(b, x);
        let xs = pow(x, s);
        assert(pf * pb + last * (xs * pb) == (pf + last * xs) * pb) by (nonlinear_arith);
    }
}

/// Multiplying two polynomials through transforms gives their schoolbook product, padded
/// with zeros to the size of the transforms.
pub proof fn lemma_mul_is_schoolbook<F: PrimeField>(a: Seq<int>, b: Seq<int>)
    requires
        canonical(a, F::modulus()),
        canonical(b, F::modulus()),
        ceil_log2(a.len()) + ceil_log2(b.len()) <= F::two_adicity(),
    ensures
        poly_mul_fft::<F>(a, b) == schoolbook_product(
            a,
            b,
            pow2(ceil_log2(a.len()) + ceil_log2(b.len())),
            F::modulus(),
        ),
{
    F::lemma_parameters();
    let p = F::modulus();
    let la = ceil_log2(a.len());
    let lb = ceil_log2(b.len());
    let log = la + lb;
    let size = pow2(log);
    let w = subgroup_generator::<F>(log);
    lemma_generator_order::<F>(log);
    lemma_ceil_log2_bounds(a.len());
    lemma_ceil_log2_bounds(b.len());
    lemma_pow2_adds(la, lb);
    lemma_pow2_pos(la);
    lemma_pow2_pos(lb);
    assert(size + 1 >= a.len() + b.len() && size >= a.len() && size >= b.len())
        by (nonlinear_arith)
        requires
            size == pow2(la) * pow2(lb),
            a.len() <= pow2(la),
            b.len() <= pow2(lb),
            pow2(la) >= 1,
            pow2(lb) >= 1,
    ;
    let wide_a = padded(a, size);
    let wide_b = padded(b, size);
    let c = schoolbook_product(a, b, size, p);
    assert(canonical(wide_a, p));
    assert(canonical(wide_b, p));
    assert forall|k: int| 0 <= k < c.len() implies 0 <= #[trigger] c[k] < p by {
        lemma_mod_bound(conv(a, b, k), p);
    }
    let product = pointwise_mul(ntt(wide_a, w, p), ntt(wide_b, w, p), p);
    let exact = conv_seq(a, b, size);
    assert forall|i: int| 0 <= i < size implies product[i] == ntt(c, w, p)[i] by {
        let x = fpow(w, i as nat, p);
        lemma_ntt_is_evaluation(wide_a, w, p, log, i);
        lemma_ntt_is_evaluation(wide_b, w, p, log, i);
        lemma_ntt_is_evaluation(c, w, p, log, i);
        lemma_eval_padded(a, size, x);
        lemma_eval_padded(b, size, x);
        lemma_mul_mod_noop_general(poly_eval_int(a, x), poly_eval_int(b, x), p);
        assert forall|k: int| 0 <= k < c.len() implies (#[trigger] c[k]) % p == (exact[k] + 0
            * exact[k]) % p by {
            lemma_mod_twice(conv(a, b, k), p);
        }
        lemma_eval_combination(c, exact, exact, 0, x, p);
        lemma_eval_product(a, b, size, x);
        assert(0 * poly_eval_int(exact, x) == 0);
    }
    assert(product =~= ntt(c, w, p));
    lemma_intt_undoes_ntt(c, w, p, log);
}

} // verus!
