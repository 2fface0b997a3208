//! What the transform computes: for a root of unity of the right order, the values of the
//! polynomial at the powers of the root.

use vstd::prelude::*;
use vstd::arithmetic::div_mod::{
    lemma_add_mod_noop, lemma_mod_multiples_vanish, lemma_mod_twice,
    lemma_mul_mod_noop_general, lemma_small_mod, lemma_sub_mod_noop,
};
use vstd::arithmetic::mul::lemma_mul_is_commutative;
use vstd::arithmetic::power::lemma_square_is_pow2;
use vstd::arithmetic::power2::{lemma2_to64, lemma_pow2_pos, lemma_pow2_unfold, pow2};
use crate::arith::{
    fadd, fmul, fpow, fsub, lemma_fadd_congruent, lemma_fmul_congruent, lemma_fpow_add,
    lemma_fpow_double, lemma_fpow_mul,
};
use crate::fft::{evens, ntt, odds};
use crate::polynomial::{canonical, padded, poly_eval, poly_eval_int, zeros};

verus! {

/// A polynomial is the sum of its even part at `x^2` and `x` times its odd part at `x^2`.
pub proof fn lemma_eval_even_odd(a: Seq<int>, x: int)
    requires
        a.len() % 2 == 0,
    ensures
        poly_eval_int(a, x) == poly_eval_int(evens(a), x * x) + x * poly_eval_int(odds(a), x * x),
    decreases a.len(),
{
    if a.len() == 0 {
        assert(evens(a).len() == 0);
        assert(odds(a).len() == 0);
    } else {
        let rest = a.subrange(2, a.len() as int);
        lemma_eval_even_odd(rest, x);
        let y = x * x;
        assert(a.drop_first().drop_first() =~= rest);
        assert(evens(a).drop_first() =~= evens(rest));
        assert(odds(a).drop_first() =~= odds(rest));
        let r = poly_eval_int(rest, x);
        let e = poly_eval_int(evens(rest), y);
        let o = poly_eval_int(odds(rest), y);
        assert(poly_eval_int(a.drop_first(), x) == a[1] + x * r);
        assert(poly_eval_int(a, x) == a[0] + x * (a[1] + x * r));
        assert(poly_eval_int(evens(a), y) == a[0] + y * e);
        assert(poly_eval_int(odds(a), y) == a[1] + y * o);
        assert(a[0] + x * (a[1] + x * r) == (a[0] + y * e) + x * (a[1] + y * o))
            by (nonlinear_arith)
            requires
                r == e + x * o,
                y == x * x,
        ;
    }
}

/// The value modulo `p` depends on the point only through its residue.
pub proof fn lemma_eval_congruent(a: Seq<int>, x: int, y: int, p: int)
    requires
        p > 0,
        x % p == y % p,
    ensures
        poly_eval(a, x, p) == poly_eval(a, y, p),
    decreases a.len(),
{
    if a.len() > 0 {
        lemma_eval_congruent(a.drop_first(), x, y, p);
        let rx = poly_eval_int(a.drop_first(), x);
        let ry = poly_eval_int(a.drop_first(), y);
        lemma_fmul_congruent(x, y, rx, ry, p);
        lemma_fadd_congruent(a[0], a[0], x * rx, y * ry, p);
    }
}

/// Zero coefficients at the end do not change the value.
pub proof fn lemma_eval_padded(a: Seq<int>, n: nat, x: int)
    ensures
        poly_eval_int(padded(a, n), x) == poly_eval_int(a, x),
    decreases a.len(),
{
    if n >= a.len() {
        if a.len() == 0 {
            lemma_eval_zeros(n, x);
            assert(padded(a, n) =~= zeros(n));
        } else {
            lemma_eval_padded(a.drop_first(), (n - 1) as nat, x);
            assert(padded(a, n).drop_first() =~= padded(a.drop_first(), (n - 1) as nat));
        }
    }
}

/// The zero polynomial has the value zero.
pub proof fn lemma_eval_zeros(n: nat, x: int)
    ensures
        poly_eval_int(zeros(n), x) == 0,
    decreases n,
{
    if n > 0 {
        lemma_eval_zeros((n - 1) as nat, x);
        assert(zeros(n).drop_first() =~= zeros((n - 1) as nat));
        assert(x * 0 == 0);
    }
}

/// The sum `e + o * w` on residues is the residue of the sum on integers.
proof fn lemma_butterfly_sum(e: int, o: int, w: int, p: int)
    requires
        p > 0,
    ensures
        fadd(e % p, fmul(o % p, w, p), p) == (e + w * o) % p,
        fsub(e % p, fmul(o % p, w, p), p) == (e - w * o) % p,
{
    lemma_mul_mod_noop_general(o, w, p);
    lemma_mul_is_commutative(o, w);
    assert(fmul(o % p, w, p) == (w * o) % p);
    lemma_add_mod_noop(e, w * o, p);
    lemma_sub_mod_noop(e, w * o, p);
}

/// For a root `w` whose `2^(k-1)`-th power is minus one, the transform of `2^k` coefficients
/// holds the values of the polynomial at the powers of `w`.
pub proof fn lemma_ntt_is_evaluation(a: Seq<int>, w: int, p: int, k: nat, i: int)
    requires
        p > 1,
        a.len() == pow2(k),
        canonical(a, p),
        k >= 1 ==> fpow(w, pow2((k - 1) as nat), p) == p - 1,
        0 <= i < a.len(),
    ensures
        ntt(a, w, p)[i] == poly_eval(a, fpow(w, i as nat, p), p),
    decreases k,
{
    lemma2_to64();
    if k == 0 {
        assert(a.drop_first() =~= Seq::<int>::empty());
        let x = fpow(w, 0, p);
        assert(poly_eval_int(a, x) == a[0] + x * poly_eval_int(a.drop_first(), x));
        assert(x * 0 == 0);
        lemma_small_mod(a[0] as nat, p as nat);
    } else {
        let h = pow2((k - 1) as nat) as int;
        lemma_pow2_unfold(k);
        lemma_pow2_pos((k - 1) as nat);
        let w2 = fmul(w, w, p);
        let ev = evens(a);
        let od = odds(a);
        let j = if i < h {
            i
        } else {
            i - h
        };
        // the half-size transforms are evaluations at the powers of the squared root
        lemma_square_is_pow2(w);
        assert(w2 == fpow(w, 2, p));
        if k >= 2 {
            lemma_pow2_unfold((k - 1) as nat);
            lemma_fpow_mul(w, 2, pow2((k - 2) as nat), p);
        }
        lemma_ntt_is_evaluation(ev, w2, p, (k - 1) as nat, j);
        lemma_ntt_is_evaluation(od, w2, p, (k - 1) as nat, j);
        let wj = fpow(w, j as nat, p);
        lemma_fpow_mul(w, 2, j as nat, p);
        lemma_fpow_double(w, j as nat, p);
        let sq = fpow(w2, j as nat, p);
        assert(sq == fmul(wj, wj, p));
        let e_int = poly_eval_int(ev, wj * wj);
        let o_int = poly_eval_int(od, wj * wj);
        lemma_mod_twice(wj * wj, p);
        lemma_eval_congruent(ev, sq, wj * wj, p);
        lemma_eval_congruent(od, sq, wj * wj, p);
        assert(ntt(ev, w2, p)[j] == e_int % p);
        assert(ntt(od, w2, p)[j] == o_int % p);
        lemma_butterfly_sum(e_int, o_int, wj, p);
        if i < h {
            lemma_eval_even_odd(a, wj);
        } else {
            // the point is the negative of the j-th power
            lemma_fpow_add(w, j as nat, h as nat, p);
            let x = fpow(w, i as nat, p);
            assert(x == fmul(wj, p - 1, p));
            assert(wj * (p - 1) == (-wj) + wj * p) by (nonlinear_arith);
            lemma_mod_multiples_vanish(wj, -wj, p);
            lemma_mul_is_commutative(wj, p);
            assert(x == (-wj) % p);
            lemma_mod_twice(-wj, p);
            lemma_eval_congruent(a, x, -wj, p);
            lemma_eval_even_odd(a, -wj);
            assert((-wj) * (-wj) == wj * wj) by (nonlinear_arith);
            assert((-wj) * o_int == -(wj * o_int)) by (nonlinear_arith);
        }
    }
}

/// The value of an entry-wise combination `u + alpha * v` is the combination of the values.
pub proof fn lemma_eval_combination(
    c: Seq<int>,
    u: Seq<int>,
    v: Seq<int>,
    alpha: int,
    y: int,
    p: int,
)
    requires
        p > 0,
        c.len() == u.len(),
        c.len() == v.len(),
        forall|i: int| 0 <= i < c.len() ==> (#[trigger] c[i]) % p == (u[i] + alpha * v[i]) % p,
    ensures
        poly_eval_int(c, y) % p == (poly_eval_int(u, y) + alpha * poly_eval_int(v, y)) % p,
    decreases c.len(),
{
    if c.len() > 0 {
        let c1 = c.drop_first();
        let u1 = u.drop_first();
        let v1 = v.drop_first();
        assert forall|i: int| 0 <= i < c1.len() implies (#[trigger] c1[i]) % p == (u1[i] + alpha
            * v1[i]) % p by {
            assert(c1[i] == c[i + 1]);
        }
        lemma_eval_combination(c1, u1, v1, alpha, y, p);
        let cc = poly_eval_int(c1, y);
        let uu = poly_eval_int(u1, y);
        let vv = poly_eval_int(v1, y);
        lemma_fmul_congruent(y, y, cc, uu + alpha * vv, p);
        lemma_fadd_congruent(c[0], u[0] + alpha * v[0], y * cc, y * (uu + alpha * vv), p);
        assert((u[0] + alpha * v[0]) + y * (uu + alpha * vv) == (u[0] + y * uu) + alpha * (v[0]
            + y * vv)) by (nonlinear_arith);
    }
}

} // verus!
