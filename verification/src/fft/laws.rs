//! Laws of the transform: linearity, and the inverse transform undoing the transform.

use vstd::prelude::*;
use vstd::arithmetic::div_mod::{
    lemma_mod_add_multiples_vanish, lemma_mod_bound, lemma_mod_twice, lemma_mul_mod_noop_left,
    lemma_mul_mod_noop_right, lemma_small_mod,
};
use vstd::arithmetic::power::{lemma_square_is_pow2, pow};
use vstd::arithmetic::power2::{lemma2_to64, lemma_pow2_pos, lemma_pow2_unfold, pow2};
use crate::arith::{
    fadd, fmul, fpow, fsub, is_inverse, lemma_fadd_congruent, lemma_fmul_assoc,
    lemma_fmul_congruent, lemma_fpow_mul, lemma_fpow_pow2_step, lemma_fpow_step,
    lemma_fsub_congruent, lemma_inverse_mul, lemma_inverse_power, lemma_inverse_unique,
    lemma_minus_one_powers, lemma_pow2_is_unit, lemma_root_of_one_is_unit, lemma_unit_cancels,
    lemma_unit_mul,
};
use crate::fft::theorems::{lemma_eval_combination, lemma_eval_congruent, lemma_ntt_is_evaluation};
use crate::fft::{evens, intt, inverse_of, ntt, odds};
use crate::polynomial::{canonical, poly_eval_int};

verus! {

/// The entry-wise sum of two sequences of equal length.
pub open spec fn pointwise_add(a: Seq<int>, b: Seq<int>, p: int) -> Seq<int> {
    Seq::new(a.len(), |i: int| fadd(a[i], b[i], p))
}

/// The two outputs of a butterfly are additive in its inputs.
proof fn lemma_butterfly_additive(ea: int, eb: int, oa: int, ob: int, w: int, p: int)
    requires
        p > 0,
    ensures
        fadd(fadd(ea, eb, p), fmul(fadd(oa, ob, p), w, p), p) == fadd(
            fadd(ea, fmul(oa, w, p), p),
            fadd(eb, fmul(ob, w, p), p),
            p,
        ),
        fsub(fadd(ea, eb, p), fmul(fadd(oa, ob, p), w, p), p) == fadd(
            fsub(ea, fmul(oa, w, p), p),
            fsub(eb, fmul(ob, w, p), p),
            p,
        ),
{
    let ta = oa * w;
    let tb = ob * w;
    let sum = (oa + ob) * w;
    assert(sum == ta + tb) by (nonlinear_arith)
        requires
            sum == (oa + ob) * w,
            ta == oa * w,
            tb == ob * w,
    ;
    // the left-hand sides
    lemma_mod_twice(ea + eb, p);
    lemma_mul_mod_noop_left(oa + ob, w, p);
    lemma_mod_twice(sum, p);
    lemma_fadd_congruent(fadd(ea, eb, p), ea + eb, fmul(fadd(oa, ob, p), w, p), sum, p);
    lemma_fsub_congruent(fadd(ea, eb, p), ea + eb, fmul(fadd(oa, ob, p), w, p), sum, p);
    // the right-hand sides
    lemma_mod_twice(ta, p);
    lemma_mod_twice(tb, p);
    lemma_fadd_congruent(ea, ea, fmul(oa, w, p), ta, p);
    lemma_fadd_congruent(eb, eb, fmul(ob, w, p), tb, p);
    lemma_fsub_congruent(ea, ea, fmul(oa, w, p), ta, p);
    lemma_fsub_congruent(eb, eb, fmul(ob, w, p), tb, p);
    lemma_mod_twice(ea + ta, p);
    lemma_mod_twice(eb + tb, p);
    lemma_mod_twice(ea - ta, p);
    lemma_mod_twice(eb - tb, p);
    lemma_fadd_congruent(
        fadd(ea, fmul(oa, w, p), p),
        ea + ta,
        fadd(eb, fmul(ob, w, p), p),
        eb + tb,
        p,
    );
    lemma_fadd_congruent(
        fsub(ea, fmul(oa, w, p), p),
        ea - ta,
        fsub(eb, fmul(ob, w, p), p),
        eb - tb,
        p,
    );
    assert((ea + eb) + sum == (ea + ta) + (eb + tb));
    assert((ea + eb) - sum == (ea - ta) + (eb - tb));
}

/// The transform is linear: the transform of an entry-wise sum is the entry-wise sum of the
/// transforms.
pub proof fn lemma_ntt_linear(a: Seq<int>, b: Seq<int>, w: int, p: int, k: nat)
    requires
        p > 0,
        a.len() == pow2(k),
        b.len() == pow2(k),
    ensures
        ntt(pointwise_add(a, b, p), w, p) == pointwise_add(ntt(a, w, p), ntt(b, w, p), p),
    decreases k,
{
    lemma2_to64();
    let c = pointwise_add(a, b, p);
    if k == 0 {
        assert(ntt(c, w, p) =~= pointwise_add(ntt(a, w, p), ntt(b, w, p), p));
    } else {
        lemma_pow2_unfold(k);
        lemma_pow2_pos((k - 1) as nat);
        let h = (a.len() / 2) as int;
        let w2 = fmul(w, w, p);
        assert(evens(c) =~= pointwise_add(evens(a), evens(b), p));
        assert(odds(c) =~= pointwise_add(odds(a), odds(b), p));
        lemma_ntt_linear(evens(a), evens(b), w2, p, (k - 1) as nat);
        lemma_ntt_linear(odds(a), odds(b), w2, p, (k - 1) as nat);
        let ea = ntt(evens(a), w2, p);
        let eb = ntt(evens(b), w2, p);
        let oa = ntt(odds(a), w2, p);
        let ob = ntt(odds(b), w2, p);
        let left = ntt(c, w, p);
        let right = pointwise_add(ntt(a, w, p), ntt(b, w, p), p);
        assert forall|i: int| 0 <= i < left.len() implies left[i] == right[i] by {
            let j = if i < h {
                i
            } else {
                i - h
            };
            assert(ntt(evens(c), w2, p)[j] == fadd(ea[j], eb[j], p));
            assert(ntt(odds(c), w2, p)[j] == fadd(oa[j], ob[j], p));
            lemma_butterfly_additive(ea[j], eb[j], oa[j], ob[j], fpow(w, j as nat, p), p);
        }
        assert(left =~= right);
    }
}

/// The transform of canonical residues holds canonical residues.
pub proof fn lemma_ntt_canonical(a: Seq<int>, w: int, p: int)
    requires
        p > 0,
        canonical(a, p),
    ensures
        canonical(ntt(a, w, p), p),
{
    if a.len() >= 2 {
        let h = (a.len() / 2) as int;
        let e = ntt(evens(a), fmul(w, w, p), p);
        let o = ntt(odds(a), fmul(w, w, p), p);
        let x = ntt(a, w, p);
        assert forall|i: int| 0 <= i < x.len() implies 0 <= #[trigger] x[i] < p by {
            if i < h {
                lemma_mod_bound(e[i] + fmul(o[i], fpow(w, i as nat, p), p), p);
            } else {
                lemma_mod_bound(e[i - h] - fmul(o[i - h], fpow(w, (i - h) as nat, p), p), p);
            }
        }
    }
}

/// The value of two vectors joined is the value of the first plus the value of the second
/// times the power of the point by the length of the first.
pub proof fn lemma_eval_concat(u: Seq<int>, v: Seq<int>, z: int)
    ensures
        poly_eval_int(u + v, z) == poly_eval_int(u, z) + pow(z, u.len()) * poly_eval_int(v, z),
    decreases u.len(),
{
    reveal(pow);
    if u.len() == 0 {
        assert(u + v =~= v);
        assert(1 * poly_eval_int(v, z) == poly_eval_int(v, z));
    } else {
        lemma_eval_concat(u.drop_first(), v, z);
        assert((u + v).drop_first() =~= u.drop_first() + v);
        let rest = poly_eval_int(u.drop_first(), z);
        let tail = poly_eval_int(v, z);
        let top = pow(z, (u.len() - 1) as nat);
        assert(pow(z, u.len()) == z * top);
        assert(z * (rest + top * tail) == z * rest + (z * top) * tail) by (nonlinear_arith);
    }
}

/// Where each entry of `t` is the entry of `o` times `s * w^i`, the value of `t` at `z` is `s`
/// times the value of `o` at `w * z`.
pub proof fn lemma_eval_scaled(t: Seq<int>, o: Seq<int>, s: int, w: int, z: int, p: int)
    requires
        p > 0,
        t.len() == o.len(),
        forall|i: int| 0 <= i < t.len() ==> (#[trigger] t[i]) % p == (s * o[i] * pow(w, i as nat)) % p,
    ensures
        poly_eval_int(t, z) % p == (s * poly_eval_int(o, w * z)) % p,
    decreases t.len(),
{
    reveal(pow);
    if t.len() == 0 {
        assert(s * 0 == 0);
    } else {
        let t1 = t.drop_first();
        let o1 = o.drop_first();
        assert forall|i: int| 0 <= i < t1.len() implies (#[trigger] t1[i]) % p == ((s * w) * o1[i]
            * pow(w, i as nat)) % p by {
            assert(t1[i] == t[i + 1]);
            assert(o1[i] == o[i + 1]);
            assert(pow(w, (i + 1) as nat) == w * pow(w, i as nat));
            assert(s * o[i + 1] * (w * pow(w, i as nat)) == (s * w) * o[i + 1] * pow(w, i as nat))
                by (nonlinear_arith);
        }
        lemma_eval_scaled(t1, o1, s * w, w, z, p);
        let pt = poly_eval_int(t1, z);
        let po = poly_eval_int(o1, w * z);
        assert(pow(w, 0) == 1);
        assert(s * o[0] * 1 == s * o[0]) by (nonlinear_arith);
        lemma_fmul_congruent(z, z, pt, (s * w) * po, p);
        lemma_fadd_congruent(t[0], s * o[0], z * pt, z * ((s * w) * po), p);
        assert(s * o[0] + z * ((s * w) * po) == s * (o[0] + (w * z) * po)) by (nonlinear_arith);
    }
}

/// The value of a transform at a point whose `h`-th power is one or minus one: twice the
/// value of the even half-transform, or twice the value of the odd half-transform at `w`
/// times the point.
proof fn lemma_round_trip_sum(pu: int, pv: int, zh: int, a: int, t: int, b: int, p: int)
    requires
        p > 2,
        pu % p == (a + 1 * t) % p,
        pv % p == (a + (-1) * t) % p,
        t % p == (1 * b) % p,
    ensures
        zh % p == 1 ==> (pu + zh * pv) % p == (2 * a) % p,
        zh % p == p - 1 ==> (pu + zh * pv) % p == (2 * b) % p,
{
    lemma_fadd_congruent(a, a, t, b, p);
    lemma_fsub_congruent(a, a, t, b, p);
    assert(pu % p == (a + b) % p);
    assert(pv % p == (a - b) % p);
    lemma_small_mod(1, p as nat);
    lemma_mod_add_multiples_vanish(-1, p);
    lemma_small_mod((p - 1) as nat, p as nat);
    if zh % p == 1 {
        lemma_fmul_congruent(zh, 1, pv, a - b, p);
        lemma_fadd_congruent(pu, a + b, zh * pv, 1 * (a - b), p);
    }
    if zh % p == p - 1 {
        lemma_fmul_congruent(zh, -1, pv, a - b, p);
        lemma_fadd_congruent(pu, a + b, zh * pv, (-1) * (a - b), p);
    }
}

/// The transform with the inverse root, applied to the transform, multiplies every entry by
/// the length.
pub proof fn lemma_ntt_round_trip(a: Seq<int>, w: int, p: int, k: nat, m: int)
    requires
        p > 2,
        a.len() == pow2(k),
        canonical(a, p),
        k >= 1 ==> fpow(w, pow2((k - 1) as nat), p) == p - 1,
        0 <= m < a.len(),
    ensures
        ntt(ntt(a, w, p), inverse_of(w, p), p)[m] == (pow2(k) * a[m]) % p,
    decreases k,
{
    lemma2_to64();
    if k == 0 {
        lemma_small_mod(a[0] as nat, p as nat);
    } else {
        let n = pow2(k) as int;
        let h = pow2((k - 1) as nat) as int;
        lemma_pow2_unfold(k);
        lemma_pow2_pos((k - 1) as nat);
        // the root and its inverse
        lemma_fpow_pow2_step(w, (k - 1) as nat, p);
        lemma_minus_one_powers(2, p);
        assert(fpow(w, pow2(k), p) == 1);
        lemma_root_of_one_is_unit(w, pow2(k), 0, p);
        let winv = inverse_of(w, p);
        assert(is_inverse(w, winv, p));
        lemma_inverse_power(w, winv, h as nat, p);
        lemma_inverse_unique(p - 1, fpow(winv, h as nat, p), p - 1, p);
        assert(fpow(winv, h as nat, p) == p - 1);
        // the squared root and its inverse
        let w2 = fmul(w, w, p);
        let winv2 = inverse_of(w2, p);
        lemma_unit_mul(w, w, p);
        assert(is_inverse(w2, winv2, p));
        lemma_inverse_mul(w, winv, w, winv, p);
        lemma_inverse_unique(w2, winv2, fmul(winv, winv, p), p);
        lemma_square_is_pow2(w);
        lemma_square_is_pow2(winv);
        assert(w2 == fpow(w, 2, p));
        assert(winv2 == fpow(winv, 2, p));
        if k >= 2 {
            lemma_pow2_unfold((k - 1) as nat);
            lemma_fpow_mul(w, 2, pow2((k - 2) as nat), p);
            lemma_fpow_mul(winv, 2, pow2((k - 2) as nat), p);
        }
        // the transform is the evaluation at the powers of the inverse root
        let x = ntt(a, w, p);
        lemma_ntt_canonical(a, w, p);
        lemma_ntt_is_evaluation(x, winv, p, k, m);
        let z = fpow(winv, m as nat, p);
        let e = ntt(evens(a), w2, p);
        let o = ntt(odds(a), w2, p);
        lemma_ntt_canonical(evens(a), w2, p);
        lemma_ntt_canonical(odds(a), w2, p);
        let u = x.subrange(0, h);
        let v = x.subrange(h, n);
        let t = Seq::new(h as nat, |i: int| fmul(o[i], fpow(w, i as nat, p), p));
        assert(x =~= u + v);
        assert forall|i: int| 0 <= i < h implies (#[trigger] u[i]) % p == (e[i] + 1 * t[i]) % p by {
            assert(u[i] == x[i]);
            lemma_mod_twice(e[i] + t[i], p);
        }
        assert forall|i: int| 0 <= i < h implies (#[trigger] v[i]) % p == (e[i] + (-1) * t[i])
            % p by {
            assert(v[i] == x[i + h]);
            lemma_mod_twice(e[i] - t[i], p);
        }
        assert forall|i: int| 0 <= i < h implies (#[trigger] t[i]) % p == (1 * o[i] * pow(
            w,
            i as nat,
        )) % p by {
            lemma_mod_twice(o[i] * fpow(w, i as nat, p), p);
            lemma_mul_mod_noop_right(o[i], pow(w, i as nat), p);
            assert(1 * o[i] * pow(w, i as nat) == o[i] * pow(w, i as nat)) by (nonlinear_arith);
        }
        lemma_eval_combination(u, e, t, 1, z, p);
        lemma_eval_combination(v, e, t, -1, z, p);
        lemma_eval_scaled(t, o, 1, w, z, p);
        lemma_eval_concat(u, v, z);
        let big_a = poly_eval_int(e, z);
        let big_b = poly_eval_int(o, w * z);
        let zh = pow(z, h as nat);
        // the h-th power of the point is a power of minus one
        lemma_fpow_mul(winv, m as nat, h as nat, p);
        lemma_fpow_mul(winv, h as nat, m as nat, p);
        vstd::arithmetic::mul::lemma_mul_is_commutative(m, h);
        lemma_minus_one_powers(m as nat, p);
        assert(zh % p == (if m % 2 == 0 {
            1
        } else {
            p - 1
        }));
        lemma_round_trip_sum(
            poly_eval_int(u, z),
            poly_eval_int(v, z),
            zh,
            big_a,
            poly_eval_int(t, z),
            big_b,
            p,
        );
        let half = m / 2;
        lemma_ntt_round_trip(evens(a), w2, p, (k - 1) as nat, half);
        lemma_ntt_round_trip(odds(a), w2, p, (k - 1) as nat, half);
        lemma_ntt_is_evaluation(e, winv2, p, (k - 1) as nat, half);
        lemma_ntt_is_evaluation(o, winv2, p, (k - 1) as nat, half);
        // the point of the half-size evaluation
        lemma_fpow_mul(winv, 2, half as nat, p);
        let low = fpow(winv2, half as nat, p);
        assert(low == fpow(winv, (2 * half) as nat, p));
        if m % 2 == 0 {
            assert(low == z);
            assert(big_a % p == (h * a[m]) % p);
            lemma_fmul_congruent(2, 2, big_a, h * a[m], p);
            assert(2 * (h * a[m]) == n * a[m]) by (nonlinear_arith)
                requires
                    n == 2 * h,
            ;
        } else {
            // w * z is congruent to the even power below
            lemma_fpow_step(winv, (2 * half) as nat, p);
            assert(z == fmul(winv, low, p));
            lemma_fmul_assoc(w, winv, low, p);
            lemma_mod_bound(pow(winv2, half as nat), p);
            lemma_small_mod(low as nat, p as nat);
            assert(fmul(1, low, p) == low) by {
                assert(1 * low == low);
            }
            assert(fmul(w, z, p) == low);
            lemma_eval_congruent(o, w * z, low, p);
            assert(big_b % p == (h * a[m]) % p);
            lemma_fmul_congruent(2, 2, big_b, h * a[m], p);
            assert(2 * (h * a[m]) == n * a[m]) by (nonlinear_arith)
                requires
                    n == 2 * h,
            ;
        }
    }
}

/// The inverse transform undoes the transform, for a root whose `2^(k-1)`-th power is minus
/// one and an odd modulus.
pub proof fn lemma_intt_undoes_ntt(a: Seq<int>, w: int, p: int, k: nat)
    requires
        p > 2,
        p % 2 == 1,
        a.len() == pow2(k),
        canonical(a, p),
        k >= 1 ==> fpow(w, pow2((k - 1) as nat), p) == p - 1,
    ensures
        intt(ntt(a, w, p), w, p) == a,
{
    let x = ntt(a, w, p);
    let n = pow2(k) as int;
    lemma_pow2_is_unit(k, p);
    let scale = inverse_of(n % p, p);
    assert(is_inverse(n % p, scale, p));
    assert forall|i: int| 0 <= i < a.len() implies intt(x, w, p)[i] == a[i] by {
        lemma_ntt_round_trip(a, w, p, k, i);
        lemma_mul_mod_noop_left(n, a[i], p);
        lemma_unit_cancels(n % p, scale, a[i], p);
        lemma_small_mod(a[i] as nat, p as nat);
    }
    assert(intt(x, w, p) =~= a);
}

} // verus!
