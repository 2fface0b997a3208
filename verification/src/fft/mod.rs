//! Number-theoretic transforms: what they compute, and the in-place radix-2 engine.

use vstd::prelude::*;
use vstd::arithmetic::div_mod::{
    lemma_breakdown, lemma_div_denominator, lemma_fundamental_div_mod_converse, lemma_mod_mod,
    lemma_small_mod,
};
use vstd::arithmetic::power::lemma_pow1;
use vstd::arithmetic::power2::{
    lemma2_to64, lemma_pow2_pos, lemma_pow2_subtracts, lemma_pow2_unfold, pow2,
};
use crate::arith::{fadd, fmul, fpow, fsub, is_inverse, lemma_fpow_pow2_step};

pub mod laws;
pub mod recursive;
pub mod serial;
pub mod theorems;

verus! {

/// The entries at even positions.
pub open spec fn evens(a: Seq<int>) -> Seq<int> {
    Seq::new(a.len() / 2, |i: int| a[2 * i])
}

/// The entries at odd positions.
pub open spec fn odds(a: Seq<int>) -> Seq<int> {
    Seq::new(a.len() / 2, |i: int| a[2 * i + 1])
}

/// The radix-2 transform of `a` with root `w` modulo `p`, by decimation in time: the
/// transforms `e` and `o` of the even and odd entries with root `w^2` are combined into
/// `e[i] + o[i] * w^i` in the lower half and `e[i] - o[i] * w^i` in the upper half.
pub open spec fn ntt(a: Seq<int>, w: int, p: int) -> Seq<int>
    decreases a.len(),
{
    if a.len() < 2 {
        a
    } else {
        let h = (a.len() / 2) as int;
        let e = ntt(evens(a), fmul(w, w, p), p);
        let o = ntt(odds(a), fmul(w, w, p), p);
        Seq::new(
            a.len(),
            |i: int|
                if i < h {
                    fadd(e[i], fmul(o[i], fpow(w, i as nat, p), p), p)
                } else {
                    fsub(e[i - h], fmul(o[i - h], fpow(w, (i - h) as nat, p), p), p)
                },
        )
    }
}

/// The number whose lowest `bits` binary digits are those of `x` in reverse order.
pub open spec fn bit_reverse(x: nat, bits: nat) -> nat
    decreases bits,
{
    if bits == 0 {
        0
    } else {
        (x % 2) * pow2((bits - 1) as nat) + bit_reverse(x / 2, (bits - 1) as nat)
    }
}

/// A reversed number has no more digits than were reversed.
pub proof fn lemma_bit_reverse_bound(x: nat, bits: nat)
    ensures
        bit_reverse(x, bits) < pow2(bits),
    decreases bits,
{
    lemma2_to64();
    if bits > 0 {
        lemma_bit_reverse_bound(x / 2, (bits - 1) as nat);
        lemma_pow2_unfold(bits);
        assert((x % 2) * pow2((bits - 1) as nat) <= pow2((bits - 1) as nat)) by (nonlinear_arith)
            requires
                x % 2 <= 1,
        ;
    }
}

/// Reversal seen from the highest digit: the highest digit of `x` becomes the lowest, above
/// it stands the reversal of the remaining digits.
pub proof fn lemma_bit_reverse_top(x: nat, bits: nat)
    requires
        bits >= 1,
        x < pow2(bits),
    ensures
        bit_reverse(x, bits) == 2 * bit_reverse(x % pow2((bits - 1) as nat), (bits - 1) as nat) + x
            / pow2((bits - 1) as nat),
    decreases bits,
{
    lemma2_to64();
    if bits == 1 {
        assert(bit_reverse(x / 2, 0) == 0);
        assert(bit_reverse(x % 1, 0) == 0);
        assert(bit_reverse(x, 1) == (x % 2) * pow2(0) + bit_reverse(x / 2, 0));
    } else {
        let q = pow2((bits - 2) as nat);
        lemma_pow2_pos((bits - 2) as nat);
        lemma_pow2_unfold((bits - 1) as nat);
        lemma_pow2_unfold(bits);
        let big = pow2((bits - 1) as nat);
        assert(big == 2 * q);
        lemma_bit_reverse_top(x / 2, (bits - 1) as nat);
        let y = x % big;
        lemma_mod_mod(x as int, 2, q as int);
        lemma_breakdown(x as int, 2, q as int);
        assert(y == 2 * ((x / 2) % q) + x % 2);
        lemma_fundamental_div_mod_converse(y as int, 2, ((x / 2) % q) as int, (x % 2) as int);
        lemma_div_denominator(x as int, 2, q as int);
        assert(bit_reverse(y, (bits - 1) as nat) == (y % 2) * q + bit_reverse(
            y / 2,
            (bits - 2) as nat,
        ));
        assert(2 * ((x % 2) * q) == (x % 2) * (2 * q)) by (nonlinear_arith);
        let half = x / 2;
        assert(bit_reverse(x, bits) == (x % 2) * big + bit_reverse(half, (bits - 1) as nat));
        assert(bit_reverse(half, (bits - 1) as nat) == 2 * bit_reverse(
            half % q,
            (bits - 2) as nat,
        ) + half / q);
        assert(y / 2 == half % q);
        assert(y % 2 == x % 2);
        assert(x / big == half / q) by {
            vstd::arithmetic::mul::lemma_mul_is_commutative(2, q as int);
        }
    }
}

/// Reversing twice gives the number back.
pub proof fn lemma_bit_reverse_involution(x: nat, bits: nat)
    requires
        x < pow2(bits),
    ensures
        bit_reverse(bit_reverse(x, bits), bits) == x,
    decreases bits,
{
    lemma2_to64();
    if bits > 0 {
        let big = pow2((bits - 1) as nat);
        lemma_pow2_pos((bits - 1) as nat);
        lemma_pow2_unfold(bits);
        let low = bit_reverse(x / 2, (bits - 1) as nat);
        lemma_bit_reverse_bound(x / 2, (bits - 1) as nat);
        lemma_bit_reverse_involution(x / 2, (bits - 1) as nat);
        let y = bit_reverse(x, bits);
        assert(y == (x % 2) * big + low);
        lemma_bit_reverse_bound(x, bits);
        lemma_bit_reverse_top(y, bits);
        lemma_fundamental_div_mod_converse(y as int, big as int, (x % 2) as int, low as int);
    }
}

/// The entries of `a` at distance `2^d` from one another, starting at the reversal of the
/// lowest `d` digits of `b`. At depth `d` of the transform's recursion these are the inputs
/// of the `b`-th sub-transform, counted in the order in which the in-place engine holds them.
pub open spec fn strided(a: Seq<int>, d: nat, b: nat) -> Seq<int> {
    Seq::new(a.len() / pow2(d), |t: int| a[t * pow2(d) + bit_reverse(b, d)])
}

/// The buffer of the in-place engine when the sub-transforms of depth `d` are done: blocks of
/// `a.len() / 2^d` entries, the `b`-th of them the transform of `strided(a, d, b)`.
pub open spec fn stage(a: Seq<int>, w: int, p: int, d: nat) -> Seq<int> {
    let m = (a.len() / pow2(d)) as int;
    Seq::new(
        a.len(),
        |i: int| ntt(strided(a, d, (i / m) as nat), fpow(w, pow2(d), p), p)[i % m],
    )
}

/// At the deepest stage the buffer is the input in bit-reversed order.
pub proof fn lemma_stage_first(a: Seq<int>, w: int, p: int, k: nat, i: int)
    requires
        a.len() == pow2(k),
        0 <= i < a.len(),
    ensures
        stage(a, w, p, k)[i] == a[bit_reverse(i as nat, k) as int],
        bit_reverse(i as nat, k) < a.len(),
{
    lemma_bit_reverse_bound(i as nat, k);
    lemma_pow2_pos(k);
    assert(a.len() / pow2(k) == 1);
    let x = strided(a, k, i as nat);
    assert(x.len() == 1);
    assert(i / 1 == i);
    assert(i % 1 == 0);
    assert(x[0] == a[0 * pow2(k) + bit_reverse(i as nat, k) as int]);
}

/// At depth zero the buffer is the transform of the input.
pub proof fn lemma_stage_last(a: Seq<int>, w: int, p: int)
    requires
        a.len() > 0,
        0 <= w < p,
    ensures
        stage(a, w, p, 0) =~= ntt(a, w, p),
{
    lemma2_to64();
    lemma_pow1(w);
    lemma_small_mod(w as nat, p as nat);
    let n = a.len() as int;
    assert(strided(a, 0, 0) =~= a) by {
        assert(bit_reverse(0, 0) == 0);
        assert(a.len() / 1 == a.len());
        assert forall|t: int| 0 <= t < a.len() implies strided(a, 0, 0)[t] == a[t] by {
            assert(t * 1 + 0 == t);
        }
    }
    assert forall|i: int| 0 <= i < n implies stage(a, w, p, 0)[i] == ntt(a, w, p)[i] by {
        lemma_small_mod(i as nat, n as nat);
        vstd::arithmetic::div_mod::lemma_basic_div(i, n);
    }
}

/// One stage of butterflies: the entries `j` and `j + m` of a block of `2 * m` entries at depth
/// `d - 1` are the sum and the difference of entry `j` of its two halves at depth `d`, the
/// second multiplied by the `j`-th power of the root of depth `d - 1`.
pub proof fn lemma_stage_step(a: Seq<int>, w: int, p: int, k: nat, d: nat, b: nat, j: int)
    requires
        p > 0,
        a.len() == pow2(k),
        1 <= d <= k,
        b < pow2((d - 1) as nat),
        0 <= j < pow2((k - d) as nat),
    ensures
        ({
            let m = pow2((k - d) as nat) as int;
            let lo = b * (2 * m) + j;
            let hi = lo + m;
            let root = fpow(w, pow2((d - 1) as nat), p);
            let t = fmul(stage(a, w, p, d)[hi], fpow(root, j as nat, p), p);
            &&& 0 <= lo < hi < a.len()
            &&& stage(a, w, p, (d - 1) as nat)[lo] == fadd(stage(a, w, p, d)[lo], t, p)
            &&& stage(a, w, p, (d - 1) as nat)[hi] == fsub(stage(a, w, p, d)[lo], t, p)
        }),
{
    let m = pow2((k - d) as nat) as int;
    let n = a.len() as int;
    let up = (d - 1) as nat;
    let lo = b * (2 * m) + j;
    let hi = lo + m;
    let root = fpow(w, pow2(up), p);
    lemma_pow2_pos((k - d) as nat);
    lemma_pow2_pos(d);
    lemma_pow2_pos(up);
    lemma_pow2_subtracts(d, k);
    lemma_pow2_subtracts(up, k);
    lemma_pow2_unfold((k - up) as nat);
    lemma_pow2_unfold(d);
    assert(n / (pow2(d) as int) == m);
    assert(n / (pow2(up) as int) == 2 * m);
    vstd::arithmetic::div_mod::lemma_fundamental_div_mod(n, pow2(up) as int);
    vstd::arithmetic::power2::lemma_pow2_adds(up, (k - up) as nat);
    assert(n == pow2(up) * (2 * m));
    assert(b * (2 * m) + 2 * m <= n) by (nonlinear_arith)
        requires
            b + 1 <= pow2(up),
            n == pow2(up) * (2 * m),
            m > 0,
    ;
    assert(0 <= b * (2 * m)) by (nonlinear_arith)
        requires
            m > 0,
    ;
    assert(lo == (2 * b) * m + j && hi == (2 * b + 1) * m + j && lo == b * (2 * m) + j && hi == b
        * (2 * m) + (j + m)) by (nonlinear_arith)
        requires
            lo == b * (2 * m) + j,
            hi == lo + m,
    ;
    lemma_fundamental_div_mod_converse(lo, m, (2 * b) as int, j);
    lemma_fundamental_div_mod_converse(hi, m, (2 * b + 1) as int, j);
    lemma_fundamental_div_mod_converse(lo, 2 * m, b as int, j);
    lemma_fundamental_div_mod_converse(hi, 2 * m, b as int, j + m);
    let x = strided(a, up, b);
    assert(x.len() == 2 * m);
    let xe = strided(a, d, 2 * b);
    let xo = strided(a, d, 2 * b + 1);
    let even = 2 * b;
    let odd = 2 * b + 1;
    assert(even % 2 == 0 && even / 2 == b && odd % 2 == 1 && odd / 2 == b);
    assert(bit_reverse(even, d) == (even % 2) * pow2(up) + bit_reverse(even / 2, up));
    assert(bit_reverse(odd, d) == (odd % 2) * pow2(up) + bit_reverse(odd / 2, up));
    assert(0 * pow2(up) == 0 && 1 * pow2(up) == pow2(up));
    assert(bit_reverse(2 * b, d) == bit_reverse(b, up));
    assert(bit_reverse(2 * b + 1, d) == pow2(up) + bit_reverse(b, up));
    assert(evens(x) =~= xe) by {
        assert forall|t: int| 0 <= t < m implies evens(x)[t] == xe[t] by {
            assert((2 * t) * pow2(up) == t * pow2(d)) by (nonlinear_arith)
                requires
                    pow2(d) == 2 * pow2(up),
            ;
        }
    }
    assert(odds(x) =~= xo) by {
        assert forall|t: int| 0 <= t < m implies odds(x)[t] == xo[t] by {
            assert((2 * t + 1) * pow2(up) == t * pow2(d) + pow2(up)) by (nonlinear_arith)
                requires
                    pow2(d) == 2 * pow2(up),
            ;
        }
    }
    lemma_fpow_pow2_step(w, up, p);
    assert(fmul(root, root, p) == fpow(w, pow2(d), p));
    let full = ntt(x, root, p);
    assert(stage(a, w, p, up)[lo] == full[j]);
    assert(stage(a, w, p, up)[hi] == full[j + m]);
    assert(stage(a, w, p, d)[lo] == ntt(xe, fpow(w, pow2(d), p), p)[j]);
    assert(stage(a, w, p, d)[hi] == ntt(xo, fpow(w, pow2(d), p), p)[j]);
}

/// The canonical inverse of a unit `a` modulo `p`.
pub open spec fn inverse_of(a: int, p: int) -> int {
    choose|y: int| is_inverse(a, y, p)
}

/// The inverse transform: the transform with the inverse of the root, each entry multiplied
/// by the inverse of the length.
pub open spec fn intt(a: Seq<int>, w: int, p: int) -> Seq<int> {
    let plain = ntt(a, inverse_of(w, p), p);
    Seq::new(a.len(), |i: int| fmul(plain[i], inverse_of((a.len() as int) % p, p), p))
}

} // verus!
