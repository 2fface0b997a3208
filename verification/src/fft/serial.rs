//! The iterative in-place transform: a bit-reversal permutation followed by `log_n` stages of
//! butterflies.

use vstd::prelude::*;
use vstd::arithmetic::div_mod::{
    lemma_breakdown, lemma_div_denominator, lemma_fundamental_div_mod_converse, lemma_mod_mod,
    lemma_small_mod,
};
use vstd::arithmetic::power::lemma_pow0;
use vstd::arithmetic::power2::{
    lemma2_to64, lemma_pow2_adds, lemma_pow2_pos, lemma_pow2_strictly_increases,
    lemma_pow2_unfold, pow2,
};
use crate::arith::{fpow, lemma_fpow_step};
use crate::fft::{
    bit_reverse, lemma_bit_reverse_bound, lemma_bit_reverse_involution, lemma_bit_reverse_top,
    intt, inverse_of, lemma_stage_first, lemma_stage_last, lemma_stage_step, ntt, stage,
};
use crate::field::{values, PrimeField};

verus! {

/// The lowest `bits` binary digits of `n` in reverse order.
fn bitreverse(n: usize, bits: u32) -> (r: usize)
    requires
        bits < 32,
        n < pow2(bits as nat),
    ensures
        r == bit_reverse(n as nat, bits as nat),
{
    let mut r: usize = 0;
    let mut rest: usize = n;
    let mut t: u32 = 0;
    proof {
        lemma2_to64();
        assert(bit_reverse((n % 1) as nat, 0) == 0);
    }
    while t < bits
        invariant
            t <= bits,
            bits < 32,
            n < pow2(bits as nat),
            rest == n as nat / pow2(t as nat),
            r == bit_reverse((n as nat) % pow2(t as nat), t as nat),
        decreases bits - t,
    {
        proof {
            let small = pow2(t as nat) as int;
            let big = pow2((t + 1) as nat) as int;
            lemma_pow2_pos(t as nat);
            lemma_pow2_unfold((t + 1) as nat);
            let x = (n as int) % big;
            assert(big == small * 2);
            lemma_bit_reverse_top(x as nat, (t + 1) as nat);
            lemma_mod_mod(n as int, small, 2);
            lemma_breakdown(n as int, small, 2);
            lemma_fundamental_div_mod_converse(x, small, ((n as int) / small) % 2, (n as int)
                % small);
            lemma_div_denominator(n as int, small, 2);
            lemma_bit_reverse_bound((n as nat) % pow2(t as nat), t as nat);
            lemma_pow2_strictly_increases(t as nat, 31);
            lemma2_to64();
        }
        r = 2 * r + rest % 2;
        rest = rest / 2;
        t += 1;
    }
    proof {
        lemma_small_mod(n as nat, pow2(bits as nat));
    }
    r
}

/// Replaces the buffer by its transform with root `omega`.
///
/// The buffer must hold `2^log_n` entries. Whatever `omega` is, the result is the
/// decimation-in-time recursion `ntt`; for a root of order `2^log_n` that is the evaluation of
/// the buffer, read as coefficients, at the powers of `omega`.
pub fn serial_fft<F: PrimeField>(a: &mut [F], omega: &F, log_n: u32)
    requires
        log_n < 32,
        old(a)@.len() == pow2(log_n as nat),
    ensures
        final(a)@.len() == old(a)@.len(),
        values(final(a)@) == ntt(values(old(a)@), omega.value(), F::modulus()),
{
    let n: usize = a.len();
    let ghost a0 = values(a@);
    let ghost p = F::modulus();
    let ghost w = omega.value();
    let ghost bits = log_n as nat;
    proof {
        F::lemma_parameters();
        omega.lemma_value_bounds();
        lemma2_to64();
        if log_n < 31 {
            lemma_pow2_strictly_increases(bits, 31);
        }
        lemma_pow2_pos(bits);
    }
    let mut k: usize = 0;
    while k < n
        invariant
            k <= n,
            a@.len() == n,
            a0.len() == n,
            n == pow2(bits),
            bits == log_n,
            log_n < 32,
            forall|i: int|
                0 <= i < n ==> (#[trigger] a@[i]).value() == (if i < k || bit_reverse(
                    i as nat,
                    bits,
                ) < k {
                    a0[bit_reverse(i as nat, bits) as int]
                } else {
                    a0[i]
                }),
        decreases n - k,
    {
        let rk: usize = bitreverse(k, log_n);
        proof {
            lemma_bit_reverse_bound(k as nat, bits);
            lemma_bit_reverse_involution(k as nat, bits);
            assert forall|i: int| 0 <= i < n && #[trigger] bit_reverse(i as nat, bits) == k implies i
                == rk by {
                lemma_bit_reverse_involution(i as nat, bits);
            }
        }
        if k < rk {
            let low: F = a[k];
            let high: F = a[rk];
            a[k] = high;
            a[rk] = low;
        }
        k += 1;
    }
    proof {
        assert forall|i: int| 0 <= i < n implies (#[trigger] a@[i]).value() == stage(
            a0,
            w,
            p,
            bits,
        )[i] by {
            lemma_stage_first(a0, w, p, bits, i);
        }
    }
    let mut m: usize = 1;
    let mut s: u32 = 0;
    while s < log_n
        invariant
            s <= log_n,
            log_n < 32,
            bits == log_n,
            a@.len() == n,
            a0.len() == n,
            n == pow2(bits),
            n <= 0x80000000,
            m == pow2(s as nat),
            p == F::modulus(),
            p > 2,
            w == omega.value(),
            forall|i: int|
                0 <= i < n ==> (#[trigger] a@[i]).value() == stage(a0, w, p, (bits - s) as nat)[i],
        decreases log_n - s,
    {
        let ghost d = (bits - s) as nat;
        let ghost up = (d - 1) as nat;
        let ghost before = stage(a0, w, p, d);
        let ghost after = stage(a0, w, p, up);
        proof {
            lemma_pow2_adds((s + 1) as nat, up);
            lemma_pow2_unfold((s + 1) as nat);
            lemma_pow2_pos(up);
            lemma_pow2_pos(s as nat);
            assert(n == (2 * m) * pow2(up));
            vstd::arithmetic::mul::lemma_mul_is_commutative((2 * m) as int, pow2(up) as int);
            assert(2 * m <= n) by (nonlinear_arith)
                requires
                    n == (2 * m) * pow2(up),
                    pow2(up) >= 1,
                    m >= 0,
            ;
            lemma_fundamental_div_mod_converse(n as int, (2 * m) as int, pow2(up) as int, 0);
        }
        let w_m: F = omega.pow((n / (2 * m)) as u64);
        let ghost root = w_m.value();
        let mut k: usize = 0;
        let ghost mut b: nat = 0;
        while k < n
            invariant
                k <= n,
                k == b * (2 * m),
                b <= pow2(up),
                n == (2 * m) * pow2(up),
                a@.len() == n,
                a0.len() == n,
                n == pow2(bits),
                n <= 0x80000000,
                bits == d + s,
                d >= 1,
                up == d - 1,
                m == pow2(s as nat),
                m >= 1,
                p == F::modulus(),
                p > 2,
                root == w_m.value(),
                root == fpow(w, pow2(up), p),
                before == stage(a0, w, p, d),
                after == stage(a0, w, p, up),
                forall|i: int|
                    0 <= i < n ==> (#[trigger] a@[i]).value() == (if i < k {
                        after[i]
                    } else {
                        before[i]
                    }),
            decreases n - k,
        {
            proof {
                assert(b < pow2(up)) by (nonlinear_arith)
                    requires
                        b * (2 * m) < (2 * m) * pow2(up),
                        m >= 1,
                        b <= pow2(up),
                ;
                assert(b * (2 * m) + 2 * m <= n) by (nonlinear_arith)
                    requires
                        b + 1 <= pow2(up),
                        n == (2 * m) * pow2(up),
                        m >= 1,
                ;
                lemma_pow0(root);
                lemma_small_mod(1, p as nat);
            }
            let mut wj: F = F::one();
            let mut j: usize = 0;
            while j < m
                invariant
                    j <= m,
                    k + 2 * m <= n,
                    k == b * (2 * m),
                    b < pow2(up),
                    a@.len() == n,
                    a0.len() == n,
                    n == pow2(bits),
                    n <= 0x80000000,
                    bits == d + s,
                    d >= 1,
                    up == d - 1,
                    m == pow2(s as nat),
                    p == F::modulus(),
                    p > 2,
                    root == w_m.value(),
                    root == fpow(w, pow2(up), p),
                    wj.value() == fpow(root, j as nat, p),
                    before == stage(a0, w, p, d),
                    after == stage(a0, w, p, up),
                    forall|i: int|
                        0 <= i < n ==> (#[trigger] a@[i]).value() == (if i < k || (k <= i < k
                            + j) || (k + m <= i < k + m + j) {
                            after[i]
                        } else {
                            before[i]
                        }),
                decreases m - j,
            {
                proof {
                    lemma_stage_step(a0, w, p, bits, d, b, j as int);
                    lemma_fpow_step(root, j as nat, p);
                }
                let t: F = a[k + j + m].mul(&wj);
                let low: F = a[k + j];
                a[k + j + m] = low.sub(&t);
                a[k + j] = low.add(&t);
                wj = wj.mul(&w_m);
                j += 1;
            }
            k += 2 * m;
            proof {
                assert((b + 1) * (2 * m) == b * (2 * m) + 2 * m) by (nonlinear_arith);
                b = b + 1;
            }
        }
        m = m * 2;
        s += 1;
        proof {
            lemma_pow2_unfold(s as nat);
        }
    }
    proof {
        lemma_stage_last(a0, w, p);
        assert(values(a@) =~= stage(a0, w, p, 0));
    }
}

/// Replaces the buffer by its inverse transform: the transform with the inverse of `omega`,
/// scaled by the inverse of the length.
pub fn serial_ifft<F: PrimeField>(s: &mut [F], omega: &F, log_n: u32)
    requires
        log_n < 32,
        old(s)@.len() == pow2(log_n as nat),
        omega.value() != 0,
    ensures
        final(s)@.len() == old(s)@.len(),
        values(final(s)@) == intt(values(old(s)@), omega.value(), F::modulus()),
{
    let n: usize = s.len();
    proof {
        F::lemma_parameters();
        lemma2_to64();
        if log_n < 31 {
            lemma_pow2_strictly_increases(log_n as nat, 31);
        }
        crate::arith::lemma_pow2_is_unit(log_n as nat, F::modulus());
        vstd::arithmetic::div_mod::lemma_mod_bound(n as int, F::modulus());
        crate::field::lemma_unit_iff_nonzero::<F>((n as int) % F::modulus());
        omega.lemma_value_bounds();
        crate::field::lemma_unit_iff_nonzero::<F>(omega.value());
    }
    let invlen: F = F::from_u64(n as u64).invert().unwrap();
    let omega_inv: F = omega.invert().unwrap();
    proof {
        crate::arith::lemma_inverse_unique(
            omega.value(),
            omega_inv.value(),
            inverse_of(omega.value(), F::modulus()),
            F::modulus(),
        );
        crate::arith::lemma_inverse_unique(
            (n as int) % F::modulus(),
            invlen.value(),
            inverse_of((n as int) % F::modulus(), F::modulus()),
            F::modulus(),
        );
    }
    serial_fft(s, &omega_inv, log_n);
    let ghost mid = values(s@);
    let mut i: usize = 0;
    while i < n
        invariant
            i <= n,
            s@.len() == n,
            mid.len() == n,
            forall|t: int|
                0 <= t < n ==> (#[trigger] s@[t]).value() == (if t < i {
                    crate::arith::fmul(mid[t], invlen.value(), F::modulus())
                } else {
                    mid[t]
                }),
        decreases n - i,
    {
        let scaled: F = s[i].mul(&invlen);
        s[i] = scaled;
        i += 1;
    }
    proof {
        assert(values(s@) =~= intt(values(old(s)@), omega.value(), F::modulus()));
    }
}

} // verus!
