//! Division with remainder has one result: the quotient and the remainder that long division
//! returns are the only ones that satisfy the division identity.

use vstd::prelude::*;
use vstd::arithmetic::div_mod::{lemma_small_mod, lemma_sub_mod_noop};
use crate::arith::{is_inverse, is_unit, lemma_unit_cancels};
use crate::polynomial::arithmetic::{conv, conv_upto, division_holds};
use crate::polynomial::{canonical, coeff, lemma_stripped, stripped};

verus! {

/// Two quotients that agree above `x^k` have products with the divisor that differ, at the
/// power `x^(k + deg d)`, by the difference of their coefficients of `x^k` times the leading
/// coefficient of the divisor.
proof fn lemma_conv_difference(q1: Seq<int>, q2: Seq<int>, d: Seq<int>, k: int, n: nat)
    requires
        d.len() > 0,
        q1.len() == q2.len(),
        0 <= k < q1.len(),
        n <= q1.len(),
        forall|i: int| k < i < q1.len() ==> q1[i] == q2[i],
    ensures
        conv_upto(q1, d, k + d.len() - 1, n) - conv_upto(q2, d, k + d.len() - 1, n) == (if n > k {
            (q1[k] - q2[k]) * d.last()
        } else {
            0
        }),
    decreases n,
{
    if n > 0 {
        lemma_conv_difference(q1, q2, d, k, (n - 1) as nat);
        let i = n - 1;
        let c = coeff(d, k + d.len() - 1 - i);
        if i < k {
            assert(c == 0);
            assert(q1[i] * 0 == 0 && q2[i] * 0 == 0);
        } else if i == k {
            assert(c == d.last());
            assert(q1[k] * c - q2[k] * c == (q1[k] - q2[k]) * c) by (nonlinear_arith);
        } else {
            assert(q1[i] == q2[i]);
        }
    }
}

/// A difference of canonical residues that is a multiple of the modulus is zero.
proof fn lemma_congruent_canonical(x: int, y: int, p: int)
    requires
        p > 0,
        0 <= x < p,
        0 <= y < p,
        (x - y) % p == 0,
    ensures
        x == y,
{
    if x >= y {
        lemma_small_mod((x - y) as nat, p as nat);
    } else {
        lemma_small_mod((y - x) as nat, p as nat);
        vstd::arithmetic::div_mod::lemma_mod_add_multiples_vanish(x - y, p);
        lemma_small_mod((x - y + p) as nat, p as nat);
    }
}

/// Two quotients of one division agree from `x^k` upward.
proof fn lemma_quotients_agree(
    a: Seq<int>,
    q1: Seq<int>,
    r1: Seq<int>,
    q2: Seq<int>,
    r2: Seq<int>,
    d: Seq<int>,
    p: int,
    k: int,
)
    requires
        p > 1,
        d.len() > 0,
        is_unit(d.last(), p),
        canonical(q1, p),
        canonical(q2, p),
        q1.len() == q2.len(),
        r1.len() < d.len(),
        r2.len() < d.len(),
        division_holds(a, q1, d, r1, p),
        division_holds(a, q2, d, r2, p),
        0 <= k <= q1.len(),
    ensures
        forall|i: int| k <= i < q1.len() ==> q1[i] == q2[i],
    decreases q1.len() - k,
{
    if k < q1.len() {
        lemma_quotients_agree(a, q1, r1, q2, r2, d, p, k + 1);
        let at = k + d.len() - 1;
        lemma_conv_difference(q1, q2, d, k, q1.len());
        let c1 = conv(q1, d, at);
        let c2 = conv(q2, d, at);
        assert(coeff(a, at) == (c1 + coeff(r1, at)) % p);
        assert(coeff(a, at) == (c2 + coeff(r2, at)) % p);
        assert(coeff(r1, at) == 0 && coeff(r2, at) == 0);
        lemma_sub_mod_noop(c1, c2, p);
        lemma_small_mod(0, p as nat);
        assert((c1 - c2) % p == 0);
        let z = q1[k] - q2[k];
        assert((z * d.last()) % p == 0);
        let y = choose|y: int| is_inverse(d.last(), y, p);
        vstd::arithmetic::mul::lemma_mul_is_commutative(z, d.last());
        lemma_unit_cancels(d.last(), y, z, p);
        assert(0 * y == 0);
        lemma_small_mod(0, p as nat);
        lemma_congruent_canonical(q1[k], q2[k], p);
    }
}

/// Division with remainder by a divisor with an invertible leading coefficient has one result:
/// two quotients of equal length and two remainders without trailing zeros that both satisfy
/// the division identity are the same.
pub proof fn lemma_division_unique(
    a: Seq<int>,
    q1: Seq<int>,
    r1: Seq<int>,
    q2: Seq<int>,
    r2: Seq<int>,
    d: Seq<int>,
    p: int,
)
    requires
        p > 1,
        d.len() > 0,
        is_unit(d.last(), p),
        canonical(q1, p),
        canonical(q2, p),
        canonical(r1, p),
        canonical(r2, p),
        q1.len() == q2.len(),
        r1.len() < d.len(),
        r2.len() < d.len(),
        stripped(r1) == r1,
        stripped(r2) == r2,
        division_holds(a, q1, d, r1, p),
        division_holds(a, q2, d, r2, p),
    ensures
        q1 == q2,
        r1 == r2,
{
    lemma_quotients_agree(a, q1, r1, q2, r2, d, p, 0);
    assert(q1 =~= q2);
    assert forall|k: int| coeff(r1, k) == coeff(r2, k) by {
        let c = conv(q1, d, k);
        assert(coeff(a, k) == (c + coeff(r1, k)) % p);
        assert(coeff(a, k) == (c + coeff(r2, k)) % p);
        lemma_sub_mod_noop(c + coeff(r1, k), c + coeff(r2, k), p);
        lemma_small_mod(0, p as nat);
        assert((c + coeff(r1, k)) - (c + coeff(r2, k)) == coeff(r1, k) - coeff(r2, k));
        lemma_congruent_canonical(coeff(r1, k), coeff(r2, k), p);
    }
    lemma_stripped(r1);
    lemma_stripped(r2);
    if r1.len() > r2.len() {
        assert(coeff(r1, r1.len() - 1) == coeff(r2, r1.len() - 1));
    }
    if r2.len() > r1.len() {
        assert(coeff(r1, r2.len() - 1) == coeff(r2, r2.len() - 1));
    }
    assert forall|k: int| 0 <= k < r1.len() implies r1[k] == r2[k] by {
        assert(coeff(r1, k) == coeff(r2, k));
    }
    assert(r1 =~= r2);
}

} // verus!
