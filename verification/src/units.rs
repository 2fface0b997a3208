//! Units modulo a prime: with a generator of the whole multiplicative group in hand, every
//! non-zero residue is a power of the generator, and so has an inverse.

use vstd::prelude::*;
use vstd::arithmetic::div_mod::{
    lemma_fundamental_div_mod, lemma_mod_bound, lemma_mod_multiples_basic, lemma_mod_twice,
    lemma_small_mod,
};
use vstd::arithmetic::mul::{lemma_mul_basics, lemma_mul_is_commutative};
use vstd::arithmetic::power::{lemma1_pow, pow};
use vstd::relations::injective_on;
use vstd::set_lib::{lemma_int_range, lemma_map_size, lemma_subset_equality, set_int_range};
use crate::arith::{
    fmul, fpow, gcd, is_inverse, is_unit, lemma_fpow_add, lemma_fpow_mul, lemma_gcd_divides,
    lemma_root_of_one_is_unit, lemma_unit_cancels,
};

verus! {

/// `r` has no divisor between one and itself.
pub open spec fn is_prime(r: int) -> bool {
    r >= 2 && forall|d: int| 2 <= d < r ==> #[trigger] (r % d) != 0
}

/// The product of the entries.
pub open spec fn product(l: Seq<int>) -> int
    decreases l.len(),
{
    if l.len() == 0 {
        1
    } else {
        l[0] * product(l.drop_first())
    }
}

/// Every entry is prime.
pub open spec fn all_prime(l: Seq<int>) -> bool {
    forall|i: int| 0 <= i < l.len() ==> is_prime(#[trigger] l[i])
}

/// `g` generates the multiplicative group modulo `p`, as certified by the prime factors of
/// `p - 1`: its `(p - 1)`-th power is one, and no power by `p - 1` over a prime factor is.
pub open spec fn generates(g: int, p: int, factors: Seq<int>) -> bool {
    &&& p > 2
    &&& product(factors) == p - 1
    &&& all_prime(factors)
    &&& fpow(g, (p - 1) as nat, p) == 1
    &&& forall|i: int|
        0 <= i < factors.len() ==> fpow(g, ((p - 1) / #[trigger] factors[i]) as nat, p) != 1
}

/// The greatest common divisor is an integer combination of its arguments.
pub proof fn lemma_bezout(a: nat, b: nat) -> (c: (int, int))
    ensures
        c.0 * a + c.1 * b == gcd(a, b),
    decreases b,
{
    if b == 0 {
        (1, 0)
    } else {
        let (x, y) = lemma_bezout(b, a % b);
        let q = (a / b) as int;
        let r = (a % b) as int;
        lemma_fundamental_div_mod(a as int, b as int);
        assert(y * a + (x - q * y) * b == x * b + y * r) by (nonlinear_arith)
            requires
                a == b * q + r,
        ;
        (y, x - q * y)
    }
}

/// What divides a product and is coprime to one factor divides the other.
pub proof fn lemma_coprime_divides(m: nat, r: nat, x: int)
    requires
        m > 0,
        gcd(m, r) == 1,
        (r * x) % (m as int) == 0,
    ensures
        x % (m as int) == 0,
{
    let (u, v) = lemma_bezout(m, r);
    lemma_fundamental_div_mod(r * x, m as int);
    let k = (r * x) / (m as int);
    assert(x == (u * x + v * k) * m) by (nonlinear_arith)
        requires
            u * m + v * r == 1,
            r * x == m * k,
    ;
    lemma_mod_multiples_basic(u * x + v * k, m as int);
}

/// A prime that does not divide a number is coprime to it.
pub proof fn lemma_prime_coprime(m: nat, r: nat)
    requires
        is_prime(r as int),
        m > 0,
        m % r != 0,
    ensures
        gcd(m, r) == 1,
{
    let g = gcd(m, r);
    lemma_gcd_divides(m, r);
    assert(g > 0);
    lemma_fundamental_div_mod(r as int, g as int);
    let k = r / g;
    assert(g <= r) by (nonlinear_arith)
        requires
            r == g * k,
            r >= 2,
            g > 0,
            k >= 0,
    ;
    if g >= 2 && g < r {
        assert((r as int) % (g as int) != 0);
    }
}

/// A number above one that divides a product of primes is divisible by one of them.
pub proof fn lemma_prime_factor_in_list(m: nat, factors: Seq<int>) -> (i: int)
    requires
        m > 1,
        all_prime(factors),
        product(factors) % (m as int) == 0,
    ensures
        0 <= i < factors.len(),
        (m as int) % factors[i] == 0,
    decreases factors.len(),
{
    if factors.len() == 0 {
        lemma_small_mod(1, m);
        0
    } else {
        let r = factors[0];
        let rest = factors.drop_first();
        assert(is_prime(r));
        if (m as int) % r == 0 {
            0
        } else {
            lemma_prime_coprime(m, r as nat);
            lemma_coprime_divides(m, r as nat, product(rest));
            assert forall|i: int| 0 <= i < rest.len() implies is_prime(#[trigger] rest[i]) by {
                assert(rest[i] == factors[i + 1]);
            }
            let i = lemma_prime_factor_in_list(m, rest);
            assert(rest[i] == factors[i + 1]);
            i + 1
        }
    }
}

/// A proper divisor of a product of primes divides the product over one of them.
pub proof fn lemma_missing_factor(n: int, factors: Seq<int>, c: int) -> (i: int)
    requires
        n == product(factors),
        all_prime(factors),
        0 < c < n,
        n % c == 0,
    ensures
        0 <= i < factors.len(),
        n % factors[i] == 0,
        (n / factors[i]) % c == 0,
{
    lemma_fundamental_div_mod(n, c);
    let m = n / c;
    assert(m > 1) by (nonlinear_arith)
        requires
            n == c * m,
            0 < c < n,
    ;
    lemma_mul_is_commutative(c, m);
    lemma_mod_multiples_basic(c, m);
    let i = lemma_prime_factor_in_list(m as nat, factors);
    let r = factors[i];
    assert(is_prime(r));
    lemma_fundamental_div_mod(m, r);
    let t = m / r;
    assert(n == (c * t) * r && n == r * (c * t)) by (nonlinear_arith)
        requires
            n == c * m,
            m == r * t,
    ;
    lemma_mod_multiples_basic(c * t, r);
    vstd::arithmetic::div_mod::lemma_fundamental_div_mod_converse(n, r, c * t, 0);
    lemma_mul_is_commutative(c, t);
    lemma_mod_multiples_basic(t, c);
    i
}

/// The exponents at which a residue has the power one are closed under the greatest common
/// divisor.
pub proof fn lemma_exponent_gcd(g: int, p: int, a: nat, b: nat)
    requires
        p > 1,
        fpow(g, a, p) == 1,
        fpow(g, b, p) == 1,
    ensures
        fpow(g, gcd(a, b), p) == 1,
    decreases b,
{
    if b != 0 {
        let q = a / b;
        let r = a % b;
        lemma_fundamental_div_mod(a as int, b as int);
        lemma_fpow_add(g, b * q, r, p);
        lemma_fpow_mul(g, b, q, p);
        lemma1_pow(q);
        lemma_small_mod(1, p as nat);
        assert(fpow(g, b * q, p) == 1);
        lemma_mul_basics(fpow(g, r, p));
        lemma_mod_twice(pow(g, r), p);
        assert(fpow(g, r, p) == 1);
        lemma_exponent_gcd(g, p, b, r);
    }
}

/// A generator has the power one at no exponent between zero and `p - 1`.
pub proof fn lemma_no_small_order(g: int, p: int, factors: Seq<int>, e: int)
    requires
        generates(g, p, factors),
        0 < e < p - 1,
    ensures
        fpow(g, e as nat, p) != 1,
{
    let n = p - 1;
    if fpow(g, e as nat, p) == 1 {
        let c = gcd(e as nat, n as nat);
        lemma_exponent_gcd(g, p, e as nat, n as nat);
        lemma_gcd_divides(e as nat, n as nat);
        assert(c > 0);
        lemma_fundamental_div_mod(e, c as int);
        let k = e / (c as int);
        assert(c <= e) by (nonlinear_arith)
            requires
                e == c * k,
                e > 0,
                c > 0,
        ;
        let i = lemma_missing_factor(n, factors, c as int);
        let high = n / factors[i];
        lemma_fundamental_div_mod(high, c as int);
        let t = high / (c as int);
        assert(is_prime(factors[i]));
        vstd::arithmetic::div_mod::lemma_div_pos_is_pos(n, factors[i]);
        vstd::arithmetic::div_mod::lemma_div_pos_is_pos(high, c as int);
        lemma_fpow_mul(g, c, t as nat, p);
        lemma1_pow(t as nat);
        lemma_small_mod(1, p as nat);
        assert(fpow(g, high as nat, p) == 1);
        assert(false);
    }
}

/// The powers of a generator below `p - 1` are pairwise distinct.
pub proof fn lemma_powers_distinct(g: int, p: int, factors: Seq<int>, i: int, j: int)
    requires
        generates(g, p, factors),
        0 <= i < j < p - 1,
    ensures
        fpow(g, i as nat, p) != fpow(g, j as nat, p),
{
    let u = fpow(g, i as nat, p);
    let d = fpow(g, (j - i) as nat, p);
    if u == fpow(g, j as nat, p) {
        lemma_root_of_one_is_unit(g, (p - 1) as nat, i as nat, p);
        let y = choose|y: int| is_inverse(u, y, p);
        lemma_fpow_add(g, i as nat, (j - i) as nat, p);
        assert(fmul(u, d, p) == u);
        lemma_unit_cancels(u, y, d, p);
        lemma_mod_twice(pow(g, (j - i) as nat), p);
        lemma_mul_is_commutative(u, y);
        assert(d == 1);
        lemma_no_small_order(g, p, factors, j - i);
    }
}

/// Modulo a number with a generator of its whole multiplicative group, every non-zero residue
/// is a unit.
pub proof fn lemma_certified_units(g: int, p: int, factors: Seq<int>, a: int)
    requires
        generates(g, p, factors),
        0 < a < p,
    ensures
        is_unit(a, p),
{
    let n = p - 1;
    let f = |i: int| fpow(g, i as nat, p);
    let exponents = set_int_range(0, n);
    let powers = exponents.map(f);
    let residues = set_int_range(1, p);
    lemma_int_range(0, n);
    lemma_int_range(1, p);
    assert(injective_on(f, exponents)) by {
        assert forall|x1: int, x2: int|
            exponents.contains(x1) && exponents.contains(x2) && #[trigger] f(x1) == #[trigger] f(
                x2,
            ) implies x1 == x2 by {
            if x1 < x2 {
                lemma_powers_distinct(g, p, factors, x1, x2);
            } else if x2 < x1 {
                lemma_powers_distinct(g, p, factors, x2, x1);
            }
        }
    }
    lemma_map_size(exponents, powers, f);
    assert forall|b: int| powers.contains(b) implies residues.contains(b) by {
        let i = choose|i: int| exponents.contains(i) && f(i) == b;
        lemma_mod_bound(pow(g, i as nat), p);
        lemma_root_of_one_is_unit(g, n as nat, i as nat, p);
        if b == 0 {
            let y = choose|y: int| is_inverse(b, y, p);
            assert(0 * y == 0);
            lemma_small_mod(0, p as nat);
        }
    }
    lemma_subset_equality(powers, residues);
    assert(residues.contains(a));
    assert(powers.contains(a));
    let i = choose|i: int| exponents.contains(i) && f(i) == a;
    lemma_root_of_one_is_unit(g, n as nat, i as nat, p);
}

/// `k` times the number two.
pub open spec fn twos(k: nat) -> Seq<int> {
    Seq::new(k, |i: int| 2int)
}

/// The product of `k` twos is `2^k`.
pub proof fn lemma_product_twos(k: nat)
    ensures
        product(twos(k)) == vstd::arithmetic::power2::pow2(k),
    decreases k,
{
    vstd::arithmetic::power2::lemma2_to64();
    if k > 0 {
        lemma_product_twos((k - 1) as nat);
        assert(twos(k).drop_first() =~= twos((k - 1) as nat));
        vstd::arithmetic::power2::lemma_pow2_unfold(k);
    }
}

/// The product of two lists joined is the product of their products.
pub proof fn lemma_product_concat(a: Seq<int>, b: Seq<int>)
    ensures
        product(a + b) == product(a) * product(b),
    decreases a.len(),
{
    if a.len() == 0 {
        assert(a + b =~= b);
        assert(1 * product(b) == product(b));
    } else {
        lemma_product_concat(a.drop_first(), b);
        assert((a + b).drop_first() =~= a.drop_first() + b);
        let x = a[0];
        let y = product(a.drop_first());
        let z = product(b);
        assert(x * (y * z) == (x * y) * z) by (nonlinear_arith);
    }
}

/// A number without a divisor from two up to a bound whose square exceeds it is prime.
pub proof fn lemma_prime_by_trial(r: int, bound: int)
    requires
        r >= 2,
        bound >= 1,
        bound * bound > r,
        forall|d: int| 2 <= d <= bound ==> #[trigger] (r % d) != 0,
    ensures
        is_prime(r),
{
    assert forall|d: int| 2 <= d < r implies #[trigger] (r % d) != 0 by {
        if r % d == 0 {
            lemma_fundamental_div_mod(r, d);
            let q = r / d;
            assert(2 <= q < r) by (nonlinear_arith)
                requires
                    r == d * q,
                    2 <= d < r,
            ;
            lemma_mul_is_commutative(d, q);
            lemma_mod_multiples_basic(d, q);
            if d > bound {
                if q > bound {
                    assert(d * q >= (bound + 1) * (bound + 1)) by (nonlinear_arith)
                        requires
                            d >= bound + 1,
                            q >= bound + 1,
                            bound >= 1,
                    ;
                    assert((bound + 1) * (bound + 1) > bound * bound) by (nonlinear_arith)
                        requires
                            bound >= 1,
                    ;
                }
                assert(r % q != 0);
            }
        }
    }
}

} // verus!
