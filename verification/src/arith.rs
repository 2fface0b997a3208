//! Arithmetic modulo a positive integer, as used by every field of this crate.

use vstd::prelude::*;
use vstd::arithmetic::div_mod::*;
use vstd::arithmetic::mul::*;
use vstd::arithmetic::power::*;
use vstd::arithmetic::power2::*;

verus! {

/// Sum of `a` and `b` modulo `p`.
pub open spec fn fadd(a: int, b: int, p: int) -> int {
    (a + b) % p
}

/// Difference of `a` and `b` modulo `p`.
pub open spec fn fsub(a: int, b: int, p: int) -> int {
    (a - b) % p
}

/// Product of `a` and `b` modulo `p`.
pub open spec fn fmul(a: int, b: int, p: int) -> int {
    (a * b) % p
}

/// Additive inverse of `a` modulo `p`.
pub open spec fn fneg(a: int, p: int) -> int {
    (-a) % p
}

/// `b` raised to `e`, modulo `p`.
pub open spec fn fpow(b: int, e: nat, p: int) -> int {
    pow(b, e) % p
}

/// `y` is the canonical multiplicative inverse of `a` modulo `p`.
pub open spec fn is_inverse(a: int, y: int, p: int) -> bool {
    0 <= y < p && (a * y) % p == 1
}

/// `a` has a multiplicative inverse modulo `p`.
pub open spec fn is_unit(a: int, p: int) -> bool {
    exists|y: int| is_inverse(a, y, p)
}

/// Greatest common divisor by Euclid's recursion.
pub open spec fn gcd(a: nat, b: nat) -> nat
    decreases b,
{
    if b == 0 {
        a
    } else {
        gcd(b, a % b)
    }
}

/// The number whose little-endian base-256 digits are `s`.
pub open spec fn le_value(s: Seq<u8>) -> int
    decreases s.len(),
{
    if s.len() == 0 {
        0
    } else {
        s[0] as int + 256 * le_value(s.drop_first())
    }
}

/// The `width` little-endian base-256 digits of `v`.
pub open spec fn le_bytes(v: int, width: nat) -> Seq<u8>
    decreases width,
{
    if width == 0 {
        Seq::<u8>::empty()
    } else {
        seq![(v % 256) as u8] + le_bytes(v / 256, (width - 1) as nat)
    }
}

/// The number whose big-endian base-256 digits are `s`.
pub open spec fn be_value(s: Seq<u8>) -> int
    decreases s.len(),
{
    if s.len() == 0 {
        0
    } else {
        256 * be_value(s.drop_last()) + s.last() as int
    }
}

/// The number whose little-endian base-`2^64` digits are `s`.
pub open spec fn limbs_value(s: Seq<u64>) -> int
    decreases s.len(),
{
    if s.len() == 0 {
        0
    } else {
        s[0] as int + 0x1_0000_0000_0000_0000 * limbs_value(s.drop_first())
    }
}

/// The least `k` with `n <= 2^k`.
pub open spec fn ceil_log2(n: nat) -> nat
    decreases n,
{
    if n <= 1 {
        0
    } else {
        1 + ceil_log2((n + 1) / 2)
    }
}

/// The greatest `k` with `2^k <= n`, and 0 for `n == 0`.
pub open spec fn floor_log2(n: nat) -> nat
    decreases n,
{
    if n <= 1 {
        0
    } else {
        1 + floor_log2(n / 2)
    }
}

/// The least power of two that is at least `n`.
pub open spec fn next_power_of_two(n: nat) -> nat {
    pow2(ceil_log2(n))
}

/// `n` is a power of two.
pub open spec fn is_power_of_two(n: nat) -> bool {
    n == pow2(floor_log2(n))
}

/// Congruent factors give congruent products.
pub proof fn lemma_fmul_congruent(a: int, a2: int, b: int, b2: int, p: int)
    requires
        p > 0,
        a % p == a2 % p,
        b % p == b2 % p,
    ensures
        fmul(a, b, p) == fmul(a2, b2, p),
{
    lemma_mul_mod_noop_general(a, b, p);
    lemma_mul_mod_noop_general(a2, b2, p);
}

/// Congruent terms give congruent sums.
pub proof fn lemma_fadd_congruent(a: int, a2: int, b: int, b2: int, p: int)
    requires
        p > 0,
        a % p == a2 % p,
        b % p == b2 % p,
    ensures
        fadd(a, b, p) == fadd(a2, b2, p),
{
    lemma_add_mod_noop(a, b, p);
    lemma_add_mod_noop(a2, b2, p);
}

/// Congruent terms give congruent differences.
pub proof fn lemma_fsub_congruent(a: int, a2: int, b: int, b2: int, p: int)
    requires
        p > 0,
        a % p == a2 % p,
        b % p == b2 % p,
    ensures
        fsub(a, b, p) == fsub(a2, b2, p),
{
    lemma_sub_mod_noop(a, b, p);
    lemma_sub_mod_noop(a2, b2, p);
}

/// One more factor of the base multiplies the power by the base.
pub proof fn lemma_fpow_step(b: int, e: nat, p: int)
    requires
        p > 0,
    ensures
        fpow(b, e + 1, p) == fmul(b, fpow(b, e, p), p),
        fpow(b, e + 1, p) == fmul(fpow(b, e, p), b, p),
{
    reveal(pow);
    assert(pow(b, e + 1) == b * pow(b, e));
    lemma_mul_mod_noop_general(b, pow(b, e), p);
    lemma_mul_is_commutative(b, pow(b, e) % p);
    lemma_mod_twice(b * (pow(b, e) % p), p);
    assert((b * (pow(b, e) % p)) % p == (b * pow(b, e)) % p) by {
        lemma_mul_mod_noop_right(b, pow(b, e), p);
    }
}

/// Exponents add when powers of one base are multiplied.
pub proof fn lemma_fpow_add(b: int, e1: nat, e2: nat, p: int)
    requires
        p > 0,
    ensures
        fpow(b, e1 + e2, p) == fmul(fpow(b, e1, p), fpow(b, e2, p), p),
{
    lemma_pow_adds(b, e1, e2);
    lemma_mul_mod_noop_general(pow(b, e1), pow(b, e2), p);
}

/// A power of a power is the power by the product of the exponents.
pub proof fn lemma_fpow_mul(b: int, e1: nat, e2: nat, p: int)
    requires
        p > 0,
    ensures
        fpow(fpow(b, e1, p), e2, p) == fpow(b, e1 * e2, p),
{
    lemma_pow_mod_noop(pow(b, e1), e2, p);
    lemma_pow_multiplies(b, e1, e2);
}

/// The power depends on the base only through its residue.
pub proof fn lemma_fpow_base_mod(b: int, e: nat, p: int)
    requires
        p > 0,
    ensures
        fpow(b % p, e, p) == fpow(b, e, p),
{
    lemma_pow_mod_noop(b, e, p);
}

/// Squaring doubles the exponent.
pub proof fn lemma_fpow_double(b: int, e: nat, p: int)
    requires
        p > 0,
    ensures
        fpow(b, 2 * e, p) == fmul(fpow(b, e, p), fpow(b, e, p), p),
{
    lemma_fpow_add(b, e, e, p);
    assert(e + e == 2 * e);
}

/// Multiplication modulo `p` is associative.
pub proof fn lemma_fmul_assoc(a: int, b: int, c: int, p: int)
    requires
        p > 0,
    ensures
        fmul(fmul(a, b, p), c, p) == fmul(a, fmul(b, c, p), p),
{
    lemma_mul_mod_noop_left(a * b, c, p);
    lemma_mul_mod_noop_right(a, b * c, p);
    lemma_mul_is_associative(a, b, c);
}

/// Every common divisor of the arguments divides their greatest common divisor's
/// arguments: the greatest common divisor divides both.
pub proof fn lemma_gcd_divides(a: nat, b: nat)
    ensures
        gcd(a, b) > 0 ==> a % gcd(a, b) == 0 && b % gcd(a, b) == 0,
        gcd(a, b) == 0 ==> a == 0 && b == 0,
    decreases b,
{
    if b == 0 {
        if a > 0 {
            lemma_mod_self_0(a as int);
        }
    } else {
        lemma_gcd_divides(b, a % b);
        let g = gcd(a, b);
        assert(g == gcd(b, a % b));
        if g > 0 {
            let r = a % b;
            let q = a / b;
            lemma_fundamental_div_mod(a as int, b as int);
            assert(a == b * q + r);
            let kb = b / g;
            let kr = r / g;
            lemma_fundamental_div_mod(b as int, g as int);
            lemma_fundamental_div_mod(r as int, g as int);
            assert(b == g * kb);
            assert(r == g * kr);
            assert(a == g * (kb * q + kr)) by (nonlinear_arith)
                requires
                    a == b * q + r,
                    b == g * kb,
                    r == g * kr,
            ;
            lemma_mod_multiples_basic((kb * q + kr) as int, g as int);
            lemma_mul_is_commutative(g as int, (kb * q + kr) as int);
            assert(a as int == ((kb * q + kr) as int) * (g as int));
            assert((a as int) % (g as int) == 0);
        }
    }
}

/// A residue that shares a factor above one with the modulus has no inverse.
pub proof fn lemma_common_factor_not_unit(a: int, p: int, g: int)
    requires
        p > 0,
        g > 1,
        a % g == 0,
        p % g == 0,
    ensures
        !is_unit(a, p),
{
    if is_unit(a, p) {
        let y = choose|y: int| is_inverse(a, y, p);
        lemma_fundamental_div_mod(a * y, p);
        let k = (a * y) / p;
        assert(a * y == p * k + 1);
        lemma_fundamental_div_mod(a, g);
        lemma_fundamental_div_mod(p, g);
        let ka = a / g;
        let kp = p / g;
        assert(1 == g * (ka * y - kp * k)) by (nonlinear_arith)
            requires
                a * y == p * k + 1,
                a == g * ka,
                p == g * kp,
        ;
        assert(false) by (nonlinear_arith)
            requires
                1 == g * (ka * y - kp * k),
                g > 1,
        ;
    }
}

/// One step of Euclid's algorithm with the cofactor kept modulo `p`: if `t0 * a` and
/// `t1 * a` are congruent to `r0` and `r1`, then `(t0 - q * t1) * a` is congruent to
/// `r0 - q * r1`.
pub proof fn lemma_euclid_step(a: int, p: int, r0: int, r1: int, t0: int, t1: int, q: int)
    requires
        p > 0,
        (t0 * a) % p == r0 % p,
        (t1 * a) % p == r1 % p,
    ensures
        (fsub(t0, fmul(q, t1, p), p) * a) % p == (r0 - q * r1) % p,
{
    let t2 = fsub(t0, fmul(q, t1, p), p);
    lemma_mul_mod_noop_left(t0 - fmul(q, t1, p), a, p);
    assert((t2 * a) % p == ((t0 - fmul(q, t1, p)) * a) % p);
    lemma_mul_is_distributive_sub_other_way(a, t0, fmul(q, t1, p));
    assert((t0 - fmul(q, t1, p)) * a == t0 * a - fmul(q, t1, p) * a);
    lemma_sub_mod_noop(t0 * a, fmul(q, t1, p) * a, p);
    lemma_mul_mod_noop_left(q * t1, a, p);
    lemma_mul_is_associative(q, t1, a);
    lemma_mul_mod_noop_right(q, t1 * a, p);
    lemma_mul_mod_noop_right(q, r1, p);
    assert((fmul(q, t1, p) * a) % p == (q * r1) % p);
    lemma_sub_mod_noop(r0, q * r1, p);
}

/// Appending a digit adds it at the weight of its position.
pub proof fn lemma_le_value_push(s: Seq<u8>, b: u8)
    ensures
        le_value(s.push(b)) == le_value(s) + (b as int) * pow(256, s.len()),
    decreases s.len(),
{
    reveal(pow);
    if s.len() == 0 {
        assert(s.push(b).drop_first() =~= Seq::<u8>::empty());
        assert(le_value(s.push(b)) == b as int + 256 * le_value(Seq::<u8>::empty()));
    } else {
        assert(s.push(b).drop_first() =~= s.drop_first().push(b));
        lemma_le_value_push(s.drop_first(), b);
        assert(pow(256, s.len()) == 256 * pow(256, (s.len() - 1) as nat));
        assert(256 * ((b as int) * pow(256, (s.len() - 1) as nat)) == (b as int) * (256 * pow(
            256,
            (s.len() - 1) as nat,
        ))) by (nonlinear_arith);
    }
}

/// The value of a digit string lies below the power of its length.
pub proof fn lemma_le_value_bounds(s: Seq<u8>)
    ensures
        0 <= le_value(s) < pow(256, s.len()),
    decreases s.len(),
{
    reveal(pow);
    if s.len() > 0 {
        lemma_le_value_bounds(s.drop_first());
    }
}

/// Squaring a power whose exponent is a power of two doubles that exponent.
pub proof fn lemma_fpow_pow2_step(b: int, k: nat, p: int)
    requires
        p > 0,
    ensures
        fpow(b, pow2(k + 1), p) == fmul(fpow(b, pow2(k), p), fpow(b, pow2(k), p), p),
{
    lemma_pow2_unfold(k + 1);
    lemma_fpow_double(b, pow2(k), p);
}

/// The values of the string without its first digit and of the whole string.
pub proof fn lemma_le_value_suffix(s: Seq<u8>, k: int)
    requires
        0 <= k < s.len(),
    ensures
        le_value(s.subrange(k, s.len() as int)) == s[k] as int + 256 * le_value(
            s.subrange(k + 1, s.len() as int),
        ),
{
    let t = s.subrange(k, s.len() as int);
    assert(t.drop_first() =~= s.subrange(k + 1, s.len() as int));
}

/// `ceil_log2(n)` is the least exponent whose power of two reaches `n`.
pub proof fn lemma_ceil_log2_bounds(n: nat)
    ensures
        n <= pow2(ceil_log2(n)),
        n > 1 ==> pow2((ceil_log2(n) - 1) as nat) < n,
    decreases n,
{
    lemma2_to64();
    if n > 1 {
        let h = (n + 1) / 2;
        lemma_ceil_log2_bounds(h);
        lemma_pow2_unfold(ceil_log2(n));
        if h > 1 {
            lemma_pow2_unfold(ceil_log2(h));
        }
    }
}

/// An upper bound by a power of two bounds the logarithm.
pub proof fn lemma_ceil_log2_le(n: nat, k: nat)
    requires
        n <= pow2(k),
    ensures
        ceil_log2(n) <= k,
    decreases n,
{
    lemma2_to64();
    if n > 1 {
        if k == 0 {
        } else {
            lemma_pow2_unfold(k);
            lemma_ceil_log2_le((n + 1) / 2, (k - 1) as nat);
        }
    }
}

/// Both logarithms of a power of two are its exponent.
pub proof fn lemma_log2_pow2(k: nat)
    ensures
        ceil_log2(pow2(k)) == k,
        floor_log2(pow2(k)) == k,
        is_power_of_two(pow2(k)),
    decreases k,
{
    lemma2_to64();
    if k > 0 {
        lemma_pow2_unfold(k);
        lemma_pow2_pos((k - 1) as nat);
        lemma_log2_pow2((k - 1) as nat);
        assert((pow2(k) + 1) / 2 == pow2((k - 1) as nat));
        assert(pow2(k) / 2 == pow2((k - 1) as nat));
    }
}

/// A power of two is the power of its own logarithm, whichever logarithm is taken.
pub proof fn lemma_power_of_two_logs(n: nat)
    requires
        is_power_of_two(n),
    ensures
        n >= 1,
        ceil_log2(n) == floor_log2(n),
        n == pow2(ceil_log2(n)),
{
    lemma_pow2_pos(floor_log2(n));
    lemma_log2_pow2(floor_log2(n));
}

/// The exponent `k` with `n <= 2^k`, least possible.
pub fn ceil_log2_u64(n: u64) -> (r: u32)
    ensures
        r == ceil_log2(n as nat),
        r <= 64,
{
    let mut m: u64 = n;
    let mut k: u32 = 0;
    proof {
        lemma2_to64();
        lemma2_to64_rest();
        lemma_ceil_log2_le(n as nat, 64);
    }
    while m > 1
        invariant
            k + ceil_log2(m as nat) == ceil_log2(n as nat),
            ceil_log2(n as nat) <= 64,
        decreases m,
    {
        m = m - m / 2;
        k += 1;
    }
    k
}

/// The power of two with exponent `k`.
pub fn pow2_u64(k: u32) -> (r: u64)
    requires
        k < 64,
    ensures
        r == pow2(k as nat),
{
    let mut r: u64 = 1;
    let mut i: u32 = 0;
    proof {
        lemma2_to64();
        lemma2_to64_rest();
    }
    while i < k
        invariant
            i <= k,
            k < 64,
            r == pow2(i as nat),
            pow2(63) == 0x8000000000000000,
        decreases k - i,
    {
        proof {
            lemma_pow2_unfold((i + 1) as nat);
            if i + 1 < 63 {
                lemma_pow2_strictly_increases((i + 1) as nat, 63);
            }
        }
        r = r * 2;
        i += 1;
    }
    r
}

/// Inverses modulo `p` are unique.
pub proof fn lemma_inverse_unique(a: int, y: int, z: int, p: int)
    requires
        p > 0,
        is_inverse(a, y, p),
        is_inverse(a, z, p),
    ensures
        y == z,
{
    // y = y * (a * z) = (y * a) * z = z, all modulo p
    lemma_fmul_assoc(y, a, z, p);
    lemma_mul_is_commutative(y, a);
    assert(fmul(y, a, p) == 1);
    assert(fmul(y, fmul(a, z, p), p) == fmul(y, 1, p));
    assert(fmul(fmul(y, a, p), z, p) == fmul(1, z, p));
    lemma_mul_basics(y);
    lemma_mul_basics(z);
    lemma_small_mod(y as nat, p as nat);
    lemma_small_mod(z as nat, p as nat);
}

/// A product of units is a unit.
pub proof fn lemma_unit_mul(a: int, b: int, p: int)
    requires
        p > 0,
        is_unit(a, p),
        is_unit(b, p),
    ensures
        is_unit(fmul(a, b, p), p),
        is_unit(a * b, p),
{
    let y = choose|y: int| is_inverse(a, y, p);
    let z = choose|z: int| is_inverse(b, z, p);
    let yz = fmul(y, z, p);
    // (a * b) * (y * z) = (a * y) * (b * z)
    assert((a * b) * (y * z) == (a * y) * (b * z)) by (nonlinear_arith);
    lemma_mul_mod_noop_general(a * y, b * z, p);
    lemma_mul_mod_noop_general(a * b, y * z, p);
    assert(((a * b) * (y * z)) % p == (1int * 1int) % p);
    lemma_mod_bound(y * z, p);
    if p == 1 {
        assert(false);
    }
    lemma_small_mod(1, p as nat);
    assert(is_inverse(a * b, yz, p)) by {
        lemma_mul_mod_noop_right(a * b, y * z, p);
    }
    assert(is_inverse(fmul(a, b, p), yz, p)) by {
        lemma_mul_mod_noop_general(a * b, y * z, p);
    }
}

/// Two is a unit modulo an odd number above one, and so is every power of two.
pub proof fn lemma_pow2_is_unit(k: nat, p: int)
    requires
        p > 2,
        p % 2 == 1,
    ensures
        is_unit(pow2(k) as int, p),
        is_unit((pow2(k) as int) % p, p),
    decreases k,
{
    lemma2_to64();
    lemma_small_mod(1, p as nat);
    if k == 0 {
        assert(is_inverse(1, 1, p));
    } else {
        lemma_pow2_is_unit((k - 1) as nat, p);
        lemma_pow2_unfold(k);
        let half = (p + 1) / 2;
        assert(2 * half == p + 1);
        lemma_mod_multiples_vanish(1, 1, p);
        assert(is_inverse(2, half, p));
        lemma_unit_mul(2, pow2((k - 1) as nat) as int, p);
    }
    let y = choose|y: int| is_inverse(pow2(k) as int, y, p);
    lemma_mul_mod_noop_left(pow2(k) as int, y, p);
    assert(is_inverse((pow2(k) as int) % p, y, p));
}

/// An element with a positive power equal to one is a unit, and so is each of its powers.
pub proof fn lemma_root_of_one_is_unit(w: int, n: nat, e: nat, p: int)
    requires
        p > 1,
        n >= 1,
        fpow(w, n, p) == 1,
    ensures
        is_unit(w, p),
        is_unit(fpow(w, e, p), p),
    decreases e,
{
    lemma_fpow_step(w, (n - 1) as nat, p);
    let y = fpow(w, (n - 1) as nat, p);
    lemma_mod_bound(pow(w, (n - 1) as nat), p);
    lemma_mul_mod_noop_right(w, pow(w, (n - 1) as nat), p);
    assert(is_inverse(w, y, p));
    if e == 0 {
        lemma_pow0(w);
        lemma_small_mod(1, p as nat);
        assert(is_inverse(1, 1, p));
    } else {
        lemma_root_of_one_is_unit(w, n, (e - 1) as nat, p);
        lemma_fpow_step(w, (e - 1) as nat, p);
        lemma_unit_mul(w, fpow(w, (e - 1) as nat, p), p);
    }
}

/// Multiplying by the inverse of a unit undoes multiplying by the unit.
pub proof fn lemma_inverse_cancels(x: int, a: int, y: int, p: int)
    requires
        p > 0,
        is_inverse(a, y, p),
    ensures
        (fmul(x, y, p) * a) % p == x % p,
{
    lemma_mul_mod_noop_left(x * y, a, p);
    lemma_mul_is_associative(x, y, a);
    lemma_mul_is_commutative(y, a);
    lemma_mul_mod_noop_right(x, a * y, p);
    lemma_mul_basics(x);
}

/// A digit string is the digits of its own value.
pub proof fn lemma_le_bytes_of_value(s: Seq<u8>)
    ensures
        le_bytes(le_value(s), s.len()) == s,
    decreases s.len(),
{
    if s.len() > 0 {
        let rest = s.drop_first();
        lemma_le_bytes_of_value(rest);
        lemma_le_value_bounds(rest);
        let v = le_value(s);
        assert(v == s[0] as int + 256 * le_value(rest));
        lemma_fundamental_div_mod_converse(v, 256, le_value(rest), s[0] as int);
        assert(le_bytes(v, s.len()) =~= s);
    }
}

/// The digits of a number below `256^width` have that number as their value.
pub proof fn lemma_le_value_of_bytes(v: int, width: nat)
    requires
        0 <= v < pow(256, width),
    ensures
        le_bytes(v, width).len() == width,
        le_value(le_bytes(v, width)) == v,
    decreases width,
{
    reveal(pow);
    if width > 0 {
        lemma_fundamental_div_mod(v, 256);
        lemma_le_value_of_bytes(v / 256, (width - 1) as nat);
        let s = le_bytes(v, width);
        assert(s.drop_first() =~= le_bytes(v / 256, (width - 1) as nat));
    }
}

/// The value of a digit string splits at any position.
pub proof fn lemma_le_value_split(s: Seq<u8>, k: int)
    requires
        0 <= k <= s.len(),
    ensures
        le_value(s) == le_value(s.subrange(0, k)) + pow(256, k as nat) * le_value(
            s.subrange(k, s.len() as int),
        ),
    decreases k,
{
    reveal(pow);
    if k == 0 {
        assert(s.subrange(0, s.len() as int) =~= s);
        assert(le_value(s.subrange(0, 0)) == 0);
    } else {
        let rest = s.drop_first();
        lemma_le_value_split(rest, k - 1);
        assert(rest.subrange(0, k - 1) =~= s.subrange(0, k).drop_first());
        assert(rest.subrange(k - 1, rest.len() as int) =~= s.subrange(k, s.len() as int));
        let hi = le_value(s.subrange(k, s.len() as int));
        assert(256 * (pow(256, (k - 1) as nat) * hi) == pow(256, k as nat) * hi) by (nonlinear_arith)
            requires
                pow(256, k as nat) == 256 * pow(256, (k - 1) as nat),
        ;
    }
}

/// The first `k` digits carry the whole value of a string whose value is below `256^k`.
pub proof fn lemma_le_value_low_digits(s: Seq<u8>, k: int)
    requires
        0 <= k <= s.len(),
        le_value(s) < pow(256, k as nat),
    ensures
        le_value(s.subrange(0, k)) == le_value(s),
{
    lemma_le_value_split(s, k);
    lemma_le_value_bounds(s.subrange(0, k));
    lemma_le_value_bounds(s.subrange(k, s.len() as int));
    let hi = le_value(s.subrange(k, s.len() as int));
    let w = pow(256, k as nat);
    assert(hi == 0) by (nonlinear_arith)
        requires
            hi >= 0,
            w > 0,
            w * hi < w,
    ;
    assert(w * 0 == 0);
}

/// Multiplying a multiple of a unit by the inverse of the unit leaves the cofactor.
pub proof fn lemma_unit_cancels(a: int, y: int, z: int, p: int)
    requires
        p > 0,
        is_inverse(a, y, p),
    ensures
        fmul((a * z) % p, y, p) == z % p,
{
    lemma_mul_mod_noop_left(a * z, y, p);
    assert((a * z) * y == z * (a * y)) by (nonlinear_arith);
    lemma_mul_mod_noop_right(z, a * y, p);
    lemma_mul_basics(z);
}

/// The product of the inverses of two residues is the inverse of their product.
pub proof fn lemma_inverse_mul(a: int, y: int, b: int, z: int, p: int)
    requires
        p > 1,
        is_inverse(a, y, p),
        is_inverse(b, z, p),
    ensures
        is_inverse(fmul(a, b, p), fmul(y, z, p), p),
{
    assert((a * b) * (y * z) == (a * y) * (b * z)) by (nonlinear_arith);
    lemma_mul_mod_noop_general(a * y, b * z, p);
    lemma_mul_mod_noop_general(a * b, y * z, p);
    lemma_small_mod(1, p as nat);
    assert(((a * b) * (y * z)) % p == (1int * 1int) % p);
    lemma_mod_bound(y * z, p);
}

/// The power of the inverse is the inverse of the power.
pub proof fn lemma_inverse_power(a: int, y: int, e: nat, p: int)
    requires
        p > 1,
        is_inverse(a, y, p),
    ensures
        is_inverse(fpow(a, e, p), fpow(y, e, p), p),
    decreases e,
{
    lemma_small_mod(1, p as nat);
    if e == 0 {
        lemma_pow0(a);
        lemma_pow0(y);
        assert(is_inverse(1, 1, p));
    } else {
        lemma_inverse_power(a, y, (e - 1) as nat, p);
        lemma_fpow_step(a, (e - 1) as nat, p);
        lemma_fpow_step(y, (e - 1) as nat, p);
        lemma_inverse_mul(a, y, fpow(a, (e - 1) as nat, p), fpow(y, (e - 1) as nat, p), p);
    }
}

/// Minus one is its own inverse, and its powers alternate between one and minus one.
pub proof fn lemma_minus_one_powers(m: nat, p: int)
    requires
        p > 2,
    ensures
        is_inverse(p - 1, p - 1, p),
        fpow(p - 1, m, p) == (if m % 2 == 0 {
            1
        } else {
            p - 1
        }),
    decreases m,
{
    lemma_small_mod(1, p as nat);
    lemma_small_mod((p - 1) as nat, p as nat);
    assert((p - 1) * (p - 1) == p * (p - 2) + 1) by (nonlinear_arith);
    lemma_mod_multiples_vanish(p - 2, 1, p);
    lemma_mul_is_commutative(p, p - 2);
    assert(((p - 1) * (p - 1)) % p == 1);
    if m == 0 {
        lemma_pow0(p - 1);
    } else {
        lemma_minus_one_powers((m - 1) as nat, p);
        lemma_fpow_step(p - 1, (m - 1) as nat, p);
        lemma_mul_basics(p - 1);
    }
}

} // verus!
