//! 256-bit and 512-bit unsigned arithmetic on little-endian 64-bit limbs.

use vstd::prelude::*;
use crate::arith::{be_value, le_value, limbs_value};

verus! {

/// `2^256`, the bound of four limbs.
pub open spec fn two_to_256() -> int {
    0x1_0000_0000_0000_0000_0000_0000_0000_0000_0000_0000_0000_0000_0000_0000_0000_0000int
}

/// The value of four limbs, written out.
pub proof fn lemma_limbs_value_4(s: Seq<u64>)
    requires
        s.len() == 4,
    ensures
        limbs_value(s) == s[0] as int + 0x1_0000_0000_0000_0000 * (s[1] as int
            + 0x1_0000_0000_0000_0000 * (s[2] as int + 0x1_0000_0000_0000_0000 * (s[3] as int))),
        0 <= limbs_value(s) < two_to_256(),
{
    reveal_with_fuel(limbs_value, 5);
    let a = s.drop_first();
    let b = a.drop_first();
    let c = b.drop_first();
    assert(a[0] == s[1]);
    assert(b[0] == s[2]);
    assert(c[0] == s[3]);
    assert(c.drop_first().len() == 0);
}

/// The value of eight limbs is the value of the low four plus `2^256` times the value of the
/// high four.
pub proof fn lemma_limbs_value_8(s: Seq<u64>)
    requires
        s.len() == 8,
    ensures
        limbs_value(s) == limbs_value(s.subrange(0, 4)) + two_to_256() * limbs_value(
            s.subrange(4, 8),
        ),
{
    reveal_with_fuel(limbs_value, 5);
    let a = s.drop_first();
    let b = a.drop_first();
    let c = b.drop_first();
    let d = c.drop_first();
    assert(a[0] == s[1]);
    assert(b[0] == s[2]);
    assert(c[0] == s[3]);
    assert(d =~= s.subrange(4, 8));
    let low = s.subrange(0, 4);
    lemma_limbs_value_4(low);
    assert(low[0] == s[0] && low[1] == s[1] && low[2] == s[2] && low[3] == s[3]);
    let v = limbs_value(d);
    assert(limbs_value(s) == s[0] as int + 0x1_0000_0000_0000_0000 * (s[1] as int
        + 0x1_0000_0000_0000_0000 * (s[2] as int + 0x1_0000_0000_0000_0000 * (s[3] as int
        + 0x1_0000_0000_0000_0000 * v))));
}

/// `primitive_types::U256::from_big_endian`: the limbs of the number that at most 32
/// big-endian bytes encode.
#[verifier::external_body]
pub(crate) fn u256_from_big_endian(bytes: &[u8]) -> (r: [u64; 4])
    requires
        bytes@.len() <= 32,
    ensures
        limbs_value(r@) == be_value(bytes@),
{
    primitive_types::U256::from_big_endian(bytes).0
}

/// `primitive_types::U256::from_little_endian`: the limbs of the number that at most 32
/// little-endian bytes encode.
#[verifier::external_body]
pub(crate) fn u256_from_little_endian(bytes: &[u8]) -> (r: [u64; 4])
    requires
        bytes@.len() <= 32,
    ensures
        limbs_value(r@) == le_value(bytes@),
{
    primitive_types::U256::from_little_endian(bytes).0
}

/// `primitive_types::U256::to_little_endian`: the 32 little-endian bytes of a number.
#[verifier::external_body]
pub(crate) fn u256_to_little_endian(a: [u64; 4]) -> (r: [u8; 32])
    ensures
        le_value(r@) == limbs_value(a@),
{
    let mut out = [0u8; 32];
    primitive_types::U256(a).to_little_endian(&mut out);
    out
}

/// The `%` operator of `primitive_types::U256`: the remainder of `a` by the non-zero `m`.
#[verifier::external_body]
pub(crate) fn u256_rem(a: [u64; 4], m: [u64; 4]) -> (r: [u64; 4])
    requires
        limbs_value(m@) != 0,
    ensures
        limbs_value(r@) == limbs_value(a@) % limbs_value(m@),
{
    (primitive_types::U256(a) % primitive_types::U256(m)).0
}

/// The `+` operator of `primitive_types::U256`: the sum, where it fits 256 bits.
#[verifier::external_body]
pub(crate) fn u256_add(a: [u64; 4], b: [u64; 4]) -> (r: [u64; 4])
    requires
        limbs_value(a@) + limbs_value(b@) < two_to_256(),
    ensures
        limbs_value(r@) == limbs_value(a@) + limbs_value(b@),
{
    (primitive_types::U256(a) + primitive_types::U256(b)).0
}

/// The `-` operator of `primitive_types::U256`: the difference, where it is not negative.
#[verifier::external_body]
pub(crate) fn u256_sub(a: [u64; 4], b: [u64; 4]) -> (r: [u64; 4])
    requires
        limbs_value(a@) >= limbs_value(b@),
    ensures
        limbs_value(r@) == limbs_value(a@) - limbs_value(b@),
{
    (primitive_types::U256(a) - primitive_types::U256(b)).0
}

/// `primitive_types::U256::full_mul`: the 512-bit product.
#[verifier::external_body]
pub(crate) fn u256_full_mul(a: [u64; 4], b: [u64; 4]) -> (r: [u64; 8])
    ensures
        limbs_value(r@) == limbs_value(a@) * limbs_value(b@),
{
    primitive_types::U256(a).full_mul(primitive_types::U256(b)).0
}

/// The `%` operator of `primitive_types::U512`: the remainder of `a` by the non-zero `m`.
#[verifier::external_body]
pub(crate) fn u512_rem(a: [u64; 8], m: [u64; 8]) -> (r: [u64; 8])
    requires
        limbs_value(m@) != 0,
    ensures
        limbs_value(r@) == limbs_value(a@) % limbs_value(m@),
{
    (primitive_types::U512(a) % primitive_types::U512(m)).0
}

/// `primitive_types::U256::div_mod`: the quotient and the remainder by the non-zero `b`.
#[verifier::external_body]
pub(crate) fn u256_div_mod(a: [u64; 4], b: [u64; 4]) -> (r: ([u64; 4], [u64; 4]))
    requires
        limbs_value(b@) != 0,
    ensures
        limbs_value(r.0@) == limbs_value(a@) / limbs_value(b@),
        limbs_value(r.1@) == limbs_value(a@) % limbs_value(b@),
{
    let (q, r) = primitive_types::U256(a).div_mod(primitive_types::U256(b));
    (q.0, r.0)
}

/// The `<` operator of `primitive_types::U256`.
#[verifier::external_body]
pub(crate) fn u256_lt(a: [u64; 4], b: [u64; 4]) -> (r: bool)
    ensures
        r == (limbs_value(a@) < limbs_value(b@)),
{
    primitive_types::U256(a) < primitive_types::U256(b)
}

/// The product of two 256-bit numbers modulo a third.
pub fn u256_mul_mod(a: [u64; 4], b: [u64; 4], m: [u64; 4]) -> (r: [u64; 4])
    requires
        limbs_value(m@) != 0,
    ensures
        limbs_value(r@) == (limbs_value(a@) * limbs_value(b@)) % limbs_value(m@),
{
    let product: [u64; 8] = u256_full_mul(a, b);
    let wide_modulus: [u64; 8] = [m[0], m[1], m[2], m[3], 0, 0, 0, 0];
    proof {
        lemma_limbs_value_8(wide_modulus@);
        assert(wide_modulus@.subrange(0, 4) =~= m@);
        lemma_limbs_value_4(wide_modulus@.subrange(4, 8));
        lemma_limbs_value_4(m@);
    }
    let reduced: [u64; 8] = u512_rem(product, wide_modulus);
    let narrow: [u64; 4] = [reduced[0], reduced[1], reduced[2], reduced[3]];
    proof {
        lemma_limbs_value_8(reduced@);
        assert(reduced@.subrange(0, 4) =~= narrow@);
        lemma_limbs_value_4(reduced@.subrange(4, 8));
        lemma_limbs_value_4(narrow@);
        vstd::arithmetic::div_mod::lemma_mod_bound(
            limbs_value(a@) * limbs_value(b@),
            limbs_value(m@),
        );
        let high = limbs_value(reduced@.subrange(4, 8));
        let big = two_to_256();
        assert(high == 0) by (nonlinear_arith)
            requires
                high >= 0,
                big > 0,
                limbs_value(narrow@) >= 0,
                limbs_value(narrow@) + big * high < big,
        ;
    }
    narrow
}

} // verus!
