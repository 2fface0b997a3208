//! A generator of the multiplicative group of the Goldilocks field, with the computations that
//! certify it: every non-zero element of the field is a power of the generator.

use vstd::prelude::*;
use vstd::arithmetic::power::lemma_pow1;
use vstd::arithmetic::power2::{lemma2_to64, pow2};
use crate::arith::{fpow, lemma_fpow_double, lemma_fpow_mul, lemma_fpow_pow2_step, lemma_fpow_step};
use crate::units::{
    generates, is_prime, lemma_prime_by_trial, lemma_product_concat, lemma_product_twos,
    product, twos,
};

verus! {

/// The modulus of the field.
pub open spec fn group_modulus() -> int {
    0xffffffff00000001int
}

/// A generator of the multiplicative group.
pub open spec fn group_generator() -> int {
    7
}

/// The prime factors of the order of the group, `2^32 * 3 * 5 * 17 * 257 * 65537`.
pub open spec fn group_factors() -> Seq<int> {
    twos(32) + seq![3int, 5, 17, 257, 65537]
}

/// 3 is prime.
proof fn lemma_prime_3()
    ensures
        is_prime(3),
{
    assert(forall|d: u32| 2 <= d && d <= 2 ==> #[trigger] (3u32 % d) != 0) by (bit_vector);
    assert forall|d: int| 2 <= d <= 2 implies #[trigger] (3int % d) != 0 by {
        let narrow = d as u32;
        assert(3u32 % narrow != 0);
    }
    lemma_prime_by_trial(3, 2);
}

/// 5 is prime.
proof fn lemma_prime_5()
    ensures
        is_prime(5),
{
    assert(forall|d: u32| 2 <= d && d <= 3 ==> #[trigger] (5u32 % d) != 0) by (bit_vector);
    assert forall|d: int| 2 <= d <= 3 implies #[trigger] (5int % d) != 0 by {
        let narrow = d as u32;
        assert(5u32 % narrow != 0);
    }
    lemma_prime_by_trial(5, 3);
}

/// 17 is prime.
proof fn lemma_prime_17()
    ensures
        is_prime(17),
{
    assert(forall|d: u32| 2 <= d && d <= 5 ==> #[trigger] (17u32 % d) != 0) by (bit_vector);
    assert forall|d: int| 2 <= d <= 5 implies #[trigger] (17int % d) != 0 by {
        let narrow = d as u32;
        assert(17u32 % narrow != 0);
    }
    lemma_prime_by_trial(17, 5);
}

/// 257 is prime.
proof fn lemma_prime_257()
    ensures
        is_prime(257),
{
    assert(forall|d: u32| 2 <= d && d <= 17 ==> #[trigger] (257u32 % d) != 0) by (bit_vector);
    assert forall|d: int| 2 <= d <= 17 implies #[trigger] (257int % d) != 0 by {
        let narrow = d as u32;
        assert(257u32 % narrow != 0);
    }
    lemma_prime_by_trial(257, 17);
}

/// 65537 is prime.
proof fn lemma_prime_65537()
    ensures
        is_prime(65537),
{
    assert(forall|d: u32| 2 <= d && d <= 257 ==> #[trigger] (65537u32 % d) != 0) by (bit_vector);
    assert forall|d: int| 2 <= d <= 257 implies #[trigger] (65537int % d) != 0 by {
        let narrow = d as u32;
        assert(65537u32 % narrow != 0);
    }
    lemma_prime_by_trial(65537, 257);
}

/// The generator squared 32 times.
proof fn lemma_squarings_0()
    ensures
        fpow(group_generator(), pow2(32), group_modulus()) == 0xaa5b2509f86bb4d4int,
{
    let p = group_modulus();
    let g = group_generator();
    lemma2_to64();
    lemma_pow1(g);
    assert(fpow(g, pow2(0), p) == g);
    lemma_fpow_pow2_step(g, 0, p);
    assert(fpow(g, pow2(1), p) == 0x31int);
    lemma_fpow_pow2_step(g, 1, p);
    assert(fpow(g, pow2(2), p) == 0x961int);
    lemma_fpow_pow2_step(g, 2, p);
    assert(fpow(g, pow2(3), p) == 0x57f6c1int);
    lemma_fpow_pow2_step(g, 3, p);
    assert(fpow(g, pow2(4), p) == 0x1e39a5057d81int);
    lemma_fpow_pow2_step(g, 4, p);
    assert(fpow(g, pow2(5), p) == 0x33cdc3006affab59int);
    lemma_fpow_pow2_step(g, 5, p);
    assert(fpow(g, pow2(6), p) == 0x9c232dfb69ab851eint);
    lemma_fpow_pow2_step(g, 6, p);
    assert(fpow(g, pow2(7), p) == 0xa8c0042254470173int);
    lemma_fpow_pow2_step(g, 7, p);
    assert(fpow(g, pow2(8), p) == 0x15535ad69462d090int);
    lemma_fpow_pow2_step(g, 8, p);
    assert(fpow(g, pow2(9), p) == 0xfef45a869aab8679int);
    lemma_fpow_pow2_step(g, 9, p);
    assert(fpow(g, pow2(10), p) == 0x21beccb8b6d8f6faint);
    lemma_fpow_pow2_step(g, 10, p);
    assert(fpow(g, pow2(11), p) == 0x583cf0d902a86abcint);
    lemma_fpow_pow2_step(g, 11, p);
    assert(fpow(g, pow2(12), p) == 0x8bf128731ab1a0b5int);
    lemma_fpow_pow2_step(g, 12, p);
    assert(fpow(g, pow2(13), p) == 0xd17ad58ee893a7d2int);
    lemma_fpow_pow2_step(g, 13, p);
    assert(fpow(g, pow2(14), p) == 0xfaa379da87a7f914int);
    lemma_fpow_pow2_step(g, 14, p);
    assert(fpow(g, pow2(15), p) == 0x9220d622d5cf1603int);
    lemma_fpow_pow2_step(g, 15, p);
    assert(fpow(g, pow2(16), p) == 0x9ad50a054da1207fint);
    lemma_fpow_pow2_step(g, 16, p);
    assert(fpow(g, pow2(17), p) == 0xa452f750dd9b8a44int);
    lemma_fpow_pow2_step(g, 17, p);
    assert(fpow(g, pow2(18), p) == 0x1415f3b2bce09454int);
    lemma_fpow_pow2_step(g, 18, p);
    assert(fpow(g, pow2(19), p) == 0xd3db3f11768ae838int);
    lemma_fpow_pow2_step(g, 19, p);
    assert(fpow(g, pow2(20), p) == 0xb44626e05edf0086int);
    lemma_fpow_pow2_step(g, 20, p);
    assert(fpow(g, pow2(21), p) == 0xe4de14a4047cb0bfint);
    lemma_fpow_pow2_step(g, 21, p);
    assert(fpow(g, pow2(22), p) == 0xf4d85bd7e852ec36int);
    lemma_fpow_pow2_step(g, 22, p);
    assert(fpow(g, pow2(23), p) == 0x3d56e129723521fdint);
    lemma_fpow_pow2_step(g, 23, p);
    assert(fpow(g, pow2(24), p) == 0x6402e9b28e42bfe3int);
    lemma_fpow_pow2_step(g, 24, p);
    assert(fpow(g, pow2(25), p) == 0xf7fd0e6632895a3aint);
    lemma_fpow_pow2_step(g, 25, p);
    assert(fpow(g, pow2(26), p) == 0x44447512bd52434aint);
    lemma_fpow_pow2_step(g, 26, p);
    assert(fpow(g, pow2(27), p) == 0xc878161102d0f705int);
    lemma_fpow_pow2_step(g, 27, p);
    assert(fpow(g, pow2(28), p) == 0xf52dac93873eb7ceint);
    lemma_fpow_pow2_step(g, 28, p);
    assert(fpow(g, pow2(29), p) == 0x4bf5466963dd8aaeint);
    lemma_fpow_pow2_step(g, 29, p);
    assert(fpow(g, pow2(30), p) == 0x392ec7049f67a8b5int);
    lemma_fpow_pow2_step(g, 30, p);
    assert(fpow(g, pow2(31), p) == 0xf1323b7acab09084int);
    lemma_fpow_pow2_step(g, 31, p);
    assert(fpow(g, pow2(32), p) == 0xaa5b2509f86bb4d4int);
}

/// The generator squared 31 times.
proof fn lemma_squarings_below_top()
    ensures
        fpow(group_generator(), pow2(31), group_modulus()) == 0xf1323b7acab09084int,
{
    let p = group_modulus();
    let g = group_generator();
    lemma2_to64();
    lemma_pow1(g);
    assert(fpow(g, pow2(0), p) == g);
    lemma_fpow_pow2_step(g, 0, p);
    assert(fpow(g, pow2(1), p) == 0x31int);
    lemma_fpow_pow2_step(g, 1, p);
    assert(fpow(g, pow2(2), p) == 0x961int);
    lemma_fpow_pow2_step(g, 2, p);
    assert(fpow(g, pow2(3), p) == 0x57f6c1int);
    lemma_fpow_pow2_step(g, 3, p);
    assert(fpow(g, pow2(4), p) == 0x1e39a5057d81int);
    lemma_fpow_pow2_step(g, 4, p);
    assert(fpow(g, pow2(5), p) == 0x33cdc3006affab59int);
    lemma_fpow_pow2_step(g, 5, p);
    assert(fpow(g, pow2(6), p) == 0x9c232dfb69ab851eint);
    lemma_fpow_pow2_step(g, 6, p);
    assert(fpow(g, pow2(7), p) == 0xa8c0042254470173int);
    lemma_fpow_pow2_step(g, 7, p);
    assert(fpow(g, pow2(8), p) == 0x15535ad69462d090int);
    lemma_fpow_pow2_step(g, 8, p);
    assert(fpow(g, pow2(9), p) == 0xfef45a869aab8679int);
    lemma_fpow_pow2_step(g, 9, p);
    assert(fpow(g, pow2(10), p) == 0x21beccb8b6d8f6faint);
    lemma_fpow_pow2_step(g, 10, p);
    assert(fpow(g, pow2(11), p) == 0x583cf0d902a86abcint);
    lemma_fpow_pow2_step(g, 11, p);
    assert(fpow(g, pow2(12), p) == 0x8bf128731ab1a0b5int);
    lemma_fpow_pow2_step(g, 12, p);
    assert(fpow(g, pow2(13), p) == 0xd17ad58ee893a7d2int);
    lemma_fpow_pow2_step(g, 13, p);
    assert(fpow(g, pow2(14), p) == 0xfaa379da87a7f914int);
    lemma_fpow_pow2_step(g, 14, p);
    assert(fpow(g, pow2(15), p) == 0x9220d622d5cf1603int);
    lemma_fpow_pow2_step(g, 15, p);
    assert(fpow(g, pow2(16), p) == 0x9ad50a054da1207fint);
    lemma_fpow_pow2_step(g, 16, p);
    assert(fpow(g, pow2(17), p) == 0xa452f750dd9b8a44int);
    lemma_fpow_pow2_step(g, 17, p);
    assert(fpow(g, pow2(18), p) == 0x1415f3b2bce09454int);
    lemma_fpow_pow2_step(g, 18, p);
    assert(fpow(g, pow2(19), p) == 0xd3db3f11768ae838int);
    lemma_fpow_pow2_step(g, 19, p);
    assert(fpow(g, pow2(20), p) == 0xb44626e05edf0086int);
    lemma_fpow_pow2_step(g, 20, p);
    assert(fpow(g, pow2(21), p) == 0xe4de14a4047cb0bfint);
    lemma_fpow_pow2_step(g, 21, p);
    assert(fpow(g, pow2(22), p) == 0xf4d85bd7e852ec36int);
    lemma_fpow_pow2_step(g, 22, p);
    assert(fpow(g, pow2(23), p) == 0x3d56e129723521fdint);
    lemma_fpow_pow2_step(g, 23, p);
    assert(fpow(g, pow2(24), p) == 0x6402e9b28e42bfe3int);
    lemma_fpow_pow2_step(g, 24, p);
    assert(fpow(g, pow2(25), p) == 0xf7fd0e6632895a3aint);
    lemma_fpow_pow2_step(g, 25, p);
    assert(fpow(g, pow2(26), p) == 0x44447512bd52434aint);
    lemma_fpow_pow2_step(g, 26, p);
    assert(fpow(g, pow2(27), p) == 0xc878161102d0f705int);
    lemma_fpow_pow2_step(g, 27, p);
    assert(fpow(g, pow2(28), p) == 0xf52dac93873eb7ceint);
    lemma_fpow_pow2_step(g, 28, p);
    assert(fpow(g, pow2(29), p) == 0x4bf5466963dd8aaeint);
    lemma_fpow_pow2_step(g, 29, p);
    assert(fpow(g, pow2(30), p) == 0x392ec7049f67a8b5int);
    lemma_fpow_pow2_step(g, 30, p);
    assert(fpow(g, pow2(31), p) == 0xf1323b7acab09084int);
}

/// The power `0xaa5b2509f86bb4d4int^0x1ffff`.
proof fn lemma_power_order_0()
    ensures
        fpow(0xaa5b2509f86bb4d4int, 0x1ffffnat, group_modulus()) == 0xe52928f7e9ccf9b0int,
{
    let p = group_modulus();
    let b = 0xaa5b2509f86bb4d4int;
    lemma_pow1(b);
    assert(fpow(b, 1, p) == b);
    lemma_fpow_double(b, 0x1nat, p);
    assert(fpow(b, 0x2nat, p) == 0x420265815f3416fdint);
    lemma_fpow_step(b, 0x2nat, p);
    assert(fpow(b, 0x3nat, p) == 0x11c37210161a0aa8int);
    lemma_fpow_double(b, 0x3nat, p);
    assert(fpow(b, 0x6nat, p) == 0x9cdae742ef128e1bint);
    lemma_fpow_step(b, 0x6nat, p);
    assert(fpow(b, 0x7nat, p) == 0x3f228a16c54e4a16int);
    lemma_fpow_double(b, 0x7nat, p);
    assert(fpow(b, 0xenat, p) == 0x98e389bfd9a13543int);
    lemma_fpow_step(b, 0xenat, p);
    assert(fpow(b, 0xfnat, p) == 0x9c7864a42339f298int);
    lemma_fpow_double(b, 0xfnat, p);
    assert(fpow(b, 0x1enat, p) == 0xa77ec2f191907c3bint);
    lemma_fpow_step(b, 0x1enat, p);
    assert(fpow(b, 0x1fnat, p) == 0x3bbcb9be397fd294int);
    lemma_fpow_double(b, 0x1fnat, p);
    assert(fpow(b, 0x3enat, p) == 0xab0a82897174c190int);
    lemma_fpow_step(b, 0x3enat, p);
    assert(fpow(b, 0x3fnat, p) == 0xe38658e727be3526int);
    lemma_fpow_double(b, 0x3fnat, p);
    assert(fpow(b, 0x7enat, p) == 0xad1a358397e0900dint);
    lemma_fpow_step(b, 0x7enat, p);
    assert(fpow(b, 0x7fnat, p) == 0x33110ac2153a2abdint);
    lemma_fpow_double(b, 0x7fnat, p);
    assert(fpow(b, 0xfenat, p) == 0x770bde3b99e70890int);
    lemma_fpow_step(b, 0xfenat, p);
    assert(fpow(b, 0xffnat, p) == 0xf41555f9bcddefbfint);
    lemma_fpow_double(b, 0xffnat, p);
    assert(fpow(b, 0x1fenat, p) == 0x97dc88f27b3aa5cint);
    lemma_fpow_step(b, 0x1fenat, p);
    assert(fpow(b, 0x1ffnat, p) == 0xbafdaf299ad5d996int);
    lemma_fpow_double(b, 0x1ffnat, p);
    assert(fpow(b, 0x3fenat, p) == 0x853175c896e152a7int);
    lemma_fpow_step(b, 0x3fenat, p);
    assert(fpow(b, 0x3ffnat, p) == 0x2f855003f35e4188int);
    lemma_fpow_double(b, 0x3ffnat, p);
    assert(fpow(b, 0x7fenat, p) == 0x3c509076a75a2b48int);
    lemma_fpow_step(b, 0x7fenat, p);
    assert(fpow(b, 0x7ffnat, p) == 0x2c944e74888279f3int);
    lemma_fpow_double(b, 0x7ffnat, p);
    assert(fpow(b, 0xffenat, p) == 0xe807654d5f6a62c3int);
    lemma_fpow_step(b, 0xffenat, p);
    assert(fpow(b, 0xfffnat, p) == 0x7861fc30e7b747fbint);
    lemma_fpow_double(b, 0xfffnat, p);
    assert(fpow(b, 0x1ffenat, p) == 0x571f2b26cfbf7042int);
    lemma_fpow_step(b, 0x1ffenat, p);
    assert(fpow(b, 0x1fffnat, p) == 0x69acbfa74472b3f6int);
    lemma_fpow_double(b, 0x1fffnat, p);
    assert(fpow(b, 0x3ffenat, p) == 0x75721921fb95af6cint);
    lemma_fpow_step(b, 0x3ffenat, p);
    assert(fpow(b, 0x3fffnat, p) == 0x7da3796aa870df2int);
    lemma_fpow_double(b, 0x3fffnat, p);
    assert(fpow(b, 0x7ffenat, p) == 0x4201e01627c0e8feint);
    lemma_fpow_step(b, 0x7ffenat, p);
    assert(fpow(b, 0x7fffnat, p) == 0x166973e1a008e402int);
    lemma_fpow_double(b, 0x7fffnat, p);
    assert(fpow(b, 0xfffenat, p) == 0x1d34fff37e31f98bint);
    lemma_fpow_step(b, 0xfffenat, p);
    assert(fpow(b, 0xffffnat, p) == 0x75ab0de70cf3ed11int);
    lemma_fpow_double(b, 0xffffnat, p);
    assert(fpow(b, 0x1fffenat, p) == 0x2aeae1bc867521b7int);
    lemma_fpow_step(b, 0x1fffenat, p);
    assert(fpow(b, 0x1ffffnat, p) == 0xe52928f7e9ccf9b0int);
}

/// The power `0xaa5b2509f86bb4d4int^0xffffffff`.
proof fn lemma_power_order_1()
    ensures
        fpow(0xaa5b2509f86bb4d4int, 0xffffffffnat, group_modulus()) == 0x1int,
{
    let p = group_modulus();
    let b = 0xaa5b2509f86bb4d4int;
    lemma_power_order_0();
    lemma_fpow_double(b, 0x1ffffnat, p);
    assert(fpow(b, 0x3fffenat, p) == 0x95b797c1c8a52b95int);
    lemma_fpow_step(b, 0x3fffenat, p);
    assert(fpow(b, 0x3ffffnat, p) == 0x96fb1004784670b9int);
    lemma_fpow_double(b, 0x3ffffnat, p);
    assert(fpow(b, 0x7fffenat, p) == 0x4649b82d470c435dint);
    lemma_fpow_step(b, 0x7fffenat, p);
    assert(fpow(b, 0x7ffffnat, p) == 0xc93825ef98ecca81int);
    lemma_fpow_double(b, 0x7ffffnat, p);
    assert(fpow(b, 0xffffenat, p) == 0x5f0b5266b348bd14int);
    lemma_fpow_step(b, 0xffffenat, p);
    assert(fpow(b, 0xfffffnat, p) == 0xbd041e02f1318e70int);
    lemma_fpow_double(b, 0xfffffnat, p);
    assert(fpow(b, 0x1ffffenat, p) == 0x64a637f3ded1f631int);
    lemma_fpow_step(b, 0x1ffffenat, p);
    assert(fpow(b, 0x1fffffnat, p) == 0xde6a4b457b39e61bint);
    lemma_fpow_double(b, 0x1fffffnat, p);
    assert(fpow(b, 0x3ffffenat, p) == 0xe51accdb8a39c012int);
    lemma_fpow_step(b, 0x3ffffenat, p);
    assert(fpow(b, 0x3fffffnat, p) == 0xb6cadb16ca3c93f0int);
    lemma_fpow_double(b, 0x3fffffnat, p);
    assert(fpow(b, 0x7ffffenat, p) == 0xa10eff09087326c0int);
    lemma_fpow_step(b, 0x7ffffenat, p);
    assert(fpow(b, 0x7fffffnat, p) == 0x9419c823a52dc1b5int);
    lemma_fpow_double(b, 0x7fffffnat, p);
    assert(fpow(b, 0xfffffenat, p) == 0x1b86ad55be1bb600int);
    lemma_fpow_step(b, 0xfffffenat, p);
    assert(fpow(b, 0xffffffnat, p) == 0x79e90c6bd360f830int);
    lemma_fpow_double(b, 0xffffffnat, p);
    assert(fpow(b, 0x1fffffenat, p) == 0x2aefb0566fdc2cbeint);
    lemma_fpow_step(b, 0x1fffffenat, p);
    assert(fpow(b, 0x1ffffffnat, p) == 0xc14dd0ccb30c4350int);
    lemma_fpow_double(b, 0x1ffffffnat, p);
    assert(fpow(b, 0x3fffffenat, p) == 0xcfb0e7b7c3d31304int);
    lemma_fpow_step(b, 0x3fffffenat, p);
    assert(fpow(b, 0x3ffffffnat, p) == 0x1e24ea31ce03e5f6int);
    lemma_fpow_double(b, 0x3ffffffnat, p);
    assert(fpow(b, 0x7fffffenat, p) == 0x5967f7a0b63f6ae0int);
    lemma_fpow_step(b, 0x7fffffenat, p);
    assert(fpow(b, 0x7ffffffnat, p) == 0xe697f925b26ff82bint);
    lemma_fpow_double(b, 0x7ffffffnat, p);
    assert(fpow(b, 0xffffffenat, p) == 0x81cf55308893dca3int);
    lemma_fpow_step(b, 0xffffffenat, p);
    assert(fpow(b, 0xfffffffnat, p) == 0x47bc87e552d03588int);
    lemma_fpow_double(b, 0xfffffffnat, p);
    assert(fpow(b, 0x1ffffffenat, p) == 0x640b36ff32afc2int);
    lemma_fpow_step(b, 0x1ffffffenat, p);
    assert(fpow(b, 0x1fffffffnat, p) == 0x379fbdc163d89516int);
    lemma_fpow_double(b, 0x1fffffffnat, p);
    assert(fpow(b, 0x3ffffffenat, p) == 0x80c0b85488146010int);
    lemma_fpow_step(b, 0x3ffffffenat, p);
    assert(fpow(b, 0x3fffffffnat, p) == 0x176bdb8fcea783f8int);
    lemma_fpow_double(b, 0x3fffffffnat, p);
    assert(fpow(b, 0x7ffffffenat, p) == 0x20b9fb2a71cafb41int);
    lemma_fpow_step(b, 0x7ffffffenat, p);
    assert(fpow(b, 0x7fffffffnat, p) == 0x676669cb3be57916int);
    lemma_fpow_double(b, 0x7fffffffnat, p);
    assert(fpow(b, 0xfffffffenat, p) == 0x7eac632bd0ff8104int);
    lemma_fpow_step(b, 0xfffffffenat, p);
    assert(fpow(b, 0xffffffffnat, p) == 0x1int);
}

/// The power `0xf1323b7acab09084int^0x1ffff`.
proof fn lemma_power_half_0()
    ensures
        fpow(0xf1323b7acab09084int, 0x1ffffnat, group_modulus()) == 0x8c7f932fc2bd8306int,
{
    let p = group_modulus();
    let b = 0xf1323b7acab09084int;
    lemma_pow1(b);
    assert(fpow(b, 1, p) == b);
    lemma_fpow_double(b, 0x1nat, p);
    assert(fpow(b, 0x2nat, p) == 0xaa5b2509f86bb4d4int);
    lemma_fpow_step(b, 0x2nat, p);
    assert(fpow(b, 0x3nat, p) == 0xe2c7cbf74fd4fabcint);
    lemma_fpow_double(b, 0x3nat, p);
    assert(fpow(b, 0x6nat, p) == 0x11c37210161a0aa8int);
    lemma_fpow_step(b, 0x6nat, p);
    assert(fpow(b, 0x7nat, p) == 0xf78ec55fe1be25acint);
    lemma_fpow_double(b, 0x7nat, p);
    assert(fpow(b, 0xenat, p) == 0x3f228a16c54e4a16int);
    lemma_fpow_step(b, 0xenat, p);
    assert(fpow(b, 0xfnat, p) == 0xc9f8e7322f37943aint);
    lemma_fpow_double(b, 0xfnat, p);
    assert(fpow(b, 0x1enat, p) == 0x9c7864a42339f298int);
    lemma_fpow_step(b, 0x1enat, p);
    assert(fpow(b, 0x1fnat, p) == 0xb337f1b0edbd6837int);
    lemma_fpow_double(b, 0x1fnat, p);
    assert(fpow(b, 0x3enat, p) == 0x3bbcb9be397fd294int);
    lemma_fpow_step(b, 0x3enat, p);
    assert(fpow(b, 0x3fnat, p) == 0x949fab23607f6692int);
    lemma_fpow_double(b, 0x3fnat, p);
    assert(fpow(b, 0x7enat, p) == 0xe38658e727be3526int);
    lemma_fpow_step(b, 0x7enat, p);
    assert(fpow(b, 0x7fnat, p) == 0x6818c2d019824257int);
    lemma_fpow_double(b, 0x7fnat, p);
    assert(fpow(b, 0xfenat, p) == 0x33110ac2153a2abdint);
    lemma_fpow_step(b, 0xfenat, p);
    assert(fpow(b, 0xffnat, p) == 0x7c6d90cec1eedb1fint);
    lemma_fpow_double(b, 0xffnat, p);
    assert(fpow(b, 0x1fenat, p) == 0xf41555f9bcddefbfint);
    lemma_fpow_step(b, 0x1fenat, p);
    assert(fpow(b, 0x1ffnat, p) == 0xb43994aaf8d28bc9int);
    lemma_fpow_double(b, 0x1ffnat, p);
    assert(fpow(b, 0x3fenat, p) == 0xbafdaf299ad5d996int);
    lemma_fpow_step(b, 0x3fenat, p);
    assert(fpow(b, 0x3ffnat, p) == 0xafacf108da664a28int);
    lemma_fpow_double(b, 0x3ffnat, p);
    assert(fpow(b, 0x7fenat, p) == 0x2f855003f35e4188int);
    lemma_fpow_step(b, 0x7fenat, p);
    assert(fpow(b, 0x7ffnat, p) == 0x48f04f0d4b63008int);
    lemma_fpow_double(b, 0x7ffnat, p);
    assert(fpow(b, 0xffenat, p) == 0x2c944e74888279f3int);
    lemma_fpow_step(b, 0xffenat, p);
    assert(fpow(b, 0xfffnat, p) == 0x98816feb9b9bb1cdint);
    lemma_fpow_double(b, 0xfffnat, p);
    assert(fpow(b, 0x1ffenat, p) == 0x7861fc30e7b747fbint);
    lemma_fpow_step(b, 0x1ffenat, p);
    assert(fpow(b, 0x1fffnat, p) == 0xcc9f388f0d4fd651int);
    lemma_fpow_double(b, 0x1fffnat, p);
    assert(fpow(b, 0x3ffenat, p) == 0x69acbfa74472b3f6int);
    lemma_fpow_step(b, 0x3ffenat, p);
    assert(fpow(b, 0x3fffnat, p) == 0x98575ccadba9602dint);
    lemma_fpow_double(b, 0x3fffnat, p);
    assert(fpow(b, 0x7ffenat, p) == 0x7da3796aa870df2int);
    lemma_fpow_step(b, 0x7ffenat, p);
    assert(fpow(b, 0x7fffnat, p) == 0x96c0e6b7a7791414int);
    lemma_fpow_double(b, 0x7fffnat, p);
    assert(fpow(b, 0xfffenat, p) == 0x166973e1a008e402int);
    lemma_fpow_step(b, 0xfffenat, p);
    assert(fpow(b, 0xffffnat, p) == 0x658f57b6adaa80c2int);
    lemma_fpow_double(b, 0xffffnat, p);
    assert(fpow(b, 0x1fffenat, p) == 0x75ab0de70cf3ed11int);
    lemma_fpow_step(b, 0x1fffenat, p);
    assert(fpow(b, 0x1ffffnat, p) == 0x8c7f932fc2bd8306int);
}

/// The power `0xf1323b7acab09084int^0xffffffff`.
proof fn lemma_power_half_1()
    ensures
        fpow(0xf1323b7acab09084int, 0xffffffffnat, group_modulus()) == 0xffffffff00000000int,
{
    let p = group_modulus();
    let b = 0xf1323b7acab09084int;
    lemma_power_half_0();
    lemma_fpow_double(b, 0x1ffffnat, p);
    assert(fpow(b, 0x3fffenat, p) == 0xe52928f7e9ccf9b0int);
    lemma_fpow_step(b, 0x3fffenat, p);
    assert(fpow(b, 0x3ffffnat, p) == 0x1d06d43c03635caint);
    lemma_fpow_double(b, 0x3ffffnat, p);
    assert(fpow(b, 0x7fffenat, p) == 0x96fb1004784670b9int);
    lemma_fpow_step(b, 0x7fffenat, p);
    assert(fpow(b, 0x7ffffnat, p) == 0xf51a1ab0f0af8100int);
    lemma_fpow_double(b, 0x7ffffnat, p);
    assert(fpow(b, 0xffffenat, p) == 0xc93825ef98ecca81int);
    lemma_fpow_step(b, 0xffffenat, p);
    assert(fpow(b, 0xfffffnat, p) == 0x57f8b80ee48777a5int);
    lemma_fpow_double(b, 0xfffffnat, p);
    assert(fpow(b, 0x1ffffenat, p) == 0xbd041e02f1318e70int);
    lemma_fpow_step(b, 0x1ffffenat, p);
    assert(fpow(b, 0x1fffffnat, p) == 0x98d519fe9a6b1fceint);
    lemma_fpow_double(b, 0x1fffffnat, p);
    assert(fpow(b, 0x3ffffenat, p) == 0xde6a4b457b39e61bint);
    lemma_fpow_step(b, 0x3ffffenat, p);
    assert(fpow(b, 0x3fffffnat, p) == 0xc4b9e9d87f9e6528int);
    lemma_fpow_double(b, 0x3fffffnat, p);
    assert(fpow(b, 0x7ffffenat, p) == 0xb6cadb16ca3c93f0int);
    lemma_fpow_step(b, 0x7ffffenat, p);
    assert(fpow(b, 0x7fffffnat, p) == 0xcfa6c45b167f1d50int);
    lemma_fpow_double(b, 0x7fffffnat, p);
    assert(fpow(b, 0xfffffenat, p) == 0x9419c823a52dc1b5int);
    lemma_fpow_step(b, 0xfffffenat, p);
    assert(fpow(b, 0xffffffnat, p) == 0xb4a65c73bb51f0dfint);
    lemma_fpow_double(b, 0xffffffnat, p);
    assert(fpow(b, 0x1fffffenat, p) == 0x79e90c6bd360f830int);
    lemma_fpow_step(b, 0x1fffffenat, p);
    assert(fpow(b, 0x1ffffffnat, p) == 0x6f5c8c66793e57b0int);
    lemma_fpow_double(b, 0x1ffffffnat, p);
    assert(fpow(b, 0x3fffffenat, p) == 0xc14dd0ccb30c4350int);
    lemma_fpow_step(b, 0x3fffffenat, p);
    assert(fpow(b, 0x3ffffffnat, p) == 0x445c03e2c544999eint);
    lemma_fpow_double(b, 0x3ffffffnat, p);
    assert(fpow(b, 0x7fffffenat, p) == 0x1e24ea31ce03e5f6int);
    lemma_fpow_step(b, 0x7fffffenat, p);
    assert(fpow(b, 0x7ffffffnat, p) == 0xc993ae94ebfb5e82int);
    lemma_fpow_double(b, 0x7ffffffnat, p);
    assert(fpow(b, 0xffffffenat, p) == 0xe697f925b26ff82bint);
    lemma_fpow_step(b, 0xffffffenat, p);
    assert(fpow(b, 0xfffffffnat, p) == 0xfdf083ece7de3189int);
    lemma_fpow_double(b, 0xfffffffnat, p);
    assert(fpow(b, 0x1ffffffenat, p) == 0x47bc87e552d03588int);
    lemma_fpow_step(b, 0x1ffffffenat, p);
    assert(fpow(b, 0x1fffffffnat, p) == 0xa47f2ecb61aa80eeint);
    lemma_fpow_double(b, 0x1fffffffnat, p);
    assert(fpow(b, 0x3ffffffenat, p) == 0x379fbdc163d89516int);
    lemma_fpow_step(b, 0x3ffffffenat, p);
    assert(fpow(b, 0x3fffffffnat, p) == 0x886216ad589625cfint);
    lemma_fpow_double(b, 0x3fffffffnat, p);
    assert(fpow(b, 0x7ffffffenat, p) == 0x176bdb8fcea783f8int);
    lemma_fpow_step(b, 0x7ffffffenat, p);
    assert(fpow(b, 0x7fffffffnat, p) == 0xdbe9819cc1dc4ff0int);
    lemma_fpow_double(b, 0x7fffffffnat, p);
    assert(fpow(b, 0xfffffffenat, p) == 0x676669cb3be57916int);
    lemma_fpow_step(b, 0xfffffffenat, p);
    assert(fpow(b, 0xffffffffnat, p) == 0xffffffff00000000int);
}

/// The power `0xaa5b2509f86bb4d4int^0x555554`.
proof fn lemma_power_over_3_0()
    ensures
        fpow(0xaa5b2509f86bb4d4int, 0x555554nat, group_modulus()) == 0xeddf072ec6fc68d5int,
{
    let p = group_modulus();
    let b = 0xaa5b2509f86bb4d4int;
    lemma_pow1(b);
    assert(fpow(b, 1, p) == b);
    lemma_fpow_double(b, 0x1nat, p);
    assert(fpow(b, 0x2nat, p) == 0x420265815f3416fdint);
    lemma_fpow_double(b, 0x2nat, p);
    assert(fpow(b, 0x4nat, p) == 0x735a2fcd9a778a82int);
    lemma_fpow_step(b, 0x4nat, p);
    assert(fpow(b, 0x5nat, p) == 0x6bfbc41872478fa8int);
    lemma_fpow_double(b, 0x5nat, p);
    assert(fpow(b, 0xanat, p) == 0xe5855b2ee49354fdint);
    lemma_fpow_double(b, 0xanat, p);
    assert(fpow(b, 0x14nat, p) == 0x647aa352ccd9b135int);
    lemma_fpow_step(b, 0x14nat, p);
    assert(fpow(b, 0x15nat, p) == 0x72720a272d46a246int);
    lemma_fpow_double(b, 0x15nat, p);
    assert(fpow(b, 0x2anat, p) == 0x262b22d49e5c9655int);
    lemma_fpow_double(b, 0x2anat, p);
    assert(fpow(b, 0x54nat, p) == 0xd6f9d6377481083bint);
    lemma_fpow_step(b, 0x54nat, p);
    assert(fpow(b, 0x55nat, p) == 0x41b105bbc9cfbbc7int);
    lemma_fpow_double(b, 0x55nat, p);
    assert(fpow(b, 0xaanat, p) == 0x9361666858698720int);
    lemma_fpow_double(b, 0xaanat, p);
    assert(fpow(b, 0x154nat, p) == 0xcbc7848831264133int);
    lemma_fpow_step(b, 0x154nat, p);
    assert(fpow(b, 0x155nat, p) == 0xfed003ca67449250int);
    lemma_fpow_double(b, 0x155nat, p);
    assert(fpow(b, 0x2aanat, p) == 0xd2f4690a29ba83dint);
    lemma_fpow_double(b, 0x2aanat, p);
    assert(fpow(b, 0x554nat, p) == 0x1be0ef14aead59c1int);
    lemma_fpow_step(b, 0x554nat, p);
    assert(fpow(b, 0x555nat, p) == 0xc9c6c2a5a2ea7f90int);
    lemma_fpow_double(b, 0x555nat, p);
    assert(fpow(b, 0xaaanat, p) == 0xc1805034dbac3e2int);
    lemma_fpow_double(b, 0xaaanat, p);
    assert(fpow(b, 0x1554nat, p) == 0x600283d8edb69a55int);
    lemma_fpow_step(b, 0x1554nat, p);
    assert(fpow(b, 0x1555nat, p) == 0x9cf64193d3172414int);
    lemma_fpow_double(b, 0x1555nat, p);
    assert(fpow(b, 0x2aaanat, p) == 0xd38f0986d64649c3int);
    lemma_fpow_double(b, 0x2aaanat, p);
    assert(fpow(b, 0x5554nat, p) == 0xba2e86f4d6d9aeb6int);
    lemma_fpow_step(b, 0x5554nat, p);
    assert(fpow(b, 0x5555nat, p) == 0x20281364bc500deint);
    lemma_fpow_double(b, 0x5555nat, p);
    assert(fpow(b, 0xaaaanat, p) == 0x332126bc4a68af81int);
    lemma_fpow_double(b, 0xaaaanat, p);
    assert(fpow(b, 0x15554nat, p) == 0x20cc173c92de0fc8int);
    lemma_fpow_step(b, 0x15554nat, p);
    assert(fpow(b, 0x15555nat, p) == 0xfe8c8e4fc356bc27int);
    lemma_fpow_double(b, 0x15555nat, p);
    assert(fpow(b, 0x2aaaanat, p) == 0xc9f2fde02367bc96int);
    lemma_fpow_double(b, 0x2aaaanat, p);
    assert(fpow(b, 0x55554nat, p) == 0xbe8aa96c1308e18int);
    lemma_fpow_step(b, 0x55554nat, p);
    assert(fpow(b, 0x55555nat, p) == 0xe5d4a039e4f4b169int);
    lemma_fpow_double(b, 0x55555nat, p);
    assert(fpow(b, 0xaaaaanat, p) == 0xa7306c9b8cfadfdbint);
    lemma_fpow_double(b, 0xaaaaanat, p);
    assert(fpow(b, 0x155554nat, p) == 0x38c7017e3bf342e2int);
    lemma_fpow_step(b, 0x155554nat, p);
    assert(fpow(b, 0x155555nat, p) == 0x4f3c8cd21a2a1a7eint);
    lemma_fpow_double(b, 0x155555nat, p);
    assert(fpow(b, 0x2aaaaanat, p) == 0x27e294293776afa5int);
    lemma_fpow_double(b, 0x2aaaaanat, p);
    assert(fpow(b, 0x555554nat, p) == 0xeddf072ec6fc68d5int);
}

/// The power `0xaa5b2509f86bb4d4int^0x55555555`.
proof fn lemma_power_over_3_1()
    ensures
        fpow(0xaa5b2509f86bb4d4int, 0x55555555nat, group_modulus()) == 0xfffffffe00000001int,
{
    let p = group_modulus();
    let b = 0xaa5b2509f86bb4d4int;
    lemma_power_over_3_0();
    lemma_fpow_step(b, 0x555554nat, p);
    assert(fpow(b, 0x555555nat, p) == 0x6c478021afff48fcint);
    lemma_fpow_double(b, 0x555555nat, p);
    assert(fpow(b, 0xaaaaaanat, p) == 0xfce48eef15b9965fint);
    lemma_fpow_double(b, 0xaaaaaanat, p);
    assert(fpow(b, 0x1555554nat, p) == 0xf2da5098ad5c83caint);
    lemma_fpow_step(b, 0x1555554nat, p);
    assert(fpow(b, 0x1555555nat, p) == 0xb5b4a275b4b81a54int);
    lemma_fpow_double(b, 0x1555555nat, p);
    assert(fpow(b, 0x2aaaaaanat, p) == 0xcd79712a2c50976aint);
    lemma_fpow_double(b, 0x2aaaaaanat, p);
    assert(fpow(b, 0x5555554nat, p) == 0x54da48f31005464aint);
    lemma_fpow_step(b, 0x5555554nat, p);
    assert(fpow(b, 0x5555555nat, p) == 0x5a6b57b3a0a804b7int);
    lemma_fpow_double(b, 0x5555555nat, p);
    assert(fpow(b, 0xaaaaaaanat, p) == 0x9b217315152c8f24int);
    lemma_fpow_double(b, 0xaaaaaaanat, p);
    assert(fpow(b, 0x15555554nat, p) == 0x69c188b9a79859c1int);
    lemma_fpow_step(b, 0x15555554nat, p);
    assert(fpow(b, 0x15555555nat, p) == 0x9dc5d18c24167e63int);
    lemma_fpow_double(b, 0x15555555nat, p);
    assert(fpow(b, 0x2aaaaaaanat, p) == 0x3be579155cb41d1fint);
    lemma_fpow_double(b, 0x2aaaaaaanat, p);
    assert(fpow(b, 0x55555554nat, p) == 0xb0541bcf7eac632dint);
    lemma_fpow_step(b, 0x55555554nat, p);
    assert(fpow(b, 0x55555555nat, p) == 0xfffffffe00000001int);
}

/// The power `0xaa5b2509f86bb4d4int^0x333333`.
proof fn lemma_power_over_5_0()
    ensures
        fpow(0xaa5b2509f86bb4d4int, 0x333333nat, group_modulus()) == 0xa69b3f1bab2a317int,
{
    let p = group_modulus();
    let b = 0xaa5b2509f86bb4d4int;
    lemma_pow1(b);
    assert(fpow(b, 1, p) == b);
    lemma_fpow_double(b, 0x1nat, p);
    assert(fpow(b, 0x2nat, p) == 0x420265815f3416fdint);
    lemma_fpow_step(b, 0x2nat, p);
    assert(fpow(b, 0x3nat, p) == 0x11c37210161a0aa8int);
    lemma_fpow_double(b, 0x3nat, p);
    assert(fpow(b, 0x6nat, p) == 0x9cdae742ef128e1bint);
    lemma_fpow_double(b, 0x6nat, p);
    assert(fpow(b, 0xcnat, p) == 0xd18d4c58124acc13int);
    lemma_fpow_double(b, 0xcnat, p);
    assert(fpow(b, 0x18nat, p) == 0xce7ae060a07b9400int);
    lemma_fpow_step(b, 0x18nat, p);
    assert(fpow(b, 0x19nat, p) == 0x9e259f4162f69413int);
    lemma_fpow_double(b, 0x19nat, p);
    assert(fpow(b, 0x32nat, p) == 0x1707c634f2563f9dint);
    lemma_fpow_step(b, 0x32nat, p);
    assert(fpow(b, 0x33nat, p) == 0x2abf65c0506e72fbint);
    lemma_fpow_double(b, 0x33nat, p);
    assert(fpow(b, 0x66nat, p) == 0xec03507cc4679324int);
    lemma_fpow_double(b, 0x66nat, p);
    assert(fpow(b, 0xccnat, p) == 0x702d975cfb9a7758int);
    lemma_fpow_double(b, 0xccnat, p);
    assert(fpow(b, 0x198nat, p) == 0xe85e49ca40049260int);
    lemma_fpow_step(b, 0x198nat, p);
    assert(fpow(b, 0x199nat, p) == 0x67d53ecd9753a625int);
    lemma_fpow_double(b, 0x199nat, p);
    assert(fpow(b, 0x332nat, p) == 0x7ac327e2a2695be2int);
    lemma_fpow_step(b, 0x332nat, p);
    assert(fpow(b, 0x333nat, p) == 0x7234c9b2ef7521b5int);
    lemma_fpow_double(b, 0x333nat, p);
    assert(fpow(b, 0x666nat, p) == 0xa03516edaa0f08c1int);
    lemma_fpow_double(b, 0x666nat, p);
    assert(fpow(b, 0xcccnat, p) == 0x5b4244e5619f4eccint);
    lemma_fpow_double(b, 0xcccnat, p);
    assert(fpow(b, 0x1998nat, p) == 0xc381b75ec4e882e0int);
    lemma_fpow_step(b, 0x1998nat, p);
    assert(fpow(b, 0x1999nat, p) == 0xd6a9781343ddad08int);
    lemma_fpow_double(b, 0x1999nat, p);
    assert(fpow(b, 0x3332nat, p) == 0xc2e540bfb98bc246int);
    lemma_fpow_step(b, 0x3332nat, p);
    assert(fpow(b, 0x3333nat, p) == 0xb60b27c45efda2d3int);
    lemma_fpow_double(b, 0x3333nat, p);
    assert(fpow(b, 0x6666nat, p) == 0x897d14d8070ba3ffint);
    lemma_fpow_double(b, 0x6666nat, p);
    assert(fpow(b, 0xccccnat, p) == 0x5eb0081994edcc4aint);
    lemma_fpow_double(b, 0xccccnat, p);
    assert(fpow(b, 0x19998nat, p) == 0x74675c696437418aint);
    lemma_fpow_step(b, 0x19998nat, p);
    assert(fpow(b, 0x19999nat, p) == 0x8d23337a50195208int);
    lemma_fpow_double(b, 0x19999nat, p);
    assert(fpow(b, 0x33332nat, p) == 0xa018f708f8019311int);
    lemma_fpow_step(b, 0x33332nat, p);
    assert(fpow(b, 0x33333nat, p) == 0x338c6bbf65756fc7int);
    lemma_fpow_double(b, 0x33333nat, p);
    assert(fpow(b, 0x66666nat, p) == 0x8da855e80f359bd9int);
    lemma_fpow_double(b, 0x66666nat, p);
    assert(fpow(b, 0xcccccnat, p) == 0x4088d74b882eb020int);
    lemma_fpow_double(b, 0xcccccnat, p);
    assert(fpow(b, 0x199998nat, p) == 0xdb0a95177aff5083int);
    lemma_fpow_step(b, 0x199998nat, p);
    assert(fpow(b, 0x199999nat, p) == 0x623dcba3b68875a0int);
    lemma_fpow_double(b, 0x199999nat, p);
    assert(fpow(b, 0x333332nat, p) == 0xf27a5d008495c1e8int);
    lemma_fpow_step(b, 0x333332nat, p);
    assert(fpow(b, 0x333333nat, p) == 0xa69b3f1bab2a317int);
}

/// The power `0xaa5b2509f86bb4d4int^0x33333333`.
proof fn lemma_power_over_5_1()
    ensures
        fpow(0xaa5b2509f86bb4d4int, 0x33333333nat, group_modulus()) == 0x130e07948a9d41d6int,
{
    let p = group_modulus();
    let b = 0xaa5b2509f86bb4d4int;
    lemma_power_over_5_0();
    lemma_fpow_double(b, 0x333333nat, p);
    assert(fpow(b, 0x666666nat, p) == 0x6ecc5790a218d3bfint);
    lemma_fpow_double(b, 0x666666nat, p);
    assert(fpow(b, 0xccccccnat, p) == 0x36a8c4b2f73cdcb8int);
    lemma_fpow_double(b, 0xccccccnat, p);
    assert(fpow(b, 0x1999998nat, p) == 0x8537e4f3f68c6d51int);
    lemma_fpow_step(b, 0x1999998nat, p);
    assert(fpow(b, 0x1999999nat, p) == 0xed632cce109588ebint);
    lemma_fpow_double(b, 0x1999999nat, p);
    assert(fpow(b, 0x3333332nat, p) == 0x567b5965f4ba919bint);
    lemma_fpow_step(b, 0x3333332nat, p);
    assert(fpow(b, 0x3333333nat, p) == 0x6b56ea33f52e376cint);
    lemma_fpow_double(b, 0x3333333nat, p);
    assert(fpow(b, 0x6666666nat, p) == 0x3d3d6799e1ad6c21int);
    lemma_fpow_double(b, 0x6666666nat, p);
    assert(fpow(b, 0xcccccccnat, p) == 0x35c97d4566d027e1int);
    lemma_fpow_double(b, 0xcccccccnat, p);
    assert(fpow(b, 0x19999998nat, p) == 0x569e3eeb63aecab3int);
    lemma_fpow_step(b, 0x19999998nat, p);
    assert(fpow(b, 0x19999999nat, p) == 0xf0e4166e6dde4ff9int);
    lemma_fpow_double(b, 0x19999999nat, p);
    assert(fpow(b, 0x33333332nat, p) == 0x28264b99ef7f7674int);
    lemma_fpow_step(b, 0x33333332nat, p);
    assert(fpow(b, 0x33333333nat, p) == 0x130e07948a9d41d6int);
}

/// The power `0xaa5b2509f86bb4d4int^0x3c3c3c`.
proof fn lemma_power_over_17_0()
    ensures
        fpow(0xaa5b2509f86bb4d4int, 0x3c3c3cnat, group_modulus()) == 0xb7090b4df6635f2eint,
{
    let p = group_modulus();
    let b = 0xaa5b2509f86bb4d4int;
    lemma_pow1(b);
    assert(fpow(b, 1, p) == b);
    lemma_fpow_double(b, 0x1nat, p);
    assert(fpow(b, 0x2nat, p) == 0x420265815f3416fdint);
    lemma_fpow_step(b, 0x2nat, p);
    assert(fpow(b, 0x3nat, p) == 0x11c37210161a0aa8int);
    lemma_fpow_double(b, 0x3nat, p);
    assert(fpow(b, 0x6nat, p) == 0x9cdae742ef128e1bint);
    lemma_fpow_step(b, 0x6nat, p);
    assert(fpow(b, 0x7nat, p) == 0x3f228a16c54e4a16int);
    lemma_fpow_double(b, 0x7nat, p);
    assert(fpow(b, 0xenat, p) == 0x98e389bfd9a13543int);
    lemma_fpow_step(b, 0xenat, p);
    assert(fpow(b, 0xfnat, p) == 0x9c7864a42339f298int);
    lemma_fpow_double(b, 0xfnat, p);
    assert(fpow(b, 0x1enat, p) == 0xa77ec2f191907c3bint);
    lemma_fpow_double(b, 0x1enat, p);
    assert(fpow(b, 0x3cnat, p) == 0x4b55223dc0e9c39cint);
    lemma_fpow_double(b, 0x3cnat, p);
    assert(fpow(b, 0x78nat, p) == 0xd6f3ad33a0a47eb4int);
    lemma_fpow_double(b, 0x78nat, p);
    assert(fpow(b, 0xf0nat, p) == 0xc914996f4b149367int);
    lemma_fpow_double(b, 0xf0nat, p);
    assert(fpow(b, 0x1e0nat, p) == 0xa9664425ffc5d609int);
    lemma_fpow_step(b, 0x1e0nat, p);
    assert(fpow(b, 0x1e1nat, p) == 0xf78b0fd5d12cd429int);
    lemma_fpow_double(b, 0x1e1nat, p);
    assert(fpow(b, 0x3c2nat, p) == 0x4fb67dabd3bde14aint);
    lemma_fpow_step(b, 0x3c2nat, p);
    assert(fpow(b, 0x3c3nat, p) == 0xad97e3753eea185bint);
    lemma_fpow_double(b, 0x3c3nat, p);
    assert(fpow(b, 0x786nat, p) == 0x76d9f639184cc75int);
    lemma_fpow_step(b, 0x786nat, p);
    assert(fpow(b, 0x787nat, p) == 0xe65fcd70c090e906int);
    lemma_fpow_double(b, 0x787nat, p);
    assert(fpow(b, 0xf0enat, p) == 0x97de452372fa8ecfint);
    lemma_fpow_step(b, 0xf0enat, p);
    assert(fpow(b, 0xf0fnat, p) == 0xed0bef760f3b1b9dint);
    lemma_fpow_double(b, 0xf0fnat, p);
    assert(fpow(b, 0x1e1enat, p) == 0x86c8fcb43b82fd43int);
    lemma_fpow_double(b, 0x1e1enat, p);
    assert(fpow(b, 0x3c3cnat, p) == 0xfeb323d54c450756int);
    lemma_fpow_double(b, 0x3c3cnat, p);
    assert(fpow(b, 0x7878nat, p) == 0x30826fbca28430c4int);
    lemma_fpow_double(b, 0x7878nat, p);
    assert(fpow(b, 0xf0f0nat, p) == 0x2bf8ea52f0ed293bint);
    lemma_fpow_double(b, 0xf0f0nat, p);
    assert(fpow(b, 0x1e1e0nat, p) == 0x327a017a42363030int);
    lemma_fpow_step(b, 0x1e1e0nat, p);
    assert(fpow(b, 0x1e1e1nat, p) == 0x1e29a9072150fde3int);
    lemma_fpow_double(b, 0x1e1e1nat, p);
    assert(fpow(b, 0x3c3c2nat, p) == 0x8c61a51fec6a9b42int);
    lemma_fpow_step(b, 0x3c3c2nat, p);
    assert(fpow(b, 0x3c3c3nat, p) == 0x10da2f2cbac03fc2int);
    lemma_fpow_double(b, 0x3c3c3nat, p);
    assert(fpow(b, 0x78786nat, p) == 0x205a9f7da18d8362int);
    lemma_fpow_step(b, 0x78786nat, p);
    assert(fpow(b, 0x78787nat, p) == 0x4593610d936d70ccint);
    lemma_fpow_double(b, 0x78787nat, p);
    assert(fpow(b, 0xf0f0enat, p) == 0xaba283f988a6c278int);
    lemma_fpow_step(b, 0xf0f0enat, p);
    assert(fpow(b, 0xf0f0fnat, p) == 0xd07841fcb5fcb92fint);
    lemma_fpow_double(b, 0xf0f0fnat, p);
    assert(fpow(b, 0x1e1e1enat, p) == 0xb2ad619b5111bb2eint);
    lemma_fpow_double(b, 0x1e1e1enat, p);
    assert(fpow(b, 0x3c3c3cnat, p) == 0xb7090b4df6635f2eint);
}

/// The power `0xaa5b2509f86bb4d4int^0xf0f0f0f`.
proof fn lemma_power_over_17_1()
    ensures
        fpow(0xaa5b2509f86bb4d4int, 0xf0f0f0fnat, group_modulus()) == 0xe23ae4f949f9787aint,
{
    let p = group_modulus();
    let b = 0xaa5b2509f86bb4d4int;
    lemma_power_over_17_0();
    lemma_fpow_double(b, 0x3c3c3cnat, p);
    assert(fpow(b, 0x787878nat, p) == 0x6691872563dc0dceint);
    lemma_fpow_double(b, 0x787878nat, p);
    assert(fpow(b, 0xf0f0f0nat, p) == 0x11c22070ba6f5848int);
    lemma_fpow_double(b, 0xf0f0f0nat, p);
    assert(fpow(b, 0x1e1e1e0nat, p) == 0x41ef67123ec7e01int);
    lemma_fpow_step(b, 0x1e1e1e0nat, p);
    assert(fpow(b, 0x1e1e1e1nat, p) == 0xfabe36749567612int);
    lemma_fpow_double(b, 0x1e1e1e1nat, p);
    assert(fpow(b, 0x3c3c3c2nat, p) == 0xf699cc181d029022int);
    lemma_fpow_step(b, 0x3c3c3c2nat, p);
    assert(fpow(b, 0x3c3c3c3nat, p) == 0x9e18fa1bf888eb6dint);
    lemma_fpow_double(b, 0x3c3c3c3nat, p);
    assert(fpow(b, 0x7878786nat, p) == 0xdace5f1b6a4c347fint);
    lemma_fpow_step(b, 0x7878786nat, p);
    assert(fpow(b, 0x7878787nat, p) == 0xb9482ad5a6d525c7int);
    lemma_fpow_double(b, 0x7878787nat, p);
    assert(fpow(b, 0xf0f0f0enat, p) == 0xc437fd26862708e5int);
    lemma_fpow_step(b, 0xf0f0f0enat, p);
    assert(fpow(b, 0xf0f0f0fnat, p) == 0xe23ae4f949f9787aint);
}

/// The power `0xaa5b2509f86bb4d4int^0x1fe01f`.
proof fn lemma_power_over_257_0()
    ensures
        fpow(0xaa5b2509f86bb4d4int, 0x1fe01fnat, group_modulus()) == 0xb1b304cefc4c55c9int,
{
    let p = group_modulus();
    let b = 0xaa5b2509f86bb4d4int;
    lemma_pow1(b);
    assert(fpow(b, 1, p) == b);
    lemma_fpow_double(b, 0x1nat, p);
    assert(fpow(b, 0x2nat, p) == 0x420265815f3416fdint);
    lemma_fpow_step(b, 0x2nat, p);
    assert(fpow(b, 0x3nat, p) == 0x11c37210161a0aa8int);
    lemma_fpow_double(b, 0x3nat, p);
    assert(fpow(b, 0x6nat, p) == 0x9cdae742ef128e1bint);
    lemma_fpow_step(b, 0x6nat, p);
    assert(fpow(b, 0x7nat, p) == 0x3f228a16c54e4a16int);
    lemma_fpow_double(b, 0x7nat, p);
    assert(fpow(b, 0xenat, p) == 0x98e389bfd9a13543int);
    lemma_fpow_step(b, 0xenat, p);
    assert(fpow(b, 0xfnat, p) == 0x9c7864a42339f298int);
    lemma_fpow_double(b, 0xfnat, p);
    assert(fpow(b, 0x1enat, p) == 0xa77ec2f191907c3bint);
    lemma_fpow_step(b, 0x1enat, p);
    assert(fpow(b, 0x1fnat, p) == 0x3bbcb9be397fd294int);
    lemma_fpow_double(b, 0x1fnat, p);
    assert(fpow(b, 0x3enat, p) == 0xab0a82897174c190int);
    lemma_fpow_step(b, 0x3enat, p);
    assert(fpow(b, 0x3fnat, p) == 0xe38658e727be3526int);
    lemma_fpow_double(b, 0x3fnat, p);
    assert(fpow(b, 0x7enat, p) == 0xad1a358397e0900dint);
    lemma_fpow_step(b, 0x7enat, p);
    assert(fpow(b, 0x7fnat, p) == 0x33110ac2153a2abdint);
    lemma_fpow_double(b, 0x7fnat, p);
    assert(fpow(b, 0xfenat, p) == 0x770bde3b99e70890int);
    lemma_fpow_step(b, 0xfenat, p);
    assert(fpow(b, 0xffnat, p) == 0xf41555f9bcddefbfint);
    lemma_fpow_double(b, 0xffnat, p);
    assert(fpow(b, 0x1fenat, p) == 0x97dc88f27b3aa5cint);
    lemma_fpow_double(b, 0x1fenat, p);
    assert(fpow(b, 0x3fcnat, p) == 0x7a9fb44c2bf4d5a4int);
    lemma_fpow_double(b, 0x3fcnat, p);
    assert(fpow(b, 0x7f8nat, p) == 0x2e90cd88c0ae8b5aint);
    lemma_fpow_double(b, 0x7f8nat, p);
    assert(fpow(b, 0xff0nat, p) == 0xf70447bdad9eb3caint);
    lemma_fpow_double(b, 0xff0nat, p);
    assert(fpow(b, 0x1fe0nat, p) == 0x9b2fd4612a326a25int);
    lemma_fpow_double(b, 0x1fe0nat, p);
    assert(fpow(b, 0x3fc0nat, p) == 0x9d83ea9b136c176cint);
    lemma_fpow_double(b, 0x3fc0nat, p);
    assert(fpow(b, 0x7f80nat, p) == 0xb93f58b144d13108int);
    lemma_fpow_double(b, 0x7f80nat, p);
    assert(fpow(b, 0xff00nat, p) == 0xbadbabefd6f6e080int);
    lemma_fpow_double(b, 0xff00nat, p);
    assert(fpow(b, 0x1fe00nat, p) == 0x2496aee88e497b29int);
    lemma_fpow_step(b, 0x1fe00nat, p);
    assert(fpow(b, 0x1fe01nat, p) == 0x1500c702ca003a08int);
    lemma_fpow_double(b, 0x1fe01nat, p);
    assert(fpow(b, 0x3fc02nat, p) == 0x8177134d9b952000int);
    lemma_fpow_step(b, 0x3fc02nat, p);
    assert(fpow(b, 0x3fc03nat, p) == 0x3cb83962155447bbint);
    lemma_fpow_double(b, 0x3fc03nat, p);
    assert(fpow(b, 0x7f806nat, p) == 0x26ea1e8a428f6546int);
    lemma_fpow_step(b, 0x7f806nat, p);
    assert(fpow(b, 0x7f807nat, p) == 0x1df0086ef690a534int);
    lemma_fpow_double(b, 0x7f807nat, p);
    assert(fpow(b, 0xff00enat, p) == 0x59cdbc0f3d699b72int);
    lemma_fpow_step(b, 0xff00enat, p);
    assert(fpow(b, 0xff00fnat, p) == 0xf9ed3b5115e26d9eint);
    lemma_fpow_double(b, 0xff00fnat, p);
    assert(fpow(b, 0x1fe01enat, p) == 0x2aae987e13751c08int);
    lemma_fpow_step(b, 0x1fe01enat, p);
    assert(fpow(b, 0x1fe01fnat, p) == 0xb1b304cefc4c55c9int);
}

/// The power `0xaa5b2509f86bb4d4int^0xff00ff`.
proof fn lemma_power_over_257_1()
    ensures
        fpow(0xaa5b2509f86bb4d4int, 0xff00ffnat, group_modulus()) == 0xdcf40d2948736a7int,
{
    let p = group_modulus();
    let b = 0xaa5b2509f86bb4d4int;
    lemma_power_over_257_0();
    lemma_fpow_double(b, 0x1fe01fnat, p);
    assert(fpow(b, 0x3fc03enat, p) == 0x41b237bf56508d5eint);
    lemma_fpow_step(b, 0x3fc03enat, p);
    assert(fpow(b, 0x3fc03fnat, p) == 0xea7571abe745595cint);
    lemma_fpow_double(b, 0x3fc03fnat, p);
    assert(fpow(b, 0x7f807enat, p) == 0x3af4354e1fa8cd07int);
    lemma_fpow_step(b, 0x7f807enat, p);
    assert(fpow(b, 0x7f807fnat, p) == 0xf362f233cf59a83cint);
    lemma_fpow_double(b, 0x7f807fnat, p);
    assert(fpow(b, 0xff00fenat, p) == 0x2e2189e6d86cdb7bint);
    lemma_fpow_step(b, 0xff00fenat, p);
    assert(fpow(b, 0xff00ffnat, p) == 0xdcf40d2948736a7int);
}

/// The power `0xaa5b2509f86bb4d4int^0xffff`.
proof fn lemma_power_over_65537_0()
    ensures
        fpow(0xaa5b2509f86bb4d4int, 0xffffnat, group_modulus()) == 0x75ab0de70cf3ed11int,
{
    let p = group_modulus();
    let b = 0xaa5b2509f86bb4d4int;
    lemma_pow1(b);
    assert(fpow(b, 1, p) == b);
    lemma_fpow_double(b, 0x1nat, p);
    assert(fpow(b, 0x2nat, p) == 0x420265815f3416fdint);
    lemma_fpow_step(b, 0x2nat, p);
    assert(fpow(b, 0x3nat, p) == 0x11c37210161a0aa8int);
    lemma_fpow_double(b, 0x3nat, p);
    assert(fpow(b, 0x6nat, p) == 0x9cdae742ef128e1bint);
    lemma_fpow_step(b, 0x6nat, p);
    assert(fpow(b, 0x7nat, p) == 0x3f228a16c54e4a16int);
    lemma_fpow_double(b, 0x7nat, p);
    assert(fpow(b, 0xenat, p) == 0x98e389bfd9a13543int);
    lemma_fpow_step(b, 0xenat, p);
    assert(fpow(b, 0xfnat, p) == 0x9c7864a42339f298int);
    lemma_fpow_double(b, 0xfnat, p);
    assert(fpow(b, 0x1enat, p) == 0xa77ec2f191907c3bint);
    lemma_fpow_step(b, 0x1enat, p);
    assert(fpow(b, 0x1fnat, p) == 0x3bbcb9be397fd294int);
    lemma_fpow_double(b, 0x1fnat, p);
    assert(fpow(b, 0x3enat, p) == 0xab0a82897174c190int);
    lemma_fpow_step(b, 0x3enat, p);
    assert(fpow(b, 0x3fnat, p) == 0xe38658e727be3526int);
    lemma_fpow_double(b, 0x3fnat, p);
    assert(fpow(b, 0x7enat, p) == 0xad1a358397e0900dint);
    lemma_fpow_step(b, 0x7enat, p);
    assert(fpow(b, 0x7fnat, p) == 0x33110ac2153a2abdint);
    lemma_fpow_double(b, 0x7fnat, p);
    assert(fpow(b, 0xfenat, p) == 0x770bde3b99e70890int);
    lemma_fpow_step(b, 0xfenat, p);
    assert(fpow(b, 0xffnat, p) == 0xf41555f9bcddefbfint);
    lemma_fpow_double(b, 0xffnat, p);
    assert(fpow(b, 0x1fenat, p) == 0x97dc88f27b3aa5cint);
    lemma_fpow_step(b, 0x1fenat, p);
    assert(fpow(b, 0x1ffnat, p) == 0xbafdaf299ad5d996int);
    lemma_fpow_double(b, 0x1ffnat, p);
    assert(fpow(b, 0x3fenat, p) == 0x853175c896e152a7int);
    lemma_fpow_step(b, 0x3fenat, p);
    assert(fpow(b, 0x3ffnat, p) == 0x2f855003f35e4188int);
    lemma_fpow_double(b, 0x3ffnat, p);
    assert(fpow(b, 0x7fenat, p) == 0x3c509076a75a2b48int);
    lemma_fpow_step(b, 0x7fenat, p);
    assert(fpow(b, 0x7ffnat, p) == 0x2c944e74888279f3int);
    lemma_fpow_double(b, 0x7ffnat, p);
    assert(fpow(b, 0xffenat, p) == 0xe807654d5f6a62c3int);
    lemma_fpow_step(b, 0xffenat, p);
    assert(fpow(b, 0xfffnat, p) == 0x7861fc30e7b747fbint);
    lemma_fpow_double(b, 0xfffnat, p);
    assert(fpow(b, 0x1ffenat, p) == 0x571f2b26cfbf7042int);
    lemma_fpow_step(b, 0x1ffenat, p);
    assert(fpow(b, 0x1fffnat, p) == 0x69acbfa74472b3f6int);
    lemma_fpow_double(b, 0x1fffnat, p);
    assert(fpow(b, 0x3ffenat, p) == 0x75721921fb95af6cint);
    lemma_fpow_step(b, 0x3ffenat, p);
    assert(fpow(b, 0x3fffnat, p) == 0x7da3796aa870df2int);
    lemma_fpow_double(b, 0x3fffnat, p);
    assert(fpow(b, 0x7ffenat, p) == 0x4201e01627c0e8feint);
    lemma_fpow_step(b, 0x7ffenat, p);
    assert(fpow(b, 0x7fffnat, p) == 0x166973e1a008e402int);
    lemma_fpow_double(b, 0x7fffnat, p);
    assert(fpow(b, 0xfffenat, p) == 0x1d34fff37e31f98bint);
    lemma_fpow_step(b, 0xfffenat, p);
    assert(fpow(b, 0xffffnat, p) == 0x75ab0de70cf3ed11int);
}

/// The generator generates the whole group: its power by the order of the group is one, and
/// its power by the order over any prime factor of the order is not.
pub proof fn lemma_group_generator()
    ensures
        generates(group_generator(), group_modulus(), group_factors()),
{
    let p = group_modulus();
    let g = group_generator();
    let odd = seq![3int, 5, 17, 257, 65537];
    let factors = group_factors();
    lemma2_to64();
    assert(pow2(32) == 0x100000000int);
    vstd::arithmetic::power2::lemma_pow2_unfold(32);
    assert(pow2(31) == 0x80000000int);
    lemma_product_twos(32);
    lemma_product_concat(twos(32), odd);
    let tail_4 = seq![65537int];
    assert(product(tail_4.drop_first()) == 1);
    assert(product(tail_4) == 0x10001int);
    let tail_3 = seq![257int, 65537];
    assert(tail_3.drop_first() =~= tail_4);
    assert(product(tail_3) == 0x1010101int);
    let tail_2 = seq![17int, 257, 65537];
    assert(tail_2.drop_first() =~= tail_3);
    assert(product(tail_2) == 0x11111111int);
    let tail_1 = seq![5int, 17, 257, 65537];
    assert(tail_1.drop_first() =~= tail_2);
    assert(product(tail_1) == 0x55555555int);
    let tail_0 = seq![3int, 5, 17, 257, 65537];
    assert(tail_0.drop_first() =~= tail_1);
    assert(product(tail_0) == 0xffffffffint);
    assert(odd =~= tail_0);
    assert(product(factors) == p - 1);
    lemma_prime_3();
    lemma_prime_5();
    lemma_prime_17();
    lemma_prime_257();
    lemma_prime_65537();
    assert(is_prime(2));
    assert forall|i: int| 0 <= i < factors.len() implies is_prime(#[trigger] factors[i]) by {
        if i >= 32 {
            assert(factors[i] == odd[i - 32]);
        }
    }
    lemma_squarings_0();
    lemma_power_order_1();
    lemma_fpow_mul(g, pow2(32), 0xffffffffnat, p);
    assert(fpow(g, (p - 1) as nat, p) == 1);
    lemma_squarings_below_top();
    lemma_power_half_1();
    lemma_fpow_mul(g, pow2(31), 0xffffffffnat, p);
    assert(fpow(g, ((p - 1) / 2) as nat, p) == p - 1);
    lemma_squarings_0();
    lemma_power_over_3_1();
    lemma_fpow_mul(g, pow2(32), 0x55555555nat, p);
    assert(fpow(g, ((p - 1) / 3) as nat, p) == 0xfffffffe00000001int);
    lemma_squarings_0();
    lemma_power_over_5_1();
    lemma_fpow_mul(g, pow2(32), 0x33333333nat, p);
    assert(fpow(g, ((p - 1) / 5) as nat, p) == 0x130e07948a9d41d6int);
    lemma_squarings_0();
    lemma_power_over_17_1();
    lemma_fpow_mul(g, pow2(32), 0xf0f0f0fnat, p);
    assert(fpow(g, ((p - 1) / 17) as nat, p) == 0xe23ae4f949f9787aint);
    lemma_squarings_0();
    lemma_power_over_257_1();
    lemma_fpow_mul(g, pow2(32), 0xff00ffnat, p);
    assert(fpow(g, ((p - 1) / 257) as nat, p) == 0xdcf40d2948736a7int);
    lemma_squarings_0();
    lemma_power_over_65537_0();
    lemma_fpow_mul(g, pow2(32), 0xffffnat, p);
    assert(fpow(g, ((p - 1) / 65537) as nat, p) == 0x75ab0de70cf3ed11int);
    assert forall|i: int| 0 <= i < factors.len() implies fpow(
        g,
        ((p - 1) / #[trigger] factors[i]) as nat,
        p,
    ) != 1 by {
        if i >= 32 {
            assert(factors[i] == odd[i - 32]);
        } else {
            assert(factors[i] == 2);
        }
    }
}

} // verus!
