//! A generator of the multiplicative group of the 251-bit field, with the computations that
//! certify it: every non-zero element of the field is a power of the generator.

use vstd::prelude::*;
use vstd::arithmetic::power::lemma_pow1;
use vstd::arithmetic::power2::{lemma2_to64, lemma_pow2_adds, pow2};
use crate::arith::{fpow, lemma_fpow_double, lemma_fpow_mul, lemma_fpow_pow2_step, lemma_fpow_step};
use crate::units::{
    generates, is_prime, lemma_prime_by_trial, lemma_product_concat, lemma_product_twos,
    product, twos,
};

verus! {

/// The modulus of the field.
pub open spec fn group_modulus() -> int {
    0x800000000000011000000000000000000000000000000000000000000000001int
}

/// A generator of the multiplicative group.
pub open spec fn group_generator() -> int {
    3
}

/// The prime factors of the order of the group, `2^192 * 5 * 7 * 98714381 * 166848103`.
pub open spec fn group_factors() -> Seq<int> {
    twos(192) + seq![5int, 7, 98714381, 166848103]
}

/// 5 is prime.
proof fn lemma_prime_5()
    ensures
        is_prime(5),
{
    assert(forall|d: u32| 2 <= d && d <= 3 ==> #[trigger] (5u32 % d) != 0) by (bit_vector);
    assert forall|d: int| 2 <= d <= 3 implies #[trigger] (5int % d) != 0 by {
        let narrow = d as u32;
        assert(5u32 % narrow != 0);
    }
    lemma_prime_by_trial(5, 3);
}

/// 7 is prime.
proof fn lemma_prime_7()
    ensures
        is_prime(7),
{
    assert(forall|d: u32| 2 <= d && d <= 3 ==> #[trigger] (7u32 % d) != 0) by (bit_vector);
    assert forall|d: int| 2 <= d <= 3 implies #[trigger] (7int % d) != 0 by {
        let narrow = d as u32;
        assert(7u32 % narrow != 0);
    }
    lemma_prime_by_trial(7, 3);
}

/// 98714381 is prime.
proof fn lemma_prime_98714381()
    ensures
        is_prime(98714381),
{
    assert(forall|d: u32| 2 <= d && d <= 9936 ==> #[trigger] (98714381u32 % d) != 0) by (bit_vector);
    assert forall|d: int| 2 <= d <= 9936 implies #[trigger] (98714381int % d) != 0 by {
        let narrow = d as u32;
        assert(98714381u32 % narrow != 0);
    }
    lemma_prime_by_trial(98714381, 9936);
}

/// 166848103 is prime.
proof fn lemma_prime_166848103()
    ensures
        is_prime(166848103),
{
    assert(forall|d: u32| 2 <= d && d <= 12917 ==> #[trigger] (166848103u32 % d) != 0) by (bit_vector);
    assert forall|d: int| 2 <= d <= 12917 implies #[trigger] (166848103int % d) != 0 by {
        let narrow = d as u32;
        assert(166848103u32 % narrow != 0);
    }
    lemma_prime_by_trial(166848103, 12917);
}

/// The generator squared 32 times.
proof fn lemma_squarings_0()
    ensures
        fpow(group_generator(), pow2(32), group_modulus()) == 0x6616b5a012ed059a36a54e439c429aa5a5b663a6ae7faa15969d397e529674dint,
{
    let p = group_modulus();
    let g = group_generator();
    lemma2_to64();
    lemma_pow1(g);
    assert(fpow(g, pow2(0), p) == g);
    lemma_fpow_pow2_step(g, 0, p);
    assert(fpow(g, pow2(1), p) == 0x9int);
    lemma_fpow_pow2_step(g, 1, p);
    assert(fpow(g, pow2(2), p) == 0x51int);
    lemma_fpow_pow2_step(g, 2, p);
    assert(fpow(g, pow2(3), p) == 0x19a1int);
    lemma_fpow_pow2_step(g, 3, p);
    assert(fpow(g, pow2(4), p) == 0x290d741int);
    lemma_fpow_pow2_step(g, 4, p);
    assert(fpow(g, pow2(5), p) == 0x6954fe21e3e81int);
    lemma_fpow_pow2_step(g, 5, p);
    assert(fpow(g, pow2(6), p) == 0x2b56d4af8f7932278c797ebd01int);
    lemma_fpow_pow2_step(g, 6, p);
    assert(fpow(g, pow2(7), p) == 0x75648e690da5a4d2eefe4588f7cfb7be364804214818a867a01int);
    lemma_fpow_pow2_step(g, 7, p);
    assert(fpow(g, pow2(8), p) == 0x27c781843aa2707fed24281579b1a4e02a96ce222db9c1cc3a40ce964bdc927int);
    lemma_fpow_pow2_step(g, 8, p);
    assert(fpow(g, pow2(9), p) == 0x14a332730b3fb20e8ccec5d7b6d7529e816412df89c667070e6d3ade3700cb2int);
    lemma_fpow_pow2_step(g, 9, p);
    assert(fpow(g, pow2(10), p) == 0x16ee003a478d58cf1ddad53a0d6fdeb9e1ed7063c37fa3cd906d73d9159580eint);
    lemma_fpow_pow2_step(g, 10, p);
    assert(fpow(g, pow2(11), p) == 0x3a336e9097a76e93b5e5f8ff8cb2a540b4551bffc0bb76b5d7afa6730612cf3int);
    lemma_fpow_pow2_step(g, 11, p);
    assert(fpow(g, pow2(12), p) == 0x7f1976c204c4e7b0f32cba63a75c20c216df6811be71f67ab45e1124d25471fint);
    lemma_fpow_pow2_step(g, 12, p);
    assert(fpow(g, pow2(13), p) == 0x77d22d55d03b6102e1b4b727188acf91cf22a9a5e41edab9c1c162203d2cc74int);
    lemma_fpow_pow2_step(g, 13, p);
    assert(fpow(g, pow2(14), p) == 0x284b166988773a9132cb0ebff129d5ee049abefc4805f2d833dd0218f6afe40int);
    lemma_fpow_pow2_step(g, 14, p);
    assert(fpow(g, pow2(15), p) == 0x316a3f1b82baf955281cbc4181ef63b465a6603d3db7c6224e7211f5d97012eint);
    lemma_fpow_pow2_step(g, 15, p);
    assert(fpow(g, pow2(16), p) == 0x1d491bcd0b49c31c7d79e3c2a83f944e83382c657eb7470a83df7d42260847fint);
    lemma_fpow_pow2_step(g, 16, p);
    assert(fpow(g, pow2(17), p) == 0x570002f753a5491da06cf35b196fb1180cdc55fe84554a90b6a27e32a8f9392int);
    lemma_fpow_pow2_step(g, 17, p);
    assert(fpow(g, pow2(18), p) == 0x1a51f80bdfe0787efed523e7cb07e1a5d56a82f6c3c7ac60a535de237a4e1fbint);
    lemma_fpow_pow2_step(g, 18, p);
    assert(fpow(g, pow2(19), p) == 0x441f5ba6cdb0f49b687cb763e09893fa76b897a8fc08e83279538045a4ed896int);
    lemma_fpow_pow2_step(g, 19, p);
    assert(fpow(g, pow2(20), p) == 0x7d1f826a58203029c590df22cb2175cb1be02737bd6e1603a213460cdeb6a78int);
    lemma_fpow_pow2_step(g, 20, p);
    assert(fpow(g, pow2(21), p) == 0x721b082fec24b4ca6aeaa4aadef7ca09cdba48e4045d37e9180c033f8dd984int);
    lemma_fpow_pow2_step(g, 21, p);
    assert(fpow(g, pow2(22), p) == 0x718850ea2bce66034aa348a37b508f9187c7756cd728cb7fe9e76933947e5d8int);
    lemma_fpow_pow2_step(g, 22, p);
    assert(fpow(g, pow2(23), p) == 0x5f43364ba3d51ba71b193a4b64347afcbef42e9d121c92ab1d7159350146157int);
    lemma_fpow_pow2_step(g, 23, p);
    assert(fpow(g, pow2(24), p) == 0x356919cb9565444e7b440e66b431c3496d27f23f7651ce0406b96794b396104int);
    lemma_fpow_pow2_step(g, 24, p);
    assert(fpow(g, pow2(25), p) == 0x7e3d9f6783ccc059430f87df1ea57292a3feb170fd7b6f64f172094f000d311int);
    lemma_fpow_pow2_step(g, 25, p);
    assert(fpow(g, pow2(26), p) == 0x4081f4fe82ef79c37972ac6e546e568aa403cb23b8145464b198338990f4e4eint);
    lemma_fpow_pow2_step(g, 26, p);
    assert(fpow(g, pow2(27), p) == 0x6134091e25a5fecb0b2cbac0c65f982b7690a9614481f8aceeea0f9d0411bbfint);
    lemma_fpow_pow2_step(g, 27, p);
    assert(fpow(g, pow2(28), p) == 0xb4c8253c46ca73aca471dbe1db3d574b0ea80870629132177bc5dba4e4ab35int);
    lemma_fpow_pow2_step(g, 28, p);
    assert(fpow(g, pow2(29), p) == 0x3b0643afe3b7425e0a8d050f29d8be2ea7d6a7588e28ede64b57195e65d85f0int);
    lemma_fpow_pow2_step(g, 29, p);
    assert(fpow(g, pow2(30), p) == 0x5c634695c76e14fdb5b5f967aa586a8572aabce725fc8c57606a28586b06954int);
    lemma_fpow_pow2_step(g, 30, p);
    assert(fpow(g, pow2(31), p) == 0x4cab0fafcc58c689a3873eac479fe9e6b4bbd1195bd9a1166357a6129e767f9int);
    lemma_fpow_pow2_step(g, 31, p);
    assert(fpow(g, pow2(32), p) == 0x6616b5a012ed059a36a54e439c429aa5a5b663a6ae7faa15969d397e529674dint);
}

/// The generator squared 64 times.
proof fn lemma_squarings_1()
    ensures
        fpow(group_generator(), pow2(64), group_modulus()) == 0x1a8aa6242634368d25acdd630fb5d1d93d1c160b6754e508441de38dee8ea1int,
{
    let p = group_modulus();
    let g = group_generator();
    lemma_squarings_0();
    lemma_fpow_pow2_step(g, 32, p);
    assert(fpow(g, pow2(33), p) == 0x2e74984c52d30ea57fee88338b39f731545461e4990736b39519f354fa4c6e8int);
    lemma_fpow_pow2_step(g, 33, p);
    assert(fpow(g, pow2(34), p) == 0x4f6c8c82fb4bae03369059a4a81a05cdb9e090bda6d294763ea767159b0d099int);
    lemma_fpow_pow2_step(g, 34, p);
    assert(fpow(g, pow2(35), p) == 0x37884af73018f0887d94dbd5470e117d273ef5e7bd38391ae089bd9e673c50dint);
    lemma_fpow_pow2_step(g, 35, p);
    assert(fpow(g, pow2(36), p) == 0x55f2a3b7226e21c2bf6950869677d21940944ca7963e46a54c0bf8e7aba59d6int);
    lemma_fpow_pow2_step(g, 36, p);
    assert(fpow(g, pow2(37), p) == 0x7ad87e7f214352b113dd2a669ad9463a1c348707f495c39f95ac70fa8f08a73int);
    lemma_fpow_pow2_step(g, 37, p);
    assert(fpow(g, pow2(38), p) == 0x21da47cdf4dfdc5165eb28c8b95cf42078592d2851c8ff0f5ed350c279b9577int);
    lemma_fpow_pow2_step(g, 38, p);
    assert(fpow(g, pow2(39), p) == 0x288d24cfe6d5e9a9dab6e0a2d1ce9508e66a8084e7853e55c2aa0ca7b0e57e6int);
    lemma_fpow_pow2_step(g, 39, p);
    assert(fpow(g, pow2(40), p) == 0x52973f01e0c7fa98027fe4235092f26e1f55552fb8758ad60f8055dfb5a5824int);
    lemma_fpow_pow2_step(g, 40, p);
    assert(fpow(g, pow2(41), p) == 0x5f09ebbcee6e9765306646fd77d4ffab17b6dec3f8c8ae7a17a1da87686b1a7int);
    lemma_fpow_pow2_step(g, 41, p);
    assert(fpow(g, pow2(42), p) == 0xf1f0d6ae9f3b3624ef6a5d9bd352f6193a291bef05e8600f9962779a1d8a2aint);
    lemma_fpow_pow2_step(g, 42, p);
    assert(fpow(g, pow2(43), p) == 0x49ca34fbd2c86718ebf6189619f1f73473c87eed309b820ac4138eba3a8eec4int);
    lemma_fpow_pow2_step(g, 43, p);
    assert(fpow(g, pow2(44), p) == 0x746222f24ebebac3bf69689f4f6cbc236b6c0d7b5c7fc185be9030d07e9c6cfint);
    lemma_fpow_pow2_step(g, 44, p);
    assert(fpow(g, pow2(45), p) == 0x605283ba4d055dd90e2076af47fc16c780f5c349e236cc72dc904213dcaba3fint);
    lemma_fpow_pow2_step(g, 45, p);
    assert(fpow(g, pow2(46), p) == 0x5729ae5aeb977dc0d9200201f3afaeb98c7f43ca121846ceae5f634f4e2e740int);
    lemma_fpow_pow2_step(g, 46, p);
    assert(fpow(g, pow2(47), p) == 0x475c49c0e392f46bac8a89a8e2807e2d6a562e193c3368d7dca00ab7a63a501int);
    lemma_fpow_pow2_step(g, 47, p);
    assert(fpow(g, pow2(48), p) == 0x3625b5b4e185d5129f7862ead2026410386cea81860539be1cfe2a492aadf11int);
    lemma_fpow_pow2_step(g, 48, p);
    assert(fpow(g, pow2(49), p) == 0x6d4ea0d5be1d49622f034a5c362f7a41b2c7959a51a26ed99a1cf8672eae768int);
    lemma_fpow_pow2_step(g, 49, p);
    assert(fpow(g, pow2(50), p) == 0x585dbc6946c12b999a813ba193396d87b6b3c483cba26279cd2f6c3ebd7722bint);
    lemma_fpow_pow2_step(g, 50, p);
    assert(fpow(g, pow2(51), p) == 0x301dd610b064027a6fd2a5382fb5c9802380780a5ceffe2d06d68b92cd6cbe2int);
    lemma_fpow_pow2_step(g, 51, p);
    assert(fpow(g, pow2(52), p) == 0x3a8e234c22ba7cd2019f0f4f81643fb63e459f069d13249facbef9dbeedd29fint);
    lemma_fpow_pow2_step(g, 52, p);
    assert(fpow(g, pow2(53), p) == 0x65d1a614f83bafedabac814b6bd4f1c5f7db3a97150e34bba2c6e715cc7a684int);
    lemma_fpow_pow2_step(g, 53, p);
    assert(fpow(g, pow2(54), p) == 0x2850696dd461b9b015e275efcddd1d096b598bc00871718198daae691322fbeint);
    lemma_fpow_pow2_step(g, 54, p);
    assert(fpow(g, pow2(55), p) == 0x263c2ee0ca50a83dc5eeed2e59b4c6483fff30d71050318c82321ec2d4aee3cint);
    lemma_fpow_pow2_step(g, 55, p);
    assert(fpow(g, pow2(56), p) == 0x51099d9c605b6cbabbb3e2d762985d2519f76a7c734e2f63a08a74da44703d5int);
    lemma_fpow_pow2_step(g, 56, p);
    assert(fpow(g, pow2(57), p) == 0x1a0aa1ccf6f92574db0a81d3cc10535ce0bb2c9a73725a2200083d78dad517cint);
    lemma_fpow_pow2_step(g, 57, p);
    assert(fpow(g, pow2(58), p) == 0x59503878b8ae0178c78b92d276f0a1a4eb942c5ea2adf6702e9b378fdb4a1e7int);
    lemma_fpow_pow2_step(g, 58, p);
    assert(fpow(g, pow2(59), p) == 0x64432339b4e52e3ec3bf4065860ba5fed2e23e3c446d579bc111baa0d16d27int);
    lemma_fpow_pow2_step(g, 59, p);
    assert(fpow(g, pow2(60), p) == 0x457ae43227c60c88d4f21b5123fa0edbde4e68733dfea2c2542e7937a1bab7fint);
    lemma_fpow_pow2_step(g, 60, p);
    assert(fpow(g, pow2(61), p) == 0xae848d393765d0ad8b5bdb0fd9191110134faa8961c1b8296a63bf390dc70int);
    lemma_fpow_pow2_step(g, 61, p);
    assert(fpow(g, pow2(62), p) == 0x4bf89bcd26a7f6b6cb9641fd32d89849bd1eeae464fb2a5a30ea4c98eb37f03int);
    lemma_fpow_pow2_step(g, 62, p);
    assert(fpow(g, pow2(63), p) == 0x588848a5b4d53d5954948887154c8e65adb5e8f05f82df3b0ced26ced1b1412int);
    lemma_fpow_pow2_step(g, 63, p);
    assert(fpow(g, pow2(64), p) == 0x1a8aa6242634368d25acdd630fb5d1d93d1c160b6754e508441de38dee8ea1int);
}

/// The generator squared 96 times.
proof fn lemma_squarings_2()
    ensures
        fpow(group_generator(), pow2(96), group_modulus()) == 0x6b9b60f8eb6013782e11d5104ed6513f8ed17ee988afced064c66b6311b178cint,
{
    let p = group_modulus();
    let g = group_generator();
    lemma_squarings_1();
    lemma_fpow_pow2_step(g, 64, p);
    assert(fpow(g, pow2(65), p) == 0x2cc90cb1120299f91feba238102cfa30e469c797d1c0192ae8445a8a8dee51cint);
    lemma_fpow_pow2_step(g, 65, p);
    assert(fpow(g, pow2(66), p) == 0x4fce617405f24069086d8edc8521050ff9a5892b480809f1eb3de9d2be96430int);
    lemma_fpow_pow2_step(g, 66, p);
    assert(fpow(g, pow2(67), p) == 0x3a9c14b2c2befb90d0ed80dfa68bf70b8313ed6fd411a9d41da9534e081aa75int);
    lemma_fpow_pow2_step(g, 67, p);
    assert(fpow(g, pow2(68), p) == 0x24ac5dc900d6c81fc07a314c9e4a48499503d78f5f18681afa8ff058fd4c35dint);
    lemma_fpow_pow2_step(g, 68, p);
    assert(fpow(g, pow2(69), p) == 0x711062ac3769d8f680d358ae64b602b13b77fc594105459b250046672644cecint);
    lemma_fpow_pow2_step(g, 69, p);
    assert(fpow(g, pow2(70), p) == 0x2c1f113b4f71940d60718b77e3ecc78bb5e63ec992d90e421b1537e90c7964int);
    lemma_fpow_pow2_step(g, 70, p);
    assert(fpow(g, pow2(71), p) == 0xd34f6809d4e7c0506f99864ca885ebcbbf64c747969911e7445672c9b2ffffint);
    lemma_fpow_pow2_step(g, 71, p);
    assert(fpow(g, pow2(72), p) == 0x6d84a1c2183b8244a80e59cab801f4d10a88f86af1e40c578965b2e1019a5acint);
    lemma_fpow_pow2_step(g, 72, p);
    assert(fpow(g, pow2(73), p) == 0xaa50d1e8dbec0f94442e12ff4cd81cf60b4e57072d078b0db3ea729f7e03dint);
    lemma_fpow_pow2_step(g, 73, p);
    assert(fpow(g, pow2(74), p) == 0x7ddcb5bd0e2e8ac4b55faf8b78293cbfdbaf316bb1aeaa5052126c8e60b2de6int);
    lemma_fpow_pow2_step(g, 74, p);
    assert(fpow(g, pow2(75), p) == 0x5deb6fb910ad88b2f139056cc307c7a09b5c17021d411be929dd946e360895eint);
    lemma_fpow_pow2_step(g, 75, p);
    assert(fpow(g, pow2(76), p) == 0x20ac0e65ceda45d185abbc5a9460eb01d24347947835d453928ce35e9d34c30int);
    lemma_fpow_pow2_step(g, 76, p);
    assert(fpow(g, pow2(77), p) == 0x8b5d60168552dc58e403973c68de2c4da0998ffd1de567eb8303fa9bfbdb3fint);
    lemma_fpow_pow2_step(g, 77, p);
    assert(fpow(g, pow2(78), p) == 0x1e9c0294c7ee7c79001372c55daa1a0edacee87b467caa69654ba06f4a91038int);
    lemma_fpow_pow2_step(g, 78, p);
    assert(fpow(g, pow2(79), p) == 0x40811f49ecb77e2d80ba3e804af9d45d08e3c373db0e924837396cdfb5f14f0int);
    lemma_fpow_pow2_step(g, 79, p);
    assert(fpow(g, pow2(80), p) == 0x7b38fc1f791d52061164626ce0edc359e9ae11a1cc0e27c175451bd10dd1a51int);
    lemma_fpow_pow2_step(g, 80, p);
    assert(fpow(g, pow2(81), p) == 0x5d0de985b91326d351688dc62f7be26159900430cdee03bf24389a35191763bint);
    lemma_fpow_pow2_step(g, 81, p);
    assert(fpow(g, pow2(82), p) == 0x1f416edb9ea689c2125b33107ea9fccafaf0f66751e51f85607f1dc05624f99int);
    lemma_fpow_pow2_step(g, 82, p);
    assert(fpow(g, pow2(83), p) == 0x19e342e36ca63b8fdf19cdd416c8508fd263f7a0a7e347eb24195ac98d2c76dint);
    lemma_fpow_pow2_step(g, 83, p);
    assert(fpow(g, pow2(84), p) == 0x306861a6e703533cdc7a43ffd7cbc4a5237bc853ad76b0da5747bd973cbd565int);
    lemma_fpow_pow2_step(g, 84, p);
    assert(fpow(g, pow2(85), p) == 0xf04e5ae3087068a2f5376fa14496ac2355db998d6b16a4cfec16e73327e59int);
    lemma_fpow_pow2_step(g, 85, p);
    assert(fpow(g, pow2(86), p) == 0x52beaf4111611a20f9829da82497a35512abf332c5d3130e395581a7964acaeint);
    lemma_fpow_pow2_step(g, 86, p);
    assert(fpow(g, pow2(87), p) == 0x20da5da8fe1e3968aa94b6285c376854dc4ae80a6943c536371f415e492c84cint);
    lemma_fpow_pow2_step(g, 87, p);
    assert(fpow(g, pow2(88), p) == 0x4f397da18d336c3fde210d77603cc453d2739a579ce9465d88f8499a8c0688aint);
    lemma_fpow_pow2_step(g, 88, p);
    assert(fpow(g, pow2(89), p) == 0x6f0bea36ab5fd87fb92cf9eaf83bb20fee57c50ddef7d8c9e83df6474cade0cint);
    lemma_fpow_pow2_step(g, 89, p);
    assert(fpow(g, pow2(90), p) == 0x48f836b9e321acecdccf8775449916bbd24b3a5d85890ae423039e9e9ba7414int);
    lemma_fpow_pow2_step(g, 90, p);
    assert(fpow(g, pow2(91), p) == 0x592cd339a8dd61af9b2c40f857fb66137405d6edd6321388b1bac241ce63d1fint);
    lemma_fpow_pow2_step(g, 91, p);
    assert(fpow(g, pow2(92), p) == 0x7b5f0eb3c68dac49a7ee3346f9688cc043b141eb779673fc887cc0c2a544543int);
    lemma_fpow_pow2_step(g, 92, p);
    assert(fpow(g, pow2(93), p) == 0x47c4d6f1d6d264b6ac6306945e304d57e21c52b478e74772bf6767c185ccc3fint);
    lemma_fpow_pow2_step(g, 93, p);
    assert(fpow(g, pow2(94), p) == 0x4429ab478998f8423793553b031aa081e55f3120232088153f782d67d804466int);
    lemma_fpow_pow2_step(g, 94, p);
    assert(fpow(g, pow2(95), p) == 0x7dc4d430d62e218c35408441edeaad1cbae42dfbdaa2b1d544c5af4093e1325int);
    lemma_fpow_pow2_step(g, 95, p);
    assert(fpow(g, pow2(96), p) == 0x6b9b60f8eb6013782e11d5104ed6513f8ed17ee988afced064c66b6311b178cint);
}

/// The generator squared 128 times.
proof fn lemma_squarings_3()
    ensures
        fpow(group_generator(), pow2(128), group_modulus()) == 0xe1519e91dbfcf1046473c9080f9ce3d5bb519fd9732c11ebf65519c48f0f74int,
{
    let p = group_modulus();
    let g = group_generator();
    lemma_squarings_2();
    lemma_fpow_pow2_step(g, 96, p);
    assert(fpow(g, pow2(97), p) == 0x7695ca666374c99880427efc75df2cce44fec8ddb2351639a8834987cd9c3b7int);
    lemma_fpow_pow2_step(g, 97, p);
    assert(fpow(g, pow2(98), p) == 0x642d766a2a3a15139092b2970ee8d859e9ba5c5a90d277d3bf38f14dcd465dbint);
    lemma_fpow_pow2_step(g, 98, p);
    assert(fpow(g, pow2(99), p) == 0x7df607d2ebf489b24f1363a03817e3a50ec7bcf73f38171fb99a2ee1cef4266int);
    lemma_fpow_pow2_step(g, 99, p);
    assert(fpow(g, pow2(100), p) == 0x2e39c614bcf0e0bd86ca88a4cf1cf4924a776e88d2e561660101d5293b986beint);
    lemma_fpow_pow2_step(g, 100, p);
    assert(fpow(g, pow2(101), p) == 0x61c5f80355d62f38c4ae431b466137bc3d7f91a295babf891c9ece635dded8dint);
    lemma_fpow_pow2_step(g, 101, p);
    assert(fpow(g, pow2(102), p) == 0x2f0ff05ae37e6904d07e9a01d835a0f72d636f003de453b509669054bce5a52int);
    lemma_fpow_pow2_step(g, 102, p);
    assert(fpow(g, pow2(103), p) == 0xbc87fad3b7086e334cdaf26e798c75816b2cdd1960d02ba2a98cf00433d396int);
    lemma_fpow_pow2_step(g, 103, p);
    assert(fpow(g, pow2(104), p) == 0x5983e243661863ccf256d6d0be707f9a7f73a36fcfcc01f69d195a6c0a6001fint);
    lemma_fpow_pow2_step(g, 104, p);
    assert(fpow(g, pow2(105), p) == 0x554a205bc2e759c06e19d89bbda83921f6d7fee14f02dbe5cf167234d85f9c9int);
    lemma_fpow_pow2_step(g, 105, p);
    assert(fpow(g, pow2(106), p) == 0x5cd71d4d8d7b34ffef511bc9eca1a71c2ce9a9a9d0d9cb53f9f07887c0b0f9cint);
    lemma_fpow_pow2_step(g, 106, p);
    assert(fpow(g, pow2(107), p) == 0x58092356521cd09275ff3360e2c6051d7a7215169c5a3bf166dbd1d74f6a7aint);
    lemma_fpow_pow2_step(g, 107, p);
    assert(fpow(g, pow2(108), p) == 0x37b20129038b6b97be19a1ac55394b8fc27d1c749338cb2d527eb0285db20adint);
    lemma_fpow_pow2_step(g, 108, p);
    assert(fpow(g, pow2(109), p) == 0x3264a8f9b144246d0104922de3667b8f45b7d1305990f17fce002c9662eb44aint);
    lemma_fpow_pow2_step(g, 109, p);
    assert(fpow(g, pow2(110), p) == 0x844322956b6465dad0e4fbebeb950ad7e363486bea5aa68bd991009377538aint);
    lemma_fpow_pow2_step(g, 110, p);
    assert(fpow(g, pow2(111), p) == 0x6a51a02174c3d9bc3febcf19eeba9891f45e4ebb3808381b5450ac350b5ef6eint);
    lemma_fpow_pow2_step(g, 111, p);
    assert(fpow(g, pow2(112), p) == 0x1f8e1c03ab779fd6b7c72a900b6e069257e931072ff662344eb6cc799b8488eint);
    lemma_fpow_pow2_step(g, 112, p);
    assert(fpow(g, pow2(113), p) == 0x51c8cdafe1d30239021d4f68caeda7eaa720ba38c28d80710cdfecb1e515c24int);
    lemma_fpow_pow2_step(g, 113, p);
    assert(fpow(g, pow2(114), p) == 0x53b581ee83d5cfb7065ed9ab7e63e4e450299750690fbaa57c49195b34d8010int);
    lemma_fpow_pow2_step(g, 114, p);
    assert(fpow(g, pow2(115), p) == 0x6e5e89dd194bcfb026e55492c08fff7d6ba2439f9f6fcec0cb1a65db08ae5c9int);
    lemma_fpow_pow2_step(g, 115, p);
    assert(fpow(g, pow2(116), p) == 0x1a7430897cee91e1f1ea549c4db7b0b2b4bf312d1d7c6055a50f16fe17b05ddint);
    lemma_fpow_pow2_step(g, 116, p);
    assert(fpow(g, pow2(117), p) == 0x4a2a68d77e7689232362109241c0956876801a973f8130fc3449f77ab7868int);
    lemma_fpow_pow2_step(g, 117, p);
    assert(fpow(g, pow2(118), p) == 0x4e6a2ac9a14e6df64b133eef602e628e58766ebefdc792f36a96b0a7f6a87e7int);
    lemma_fpow_pow2_step(g, 118, p);
    assert(fpow(g, pow2(119), p) == 0x1273eda1b943c14826025eacc16fc92a542b16e5ad592091e13aa30d6e5e86aint);
    lemma_fpow_pow2_step(g, 119, p);
    assert(fpow(g, pow2(120), p) == 0x3ea6b6d479e846f5752b6c0b35c66a9e081da8e2cb02ecf6af8723edca18f71int);
    lemma_fpow_pow2_step(g, 120, p);
    assert(fpow(g, pow2(121), p) == 0x1cd9bc5eba6158c14f8762a7ea5877e926da26d0b666d2f5906666e96d0d50aint);
    lemma_fpow_pow2_step(g, 121, p);
    assert(fpow(g, pow2(122), p) == 0x4032a1453a1b101ea2f6a0393c49916edd77b1b5f144ae361bcfead0c2d51acint);
    lemma_fpow_pow2_step(g, 122, p);
    assert(fpow(g, pow2(123), p) == 0x42855c45acec0416bf826acd1e1c971dd40f4f5b0c7f5c99a69d336318f56faint);
    lemma_fpow_pow2_step(g, 123, p);
    assert(fpow(g, pow2(124), p) == 0x284fb9ccbef242875111bc899abbbba1ce6da9a4a470d001c24413568937e96int);
    lemma_fpow_pow2_step(g, 124, p);
    assert(fpow(g, pow2(125), p) == 0xf4e1b36d6b56577add82986d4e131e49c2cd184d5133a62856f312f62af0a4int);
    lemma_fpow_pow2_step(g, 125, p);
    assert(fpow(g, pow2(126), p) == 0x1dd9ef4cb5e67bc5ba20229f1b4d08c1311b98483419e5202614ce434e6add9int);
    lemma_fpow_pow2_step(g, 126, p);
    assert(fpow(g, pow2(127), p) == 0x7f8afafa363f1d1c30bb13b745eb36a89b70b4c4456f57707673bc7703b6060int);
    lemma_fpow_pow2_step(g, 127, p);
    assert(fpow(g, pow2(128), p) == 0xe1519e91dbfcf1046473c9080f9ce3d5bb519fd9732c11ebf65519c48f0f74int);
}

/// The generator squared 160 times.
proof fn lemma_squarings_4()
    ensures
        fpow(group_generator(), pow2(160), group_modulus()) == 0x337adf33a51237ec8b8cdc851cd898462fba92942607ca3f61a96f7f0dec6fint,
{
    let p = group_modulus();
    let g = group_generator();
    lemma_squarings_3();
    lemma_fpow_pow2_step(g, 128, p);
    assert(fpow(g, pow2(129), p) == 0x34ff750dd2f2f13bc084faf87d88f32d4cc1abc50b58a3880b1aa1ef16f4324int);
    lemma_fpow_pow2_step(g, 129, p);
    assert(fpow(g, pow2(130), p) == 0x764cd7f0f8442f5d8c651becf6c977bdf6f1b654fdd40ad1f22e039249bd4a9int);
    lemma_fpow_pow2_step(g, 130, p);
    assert(fpow(g, pow2(131), p) == 0x3cc74e898527a795906aabe3cca686ff57bce899fd9efd4e4b27ad376cb323dint);
    lemma_fpow_pow2_step(g, 131, p);
    assert(fpow(g, pow2(132), p) == 0x1c8efad0a2d160e34847f23bbe4df3d476e9e54dee5588033874506a895ba5cint);
    lemma_fpow_pow2_step(g, 132, p);
    assert(fpow(g, pow2(133), p) == 0x179228e191894f2deb0a72ee6a954a84a405586ffc7d8bfbe81ea0607dfe750int);
    lemma_fpow_pow2_step(g, 133, p);
    assert(fpow(g, pow2(134), p) == 0x75882b81b5ac19494d3319d885eeb2c628b8f9a032eaae2ef17e15c1fc58a69int);
    lemma_fpow_pow2_step(g, 134, p);
    assert(fpow(g, pow2(135), p) == 0x69e0c68c46e217826b00ea569fdb68ab11706a553483b161b88aea0b0b78c69int);
    lemma_fpow_pow2_step(g, 135, p);
    assert(fpow(g, pow2(136), p) == 0x3db14149873e941a619dc026a767cfd7af29635444e05d5bbc23e40d1683a0int);
    lemma_fpow_pow2_step(g, 136, p);
    assert(fpow(g, pow2(137), p) == 0xafcd433ec25b9654622e49d40efefa26299e39ec239826cd2247a7ac9ee1a7int);
    lemma_fpow_pow2_step(g, 137, p);
    assert(fpow(g, pow2(138), p) == 0x28514144261f8c9893ad3c950c80567a3c582fc02a30165b0b1799a001fb510int);
    lemma_fpow_pow2_step(g, 138, p);
    assert(fpow(g, pow2(139), p) == 0x17def18f8fc4543351be15b906e60ba9609b8cdc67f7e41c496e274c1add119int);
    lemma_fpow_pow2_step(g, 139, p);
    assert(fpow(g, pow2(140), p) == 0x2dc60cf20d2cb8e32e40cbd9015b0af18120673566ec411a5ffcd320187ef84int);
    lemma_fpow_pow2_step(g, 140, p);
    assert(fpow(g, pow2(141), p) == 0x4694bb23bb9b24ef31ae932bd76c2cda867ca766e1a6640d166aae0b9b2e8edint);
    lemma_fpow_pow2_step(g, 141, p);
    assert(fpow(g, pow2(142), p) == 0x183c9f5deb45fbec5eb1e16a6a47b8f9d01ba11b54dd7a97f3d4aa2cb4b556fint);
    lemma_fpow_pow2_step(g, 142, p);
    assert(fpow(g, pow2(143), p) == 0x248ac0849b1471af4a9b938c56e27999e6791cb0902639fb77b74c279f414ffint);
    lemma_fpow_pow2_step(g, 143, p);
    assert(fpow(g, pow2(144), p) == 0x5c1254699922685dffffe80528d6ead0f00f38dd22fd4fa5463bd7eb2186114int);
    lemma_fpow_pow2_step(g, 144, p);
    assert(fpow(g, pow2(145), p) == 0x372b5615fe5b6d78ff4a49b4aa7808a09c069456bc2f4be5330cfe75131f7faint);
    lemma_fpow_pow2_step(g, 145, p);
    assert(fpow(g, pow2(146), p) == 0x4bd338d24f821326fe2140bf4d17943d790e5d4727b196bb568e4d328723719int);
    lemma_fpow_pow2_step(g, 146, p);
    assert(fpow(g, pow2(147), p) == 0x64c18caa76909059597d8dc607f2091edee8892a399483457f4c8a7d67941a7int);
    lemma_fpow_pow2_step(g, 147, p);
    assert(fpow(g, pow2(148), p) == 0xcb1b5bc571041291b863c688cee2489205d6d5ab3f23b79e427d04ac9cfd29int);
    lemma_fpow_pow2_step(g, 148, p);
    assert(fpow(g, pow2(149), p) == 0x70f65478f756b39fc967350b5588b36c9285947cb2e99aa97e2c9f108192ef9int);
    lemma_fpow_pow2_step(g, 149, p);
    assert(fpow(g, pow2(150), p) == 0x7960840d74489680376c83c3cc8363766402cb61c8ca94bc45856d4c97c6881int);
    lemma_fpow_pow2_step(g, 150, p);
    assert(fpow(g, pow2(151), p) == 0x5488256304d0afec6908d6e1181f13b07ba18621b9c2e0c905f1b728e51c68eint);
    lemma_fpow_pow2_step(g, 151, p);
    assert(fpow(g, pow2(152), p) == 0x6971205a5596def78747b41c563093e1c451cd8a029a233e5abd5afefd3bdaaint);
    lemma_fpow_pow2_step(g, 152, p);
    assert(fpow(g, pow2(153), p) == 0x7228f7778d2ed7041eb42da382bf172b8709f8c16094bc6930c92e00ac61e12int);
    lemma_fpow_pow2_step(g, 153, p);
    assert(fpow(g, pow2(154), p) == 0xf2556824a09cddcee7891e23d6bc483e4a01beef96349812a82281ffdc28e5int);
    lemma_fpow_pow2_step(g, 154, p);
    assert(fpow(g, pow2(155), p) == 0x6c63e6daa6269f538417dac0ceb6547ea38ca703a4e2cf997523c5433ad6136int);
    lemma_fpow_pow2_step(g, 155, p);
    assert(fpow(g, pow2(156), p) == 0x350d8fd0c87f32e81696f179b162929908de6b9657517feeba87868195d84d0int);
    lemma_fpow_pow2_step(g, 156, p);
    assert(fpow(g, pow2(157), p) == 0x23a12f053319ebe4a6c89c51f7dfe7743504d93c6f8fa813ec89add665bd6ccint);
    lemma_fpow_pow2_step(g, 157, p);
    assert(fpow(g, pow2(158), p) == 0x42a814e995baabd812d09736b95e55a5dc18a3c815da285172a6df5d875bf6fint);
    lemma_fpow_pow2_step(g, 158, p);
    assert(fpow(g, pow2(159), p) == 0x37623bfe33fa95955743ef8eedbe4917243ab3b2629cf6bf8552fc34fa7b889int);
    lemma_fpow_pow2_step(g, 159, p);
    assert(fpow(g, pow2(160), p) == 0x337adf33a51237ec8b8cdc851cd898462fba92942607ca3f61a96f7f0dec6fint);
}

/// The generator squared 192 times.
proof fn lemma_squarings_5()
    ensures
        fpow(group_generator(), pow2(192), group_modulus()) == 0xf66926e0ff773515a10661aa1f4d7e5cd6a000cc515a33cea96fa9c5262e50int,
{
    let p = group_modulus();
    let g = group_generator();
    lemma_squarings_4();
    lemma_fpow_pow2_step(g, 160, p);
    assert(fpow(g, pow2(161), p) == 0x3ee2ad802287c0098ab86fe4676d7f75182f7ae606809ad793a9c12a4c2c1c5int);
    lemma_fpow_pow2_step(g, 161, p);
    assert(fpow(g, pow2(162), p) == 0x469599fb9df24fc8a0982ba562bded735e5c82688b9dbd91c02c47efcf261d2int);
    lemma_fpow_pow2_step(g, 162, p);
    assert(fpow(g, pow2(163), p) == 0x2c9c581453cec0732d4e58151c7ded4d0332ed1e366fac87104fc111a768b21int);
    lemma_fpow_pow2_step(g, 163, p);
    assert(fpow(g, pow2(164), p) == 0x4f76273b6da2ec1bcb9034ea8f30b6b06249968325d78d1bbf520282842b3ccint);
    lemma_fpow_pow2_step(g, 164, p);
    assert(fpow(g, pow2(165), p) == 0x57d89818dc410a5ce0fbc1b4e77af59b0f0dc8bbea033487b2a4b010acc538bint);
    lemma_fpow_pow2_step(g, 165, p);
    assert(fpow(g, pow2(166), p) == 0x3fdbc14c23f3e2cf241fa364607d739e138c65f16369ebfb47fddc92d647f4fint);
    lemma_fpow_pow2_step(g, 166, p);
    assert(fpow(g, pow2(167), p) == 0xaf81b23f91df9f0155d2860fc4db9fd02a3d0fb8fa7f1183c0ed361175f715int);
    lemma_fpow_pow2_step(g, 167, p);
    assert(fpow(g, pow2(168), p) == 0x3f26522159055c98dc26db606fbf832516d80497496b6fa217bb7b29258011dint);
    lemma_fpow_pow2_step(g, 168, p);
    assert(fpow(g, pow2(169), p) == 0x5221a530d409bb96760c7ffc81b6cdeb1bd2acfc024a4bebce8d484d44e68ebint);
    lemma_fpow_pow2_step(g, 169, p);
    assert(fpow(g, pow2(170), p) == 0x61d41b869fd4a9100b1f5d17035020b49e1a7f374ac318b2096742d816f6ccbint);
    lemma_fpow_pow2_step(g, 170, p);
    assert(fpow(g, pow2(171), p) == 0x48e1f52cb7c2f46c417705547df47efc27a3b383de8bbcd836c47d59604cc3fint);
    lemma_fpow_pow2_step(g, 171, p);
    assert(fpow(g, pow2(172), p) == 0x581843348fa9f714dba0d3e3615f020317105e27302c137f0a499309328e71fint);
    lemma_fpow_pow2_step(g, 172, p);
    assert(fpow(g, pow2(173), p) == 0x62060a967087b5a77cbf97da625acdbe468573f420e32ca95fcc6bd09b21c75int);
    lemma_fpow_pow2_step(g, 173, p);
    assert(fpow(g, pow2(174), p) == 0x2ce1238df58a07aa4f63f4500cc746d2c651a30711176aa36cfd776ca0305e4int);
    lemma_fpow_pow2_step(g, 174, p);
    assert(fpow(g, pow2(175), p) == 0x45998c815795cab9e01d6a17fc16d19fce7c650d3e212aafd3d0dd7e1f1e659int);
    lemma_fpow_pow2_step(g, 175, p);
    assert(fpow(g, pow2(176), p) == 0x4c2173975ee249ec12dc513b4672b516c2a5dea18c6cebc03bf85df0f2eb644int);
    lemma_fpow_pow2_step(g, 176, p);
    assert(fpow(g, pow2(177), p) == 0x56c941eb2f2721fa77b49c64da7368f9cb6a3c5a7304ee7079ea9362e712c08int);
    lemma_fpow_pow2_step(g, 177, p);
    assert(fpow(g, pow2(178), p) == 0x44a45d592c539f7a1e15742bdcf147ccdc8d65f46b366fc01bc2e31c1bac8c1int);
    lemma_fpow_pow2_step(g, 178, p);
    assert(fpow(g, pow2(179), p) == 0x3f6fdccf45961996afc2bb9398f20e8d2a491c6fc6efdd749e344ea17484b76int);
    lemma_fpow_pow2_step(g, 179, p);
    assert(fpow(g, pow2(180), p) == 0x687441a2425624f4101e3541b2ddd9443d3618cb9ce32cd5609513bae49878dint);
    lemma_fpow_pow2_step(g, 180, p);
    assert(fpow(g, pow2(181), p) == 0x4556259e5bfb8efc32931f036f9e343995f2942bc08e6439cec928386c708f8int);
    lemma_fpow_pow2_step(g, 181, p);
    assert(fpow(g, pow2(182), p) == 0x2bb82fac69f30c446b6a4a0f23c53dd74163e8a59ca1c80c85cc744b513e3b8int);
    lemma_fpow_pow2_step(g, 182, p);
    assert(fpow(g, pow2(183), p) == 0x5dd553982e877c643e997fb8552ccff1779c5d00208191f5650f99f7c85355bint);
    lemma_fpow_pow2_step(g, 183, p);
    assert(fpow(g, pow2(184), p) == 0x310f4fad8393346e1322d254f7083cd2991ff6f81541884ff43e66f69363e18int);
    lemma_fpow_pow2_step(g, 184, p);
    assert(fpow(g, pow2(185), p) == 0x237999e361c3cf32b5984b7683ce2c9f9f63a48bed5eb4dd1a6d3d659d5ef45int);
    lemma_fpow_pow2_step(g, 185, p);
    assert(fpow(g, pow2(186), p) == 0x14922f631f91ac00af4ca21f2c83d43598ff7f6df18210c0ed75d7e8d854b50int);
    lemma_fpow_pow2_step(g, 186, p);
    assert(fpow(g, pow2(187), p) == 0x4e518eb171d6b0914131e234a084dd0240375d835963218db02b75ef9cd351fint);
    lemma_fpow_pow2_step(g, 187, p);
    assert(fpow(g, pow2(188), p) == 0x17acd27ab49f135af0b80de67545ca5f55cbccdd257014610dc97e41bd10f6fint);
    lemma_fpow_pow2_step(g, 188, p);
    assert(fpow(g, pow2(189), p) == 0x4bf0feacb9317049b3248c131989040f27b1200eeaef84faf1e8b0ffea39138int);
    lemma_fpow_pow2_step(g, 189, p);
    assert(fpow(g, pow2(190), p) == 0x705e9748fca7adebed44d5795438e23a4514dfe1c782ec6a289f9cf242bd81bint);
    lemma_fpow_pow2_step(g, 190, p);
    assert(fpow(g, pow2(191), p) == 0x4b3cd6c8f25e6eb7bb63636a64b1fd29e0ea8a5356392f427475b154c5d6148int);
    lemma_fpow_pow2_step(g, 191, p);
    assert(fpow(g, pow2(192), p) == 0xf66926e0ff773515a10661aa1f4d7e5cd6a000cc515a33cea96fa9c5262e50int);
}

/// The generator squared 191 times.
proof fn lemma_squarings_below_top()
    ensures
        fpow(group_generator(), pow2(191), group_modulus()) == 0x4b3cd6c8f25e6eb7bb63636a64b1fd29e0ea8a5356392f427475b154c5d6148int,
{
    let p = group_modulus();
    let g = group_generator();
    lemma_squarings_4();
    lemma_fpow_pow2_step(g, 160, p);
    assert(fpow(g, pow2(161), p) == 0x3ee2ad802287c0098ab86fe4676d7f75182f7ae606809ad793a9c12a4c2c1c5int);
    lemma_fpow_pow2_step(g, 161, p);
    assert(fpow(g, pow2(162), p) == 0x469599fb9df24fc8a0982ba562bded735e5c82688b9dbd91c02c47efcf261d2int);
    lemma_fpow_pow2_step(g, 162, p);
    assert(fpow(g, pow2(163), p) == 0x2c9c581453cec0732d4e58151c7ded4d0332ed1e366fac87104fc111a768b21int);
    lemma_fpow_pow2_step(g, 163, p);
    assert(fpow(g, pow2(164), p) == 0x4f76273b6da2ec1bcb9034ea8f30b6b06249968325d78d1bbf520282842b3ccint);
    lemma_fpow_pow2_step(g, 164, p);
    assert(fpow(g, pow2(165), p) == 0x57d89818dc410a5ce0fbc1b4e77af59b0f0dc8bbea033487b2a4b010acc538bint);
    lemma_fpow_pow2_step(g, 165, p);
    assert(fpow(g, pow2(166), p) == 0x3fdbc14c23f3e2cf241fa364607d739e138c65f16369ebfb47fddc92d647f4fint);
    lemma_fpow_pow2_step(g, 166, p);
    assert(fpow(g, pow2(167), p) == 0xaf81b23f91df9f0155d2860fc4db9fd02a3d0fb8fa7f1183c0ed361175f715int);
    lemma_fpow_pow2_step(g, 167, p);
    assert(fpow(g, pow2(168), p) == 0x3f26522159055c98dc26db606fbf832516d80497496b6fa217bb7b29258011dint);
    lemma_fpow_pow2_step(g, 168, p);
    assert(fpow(g, pow2(169), p) == 0x5221a530d409bb96760c7ffc81b6cdeb1bd2acfc024a4bebce8d484d44e68ebint);
    lemma_fpow_pow2_step(g, 169, p);
    assert(fpow(g, pow2(170), p) == 0x61d41b869fd4a9100b1f5d17035020b49e1a7f374ac318b2096742d816f6ccbint);
    lemma_fpow_pow2_step(g, 170, p);
    assert(fpow(g, pow2(171), p) == 0x48e1f52cb7c2f46c417705547df47efc27a3b383de8bbcd836c47d59604cc3fint);
    lemma_fpow_pow2_step(g, 171, p);
    assert(fpow(g, pow2(172), p) == 0x581843348fa9f714dba0d3e3615f020317105e27302c137f0a499309328e71fint);
    lemma_fpow_pow2_step(g, 172, p);
    assert(fpow(g, pow2(173), p) == 0x62060a967087b5a77cbf97da625acdbe468573f420e32ca95fcc6bd09b21c75int);
    lemma_fpow_pow2_step(g, 173, p);
    assert(fpow(g, pow2(174), p) == 0x2ce1238df58a07aa4f63f4500cc746d2c651a30711176aa36cfd776ca0305e4int);
    lemma_fpow_pow2_step(g, 174, p);
    assert(fpow(g, pow2(175), p) == 0x45998c815795cab9e01d6a17fc16d19fce7c650d3e212aafd3d0dd7e1f1e659int);
    lemma_fpow_pow2_step(g, 175, p);
    assert(fpow(g, pow2(176), p) == 0x4c2173975ee249ec12dc513b4672b516c2a5dea18c6cebc03bf85df0f2eb644int);
    lemma_fpow_pow2_step(g, 176, p);
    assert(fpow(g, pow2(177), p) == 0x56c941eb2f2721fa77b49c64da7368f9cb6a3c5a7304ee7079ea9362e712c08int);
    lemma_fpow_pow2_step(g, 177, p);
    assert(fpow(g, pow2(178), p) == 0x44a45d592c539f7a1e15742bdcf147ccdc8d65f46b366fc01bc2e31c1bac8c1int);
    lemma_fpow_pow2_step(g, 178, p);
    assert(fpow(g, pow2(179), p) == 0x3f6fdccf45961996afc2bb9398f20e8d2a491c6fc6efdd749e344ea17484b76int);
    lemma_fpow_pow2_step(g, 179, p);
    assert(fpow(g, pow2(180), p) == 0x687441a2425624f4101e3541b2ddd9443d3618cb9ce32cd5609513bae49878dint);
    lemma_fpow_pow2_step(g, 180, p);
    assert(fpow(g, pow2(181), p) == 0x4556259e5bfb8efc32931f036f9e343995f2942bc08e6439cec928386c708f8int);
    lemma_fpow_pow2_step(g, 181, p);
    assert(fpow(g, pow2(182), p) == 0x2bb82fac69f30c446b6a4a0f23c53dd74163e8a59ca1c80c85cc744b513e3b8int);
    lemma_fpow_pow2_step(g, 182, p);
    assert(fpow(g, pow2(183), p) == 0x5dd553982e877c643e997fb8552ccff1779c5d00208191f5650f99f7c85355bint);
    lemma_fpow_pow2_step(g, 183, p);
    assert(fpow(g, pow2(184), p) == 0x310f4fad8393346e1322d254f7083cd2991ff6f81541884ff43e66f69363e18int);
    lemma_fpow_pow2_step(g, 184, p);
    assert(fpow(g, pow2(185), p) == 0x237999e361c3cf32b5984b7683ce2c9f9f63a48bed5eb4dd1a6d3d659d5ef45int);
    lemma_fpow_pow2_step(g, 185, p);
    assert(fpow(g, pow2(186), p) == 0x14922f631f91ac00af4ca21f2c83d43598ff7f6df18210c0ed75d7e8d854b50int);
    lemma_fpow_pow2_step(g, 186, p);
    assert(fpow(g, pow2(187), p) == 0x4e518eb171d6b0914131e234a084dd0240375d835963218db02b75ef9cd351fint);
    lemma_fpow_pow2_step(g, 187, p);
    assert(fpow(g, pow2(188), p) == 0x17acd27ab49f135af0b80de67545ca5f55cbccdd257014610dc97e41bd10f6fint);
    lemma_fpow_pow2_step(g, 188, p);
    assert(fpow(g, pow2(189), p) == 0x4bf0feacb9317049b3248c131989040f27b1200eeaef84faf1e8b0ffea39138int);
    lemma_fpow_pow2_step(g, 189, p);
    assert(fpow(g, pow2(190), p) == 0x705e9748fca7adebed44d5795438e23a4514dfe1c782ec6a289f9cf242bd81bint);
    lemma_fpow_pow2_step(g, 190, p);
    assert(fpow(g, pow2(191), p) == 0x4b3cd6c8f25e6eb7bb63636a64b1fd29e0ea8a5356392f427475b154c5d6148int);
}

/// The power `0xf66926e0ff773515a10661aa1f4d7e5cd6a000cc515a33cea96fa9c5262e50int^0x100000000`.
proof fn lemma_power_order_0()
    ensures
        fpow(0xf66926e0ff773515a10661aa1f4d7e5cd6a000cc515a33cea96fa9c5262e50int, 0x100000000nat, group_modulus()) == 0x2fac4b055092ea1196c8335791b0b0dd485ef0ca8204fb286e6d578aaa745c1int,
{
    let p = group_modulus();
    let b = 0xf66926e0ff773515a10661aa1f4d7e5cd6a000cc515a33cea96fa9c5262e50int;
    lemma_pow1(b);
    assert(fpow(b, 1, p) == b);
    lemma_fpow_double(b, 0x1nat, p);
    assert(fpow(b, 0x2nat, p) == 0x15b3bfbbdcd77c4a3cd6187c748e17d54286b6fb5e1f617b7c2b5f03ba32e71int);
    lemma_fpow_double(b, 0x2nat, p);
    assert(fpow(b, 0x4nat, p) == 0x53714f161aa1b1438c3b38d2980fc4ebc0ddc1058d9511513b08006ffe03d3eint);
    lemma_fpow_double(b, 0x4nat, p);
    assert(fpow(b, 0x8nat, p) == 0x522ba54c3a9a27fb1fdf936002baa60836888122e97bd13d378fe9f21874b14int);
    lemma_fpow_double(b, 0x8nat, p);
    assert(fpow(b, 0x10nat, p) == 0x51f525a8ec4531a77df2f7be6213e022212f64e4dfa8b6b3f1a38e2b5f688b0int);
    lemma_fpow_double(b, 0x10nat, p);
    assert(fpow(b, 0x20nat, p) == 0x4ebba3f6c5c242e0dd6c047adc740f54a21c866c54fa4946807c3a354b0b23dint);
    lemma_fpow_double(b, 0x20nat, p);
    assert(fpow(b, 0x40nat, p) == 0x129b7748f1fd2d7343c9295ce2fa65767cd9dcf38aa112cd3101d142bd3dcaint);
    lemma_fpow_double(b, 0x40nat, p);
    assert(fpow(b, 0x80nat, p) == 0x20ae4e929a5616c6859cbe70ec7698c4e796f0150907d0208610afe845a9d6aint);
    lemma_fpow_double(b, 0x80nat, p);
    assert(fpow(b, 0x100nat, p) == 0x42b9b7f572432fe354769525664aafa56af2e240f086bd8a1f29da3f575d7d8int);
    lemma_fpow_double(b, 0x100nat, p);
    assert(fpow(b, 0x200nat, p) == 0x14df0362a51e9513fb677a099cc17a07bd1afa4ed18660433a166b20f412c8fint);
    lemma_fpow_double(b, 0x200nat, p);
    assert(fpow(b, 0x400nat, p) == 0x35604c64def4cbf4423add0ef0de70bb728b08d4d86a0b2bfa90e29dbcc7b7int);
    lemma_fpow_double(b, 0x400nat, p);
    assert(fpow(b, 0x800nat, p) == 0x38bc6aa9ab9ec33f8bd3a0a0128deb6fe748df0d3d538f87245ee2ffb7ec594int);
    lemma_fpow_double(b, 0x800nat, p);
    assert(fpow(b, 0x1000nat, p) == 0x2ddc6df34a52ae21f647a3f8981e4504857d764d34aa7755aac1eafdfa1109fint);
    lemma_fpow_double(b, 0x1000nat, p);
    assert(fpow(b, 0x2000nat, p) == 0x40b92e8f032b1e82f618f61fd978092b6082b438b2063d6b5b18e06779cb45dint);
    lemma_fpow_double(b, 0x2000nat, p);
    assert(fpow(b, 0x4000nat, p) == 0x5ea696d081e84f5183de0379a42eaa3c53a9db164487038910ade70e6521069int);
    lemma_fpow_double(b, 0x4000nat, p);
    assert(fpow(b, 0x8000nat, p) == 0x3abb0dde9195a8f4717acf2ed526c66e06e76414d1a05970bbf97092c583efcint);
    lemma_fpow_double(b, 0x8000nat, p);
    assert(fpow(b, 0x10000nat, p) == 0x1571f6b1dfff6928543debbd5cf72d865afd4560dcbf9ce20493c6206130071int);
    lemma_fpow_double(b, 0x10000nat, p);
    assert(fpow(b, 0x20000nat, p) == 0x619f67be06304327c0f1dada484bb7f5133862a3311c0979501b6bff4a32e8eint);
    lemma_fpow_double(b, 0x20000nat, p);
    assert(fpow(b, 0x40000nat, p) == 0x75a93e9b77799535d6bb9a47da0de2a86526144744c838cca3248e9fa466bbcint);
    lemma_fpow_double(b, 0x40000nat, p);
    assert(fpow(b, 0x80000nat, p) == 0x115314ed9e3275feb3e9afb93954018140dea2de63acbeb383ab1d2f66c659cint);
    lemma_fpow_double(b, 0x80000nat, p);
    assert(fpow(b, 0x100000nat, p) == 0x7c920f0a7fdf1a11f3117af42b94345dc941e4ec4d03bb8edb304554527cab0int);
    lemma_fpow_double(b, 0x100000nat, p);
    assert(fpow(b, 0x200000nat, p) == 0x3e79d54b3f65531a01207c573f106fb574b9c92df4c138256e8a3c8a88f9816int);
    lemma_fpow_double(b, 0x200000nat, p);
    assert(fpow(b, 0x400000nat, p) == 0x2a89b6cc3db4aada606cfcdc92f156e9f1fe02155a372325444a5bc2e2d7c2cint);
    lemma_fpow_double(b, 0x400000nat, p);
    assert(fpow(b, 0x800000nat, p) == 0x2e72fe7d757010cfbc39b2ba0ccfa52b20c66a3d34233375baa126c2cf083adint);
    lemma_fpow_double(b, 0x800000nat, p);
    assert(fpow(b, 0x1000000nat, p) == 0x1ebe84b8eeb5bab279b02d50db828e83015d3a825d858da5840b9f036691515int);
    lemma_fpow_double(b, 0x1000000nat, p);
    assert(fpow(b, 0x2000000nat, p) == 0x5b92199bf4ed85ff2a861e3f6a4805c83e83f8e17b00bd4cf426ab8856a99dcint);
    lemma_fpow_double(b, 0x2000000nat, p);
    assert(fpow(b, 0x4000000nat, p) == 0xb84d3b9fe642e6bf7932497d4c714ab6193c3f927db654332e10e51e14658fint);
    lemma_fpow_double(b, 0x4000000nat, p);
    assert(fpow(b, 0x8000000nat, p) == 0x21b33e1f17c175a607b326bd512648d6e011bc09dc3557c7d8e629119480dfaint);
    lemma_fpow_double(b, 0x8000000nat, p);
    assert(fpow(b, 0x10000000nat, p) == 0x34ff4c80f862a7c2786a578f3312754df7a23f4fac7b39eea343da359286e31int);
    lemma_fpow_double(b, 0x10000000nat, p);
    assert(fpow(b, 0x20000000nat, p) == 0x43054b15ccc2e01416b605bc047226291dc5a1e930448a039bc61e23b2eaa83int);
    lemma_fpow_double(b, 0x20000000nat, p);
    assert(fpow(b, 0x40000000nat, p) == 0xba0da0a70d116e3983067cf4a84ccb5a62dd3ecf03b91832259000ac5b13e6int);
    lemma_fpow_double(b, 0x40000000nat, p);
    assert(fpow(b, 0x80000000nat, p) == 0x7c159948af60623b479527ff74db0649a519c206a19c4cff4ba5ce856b07326int);
    lemma_fpow_double(b, 0x80000000nat, p);
    assert(fpow(b, 0x100000000nat, p) == 0x2fac4b055092ea1196c8335791b0b0dd485ef0ca8204fb286e6d578aaa745c1int);
}

/// The power `0xf66926e0ff773515a10661aa1f4d7e5cd6a000cc515a33cea96fa9c5262e50int^0x800000000000011`.
proof fn lemma_power_order_1()
    ensures
        fpow(0xf66926e0ff773515a10661aa1f4d7e5cd6a000cc515a33cea96fa9c5262e50int, 0x800000000000011nat, group_modulus()) == 0x1int,
{
    let p = group_modulus();
    let b = 0xf66926e0ff773515a10661aa1f4d7e5cd6a000cc515a33cea96fa9c5262e50int;
    lemma_power_order_0();
    lemma_fpow_double(b, 0x100000000nat, p);
    assert(fpow(b, 0x200000000nat, p) == 0x363af76cf7e762c80c715cfb1f5ca8ab079097f3de17d6efe06293363876949int);
    lemma_fpow_double(b, 0x200000000nat, p);
    assert(fpow(b, 0x400000000nat, p) == 0x14e35e1d8eea78f3d2eca0adc6044553b454409d80c206f04c58e414889551int);
    lemma_fpow_double(b, 0x400000000nat, p);
    assert(fpow(b, 0x800000000nat, p) == 0x3442731de30245a054015354f6ef36969ac4150d74d461b3bc51b7b4c6df248int);
    lemma_fpow_double(b, 0x800000000nat, p);
    assert(fpow(b, 0x1000000000nat, p) == 0x5ab0e69b1400ee7aee7be6f961c365fba44bc477fc0ac0d7a36571a5a02613cint);
    lemma_fpow_double(b, 0x1000000000nat, p);
    assert(fpow(b, 0x2000000000nat, p) == 0x27daeb92d20552ba7d0690365c7454562b73dc092557e1071aa6ee901284bd8int);
    lemma_fpow_double(b, 0x2000000000nat, p);
    assert(fpow(b, 0x4000000000nat, p) == 0x44f45ced735c660a66a2f8a5365fc2ee1aad3b8b1ddc14228cfb73c3d619f62int);
    lemma_fpow_double(b, 0x4000000000nat, p);
    assert(fpow(b, 0x8000000000nat, p) == 0x344c4732a9f13a4d111d1733d7b37161283f0e86c6a443e47d1ec1c56267c97int);
    lemma_fpow_double(b, 0x8000000000nat, p);
    assert(fpow(b, 0x10000000000nat, p) == 0x456da2ccd4246e114f1ef36812bda3126c01ebbf218828d85117b5211eaaffdint);
    lemma_fpow_double(b, 0x10000000000nat, p);
    assert(fpow(b, 0x20000000000nat, p) == 0x73f1f1c431b3a082d44cd6ee4c047169694d7952dac505353d54e66321f6081int);
    lemma_fpow_double(b, 0x20000000000nat, p);
    assert(fpow(b, 0x40000000000nat, p) == 0x5139377f3dbbe7826a3cf26a66c7eaac7922b5e63c40b6d7a66eca2eb7bf472int);
    lemma_fpow_double(b, 0x40000000000nat, p);
    assert(fpow(b, 0x80000000000nat, p) == 0x2e88b6215c1b6d55a8536a0e2b19af55c5c91cd4524dd3ac19c6a4eaf7f6604int);
    lemma_fpow_double(b, 0x80000000000nat, p);
    assert(fpow(b, 0x100000000000nat, p) == 0x65f948590016fdbd6e90840cf470b7823bbf9482c56f165f1af3bf75de3fae8int);
    lemma_fpow_double(b, 0x100000000000nat, p);
    assert(fpow(b, 0x200000000000nat, p) == 0x74b833a85ac704649809583ca146683854cc0b9cfc1fd8565ddd6ee856a759cint);
    lemma_fpow_double(b, 0x200000000000nat, p);
    assert(fpow(b, 0x400000000000nat, p) == 0x153079b5b6a7712c3971d1e8f25929c05972546d6364f97e8802a2f34d1a257int);
    lemma_fpow_double(b, 0x400000000000nat, p);
    assert(fpow(b, 0x800000000000nat, p) == 0x3c5a124df43133f064279ce95db93b64de480374d7bbefa76bce180112a8828int);
    lemma_fpow_double(b, 0x800000000000nat, p);
    assert(fpow(b, 0x1000000000000nat, p) == 0x2ea5e37cf65112db35c91395a15ee05f1c7d55a1597bbeba6359ed9b4348641int);
    lemma_fpow_double(b, 0x1000000000000nat, p);
    assert(fpow(b, 0x2000000000000nat, p) == 0x635ce5b37bb574db37eed04be425431a976552326835e7e381f1f8bfbe952daint);
    lemma_fpow_double(b, 0x2000000000000nat, p);
    assert(fpow(b, 0x4000000000000nat, p) == 0x5c2a12750da4f0a42455f38cff420f14c0994ede53192c7b676ac84b42d10dcint);
    lemma_fpow_double(b, 0x4000000000000nat, p);
    assert(fpow(b, 0x8000000000000nat, p) == 0x519d44600367a89fbb0f32ed4450f8157d33fc133b23962b2e0b1890bfdb59cint);
    lemma_fpow_double(b, 0x8000000000000nat, p);
    assert(fpow(b, 0x10000000000000nat, p) == 0x18dff3c91913e6bbb7a14b5ba124f10cd09bb32381abd5c6618ca97cf51165fint);
    lemma_fpow_double(b, 0x10000000000000nat, p);
    assert(fpow(b, 0x20000000000000nat, p) == 0x69606a6806b6ddda40cbef87af6bced0adf400483a0b6c070896751e03b5613int);
    lemma_fpow_double(b, 0x20000000000000nat, p);
    assert(fpow(b, 0x40000000000000nat, p) == 0x74f0504fa70b5765d483748f34b2233c420777016207cec711ffd98f41bc441int);
    lemma_fpow_double(b, 0x40000000000000nat, p);
    assert(fpow(b, 0x80000000000000nat, p) == 0x7f338ea1fa54df784a5d12875e51a654d81dcbbdade535b583bbec044c7af9int);
    lemma_fpow_step(b, 0x80000000000000nat, p);
    assert(fpow(b, 0x80000000000001nat, p) == 0x25a5e99bc8b7ec4b171290032cafa839489181411e66f6406df0e6d011363feint);
    lemma_fpow_double(b, 0x80000000000001nat, p);
    assert(fpow(b, 0x100000000000002nat, p) == 0x5b7f53a2b815eeb2417ef1d55efb41651f3d2197cd8cccfdff588b71eb0fa77int);
    lemma_fpow_double(b, 0x100000000000002nat, p);
    assert(fpow(b, 0x200000000000004nat, p) == 0x49bc528abfd78d6bc38960a35cad9f913bf68f16ac04d939f97a8e143780b8bint);
    lemma_fpow_double(b, 0x200000000000004nat, p);
    assert(fpow(b, 0x400000000000008nat, p) == 0x75c92764887530c276f7e10c3395c926f38c2b0ed6b9bead16927304cf48876int);
    lemma_fpow_double(b, 0x400000000000008nat, p);
    assert(fpow(b, 0x800000000000010nat, p) == 0x99888d5870277be09b75bf03945fd9d9bef97f79ffe50b5c646aa1ea4d2440int);
    lemma_fpow_step(b, 0x800000000000010nat, p);
    assert(fpow(b, 0x800000000000011nat, p) == 0x1int);
}

/// The power `0x4b3cd6c8f25e6eb7bb63636a64b1fd29e0ea8a5356392f427475b154c5d6148int^0x100000000`.
proof fn lemma_power_half_0()
    ensures
        fpow(0x4b3cd6c8f25e6eb7bb63636a64b1fd29e0ea8a5356392f427475b154c5d6148int, 0x100000000nat, group_modulus()) == 0x7c159948af60623b479527ff74db0649a519c206a19c4cff4ba5ce856b07326int,
{
    let p = group_modulus();
    let b = 0x4b3cd6c8f25e6eb7bb63636a64b1fd29e0ea8a5356392f427475b154c5d6148int;
    lemma_pow1(b);
    assert(fpow(b, 1, p) == b);
    lemma_fpow_double(b, 0x1nat, p);
    assert(fpow(b, 0x2nat, p) == 0xf66926e0ff773515a10661aa1f4d7e5cd6a000cc515a33cea96fa9c5262e50int);
    lemma_fpow_double(b, 0x2nat, p);
    assert(fpow(b, 0x4nat, p) == 0x15b3bfbbdcd77c4a3cd6187c748e17d54286b6fb5e1f617b7c2b5f03ba32e71int);
    lemma_fpow_double(b, 0x4nat, p);
    assert(fpow(b, 0x8nat, p) == 0x53714f161aa1b1438c3b38d2980fc4ebc0ddc1058d9511513b08006ffe03d3eint);
    lemma_fpow_double(b, 0x8nat, p);
    assert(fpow(b, 0x10nat, p) == 0x522ba54c3a9a27fb1fdf936002baa60836888122e97bd13d378fe9f21874b14int);
    lemma_fpow_double(b, 0x10nat, p);
    assert(fpow(b, 0x20nat, p) == 0x51f525a8ec4531a77df2f7be6213e022212f64e4dfa8b6b3f1a38e2b5f688b0int);
    lemma_fpow_double(b, 0x20nat, p);
    assert(fpow(b, 0x40nat, p) == 0x4ebba3f6c5c242e0dd6c047adc740f54a21c866c54fa4946807c3a354b0b23dint);
    lemma_fpow_double(b, 0x40nat, p);
    assert(fpow(b, 0x80nat, p) == 0x129b7748f1fd2d7343c9295ce2fa65767cd9dcf38aa112cd3101d142bd3dcaint);
    lemma_fpow_double(b, 0x80nat, p);
    assert(fpow(b, 0x100nat, p) == 0x20ae4e929a5616c6859cbe70ec7698c4e796f0150907d0208610afe845a9d6aint);
    lemma_fpow_double(b, 0x100nat, p);
    assert(fpow(b, 0x200nat, p) == 0x42b9b7f572432fe354769525664aafa56af2e240f086bd8a1f29da3f575d7d8int);
    lemma_fpow_double(b, 0x200nat, p);
    assert(fpow(b, 0x400nat, p) == 0x14df0362a51e9513fb677a099cc17a07bd1afa4ed18660433a166b20f412c8fint);
    lemma_fpow_double(b, 0x400nat, p);
    assert(fpow(b, 0x800nat, p) == 0x35604c64def4cbf4423add0ef0de70bb728b08d4d86a0b2bfa90e29dbcc7b7int);
    lemma_fpow_double(b, 0x800nat, p);
    assert(fpow(b, 0x1000nat, p) == 0x38bc6aa9ab9ec33f8bd3a0a0128deb6fe748df0d3d538f87245ee2ffb7ec594int);
    lemma_fpow_double(b, 0x1000nat, p);
    assert(fpow(b, 0x2000nat, p) == 0x2ddc6df34a52ae21f647a3f8981e4504857d764d34aa7755aac1eafdfa1109fint);
    lemma_fpow_double(b, 0x2000nat, p);
    assert(fpow(b, 0x4000nat, p) == 0x40b92e8f032b1e82f618f61fd978092b6082b438b2063d6b5b18e06779cb45dint);
    lemma_fpow_double(b, 0x4000nat, p);
    assert(fpow(b, 0x8000nat, p) == 0x5ea696d081e84f5183de0379a42eaa3c53a9db164487038910ade70e6521069int);
    lemma_fpow_double(b, 0x8000nat, p);
    assert(fpow(b, 0x10000nat, p) == 0x3abb0dde9195a8f4717acf2ed526c66e06e76414d1a05970bbf97092c583efcint);
    lemma_fpow_double(b, 0x10000nat, p);
    assert(fpow(b, 0x20000nat, p) == 0x1571f6b1dfff6928543debbd5cf72d865afd4560dcbf9ce20493c6206130071int);
    lemma_fpow_double(b, 0x20000nat, p);
    assert(fpow(b, 0x40000nat, p) == 0x619f67be06304327c0f1dada484bb7f5133862a3311c0979501b6bff4a32e8eint);
    lemma_fpow_double(b, 0x40000nat, p);
    assert(fpow(b, 0x80000nat, p) == 0x75a93e9b77799535d6bb9a47da0de2a86526144744c838cca3248e9fa466bbcint);
    lemma_fpow_double(b, 0x80000nat, p);
    assert(fpow(b, 0x100000nat, p) == 0x115314ed9e3275feb3e9afb93954018140dea2de63acbeb383ab1d2f66c659cint);
    lemma_fpow_double(b, 0x100000nat, p);
    assert(fpow(b, 0x200000nat, p) == 0x7c920f0a7fdf1a11f3117af42b94345dc941e4ec4d03bb8edb304554527cab0int);
    lemma_fpow_double(b, 0x200000nat, p);
    assert(fpow(b, 0x400000nat, p) == 0x3e79d54b3f65531a01207c573f106fb574b9c92df4c138256e8a3c8a88f9816int);
    lemma_fpow_double(b, 0x400000nat, p);
    assert(fpow(b, 0x800000nat, p) == 0x2a89b6cc3db4aada606cfcdc92f156e9f1fe02155a372325444a5bc2e2d7c2cint);
    lemma_fpow_double(b, 0x800000nat, p);
    assert(fpow(b, 0x1000000nat, p) == 0x2e72fe7d757010cfbc39b2ba0ccfa52b20c66a3d34233375baa126c2cf083adint);
    lemma_fpow_double(b, 0x1000000nat, p);
    assert(fpow(b, 0x2000000nat, p) == 0x1ebe84b8eeb5bab279b02d50db828e83015d3a825d858da5840b9f036691515int);
    lemma_fpow_double(b, 0x2000000nat, p);
    assert(fpow(b, 0x4000000nat, p) == 0x5b92199bf4ed85ff2a861e3f6a4805c83e83f8e17b00bd4cf426ab8856a99dcint);
    lemma_fpow_double(b, 0x4000000nat, p);
    assert(fpow(b, 0x8000000nat, p) == 0xb84d3b9fe642e6bf7932497d4c714ab6193c3f927db654332e10e51e14658fint);
    lemma_fpow_double(b, 0x8000000nat, p);
    assert(fpow(b, 0x10000000nat, p) == 0x21b33e1f17c175a607b326bd512648d6e011bc09dc3557c7d8e629119480dfaint);
    lemma_fpow_double(b, 0x10000000nat, p);
    assert(fpow(b, 0x20000000nat, p) == 0x34ff4c80f862a7c2786a578f3312754df7a23f4fac7b39eea343da359286e31int);
    lemma_fpow_double(b, 0x20000000nat, p);
    assert(fpow(b, 0x40000000nat, p) == 0x43054b15ccc2e01416b605bc047226291dc5a1e930448a039bc61e23b2eaa83int);
    lemma_fpow_double(b, 0x40000000nat, p);
    assert(fpow(b, 0x80000000nat, p) == 0xba0da0a70d116e3983067cf4a84ccb5a62dd3ecf03b91832259000ac5b13e6int);
    lemma_fpow_double(b, 0x80000000nat, p);
    assert(fpow(b, 0x100000000nat, p) == 0x7c159948af60623b479527ff74db0649a519c206a19c4cff4ba5ce856b07326int);
}

/// The power `0x4b3cd6c8f25e6eb7bb63636a64b1fd29e0ea8a5356392f427475b154c5d6148int^0x800000000000011`.
proof fn lemma_power_half_1()
    ensures
        fpow(0x4b3cd6c8f25e6eb7bb63636a64b1fd29e0ea8a5356392f427475b154c5d6148int, 0x800000000000011nat, group_modulus()) == 0x800000000000011000000000000000000000000000000000000000000000000int,
{
    let p = group_modulus();
    let b = 0x4b3cd6c8f25e6eb7bb63636a64b1fd29e0ea8a5356392f427475b154c5d6148int;
    lemma_power_half_0();
    lemma_fpow_double(b, 0x100000000nat, p);
    assert(fpow(b, 0x200000000nat, p) == 0x2fac4b055092ea1196c8335791b0b0dd485ef0ca8204fb286e6d578aaa745c1int);
    lemma_fpow_double(b, 0x200000000nat, p);
    assert(fpow(b, 0x400000000nat, p) == 0x363af76cf7e762c80c715cfb1f5ca8ab079097f3de17d6efe06293363876949int);
    lemma_fpow_double(b, 0x400000000nat, p);
    assert(fpow(b, 0x800000000nat, p) == 0x14e35e1d8eea78f3d2eca0adc6044553b454409d80c206f04c58e414889551int);
    lemma_fpow_double(b, 0x800000000nat, p);
    assert(fpow(b, 0x1000000000nat, p) == 0x3442731de30245a054015354f6ef36969ac4150d74d461b3bc51b7b4c6df248int);
    lemma_fpow_double(b, 0x1000000000nat, p);
    assert(fpow(b, 0x2000000000nat, p) == 0x5ab0e69b1400ee7aee7be6f961c365fba44bc477fc0ac0d7a36571a5a02613cint);
    lemma_fpow_double(b, 0x2000000000nat, p);
    assert(fpow(b, 0x4000000000nat, p) == 0x27daeb92d20552ba7d0690365c7454562b73dc092557e1071aa6ee901284bd8int);
    lemma_fpow_double(b, 0x4000000000nat, p);
    assert(fpow(b, 0x8000000000nat, p) == 0x44f45ced735c660a66a2f8a5365fc2ee1aad3b8b1ddc14228cfb73c3d619f62int);
    lemma_fpow_double(b, 0x8000000000nat, p);
    assert(fpow(b, 0x10000000000nat, p) == 0x344c4732a9f13a4d111d1733d7b37161283f0e86c6a443e47d1ec1c56267c97int);
    lemma_fpow_double(b, 0x10000000000nat, p);
    assert(fpow(b, 0x20000000000nat, p) == 0x456da2ccd4246e114f1ef36812bda3126c01ebbf218828d85117b5211eaaffdint);
    lemma_fpow_double(b, 0x20000000000nat, p);
    assert(fpow(b, 0x40000000000nat, p) == 0x73f1f1c431b3a082d44cd6ee4c047169694d7952dac505353d54e66321f6081int);
    lemma_fpow_double(b, 0x40000000000nat, p);
    assert(fpow(b, 0x80000000000nat, p) == 0x5139377f3dbbe7826a3cf26a66c7eaac7922b5e63c40b6d7a66eca2eb7bf472int);
    lemma_fpow_double(b, 0x80000000000nat, p);
    assert(fpow(b, 0x100000000000nat, p) == 0x2e88b6215c1b6d55a8536a0e2b19af55c5c91cd4524dd3ac19c6a4eaf7f6604int);
    lemma_fpow_double(b, 0x100000000000nat, p);
    assert(fpow(b, 0x200000000000nat, p) == 0x65f948590016fdbd6e90840cf470b7823bbf9482c56f165f1af3bf75de3fae8int);
    lemma_fpow_double(b, 0x200000000000nat, p);
    assert(fpow(b, 0x400000000000nat, p) == 0x74b833a85ac704649809583ca146683854cc0b9cfc1fd8565ddd6ee856a759cint);
    lemma_fpow_double(b, 0x400000000000nat, p);
    assert(fpow(b, 0x800000000000nat, p) == 0x153079b5b6a7712c3971d1e8f25929c05972546d6364f97e8802a2f34d1a257int);
    lemma_fpow_double(b, 0x800000000000nat, p);
    assert(fpow(b, 0x1000000000000nat, p) == 0x3c5a124df43133f064279ce95db93b64de480374d7bbefa76bce180112a8828int);
    lemma_fpow_double(b, 0x1000000000000nat, p);
    assert(fpow(b, 0x2000000000000nat, p) == 0x2ea5e37cf65112db35c91395a15ee05f1c7d55a1597bbeba6359ed9b4348641int);
    lemma_fpow_double(b, 0x2000000000000nat, p);
    assert(fpow(b, 0x4000000000000nat, p) == 0x635ce5b37bb574db37eed04be425431a976552326835e7e381f1f8bfbe952daint);
    lemma_fpow_double(b, 0x4000000000000nat, p);
    assert(fpow(b, 0x8000000000000nat, p) == 0x5c2a12750da4f0a42455f38cff420f14c0994ede53192c7b676ac84b42d10dcint);
    lemma_fpow_double(b, 0x8000000000000nat, p);
    assert(fpow(b, 0x10000000000000nat, p) == 0x519d44600367a89fbb0f32ed4450f8157d33fc133b23962b2e0b1890bfdb59cint);
    lemma_fpow_double(b, 0x10000000000000nat, p);
    assert(fpow(b, 0x20000000000000nat, p) == 0x18dff3c91913e6bbb7a14b5ba124f10cd09bb32381abd5c6618ca97cf51165fint);
    lemma_fpow_double(b, 0x20000000000000nat, p);
    assert(fpow(b, 0x40000000000000nat, p) == 0x69606a6806b6ddda40cbef87af6bced0adf400483a0b6c070896751e03b5613int);
    lemma_fpow_double(b, 0x40000000000000nat, p);
    assert(fpow(b, 0x80000000000000nat, p) == 0x74f0504fa70b5765d483748f34b2233c420777016207cec711ffd98f41bc441int);
    lemma_fpow_step(b, 0x80000000000000nat, p);
    assert(fpow(b, 0x80000000000001nat, p) == 0xd4a79bb5a4fadc48fa7e5545cfc3677fadb17db625af1f9bfac516612d894fint);
    lemma_fpow_double(b, 0x80000000000001nat, p);
    assert(fpow(b, 0x100000000000002nat, p) == 0x25a5e99bc8b7ec4b171290032cafa839489181411e66f6406df0e6d011363feint);
    lemma_fpow_double(b, 0x100000000000002nat, p);
    assert(fpow(b, 0x200000000000004nat, p) == 0x5b7f53a2b815eeb2417ef1d55efb41651f3d2197cd8cccfdff588b71eb0fa77int);
    lemma_fpow_double(b, 0x200000000000004nat, p);
    assert(fpow(b, 0x400000000000008nat, p) == 0x49bc528abfd78d6bc38960a35cad9f913bf68f16ac04d939f97a8e143780b8bint);
    lemma_fpow_double(b, 0x400000000000008nat, p);
    assert(fpow(b, 0x800000000000010nat, p) == 0x75c92764887530c276f7e10c3395c926f38c2b0ed6b9bead16927304cf48876int);
    lemma_fpow_step(b, 0x800000000000010nat, p);
    assert(fpow(b, 0x800000000000011nat, p) == 0x800000000000011000000000000000000000000000000000000000000000000int);
}

/// The power `0xf66926e0ff773515a10661aa1f4d7e5cd6a000cc515a33cea96fa9c5262e50int^0x333333`.
proof fn lemma_power_over_5_0()
    ensures
        fpow(0xf66926e0ff773515a10661aa1f4d7e5cd6a000cc515a33cea96fa9c5262e50int, 0x333333nat, group_modulus()) == 0x7d72ab9e9c7568b4dbd77f9c1fac590a9021b91d972f28e62e303d5eb94ad8fint,
{
    let p = group_modulus();
    let b = 0xf66926e0ff773515a10661aa1f4d7e5cd6a000cc515a33cea96fa9c5262e50int;
    lemma_pow1(b);
    assert(fpow(b, 1, p) == b);
    lemma_fpow_double(b, 0x1nat, p);
    assert(fpow(b, 0x2nat, p) == 0x15b3bfbbdcd77c4a3cd6187c748e17d54286b6fb5e1f617b7c2b5f03ba32e71int);
    lemma_fpow_step(b, 0x2nat, p);
    assert(fpow(b, 0x3nat, p) == 0x116e53af5aca0bb28ac06877c78703e39976f6136ff9657fdec4018fa6af08dint);
    lemma_fpow_double(b, 0x3nat, p);
    assert(fpow(b, 0x6nat, p) == 0x49b1802f419ddc1268a430ac17738c9f95560be9bffab2eea9d87f670765518int);
    lemma_fpow_double(b, 0x6nat, p);
    assert(fpow(b, 0xcnat, p) == 0x1da91458dd51afab37f64a07bce84c4418954e4bea68d260453992787cb16d8int);
    lemma_fpow_double(b, 0xcnat, p);
    assert(fpow(b, 0x18nat, p) == 0x200b528c55d16dba13802f37fc12a33c6f5caeac32e24a29f963fea923bf745int);
    lemma_fpow_step(b, 0x18nat, p);
    assert(fpow(b, 0x19nat, p) == 0x27ef397a0d33d64da2f4eaad82c65a7f62dae6f79ed7ae81b413d017d9c7b85int);
    lemma_fpow_double(b, 0x19nat, p);
    assert(fpow(b, 0x32nat, p) == 0x426bf19d6b8ffea5f54161abc0513b3c7b3e5a46938a174b3b2204787fb7a33int);
    lemma_fpow_step(b, 0x32nat, p);
    assert(fpow(b, 0x33nat, p) == 0x3eb5de7db03472484f85951a45e0090a2423b818ec8406d5aad72e5b41b80bfint);
    lemma_fpow_double(b, 0x33nat, p);
    assert(fpow(b, 0x66nat, p) == 0x1af7853944cec89c806c32d3ace682b83f80bf45956ac02f784807694487feaint);
    lemma_fpow_double(b, 0x66nat, p);
    assert(fpow(b, 0xccnat, p) == 0xd03fd8378fc3c0bc441155e58cae4404446c12d4e4561a80840d70bcb5ab59int);
    lemma_fpow_double(b, 0xccnat, p);
    assert(fpow(b, 0x198nat, p) == 0xe69ef77aab90e02063eb4739e9e54b3675cc6e0ad2d59e960672c42b9f7927int);
    lemma_fpow_step(b, 0x198nat, p);
    assert(fpow(b, 0x199nat, p) == 0xb1dde12ebe6a40ce7aeba8c715a0e5a37a158e4dd2f849325796d9ade285adint);
    lemma_fpow_double(b, 0x199nat, p);
    assert(fpow(b, 0x332nat, p) == 0x2629d350f1157c525ed3f081da8d133a7527d12563099a31bcd2f6fc1868547int);
    lemma_fpow_step(b, 0x332nat, p);
    assert(fpow(b, 0x333nat, p) == 0x4d0bd105e9cc26e18c53012758a40aa2856545a827a04710e46392ceec26c17int);
    lemma_fpow_double(b, 0x333nat, p);
    assert(fpow(b, 0x666nat, p) == 0x7c6cd03d5f6ce98519efd4d49ec132e0ffca0f5b93a25571c9f3852c836c63fint);
    lemma_fpow_double(b, 0x666nat, p);
    assert(fpow(b, 0xcccnat, p) == 0x1d0f3b7444f370617cd8c17e9d6033279519c1817154c2b5acdae2fedb488afint);
    lemma_fpow_double(b, 0xcccnat, p);
    assert(fpow(b, 0x1998nat, p) == 0x7184e8ddb38b334211d9700e4285a28d511caf4c86cf187b451bda4c5b1c072int);
    lemma_fpow_step(b, 0x1998nat, p);
    assert(fpow(b, 0x1999nat, p) == 0x5d8e19404e41ab47501e6c92c29d44943fe7860f52d3530bb9f6eee9e3cdf48int);
    lemma_fpow_double(b, 0x1999nat, p);
    assert(fpow(b, 0x3332nat, p) == 0x74d82234d962bf3e14b6cd71acf93f7cc4d55b53b38d6e45161667e5d3db9c8int);
    lemma_fpow_step(b, 0x3332nat, p);
    assert(fpow(b, 0x3333nat, p) == 0x7a2cbfa7068a6c585987f7e7d34ce3c65e45cb095280322f6938b6aec29063cint);
    lemma_fpow_double(b, 0x3333nat, p);
    assert(fpow(b, 0x6666nat, p) == 0x6a9e7115121377a2c11966e88063d72cff2ac549f6c40c1e61ba4758c04eb31int);
    lemma_fpow_double(b, 0x6666nat, p);
    assert(fpow(b, 0xccccnat, p) == 0x3c201118168791db595e26cd66c611be3abd6e2a947242d20d4a00d5d574c45int);
    lemma_fpow_double(b, 0xccccnat, p);
    assert(fpow(b, 0x19998nat, p) == 0x29bd5aad55f73895e352bc1244a6e23f96b2ee5508d6c7beee6c940b449c428int);
    lemma_fpow_step(b, 0x19998nat, p);
    assert(fpow(b, 0x19999nat, p) == 0x1195b2d816cf1da00fa01c6c5048f3102ad588636b8012f1884effac22af5int);
    lemma_fpow_double(b, 0x19999nat, p);
    assert(fpow(b, 0x33332nat, p) == 0x2c5b0b3157eb3b714483ef31657a18016ef3c142096246464ab2abbdd6fe711int);
    lemma_fpow_step(b, 0x33332nat, p);
    assert(fpow(b, 0x33333nat, p) == 0x3362a4fbfde756a23d4e4a7084ba1c5b0b7f16eefe4e902976e3f0f207d5afcint);
    lemma_fpow_double(b, 0x33333nat, p);
    assert(fpow(b, 0x66666nat, p) == 0x3bcafa290afc11c768455b0b36449bf607dc5ea8981562444416a8966912876int);
    lemma_fpow_double(b, 0x66666nat, p);
    assert(fpow(b, 0xcccccnat, p) == 0x3a4c08324505de65e5bec036b5bce478ac3ca5ed1a58cd1b64d21e0a85fdfb3int);
    lemma_fpow_double(b, 0xcccccnat, p);
    assert(fpow(b, 0x199998nat, p) == 0x1ecf5c0728685f42e0e27b1b77fb7c6c65abdbb2b39f826a1571e58010f5d41int);
    lemma_fpow_step(b, 0x199998nat, p);
    assert(fpow(b, 0x199999nat, p) == 0x482943792a4241b5fd352da714d3ebc8616c312e93967a12d297c1fb4de87eaint);
    lemma_fpow_double(b, 0x199999nat, p);
    assert(fpow(b, 0x333332nat, p) == 0x782021cdc705af68bd5fb3d91061de3efa36b9d306eef6124510c356af46cbbint);
    lemma_fpow_step(b, 0x333332nat, p);
    assert(fpow(b, 0x333333nat, p) == 0x7d72ab9e9c7568b4dbd77f9c1fac590a9021b91d972f28e62e303d5eb94ad8fint);
}

/// The power `0xf66926e0ff773515a10661aa1f4d7e5cd6a000cc515a33cea96fa9c5262e50int^0xccccccccccc`.
proof fn lemma_power_over_5_1()
    ensures
        fpow(0xf66926e0ff773515a10661aa1f4d7e5cd6a000cc515a33cea96fa9c5262e50int, 0xcccccccccccnat, group_modulus()) == 0x5978b78368a2e731ff50d1b5bdd7f5c4fb0ed1b32b9bef689db48dbf07a8391int,
{
    let p = group_modulus();
    let b = 0xf66926e0ff773515a10661aa1f4d7e5cd6a000cc515a33cea96fa9c5262e50int;
    lemma_power_over_5_0();
    lemma_fpow_double(b, 0x333333nat, p);
    assert(fpow(b, 0x666666nat, p) == 0x281d5194de3bed65bd4bf5be1fd0b775343f829ae00fb1ac2343fb459c1e539int);
    lemma_fpow_double(b, 0x666666nat, p);
    assert(fpow(b, 0xccccccnat, p) == 0x442f815b6dd5ba6f23d5b3770d497c9c4d22e893876e95bc8c12698616e3764int);
    lemma_fpow_double(b, 0xccccccnat, p);
    assert(fpow(b, 0x1999998nat, p) == 0x56be418132125b6b60dca5d2193919606ea6a83e26d31188d6b519a0a3ff32aint);
    lemma_fpow_step(b, 0x1999998nat, p);
    assert(fpow(b, 0x1999999nat, p) == 0x32e9f242c65c71ce4b12ade7649cd4b5744d3a35a4c6f49d027e67f9618cf4dint);
    lemma_fpow_double(b, 0x1999999nat, p);
    assert(fpow(b, 0x3333332nat, p) == 0x591fabc004a0cb4a42a9dbfc528bd5cb7b6cb267791e0d3a1fbfd71d28b59acint);
    lemma_fpow_step(b, 0x3333332nat, p);
    assert(fpow(b, 0x3333333nat, p) == 0x287b269f1e4518b8ca3c46eb33611d46143aabbf387344e59220da5799e2f11int);
    lemma_fpow_double(b, 0x3333333nat, p);
    assert(fpow(b, 0x6666666nat, p) == 0x57d715c702e1ca7f410880bf081fe742e694d05e8490e9c15420bcd356fc595int);
    lemma_fpow_double(b, 0x6666666nat, p);
    assert(fpow(b, 0xcccccccnat, p) == 0x76bcf02d2c76639994818bd5bec53436535b9169eae4ddb46a8327be8c191a1int);
    lemma_fpow_double(b, 0xcccccccnat, p);
    assert(fpow(b, 0x19999998nat, p) == 0x35109f842961caeb66f926e984337e31263987461249a15a74cd1b0ad4aa266int);
    lemma_fpow_step(b, 0x19999998nat, p);
    assert(fpow(b, 0x19999999nat, p) == 0x78955f1907efbbf332c648d655d49d7a7faad550b9e84bdde34c99135e8caf3int);
    lemma_fpow_double(b, 0x19999999nat, p);
    assert(fpow(b, 0x33333332nat, p) == 0x2c811cf1254b548d60378999ddb3007bfbb04256389c896389607b789b83eeaint);
    lemma_fpow_step(b, 0x33333332nat, p);
    assert(fpow(b, 0x33333333nat, p) == 0x12dffae475b8f9ee275c5c979426dce45740b5e2ffdfde485f54e2912706cefint);
    lemma_fpow_double(b, 0x33333333nat, p);
    assert(fpow(b, 0x66666666nat, p) == 0x8e26029a126c69e49f77f2696fd6bd0987686e15c723d4c9995564538926b8int);
    lemma_fpow_double(b, 0x66666666nat, p);
    assert(fpow(b, 0xccccccccnat, p) == 0x6a3741904b12042b09be415ed5904e47fdba46b1c8654b3c05a5165690489beint);
    lemma_fpow_double(b, 0xccccccccnat, p);
    assert(fpow(b, 0x199999998nat, p) == 0xe6943a0ba8554a79ce26402f77c3e8f665cf142549e4e936b2ab0b784d8218int);
    lemma_fpow_step(b, 0x199999998nat, p);
    assert(fpow(b, 0x199999999nat, p) == 0x6f9d899f838968529bd09b85cd45c286e2fd7eeac383aaa0f24af7c1d709a2dint);
    lemma_fpow_double(b, 0x199999999nat, p);
    assert(fpow(b, 0x333333332nat, p) == 0x466742a7845dff912bb80baed0869af97a4fce1ebb77a66b12d6017347eae51int);
    lemma_fpow_step(b, 0x333333332nat, p);
    assert(fpow(b, 0x333333333nat, p) == 0x6a8ff3994b9c40b4ab5be0f31e0a3ba400a63d8c5c1c85c1af5de91ed4c8366int);
    lemma_fpow_double(b, 0x333333333nat, p);
    assert(fpow(b, 0x666666666nat, p) == 0x28adf7dbb531c2bf8ae7efb1141f2f1f2c9fa9174c4f0fccdc29aab0b8e71d6int);
    lemma_fpow_double(b, 0x666666666nat, p);
    assert(fpow(b, 0xcccccccccnat, p) == 0x248c7ed7dd0ddf5c0ab091d8c9e25c68f838aa88dede617acfa60f6aa056f01int);
    lemma_fpow_double(b, 0xcccccccccnat, p);
    assert(fpow(b, 0x1999999998nat, p) == 0x11b6228a53a678be8fab8103ad48b530a09e340b47d8b5aef304c6e946f67a6int);
    lemma_fpow_step(b, 0x1999999998nat, p);
    assert(fpow(b, 0x1999999999nat, p) == 0x3b8a641bc77de8de9fd89484415dc537242a286288acf642b76d66693f663f1int);
    lemma_fpow_double(b, 0x1999999999nat, p);
    assert(fpow(b, 0x3333333332nat, p) == 0x1525a6501cf166bcbb184a91d3cc4ed1a961d0c96f92240e15e70a2cb0af9caint);
    lemma_fpow_step(b, 0x3333333332nat, p);
    assert(fpow(b, 0x3333333333nat, p) == 0x32b187ae3ab4212b02834b168c403454139425cc3bb9d8c415cc85c834d52a6int);
    lemma_fpow_double(b, 0x3333333333nat, p);
    assert(fpow(b, 0x6666666666nat, p) == 0x6740d5c617877bf6d74d85ab5aff5ef5c7d563e68dae3591a3c0ec38b51388eint);
    lemma_fpow_double(b, 0x6666666666nat, p);
    assert(fpow(b, 0xccccccccccnat, p) == 0x64777bfa77b8da72a5fb3060d4e93acb44adcf5e0f47e4023edb5d8964b7738int);
    lemma_fpow_double(b, 0xccccccccccnat, p);
    assert(fpow(b, 0x19999999998nat, p) == 0x63418bafc15b0a9f5c7c8db04a6e33224f45fe2569023d63be3069ac537ebf8int);
    lemma_fpow_step(b, 0x19999999998nat, p);
    assert(fpow(b, 0x19999999999nat, p) == 0xbd9e9fa2d5ff8217fcf8634e54e59fc1c0d9f2dd47de572db75945f0ade7bcint);
    lemma_fpow_double(b, 0x19999999999nat, p);
    assert(fpow(b, 0x33333333332nat, p) == 0x77c83ccd019973cce5e9b0e452855a427dcd3bd89930b8a97014c016d407c9dint);
    lemma_fpow_step(b, 0x33333333332nat, p);
    assert(fpow(b, 0x33333333333nat, p) == 0x3ac89929de72b84886eb028e6a0b454f0527c32d61f22b7c5e84e67f455433eint);
    lemma_fpow_double(b, 0x33333333333nat, p);
    assert(fpow(b, 0x66666666666nat, p) == 0x55c82c984c14584a58a75cb8ad4906e0938161611e0939ac4dc8ce1ebf15e4dint);
    lemma_fpow_double(b, 0x66666666666nat, p);
    assert(fpow(b, 0xcccccccccccnat, p) == 0x5978b78368a2e731ff50d1b5bdd7f5c4fb0ed1b32b9bef689db48dbf07a8391int);
}

/// The power `0xf66926e0ff773515a10661aa1f4d7e5cd6a000cc515a33cea96fa9c5262e50int^0x19999999999999d`.
proof fn lemma_power_over_5_2()
    ensures
        fpow(0xf66926e0ff773515a10661aa1f4d7e5cd6a000cc515a33cea96fa9c5262e50int, 0x19999999999999dnat, group_modulus()) == 0x750ce081d5deb39d9b348a14f856eb48ef44b656b14d31995115463adabaa2fint,
{
    let p = group_modulus();
    let b = 0xf66926e0ff773515a10661aa1f4d7e5cd6a000cc515a33cea96fa9c5262e50int;
    lemma_power_over_5_1();
    lemma_fpow_double(b, 0xcccccccccccnat, p);
    assert(fpow(b, 0x199999999998nat, p) == 0x2f2e6e0d5cde199cb4d51d9a22553db8325573667f2afbd2eacaeb3b6fe914aint);
    lemma_fpow_step(b, 0x199999999998nat, p);
    assert(fpow(b, 0x199999999999nat, p) == 0x66de6b5cec2d9729dc3ea5dbb0c39f1a98a3bbe428e6837c47f836cb3090280int);
    lemma_fpow_double(b, 0x199999999999nat, p);
    assert(fpow(b, 0x333333333332nat, p) == 0x5bb27795179a1b7adb77102b9aef31fa5ba50d54fcd5d735dda8086b8f933f5int);
    lemma_fpow_step(b, 0x333333333332nat, p);
    assert(fpow(b, 0x333333333333nat, p) == 0x6dd528dddebaf46512cf7a929ee47014a4a655adadb276ad0f5d02db86e8aebint);
    lemma_fpow_double(b, 0x333333333333nat, p);
    assert(fpow(b, 0x666666666666nat, p) == 0x54a8ca590ef17cde7887dc26b3ce3cd313be4e1c9a59f0ade12fc9d35c028a7int);
    lemma_fpow_double(b, 0x666666666666nat, p);
    assert(fpow(b, 0xccccccccccccnat, p) == 0x268481bf127a5e3105bf8a367d4e6e603ec890c936114fdd071102c6ffe748eint);
    lemma_fpow_double(b, 0xccccccccccccnat, p);
    assert(fpow(b, 0x1999999999998nat, p) == 0x197c9025eda4c9e49375d032732e91f31913868dbe1779fc04c02ebff323d30int);
    lemma_fpow_step(b, 0x1999999999998nat, p);
    assert(fpow(b, 0x1999999999999nat, p) == 0x5ac35355bb3b23f4a797c39902cf44aa6a50aa6af12f280c9117a4f3c68a9dcint);
    lemma_fpow_double(b, 0x1999999999999nat, p);
    assert(fpow(b, 0x3333333333332nat, p) == 0x1f7821116e270f3154a71692017ed33fd5445eec0834d532d861717c8a58187int);
    lemma_fpow_step(b, 0x3333333333332nat, p);
    assert(fpow(b, 0x3333333333333nat, p) == 0x6872c490302bead0998ad7a5f93648a4e18402770b94cc9349e3ba1b60422faint);
    lemma_fpow_double(b, 0x3333333333333nat, p);
    assert(fpow(b, 0x6666666666666nat, p) == 0x1d0e18ba7cd05668b1b4ac7206c1ca451cc9380846086435261da312c3b83e9int);
    lemma_fpow_double(b, 0x6666666666666nat, p);
    assert(fpow(b, 0xcccccccccccccnat, p) == 0x8b78b7344e5b00997be6fd8aa979e2e6eba1ba2a22a6f0e83675b0725a766bint);
    lemma_fpow_double(b, 0xcccccccccccccnat, p);
    assert(fpow(b, 0x19999999999998nat, p) == 0x4ced295405efa115369187efe2ea26a837d2dbe698539339ce39d6816272f08int);
    lemma_fpow_step(b, 0x19999999999998nat, p);
    assert(fpow(b, 0x19999999999999nat, p) == 0x4ee7b342dda33264392ffafa2472b06e6c65e98d913fd4375526b01d65d93e0int);
    lemma_fpow_double(b, 0x19999999999999nat, p);
    assert(fpow(b, 0x33333333333332nat, p) == 0xc1cdc8e65475438063b84d65580e38a661d056f2910c1a29a00dae934198a5int);
    lemma_fpow_step(b, 0x33333333333332nat, p);
    assert(fpow(b, 0x33333333333333nat, p) == 0x26a297ca7e4924553f1062174ef4055ba548f6fd6137ca3fdfe5bf2ee10c7f5int);
    lemma_fpow_double(b, 0x33333333333333nat, p);
    assert(fpow(b, 0x66666666666666nat, p) == 0x4f125bada1f9a24d1ece7b89d3af9732b89451f6f799015246a0b1815cdc808int);
    lemma_fpow_step(b, 0x66666666666666nat, p);
    assert(fpow(b, 0x66666666666667nat, p) == 0x69ed51d858859090a85446d4c1377c4becfc962f17eaa0ba6ef7d3f9eda6eacint);
    lemma_fpow_double(b, 0x66666666666667nat, p);
    assert(fpow(b, 0xcccccccccccccenat, p) == 0x37da12645b3619835ece1ae0d6a8c04e4b60ca875085a8831ddff91853989d3int);
    lemma_fpow_double(b, 0xcccccccccccccenat, p);
    assert(fpow(b, 0x19999999999999cnat, p) == 0x29217e582a3e1c50f72c75700f7dc9467155cab75781fd6c088ace07583c58dint);
    lemma_fpow_step(b, 0x19999999999999cnat, p);
    assert(fpow(b, 0x19999999999999dnat, p) == 0x750ce081d5deb39d9b348a14f856eb48ef44b656b14d31995115463adabaa2fint);
}

/// The power `0xf66926e0ff773515a10661aa1f4d7e5cd6a000cc515a33cea96fa9c5262e50int^0x1249249`.
proof fn lemma_power_over_7_0()
    ensures
        fpow(0xf66926e0ff773515a10661aa1f4d7e5cd6a000cc515a33cea96fa9c5262e50int, 0x1249249nat, group_modulus()) == 0x199c0225d7ef94f3446475c6ce19fb05e8e9abb0c8b2e6167cf463274087adcint,
{
    let p = group_modulus();
    let b = 0xf66926e0ff773515a10661aa1f4d7e5cd6a000cc515a33cea96fa9c5262e50int;
    lemma_pow1(b);
    assert(fpow(b, 1, p) == b);
    lemma_fpow_double(b, 0x1nat, p);
    assert(fpow(b, 0x2nat, p) == 0x15b3bfbbdcd77c4a3cd6187c748e17d54286b6fb5e1f617b7c2b5f03ba32e71int);
    lemma_fpow_double(b, 0x2nat, p);
    assert(fpow(b, 0x4nat, p) == 0x53714f161aa1b1438c3b38d2980fc4ebc0ddc1058d9511513b08006ffe03d3eint);
    lemma_fpow_double(b, 0x4nat, p);
    assert(fpow(b, 0x8nat, p) == 0x522ba54c3a9a27fb1fdf936002baa60836888122e97bd13d378fe9f21874b14int);
    lemma_fpow_step(b, 0x8nat, p);
    assert(fpow(b, 0x9nat, p) == 0x244663e32564bd074ea69feaf2a99fe47ff2b4e663e98616659badec0e29abaint);
    lemma_fpow_double(b, 0x9nat, p);
    assert(fpow(b, 0x12nat, p) == 0x38629b021f538eba78e75e45e77f3ab861763606adfc51ae393921a4e3e9cc8int);
    lemma_fpow_double(b, 0x12nat, p);
    assert(fpow(b, 0x24nat, p) == 0x21343ef6892c6ec4027367e9a5826aae7979ce3d9818691b2232b63130c31b7int);
    lemma_fpow_double(b, 0x24nat, p);
    assert(fpow(b, 0x48nat, p) == 0x4688abf1297c92c9efa7e6cd58997d491d87bd5776a9353a45b047ed6f1dfc4int);
    lemma_fpow_step(b, 0x48nat, p);
    assert(fpow(b, 0x49nat, p) == 0x4f2c500499e9110fb4efe3047298e62157e5ba93cae97056568b5bf0c3c4690int);
    lemma_fpow_double(b, 0x49nat, p);
    assert(fpow(b, 0x92nat, p) == 0x619bd815d045f055cb559823d55e1ee1fd5f1f9ec76f03b5ce73c424212d352int);
    lemma_fpow_double(b, 0x92nat, p);
    assert(fpow(b, 0x124nat, p) == 0x114bb9560a2f8614af5d8ddc355732250f9aac0c6d9ed1987b16bebc8f8baeint);
    lemma_fpow_double(b, 0x124nat, p);
    assert(fpow(b, 0x248nat, p) == 0x5d409f6a5ccdc3882af9e7f173883308c0d6099ec214c21dea33633e07acd74int);
    lemma_fpow_step(b, 0x248nat, p);
    assert(fpow(b, 0x249nat, p) == 0x63676936ab7a70ae8fd627d647a4cc454e4fb97c4ad100dc618d3b041668cceint);
    lemma_fpow_double(b, 0x249nat, p);
    assert(fpow(b, 0x492nat, p) == 0x493a734b28239bdda8989f525abc468195230712567cf28aad5bd09ae860ab2int);
    lemma_fpow_double(b, 0x492nat, p);
    assert(fpow(b, 0x924nat, p) == 0x1d2c4aaba899a65cb28fc9ac57a7d45f19dd4e199cee8b7a074b2ed32893202int);
    lemma_fpow_double(b, 0x924nat, p);
    assert(fpow(b, 0x1248nat, p) == 0x53c754d046446b8887ee673c890c737e25d7dd38346decc818b7c76123a5521int);
    lemma_fpow_step(b, 0x1248nat, p);
    assert(fpow(b, 0x1249nat, p) == 0x342c145cd69d502ae76ec5b7f901edcff5a64818acf5b7f2f1b354ab9eb1f7fint);
    lemma_fpow_double(b, 0x1249nat, p);
    assert(fpow(b, 0x2492nat, p) == 0x22ab940095749bd7351e50f4209dff7a4243ed9d77ed853c860f076c967738dint);
    lemma_fpow_double(b, 0x2492nat, p);
    assert(fpow(b, 0x4924nat, p) == 0x61167c7ea3558708c3449b2aab75fc855a6582527d86d1c96f5b2df8beb2593int);
    lemma_fpow_double(b, 0x4924nat, p);
    assert(fpow(b, 0x9248nat, p) == 0x25df0882ce7d98d348c854c8d7a64707105069b9aad85818bb98a0f916fcbb6int);
    lemma_fpow_step(b, 0x9248nat, p);
    assert(fpow(b, 0x9249nat, p) == 0x11ed88327c06bca4e44f4096bce28b748d410f62b40260e6565ec095826daeint);
    lemma_fpow_double(b, 0x9249nat, p);
    assert(fpow(b, 0x12492nat, p) == 0xc9bf4cf0ccc8acb1cbec9c831d898fc9b61dd242bc769204960c1a700ee30eint);
    lemma_fpow_double(b, 0x12492nat, p);
    assert(fpow(b, 0x24924nat, p) == 0x7c9ef752a16386475ab23b26aad767f6d9f68dc2644779e2087f942db7497abint);
    lemma_fpow_double(b, 0x24924nat, p);
    assert(fpow(b, 0x49248nat, p) == 0x7922a44e2264e3c9000ba69f7190192bc4cedb920f20abd7e5ad198120ea2f8int);
    lemma_fpow_step(b, 0x49248nat, p);
    assert(fpow(b, 0x49249nat, p) == 0x2c0e6785044e746a7f1ec51c043264e7a6f7759569ac875763d2db13b4eaeeeint);
    lemma_fpow_double(b, 0x49249nat, p);
    assert(fpow(b, 0x92492nat, p) == 0x6c37ff9e732f40bc016092ea98f4f597b947539c51bdbd1ea84ec56a41e1612int);
    lemma_fpow_double(b, 0x92492nat, p);
    assert(fpow(b, 0x124924nat, p) == 0x7c6f9b590bdd3916a54c9719b51782a4320d1ba122f71f25c777017148d8474int);
    lemma_fpow_double(b, 0x124924nat, p);
    assert(fpow(b, 0x249248nat, p) == 0x3a0017e9000735a4a75e08acce824e6b3a3313f8e971a5be1d92db4ba8bba94int);
    lemma_fpow_step(b, 0x249248nat, p);
    assert(fpow(b, 0x249249nat, p) == 0x33472695721ad3e42c2a079220652cc2ef1e9b4fa8a9fa84823f096f0823e77int);
    lemma_fpow_double(b, 0x249249nat, p);
    assert(fpow(b, 0x492492nat, p) == 0x30284c0eac5386970027b94180771a29f25babdb815df71873ad9183c3384efint);
    lemma_fpow_double(b, 0x492492nat, p);
    assert(fpow(b, 0x924924nat, p) == 0x6d7f95c83667502856ed1449e06e85a5a8f55efad0d693f59c17192a287b464int);
    lemma_fpow_double(b, 0x924924nat, p);
    assert(fpow(b, 0x1249248nat, p) == 0xb70c15073bfa8a4e41bb06a9ce3a3b487fdad5bf1d327acb2f8f53fc3334a5int);
    lemma_fpow_step(b, 0x1249248nat, p);
    assert(fpow(b, 0x1249249nat, p) == 0x199c0225d7ef94f3446475c6ce19fb05e8e9abb0c8b2e6167cf463274087adcint);
}

/// The power `0xf66926e0ff773515a10661aa1f4d7e5cd6a000cc515a33cea96fa9c5262e50int^0x1249249249249`.
proof fn lemma_power_over_7_1()
    ensures
        fpow(0xf66926e0ff773515a10661aa1f4d7e5cd6a000cc515a33cea96fa9c5262e50int, 0x1249249249249nat, group_modulus()) == 0x2d4ba1af23f15d74beb3b96a1d1b3d283ea222a32437337f59044301c18052dint,
{
    let p = group_modulus();
    let b = 0xf66926e0ff773515a10661aa1f4d7e5cd6a000cc515a33cea96fa9c5262e50int;
    lemma_power_over_7_0();
    lemma_fpow_double(b, 0x1249249nat, p);
    assert(fpow(b, 0x2492492nat, p) == 0x71bd0492fc28024ac278c3b4ddccc563e2500819438176689cbf3a1a8286701int);
    lemma_fpow_double(b, 0x2492492nat, p);
    assert(fpow(b, 0x4924924nat, p) == 0x4670fd842be7ce1b5dbb2c1e3bb56b8bfe4887f0d32201732fcd6ffce5c64c2int);
    lemma_fpow_double(b, 0x4924924nat, p);
    assert(fpow(b, 0x9249248nat, p) == 0x33df792b783d6ee777e6e44001bf032113de0860be89f6770cc975b00269b29int);
    lemma_fpow_step(b, 0x9249248nat, p);
    assert(fpow(b, 0x9249249nat, p) == 0x105b183da7a22d93c604d556b1d6ec75fe4dd16a5914ead5a7e51681f36ea29int);
    lemma_fpow_double(b, 0x9249249nat, p);
    assert(fpow(b, 0x12492492nat, p) == 0x2df8cfafeb94c7557d54601b2244011d6319c361c79a5bbe74c71b1edbf9085int);
    lemma_fpow_double(b, 0x12492492nat, p);
    assert(fpow(b, 0x24924924nat, p) == 0x6479d664f72a1dd547775e4d529a0c1773ebea8d9781009042e3590f4f4c77dint);
    lemma_fpow_double(b, 0x24924924nat, p);
    assert(fpow(b, 0x49249248nat, p) == 0xf7cdc13299276c969dec599323767f7fc875bd3dfefc278a4e001a98713f58int);
    lemma_fpow_step(b, 0x49249248nat, p);
    assert(fpow(b, 0x49249249nat, p) == 0x561455e72539dd9d133a79e2b5bb4349b66e1e690e763ee9258229721dcc8a5int);
    lemma_fpow_double(b, 0x49249249nat, p);
    assert(fpow(b, 0x92492492nat, p) == 0x39a137f8a9446e904fda4e8671a8c2e978e19b76a1991abad66f54d0689bfc6int);
    lemma_fpow_double(b, 0x92492492nat, p);
    assert(fpow(b, 0x124924924nat, p) == 0x5dec624381012cc5afe9d3ec00eb5ab93c44c05339f09bc5c10e6178464e0c3int);
    lemma_fpow_double(b, 0x124924924nat, p);
    assert(fpow(b, 0x249249248nat, p) == 0x293674f86d3befab2e042ca6aa5025c30612a5c8424fa56fbe5704e0a159346int);
    lemma_fpow_step(b, 0x249249248nat, p);
    assert(fpow(b, 0x249249249nat, p) == 0x5977031fd69cf7330d93dc0b2dd7b3e41f8e26c67bd5df48ade22fe3d634de7int);
    lemma_fpow_double(b, 0x249249249nat, p);
    assert(fpow(b, 0x492492492nat, p) == 0x2da8057d3d31467c7c0b2372186476431aa81c11bdef6bd94c1a82b6a628d2dint);
    lemma_fpow_double(b, 0x492492492nat, p);
    assert(fpow(b, 0x924924924nat, p) == 0x2c83be7b1a9dd02eb61437d35e73f186b997e4a11083638ed1f3399ad343dd2int);
    lemma_fpow_double(b, 0x924924924nat, p);
    assert(fpow(b, 0x1249249248nat, p) == 0x99e79469111d93d9f5b239778f5da3e1e8d5d244f9bdad6c784de25204b31fint);
    lemma_fpow_step(b, 0x1249249248nat, p);
    assert(fpow(b, 0x1249249249nat, p) == 0x3b073d63b088c0bf61133f7616ee5cdf3c0a655289827a9b3dfd7c4849bc3e1int);
    lemma_fpow_double(b, 0x1249249249nat, p);
    assert(fpow(b, 0x2492492492nat, p) == 0x2ba21386f74ef3d22ce7fa809e42eb704543101228208bdab0cc10f524633a1int);
    lemma_fpow_double(b, 0x2492492492nat, p);
    assert(fpow(b, 0x4924924924nat, p) == 0x3d598343a30bed7f3d93dbd88d58465ea0493e2ecc3bb5cb566c14a59f45bc3int);
    lemma_fpow_double(b, 0x4924924924nat, p);
    assert(fpow(b, 0x9249249248nat, p) == 0x347156d3468f37cdd7b4902d9eb4a7b6e727785ddb7a48029670d3b8cc0fd37int);
    lemma_fpow_step(b, 0x9249249248nat, p);
    assert(fpow(b, 0x9249249249nat, p) == 0x222d423011161e55435b9f682272810eaee02b57c11dc4c73fcb3307e395e9bint);
    lemma_fpow_double(b, 0x9249249249nat, p);
    assert(fpow(b, 0x12492492492nat, p) == 0xb5e598a3971405dee536f1844b2af3cd1733953da86a510b3b1d500ab08439int);
    lemma_fpow_double(b, 0x12492492492nat, p);
    assert(fpow(b, 0x24924924924nat, p) == 0x78dc64851051375a7dbab66509eee9823c43c6724a8cdff472ff0666665838cint);
    lemma_fpow_double(b, 0x24924924924nat, p);
    assert(fpow(b, 0x49249249248nat, p) == 0x487179c7d0a31cdb84f01377148987a685487b62dd28e267b3d18d89a9ba823int);
    lemma_fpow_step(b, 0x49249249248nat, p);
    assert(fpow(b, 0x49249249249nat, p) == 0x28d5af8d2420a55c83bc65f4fec5f3b158e7c950558b43bade28f22bfa3068bint);
    lemma_fpow_double(b, 0x49249249249nat, p);
    assert(fpow(b, 0x92492492492nat, p) == 0x1993624a65bef9532c9d21e6c0927d4f9641fb887bc8e2311ab52c60f72b1b6int);
    lemma_fpow_double(b, 0x92492492492nat, p);
    assert(fpow(b, 0x124924924924nat, p) == 0x2be0de3e33cf0692262d546e5f7c0c539ea5425d6d4cf12c8fe086a5d3d085bint);
    lemma_fpow_double(b, 0x124924924924nat, p);
    assert(fpow(b, 0x249249249248nat, p) == 0x6a28d553e82f9795236482a2f496c0c76fad59d1ba9f30057d5bac56efcee77int);
    lemma_fpow_step(b, 0x249249249248nat, p);
    assert(fpow(b, 0x249249249249nat, p) == 0xc95e879b00a405b9315763fc05c69fd2904164c0f6ea7a60bdbc5c17470057int);
    lemma_fpow_double(b, 0x249249249249nat, p);
    assert(fpow(b, 0x492492492492nat, p) == 0x2150504eb76c5bea7d93cf9a4cd9bdd1eb233d9749f1535e6c2c911e8fd8218int);
    lemma_fpow_double(b, 0x492492492492nat, p);
    assert(fpow(b, 0x924924924924nat, p) == 0x4ee91ce1615e4e94bb1b4c507bc548dfd21546584f1757b6c9d571ef96f2c9bint);
    lemma_fpow_double(b, 0x924924924924nat, p);
    assert(fpow(b, 0x1249249249248nat, p) == 0x1d16cbe24014970cba1dfc78b2e66cd06111aabee8e53053dddc98420fcfcf8int);
    lemma_fpow_step(b, 0x1249249249248nat, p);
    assert(fpow(b, 0x1249249249249nat, p) == 0x2d4ba1af23f15d74beb3b96a1d1b3d283ea222a32437337f59044301c18052dint);
}

/// The power `0xf66926e0ff773515a10661aa1f4d7e5cd6a000cc515a33cea96fa9c5262e50int^0x124924924924927`.
proof fn lemma_power_over_7_2()
    ensures
        fpow(0xf66926e0ff773515a10661aa1f4d7e5cd6a000cc515a33cea96fa9c5262e50int, 0x124924924924927nat, group_modulus()) == 0x417ec5c6e4e8fa859058f5cf64e8a19376b440158c3a899e66ea4824e7115e4int,
{
    let p = group_modulus();
    let b = 0xf66926e0ff773515a10661aa1f4d7e5cd6a000cc515a33cea96fa9c5262e50int;
    lemma_power_over_7_1();
    lemma_fpow_double(b, 0x1249249249249nat, p);
    assert(fpow(b, 0x2492492492492nat, p) == 0x116157a012845c6e088859c1ad585654a15f0cea9b962897ae1bf2f33f4b439int);
    lemma_fpow_double(b, 0x2492492492492nat, p);
    assert(fpow(b, 0x4924924924924nat, p) == 0x765d7accace5b2800a4fd61d2f4527dbfbdf713ba5c48171317693c978f7824int);
    lemma_fpow_double(b, 0x4924924924924nat, p);
    assert(fpow(b, 0x9249249249248nat, p) == 0x54581cd3ffd9e479dd518c4cc5a1ae592778738b736fbf3a38104360da17983int);
    lemma_fpow_step(b, 0x9249249249248nat, p);
    assert(fpow(b, 0x9249249249249nat, p) == 0x5f03c2d167d1be5f024971561cc41eabd940513a060c391ce22c218ba4c4db6int);
    lemma_fpow_double(b, 0x9249249249249nat, p);
    assert(fpow(b, 0x12492492492492nat, p) == 0x2a9b31d7b82810bd3e3ea7ac212da9eb228a623e3f1466d093a7ba3e7fab393int);
    lemma_fpow_double(b, 0x12492492492492nat, p);
    assert(fpow(b, 0x24924924924924nat, p) == 0x55345cd63107dd27b3a2969fc9f6e2ccb778caa37386fc0af3cad5b3c6c8eabint);
    lemma_fpow_double(b, 0x24924924924924nat, p);
    assert(fpow(b, 0x49249249249248nat, p) == 0x71f8b87e242a27b8b0863917b15f3fcbfe972a3753425a1c126432d060e01c0int);
    lemma_fpow_step(b, 0x49249249249248nat, p);
    assert(fpow(b, 0x49249249249249nat, p) == 0x3fe0717d6f7bdd261e9b0d0aabbc3e8de077c7536f781defa175b8dd12b6a8fint);
    lemma_fpow_double(b, 0x49249249249249nat, p);
    assert(fpow(b, 0x92492492492492nat, p) == 0x3a8d2dde793d02063f8ddfb106f3536df7649fb5dafe6a6693237fc35a527a9int);
    lemma_fpow_step(b, 0x92492492492492nat, p);
    assert(fpow(b, 0x92492492492493nat, p) == 0x4ad22683a205de8bed29831b7f2c349c5a9e66fe5ada9273450213d1673f1daint);
    lemma_fpow_double(b, 0x92492492492493nat, p);
    assert(fpow(b, 0x124924924924926nat, p) == 0x7fce95aaba7cecce1e74162f5b117f789ec1e052e2acb5eba3cc65e23d3e21aint);
    lemma_fpow_step(b, 0x124924924924926nat, p);
    assert(fpow(b, 0x124924924924927nat, p) == 0x417ec5c6e4e8fa859058f5cf64e8a19376b440158c3a899e66ea4824e7115e4int);
}

/// The power `0xf66926e0ff773515a10661aa1f4d7e5cd6a000cc515a33cea96fa9c5262e50int^0x2b82500`.
proof fn lemma_power_over_98714381_0()
    ensures
        fpow(0xf66926e0ff773515a10661aa1f4d7e5cd6a000cc515a33cea96fa9c5262e50int, 0x2b82500nat, group_modulus()) == 0x73f3599be9061af24b5d766c5e7db0f2aa3ecb9d136b073046b4c9092935d6dint,
{
    let p = group_modulus();
    let b = 0xf66926e0ff773515a10661aa1f4d7e5cd6a000cc515a33cea96fa9c5262e50int;
    lemma_pow1(b);
    assert(fpow(b, 1, p) == b);
    lemma_fpow_double(b, 0x1nat, p);
    assert(fpow(b, 0x2nat, p) == 0x15b3bfbbdcd77c4a3cd6187c748e17d54286b6fb5e1f617b7c2b5f03ba32e71int);
    lemma_fpow_double(b, 0x2nat, p);
    assert(fpow(b, 0x4nat, p) == 0x53714f161aa1b1438c3b38d2980fc4ebc0ddc1058d9511513b08006ffe03d3eint);
    lemma_fpow_step(b, 0x4nat, p);
    assert(fpow(b, 0x5nat, p) == 0x7e611ebc391bcad441affe07f927915d227efd24b1e1da6c0985fe12025af49int);
    lemma_fpow_double(b, 0x5nat, p);
    assert(fpow(b, 0xanat, p) == 0x7d7ed7e22964b48f18f5e9d975a7d359ff331ca9ac3522516a7d2f873190c57int);
    lemma_fpow_double(b, 0xanat, p);
    assert(fpow(b, 0x14nat, p) == 0xe7ab45600cf716603f9847e66e4fa1e220ad3ded2c5084b92559e55485c7f9int);
    lemma_fpow_step(b, 0x14nat, p);
    assert(fpow(b, 0x15nat, p) == 0x6dc79b0ab9af1838c6d6c9ff8d6c346a2db2039f7add9b5f4ca68400c97604bint);
    lemma_fpow_double(b, 0x15nat, p);
    assert(fpow(b, 0x2anat, p) == 0x6f5b77a49beb00959c8cbb715f2e470f12a578212bf9ae74d5d0194ea66c3e6int);
    lemma_fpow_step(b, 0x2anat, p);
    assert(fpow(b, 0x2bnat, p) == 0x3d519ec3605f6c6c8e12c90c0b16971d06a65a40d5187c317bef1cd2714f0bdint);
    lemma_fpow_double(b, 0x2bnat, p);
    assert(fpow(b, 0x56nat, p) == 0x680b9fe70f23c7615f5ac2c6e9638ce3160e986658feebaadbfee772e18cbf9int);
    lemma_fpow_step(b, 0x56nat, p);
    assert(fpow(b, 0x57nat, p) == 0x420b86e9dbe1f7d9b155bec717ee507d185241f80a1fe92322c5fcfd56f09abint);
    lemma_fpow_double(b, 0x57nat, p);
    assert(fpow(b, 0xaenat, p) == 0x173495e0e5989d97f36c8083bf47ce1d573f11f9b357039fbf5c7ff32813d85int);
    lemma_fpow_double(b, 0xaenat, p);
    assert(fpow(b, 0x15cnat, p) == 0x92d607fcc9bc81621bf916478672edd64cffd6020770ee71058789a0117c5bint);
    lemma_fpow_double(b, 0x15cnat, p);
    assert(fpow(b, 0x2b8nat, p) == 0x75a3349358ad480edfa72fd12231672f8342bc32879fbefd147ad576b072e2dint);
    lemma_fpow_double(b, 0x2b8nat, p);
    assert(fpow(b, 0x570nat, p) == 0x53b59e9f5dbe74048a5c3cb2bad8b530de8b48d5de6b81916d8d40af7fb73beint);
    lemma_fpow_double(b, 0x570nat, p);
    assert(fpow(b, 0xae0nat, p) == 0x593f4d76ee5ff658a156306814d5a7444695e950a85a31e71688ab9d9ce1e79int);
    lemma_fpow_double(b, 0xae0nat, p);
    assert(fpow(b, 0x15c0nat, p) == 0x7a12fc532639e585a59534fb9a0048e561476c58e78da0ec3a53e8b513f79e7int);
    lemma_fpow_step(b, 0x15c0nat, p);
    assert(fpow(b, 0x15c1nat, p) == 0x1d192b269c0070671d0b5b03748558c354aa0dd5e28b8da82e045de1cf41a92int);
    lemma_fpow_double(b, 0x15c1nat, p);
    assert(fpow(b, 0x2b82nat, p) == 0x1eda337a4a5291b043a51a5ee40ccf52bbceeeef161b6fc643d9f7fb1d5c34int);
    lemma_fpow_double(b, 0x2b82nat, p);
    assert(fpow(b, 0x5704nat, p) == 0x7d605b963b5c86f528536d67ed9bf021a103573e9d542eaf1e775e0a9f5dcbbint);
    lemma_fpow_double(b, 0x5704nat, p);
    assert(fpow(b, 0xae08nat, p) == 0x6d4a4d81054a7ce0c119d8a9f9d22ed0ec75317819cc1efab6e2e238d02d0efint);
    lemma_fpow_step(b, 0xae08nat, p);
    assert(fpow(b, 0xae09nat, p) == 0x3569626a9abfa9c459ede790e8ff1fa38e34b2fb3758cd2bea2e0e03dc23052int);
    lemma_fpow_double(b, 0xae09nat, p);
    assert(fpow(b, 0x15c12nat, p) == 0x33fdb4916fcd0577978e2fc00db48518f9abba23bf2a6e412e6d4f1d69fa695int);
    lemma_fpow_double(b, 0x15c12nat, p);
    assert(fpow(b, 0x2b824nat, p) == 0x2c2c10d09a94fbe14c97037bbae8ae982ec011ee7d2a92120764273e92ed913int);
    lemma_fpow_step(b, 0x2b824nat, p);
    assert(fpow(b, 0x2b825nat, p) == 0x16d6bffb13e4bcc2f0ab8e0bdb6a476d318bd117462ca77836bf7a4ec690527int);
    lemma_fpow_double(b, 0x2b825nat, p);
    assert(fpow(b, 0x5704anat, p) == 0x52cabd5afe34bcd079a373e69eb45e6394e56c0a0216e9a35085f0a0ab8cdf3int);
    lemma_fpow_double(b, 0x5704anat, p);
    assert(fpow(b, 0xae094nat, p) == 0x3100029ee5f7524ae84121d6218a89a258fba9cb484b04e6f17cda752716c5int);
    lemma_fpow_double(b, 0xae094nat, p);
    assert(fpow(b, 0x15c128nat, p) == 0x33de2d013bc0a248f06e14ebefdbf0dfe89fbcc081a596f18f039c9b50a027int);
    lemma_fpow_double(b, 0x15c128nat, p);
    assert(fpow(b, 0x2b8250nat, p) == 0x15d9e67905928c8e69db45f7a48d7c9088d60cb1ba019004b1124cc80d974a5int);
    lemma_fpow_double(b, 0x2b8250nat, p);
    assert(fpow(b, 0x5704a0nat, p) == 0x43a75577f2494ead1dbfbe987dd61729b9e73b0363618ce869559b18b9e2b13int);
    lemma_fpow_double(b, 0x5704a0nat, p);
    assert(fpow(b, 0xae0940nat, p) == 0x561c8a6be80b677729a13cce8ecb6b8f8df7dba9f138535e055dc9f3b3743dfint);
    lemma_fpow_double(b, 0xae0940nat, p);
    assert(fpow(b, 0x15c1280nat, p) == 0x6b1b0a5f8eb746534c736f37d7a424141aa84f6258ab9d7d0ad87d9a047d456int);
    lemma_fpow_double(b, 0x15c1280nat, p);
    assert(fpow(b, 0x2b82500nat, p) == 0x73f3599be9061af24b5d766c5e7db0f2aa3ecb9d136b073046b4c9092935d6dint);
}

/// The power `0xf66926e0ff773515a10661aa1f4d7e5cd6a000cc515a33cea96fa9c5262e50int^0x15c128015`.
proof fn lemma_power_over_98714381_1()
    ensures
        fpow(0xf66926e0ff773515a10661aa1f4d7e5cd6a000cc515a33cea96fa9c5262e50int, 0x15c128015nat, group_modulus()) == 0x100c7fcbab0dcd056d1cae540835ed5020889c4f6a7619900154943dff84170int,
{
    let p = group_modulus();
    let b = 0xf66926e0ff773515a10661aa1f4d7e5cd6a000cc515a33cea96fa9c5262e50int;
    lemma_power_over_98714381_0();
    lemma_fpow_double(b, 0x2b82500nat, p);
    assert(fpow(b, 0x5704a00nat, p) == 0xe6c34156f41539420a489063afe0ad6f3f72c3a39af115a572687d9c12035aint);
    lemma_fpow_double(b, 0x5704a00nat, p);
    assert(fpow(b, 0xae09400nat, p) == 0x64c173d4ef6004b6b5d24232f7bdd928ef56fb5e569d5f9f6ce02f7d488b665int);
    lemma_fpow_double(b, 0xae09400nat, p);
    assert(fpow(b, 0x15c12800nat, p) == 0x44a2b3a79be4e9b87606fdaf0bbfecc689669ec48070aca6e5e63628a4472c9int);
    lemma_fpow_step(b, 0x15c12800nat, p);
    assert(fpow(b, 0x15c12801nat, p) == 0x20e6e8842bb209b4bab2dbd9ffd918958758afd8cf426f4a13f8c38f44c31b3int);
    lemma_fpow_double(b, 0x15c12801nat, p);
    assert(fpow(b, 0x2b825002nat, p) == 0x3b5dd6fb7db1ba08334952e0d13c14de7b1d0729fff2a4d87872abba298d527int);
    lemma_fpow_double(b, 0x2b825002nat, p);
    assert(fpow(b, 0x5704a004nat, p) == 0x25da68efe6763f3755998762801f1c0edb5df0de3aa8918675ce108c8f0e31cint);
    lemma_fpow_step(b, 0x5704a004nat, p);
    assert(fpow(b, 0x5704a005nat, p) == 0x54c5198bfde335e30316d8e054feb44ea86676e689131dc223ec938ac88cd08int);
    lemma_fpow_double(b, 0x5704a005nat, p);
    assert(fpow(b, 0xae09400anat, p) == 0x7cc17095e8fe68af60ce8e2b1626d7cca1db18a7719eaa41bedf3b8a0895715int);
    lemma_fpow_double(b, 0xae09400anat, p);
    assert(fpow(b, 0x15c128014nat, p) == 0x2e1f3ef743524d7d233cf790547fb0504bdb4a84ba9e2771cb2627a903eeb09int);
    lemma_fpow_step(b, 0x15c128014nat, p);
    assert(fpow(b, 0x15c128015nat, p) == 0x100c7fcbab0dcd056d1cae540835ed5020889c4f6a7619900154943dff84170int);
}

/// The power `0xf66926e0ff773515a10661aa1f4d7e5cd6a000cc515a33cea96fa9c5262e50int^0x19bde4`.
proof fn lemma_power_over_166848103_0()
    ensures
        fpow(0xf66926e0ff773515a10661aa1f4d7e5cd6a000cc515a33cea96fa9c5262e50int, 0x19bde4nat, group_modulus()) == 0x4e5cee6c836e2a13a8caccc2967967bf5a12c0379ea7fd2053a01fc775449d5int,
{
    let p = group_modulus();
    let b = 0xf66926e0ff773515a10661aa1f4d7e5cd6a000cc515a33cea96fa9c5262e50int;
    lemma_pow1(b);
    assert(fpow(b, 1, p) == b);
    lemma_fpow_double(b, 0x1nat, p);
    assert(fpow(b, 0x2nat, p) == 0x15b3bfbbdcd77c4a3cd6187c748e17d54286b6fb5e1f617b7c2b5f03ba32e71int);
    lemma_fpow_step(b, 0x2nat, p);
    assert(fpow(b, 0x3nat, p) == 0x116e53af5aca0bb28ac06877c78703e39976f6136ff9657fdec4018fa6af08dint);
    lemma_fpow_double(b, 0x3nat, p);
    assert(fpow(b, 0x6nat, p) == 0x49b1802f419ddc1268a430ac17738c9f95560be9bffab2eea9d87f670765518int);
    lemma_fpow_double(b, 0x6nat, p);
    assert(fpow(b, 0xcnat, p) == 0x1da91458dd51afab37f64a07bce84c4418954e4bea68d260453992787cb16d8int);
    lemma_fpow_double(b, 0xcnat, p);
    assert(fpow(b, 0x18nat, p) == 0x200b528c55d16dba13802f37fc12a33c6f5caeac32e24a29f963fea923bf745int);
    lemma_fpow_step(b, 0x18nat, p);
    assert(fpow(b, 0x19nat, p) == 0x27ef397a0d33d64da2f4eaad82c65a7f62dae6f79ed7ae81b413d017d9c7b85int);
    lemma_fpow_double(b, 0x19nat, p);
    assert(fpow(b, 0x32nat, p) == 0x426bf19d6b8ffea5f54161abc0513b3c7b3e5a46938a174b3b2204787fb7a33int);
    lemma_fpow_step(b, 0x32nat, p);
    assert(fpow(b, 0x33nat, p) == 0x3eb5de7db03472484f85951a45e0090a2423b818ec8406d5aad72e5b41b80bfint);
    lemma_fpow_double(b, 0x33nat, p);
    assert(fpow(b, 0x66nat, p) == 0x1af7853944cec89c806c32d3ace682b83f80bf45956ac02f784807694487feaint);
    lemma_fpow_double(b, 0x66nat, p);
    assert(fpow(b, 0xccnat, p) == 0xd03fd8378fc3c0bc441155e58cae4404446c12d4e4561a80840d70bcb5ab59int);
    lemma_fpow_step(b, 0xccnat, p);
    assert(fpow(b, 0xcdnat, p) == 0x24d1c22b69b13636712bcd88dedb4eb172e3bd73b43332137acfef11d0720ffint);
    lemma_fpow_double(b, 0xcdnat, p);
    assert(fpow(b, 0x19anat, p) == 0x4d9794dd6ac7e2bdc14b6d5c374312cfed5965a074ddb5bd9bdd6c8f92704ecint);
    lemma_fpow_step(b, 0x19anat, p);
    assert(fpow(b, 0x19bnat, p) == 0x3452e8e59f48534976658a2473d97ddc2efddead02a486b2c4545bfe8f414bcint);
    lemma_fpow_double(b, 0x19bnat, p);
    assert(fpow(b, 0x336nat, p) == 0x526399099b78f04eb00480e7066d791eba6f68c53d19d38d0f10c091ced9f54int);
    lemma_fpow_step(b, 0x336nat, p);
    assert(fpow(b, 0x337nat, p) == 0x1f60339546e606148454bf0065f0d5ea3f7c2d1c0e591b9f7bc814e1532256cint);
    lemma_fpow_double(b, 0x337nat, p);
    assert(fpow(b, 0x66enat, p) == 0x3a0a9952c7d25e52c6932b5a35cab711ecb94b180d881fdb4dcfda72ec4cda0int);
    lemma_fpow_step(b, 0x66enat, p);
    assert(fpow(b, 0x66fnat, p) == 0x47a928fa8c2505a322fb4a10637957cb90ab7d47fe952d8b7122a60c10b21e7int);
    lemma_fpow_double(b, 0x66fnat, p);
    assert(fpow(b, 0xcdenat, p) == 0x5f21976e5039420a7bb03a1bafe9c3c06f2035d63ab9b8bd4ab401fbb88420fint);
    lemma_fpow_double(b, 0xcdenat, p);
    assert(fpow(b, 0x19bcnat, p) == 0x4e90f20e05a3f9119852b2f46ac1baffad013006cffe388df193e50513beae6int);
    lemma_fpow_step(b, 0x19bcnat, p);
    assert(fpow(b, 0x19bdnat, p) == 0x7e94221f3a05e96037abaa8be649a23e0aeeadb66d5fc3de190a02a2da5e606int);
    lemma_fpow_double(b, 0x19bdnat, p);
    assert(fpow(b, 0x337anat, p) == 0x95558a6b75c1b3bca3259acac6ddda3c980ac957b89f25cfd06bf62b660633int);
    lemma_fpow_step(b, 0x337anat, p);
    assert(fpow(b, 0x337bnat, p) == 0x3aae2e764f7c2f32529fc2500acd81f57dfaefb26674cf6f8b6407bb254c8dint);
    lemma_fpow_double(b, 0x337bnat, p);
    assert(fpow(b, 0x66f6nat, p) == 0x7323da7f9c05dfb8d81d39dd73f55aa1897cc91cb7bafb005d6baf77a54fe56int);
    lemma_fpow_step(b, 0x66f6nat, p);
    assert(fpow(b, 0x66f7nat, p) == 0x4ef5489ebeafb6fd95e93d4c7eb850d75868d08181692176755ea082b870df8int);
    lemma_fpow_double(b, 0x66f7nat, p);
    assert(fpow(b, 0xcdeenat, p) == 0x14797cc65daba91022b34defc57143fce3a8512ace630ae7114e577e20c3cb1int);
    lemma_fpow_step(b, 0xcdeenat, p);
    assert(fpow(b, 0xcdefnat, p) == 0x45af4e61397f1776f2d3d3a2dbc8630636bff4aecd2cbd1ff86af49292079b6int);
    lemma_fpow_double(b, 0xcdefnat, p);
    assert(fpow(b, 0x19bdenat, p) == 0x225cbfb3e08e487e09bea17b4bdc814ea695b70de17473a21b4b649ca95de2int);
    lemma_fpow_double(b, 0x19bdenat, p);
    assert(fpow(b, 0x337bcnat, p) == 0x34c8523afd3698053c31ec67bc9532d674ea87529a12ec9db2707577b84249cint);
    lemma_fpow_double(b, 0x337bcnat, p);
    assert(fpow(b, 0x66f78nat, p) == 0x578fe8ca838e62d94efb109d4c472c0160f53557c896f65da8eaa5028fb0338int);
    lemma_fpow_step(b, 0x66f78nat, p);
    assert(fpow(b, 0x66f79nat, p) == 0x46941fc627efda9fa5a1a20c3dcade46d657a8589af7c32c855213e1ad184ccint);
    lemma_fpow_double(b, 0x66f79nat, p);
    assert(fpow(b, 0xcdef2nat, p) == 0x688ad181faca84580238d92bcae28ed360e482847f863ffdfda08334487dc71int);
    lemma_fpow_double(b, 0xcdef2nat, p);
    assert(fpow(b, 0x19bde4nat, p) == 0x4e5cee6c836e2a13a8caccc2967967bf5a12c0379ea7fd2053a01fc775449d5int);
}

/// The power `0xf66926e0ff773515a10661aa1f4d7e5cd6a000cc515a33cea96fa9c5262e50int^0xcdef2ac7`.
proof fn lemma_power_over_166848103_1()
    ensures
        fpow(0xf66926e0ff773515a10661aa1f4d7e5cd6a000cc515a33cea96fa9c5262e50int, 0xcdef2ac7nat, group_modulus()) == 0x2ab2a4f6793cb093fc06444d112c636b84cbec765bf8e05f80c8fdc1b7ce8bdint,
{
    let p = group_modulus();
    let b = 0xf66926e0ff773515a10661aa1f4d7e5cd6a000cc515a33cea96fa9c5262e50int;
    lemma_power_over_166848103_0();
    lemma_fpow_step(b, 0x19bde4nat, p);
    assert(fpow(b, 0x19bde5nat, p) == 0x104a72a89f0b56c150cf459082b560316e4cdc6279f9d8eb6318ceaca15b0f0int);
    lemma_fpow_double(b, 0x19bde5nat, p);
    assert(fpow(b, 0x337bcanat, p) == 0x746669e63ac84d91c0083d19d246a9c87755ab12fd7aa598e2b54bb7c4f3a91int);
    lemma_fpow_double(b, 0x337bcanat, p);
    assert(fpow(b, 0x66f794nat, p) == 0x4638f43c41bc87ecac6cd7eb2f190f18a0ac169b4c21ac68256e4318635c41aint);
    lemma_fpow_step(b, 0x66f794nat, p);
    assert(fpow(b, 0x66f795nat, p) == 0x1089d52145f4303c8bf1dec15009ee8e6d6735a5c0937de312977cbc1c50723int);
    lemma_fpow_double(b, 0x66f795nat, p);
    assert(fpow(b, 0xcdef2anat, p) == 0x1e19ba2203492db31573d8caa1693a07c4d30db46822de68d10725135f713a9int);
    lemma_fpow_double(b, 0xcdef2anat, p);
    assert(fpow(b, 0x19bde54nat, p) == 0x7e270d51acc1ff877d7023d71afb4f6b741fc36ec80b15613ebf8ac5455fc89int);
    lemma_fpow_step(b, 0x19bde54nat, p);
    assert(fpow(b, 0x19bde55nat, p) == 0x4bc9cd15d4f274c94a062c9dbbd7c7cd7c01904e651c477fda826026879fab7int);
    lemma_fpow_double(b, 0x19bde55nat, p);
    assert(fpow(b, 0x337bcaanat, p) == 0x625b94bf6d9f7a03580fd85ae79e7749daf66aee8cb02830757ce51a6e51a8eint);
    lemma_fpow_step(b, 0x337bcaanat, p);
    assert(fpow(b, 0x337bcabnat, p) == 0x2894f11c4e4247eba8214c10e2915a1f264f74ef6137c9d76651e6a98a7545aint);
    lemma_fpow_double(b, 0x337bcabnat, p);
    assert(fpow(b, 0x66f7956nat, p) == 0x413095408ffe1f6133dcf84b480089a31c7a29060525a82ebb3fbc34a3b9f20int);
    lemma_fpow_double(b, 0x66f7956nat, p);
    assert(fpow(b, 0xcdef2acnat, p) == 0x340cdea70c5f15d97e60c936350bb6b0879b5da1ab032b8f2c2f7984d7f4dcbint);
    lemma_fpow_double(b, 0xcdef2acnat, p);
    assert(fpow(b, 0x19bde558nat, p) == 0x50e1a92a9e2283d638b4da7de8b428fcd41f1807d6fa413016c92be1ef42283int);
    lemma_fpow_double(b, 0x19bde558nat, p);
    assert(fpow(b, 0x337bcab0nat, p) == 0x2cda8ea110fa289b3228311657c147415953be988a4bf00c77192690b2f8e90int);
    lemma_fpow_step(b, 0x337bcab0nat, p);
    assert(fpow(b, 0x337bcab1nat, p) == 0x7a429223d920112b976cf3c9475b48f219a40de2a249ce95fc6c55645dacc6aint);
    lemma_fpow_double(b, 0x337bcab1nat, p);
    assert(fpow(b, 0x66f79562nat, p) == 0x5abdf6679e2d87942b075df4dfa3dc9edbbbf7ce640aa3c2e0f77ca2cdad3d5int);
    lemma_fpow_step(b, 0x66f79562nat, p);
    assert(fpow(b, 0x66f79563nat, p) == 0x12bc1c821345d0c01359a4118cc8c8781e77c0ac4183be043bb9a9d74ad5504int);
    lemma_fpow_double(b, 0x66f79563nat, p);
    assert(fpow(b, 0xcdef2ac6nat, p) == 0x7e33cdbf960e384db3a4da2146d6bd2dce9312fb415f77b439343171b61c53eint);
    lemma_fpow_step(b, 0xcdef2ac6nat, p);
    assert(fpow(b, 0xcdef2ac7nat, p) == 0x2ab2a4f6793cb093fc06444d112c636b84cbec765bf8e05f80c8fdc1b7ce8bdint);
}

/// The generator generates the whole group: its power by the order of the group is one, and
/// its power by the order over any prime factor of the order is not.
pub proof fn lemma_group_generator()
    ensures
        generates(group_generator(), group_modulus(), group_factors()),
{
    let p = group_modulus();
    let g = group_generator();
    let odd = seq![5int, 7, 98714381, 166848103];
    let factors = group_factors();
    lemma2_to64();
    lemma_pow2_adds(64, 64);
    lemma_pow2_adds(128, 64);
    assert(pow2(192) == 0x1000000000000000000000000000000000000000000000000int);
    vstd::arithmetic::power2::lemma_pow2_unfold(192);
    assert(pow2(191) == 0x800000000000000000000000000000000000000000000000int);
    lemma_product_twos(192);
    lemma_product_concat(twos(192), odd);
    let tail_3 = seq![166848103int];
    assert(product(tail_3.drop_first()) == 1);
    assert(product(tail_3) == 0x9f1e667int);
    let tail_2 = seq![98714381int, 166848103];
    assert(tail_2.drop_first() =~= tail_3);
    assert(product(tail_2) == 0x3a83a83a83a83bint);
    let tail_1 = seq![7int, 98714381, 166848103];
    assert(tail_1.drop_first() =~= tail_2);
    assert(product(tail_1) == 0x19999999999999dint);
    let tail_0 = seq![5int, 7, 98714381, 166848103];
    assert(tail_0.drop_first() =~= tail_1);
    assert(product(tail_0) == 0x800000000000011int);
    assert(odd =~= tail_0);
    assert(product(factors) == p - 1);
    lemma_prime_5();
    lemma_prime_7();
    lemma_prime_98714381();
    lemma_prime_166848103();
    assert(is_prime(2));
    assert forall|i: int| 0 <= i < factors.len() implies is_prime(#[trigger] factors[i]) by {
        if i >= 192 {
            assert(factors[i] == odd[i - 192]);
        }
    }
    lemma_squarings_5();
    lemma_power_order_1();
    lemma_fpow_mul(g, pow2(192), 0x800000000000011nat, p);
    assert(fpow(g, (p - 1) as nat, p) == 1);
    lemma_squarings_below_top();
    lemma_power_half_1();
    lemma_fpow_mul(g, pow2(191), 0x800000000000011nat, p);
    assert(fpow(g, ((p - 1) / 2) as nat, p) == p - 1);
    lemma_squarings_5();
    lemma_power_over_5_2();
    lemma_fpow_mul(g, pow2(192), 0x19999999999999dnat, p);
    assert(fpow(g, ((p - 1) / 5) as nat, p) == 0x750ce081d5deb39d9b348a14f856eb48ef44b656b14d31995115463adabaa2fint);
    lemma_squarings_5();
    lemma_power_over_7_2();
    lemma_fpow_mul(g, pow2(192), 0x124924924924927nat, p);
    assert(fpow(g, ((p - 1) / 7) as nat, p) == 0x417ec5c6e4e8fa859058f5cf64e8a19376b440158c3a899e66ea4824e7115e4int);
    lemma_squarings_5();
    lemma_power_over_98714381_1();
    lemma_fpow_mul(g, pow2(192), 0x15c128015nat, p);
    assert(fpow(g, ((p - 1) / 98714381) as nat, p) == 0x100c7fcbab0dcd056d1cae540835ed5020889c4f6a7619900154943dff84170int);
    lemma_squarings_5();
    lemma_power_over_166848103_1();
    lemma_fpow_mul(g, pow2(192), 0xcdef2ac7nat, p);
    assert(fpow(g, ((p - 1) / 166848103) as nat, p) == 0x2ab2a4f6793cb093fc06444d112c636b84cbec765bf8e05f80c8fdc1b7ce8bdint);
    assert forall|i: int| 0 <= i < factors.len() implies fpow(
        g,
        ((p - 1) / #[trigger] factors[i]) as nat,
        p,
    ) != 1 by {
        if i >= 192 {
            assert(factors[i] == odd[i - 192]);
        } else {
            assert(factors[i] == 2);
        }
    }
}

} // verus!
