//! The field of characteristic `2^251 + 17 * 2^192 + 1`, on 256-bit integers.

use vstd::prelude::*;
use vstd::arithmetic::div_mod::{
    lemma_fundamental_div_mod, lemma_mod_add_multiples_vanish, lemma_small_mod,
};
use vstd::arithmetic::power::{lemma_pow1, lemma_pow_multiplies, pow};
use vstd::arithmetic::power2::{lemma2_to64, lemma_pow2_adds, pow2};
use vstd::slice::slice_to_vec;
use crate::arith::{
    fmul, fpow, fsub, gcd, is_inverse, lemma_common_factor_not_unit, lemma_euclid_step,
    lemma_fpow_pow2_step, lemma_gcd_divides, lemma_le_value_bounds, limbs_value,
};
use crate::field::PrimeField;
use crate::wide::{
    lemma_limbs_value_4, u256_add, u256_div_mod, u256_from_little_endian, u256_lt,
    u256_mul_mod, u256_rem, u256_sub, u256_to_little_endian,
};

verus! {

/// The modulus `2^251 + 17 * 2^192 + 1`.
pub open spec fn fp_modulus() -> int {
    0x800000000000011000000000000000000000000000000000000000000000001int
}

/// The generator `3^((p - 1) / 2^192)` of the subgroup of order `2^192`.
pub open spec fn fp_root_of_unity() -> int {
    0x5282db87529cfa3f0464519c8b0fa5ad187148e11a61616070024f42f8ef94int
}

/// The limbs of the modulus.
pub const FP_MODULUS: [u64; 4] = [0x1, 0x0, 0x0, 0x800000000000011];

/// The limbs of the root of unity.
pub const FP_ROOT_OF_UNITY: [u64; 4] = [
    0x6070024f42f8ef94,
    0xad187148e11a6161,
    0x3f0464519c8b0fa5,
    0x5282db87529cfa,
];

/// An element of the field, held as the limbs of its canonical residue.
#[derive(Clone, Copy, Debug, PartialEq, Eq, Hash)]
pub struct Fp([u64; 4]);

/// The root of unity squared 32 times.
proof fn lemma_root_chain_0()
    ensures
        fpow(fp_root_of_unity(), pow2(32), fp_modulus()) == 0x4f4fae1524c29441dbfd6794692f803ddcf6d66be90d67e9412a9f3df1d9004int,
{
    let p = fp_modulus();
    let r = fp_root_of_unity();
    lemma2_to64();
    lemma_pow1(r);
    assert(fpow(r, pow2(0), p) == r);
    lemma_fpow_pow2_step(r, 0, p);
    assert(fpow(r, pow2(1), p) == 0xe0a5eb0a4995b37e2ab5fe2fad6e9ce43272dfda828f000fc5b93404173760int);
    lemma_fpow_pow2_step(r, 1, p);
    assert(fpow(r, pow2(2), p) == 0x5ac1ff12884c2d7f68488ddee5be5b657e36f459476eb5d567be37f09dc6b5cint);
    lemma_fpow_pow2_step(r, 2, p);
    assert(fpow(r, pow2(3), p) == 0x727b76a09563089053924d54bf6c31631c57cb6a2a1a8f22c8ed622c3bb6a8fint);
    lemma_fpow_pow2_step(r, 3, p);
    assert(fpow(r, pow2(4), p) == 0x7709cc3f421a10d914017ea2f0c24719ca9d2692beb71a6e040769692f8ac25int);
    lemma_fpow_pow2_step(r, 4, p);
    assert(fpow(r, pow2(5), p) == 0x367f3841b487ae5108205191425ad9817e693462b58f45e767a1747b49b3a0aint);
    lemma_fpow_pow2_step(r, 5, p);
    assert(fpow(r, pow2(6), p) == 0x61e359f379293ae0323845f87689930c777629391e2ede1d9446736bc46b8b4int);
    lemma_fpow_pow2_step(r, 6, p);
    assert(fpow(r, pow2(7), p) == 0x520c2d37e3f1e78c6185d3a0ab93ba14d44cff8db576ebc4b44764ed4ee8cf7int);
    lemma_fpow_pow2_step(r, 7, p);
    assert(fpow(r, pow2(8), p) == 0x22f575e112a2c4d946813e30f331903ef2990c6729d40e2123e992e31d48a82int);
    lemma_fpow_pow2_step(r, 8, p);
    assert(fpow(r, pow2(9), p) == 0x230b5c3d3f093925027e7d944793049f381ebbdbf87d840e4fa93cb9302ac44int);
    lemma_fpow_pow2_step(r, 9, p);
    assert(fpow(r, pow2(10), p) == 0x7586d27b19255098be0ca5f918f0105924e189c653705209465d77c65375f6cint);
    lemma_fpow_pow2_step(r, 10, p);
    assert(fpow(r, pow2(11), p) == 0x21dab447c48649aabcf2825aabe912be6406a78823ddf07191a2ea9cf287fafint);
    lemma_fpow_pow2_step(r, 11, p);
    assert(fpow(r, pow2(12), p) == 0x26064139b92e036e3f5c599bbc94c16778ba471a45d785f664252897cc1083dint);
    lemma_fpow_pow2_step(r, 12, p);
    assert(fpow(r, pow2(13), p) == 0x31531c6965c0cc47bf5af5390db4c797463b3f37e80093aad6794f2b94bc10eint);
    lemma_fpow_pow2_step(r, 13, p);
    assert(fpow(r, pow2(14), p) == 0x2bc8b3028ec2dda77d60416fa86658a1f3c8f9650425ae8bc5915ae98c8db7fint);
    lemma_fpow_pow2_step(r, 14, p);
    assert(fpow(r, pow2(15), p) == 0x38e3b071e369b4f6fa736a5d498e3373efa8faeed5c136198cb241127105daeint);
    lemma_fpow_pow2_step(r, 15, p);
    assert(fpow(r, pow2(16), p) == 0x4b9cb49b478c12a88ed5b7b848605cfd0744ddc522944901181eb951524ad8cint);
    lemma_fpow_pow2_step(r, 16, p);
    assert(fpow(r, pow2(17), p) == 0x2708b052ff2ca5046d6fe3ce111d6ce5a337909375dc2407a5b3e7079bc6c86int);
    lemma_fpow_pow2_step(r, 17, p);
    assert(fpow(r, pow2(18), p) == 0x68b3aaf00a4483b1a12a4257f01c5385127a167f0c137cd9513e0d4dd756b6dint);
    lemma_fpow_pow2_step(r, 18, p);
    assert(fpow(r, pow2(19), p) == 0x605f6a2ae0874e2c25b262fb99395f44234afd0c2069cba6c72bd401f4f0e85int);
    lemma_fpow_pow2_step(r, 19, p);
    assert(fpow(r, pow2(20), p) == 0x3745ca5cc625a0b10b1b3db9be0aef564f4bbd26f29053dc04dc48c005a1d86int);
    lemma_fpow_pow2_step(r, 20, p);
    assert(fpow(r, pow2(21), p) == 0x3ddeed6ea43d59b7de04ce2d8febe775be86512856a1aefe378a012135e0ee9int);
    lemma_fpow_pow2_step(r, 21, p);
    assert(fpow(r, pow2(22), p) == 0x6a550dfc8c22dd8e5e4a16b727e74b5d94f928d5d407ae80fbfd336edeaec42int);
    lemma_fpow_pow2_step(r, 22, p);
    assert(fpow(r, pow2(23), p) == 0xd109f294d2adea8bd91c558d4220dbb658c8c4e26b66b3ded3bc578b98bf40int);
    lemma_fpow_pow2_step(r, 23, p);
    assert(fpow(r, pow2(24), p) == 0x247ecf52fe8be1fa8114ab3c94862af5a6b430dec205dcdbff2f4e60cc5cbf4int);
    lemma_fpow_pow2_step(r, 24, p);
    assert(fpow(r, pow2(25), p) == 0xe34b3355ee9d49575950f37d1e82a86401b6d3cd08787a3a66ad86f976eb41int);
    lemma_fpow_pow2_step(r, 25, p);
    assert(fpow(r, pow2(26), p) == 0x5fb76bed5d75a88214d3134d01f3de968cd3f7a0173185873f8a435e404f6c5int);
    lemma_fpow_pow2_step(r, 26, p);
    assert(fpow(r, pow2(27), p) == 0x56db454a93340f5acba1990670f5d4e0f02915519dadcabbbafb3f6d8408a5int);
    lemma_fpow_pow2_step(r, 27, p);
    assert(fpow(r, pow2(28), p) == 0x7ce12e47503ddc334ca7cb60795844b7ee777e1736a1659e70206135bd84f3eint);
    lemma_fpow_pow2_step(r, 28, p);
    assert(fpow(r, pow2(29), p) == 0xf4804c8e8b80825b24913bf17eb8d7b7cb0619f5952362ef7660f933f928b7int);
    lemma_fpow_pow2_step(r, 29, p);
    assert(fpow(r, pow2(30), p) == 0x4e3bf4420275950191382578f8530f2352eab2a421182c9e382756459824907int);
    lemma_fpow_pow2_step(r, 30, p);
    assert(fpow(r, pow2(31), p) == 0x554f72a851739e0f74544f484883580f8a339cf887fd7e9d413afdf5707d134int);
    lemma_fpow_pow2_step(r, 31, p);
    assert(fpow(r, pow2(32), p) == 0x4f4fae1524c29441dbfd6794692f803ddcf6d66be90d67e9412a9f3df1d9004int);
}

/// The root of unity squared 64 times.
proof fn lemma_root_chain_1()
    ensures
        fpow(fp_root_of_unity(), pow2(64), fp_modulus()) == 0x56c235baead3486249b2a4a489481f05ae32099ff8786899c46a0d82ccc89aint,
{
    let p = fp_modulus();
    let r = fp_root_of_unity();
    lemma_root_chain_0();
    lemma_fpow_pow2_step(r, 32, p);
    assert(fpow(r, pow2(33), p) == 0x7f5f8017989c8fdbb172d28ca71e55107dbe55709f8e2fcb653c919e49749c9int);
    lemma_fpow_pow2_step(r, 33, p);
    assert(fpow(r, pow2(34), p) == 0x4100303baee9a5842724e80dc3ed49ec0b192bec08b1798d3bd98334c264e97int);
    lemma_fpow_pow2_step(r, 34, p);
    assert(fpow(r, pow2(35), p) == 0x1df4a811feca6510bcf423c95272d01bafe9a1cf805fedfb085758e34fc5356int);
    lemma_fpow_pow2_step(r, 35, p);
    assert(fpow(r, pow2(36), p) == 0x2f187e162cfacb26b399ae073edc56f2d84c4c208f1b99b30e067ccab76a462int);
    lemma_fpow_pow2_step(r, 36, p);
    assert(fpow(r, pow2(37), p) == 0x1b3031446d8156a9ba50868dd68405541ff4e1eac57ece3f9c1e3a3da25c9fdint);
    lemma_fpow_pow2_step(r, 37, p);
    assert(fpow(r, pow2(38), p) == 0x3e0ddb6a81dbffa20b04218bfadddd31edf6a8360cf9603fabab7b8e2ddaacdint);
    lemma_fpow_pow2_step(r, 38, p);
    assert(fpow(r, pow2(39), p) == 0x22a91cea99c704d27da5fbfa2a910a814634b999fa37e684adb59475585a6f0int);
    lemma_fpow_pow2_step(r, 39, p);
    assert(fpow(r, pow2(40), p) == 0x51dbe40b55b06ccba80ffda2ae70678be651dd1cf739179cfe50d9005903be3int);
    lemma_fpow_pow2_step(r, 40, p);
    assert(fpow(r, pow2(41), p) == 0x693e89afa69f0ec576adf96c3a87a889bd7746501d6ee0552d7a9a28866c747int);
    lemma_fpow_pow2_step(r, 41, p);
    assert(fpow(r, pow2(42), p) == 0xd514fc5fd97ea169c1bfcf8ec507265586addb293ad856c002185cc993b168int);
    lemma_fpow_pow2_step(r, 42, p);
    assert(fpow(r, pow2(43), p) == 0x15c5f15022748d28af5a7b79bcbfb57f77e35ad33d0fa70e24b552892d52444int);
    lemma_fpow_pow2_step(r, 43, p);
    assert(fpow(r, pow2(44), p) == 0x78679d63a3ecc280b51a085e58e209451f02e33e2e116095604b398a7dae551int);
    lemma_fpow_pow2_step(r, 44, p);
    assert(fpow(r, pow2(45), p) == 0x53097d8687ba365b60c1f9388b6ecda283122287b18a9d00a1e223e324c6039int);
    lemma_fpow_pow2_step(r, 45, p);
    assert(fpow(r, pow2(46), p) == 0x4ba49f25455acc3a7a2067eaf1bea485824a28560f8f9da8fa8385074d51c41int);
    lemma_fpow_pow2_step(r, 46, p);
    assert(fpow(r, pow2(47), p) == 0x24cfa5880eb8d60c68233b14395b70d86ba0504ee3fa47ece898b0d62d1ba57int);
    lemma_fpow_pow2_step(r, 47, p);
    assert(fpow(r, pow2(48), p) == 0x5cc1cc672a31ef19372af4e145cef8c5ee3ac6f3d52698169b8f4dfcbd4ba67int);
    lemma_fpow_pow2_step(r, 48, p);
    assert(fpow(r, pow2(49), p) == 0xf7af27641b3f3d746ded71bfb061d6b4cbecb77f25beea82a941c973a220ecint);
    lemma_fpow_pow2_step(r, 49, p);
    assert(fpow(r, pow2(50), p) == 0x2b3732472327da653f3c5738dd76882e86db2fb81648127908e645057e7aeedint);
    lemma_fpow_pow2_step(r, 50, p);
    assert(fpow(r, pow2(51), p) == 0x7b9da96c5a7950576f427264afab47a7f3e3f90a6b0481cdb259a579f47496fint);
    lemma_fpow_pow2_step(r, 51, p);
    assert(fpow(r, pow2(52), p) == 0x794ed388971b70e27a7ffeb9e9462dc616a47d66aa9c29a3ca61d9e046b49b2int);
    lemma_fpow_pow2_step(r, 52, p);
    assert(fpow(r, pow2(53), p) == 0x6321b515f80f9920c911679ba6a027da5eb368f06fbef31d958e7261d4c3fecint);
    lemma_fpow_pow2_step(r, 53, p);
    assert(fpow(r, pow2(54), p) == 0x7ea9749876bd8c7c89f660e303b1f5ab24b664abafa937b8e9a6336df253531int);
    lemma_fpow_pow2_step(r, 54, p);
    assert(fpow(r, pow2(55), p) == 0x52eeb982865a07ef78f890e220db8d8ab92043c7e70f7de7a5bead4ecd4c6f7int);
    lemma_fpow_pow2_step(r, 55, p);
    assert(fpow(r, pow2(56), p) == 0x6309a6bc57feea2d228b1f9373f622223097a65768e2cb37ffa095dceb3dffdint);
    lemma_fpow_pow2_step(r, 56, p);
    assert(fpow(r, pow2(57), p) == 0x37c79f6a0992ed5836ffd8094db1b389feefa06d40b6d0f1f4047ca72a30547int);
    lemma_fpow_pow2_step(r, 57, p);
    assert(fpow(r, pow2(58), p) == 0x33dee7825ee51ffced58dd1d596cd51b3a834559493a6280eff7e6aecfb6f72int);
    lemma_fpow_pow2_step(r, 58, p);
    assert(fpow(r, pow2(59), p) == 0x3152c1d4c3842dd703949ee1d0db22695db523fcdecebc92a87c37ab9975332int);
    lemma_fpow_pow2_step(r, 59, p);
    assert(fpow(r, pow2(60), p) == 0xe1919f0c4bc4bebaa2335967f20d255a1787ba915c1c7047892f3b45aa1b58int);
    lemma_fpow_pow2_step(r, 60, p);
    assert(fpow(r, pow2(61), p) == 0x41d6351df0a61c1e78d6c8d6510630c3e0f503757bbca048964ee489ff51bc7int);
    lemma_fpow_pow2_step(r, 61, p);
    assert(fpow(r, pow2(62), p) == 0xe94509d1e22f80dfaceff6d7264573386c232533eb6c0e164f0705acf14a4fint);
    lemma_fpow_pow2_step(r, 62, p);
    assert(fpow(r, pow2(63), p) == 0x397b942bc3442eb1c3223aa5a250a06518db5cdc03af9765a0640f3ba0ea95eint);
    lemma_fpow_pow2_step(r, 63, p);
    assert(fpow(r, pow2(64), p) == 0x56c235baead3486249b2a4a489481f05ae32099ff8786899c46a0d82ccc89aint);
}

/// The root of unity squared 96 times.
proof fn lemma_root_chain_2()
    ensures
        fpow(fp_root_of_unity(), pow2(96), fp_modulus()) == 0x19fa1f95266715130d97769c946ab30040470c480339f392810d2b47dac5d19int,
{
    let p = fp_modulus();
    let r = fp_root_of_unity();
    lemma_root_chain_1();
    lemma_fpow_pow2_step(r, 64, p);
    assert(fpow(r, pow2(65), p) == 0x5ac9917c7afafca64c137b0e338258ebff4af42aff370fd3b5a874072ef3623int);
    lemma_fpow_pow2_step(r, 65, p);
    assert(fpow(r, pow2(66), p) == 0x58fb800a320eca270b7ee88d5142cff73b4f714487e93c98fd405b2c520e3eaint);
    lemma_fpow_pow2_step(r, 66, p);
    assert(fpow(r, pow2(67), p) == 0x367a3c7073c48b4893b09160b21ca7e6190d3f60fef654e07eda692e4b19319int);
    lemma_fpow_pow2_step(r, 67, p);
    assert(fpow(r, pow2(68), p) == 0x419cb7f7f7738114c64d050d7d21267f191fd60374be67a1da52b0aba4060aint);
    lemma_fpow_pow2_step(r, 68, p);
    assert(fpow(r, pow2(69), p) == 0x63039de3f8123775b2fa771cfe9651528fd23fd2a9c6282270aa33a3b50645aint);
    lemma_fpow_pow2_step(r, 69, p);
    assert(fpow(r, pow2(70), p) == 0x46de7bc8594b9246c646fe83be009f94ebe5506682ee17cba523265324228d8int);
    lemma_fpow_pow2_step(r, 70, p);
    assert(fpow(r, pow2(71), p) == 0x2173582bc7171c7782f8b8e9f2008c937c1e6e10b6a1216c80848fd48e9b00int);
    lemma_fpow_pow2_step(r, 71, p);
    assert(fpow(r, pow2(72), p) == 0x4b4757de1261bff7bd468872e4228034dcf39325d4233b0de558d1613ee028cint);
    lemma_fpow_pow2_step(r, 72, p);
    assert(fpow(r, pow2(73), p) == 0x33b74dd5c6620aaf28c83c99c0eea09b1cab3419049fd2d9604491931d9587eint);
    lemma_fpow_pow2_step(r, 73, p);
    assert(fpow(r, pow2(74), p) == 0x7986feaa4074faf4163a40136f0f7914c11ef2660e0b0c87b48a33beb0faad4int);
    lemma_fpow_pow2_step(r, 74, p);
    assert(fpow(r, pow2(75), p) == 0x886d2382e8fa75bbc12961947a00fdd7322ee9d24690f489b394f74decc603int);
    lemma_fpow_pow2_step(r, 75, p);
    assert(fpow(r, pow2(76), p) == 0x16b03c927c81bdd10d4a8d04f0bb72739d57dd675cfaa7ee42676b09583f023int);
    lemma_fpow_pow2_step(r, 76, p);
    assert(fpow(r, pow2(77), p) == 0x8cd288bed4677427e6570a0f7e3e6be380dee704eac3cfd35f3e32a95e3cbfint);
    lemma_fpow_pow2_step(r, 77, p);
    assert(fpow(r, pow2(78), p) == 0x53b143cb298587d09716ad9d2c2590d2e4aea228cfd772f3a6299bd21bd655aint);
    lemma_fpow_pow2_step(r, 78, p);
    assert(fpow(r, pow2(79), p) == 0x4d12da8f698dd8f2c55534386839de74f0f9dc426fc2d5cc4dc0d201fda880fint);
    lemma_fpow_pow2_step(r, 79, p);
    assert(fpow(r, pow2(80), p) == 0x42c8871ea85f2ecbcba6ac1bdb3834a4e2e298fa484586841d351cd9065f8eeint);
    lemma_fpow_pow2_step(r, 80, p);
    assert(fpow(r, pow2(81), p) == 0x4159becba288c0bef00dfa97c13e14560e6c3629ed293403cde2cdda828431eint);
    lemma_fpow_pow2_step(r, 81, p);
    assert(fpow(r, pow2(82), p) == 0xa8a188329f6855437c2fda73696a28da7456d290b17b01dcadfd2955205413int);
    lemma_fpow_pow2_step(r, 82, p);
    assert(fpow(r, pow2(83), p) == 0x25a425bcac574963eb8c3a0e4df06d84a959d5003821aa870b8043288740c3eint);
    lemma_fpow_pow2_step(r, 83, p);
    assert(fpow(r, pow2(84), p) == 0x74ffc4d220fc7db571dbdb926e5d4354cf688cf5ac103a0cbadd8ada5c0dca4int);
    lemma_fpow_pow2_step(r, 84, p);
    assert(fpow(r, pow2(85), p) == 0x5d92ab7822107546e6eef0404badff62ca03fcb86946633c3eebe54443af109int);
    lemma_fpow_pow2_step(r, 85, p);
    assert(fpow(r, pow2(86), p) == 0x50c8e5c3e50dfed7db961b024a4096ed5930255d99f7159962ceb6b1a264ab3int);
    lemma_fpow_pow2_step(r, 86, p);
    assert(fpow(r, pow2(87), p) == 0x6bd0cde316cc0d39a112816deb0740d4f17674dc55f4455b2b074aeb3b67067int);
    lemma_fpow_pow2_step(r, 87, p);
    assert(fpow(r, pow2(88), p) == 0x7913b17c60939127aa46ad086b82de771329f695f3fb72adb150649bea42f88int);
    lemma_fpow_pow2_step(r, 88, p);
    assert(fpow(r, pow2(89), p) == 0x4bef156ed7788c133e089caa12773f25a2e6ea2c78f7dac1fbc42a3358cfcc2int);
    lemma_fpow_pow2_step(r, 89, p);
    assert(fpow(r, pow2(90), p) == 0x10d235f41cf0a6b5d0e7af09fbda5e344370686cf0e1b883c3407a5b11706c9int);
    lemma_fpow_pow2_step(r, 90, p);
    assert(fpow(r, pow2(91), p) == 0xc962b1e5dd28e0e9aa6d504f6267c727cea5605ee6eb03af24ead266d7eb25int);
    lemma_fpow_pow2_step(r, 91, p);
    assert(fpow(r, pow2(92), p) == 0x36026557e531b52198de3470c8661cb0c37dca27bbe087de1462ca639759f39int);
    lemma_fpow_pow2_step(r, 92, p);
    assert(fpow(r, pow2(93), p) == 0x5f950ad12450edbc0746a1dcb004b32cdd8f78093a5a7ffebd2a8b6be27786int);
    lemma_fpow_pow2_step(r, 93, p);
    assert(fpow(r, pow2(94), p) == 0x6680f09add19a7d439bdda4e080e2ec6831da1df132ce21a848b2f255e39071int);
    lemma_fpow_pow2_step(r, 94, p);
    assert(fpow(r, pow2(95), p) == 0x4c3a3a1cf78c5796af2b76d08451e3595490ca02a0fb7bd00e13c8e5e7c57a2int);
    lemma_fpow_pow2_step(r, 95, p);
    assert(fpow(r, pow2(96), p) == 0x19fa1f95266715130d97769c946ab30040470c480339f392810d2b47dac5d19int);
}

/// The root of unity squared 128 times.
proof fn lemma_root_chain_3()
    ensures
        fpow(fp_root_of_unity(), pow2(128), fp_modulus()) == 0x114a27896d1fe4c5be965ba8dd54dbe7d3eef8ba72b1f03b0a6628d72fb8b0dint,
{
    let p = fp_modulus();
    let r = fp_root_of_unity();
    lemma_root_chain_2();
    lemma_fpow_pow2_step(r, 96, p);
    assert(fpow(r, pow2(97), p) == 0x7a8faa16660a91230b003fd0c597ea738ec0386049c46e27f5c626d87086e50int);
    lemma_fpow_pow2_step(r, 97, p);
    assert(fpow(r, pow2(98), p) == 0x240fc41f63c32ab8b51336fa9bed4f51540cf671c841a894ef9fe941c5a4861int);
    lemma_fpow_pow2_step(r, 98, p);
    assert(fpow(r, pow2(99), p) == 0xf1a46e52e5da6d359ddb459767a44a7a969b6235d2dfb668886b35b2bfa1adint);
    lemma_fpow_pow2_step(r, 99, p);
    assert(fpow(r, pow2(100), p) == 0x5e88acbfdd73a36a2bd1d0671a0cdd222c99c9f5eac45882413e92cd772d637int);
    lemma_fpow_pow2_step(r, 100, p);
    assert(fpow(r, pow2(101), p) == 0x1775d669ad23eac9491173a78d7b607a258cfc7dbe5763de43439f14fa405aaint);
    lemma_fpow_pow2_step(r, 101, p);
    assert(fpow(r, pow2(102), p) == 0x6159e4a939b3ef32d89a7778091a28733cd57255d940684ea8cbefdd455f483int);
    lemma_fpow_pow2_step(r, 102, p);
    assert(fpow(r, pow2(103), p) == 0x156d837457eabd3354e3bf711c1d565d4f52ed24664959b7f2e2048c608d246int);
    lemma_fpow_pow2_step(r, 103, p);
    assert(fpow(r, pow2(104), p) == 0x3761a4f5990b523acda84182a069b18d04f1eebbfee24ac4c69edd957269216int);
    lemma_fpow_pow2_step(r, 104, p);
    assert(fpow(r, pow2(105), p) == 0x5b8acbcc282db6f4cc157b472328369db5a705f9fc63b7f6ace9477f4910a60int);
    lemma_fpow_pow2_step(r, 105, p);
    assert(fpow(r, pow2(106), p) == 0x57e48762d9291a47df85fbbf428c4b94b92533d961f56adec982f608770a4beint);
    lemma_fpow_pow2_step(r, 106, p);
    assert(fpow(r, pow2(107), p) == 0x3b22830dbefe5e902102b55e7eed224d777abd5009b84dc384c5e8b91b88258int);
    lemma_fpow_pow2_step(r, 107, p);
    assert(fpow(r, pow2(108), p) == 0x31261d0ab40d7e4700766e17117c44a37c4a361aa690d1f82d06d783a41158aint);
    lemma_fpow_pow2_step(r, 108, p);
    assert(fpow(r, pow2(109), p) == 0x4b0b60385306d47ef09e227bc3ff5f7046910d3bcf85c7ec7cfc1f10bdb6ccint);
    lemma_fpow_pow2_step(r, 109, p);
    assert(fpow(r, pow2(110), p) == 0x6917cab04838ba13f6903d77d71ca2f64c25a072f53041307a4b921312f9080int);
    lemma_fpow_pow2_step(r, 110, p);
    assert(fpow(r, pow2(111), p) == 0x161444d63a080a007f123592544381e0ab73eefc55b1b6829617bad5b7be972int);
    lemma_fpow_pow2_step(r, 111, p);
    assert(fpow(r, pow2(112), p) == 0x6263e1e108eec6a19935b68cc9d9b24d43bcf85471f947e12680395c2ba0f23int);
    lemma_fpow_pow2_step(r, 112, p);
    assert(fpow(r, pow2(113), p) == 0x1c5ef1268c997228b8d87357b0de8803cac8839573b44d78cc1d845a86eec0cint);
    lemma_fpow_pow2_step(r, 113, p);
    assert(fpow(r, pow2(114), p) == 0x5dd79b04d0a367d234d8639dbea4a69bfddf5c559086db15e3197fcb79a92b1int);
    lemma_fpow_pow2_step(r, 114, p);
    assert(fpow(r, pow2(115), p) == 0x2259fe4059cb5f59e4dbd250edf7ead7e0dbb9f1b9f4119733e8df9dc50729int);
    lemma_fpow_pow2_step(r, 115, p);
    assert(fpow(r, pow2(116), p) == 0x69d8f0ce28baf8aeeedaa59b8183a1dc5daaff481ebc11719cd1b4e1824b92cint);
    lemma_fpow_pow2_step(r, 116, p);
    assert(fpow(r, pow2(117), p) == 0x4f42d7f5d57bb23c1e326b312abaef5d0c3e0c67853b30dae703c5bcd9fedeeint);
    lemma_fpow_pow2_step(r, 117, p);
    assert(fpow(r, pow2(118), p) == 0x3d296b9c387a3b5103ec3c817343c48cacd65df92a880891fb24e5e23088fc7int);
    lemma_fpow_pow2_step(r, 118, p);
    assert(fpow(r, pow2(119), p) == 0x7acdde969bc866a8f4c1366fd6391750021a55ba96aeeab8ec7e11316334e1aint);
    lemma_fpow_pow2_step(r, 119, p);
    assert(fpow(r, pow2(120), p) == 0x712858b12d620d861aab25e0d732fdbd3616cb157a1cdecb9d70015f246c901int);
    lemma_fpow_pow2_step(r, 120, p);
    assert(fpow(r, pow2(121), p) == 0x30762f8111f4192b174ad4623d95951709ca6c60430b01766d1942030408cb9int);
    lemma_fpow_pow2_step(r, 121, p);
    assert(fpow(r, pow2(122), p) == 0xb974a1f64289f793bae6507c287f58011853d8318277e80c4e7c07f966d24eint);
    lemma_fpow_pow2_step(r, 122, p);
    assert(fpow(r, pow2(123), p) == 0x160e9529f3d7f85113b6071bb65576e6539ee52f5d787d2ef78ac4c062bd860int);
    lemma_fpow_pow2_step(r, 123, p);
    assert(fpow(r, pow2(124), p) == 0x13336c10fc8b5226f8987e37b429f7100f4a1285fd9edca448fff073e257b43int);
    lemma_fpow_pow2_step(r, 124, p);
    assert(fpow(r, pow2(125), p) == 0x20a1b2f11cbcf62e9ab5d6ff94d9fcd408ae7db08ddfa23909aad7cc7bf8c3int);
    lemma_fpow_pow2_step(r, 125, p);
    assert(fpow(r, pow2(126), p) == 0x3c53bf5826df846ce51a153d0b370a19a58fd99771da991a1826724ed992efcint);
    lemma_fpow_pow2_step(r, 126, p);
    assert(fpow(r, pow2(127), p) == 0x15f291ac9c0fea66ef2c68c44140d6ebf152353b9fa9dcc0256d8e606051d55int);
    lemma_fpow_pow2_step(r, 127, p);
    assert(fpow(r, pow2(128), p) == 0x114a27896d1fe4c5be965ba8dd54dbe7d3eef8ba72b1f03b0a6628d72fb8b0dint);
}

/// The root of unity squared 160 times.
proof fn lemma_root_chain_4()
    ensures
        fpow(fp_root_of_unity(), pow2(160), fp_modulus()) == 0x50732ed0be8ced2fea566de48221e1a719252eb81c43de5c129d0f1d3ce8992int,
{
    let p = fp_modulus();
    let r = fp_root_of_unity();
    lemma_root_chain_3();
    lemma_fpow_pow2_step(r, 128, p);
    assert(fpow(r, pow2(129), p) == 0x592823dba66ff376dcfc3f204e3af6bdfdcae7a37e8a00691874856827caf53int);
    lemma_fpow_pow2_step(r, 129, p);
    assert(fpow(r, pow2(130), p) == 0x3b9eb75bbfb94911160b441d34b0aa6084214302c65c94e8a0b9d028229376dint);
    lemma_fpow_pow2_step(r, 130, p);
    assert(fpow(r, pow2(131), p) == 0x3d70de4258c2f230bfa523a6e93f6f39a76a3127fa7c6c40175aa1c8a08756fint);
    lemma_fpow_pow2_step(r, 131, p);
    assert(fpow(r, pow2(132), p) == 0x759502052fe197918729111f59deccccb704d0fd6fc96251d2b75385f65c188int);
    lemma_fpow_pow2_step(r, 132, p);
    assert(fpow(r, pow2(133), p) == 0x71dd923ea63598d8a3a08baba82a050a566e7556861e2ce7f405a9f641826acint);
    lemma_fpow_pow2_step(r, 133, p);
    assert(fpow(r, pow2(134), p) == 0x395e7fc89f15c6fa8d469d88a1c381707403ad4e3681a159e0392a5120edfabint);
    lemma_fpow_pow2_step(r, 134, p);
    assert(fpow(r, pow2(135), p) == 0xf9ea29c819531b85b1f9bd5d1e2f0e82bc79b987969b48275e6b02f8133966int);
    lemma_fpow_pow2_step(r, 135, p);
    assert(fpow(r, pow2(136), p) == 0x147819bc9a18a1cfd1de1f92c5db3a45327d617477d39beefa724771cc4133cint);
    lemma_fpow_pow2_step(r, 136, p);
    assert(fpow(r, pow2(137), p) == 0x36dd150a43bc89878c40b06cad54cf279d6de4827a1bbb138b8dc2ab6a791f1int);
    lemma_fpow_pow2_step(r, 137, p);
    assert(fpow(r, pow2(138), p) == 0x7ec89264e3003f84f4471d7dfbc1d9736feeeead45eb3f52755d6c2850fb317int);
    lemma_fpow_pow2_step(r, 138, p);
    assert(fpow(r, pow2(139), p) == 0xc447edf93f2b505849ed84ad9302ddbb866a23200d367a2922d09e97bf51cint);
    lemma_fpow_pow2_step(r, 139, p);
    assert(fpow(r, pow2(140), p) == 0x593fcefc33590efc565794d54acb87c99f4d1a0c71ccc0d39bc513194ceaf98int);
    lemma_fpow_pow2_step(r, 140, p);
    assert(fpow(r, pow2(141), p) == 0x59655bca59fd24212862a438a9a38b55582a9ff67455b5dc0cc855634db29f8int);
    lemma_fpow_pow2_step(r, 141, p);
    assert(fpow(r, pow2(142), p) == 0x20895f803549e6077772f7c9ed55af88013dd5e588c8a511527727196934000int);
    lemma_fpow_pow2_step(r, 142, p);
    assert(fpow(r, pow2(143), p) == 0x28d98a5c724e0c5cb05b3daaa13ffe5d4f3510d99cdc2e0be23b78ff11422a0int);
    lemma_fpow_pow2_step(r, 143, p);
    assert(fpow(r, pow2(144), p) == 0x30a2e815081f7d927f73df497923b55d38dbf3801c203cee2bf6c4b68bc148cint);
    lemma_fpow_pow2_step(r, 144, p);
    assert(fpow(r, pow2(145), p) == 0x9214cedbd56ba72ee2fccfb26a3811adfa956c86781a31852ba56e0643771fint);
    lemma_fpow_pow2_step(r, 145, p);
    assert(fpow(r, pow2(146), p) == 0x7f3796f1055c25d713383d44e17ff38978f978534d1905d374012a6cc60fb85int);
    lemma_fpow_pow2_step(r, 146, p);
    assert(fpow(r, pow2(147), p) == 0x5f5cf394a0503588a81d1376b06db5cbcc17ccd153c3d28462b41fadd5ca525int);
    lemma_fpow_pow2_step(r, 147, p);
    assert(fpow(r, pow2(148), p) == 0x41ed5ed684fdb65a4b4eb09a3db81cdcd942bbdbb11fb86b640956fc3111bcbint);
    lemma_fpow_pow2_step(r, 148, p);
    assert(fpow(r, pow2(149), p) == 0x2c4d3fae555c739dbb200719df95366fadfc0509c9f7f04ad7108d3e6fcfdb2int);
    lemma_fpow_pow2_step(r, 149, p);
    assert(fpow(r, pow2(150), p) == 0x39ccdaa2f14e2f1e4f1f15bad75d32a5a48d46994be15ba38eaa186140e5623int);
    lemma_fpow_pow2_step(r, 150, p);
    assert(fpow(r, pow2(151), p) == 0x276097355446d35226f0a071a545f8b2319450aba5762ab5a896ef3b3bd8b7eint);
    lemma_fpow_pow2_step(r, 151, p);
    assert(fpow(r, pow2(152), p) == 0x66d3f613676644e7fd3b59b4d1be159d5c3359362a1db767d13e948f39cd3e8int);
    lemma_fpow_pow2_step(r, 152, p);
    assert(fpow(r, pow2(153), p) == 0x2b73cad6474b8f04f696cbaaceeb7f746aba1bcc7505f356966804cd990d491int);
    lemma_fpow_pow2_step(r, 153, p);
    assert(fpow(r, pow2(154), p) == 0x772cb7af261b6de31150ac13481c4fe3fef7c1b224402352693b83400637050int);
    lemma_fpow_pow2_step(r, 154, p);
    assert(fpow(r, pow2(155), p) == 0x100fff97b116fb92aa7ae1b21254c395c2006273fab8962051093f0622478c4int);
    lemma_fpow_pow2_step(r, 155, p);
    assert(fpow(r, pow2(156), p) == 0x685db923d7f5ae64f24ab196896a559860d442c8aea6ff765a19cf408a616fcint);
    lemma_fpow_pow2_step(r, 156, p);
    assert(fpow(r, pow2(157), p) == 0x2399005571ddc34f58069e2cf93b2e59dca12d8ec14ba21081c31665dd8c4c3int);
    lemma_fpow_pow2_step(r, 157, p);
    assert(fpow(r, pow2(158), p) == 0x7badc4b5d4ec2923c49a6302109fd561feb39d77d671a9d3ccd9d2b76b0a92eint);
    lemma_fpow_pow2_step(r, 158, p);
    assert(fpow(r, pow2(159), p) == 0x166c8e216a6e39cbd6ae1606340df6f95e231acd72200159aae0db32216f1c8int);
    lemma_fpow_pow2_step(r, 159, p);
    assert(fpow(r, pow2(160), p) == 0x50732ed0be8ced2fea566de48221e1a719252eb81c43de5c129d0f1d3ce8992int);
}

/// The root of unity squared 191 times.
proof fn lemma_root_chain_5()
    ensures
        fpow(fp_root_of_unity(), pow2(191), fp_modulus()) == 0x800000000000011000000000000000000000000000000000000000000000000int,
{
    let p = fp_modulus();
    let r = fp_root_of_unity();
    lemma_root_chain_4();
    lemma_fpow_pow2_step(r, 160, p);
    assert(fpow(r, pow2(161), p) == 0x60ac0c4573f0c286fec2239a9565d986a788149b9b9f2c98265b62b5de74517int);
    lemma_fpow_pow2_step(r, 161, p);
    assert(fpow(r, pow2(162), p) == 0x22bde4080fb4ceae566a8e1c04b00b774a6431091af248d209745aaf81f58b4int);
    lemma_fpow_pow2_step(r, 162, p);
    assert(fpow(r, pow2(163), p) == 0x5e7decaf2b876575397e8e2f1ee840cae9c3f9a3a96c59ef42231bbb030713cint);
    lemma_fpow_pow2_step(r, 163, p);
    assert(fpow(r, pow2(164), p) == 0x57a797181c06d8427145cb66056f032751615d8617c5468258e96d2bb6422f9int);
    lemma_fpow_pow2_step(r, 164, p);
    assert(fpow(r, pow2(165), p) == 0x1f05206a93b28f3ce0bc0d9fee282e4102e16b264c12e72eac5be9eea5f81cfint);
    lemma_fpow_pow2_step(r, 165, p);
    assert(fpow(r, pow2(166), p) == 0x3d8d2c79e51225ca679e36b4795d34603148f22aa2da68432609f1d4586dbc3int);
    lemma_fpow_pow2_step(r, 166, p);
    assert(fpow(r, pow2(167), p) == 0x6e8e7695c437763ce9a0d37f5fa46656e3398e68ef9a25ab86b03a44ca88ffcint);
    lemma_fpow_pow2_step(r, 167, p);
    assert(fpow(r, pow2(168), p) == 0x71a47b8174a8e80e643d3ead664f4da1ad6f3beddc0f211f6b1348877156db2int);
    lemma_fpow_pow2_step(r, 168, p);
    assert(fpow(r, pow2(169), p) == 0x1054544afb3df1a81cb2e43cd0be360d7c9c0a1b32a3b2301af11c3b40bdbe8int);
    lemma_fpow_pow2_step(r, 169, p);
    assert(fpow(r, pow2(170), p) == 0x3e4383531eeac7c9822fb108d24a344d841544dd6482f17ead331453e3a2f4bint);
    lemma_fpow_pow2_step(r, 170, p);
    assert(fpow(r, pow2(171), p) == 0x1f4c2bfbeea04f127e46d76ecbf157b030530a6e7c1b2fd006547440e5ffcb8int);
    lemma_fpow_pow2_step(r, 171, p);
    assert(fpow(r, pow2(172), p) == 0x594beafca8a00d9581d81caee93dc85c727c9af7fc4c648e3d47b998574e81fint);
    lemma_fpow_pow2_step(r, 172, p);
    assert(fpow(r, pow2(173), p) == 0x2d25658f71614e33e277fa0223f6558858f5918f973dc221727fce0bffaa9dbint);
    lemma_fpow_pow2_step(r, 173, p);
    assert(fpow(r, pow2(174), p) == 0x4768803ef85256034f67453635f87997ff61841e411ee63ce7b0a8b9745a046int);
    lemma_fpow_pow2_step(r, 174, p);
    assert(fpow(r, pow2(175), p) == 0x6a6f98dc9761a8a0eeadedd3109e6119ec8116ceb7aa1c1a7b1f98c2755bfacint);
    lemma_fpow_pow2_step(r, 175, p);
    assert(fpow(r, pow2(176), p) == 0x1eb6d849978ee09b9d2cd854901fab81646d633f51eddbc80ee9837309d9da9int);
    lemma_fpow_pow2_step(r, 176, p);
    assert(fpow(r, pow2(177), p) == 0x34b5d5d611b72061c3a6e5c8bdbd9b393898bc862ef8a01e3efc75d13a77460int);
    lemma_fpow_pow2_step(r, 177, p);
    assert(fpow(r, pow2(178), p) == 0x393a32b34832dbad650df250f673d7c5edd09f076fc314a3e5a42f0606082e1int);
    lemma_fpow_pow2_step(r, 178, p);
    assert(fpow(r, pow2(179), p) == 0x363d70a6538624f68c341845689b2325c4564ebadf9bf788171e1da3112b02dint);
    lemma_fpow_pow2_step(r, 179, p);
    assert(fpow(r, pow2(180), p) == 0x3d14df6ec477cfc061f4256749ae3ddb5375bc91ee171f9273dbbc7afd187fint);
    lemma_fpow_pow2_step(r, 180, p);
    assert(fpow(r, pow2(181), p) == 0x10f4d91b5d9a6deed5ebbf4a3492c1ed439f57211b54c6c453916920fa30710int);
    lemma_fpow_pow2_step(r, 181, p);
    assert(fpow(r, pow2(182), p) == 0x659d83946a03edd72406af6711825f5653d9e35dc125289a206c054ec89c4f1int);
    lemma_fpow_pow2_step(r, 182, p);
    assert(fpow(r, pow2(183), p) == 0x11d07d97880b4dc0234b46e6d4b9bd4a1f811a9e3bc8e32cc4074a0c13a1d0bint);
    lemma_fpow_pow2_step(r, 183, p);
    assert(fpow(r, pow2(184), p) == 0xc92ecbfd121b58bc7924d5dd51a717c4d78992d0e87cd59f1bc8d7ff0cb347int);
    lemma_fpow_pow2_step(r, 184, p);
    assert(fpow(r, pow2(185), p) == 0xfcad19556f9b8587781ce1b03a097efa6682256f9ddbcfdab65dbdd4af20fint);
    lemma_fpow_pow2_step(r, 185, p);
    assert(fpow(r, pow2(186), p) == 0x128f0fee82b2bb55e869a0710826800d09bd064f9e225ecd6871506b2703765int);
    lemma_fpow_pow2_step(r, 186, p);
    assert(fpow(r, pow2(187), p) == 0x789ad459ecd5c85fcdca219ce6246af26da375d1a8e79812225638f9b48a8abint);
    lemma_fpow_pow2_step(r, 187, p);
    assert(fpow(r, pow2(188), p) == 0x5ec467b88826aba4537602d514425f3b0bdf467bbf302458337c45f6021e539int);
    lemma_fpow_pow2_step(r, 188, p);
    assert(fpow(r, pow2(189), p) == 0x63365fe0de874d9c90adb1e2f9c676e98c62155e4412e873ada5e1dee6feebbint);
    lemma_fpow_pow2_step(r, 189, p);
    assert(fpow(r, pow2(190), p) == 0x625023929a2995b533120664329f8c7c5268e56ac8320da2a616626f41337e3int);
    lemma_fpow_pow2_step(r, 190, p);
    assert(fpow(r, pow2(191), p) == 0x800000000000011000000000000000000000000000000000000000000000000int);
}

/// The limbs of the modulus and of the root of unity have the values they stand for.
proof fn lemma_constants()
    ensures
        limbs_value(FP_MODULUS@) == fp_modulus(),
        limbs_value(FP_ROOT_OF_UNITY@) == fp_root_of_unity(),
        fp_root_of_unity() < fp_modulus(),
{
    lemma_limbs_value_4(FP_MODULUS@);
    lemma_limbs_value_4(FP_ROOT_OF_UNITY@);
}

/// Whether two 256-bit numbers are equal.
fn limbs_equal(a: [u64; 4], b: [u64; 4]) -> (r: bool)
    ensures
        r == (limbs_value(a@) == limbs_value(b@)),
{
    !u256_lt(a, b) && !u256_lt(b, a)
}

impl Fp {
    #[verifier::type_invariant]
    spec fn canonical(self) -> bool {
        limbs_value(self.0@) < fp_modulus()
    }

    /// The limbs of the canonical residue, least significant first.
    pub fn to_limbs(&self) -> (r: [u64; 4])
        ensures
            limbs_value(r@) == self.value(),
    {
        proof {
            use_type_invariant(self);
            lemma_limbs_value_4(self.0@);
            lemma_small_mod(limbs_value(self.0@) as nat, fp_modulus() as nat);
        }
        self.0
    }
}

impl From<u64> for Fp {
    /// The element with the residue `x`.
    fn from(x: u64) -> (r: Self) {
        let limbs: [u64; 4] = [x, 0, 0, 0];
        proof {
            lemma_limbs_value_4(limbs@);
        }
        Fp(limbs)
    }
}

impl vstd::std_specs::convert::FromSpecImpl<u64> for Fp {
    open spec fn obeys_from_spec() -> bool {
        true
    }

    closed spec fn from_spec(x: u64) -> Self {
        Fp([x, 0, 0, 0])
    }
}

impl PrimeField for Fp {
    open spec fn modulus() -> int {
        fp_modulus()
    }

    open spec fn two_adicity() -> nat {
        192
    }

    open spec fn root_of_unity_value() -> int {
        fp_root_of_unity()
    }

    open spec fn repr_width() -> nat {
        32
    }

    closed spec fn value(&self) -> int {
        limbs_value(self.0@) % fp_modulus()
    }

    proof fn lemma_parameters() {
        lemma2_to64();
        lemma_pow2_adds(64, 64);
        lemma_pow2_adds(128, 64);
        assert(pow2(192) == 0x1_0000_0000_0000_0000_0000_0000_0000_0000_0000_0000_0000_0000int);
        assert(pow(256, 8) == 0x1_0000_0000_0000_0000) by {
            reveal_with_fuel(pow, 9);
        }
        lemma_pow_multiplies(256, 8, 4);
        assert(pow(0x1_0000_0000_0000_0000, 4) == crate::wide::two_to_256()) by {
            reveal_with_fuel(pow, 5);
        }
        assert(Self::repr_width() == 32);
        assert(Self::two_adicity() == 192);
        assert(Self::modulus() == fp_modulus());
        assert(Self::root_of_unity_value() == fp_root_of_unity());
        lemma_root_chain_5();
    }

    proof fn lemma_nonzero_is_unit(a: int) {
        crate::field::fp_group::lemma_group_generator();
        assert(Self::modulus() == crate::field::fp_group::group_modulus());
        crate::units::lemma_certified_units(
            crate::field::fp_group::group_generator(),
            crate::field::fp_group::group_modulus(),
            crate::field::fp_group::group_factors(),
            a,
        );
    }

    proof fn lemma_value_bounds(&self) {
    }

    fn zero() -> (r: Self) {
        let limbs: [u64; 4] = [0, 0, 0, 0];
        proof {
            lemma_limbs_value_4(limbs@);
        }
        Fp(limbs)
    }

    fn one() -> (r: Self) {
        let limbs: [u64; 4] = [1, 0, 0, 0];
        proof {
            lemma_limbs_value_4(limbs@);
        }
        Fp(limbs)
    }

    fn from_u64(x: u64) -> (r: Self) {
        let limbs: [u64; 4] = [x, 0, 0, 0];
        proof {
            lemma_limbs_value_4(limbs@);
        }
        Fp(limbs)
    }

    fn s() -> (r: u32) {
        192
    }

    fn root_of_unity() -> (r: Self) {
        proof {
            lemma_constants();
        }
        Fp(FP_ROOT_OF_UNITY)
    }

    fn add(&self, rhs: &Self) -> (r: Self) {
        proof {
            use_type_invariant(self);
            use_type_invariant(rhs);
            lemma_constants();
            lemma_limbs_value_4(self.0@);
            lemma_limbs_value_4(rhs.0@);
            vstd::arithmetic::div_mod::lemma_add_mod_noop(
                limbs_value(self.0@),
                limbs_value(rhs.0@),
                fp_modulus(),
            );
        }
        Fp(u256_rem(u256_add(self.0, rhs.0), FP_MODULUS))
    }

    fn sub(&self, rhs: &Self) -> (r: Self) {
        proof {
            use_type_invariant(self);
            use_type_invariant(rhs);
            lemma_constants();
            lemma_limbs_value_4(self.0@);
            lemma_limbs_value_4(rhs.0@);
            lemma_mod_add_multiples_vanish(
                limbs_value(self.0@) - limbs_value(rhs.0@),
                fp_modulus(),
            );
            vstd::arithmetic::div_mod::lemma_sub_mod_noop(
                limbs_value(self.0@),
                limbs_value(rhs.0@),
                fp_modulus(),
            );
        }
        Fp(u256_rem(u256_add(self.0, u256_sub(FP_MODULUS, rhs.0)), FP_MODULUS))
    }

    fn mul(&self, rhs: &Self) -> (r: Self) {
        proof {
            use_type_invariant(self);
            use_type_invariant(rhs);
            lemma_constants();
            vstd::arithmetic::div_mod::lemma_mul_mod_noop_general(
                limbs_value(self.0@),
                limbs_value(rhs.0@),
                fp_modulus(),
            );
        }
        Fp(u256_mul_mod(self.0, rhs.0, FP_MODULUS))
    }

    fn neg(&self) -> (r: Self) {
        proof {
            use_type_invariant(self);
            lemma_constants();
            lemma_limbs_value_4(self.0@);
            lemma_mod_add_multiples_vanish(-limbs_value(self.0@), fp_modulus());
            vstd::arithmetic::div_mod::lemma_sub_mod_noop(0, limbs_value(self.0@), fp_modulus());
        }
        Fp(u256_rem(u256_sub(FP_MODULUS, self.0), FP_MODULUS))
    }

    fn square(&self) -> (r: Self) {
        self.mul(self)
    }

    fn invert(&self) -> (r: Option<Self>) {
        proof {
            use_type_invariant(self);
            lemma_constants();
            lemma_limbs_value_4(self.0@);
        }
        let ghost p = fp_modulus();
        let ghost a = limbs_value(self.0@);
        let zero: [u64; 4] = [0, 0, 0, 0];
        let one: [u64; 4] = [1, 0, 0, 0];
        let mut r0: [u64; 4] = FP_MODULUS;
        let mut r1: [u64; 4] = self.0;
        let mut t0: [u64; 4] = zero;
        let mut t1: [u64; 4] = one;
        proof {
            lemma_limbs_value_4(zero@);
            lemma_limbs_value_4(one@);
            lemma_small_mod(a as nat, p as nat);
        }
        while !limbs_equal(r1, zero)
            invariant
                p == fp_modulus(),
                a == limbs_value(self.0@),
                0 <= a < p,
                limbs_value(FP_MODULUS@) == p,
                limbs_value(zero@) == 0,
                0 < limbs_value(r0@) <= p,
                0 <= limbs_value(r1@) < p,
                0 <= limbs_value(t0@) < p,
                0 <= limbs_value(t1@) < p,
                (limbs_value(t0@) * a) % p == limbs_value(r0@) % p,
                (limbs_value(t1@) * a) % p == limbs_value(r1@) % p,
                gcd(limbs_value(r0@) as nat, limbs_value(r1@) as nat) == gcd(p as nat, a as nat),
            decreases limbs_value(r1@),
        {
            let (q, r2) = u256_div_mod(r0, r1);
            let qt: [u64; 4] = u256_mul_mod(q, t1, FP_MODULUS);
            proof {
                lemma_limbs_value_4(qt@);
                lemma_limbs_value_4(q@);
                lemma_limbs_value_4(r2@);
                lemma_limbs_value_4(t0@);
                vstd::arithmetic::div_mod::lemma_mod_bound(
                    limbs_value(q@) * limbs_value(t1@),
                    p,
                );
            }
            let t2: [u64; 4] = u256_rem(u256_add(t0, u256_sub(FP_MODULUS, qt)), FP_MODULUS);
            proof {
                let r0v = limbs_value(r0@);
                let r1v = limbs_value(r1@);
                let qv = limbs_value(q@);
                assert(limbs_value(qt@) == fmul(qv, limbs_value(t1@), p));
                lemma_mod_add_multiples_vanish(limbs_value(t0@) - limbs_value(qt@), p);
                assert(limbs_value(t2@) == fsub(limbs_value(t0@), limbs_value(qt@), p));
                lemma_euclid_step(a, p, r0v, r1v, limbs_value(t0@), limbs_value(t1@), qv);
                lemma_fundamental_div_mod(r0v, r1v);
                assert(r0v - qv * r1v == limbs_value(r2@)) by (nonlinear_arith)
                    requires
                        r0v == r1v * qv + limbs_value(r2@),
                ;
                vstd::arithmetic::div_mod::lemma_mod_bound(r0v, r1v);
                vstd::arithmetic::div_mod::lemma_mod_bound(
                    limbs_value(t0@) + (p - limbs_value(qt@)),
                    p,
                );
            }
            r0 = r1;
            r1 = r2;
            t0 = t1;
            t1 = t2;
        }
        if limbs_equal(r0, one) {
            proof {
                let t = limbs_value(t0@);
                lemma_small_mod(1, p as nat);
                assert((a * t) % p == 1) by (nonlinear_arith)
                    requires
                        (t * a) % p == 1,
                ;
                lemma_small_mod(a as nat, p as nat);
                assert(is_inverse(a, t, p));
                lemma_small_mod(t as nat, p as nat);
                assert(a != 0) by {
                    assert(0 * t == 0);
                }
            }
            Some(Fp(t0))
        } else {
            proof {
                lemma_gcd_divides(p as nat, a as nat);
                lemma_common_factor_not_unit(a, p, limbs_value(r0@));
                if a != 0 {
                    Self::lemma_nonzero_is_unit(a);
                }
            }
            None
        }
    }

    fn equals(&self, rhs: &Self) -> (r: bool) {
        proof {
            use_type_invariant(self);
            use_type_invariant(rhs);
            lemma_limbs_value_4(self.0@);
            lemma_limbs_value_4(rhs.0@);
            lemma_small_mod(limbs_value(self.0@) as nat, fp_modulus() as nat);
            lemma_small_mod(limbs_value(rhs.0@) as nat, fp_modulus() as nat);
        }
        limbs_equal(self.0, rhs.0)
    }

    fn is_zero(&self) -> (r: bool) {
        let zero: [u64; 4] = [0, 0, 0, 0];
        proof {
            use_type_invariant(self);
            lemma_limbs_value_4(self.0@);
            lemma_limbs_value_4(zero@);
            lemma_small_mod(limbs_value(self.0@) as nat, fp_modulus() as nat);
        }
        limbs_equal(self.0, zero)
    }

    fn repr_len() -> (r: usize) {
        32
    }

    fn to_repr(&self) -> (r: Vec<u8>) {
        proof {
            use_type_invariant(self);
            lemma_limbs_value_4(self.0@);
            lemma_small_mod(limbs_value(self.0@) as nat, fp_modulus() as nat);
        }
        let bytes: [u8; 32] = u256_to_little_endian(self.0);
        proof {
            crate::arith::lemma_le_bytes_of_value(bytes@);
        }
        slice_to_vec(bytes.as_slice())
    }

    fn from_repr(bytes: &[u8]) -> (r: Option<Self>) {
        if bytes.len() != 32 {
            return None;
        }
        let limbs: [u64; 4] = u256_from_little_endian(bytes);
        proof {
            lemma_constants();
            lemma_le_value_bounds(bytes@);
        }
        if u256_lt(limbs, FP_MODULUS) {
            proof {
                lemma_small_mod(limbs_value(limbs@) as nat, fp_modulus() as nat);
            }
            Some(Fp(limbs))
        } else {
            None
        }
    }

    fn modulus_limbs() -> (r: [u64; 4]) {
        proof {
            lemma_constants();
        }
        FP_MODULUS
    }
}

} // verus!
