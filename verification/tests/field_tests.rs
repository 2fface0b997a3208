use fri_proofs::field::fp::Fp;
use fri_proofs::field::goldilocks::Goldilocks;
use fri_proofs::field::PrimeField;
use fri_proofs::utils::field_element_from_bytes;

const P: u64 = 0xffff_ffff_0000_0001;

fn g(x: u64) -> Goldilocks {
    Goldilocks::from_u64(x)
}

#[test]
fn from_uniform_bytes() {
    let mut one: [u8; 32] = [0; 32];
    one[31] = 0x01;
    let element_one: Fp = field_element_from_bytes(one.as_slice());
    assert_eq!(element_one, Fp::one());

    let max: [u8; 32] = [
        0x08, 0x00, 0x00, 0x00, 0x00, 0x00, 0x00, 0x11, 0x00, 0x00, 0x00, 0x00, 0x00, 0x00, 0x00,
        0x00, 0x00, 0x00, 0x00, 0x00, 0x00, 0x00, 0x00, 0x00, 0x00, 0x00, 0x00, 0x00, 0x00, 0x00,
        0x00, 0x00,
    ];
    let element_max: Fp = field_element_from_bytes(max.as_slice());
    assert_eq!(element_max, Fp::zero().sub(&Fp::one()));

    let wraparound: [u8; 32] = [
        0x08, 0x00, 0x00, 0x00, 0x00, 0x00, 0x00, 0x11, 0x00, 0x00, 0x00, 0x00, 0x00, 0x00, 0x00,
        0x00, 0x00, 0x00, 0x00, 0x00, 0x00, 0x00, 0x00, 0x00, 0x00, 0x00, 0x00, 0x00, 0x00, 0x00,
        0x00, 0x0f,
    ];
    let element_wraparound: Fp = field_element_from_bytes(wraparound.as_slice());
    assert_eq!(element_wraparound, Fp::from(14)); // f - 1 = e
}

#[test]
fn one_encodes_as_a_single_low_byte() {
    assert_eq!(Goldilocks::one().to_repr(), vec![1u8, 0, 0, 0, 0, 0, 0, 0]);
    let mut wide = vec![0u8; 32];
    wide[0] = 1;
    assert_eq!(Fp::one().to_repr(), wide);
    assert_eq!(Goldilocks::repr_len(), 8);
    assert_eq!(Fp::repr_len(), 32);
}

#[test]
fn goldilocks_arithmetic_is_modular() {
    assert_eq!(g(P - 1).add(&g(2)).to_u64(), 1);
    assert_eq!(g(3).sub(&g(5)).to_u64(), P - 2);
    assert_eq!(g(1 << 32).mul(&g(1 << 32)).to_u64(), 0xffff_ffff);
    assert_eq!(g(P - 1).square().to_u64(), 1);
    assert_eq!(g(5).neg().to_u64(), P - 5);
    assert_eq!(g(0).neg().to_u64(), 0);
    assert_eq!(g(P).to_u64(), 0);
    assert_eq!(g(u64::MAX).to_u64(), 0xffff_fffe);
    assert_eq!(g(2).pow(64).to_u64(), 0xffff_ffff);
    assert_eq!(g(7).pow(P - 1).to_u64(), 1);
    assert_eq!(g(7).pow(0).to_u64(), 1);
    assert!(g(9).equals(&g(P + 9)));
    assert!(!g(9).equals(&g(10)));
    assert!(g(P).is_zero());
    assert!(!g(1).is_zero());
}

#[test]
fn goldilocks_inverse() {
    assert_eq!(g(2).invert().unwrap().to_u64(), 9223372034707292161);
    assert_eq!(g(1).invert().unwrap().to_u64(), 1);
    assert!(g(0).invert().is_none());
    let mut x: u64 = 0x1234_5678_9abc_def1;
    for _ in 0..50 {
        x = x.wrapping_mul(6364136223846793005).wrapping_add(1442695040888963407);
        let a = g(x);
        if a.is_zero() {
            continue;
        }
        assert_eq!(a.mul(&a.invert().unwrap()), Goldilocks::one());
    }
}

#[test]
fn goldilocks_root_of_unity_has_order_two_to_the_32() {
    let root = Goldilocks::root_of_unity();
    assert_eq!(Goldilocks::s(), 32);
    assert_eq!(root.square().to_u64(), 12845536442210729893);
    assert_eq!(root.square(), g(3).pow((P - 1) >> 32));
    let mut x = root;
    for _ in 0..31 {
        x = x.square();
    }
    assert_eq!(x.to_u64(), P - 1);
    assert_eq!(x.square().to_u64(), 1);
}

#[test]
fn fp_arithmetic_and_inverse() {
    let minus_one = Fp::zero().sub(&Fp::one());
    assert_eq!(minus_one.to_limbs(), [0, 0, 0, 0x0800000000000011]);
    assert_eq!(minus_one.square(), Fp::one());
    assert_eq!(minus_one.add(&Fp::one()), Fp::zero());
    assert_eq!(minus_one.neg(), Fp::one());
    assert_eq!(Fp::from_u64(6).mul(&Fp::from_u64(7)), Fp::from_u64(42));
    assert_eq!(Fp::from_u64(3).sub(&Fp::from_u64(5)).add(&Fp::from_u64(2)), Fp::zero());
    let three = Fp::from_u64(3);
    assert_eq!(three.mul(&three.invert().unwrap()), Fp::one());
    assert!(Fp::zero().invert().is_none());
    assert_eq!(Fp::from_u64(2).pow(10), Fp::from_u64(1024));
    // 2^251 = -(17 * 2^192 + 1)
    let high = Fp::from_u64(17).mul(&Fp::from_u64(2).pow(192)).add(&Fp::one()).neg();
    assert_eq!(Fp::from_u64(2).pow(251), high);
}

#[test]
fn fp_root_of_unity_has_order_two_to_the_192() {
    assert_eq!(Fp::s(), 192);
    let mut x = Fp::root_of_unity();
    for _ in 0..191 {
        x = x.square();
    }
    assert_eq!(x, Fp::zero().sub(&Fp::one()));
    assert_eq!(x.square(), Fp::one());
}

fn reduce_big_endian(bytes: &[u8]) -> u64 {
    let mut acc: u128 = 0;
    for b in bytes {
        acc = (acc * 256 + *b as u128) % (P as u128);
    }
    acc as u64
}

#[test]
fn bytes_reduce_to_the_canonical_encoding_and_back() {
    let mut state: u64 = 42;
    for round in 0..40 {
        let mut bytes = [0u8; 32];
        for b in bytes.iter_mut() {
            state = state.wrapping_mul(6364136223846793005).wrapping_add(1442695040888963407);
            *b = (state >> 56) as u8;
        }
        let used = &bytes[..(round % 33).min(32)];
        let element: Goldilocks = field_element_from_bytes(used);
        let expected = reduce_big_endian(used);
        assert_eq!(element.to_u64(), expected);
        assert_eq!(element.to_repr(), expected.to_le_bytes().to_vec());
        assert_eq!(Goldilocks::from_repr(&element.to_repr()), Some(element));

        let wide: Fp = field_element_from_bytes(&bytes);
        assert_eq!(Fp::from_repr(&wide.to_repr()), Some(wide));
    }
    let all_ones = [0xffu8; 32];
    let element: Goldilocks = field_element_from_bytes(&all_ones);
    assert_eq!(element.to_u64(), reduce_big_endian(&all_ones));
    let empty: [u8; 0] = [];
    let element: Goldilocks = field_element_from_bytes(&empty);
    assert_eq!(element, Goldilocks::zero());
}

#[test]
fn decoding_rejects_what_is_not_canonical() {
    assert_eq!(Goldilocks::from_repr(&P.to_le_bytes()), None);
    assert_eq!(Goldilocks::from_repr(&u64::MAX.to_le_bytes()), None);
    assert_eq!(Goldilocks::from_repr(&(P - 1).to_le_bytes()), Some(g(P - 1)));
    assert_eq!(Goldilocks::from_repr(&[1, 0, 0, 0]), None);
    assert_eq!(Goldilocks::from_repr(&[0u8; 9]), None);
    let mut modulus = [0u8; 32];
    modulus[0] = 1;
    modulus[24] = 0x11;
    modulus[31] = 0x08;
    assert_eq!(Fp::from_repr(&modulus), None);
    modulus[0] = 0;
    assert_eq!(Fp::from_repr(&modulus), Some(Fp::zero().sub(&Fp::one())));
    assert_eq!(Fp::from_repr(&[0u8; 31]), None);
    assert_eq!(Fp::from_repr(&[0xffu8; 32]), None);
}

#[test]
fn conversion_from_integers_reduces() {
    assert_eq!(Goldilocks::from(5), g(5));
    assert_eq!(Goldilocks::from(P + 5), g(5));
    assert_eq!(Goldilocks::from(u64::MAX).to_u64(), 0xffff_fffe);
    assert_eq!(Fp::from(u64::MAX).to_limbs(), [u64::MAX, 0, 0, 0]);
    assert_eq!(Fp::from(7), Fp::from_u64(7));
}

#[test]
fn modulus_limbs_are_little_endian() {
    assert_eq!(Goldilocks::modulus_limbs(), [P, 0, 0, 0]);
    assert_eq!(Fp::modulus_limbs(), [1, 0, 0, 0x0800000000000011]);
}
