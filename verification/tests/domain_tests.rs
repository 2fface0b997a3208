use fri_proofs::domains::{Domain, SynthesisError};
use fri_proofs::field::fp::Fp;
use fri_proofs::field::goldilocks::Goldilocks;
use fri_proofs::field::PrimeField;

#[test]
fn generator_has_the_order_of_the_domain() {
    for k in 1..=32u32 {
        let size: u64 = 1u64 << k;
        let domain: Domain<Goldilocks> = Domain::new_for_size(size).unwrap();
        assert_eq!(domain.size, size);
        assert_eq!(domain.power_of_two, k as u64);
        assert_eq!(domain.generator.pow(size), Goldilocks::one());
        assert_eq!(domain.generator.pow(size / 2), Goldilocks::one().neg());
    }
    let trivial: Domain<Goldilocks> = Domain::new_for_size(1).unwrap();
    assert_eq!(trivial.size, 1);
    assert_eq!(trivial.power_of_two, 0);
    assert_eq!(trivial.generator, Goldilocks::one());
}

#[test]
fn size_is_rounded_up_to_a_power_of_two() {
    let domain: Domain<Goldilocks> = Domain::new_for_size(5).unwrap();
    assert_eq!(domain.size, 8);
    assert_eq!(domain.power_of_two, 3);
    let same: Domain<Goldilocks> = Domain::new_for_size(8).unwrap();
    assert_eq!(domain.generator, same.generator);
    let zero: Domain<Goldilocks> = Domain::new_for_size(0).unwrap();
    assert_eq!(zero.size, 1);
}

#[test]
fn generator_is_the_root_of_unity_squared_down() {
    let domain: Domain<Goldilocks> = Domain::new_for_size(1 << 30).unwrap();
    assert_eq!(domain.generator, Goldilocks::root_of_unity().square().square());
    let full: Domain<Goldilocks> = Domain::new_for_size(1 << 32).unwrap();
    assert_eq!(full.generator, Goldilocks::root_of_unity());
    // the primitive eighth root of unity
    let eighth: Domain<Goldilocks> = Domain::new_for_size(8).unwrap();
    assert_eq!(eighth.generator.pow(4), Goldilocks::one().neg());
}

#[test]
fn too_large_a_size_is_refused() {
    let r: Result<Domain<Goldilocks>, SynthesisError> = Domain::new_for_size(1 << 33);
    assert!(matches!(r, Err(SynthesisError::SizeExceedsTwoAdicity)));
    let r: Result<Domain<Goldilocks>, SynthesisError> = Domain::new_for_size((1 << 32) + 1);
    assert!(matches!(r, Err(SynthesisError::SizeExceedsTwoAdicity)));
    let r: Result<Domain<Goldilocks>, SynthesisError> = Domain::new_for_size(1 << 63);
    assert!(matches!(r, Err(SynthesisError::SizeExceedsTwoAdicity)));
    let r: Result<Domain<Fp>, SynthesisError> = Domain::new_for_size(1 << 63);
    assert!(r.is_ok());
}

#[test]
fn unchecked_root_agrees_with_the_domain() {
    for size in [1u64, 2, 3, 8, 64, 100, 1 << 20] {
        let domain: Domain<Goldilocks> = Domain::new_for_size(size).unwrap();
        let root: Goldilocks = Domain::<Goldilocks>::root_with_order_unchecked(size);
        assert_eq!(root, domain.generator);
    }
    let beyond: Goldilocks = Domain::<Goldilocks>::root_with_order_unchecked(1 << 40);
    assert_eq!(beyond, Goldilocks::root_of_unity());
    let wide: Fp = Domain::<Fp>::root_with_order_unchecked(16);
    assert_eq!(wide.pow(8), Fp::one().neg());
}
