use fri_proofs::constants::FRI_BLOWUP_FACTOR;
use fri_proofs::domains::Domain;
use fri_proofs::field::fp::Fp;
use fri_proofs::field::goldilocks::Goldilocks;
use fri_proofs::field::PrimeField;
use fri_proofs::fri::evaluation::FriProof;
use fri_proofs::fri::{AuthenticationPath, FriChallenge, FriCommitment};
use fri_proofs::polynomial::Polynomial;

fn g(x: u64) -> Goldilocks {
    Goldilocks::from_u64(x)
}

fn poly(c: &[u64]) -> Polynomial<Goldilocks> {
    Polynomial::from_vec(c.iter().map(|x| g(*x)).collect())
}

fn next(state: &mut u64) -> u64 {
    *state = state.wrapping_mul(6364136223846793005).wrapping_add(1442695040888963407);
    *state ^ (*state >> 29)
}

fn semi_interactive_round(random_r: Goldilocks, random_exponent: u64) {
    let f_x = Polynomial::from_vec(vec![
        Goldilocks::one(),
        Goldilocks::from(5),
        Goldilocks::from(5),
        Goldilocks::one(),
        Goldilocks::from(10),
        Goldilocks::from(9),
        Goldilocks::zero(),
        Goldilocks::from(88),
    ]);
    let target_degree: u64 = f_x.len().next_power_of_two() as u64;

    let _f_commitment = f_x.commitment();

    let w_x = f_x.shift_polynomial(random_r);
    let w_commitment = w_x.commitment();

    let (commitment_vector, polynomial_vector) = w_x.fold_full();

    let base: Goldilocks =
        Domain::<Goldilocks>::root_with_order_unchecked(target_degree * FRI_BLOWUP_FACTOR as u64);
    let random_root_of_unity = base.pow(random_exponent);

    let positive_authentication_path = w_x.authentication_path_for(&random_root_of_unity);
    let negative_authentication_path = w_x.authentication_path_for(&random_root_of_unity.neg());
    let positive_evaluation = w_x.eval_single(&random_root_of_unity);
    let negative_evaluation = w_x.eval_single(&random_root_of_unity.neg());

    assert_eq!(w_commitment.value(), positive_authentication_path.derive_root());
    assert_eq!(w_commitment.value(), negative_authentication_path.derive_root());

    let mut auth_vec: Vec<AuthenticationPath<Goldilocks>> = Vec::new();
    let mut query_vec = Vec::new();
    let mut target = random_root_of_unity.square();
    for i in 0..polynomial_vector.len() - 1 {
        auth_vec.push(polynomial_vector[i].authentication_path_for(&target.neg()));
        query_vec.push(polynomial_vector[i].eval_single(&target.neg()));
        target = target.square();
    }

    assert!(auth_vec.len() == query_vec.len());
    assert!(commitment_vector.len() == polynomial_vector.len());

    let fri_challenge = FriChallenge::new(
        positive_evaluation,
        negative_evaluation,
        positive_authentication_path.clone(),
        negative_authentication_path.clone(),
        auth_vec.clone(),
        query_vec,
        commitment_vector.clone(),
    );

    let should_be_constant_function =
        fri_challenge.query_check(&w_commitment, &random_root_of_unity);

    assert!(should_be_constant_function == commitment_vector.last().unwrap().value());

    assert!(positive_authentication_path.contains_evaluation(&positive_evaluation));
    assert!(negative_authentication_path.contains_evaluation(&negative_evaluation));

    for i in 0..auth_vec.len() {
        assert!(auth_vec[i].contains_evaluation(&fri_challenge.fold_queries()[i]));
        assert_eq!(commitment_vector[i].value(), auth_vec[i].derive_root());
    }
}

#[test]
fn fri_semi_interactive_proof() {
    let mut state: u64 = 0x9e3779b97f4a7c15;
    for _ in 0..8 {
        let random_r = g(next(&mut state));
        let random_exponent = next(&mut state);
        semi_interactive_round(random_r, random_exponent);
    }
}

#[test]
fn fri_noninteractive_proof() {
    let f_x = Polynomial::from_vec(vec![
        Goldilocks::one(),
        Goldilocks::from(5000),
        Goldilocks::from(50),
        Goldilocks::one(),
        Goldilocks::from(10).neg(),
        Goldilocks::from(9).neg(),
        Goldilocks::zero(),
        Goldilocks::from(88),
    ]);

    let stark_proof = FriProof::evaluation_proof(&f_x, None);

    let result = stark_proof.verify();

    assert!(result.is_valid())
}

#[test]
fn proof_at_the_derived_point_is_valid() {
    let p = poly(&[1, 5, 5, 1, 10, 9, 0, 88]);
    assert!(FriProof::evaluation_proof(&p, None).verify().is_valid());
}

#[test]
fn changed_positive_evaluation_is_rejected() {
    let p = poly(&[1, 5, 5, 1, 10, 9, 0, 88]);
    let mut proof = FriProof::evaluation_proof(&p, None);
    proof.fri_challenge.positive_evaluation =
        proof.fri_challenge.positive_evaluation.add(&Goldilocks::one());
    assert!(!proof.verify().is_valid());
}

#[test]
fn proofs_of_small_polynomials_are_valid_at_every_sampled_point() {
    let samples: [&[u64]; 8] = [
        &[1, 0, 0, 0],
        &[0, 0, 0, 1],
        &[1, 2, 3, 4],
        &[7, 0, 5, 0],
        &[1, 0, 0, 0, 0, 0, 0, 0],
        &[0, 0, 0, 0, 0, 0, 0, 1],
        &[3, 1, 4, 1, 5, 9, 2, 6],
        &[0, 18446744069414584320, 0, 2, 0, 0, 9, 0],
    ];
    for coefficients in samples.iter() {
        let p = poly(coefficients);
        for r in 0..10u64 {
            let proof = FriProof::evaluation_proof(&p, Some(g(r)));
            assert!(proof.verify().is_valid());
        }
        let proof = FriProof::evaluation_proof(&p, Some(g(18446744069414584320)));
        assert!(proof.verify().is_valid());
    }
}

#[test]
fn proof_at_a_root_commits_to_the_quotient() {
    // (x - 3)(x^2 + 2x + 5) = x^3 - x^2 - x - 15
    let p = Polynomial::from_vec(vec![g(15).neg(), g(1).neg(), g(1).neg(), g(1)]);
    let r = g(3);
    assert_eq!(p.eval_single(&r), Goldilocks::zero());
    let w = p.shift_polynomial(r);
    assert_eq!(w.coefficients(), vec![g(5), g(2), g(1), g(0)]);
    let proof = FriProof::evaluation_proof(&p, Some(r));
    assert_eq!(proof.w_com.value(), w.commitment().value());
    assert!(proof.verify().is_valid());
}

#[test]
fn proof_is_reproducible() {
    let p = poly(&[1, 5, 5, 1, 10, 9, 0, 88]);
    let first = FriProof::evaluation_proof(&p, Some(g(12345)));
    let second = FriProof::evaluation_proof(&p, Some(g(12345)));
    assert_eq!(first.w_com.value(), second.w_com.value());
    assert_eq!(
        first.fri_challenge.positive_evaluation,
        second.fri_challenge.positive_evaluation
    );
    assert_eq!(
        first.fri_challenge.negative_evaluation,
        second.fri_challenge.negative_evaluation
    );
    assert_eq!(first.fri_challenge.fold_queries, second.fri_challenge.fold_queries);
    for i in 0..first.fri_challenge.commitment_vector.len() {
        assert_eq!(
            first.fri_challenge.commitment_vector[i].value(),
            second.fri_challenge.commitment_vector[i].value()
        );
    }
}

#[test]
fn changed_commitment_byte_is_rejected() {
    let p = poly(&[1, 5, 5, 1, 10, 9, 0, 88]);
    for position in [0usize, 7, 31] {
        let mut proof = FriProof::evaluation_proof(&p, Some(g(2)));
        let mut bytes = *proof.w_com.value().as_bytes();
        bytes[position] ^= 1;
        proof.w_com = FriCommitment::new(fri_proofs::hash::Hash::from_bytes(bytes));
        assert!(!proof.verify().is_valid());
    }
}

#[test]
fn changed_evaluations_are_rejected() {
    let p = poly(&[1, 5, 5, 1, 10, 9, 0, 88]);
    let one = Goldilocks::one();

    let mut proof = FriProof::evaluation_proof(&p, Some(g(2)));
    proof.fri_challenge.negative_evaluation = proof.fri_challenge.negative_evaluation.add(&one);
    assert!(!proof.verify().is_valid());

    let mut proof = FriProof::evaluation_proof(&p, Some(g(2)));
    proof.fri_challenge.fold_queries[0] = proof.fri_challenge.fold_queries[0].add(&one);
    assert!(!proof.verify().is_valid());

    let mut proof = FriProof::evaluation_proof(&p, Some(g(2)));
    let path = &mut proof.fri_challenge.positive_authentication_path;
    path.second_evaluation = path.second_evaluation.add(&one);
    assert!(!proof.verify().is_valid());
}

#[test]
fn changed_sibling_is_rejected() {
    let p = poly(&[1, 5, 5, 1, 10, 9, 0, 88]);
    let honest = FriProof::evaluation_proof(&p, Some(g(2)));
    let depth = honest.fri_challenge.positive_authentication_path.authentication_path.len();
    assert_eq!(depth, 5);
    for level in 0..depth {
        let mut proof = FriProof::evaluation_proof(&p, Some(g(2)));
        let sibling = &mut proof.fri_challenge.positive_authentication_path.authentication_path
            [level];
        let mut bytes = *sibling.hash.as_bytes();
        bytes[level] ^= 0x80;
        sibling.hash = fri_proofs::hash::Hash::from_bytes(bytes);
        assert!(!proof.verify().is_valid());
    }
    let mut proof = FriProof::evaluation_proof(&p, Some(g(2)));
    let sibling = &mut proof.fri_challenge.authentication_vector[0].authentication_path[0];
    sibling.is_first = !sibling.is_first;
    assert!(!proof.verify().is_valid());
}

#[test]
fn proof_has_one_commitment_per_fold() {
    let p = poly(&[1, 5, 5, 1, 10, 9, 0, 88]);
    let proof = FriProof::evaluation_proof(&p, None);
    assert_eq!(proof.fri_challenge.commitment_vector().len(), 3);
    assert_eq!(proof.fri_challenge.fold_queries().len(), 2);
    assert_eq!(proof.fri_challenge.authentication_vector.len(), 2);
    assert_eq!(proof.fri_challenge.positive_authentication_path.authentication_path.len(), 5);
    assert_eq!(proof.fri_challenge.authentication_vector[0].authentication_path.len(), 4);
    assert_eq!(proof.fri_challenge.authentication_vector[1].authentication_path.len(), 3);
}

#[test]
fn shape_of_the_challenge_is_checked() {
    let p = poly(&[1, 5, 5, 1, 10, 9, 0, 88]);
    let mut proof = FriProof::evaluation_proof(&p, None);
    assert!(proof.fri_challenge.is_well_formed());
    proof.fri_challenge.fold_queries.pop();
    assert!(!proof.fri_challenge.is_well_formed());
    let mut proof = FriProof::evaluation_proof(&p, None);
    proof.fri_challenge.commitment_vector.clear();
    assert!(!proof.fri_challenge.is_well_formed());
    let mut proof = FriProof::evaluation_proof(&p, None);
    proof.fri_challenge.authentication_vector.pop();
    assert!(!proof.fri_challenge.is_well_formed());
}

#[test]
fn proof_over_the_wide_field_is_valid() {
    let p: Polynomial<Fp> =
        Polynomial::from_vec([3u64, 1, 4, 1].iter().map(|x| Fp::from(*x)).collect());
    let proof = FriProof::evaluation_proof(&p, Some(Fp::from(7)));
    assert!(proof.verify().is_valid());
    let mut changed = FriProof::evaluation_proof(&p, None);
    assert!(changed.verify().is_valid());
    changed.fri_challenge.negative_evaluation =
        changed.fri_challenge.negative_evaluation.add(&Fp::one());
    assert!(!changed.verify().is_valid());
}
