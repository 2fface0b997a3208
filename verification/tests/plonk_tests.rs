use fri_proofs::field::goldilocks::Goldilocks;
use fri_proofs::field::PrimeField;
use fri_proofs::fri::evaluation::FriProof;
use fri_proofs::fri::VerificationResult;
use fri_proofs::plonk::{
    Evaluation, PermutationCheckProof, PrescribedPermutationCheckProof, ProductCheckProof,
    RationalProductCheckProof, ZeroTestProof,
};
use fri_proofs::polynomial::Polynomial;

const P: u64 = 0xffff_ffff_0000_0001;

fn g(x: u64) -> Goldilocks {
    Goldilocks::from_u64(x)
}

fn poly(c: &[u64]) -> Polynomial<Goldilocks> {
    Polynomial::from_vec(c.iter().map(|x| g(*x)).collect())
}

fn claim(value: u64) -> Evaluation<Goldilocks> {
    let p = poly(&[1, 5, 5, 1, 10, 9, 0, 88]);
    Evaluation::new(g(value), FriProof::evaluation_proof(&p, Some(g(value))))
}

fn broken_claim(value: u64) -> Evaluation<Goldilocks> {
    let mut e = claim(value);
    e.eval_proof.fri_challenge.positive_evaluation =
        e.eval_proof.fri_challenge.positive_evaluation.add(&Goldilocks::one());
    e
}

#[test]
fn evaluation_checks_its_proof() {
    assert_eq!(claim(3).check(), VerificationResult::ValidProof);
    assert_eq!(claim(3).evaluation(), g(3));
    assert_eq!(broken_claim(3).check(), VerificationResult::InvalidProof);
    assert!(VerificationResult::ValidProof.is_valid());
    assert!(!VerificationResult::InvalidProof.is_valid());
}

#[test]
fn zero_test_with_the_unit_divisor_is_valid() {
    let f = poly(&[1, 5, 5, 1, 10, 9, 0, 88]);
    let proof = f.zero_test(&poly(&[1]));
    assert_eq!(proof.f_r.evaluation(), proof.q_r.evaluation());
    assert!(proof.verify().is_valid());
}

#[test]
fn zero_test_opens_the_polynomial_and_the_quotient_at_the_challenge() {
    // f = (x^2 - 1)(x^3 + 2)
    let f = poly(&[P - 2, 0, 2, P - 1, 0, 1, 0, 0]);
    let z = poly(&[P - 1, 0, 1, 0]);
    let (q, rem) = f.long_division(&z);
    assert!(rem.is_empty());
    assert_eq!(q.coefficients(), poly(&[2, 0, 0, 1, 0, 0, 0, 0]).coefficients());
    let proof = f.zero_test(&z);
    let r = q.commitment().interpret_as_element();
    assert_eq!(proof.f_r.evaluation(), f.eval_single(&r));
    assert_eq!(proof.q_r.evaluation(), q.eval_single(&r));
    assert!(proof.f_r.check().is_valid());
    assert!(proof.q_r.check().is_valid());
    // the verifier takes the vanishing polynomial to be one at the challenge
    assert_eq!(proof.f_r.evaluation(), proof.q_r.evaluation().mul(&r.square().sub(&g(1))));
    assert!(!proof.verify().is_valid());
}

#[test]
fn zero_test_verdicts() {
    assert!(ZeroTestProof::new(claim(3), claim(3)).verify().is_valid());
    assert!(!ZeroTestProof::new(claim(3), claim(4)).verify().is_valid());
    assert!(!ZeroTestProof::new(broken_claim(3), claim(3)).verify().is_valid());
    assert!(!ZeroTestProof::new(claim(3), broken_claim(3)).verify().is_valid());
}

#[test]
fn product_check_verdicts() {
    // t(wr) - t(r) f(wr) = q(r): 17 - 3 * 5 = 2
    let valid = ProductCheckProof::new(claim(1), claim(3), claim(17), claim(2), claim(5));
    assert!(valid.verify().is_valid());
    let wrong_end = ProductCheckProof::new(claim(2), claim(3), claim(17), claim(2), claim(5));
    assert!(!wrong_end.verify().is_valid());
    let wrong_sum = ProductCheckProof::new(claim(1), claim(3), claim(17), claim(3), claim(5));
    assert!(!wrong_sum.verify().is_valid());
    let bad = ProductCheckProof::new(claim(1), claim(3), claim(17), claim(2), broken_claim(5));
    assert!(!bad.verify().is_valid());
}

#[test]
fn rational_product_check_verdicts() {
    // t(wr) g(wr) - t(r) f(wr) = q(r): 4 * 7 - 3 * 5 = 13
    let valid =
        RationalProductCheckProof::new(claim(1), claim(3), claim(4), claim(13), claim(7), claim(5));
    assert!(valid.verify().is_valid());
    let wrong =
        RationalProductCheckProof::new(claim(1), claim(3), claim(4), claim(12), claim(7), claim(5));
    assert!(!wrong.verify().is_valid());
    let bad = RationalProductCheckProof::new(
        claim(1),
        claim(3),
        claim(4),
        claim(13),
        broken_claim(7),
        claim(5),
    );
    assert!(!bad.verify().is_valid());
}

#[test]
fn permutation_check_verdicts() {
    let f = poly(&[1, 5, 5, 1, 10, 9, 0, 88]);
    let com = f.commitment();
    let r = com.interpret_as_element();
    // t(wr) (r - g(wr)) - t(r) (r - f(wr)) = q(r) with t(wr) = t(r) = 1, g(wr) = 7, f(wr) = 5
    let q = r.sub(&g(7)).sub(&r.sub(&g(5)));
    assert_eq!(q.to_u64(), P - 2);
    let valid = PermutationCheckProof::new(
        com.clone(),
        claim(1),
        claim(1),
        claim(1),
        claim(P - 2),
        claim(7),
        claim(5),
    );
    assert!(valid.verify().is_valid());
    let wrong = PermutationCheckProof::new(
        com,
        claim(1),
        claim(1),
        claim(1),
        claim(P - 3),
        claim(7),
        claim(5),
    );
    assert!(!wrong.verify().is_valid());
}

#[test]
fn prescribed_permutation_check_verdicts() {
    let f = poly(&[1, 5, 5, 1, 10, 9, 0, 88]);
    let h = poly(&[2, 7, 1, 8]);
    let f_com = f.commitment();
    let g_com = h.commitment();
    let r = f_com.interpret_as_element();
    let s = g_com.interpret_as_element();
    // with t(wr) = t(r) = 1: q(r) = (r - s - g(wr)) - (r - s w(wr) - f(wr))
    let w_wr = g(3);
    let f_wr = g(5);
    let g_wr = g(7);
    let left = r.sub(&s).sub(&g_wr);
    let right = r.sub(&s.mul(&w_wr)).sub(&f_wr);
    let q = left.sub(&right);
    let valid = PrescribedPermutationCheckProof::new(
        f_com.clone(),
        g_com.clone(),
        claim(1),
        claim(1),
        claim(1),
        claim(q.to_u64()),
        claim(5),
        claim(7),
        claim(3),
    );
    assert!(valid.verify().is_valid());
    let wrong = PrescribedPermutationCheckProof::new(
        f_com,
        g_com,
        claim(1),
        claim(1),
        claim(1),
        claim(q.add(&g(1)).to_u64()),
        claim(5),
        claim(7),
        claim(3),
    );
    assert!(!wrong.verify().is_valid());
}
