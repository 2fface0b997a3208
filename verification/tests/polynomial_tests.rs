use fri_proofs::domains::Domain;
use fri_proofs::field::goldilocks::Goldilocks;
use fri_proofs::field::PrimeField;
use fri_proofs::polynomial::Polynomial;

const P: u64 = 0xffff_ffff_0000_0001;

fn g(x: u64) -> Goldilocks {
    Goldilocks::from_u64(x)
}

fn poly(c: &[u64]) -> Polynomial<Goldilocks> {
    Polynomial::from_vec(c.iter().map(|x| g(*x)).collect())
}

fn schoolbook(a: &[Goldilocks], b: &[Goldilocks], len: usize) -> Vec<Goldilocks> {
    let mut out = vec![Goldilocks::zero(); len];
    for (i, x) in a.iter().enumerate() {
        for (j, y) in b.iter().enumerate() {
            let term = x.mul(y);
            if !term.is_zero() {
                out[i + j] = out[i + j].add(&term);
            }
        }
    }
    out
}

#[test]
fn evaluation_is_the_sum_of_the_terms() {
    let p = poly(&[1, 5, 5, 1, 10, 9, 0, 88]);
    // 1 + 5*2 + 5*4 + 8 + 10*16 + 9*32 + 88*128
    assert_eq!(p.eval_single(&g(2)).to_u64(), 11751);
    assert_eq!(p.eval_at_naive(&g(2)).to_u64(), 11751);
    assert_eq!(p.eval_single(&g(0)).to_u64(), 1);
    assert_eq!(p.eval_single(&g(1)).to_u64(), 119);
    for r in [3u64, 1 << 40, P - 1, 0x1234_5678_9abc_def0] {
        let x = g(r);
        let mut sum = Goldilocks::zero();
        for (i, c) in p.coefficients().iter().enumerate() {
            sum = sum.add(&c.mul(&x.pow(i as u64)));
        }
        assert_eq!(p.eval_single(&x), sum);
        assert_eq!(p.eval_at_naive(&x), sum);
    }
    assert_eq!(poly(&[7]).eval_single(&g(1000)).to_u64(), 7);
}

#[test]
fn sum_and_difference_keep_the_longer_tail() {
    let a = poly(&[1, 2, 3, 4]);
    let b = poly(&[10, P - 2]);
    assert_eq!(a.clone().add(b.clone()).coefficients(), poly(&[11, 0, 3, 4]).coefficients());
    assert_eq!(b.clone().add(a.clone()).coefficients(), poly(&[11, 0, 3, 4]).coefficients());
    assert_eq!(a.clone().sub(b.clone()).coefficients(), poly(&[P - 9, 4, 3, 4]).coefficients());
    assert_eq!(
        b.clone().sub(a.clone()).coefficients(),
        poly(&[9, P - 4, P - 3, P - 4]).coefficients()
    );
    assert_eq!(a.clone().add(b).len(), 4);
}

#[test]
fn product_through_transforms_is_the_schoolbook_product() {
    let a = poly(&[1, 2, 3, 4]);
    let b = poly(&[5, 6, 7, 8]);
    let product = a.clone().mul(b.clone());
    assert_eq!(product.len(), 16);
    assert_eq!(
        product.coefficients(),
        poly(&[5, 16, 34, 60, 61, 52, 32, 0, 0, 0, 0, 0, 0, 0, 0, 0]).coefficients()
    );
    let c = poly(&[P - 1, 1 << 50, 0, 77, 3, 0, 0, 1]);
    let d = poly(&[9, P - 3]);
    let expected = schoolbook(&c.coefficients(), &d.coefficients(), 16);
    assert_eq!(c.clone().mul(d).coefficients(), expected);
    let squared = schoolbook(&c.coefficients(), &c.coefficients(), 64);
    assert_eq!(c.square().coefficients(), squared);
    assert_eq!(poly(&[3]).mul(poly(&[4])).coefficients(), poly(&[12]).coefficients());
}

#[test]
fn vanishing_polynomial_is_x_to_the_n_minus_one() {
    let v: Polynomial<Goldilocks> = Polynomial::vanishing_polynomial(4);
    assert_eq!(v.coefficients(), poly(&[P - 1, 0, 0, 0, 1, 0, 0, 0]).coefficients());
    let v: Polynomial<Goldilocks> = Polynomial::vanishing_polynomial(1);
    assert_eq!(v.coefficients(), poly(&[P - 1, 1]).coefficients());
    let v: Polynomial<Goldilocks> = Polynomial::vanishing_polynomial(3);
    assert_eq!(v.coefficients(), poly(&[P - 1, 0, 0, 1]).coefficients());
    let w = Domain::<Goldilocks>::new_for_size(4).unwrap().generator;
    let v: Polynomial<Goldilocks> = Polynomial::vanishing_polynomial(4);
    for i in 0..4 {
        assert!(v.eval_single(&w.pow(i)).is_zero());
    }
    assert!(!v.eval_single(&g(2)).is_zero());
}

fn check_division(dividend: &Polynomial<Goldilocks>, divisor: &Polynomial<Goldilocks>) {
    let (q, rem) = dividend.long_division(divisor);
    let mut d = divisor.coefficients();
    while !d.is_empty() && d.last().unwrap().is_zero() {
        d.pop();
    }
    assert!(rem.len() < d.len());
    assert!(rem.is_empty() || !rem.last().unwrap().is_zero());
    let n = dividend.len();
    let mut back = schoolbook(&q.coefficients(), &d, q.len() + d.len() + n);
    for (i, r) in rem.iter().enumerate() {
        back[i] = back[i].add(r);
    }
    for i in 0..back.len() {
        let expected = if i < n {
            dividend.coefficient_at(i)
        } else {
            Goldilocks::zero()
        };
        assert_eq!(back[i], expected);
    }
    if n >= d.len() {
        assert_eq!(q.len(), (n - d.len() + 1).next_power_of_two());
    } else {
        assert_eq!(q.len(), 0);
    }
}

#[test]
fn long_division_by_the_vanishing_polynomial() {
    let p = poly(&[1, 5, 5, 1, 10, 9, 0, 88]);
    let v: Polynomial<Goldilocks> = Polynomial::vanishing_polynomial(4);
    let (q, rem) = p.long_division(&v);
    assert!(rem.len() <= 4);
    // p = (10 + 9x + 88x^3)(x^4 - 1) + (11 + 14x + 5x^2 + 89x^3)
    assert_eq!(q.coefficients(), poly(&[10, 9, 0, 88]).coefficients());
    assert_eq!(rem, poly(&[11, 14, 5, 89]).coefficients());
    check_division(&p, &v);
}

#[test]
fn long_division_satisfies_the_division_identity() {
    check_division(&poly(&[1, 5, 5, 1, 10, 9, 0, 88]), &poly(&[3, 0, 7]));
    check_division(&poly(&[1, 5, 5, 1, 10, 9, 0, 88]), &poly(&[P - 5, 1]));
    check_division(&poly(&[1, 5, 5, 1, 10, 9, 0, 88]), &poly(&[2]));
    check_division(&poly(&[0, 0, 0, 0]), &poly(&[1, 1]));
    check_division(&poly(&[6, 5, 1, 0]), &poly(&[2, 1, 0, 0]));
    check_division(&poly(&[4, 4]), &poly(&[1, 2, 3, 4]));
    check_division(&poly(&[1, 2, 3]), &poly(&[1, 2, 3, 4]));
    let (q, rem) = poly(&[6, 5, 1, 0]).long_division(&poly(&[2, 1, 0, 0]));
    assert_eq!(q.coefficients(), poly(&[3, 1, 0, 0]).coefficients());
    assert!(rem.is_empty());
}

#[test]
fn shorter_dividend_has_the_empty_quotient() {
    let (q, rem) = poly(&[4, 4]).long_division(&poly(&[1, 2, 3, 4]));
    assert_eq!(q.len(), 0);
    assert_eq!(rem, poly(&[4, 4]).coefficients());
    let (q, rem) = poly(&[4, 0]).long_division(&poly(&[1, 2, 3]));
    assert_eq!(q.len(), 0);
    assert_eq!(rem, poly(&[4]).coefficients());
}

#[test]
fn shifted_polynomial_times_the_linear_factor_gives_the_polynomial_back() {
    let p = poly(&[1, 5, 5, 1, 10, 9, 0, 88]);
    for r in [0u64, 1, 2, P - 1, 0xdead_beef_0000_0001] {
        let r = g(r);
        let w = p.shift_polynomial(r);
        assert_eq!(w.len(), 8);
        let linear = vec![r.neg(), Goldilocks::one()];
        let mut back = schoolbook(&w.coefficients(), &linear, 9);
        back[0] = back[0].add(&p.eval_single(&r));
        assert!(back[8].is_zero());
        assert_eq!(&back[..8], p.coefficients().as_slice());
    }
    let w = poly(&[1, 5, 5, 1, 10, 9, 0, 88]).shift_polynomial(g(2));
    assert_eq!(w.coefficients(), poly(&[5875, 2935, 1465, 732, 361, 176, 88, 0]).coefficients());
    assert_eq!(poly(&[5, 1]).shift_polynomial(g(3)).coefficients(), poly(&[1]).coefficients());
    assert_eq!(poly(&[5]).shift_polynomial(g(3)).len(), 0);
}

#[test]
fn constants_are_added_and_subtracted_at_the_constant_term() {
    let p = poly(&[1, 5, 5, 1]);
    assert_eq!(p.sub_constant(g(3)).coefficients(), poly(&[P - 2, 5, 5, 1]).coefficients());
    let mut q = poly(&[P - 1, 5]);
    q.add_constant(g(3));
    assert_eq!(q.coefficients(), poly(&[2, 5]).coefficients());
}

#[test]
fn trailing_zeros_are_popped_and_the_length_padded() {
    let mut p = poly(&[1, 2, 3, 0, 0, 0, 0, 0]);
    p.pop_zeros();
    assert_eq!(p.coefficients(), poly(&[1, 2, 3, 0]).coefficients());
    let mut p = poly(&[1, 2, 3, 4, 5, 0]);
    p.pop_zeros();
    assert_eq!(p.coefficients(), poly(&[1, 2, 3, 4, 5, 0, 0, 0]).coefficients());
    let mut p = poly(&[1, 2, 0, 0]);
    p.pop_zeros();
    assert_eq!(p.coefficients(), poly(&[1, 2]).coefficients());
    let mut p = poly(&[0, 0, 0, 0]);
    p.pop_zeros();
    assert_eq!(p.coefficients(), poly(&[0]).coefficients());
    let mut p = poly(&[1, 2, 3]);
    p.pad_to_base(3);
    assert_eq!(p.coefficients(), poly(&[1, 2, 3, 0, 0, 0, 0, 0]).coefficients());
}

#[test]
fn accessors_report_the_vector() {
    let p = poly(&[1, 2, 3, 4, 5]);
    assert_eq!(p.len(), 5);
    assert_eq!(p.log_n(), 3);
    assert_eq!(poly(&[1, 2, 3, 4]).log_n(), 2);
    assert_eq!(poly(&[1]).log_n(), 0);
    assert_eq!(p.leading_coefficient().to_u64(), 5);
    assert_eq!(p.coefficient_at(1).to_u64(), 2);
    let q: Polynomial<Goldilocks> = Polynomial::from_coefficients(p.coefficients());
    assert_eq!(q.coefficients(), p.coefficients());
}

#[test]
fn division_through_transforms_recovers_the_quotient() {
    // (x - 3)(x + 5) = x^2 + 2x - 15, divided by x - 3
    let dividend = poly(&[P - 15, 2, 1, 0]);
    let divisor = poly(&[P - 3, 1]);
    let quotient = dividend.divide_fft(&divisor);
    assert_eq!(quotient.coefficients(), poly(&[5, 1]).coefficients());
    // (x^2 + 1)(x + 2) = x^3 + 2x^2 + x + 2, divided by x + 2
    let dividend = poly(&[2, 1, 2, 1]);
    let divisor = poly(&[2, 1, 0, 0]);
    assert_eq!(dividend.divide_fft(&divisor).coefficients(), poly(&[1, 0, 1]).coefficients());
}

#[test]
fn divisor_polynomial_vanishes_on_the_subgroup() {
    let d: Polynomial<Goldilocks> = Polynomial::divisor_polynomial(4);
    assert_eq!(d.coefficients(), poly(&[P - 1, 0, 0, 0, 1, 0, 0, 0]).coefficients());
    let d: Polynomial<Goldilocks> = Polynomial::divisor_polynomial(2);
    assert_eq!(d.coefficients(), poly(&[P - 1, 0, 1, 0]).coefficients());
    let d: Polynomial<Goldilocks> = Polynomial::divisor_polynomial(1);
    assert_eq!(d.coefficients(), poly(&[P - 1, 1]).coefficients());
}
