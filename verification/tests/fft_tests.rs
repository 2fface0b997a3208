use fri_proofs::domains::Domain;
use fri_proofs::fft::recursive::{recursive_fft, recursive_ifft};
use fri_proofs::fft::serial::{serial_fft, serial_ifft};
use fri_proofs::field::goldilocks::Goldilocks;
use fri_proofs::field::PrimeField;
use fri_proofs::polynomial::Polynomial;

fn g(x: u64) -> Goldilocks {
    Goldilocks::from_u64(x)
}

fn elements(c: &[u64]) -> Vec<Goldilocks> {
    c.iter().map(|x| g(*x)).collect()
}

fn omega(size: u64) -> Goldilocks {
    Domain::<Goldilocks>::new_for_size(size).unwrap().generator
}

#[test]
fn transform_of_the_unit_impulse_is_all_ones() {
    let mut a = elements(&[1, 0, 0, 0, 0, 0, 0, 0]);
    serial_fft(a.as_mut_slice(), &omega(8), 3);
    assert_eq!(a, elements(&[1, 1, 1, 1, 1, 1, 1, 1]));
}

#[test]
fn transform_of_x_is_the_powers_of_the_root() {
    let w = omega(8);
    let mut a = elements(&[0, 1, 0, 0, 0, 0, 0, 0]);
    serial_fft(a.as_mut_slice(), &w, 3);
    for i in 0..8u64 {
        assert_eq!(a[i as usize], w.pow(i));
    }
    assert_eq!(a[4], Goldilocks::one().neg());
    assert_eq!(a[2].to_u64(), 281474976710656);
}

#[test]
fn transform_evaluates_at_the_powers_of_the_root() {
    for log_n in 0..6u32 {
        let n = 1usize << log_n;
        let coefficients: Vec<Goldilocks> =
            (0..n).map(|i| g((i as u64 + 3) * 0x9e37_79b9_7f4a_7c15)).collect();
        let w = omega(n as u64);
        let mut a = coefficients.clone();
        serial_fft(a.as_mut_slice(), &w, log_n);
        let p = Polynomial::from_vec(coefficients);
        for i in 0..n {
            assert_eq!(a[i], p.eval_single(&w.pow(i as u64)));
        }
    }
}

#[test]
fn inverse_transform_undoes_the_transform() {
    for log_n in 0..7u32 {
        let n = 1usize << log_n;
        let input: Vec<Goldilocks> = (0..n).map(|i| g(i as u64 * i as u64 + 17)).collect();
        let w = omega(n as u64);
        let mut a = input.clone();
        serial_fft(a.as_mut_slice(), &w, log_n);
        serial_ifft(a.as_mut_slice(), &w, log_n);
        assert_eq!(a, input);
    }
}

#[test]
fn transform_is_linear() {
    let w = omega(8);
    let a = elements(&[1, 2, 3, 4, 5, 6, 7, 8]);
    let b = elements(&[18446744069414584320, 0, 5, 1 << 63, 9, 9, 9, 1]);
    let mut sum: Vec<Goldilocks> = a.iter().zip(b.iter()).map(|(x, y)| x.add(y)).collect();
    let mut ta = a.clone();
    let mut tb = b.clone();
    serial_fft(ta.as_mut_slice(), &w, 3);
    serial_fft(tb.as_mut_slice(), &w, 3);
    serial_fft(sum.as_mut_slice(), &w, 3);
    let expected: Vec<Goldilocks> = ta.iter().zip(tb.iter()).map(|(x, y)| x.add(y)).collect();
    assert_eq!(sum, expected);
}

#[test]
fn recursive_transform_agrees_with_the_iterative_one() {
    let w = omega(16);
    let a: Vec<Goldilocks> = (0..16u64).map(|i| g(i * 1000003 + 1)).collect();
    let mut iterative = a.clone();
    serial_fft(iterative.as_mut_slice(), &w, 4);
    assert_eq!(recursive_fft(a.clone(), &w), iterative);
    assert_eq!(recursive_ifft(iterative, &w), a);
    assert_eq!(recursive_fft(elements(&[5]), &w), elements(&[5]));
}

#[test]
fn transform_of_two_entries_is_sum_and_difference() {
    let mut a = elements(&[10, 3]);
    serial_fft(a.as_mut_slice(), &omega(2), 1);
    assert_eq!(a, elements(&[13, 7]));
    let mut single = elements(&[10]);
    serial_fft(single.as_mut_slice(), &omega(1), 0);
    assert_eq!(single, elements(&[10]));
}
