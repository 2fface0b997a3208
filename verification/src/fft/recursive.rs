//! The transform by direct recursion on the even and odd entries.

use vstd::prelude::*;
use vstd::arithmetic::power::lemma_square_is_pow2;
use vstd::arithmetic::power2::{lemma2_to64, lemma_pow2_pos, lemma_pow2_unfold};
use crate::arith::{
    ceil_log2, fmul, is_power_of_two, lemma_inverse_unique, lemma_log2_pow2,
    lemma_pow2_is_unit, lemma_power_of_two_logs,
};
use crate::fft::{evens, intt, inverse_of, ntt, odds};
use crate::field::{values, PrimeField};

verus! {

/// The transform of `s` with root `g`.
pub fn recursive_fft<F: PrimeField>(s: Vec<F>, g: &F) -> (r: Vec<F>)
    requires
        is_power_of_two(s@.len()),
    ensures
        values(r@) == ntt(values(s@), g.value(), F::modulus()),
        r@.len() == s@.len(),
    decreases s@.len(),
{
    let n: usize = s.len();
    if n == 1 {
        return s;
    }
    let ghost a = values(s@);
    let ghost p = F::modulus();
    let ghost k = ceil_log2(s@.len());
    proof {
        lemma2_to64();
        lemma_power_of_two_logs(s@.len());
        lemma_pow2_unfold(k);
        lemma_pow2_pos((k - 1) as nat);
        lemma_log2_pow2((k - 1) as nat);
    }
    let half: usize = n / 2;
    let mut ev: Vec<F> = Vec::new();
    let mut ov: Vec<F> = Vec::new();
    let mut i: usize = 0;
    while i < half
        invariant
            i <= half,
            half == n / 2,
            n == s@.len(),
            n % 2 == 0,
            a == values(s@),
            ev@.len() == i,
            ov@.len() == i,
            forall|t: int| 0 <= t < i ==> (#[trigger] ev@[t]).value() == a[2 * t],
            forall|t: int| 0 <= t < i ==> (#[trigger] ov@[t]).value() == a[2 * t + 1],
        decreases half - i,
    {
        ev.push(s[2 * i]);
        ov.push(s[2 * i + 1]);
        i += 1;
    }
    proof {
        assert(values(ev@) =~= evens(a));
        assert(values(ov@) =~= odds(a));
        lemma_square_is_pow2(g.value());
    }
    let squared: F = g.pow(2);
    let l: Vec<F> = recursive_fft(ov, &squared);
    let r: Vec<F> = recursive_fft(ev, &squared);
    let mut o: Vec<F> = Vec::new();
    let mut upper: Vec<F> = Vec::new();
    let mut i: usize = 0;
    while i < half
        invariant
            i <= half,
            half == n / 2,
            n == a.len(),
            n % 2 == 0,
            p == F::modulus(),
            l@.len() == half,
            r@.len() == half,
            values(r@) == ntt(evens(a), fmul(g.value(), g.value(), p), p),
            values(l@) == ntt(odds(a), fmul(g.value(), g.value(), p), p),
            o@.len() == i,
            upper@.len() == i,
            forall|t: int|
                0 <= t < i ==> (#[trigger] o@[t]).value() == ntt(a, g.value(), p)[t],
            forall|t: int|
                0 <= t < i ==> (#[trigger] upper@[t]).value() == ntt(a, g.value(), p)[t + half],
        decreases half - i,
    {
        let x: F = r[i];
        let y: F = l[i];
        let yr: F = y.mul(&g.pow(i as u64));
        proof {
            assert(values(r@)[i as int] == x.value());
            assert(values(l@)[i as int] == y.value());
        }
        o.push(x.add(&yr));
        upper.push(x.sub(&yr));
        i += 1;
    }
    let ghost low = o@;
    let ghost high = upper@;
    o.append(&mut upper);
    proof {
        assert(o@ =~= low + high);
        assert(values(o@) =~= ntt(a, g.value(), p));
    }
    o
}

/// The inverse transform of `s` with root `g`.
pub fn recursive_ifft<F: PrimeField>(s: Vec<F>, g: &F) -> (r: Vec<F>)
    requires
        is_power_of_two(s@.len()),
        g.value() != 0,
    ensures
        values(r@) == intt(values(s@), g.value(), F::modulus()),
{
    let n: usize = s.len();
    let ghost a = values(s@);
    let ghost p = F::modulus();
    proof {
        F::lemma_parameters();
        lemma_power_of_two_logs(s@.len());
        lemma_pow2_is_unit(ceil_log2(s@.len()), p);
        vstd::arithmetic::div_mod::lemma_mod_bound(n as int, p);
        crate::field::lemma_unit_iff_nonzero::<F>((n as int) % p);
        g.lemma_value_bounds();
        crate::field::lemma_unit_iff_nonzero::<F>(g.value());
    }
    let invlen: F = F::from_u64(n as u64).invert().unwrap();
    let inverse: F = g.invert().unwrap();
    proof {
        lemma_inverse_unique(g.value(), inverse.value(), inverse_of(g.value(), p), p);
        lemma_inverse_unique(
            (n as int) % p,
            invlen.value(),
            inverse_of((n as int) % p, p),
            p,
        );
    }
    let plain: Vec<F> = recursive_fft(s, &inverse);
    let mut scaled: Vec<F> = Vec::new();
    let mut i: usize = 0;
    while i < n
        invariant
            i <= n,
            plain@.len() == n,
            scaled@.len() == i,
            forall|t: int|
                0 <= t < i ==> (#[trigger] scaled@[t]).value() == fmul(
                    plain@[t].value(),
                    invlen.value(),
                    F::modulus(),
                ),
        decreases n - i,
    {
        scaled.push(plain[i].mul(&invlen));
        i += 1;
    }
    proof {
        assert(values(scaled@) =~= intt(a, g.value(), p));
    }
    scaled
}

} // verus!
