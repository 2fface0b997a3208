//! Turning digests into field elements.

use vstd::prelude::*;
use vstd::arithmetic::div_mod::lemma_mod_bound;
use vstd::slice::slice_subrange;
use crate::arith::{be_value, le_value, lemma_le_value_low_digits};
use crate::field::{encoding, PrimeField};
use crate::wide::{u256_from_big_endian, u256_rem, u256_to_little_endian};

verus! {

/// The number that a byte string reduces to is a canonical residue; its encoding has the
/// field's width and decodes to that number again.
pub proof fn lemma_reduced_bytes_round_trip<F: PrimeField>(bytes: Seq<u8>)
    ensures
        ({
            let v = be_value(bytes) % F::modulus();
            &&& 0 <= v < F::modulus()
            &&& encoding::<F>(v).len() == F::repr_width()
            &&& le_value(encoding::<F>(v)) == v
        }),
{
    F::lemma_parameters();
    lemma_mod_bound(be_value(bytes), F::modulus());
    let v = be_value(bytes) % F::modulus();
    crate::arith::lemma_le_value_of_bytes(v, F::repr_width());
}

/// The field element that a big-endian byte string of at most 32 bytes reduces to: the
/// 256-bit number is taken modulo the characteristic, and the low bytes of the residue are
/// decoded as a canonical encoding.
pub fn field_element_from_bytes<F: PrimeField>(bytes: &[u8]) -> (r: F)
    requires
        bytes@.len() <= 32,
    ensures
        r.value() == be_value(bytes@) % F::modulus(),
{
    proof {
        F::lemma_parameters();
    }
    let repr_size: usize = F::repr_len();
    let modulus: [u64; 4] = F::modulus_limbs();
    let reduced: [u64; 4] = u256_rem(u256_from_big_endian(bytes), modulus);
    let parsed_bytes: [u8; 32] = u256_to_little_endian(reduced);
    proof {
        lemma_mod_bound(be_value(bytes@), F::modulus());
        lemma_le_value_low_digits(parsed_bytes@, repr_size as int);
    }
    let copy: &[u8] = slice_subrange(parsed_bytes.as_slice(), 0, repr_size);
    F::from_repr(copy).unwrap()
}

} // verus!
