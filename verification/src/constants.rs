//! The fixed parameters of the commitment scheme.

use vstd::prelude::*;

verus! {

/// The ratio between the size of the evaluation domain and the length of the polynomial.
pub const FRI_BLOWUP_FACTOR: usize = 8;

/// The binary logarithm of the blow-up factor.
pub const FRI_BLOWUP_LOG: usize = 3;

/// The digest of all zero bytes.
pub const ZERO_BYTES: [u8; 32] = [
    0, 0, 0, 0, 0, 0, 0, 0, 0, 0, 0, 0, 0, 0, 0, 0, 0, 0, 0, 0, 0, 0, 0, 0, 0, 0, 0, 0, 0, 0, 0, 0,
];

} // verus!
