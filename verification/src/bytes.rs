//! Conversions between machine integers and little-endian byte strings.

use vstd::prelude::*;
use vstd::arithmetic::power::pow;
use crate::arith::{le_value, lemma_le_value_bounds, lemma_le_value_push, lemma_le_value_suffix};

verus! {

/// The eight little-endian bytes of `x`.
pub fn le_bytes_from_u64(x: u64) -> (r: Vec<u8>)
    ensures
        r@.len() == 8,
        le_value(r@) == x as int,
{
    let mut out: Vec<u8> = Vec::new();
    let mut rest: u64 = x;
    let mut i: usize = 0;
    let ghost mut weight: int = 1;
    proof {
        reveal(pow);
    }
    while i < 8
        invariant
            i <= 8,
            out@.len() == i,
            weight == pow(256, i as nat),
            weight > 0,
            le_value(out@) + (rest as int) * weight == x as int,
        decreases 8 - i,
    {
        let digit: u8 = (rest % 256) as u8;
        proof {
            lemma_le_value_push(out@, digit);
            reveal(pow);
            assert(pow(256, (i + 1) as nat) == 256 * pow(256, i as nat));
            assert((rest as int) * weight == (digit as int) * weight + ((rest / 256) as int) * (256
                * weight)) by (nonlinear_arith)
                requires
                    rest as int == 256 * ((rest / 256) as int) + digit as int,
            ;
            weight = 256 * weight;
        }
        out.push(digit);
        rest = rest / 256;
        i += 1;
    }
    proof {
        lemma_le_value_bounds(out@);
        assert(pow(256, 8) == 0x1_0000_0000_0000_0000) by {
            reveal_with_fuel(pow, 9);
        }
        assert(rest == 0) by (nonlinear_arith)
            requires
                le_value(out@) + (rest as int) * weight == x as int,
                weight == 0x1_0000_0000_0000_0000,
                0 <= le_value(out@),
                x as int <= 0xffff_ffff_ffff_ffff,
        ;
    }
    out
}

/// The integer that at most eight little-endian bytes encode.
pub fn u64_from_le_bytes(bytes: &[u8]) -> (r: u64)
    requires
        bytes@.len() <= 8,
    ensures
        r as int == le_value(bytes@),
{
    let n: usize = bytes.len();
    let mut acc: u64 = 0;
    let mut k: usize = n;
    proof {
        assert(bytes@.subrange(n as int, n as int) =~= Seq::<u8>::empty());
    }
    while k > 0
        invariant
            k <= n,
            n == bytes@.len(),
            n <= 8,
            acc as int == le_value(bytes@.subrange(k as int, n as int)),
        decreases k,
    {
        proof {
            lemma_le_value_suffix(bytes@, k - 1);
            lemma_le_value_bounds(bytes@.subrange(k as int, n as int));
            lemma_pow256_le(((n - k) as nat), 7);
            assert(pow(256, 7) == 0x1_00_0000_0000_0000) by {
                reveal_with_fuel(pow, 8);
            }
        }
        k -= 1;
        acc = acc * 256 + bytes[k] as u64;
    }
    proof {
        assert(bytes@.subrange(0, n as int) =~= bytes@);
    }
    acc
}

/// Powers of 256 grow with the exponent.
pub proof fn lemma_pow256_le(a: nat, b: nat)
    requires
        a <= b,
    ensures
        pow(256, a) <= pow(256, b),
{
    vstd::arithmetic::power::lemma_pow_increases(256, a, b);
}

} // verus!
