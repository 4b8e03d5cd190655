//! Arithmetic on values of a given number of bits.

use vstd::prelude::*;
use vstd::arithmetic::power2::{lemma2_to64, lemma_pow2_strictly_increases, lemma_pow2_unfold, pow2};

verus! {

/// Two to the power of `bits`, for at most sixty-four bits.
fn power_of_two(bits: usize) -> (r: u128)
    requires
        bits <= 64,
    ensures
        r == pow2(bits as nat),
        0 < r <= 0x1_0000_0000_0000_0000,
{
    let mut r: u128 = 1;
    let mut b: usize = 0;
    proof {
        lemma2_to64();
    }
    while b < bits
        invariant
            b <= bits <= 64,
            r == pow2(b as nat),
            0 < r <= pow2(64),
            pow2(64) == 0x1_0000_0000_0000_0000,
        decreases bits - b,
    {
        proof {
            lemma_pow2_unfold((b + 1) as nat);
            if b + 1 < 64 {
                lemma_pow2_strictly_increases((b + 1) as nat, 64);
            }
        }
        r = r * 2;
        b = b + 1;
    }
    r
}

/// The low `bits` bits of `value`.
pub fn truncate(value: u64, bits: usize) -> (r: u64)
    ensures
        r == value as nat % pow2(bits as nat),
        r < pow2(bits as nat),
{
    if bits >= 64 {
        proof {
            lemma2_to64();
            if bits > 64 {
                lemma_pow2_strictly_increases(64, bits as nat);
            }
            vstd::arithmetic::div_mod::lemma_small_mod(value as nat, pow2(bits as nat));
        }
        value
    } else {
        let limit = power_of_two(bits);
        let wide: u128 = value as u128;
        let low: u128 = wide % limit;
        low as u64
    }
}

/// The number of bits in which values of `bits` bits are kept: values are
/// kept in sixty-four bits at most.
pub open spec fn kept(bits: nat) -> nat {
    if bits < 64 {
        bits
    } else {
        64
    }
}

/// The sum of `a` and `b` in `bits` bits: what does not fit is dropped.
pub fn wrapping_add(a: u64, b: u64, bits: usize) -> (r: u64)
    ensures
        r == (a + b) as nat % pow2(kept(bits as nat)),
        r < pow2(kept(bits as nat)),
{
    let limit = power_of_two(if bits < 64 {
        bits
    } else {
        64
    });
    let sum: u128 = a as u128 + b as u128;
    let low: u128 = sum % limit;
    low as u64
}

} // verus!
