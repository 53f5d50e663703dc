//! Integers as double-precision numbers.
use vstd::arithmetic::power2::{
    lemma2_to64, lemma2_to64_rest, lemma_pow2_strictly_increases, lemma_pow2_unfold, pow2,
};
use vstd::prelude::*;
use crate::value::Float;

verus! {

/// `n` over `d`, rounded to the nearest integer, and to the even one of two that are as near.
pub open spec fn rounded(n: nat, d: nat) -> nat {
    let down = n / d;
    let rest = n % d;
    if 2 * rest > d || (2 * rest == d && down % 2 == 1) {
        down + 1
    } else {
        down
    }
}

/// The bit pattern of the number of 53 binary digits `m`, times two to the power of `k`: the sum
/// carries into the exponent where `m` is one more than the largest.
pub open spec fn packed(m: nat, k: int) -> int {
    (k + 1074) * 0x10_0000_0000_0000 + m
}

/// The bit pattern of `m` times two to the power of `k`, for a number that 53 binary digits hold.
pub open spec fn widened(m: nat, k: int) -> int
    decreases 0x20_0000_0000_0000 - m,
{
    if 0 < m < 0x10_0000_0000_0000 {
        widened(2 * m, k - 1)
    } else {
        packed(m, k)
    }
}

/// The bit pattern of the number nearest to `n` among the multiples of `d`, which is two to the
/// power of `k`, or of a larger power where `n` is too many of them for 53 binary digits.
pub open spec fn narrowed(n: nat, d: nat, k: int) -> int
    decreases n - d,
{
    if d > 0 && n >= 0x20_0000_0000_0000 * d {
        narrowed(n, 2 * d, k + 1)
    } else {
        packed(rounded(n, d), k)
    }
}

/// The bit pattern of the double-precision number nearest to `n`; of two that are as near, that
/// of the one with an even last digit.
pub open spec fn natural_bits(n: nat) -> int {
    if n == 0 {
        0
    } else if n < 0x20_0000_0000_0000 {
        widened(n, 0)
    } else {
        narrowed(n, 1, 0)
    }
}

/// The bit pattern of the double-precision number nearest to `i`.
pub open spec fn whole_bits(i: int) -> int {
    if i < 0 {
        0x8000_0000_0000_0000 + natural_bits((-i) as nat)
    } else {
        natural_bits(i as nat)
    }
}

/// What is at least a power of two, and below a larger one, bounds the exponent.
proof fn lemma_exponent(m: nat, k: nat, top: nat)
    requires
        pow2(k) <= m < pow2(top),
    ensures
        k < top,
{
    if top < k {
        lemma_pow2_strictly_increases(top, k);
    }
}

/// The double-precision number nearest to `n`.
pub fn float_of_natural(n: u64) -> (r: Float)
    ensures
        r.bits == natural_bits(n as nat),
        r.bits < 0x8000_0000_0000_0000,
{
    if n == 0 {
        return Float { bits: 0 };
    }
    if n < 0x20_0000_0000_0000 {
        proof {
            lemma2_to64();
            lemma2_to64_rest();
        }
        let mut m: u64 = n;
        let mut exponent: u64 = 1074;
        while m < 0x10_0000_0000_0000
            invariant
                0 < m < 0x20_0000_0000_0000,
                exponent <= 1074,
                pow2((1074 - exponent) as nat) <= m,
                pow2(53) == 0x20_0000_0000_0000,
                widened(n as nat, 0) == widened(m as nat, exponent - 1074),
            decreases 0x20_0000_0000_0000 - m,
        {
            proof {
                lemma_exponent(m as nat, (1074 - exponent) as nat, 53);
                lemma_pow2_unfold((1075 - exponent) as nat);
            }
            m = 2 * m;
            exponent = exponent - 1;
        }
        Float { bits: exponent * 0x10_0000_0000_0000 + m }
    } else {
        proof {
            lemma2_to64();
        }
        let mut d: u64 = 1;
        let mut exponent: u64 = 1074;
        while n as u128 >= 0x20_0000_0000_0000u128 * d as u128
            invariant
                0 < d < 4096,
                1074 <= exponent,
                pow2((exponent - 1074) as nat) <= d,
                pow2(12) == 4096,
                narrowed(n as nat, 1, 0) == narrowed(n as nat, d as nat, exponent - 1074),
            decreases n - d,
        {
            proof {
                lemma_exponent(d as nat, (exponent - 1074) as nat, 12);
                lemma_pow2_unfold((exponent - 1073) as nat);
            }
            d = 2 * d;
            exponent = exponent + 1;
        }
        proof {
            lemma_exponent(d as nat, (exponent - 1074) as nat, 12);
            assert(n / d < 0x20_0000_0000_0000) by (nonlinear_arith)
                requires
                    0 < d,
                    n < 0x20_0000_0000_0000 * d,
            ;
        }
        let down: u64 = n / d;
        let rest: u64 = n % d;
        let up: u64 = if 2 * rest > d || (2 * rest == d && down % 2 == 1) {
            1
        } else {
            0
        };
        Float { bits: exponent * 0x10_0000_0000_0000 + (down + up) }
    }
}

/// The double-precision number nearest to `i`.
pub fn float_of_whole(i: i64) -> (r: Float)
    ensures
        r.bits == whole_bits(i as int),
{
    if i < 0 {
        let magnitude: u64 = (-(i as i128)) as u64;
        Float { bits: 0x8000_0000_0000_0000 + float_of_natural(magnitude).bits }
    } else {
        float_of_natural(i as u64)
    }
}

} // verus!
