//! Laws of integers as double-precision numbers.
use vstd::arithmetic::div_mod::lemma_fundamental_div_mod;
use vstd::arithmetic::power2::{
    lemma2_to64, lemma2_to64_rest, lemma_pow2_adds, lemma_pow2_pos, lemma_pow2_strictly_increases,
    lemma_pow2_unfold, pow2,
};
use vstd::prelude::*;
use crate::number::{narrowed, natural_bits, packed, rounded, whole_bits, widened};

verus! {

/// The exponent in a bit pattern, which counts from 1075 below zero.
pub open spec fn exponent(bits: int) -> int {
    bits / 0x10_0000_0000_0000
}

/// The significant digits in a bit pattern, as an integer.
pub open spec fn significand(bits: int) -> int {
    0x10_0000_0000_0000 + bits % 0x10_0000_0000_0000
}

proof fn lemma_packed(m: nat, k: int)
    requires
        0x10_0000_0000_0000 <= m <= 0x20_0000_0000_0000,
        k >= -1074,
    ensures
        m < 0x20_0000_0000_0000 ==> exponent(packed(m, k)) == k + 1075 && significand(
            packed(m, k),
        ) == m,
        m == 0x20_0000_0000_0000 ==> exponent(packed(m, k)) == k + 1076 && significand(
            packed(m, k),
        ) == 0x10_0000_0000_0000,
{
}

proof fn lemma_widened(m: nat, k: int)
    requires
        0 < m < 0x20_0000_0000_0000,
        -60 <= k <= 0,
        pow2((-k) as nat) <= m,
    ensures
        exponent(widened(m, k)) <= k + 1075,
        significand(widened(m, k)) == m * pow2((k + 1075 - exponent(widened(m, k))) as nat),
        0 <= widened(m, k) < 0x8000_0000_0000_0000,
    decreases 0x20_0000_0000_0000 - m,
{
    lemma2_to64();
    lemma2_to64_rest();
    if m >= 0x10_0000_0000_0000 {
        lemma_packed(m, k);
        assert(m * pow2(0) == m) by (nonlinear_arith)
            requires
                pow2(0) == 1,
        ;
    } else {
        lemma_pow2_unfold((1 - k) as nat);
        if k == -60 {
            assert(pow2(60) > 0x20_0000_0000_0000);
        }
        lemma_widened(2 * m, k - 1);
        let e = exponent(widened(m, k));
        let up = (k + 1075 - e) as nat;
        let less = (k - 1 + 1075 - e) as nat;
        lemma_pow2_unfold(up);
        assert(m * pow2(up) == (2 * m) * pow2(less)) by (nonlinear_arith)
            requires
                pow2(up) == 2 * pow2(less),
        ;
    }
}

/// A number that 53 binary digits hold is held exactly: its significant digits, times two to the
/// power of its exponent, are the number. Zero has the bit pattern of zero.
pub proof fn small_numbers_are_exact(n: nat)
    requires
        n < 0x20_0000_0000_0000,
    ensures
        n == 0 ==> natural_bits(n) == 0,
        n > 0 ==> {
            let bits = natural_bits(n);
            &&& 0 <= bits < 0x8000_0000_0000_0000
            &&& exponent(bits) <= 1075
            &&& significand(bits) == n * pow2((1075 - exponent(bits)) as nat)
        },
{
    lemma2_to64();
    if n > 0 {
        lemma_widened(n, 0);
    }
}

proof fn lemma_narrowed(n: nat, d: nat, from: nat, k: nat)
    requires
        d == pow2(from),
        from <= k,
        pow2(52 + k) <= n < pow2(53 + k),
    ensures
        narrowed(n, d, from as int) == packed(rounded(n, pow2(k)), k as int),
    decreases k - from,
{
    lemma2_to64();
    lemma2_to64_rest();
    lemma_pow2_pos(from);
    lemma_pow2_adds(53, from);
    assert(pow2(53 + from) == 0x20_0000_0000_0000 * d);
    if from < k {
        if 53 + from < 52 + k {
            lemma_pow2_strictly_increases(53 + from, 52 + k);
        }
        lemma_pow2_unfold(from + 1);
        lemma_narrowed(n, 2 * d, from + 1, k);
    }
}

/// A number that needs more than 53 binary digits is held as the nearest number that 53 hold: what
/// is held is off by no more than half of what the last digit counts, and where it is off by just
/// that, the last digit is even.
pub proof fn large_numbers_are_nearest(n: nat, k: nat)
    requires
        0 < k,
        pow2(52 + k) <= n < pow2(53 + k),
    ensures
        ({
            let bits = natural_bits(n);
            let held = significand(bits) * pow2((exponent(bits) - 1075) as nat);
            &&& exponent(bits) >= 1075
            &&& 2 * (held - n) <= pow2(k)
            &&& 2 * (n - held) <= pow2(k)
            &&& 2 * (held - n) == pow2(k) || 2 * (n - held) == pow2(k) ==> bits % 2 == 0
        }),
{
    lemma2_to64();
    lemma2_to64_rest();
    let d = pow2(k);
    lemma_pow2_pos(k);
    lemma_pow2_adds(52, k);
    lemma_pow2_adds(53, k);
    if 53 < 52 + k {
        lemma_pow2_strictly_increases(53, 52 + k);
    }
    assert(pow2(0) == 1);
    lemma_narrowed(n, 1, 0, k);
    let m = rounded(n, d);
    let down = n / d;
    let rest = n % d;
    lemma_fundamental_div_mod(n as int, d as int);
    assert(n == d * down + rest && rest < d);
    assert(0x10_0000_0000_0000 <= down < 0x20_0000_0000_0000) by (nonlinear_arith)
        requires
            n == d * down + rest,
            0 <= rest < d,
            0x10_0000_0000_0000 * d <= n < 0x20_0000_0000_0000 * d,
    ;
    lemma_packed(m, k as int);
    let bits = natural_bits(n);
    let e = exponent(bits);
    let held = significand(bits) * pow2((e - 1075) as nat);
    lemma_pow2_unfold(k + 1);
    assert(held == m * d) by {
        if m == 0x20_0000_0000_0000 {
            assert(0x10_0000_0000_0000 * (2 * d) == 0x20_0000_0000_0000 * d);
        }
    }
    assert(m * d == down * d || m * d == down * d + d) by (nonlinear_arith)
        requires
            m == down || m == down + 1,
    ;
    assert(down * d == d * down) by (nonlinear_arith);
    assert(bits % 2 == m as int % 2);
    if m == down {
        assert(held == d * down);
        assert(n - held == rest);
    } else {
        assert(m == down + 1);
        assert(m * d == d * down + d) by (nonlinear_arith)
            requires
                m == down + 1,
        ;
        assert(held - n == d - rest);
    }
}

/// A negative number is held as the number without its sign, with the bit of the sign set.
pub proof fn signs_are_a_bit(n: nat)
    requires
        n > 0,
    ensures
        whole_bits(n as int) == natural_bits(n),
        whole_bits(-(n as int)) == 0x8000_0000_0000_0000 + natural_bits(n),
        whole_bits(0) == 0,
{
}

} // verus!
