//! Pacing: the longer the snake, the faster the simulation ticks. The rate is
//! `10 + 2 * log2(n)` ticks per second for a snake of `n` segments, held to
//! the range from `MIN_HZ` to `MAX_HZ`. This module computes the whole
//! number of ticks per second in that rate.

use vstd::arithmetic::logarithm::{
    lemma_log0, lemma_log_is_ordered, lemma_log_nonnegative, lemma_log_pow, lemma_log_s, log,
};
use vstd::arithmetic::power::pow;
use vstd::arithmetic::power2::{lemma2_to64, lemma_pow2_unfold, pow2};
use vstd::prelude::*;

verus! {

/// The lowest tick rate, in ticks per second.
pub const MIN_HZ: u32 = 10;

/// The highest tick rate, in ticks per second.
pub const MAX_HZ: u32 = 30;

/// The whole ticks per second of the rate for a snake of `segment_count`
/// segments. Twice the logarithm of a number is the logarithm of its square,
/// and `log(2, m)` is the whole part of the binary logarithm of `m`.
pub open spec fn whole_hz(segment_count: nat) -> int {
    let raw = MIN_HZ + log(2, (segment_count * segment_count) as int);
    if raw > MAX_HZ {
        MAX_HZ as int
    } else {
        raw
    }
}

/// `log(2, m)` is the whole part of the binary logarithm of `m`: the
/// exponent of the greatest power of two that is not above `m`.
pub proof fn lemma_log2_bounds(m: int)
    requires
        m >= 1,
    ensures
        log(2, m) >= 0,
        pow2(log(2, m) as nat) <= m < pow2((log(2, m) + 1) as nat),
    decreases m,
{
    lemma_log_nonnegative(2, m);
    lemma2_to64();
    if m < 2 {
        lemma_log0(2, m);
    } else {
        lemma_log_s(2, m);
        lemma_log2_bounds(m / 2);
        let e = log(2, m / 2);
        lemma_pow2_unfold((e + 1) as nat);
        lemma_pow2_unfold((e + 2) as nat);
    }
}

/// The tick rate always lies between `MIN_HZ` and `MAX_HZ`.
pub proof fn lemma_whole_hz_in_range(segment_count: nat)
    ensures
        MIN_HZ <= whole_hz(segment_count) <= MAX_HZ,
{
    assert(segment_count * segment_count >= 0) by (nonlinear_arith);
    lemma_log_nonnegative(2, (segment_count * segment_count) as int);
}

/// The tick rate never falls when the snake grows.
pub proof fn lemma_whole_hz_monotonic(shorter: nat, longer: nat)
    requires
        shorter <= longer,
    ensures
        whole_hz(shorter) <= whole_hz(longer),
{
    assert(0 <= shorter * shorter <= longer * longer) by (nonlinear_arith)
        requires
            shorter <= longer,
    ;
    lemma_log_is_ordered(2, (shorter * shorter) as int, (longer * longer) as int);
}

/// The tick rate is the whole part of `10 + 2 * log2(n)`, cut off at
/// `MAX_HZ`: below the cut, `n * n` lies between the powers of two whose
/// exponents are the rate less ten and the rate less nine; the cut is reached
/// from 1024 segments on.
pub proof fn lemma_whole_hz_is_whole_part(segment_count: nat)
    requires
        segment_count >= 1,
    ensures
        whole_hz(segment_count) < MAX_HZ ==> pow2((whole_hz(segment_count) - 10) as nat)
            <= segment_count * segment_count < pow2((whole_hz(segment_count) - 9) as nat),
        whole_hz(segment_count) == MAX_HZ <==> segment_count >= 1024,
{
    let square = (segment_count * segment_count) as int;
    assert(square >= 1) by (nonlinear_arith)
        requires
            square == segment_count * segment_count,
            segment_count >= 1,
    ;
    lemma_log2_bounds(square);
    lemma2_to64();
    lemma_log_pow(2, 20);
    assert(pow(2, 20) == 0x100000) by {
        vstd::arithmetic::power::lemma_pow_positive(2, 20);
        assert(pow2(20) == 0x100000);
    }
    if segment_count >= 1024 {
        assert(square >= 0x100000) by (nonlinear_arith)
            requires
                square == segment_count * segment_count,
                segment_count >= 1024,
        ;
        lemma_log_is_ordered(2, 0x100000, square);
    } else {
        assert(square < 0x100000) by (nonlinear_arith)
            requires
                square == segment_count * segment_count,
                segment_count < 1024,
        ;
        if log(2, square) >= 20 {
            vstd::arithmetic::power2::lemma_pow2_strictly_increases(20, log(2, square) as nat);
            assert(false);
        }
    }
}

/// The whole ticks per second at which the simulation runs for a snake of
/// `segment_count` segments.
pub fn whole_tick_rate(segment_count: usize) -> (hz: u32)
    ensures
        hz == whole_hz(segment_count as nat),
        MIN_HZ <= hz <= MAX_HZ,
{
    proof {
        lemma_whole_hz_in_range(segment_count as nat);
        if segment_count >= 1 {
            lemma_whole_hz_is_whole_part(segment_count as nat);
        } else {
            assert((segment_count as nat) * (segment_count as nat) == 0) by (nonlinear_arith)
                requires
                    segment_count == 0,
            ;
            lemma_log0(2, 0);
        }
    }
    if segment_count >= 1024 {
        return MAX_HZ;
    }
    assert(segment_count * segment_count < 0x100000) by (nonlinear_arith)
        requires
            segment_count < 1024,
    ;
    let square: u64 = (segment_count as u64) * (segment_count as u64);
    assert(square as int == (segment_count as nat * segment_count as nat) as int);
    assert(whole_hz(segment_count as nat) < MAX_HZ);
    let mut hz: u32 = MIN_HZ;
    let mut rest: u64 = square;
    while rest >= 2
        invariant
            MIN_HZ <= hz,
            hz + log(2, rest as int) == MIN_HZ + log(2, square as int),
            MIN_HZ + log(2, square as int) <= MAX_HZ,
        decreases rest,
    {
        proof {
            lemma_log_s(2, rest as int);
            lemma_log_nonnegative(2, rest as int / 2);
        }
        rest = rest / 2;
        hz = hz + 1;
    }
    proof {
        lemma_log0(2, rest as int);
    }
    hz
}

} // verus!
