//! Fixed-point base-two logarithm.
//!
//! `log2fix(m)` returns the base-two logarithm of the integer `m` as a raw
//! fixed-point value: the integer part exactly, then thirty fraction bits
//! found by repeated squaring of the normalized mantissa.  Every step is
//! integer arithmetic, mirrored one-for-one by the spec functions, so the
//! result is pinned completely.

use vstd::prelude::*;
use vstd::arithmetic::power2::{lemma_pow2_strictly_increases, pow2};
use crate::fixed::FIX_ONE;

verus! {

/// Lower bound of the normalized mantissa range (2 to the 62nd).
pub const MANT_LO: u128 = 0x4000_0000_0000_0000;

/// Upper bound of the normalized mantissa range (2 to the 63rd).
pub const MANT_HI: u128 = 0x8000_0000_0000_0000;

/// Weight of the fraction accumulator in the result (2 to the 26th:
/// thirty fraction bits below the 56-bit fixed point).
pub const FRAC_UNIT: u64 = 0x400_0000;

/// Number of fraction bits produced.
pub const FRAC_ROUNDS: u32 = 30;

/// Integer part of the base-two logarithm.
pub open spec fn spec_floor_log2(m: int) -> int
    decreases m,
{
    if m < 2 {
        0
    } else {
        1 + spec_floor_log2(m / 2)
    }
}

/// Halve until the mantissa is below the normalized range's upper end.
pub open spec fn spec_mant_down(y: int) -> int
    decreases y,
{
    if y >= MANT_HI as int {
        spec_mant_down(y / 2)
    } else {
        y
    }
}

/// Distance of a mantissa below the normalized range's lower end; the
/// measure that doubling drives to zero.
pub open spec fn mant_gap(y: int) -> int {
    if y >= MANT_LO as int {
        0
    } else {
        MANT_LO as int - y
    }
}

/// Double until the mantissa reaches the normalized range's lower end.
pub open spec fn spec_mant_up(y: int) -> int
    decreases mant_gap(y),
{
    if y <= 0 {
        0
    } else if y < MANT_LO as int {
        spec_mant_up(2 * y)
    } else {
        y
    }
}

/// Fraction bits of the logarithm: square the mantissa; a carry past the
/// range's upper end is the next bit.
pub open spec fn spec_frac_bits(y: int, rounds: nat, acc: int) -> int
    decreases rounds,
{
    if rounds == 0 {
        acc
    } else {
        let y2 = (y * y) / (MANT_LO as int);
        if y2 >= MANT_HI as int {
            spec_frac_bits(y2 / 2, (rounds - 1) as nat, 2 * acc + 1)
        } else {
            spec_frac_bits(y2, (rounds - 1) as nat, 2 * acc)
        }
    }
}

/// The base-two logarithm of `m` as a raw fixed-point value.
pub open spec fn spec_log2fix(m: int) -> int {
    let mant = spec_mant_up(spec_mant_down(m));
    spec_floor_log2(m) * (FIX_ONE as int) + spec_frac_bits(mant, FRAC_ROUNDS as nat, 0) * (
    FRAC_UNIT as int)
}

/// Compute the fixed-point base-two logarithm of a positive integer.
pub fn log2fix(m: u128) -> (r: u64)
    requires
        m >= 1,
    ensures
        r as int == spec_log2fix(m as int),
{
    // Integer part.
    let mut t: u128 = m;
    let mut k: u32 = 0;
    proof {
        vstd::arithmetic::power2::lemma2_to64();
        assert(m as nat * pow2(0) == m as nat) by (nonlinear_arith)
            requires
                pow2(0) == 1,
        ;
    }
    while t >= 2
        invariant
            1 <= t,
            k as int + spec_floor_log2(t as int) == spec_floor_log2(m as int),
            t as nat * pow2(k as nat) <= m as nat,
            k <= 127,
        decreases t,
    {
        proof {
            vstd::arithmetic::power2::lemma_pow2_unfold(k as nat + 1);
            vstd::arithmetic::power2::lemma_pow2_pos(k as nat);
            assert((t as nat / 2) * pow2(k as nat + 1) <= t as nat * pow2(k as nat)
                && pow2(k as nat + 1) <= t as nat * pow2(k as nat)) by (nonlinear_arith)
                requires
                    pow2(k as nat + 1) == 2 * pow2(k as nat),
                    pow2(k as nat) >= 1,
                    t >= 2,
            ;
            if k + 1 > 127 {
                vstd::arithmetic::power2::lemma_pow2_adds(64, 64);
                vstd::arithmetic::power2::lemma2_to64_rest();
                if k as nat + 1 > 128 {
                    lemma_pow2_strictly_increases(128, k as nat + 1);
                }
                assert(false);
            }
        }
        t = t / 2;
        k = k + 1;
    }

    // Normalized mantissa.
    let mut y: u128 = m;
    while y >= MANT_HI
        invariant
            1 <= y,
            spec_mant_down(y as int) == spec_mant_down(m as int),
        decreases y,
    {
        y = y / 2;
    }
    while y < MANT_LO
        invariant
            1 <= y,
            y < MANT_HI,
            spec_mant_up(y as int) == spec_mant_up(spec_mant_down(m as int)),
        decreases mant_gap(y as int),
    {
        y = y * 2;
    }

    // Fraction bits.
    proof {
        vstd::arithmetic::power2::lemma2_to64();
    }
    let mut acc: u64 = 0;
    let mut round: u32 = 0;
    while round < FRAC_ROUNDS
        invariant
            round <= FRAC_ROUNDS,
            MANT_LO <= y < MANT_HI,
            acc < pow2(round as nat),
            spec_frac_bits(y as int, (FRAC_ROUNDS - round) as nat, acc as int) == spec_frac_bits(
                spec_mant_up(spec_mant_down(m as int)),
                FRAC_ROUNDS as nat,
                0,
            ),
        decreases FRAC_ROUNDS - round,
    {
        proof {
            assert((MANT_LO as int) * (MANT_LO as int) <= (y as int) * (y as int)
                && (y as int) * (y as int) < 0x4000_0000_0000_0000_0000_0000_0000_0000)
                by (nonlinear_arith)
                requires
                    MANT_LO as int <= y as int,
                    (y as int) < 0x8000_0000_0000_0000,
            ;
            vstd::arithmetic::div_mod::lemma_div_is_ordered(
                (MANT_LO as int) * (MANT_LO as int),
                (y as int) * (y as int),
                MANT_LO as int,
            );
            assert((MANT_LO as int) * (MANT_LO as int) == 0x1000_0000_0000_0000_0000_0000_0000_0000)
                by (nonlinear_arith);
            vstd::arithmetic::power2::lemma_pow2_unfold(round as nat + 1);
            vstd::arithmetic::power2::lemma2_to64();
            if round < 29 {
                lemma_pow2_strictly_increases(round as nat, 29);
            }
        }
        let y2 = (y * y) / MANT_LO;
        if y2 >= MANT_HI {
            y = y2 / 2;
            acc = 2 * acc + 1;
        } else {
            y = y2;
            acc = 2 * acc;
        }
        round = round + 1;
    }

    proof {
        assert(spec_frac_bits(y as int, 0, acc as int) == acc as int);
        vstd::arithmetic::power2::lemma2_to64();
    }
    (k as u64) * (FIX_ONE as u64) + acc * FRAC_UNIT
}

} // verus!
