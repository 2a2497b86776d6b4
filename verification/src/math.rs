//! Integer helpers shared by the quantity types and the geometry: division
//! rounded to the nearest integer (ties away from zero), square roots rounded
//! the same way, and saturation to the `i32` range.
//!
//! Rounding ties away from zero matches how the simulation converts between
//! resolutions everywhere, so every derived quantity is a deterministic
//! function of its integer inputs.

use vstd::prelude::*;

verus! {

/// `num / den` rounded to the nearest integer, ties away from zero.
/// Meaningful for `den > 0`; a negative divisor is handled by `round_rat`.
pub open spec fn round_div(num: int, den: int) -> int
    recommends
        den > 0,
{
    if num >= 0 {
        (2 * num + den) / (2 * den)
    } else {
        -((2 * -num + den) / (2 * den))
    }
}

/// `num / den` rounded to the nearest integer, ties away from zero, for any
/// nonzero divisor.
pub open spec fn round_rat(num: int, den: int) -> int
    recommends
        den != 0,
{
    if den > 0 {
        round_div(num, den)
    } else {
        round_div(-num, -den)
    }
}

/// Saturate an unbounded integer into the `i32` range.
pub open spec fn clamp_i32(x: int) -> int {
    if x > i32::MAX {
        i32::MAX as int
    } else if x < i32::MIN {
        i32::MIN as int
    } else {
        x
    }
}

/// `r` is the nearest integer to the (real) square root of `n`; a tie would
/// round up, but `4 * n` can never be an odd square, so ties cannot arise.
pub open spec fn is_rounded_sqrt(n: int, r: int) -> bool {
    &&& 0 <= n
    &&& 0 <= r
    &&& (r == 0 || (2 * r - 1) * (2 * r - 1) <= 4 * n)
    &&& 4 * n < (2 * r + 1) * (2 * r + 1)
}

/// Bounding a product by the bounds of its factors.
pub proof fn lemma_mul_bound(a: int, b: int, m: int, n: int)
    requires
        -m <= a <= m,
        -n <= b <= n,
        0 <= m,
        0 <= n,
    ensures
        -(m * n) <= a * b <= m * n,
{
    assert(-(m * n) <= a * b <= m * n) by (nonlinear_arith)
        requires
            -m <= a <= m,
            -n <= b <= n,
            0 <= m,
            0 <= n,
    ;
}

/// The nearest integer to the square root of `n`, as a function; well
/// defined because the rounded root is unique (`lemma_rounded_sqrt_unique`).
pub open spec fn spec_rounded_sqrt(n: int) -> int {
    choose|r: int| is_rounded_sqrt(n, r)
}

/// At most one integer is the rounded square root of `n`; so any witness
/// equals `spec_rounded_sqrt(n)`.
pub proof fn lemma_rounded_sqrt_unique(n: int, r: int)
    requires
        is_rounded_sqrt(n, r),
    ensures
        spec_rounded_sqrt(n) == r,
{
    let r2 = spec_rounded_sqrt(n);
    assert(is_rounded_sqrt(n, r2));
    if r < r2 {
        assert(false) by (nonlinear_arith)
            requires
                0 <= r < r2,
                (2 * r2 - 1) * (2 * r2 - 1) <= 4 * n,
                4 * n < (2 * r + 1) * (2 * r + 1),
        ;
    }
    if r2 < r {
        assert(false) by (nonlinear_arith)
            requires
                0 <= r2 < r,
                (2 * r - 1) * (2 * r - 1) <= 4 * n,
                4 * n < (2 * r2 + 1) * (2 * r2 + 1),
        ;
    }
}

/// Floor square root by binary search over `[0, 2^32]`.
fn isqrt_u64(n: u64) -> (r: u64)
    ensures
        r * r <= n < (r + 1) * (r + 1),
        r <= 0xffff_ffffu64,
{
    let mut lo: u64 = 0;
    let mut hi: u64 = 0x1_0000_0000;
    while lo + 1 < hi
        invariant
            lo < hi <= 0x1_0000_0000u64,
            lo * lo <= n,
            n < hi * hi,
        decreases hi - lo,
    {
        let mid: u64 = lo + (hi - lo) / 2;
        proof {
            assert((mid as u128) * (mid as u128) <= 0x1_0000_0000_0000_0000u128)
                by (nonlinear_arith)
                requires
                    mid <= 0x1_0000_0000u64,
            ;
        }
        let sq: u128 = (mid as u128) * (mid as u128);
        if sq <= n as u128 {
            lo = mid;
        } else {
            hi = mid;
        }
    }
    lo
}

/// Square root of `n`, rounded to the nearest integer.
pub fn rounded_sqrt_u64(n: u64) -> (r: u64)
    ensures
        is_rounded_sqrt(n as int, r as int),
        r as int == spec_rounded_sqrt(n as int),
{
    let s: u64 = isqrt_u64(n);
    let four_n: u128 = 4 * (n as u128);
    proof {
        assert((2 * (s as u128) + 1) * (2 * (s as u128) + 1)
            <= 0x10_0000_0000_0000_0000u128) by (nonlinear_arith)
            requires
                s <= 0x1_0000_0000u64,
        ;
    }
    let mid: u128 = (2 * (s as u128) + 1) * (2 * (s as u128) + 1);
    let r: u64 = if four_n >= mid {
        proof {
            // From n < (s + 1)^2: 4n <= 4(s + 1)^2 - 4 < (2s + 3)^2.
            assert(4 * n < (2 * (s + 1) + 1) * (2 * (s + 1) + 1)) by (nonlinear_arith)
                requires
                    n < (s + 1) * (s + 1),
                    s <= 0x1_0000_0000u64,
            ;
        }
        s + 1
    } else {
        proof {
            assert(s == 0 || (2 * s - 1) * (2 * s - 1) <= 4 * n) by (nonlinear_arith)
                requires
                    s * s <= n,
            ;
        }
        s
    };
    proof {
        lemma_rounded_sqrt_unique(n as int, r as int);
    }
    r
}

/// `num / den` rounded to the nearest integer (ties away from zero) and then
/// saturated into the `i32` range. The operands are given as magnitudes plus
/// the sign of the exact quotient, so that all arithmetic is unsigned.
fn round_div_mag(num_mag: u128, den_mag: u128, negative: bool) -> (r: i32)
    requires
        0 < den_mag < 0x4000_0000_0000_0000_0000_0000_0000_0000u128,
        num_mag < 0x2000_0000_0000_0000_0000_0000_0000_0000u128,
    ensures
        !negative ==> r as int == clamp_i32(round_div(num_mag as int, den_mag as int)),
        negative ==> r as int == clamp_i32(-round_div(num_mag as int, den_mag as int)),
{
    let q: u128 = (2 * num_mag + den_mag) / (2 * den_mag);
    if negative {
        if q >= 0x8000_0000u128 {
            i32::MIN
        } else {
            -(q as i32)
        }
    } else {
        if q > 0x7fff_ffffu128 {
            i32::MAX
        } else {
            q as i32
        }
    }
}

/// `num / den` rounded to the nearest integer (ties away from zero), kept
/// exact: the magnitude of the quotient never exceeds that of `num`, so the
/// result always fits.
pub fn round_rat_exact(num: i128, den: i128) -> (r: i128)
    requires
        den != 0,
        -0x2000_0000_0000_0000_0000_0000_0000_0000i128 < num
            < 0x2000_0000_0000_0000_0000_0000_0000_0000i128,
        -0x4000_0000_0000_0000_0000_0000_0000_0000i128 < den
            < 0x4000_0000_0000_0000_0000_0000_0000_0000i128,
    ensures
        r as int == round_rat(num as int, den as int),
{
    let num_neg: bool = num < 0;
    let den_neg: bool = den < 0;
    let num_mag: u128 = if num_neg {
        (-num) as u128
    } else {
        num as u128
    };
    let den_mag: u128 = if den_neg {
        (-den) as u128
    } else {
        den as u128
    };
    let q: u128 = (2 * num_mag + den_mag) / (2 * den_mag);
    proof {
        // The rounded quotient is bounded by the numerator's magnitude
        // (plus one when the divisor is 1 and the tie rounds up).
        assert((2 * num_mag + den_mag) / (2 * den_mag) <= num_mag) by (nonlinear_arith)
            requires
                den_mag >= 1,
                num_mag >= 0,
        ;
        assert(num_mag as int == if num >= 0 { num as int } else { -(num as int) });
        assert(den_mag as int == if den >= 0 { den as int } else { -(den as int) });
        if num == 0 {
            vstd::arithmetic::div_mod::lemma_basic_div(den_mag as int, 2 * den_mag as int);
        }
        if den > 0 {
            assert(round_rat(num as int, den as int) == if num >= 0 {
                round_div(num_mag as int, den_mag as int)
            } else {
                -round_div(num_mag as int, den_mag as int)
            });
        } else {
            assert(round_rat(num as int, den as int) == round_div(-(num as int), -(den as int)));
            assert(round_rat(num as int, den as int) == if num <= 0 {
                round_div(num_mag as int, den_mag as int)
            } else {
                -round_div(num_mag as int, den_mag as int)
            });
        }
    }
    if num_neg != den_neg {
        -(q as i128)
    } else {
        q as i128
    }
}

/// `num / den` rounded to the nearest integer (ties away from zero),
/// saturated into the `i32` range.
pub fn round_rat_i128(num: i128, den: i128) -> (r: i32)
    requires
        den != 0,
        -0x2000_0000_0000_0000_0000_0000_0000_0000i128 < num
            < 0x2000_0000_0000_0000_0000_0000_0000_0000i128,
        -0x4000_0000_0000_0000_0000_0000_0000_0000i128 < den
            < 0x4000_0000_0000_0000_0000_0000_0000_0000i128,
    ensures
        r as int == clamp_i32(round_rat(num as int, den as int)),
{
    let num_neg: bool = num < 0;
    let den_neg: bool = den < 0;
    let num_mag: u128 = if num_neg {
        (-num) as u128
    } else {
        num as u128
    };
    let den_mag: u128 = if den_neg {
        (-den) as u128
    } else {
        den as u128
    };
    proof {
        assert(num_mag as int == if num >= 0 { num as int } else { -(num as int) });
        assert(den_mag as int == if den >= 0 { den as int } else { -(den as int) });
    }
    let r: i32 = round_div_mag(num_mag, den_mag, num_neg != den_neg);
    proof {
        if num == 0 {
            // round_div(0, d) is d / (2d) == 0.
            vstd::arithmetic::div_mod::lemma_basic_div(den_mag as int, 2 * den_mag as int);
        }
        if den > 0 {
            assert(round_rat(num as int, den as int) == if num >= 0 {
                round_div(num_mag as int, den_mag as int)
            } else {
                -round_div(num_mag as int, den_mag as int)
            });
        } else {
            assert(round_rat(num as int, den as int) == round_div(
                -(num as int),
                -(den as int),
            ));
            assert(round_rat(num as int, den as int) == if num <= 0 {
                round_div(num_mag as int, den_mag as int)
            } else {
                -round_div(num_mag as int, den_mag as int)
            });
        }
    }
    r
}

} // verus!
