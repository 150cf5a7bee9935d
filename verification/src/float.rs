//! Fixed-point numbers out of floating-point numbers.
//!
//! The library computes without floating-point arithmetic. A single-precision
//! float comes in as its 32 bits: one bit for the sign, eight for the
//! exponent, and twenty-three for the fraction.

use vstd::prelude::*;
use vstd::arithmetic::power2::{
    lemma2_to64, lemma2_to64_rest, lemma_pow2_pos, lemma_pow2_strictly_increases,
    lemma_pow2_unfold, pow2,
};
use crate::fixed::{narrow, saturate, SCALE};

verus! {

/// Whether the sign bit is set.
pub open spec fn sign(bits: u32) -> bool {
    bits >= 0x8000_0000
}

/// The eight bits of the exponent.
pub open spec fn exponent(bits: u32) -> int {
    (bits as int / 0x80_0000) % 0x100
}

/// The twenty-three bits of the fraction.
pub open spec fn fraction(bits: u32) -> int {
    bits as int % 0x80_0000
}

/// The whole number `s` for which the float's magnitude is `s * 2^power`: the
/// fraction, and above it the hidden bit of a float that is not subnormal.
pub open spec fn significand(bits: u32) -> int {
    if exponent(bits) == 0 {
        fraction(bits)
    } else {
        0x80_0000 + fraction(bits)
    }
}

/// The power of two by which the significand is to be multiplied.
pub open spec fn power(bits: u32) -> int {
    if exponent(bits) == 0 {
        -149
    } else {
        exponent(bits) - 150
    }
}

/// 2 to the power of `e`, for `e` that is not negative.
pub open spec fn two_to(e: int) -> int {
    pow2(e as nat) as int
}

/// `n * 2^p` for `n` that is not negative, rounded to the nearest whole
/// number, a half rounded up.
pub open spec fn times_pow2(n: int, p: int) -> int {
    if p >= 0 {
        n * two_to(p)
    } else {
        (2 * n + two_to(-p)) / (2 * two_to(-p))
    }
}

/// The fixed-point number nearest to the float of these bits, a half rounded
/// away from 0. An infinite float, and any other beyond the range, gives the
/// end of the range on its side; what is not a number gives 0.
pub open spec fn nearest(bits: u32) -> int {
    if exponent(bits) == 0xff {
        if fraction(bits) != 0 {
            0
        } else if sign(bits) {
            i64::MIN as int
        } else {
            i64::MAX as int
        }
    } else {
        let magnitude = times_pow2(significand(bits) * SCALE, power(bits));
        saturate(
            if sign(bits) {
                -magnitude
            } else {
                magnitude
            },
        )
    }
}

/// `n * 2^k`, or 2^63 if that is less.
fn grown(n: u128, k: u32) -> (r: u128)
    requires
        0 < n < 0x1_0000_0000_0000_0000,
    ensures
        r == if n * two_to(k as int) < 0x8000_0000_0000_0000 {
            n * two_to(k as int)
        } else {
            0x8000_0000_0000_0000
        },
{
    let mut acc: u128 = n;
    let mut i: u32 = 0;
    proof {
        lemma2_to64();
    }
    while i < k && acc < 0x8000_0000_0000_0000
        invariant
            i <= k,
            0 < n,
            acc == n * pow2(i as nat),
            acc < 0x1_0000_0000_0000_0000,
        decreases k - i,
    {
        proof {
            lemma_pow2_unfold((i + 1) as nat);
            assert(n * (2 * pow2(i as nat)) == 2 * (n * pow2(i as nat))) by (nonlinear_arith);
        }
        acc = acc * 2;
        i += 1;
    }
    if acc < 0x8000_0000_0000_0000 {
        acc
    } else {
        proof {
            if i < k {
                lemma_pow2_strictly_increases(i as nat, k as nat);
            }
            assert(n * pow2(i as nat) <= n * pow2(k as nat)) by (nonlinear_arith)
                requires
                    0 < n,
                    pow2(i as nat) <= pow2(k as nat),
            ;
        }
        0x8000_0000_0000_0000
    }
}

/// `n / 2^j`, rounded to the nearest whole number, a half rounded up.
fn shrunk(n: u128, j: u32) -> (r: u128)
    requires
        n < 0x1000_0000_0000,
        0 < j,
    ensures
        r == (2 * n + two_to(j as int)) / (2 * two_to(j as int)),
        r <= n,
{
    if j >= 46 {
        proof {
            lemma2_to64_rest();
            if j > 46 {
                lemma_pow2_strictly_increases(46, j as nat);
            }
            let d = pow2(j as nat) as int;
            assert((2 * n + d) / (2 * d) == 0) by (nonlinear_arith)
                requires
                    0 <= 2 * n < d,
            ;
        }
        return 0;
    }
    let mut d: u128 = 1;
    let mut i: u32 = 0;
    proof {
        lemma2_to64();
    }
    while i < j
        invariant
            i <= j < 46,
            d == pow2(i as nat),
            d <= 0x4000_0000_0000,
        decreases j - i,
    {
        proof {
            lemma_pow2_unfold((i + 1) as nat);
            lemma2_to64_rest();
            if i + 1 < 46 {
                lemma_pow2_strictly_increases((i + 1) as nat, 46);
            }
        }
        d = d * 2;
        i += 1;
    }
    proof {
        lemma_pow2_unfold(j as nat);
        lemma_pow2_pos((j - 1) as nat);
        assert((2 * n + d) / (2 * d) <= n) by (nonlinear_arith)
            requires
                0 <= n,
                2 <= d,
        ;
    }
    (2 * n + d) / (2 * d)
}

/// The fixed-point number nearest to the single-precision float of these
/// bits.
pub fn from_float_bits(bits: u32) -> (r: i64)
    ensures
        r == nearest(bits),
{
    let negative: bool = bits >= 0x8000_0000;
    let exponent: u32 = (bits / 0x80_0000) % 0x100;
    let fraction: u32 = bits % 0x80_0000;
    if exponent == 0xff {
        return if fraction != 0 {
            0
        } else if negative {
            i64::MIN
        } else {
            i64::MAX
        };
    }
    let magnitude: u128 = if exponent == 0 {
        shrunk(fraction as u128 * 1_000_000, 149)
    } else {
        let n: u128 = (0x80_0000 + fraction) as u128 * 1_000_000;
        if exponent >= 150 {
            grown(n, exponent - 150)
        } else {
            shrunk(n, 150 - exponent)
        }
    };
    if negative {
        narrow(-(magnitude as i128))
    } else {
        narrow(magnitude as i128)
    }
}

} // verus!
