//! IEEE-754 binary64 numbers held by their bit pattern.
//!
//! A float of the host travels through the library as the `u64` of its bits.
//! The conversions that Rust's `as` casts and `!=` perform on such a number
//! are computed here on the bits, and stated by the binary64 encoding: a sign
//! bit, an 11-bit biased exponent and a 52-bit fraction.

use vstd::prelude::*;
use vstd::arithmetic::power2::*;

verus! {

/// Two to the 52nd: the weight of the lowest exponent bit.
pub open spec fn two52() -> nat {
    0x10_0000_0000_0000
}

/// The biased exponent field.
pub open spec fn f64_exponent(bits: u64) -> nat {
    ((bits as nat / two52()) % 2048) as nat
}

/// The fraction field.
pub open spec fn f64_fraction(bits: u64) -> nat {
    (bits as nat % two52()) as nat
}

/// The sign bit.
pub open spec fn f64_negative(bits: u64) -> bool {
    bits >= 0x8000_0000_0000_0000
}

/// NaN: all exponent bits set and a nonzero fraction.
pub open spec fn f64_is_nan(bits: u64) -> bool {
    f64_exponent(bits) == 2047 && f64_fraction(bits) != 0
}

/// A finite number: not every exponent bit set.
pub open spec fn f64_is_finite(bits: u64) -> bool {
    f64_exponent(bits) != 2047
}

/// Positive or negative zero.
pub open spec fn f64_is_zero(bits: u64) -> bool {
    f64_exponent(bits) == 0 && f64_fraction(bits) == 0
}

/// The integer significand of a finite number (with the hidden bit of normal numbers).
pub open spec fn f64_significand(bits: u64) -> nat {
    if f64_exponent(bits) == 0 {
        f64_fraction(bits)
    } else {
        f64_fraction(bits) + two52()
    }
}

/// The magnitude of a finite number rounded toward zero to an integer:
/// the significand times two to the power of (exponent - 1075), where a
/// zero exponent field counts as one.
pub open spec fn f64_truncated_magnitude(bits: u64) -> nat {
    let e: nat = if f64_exponent(bits) == 0 { 1 } else { f64_exponent(bits) };
    if e >= 1075 {
        f64_significand(bits) * pow2((e - 1075) as nat)
    } else {
        f64_significand(bits) / pow2((1075 - e) as nat)
    }
}

/// The value of a finite number rounded toward zero to an integer.
pub open spec fn f64_truncated(bits: u64) -> int {
    if f64_negative(bits) {
        -f64_truncated_magnitude(bits)
    } else {
        f64_truncated_magnitude(bits) as int
    }
}

/// What `f as i64` gives: NaN becomes 0, everything else is rounded toward
/// zero and saturated at the bounds of `i64` (infinities included).
pub open spec fn f64_to_i64(bits: u64) -> i64 {
    if f64_is_nan(bits) {
        0
    } else if !f64_is_finite(bits) {
        if f64_negative(bits) {
            i64::MIN
        } else {
            i64::MAX
        }
    } else if f64_truncated(bits) > i64::MAX {
        i64::MAX
    } else if f64_truncated(bits) < i64::MIN {
        i64::MIN
    } else {
        f64_truncated(bits) as i64
    }
}

/// What `f as u64` gives: NaN and every negative number become 0, everything
/// else is rounded toward zero and saturated at `u64::MAX`.
pub open spec fn f64_to_u64(bits: u64) -> u64 {
    if f64_is_nan(bits) || f64_negative(bits) {
        0
    } else if !f64_is_finite(bits) {
        u64::MAX
    } else if f64_truncated(bits) > u64::MAX {
        u64::MAX
    } else {
        f64_truncated(bits) as u64
    }
}

/// The bits of `1.0`.
pub open spec fn f64_one() -> u64 {
    0x3FF0_0000_0000_0000
}

/// The bits of `0.0`.
pub open spec fn f64_zero() -> u64 {
    0
}

/// Whether `f != 0.0` holds: every number but the two zeros (NaN included).
pub fn is_nonzero(bits: u64) -> (r: bool)
    ensures
        r == !f64_is_zero(bits),
{
    let exponent: u64 = (bits / 0x10_0000_0000_0000) % 2048;
    let fraction: u64 = bits % 0x10_0000_0000_0000;
    !(exponent == 0 && fraction == 0)
}

/// Whether `f.is_finite()` holds.
pub fn is_finite(bits: u64) -> (r: bool)
    ensures
        r == f64_is_finite(bits),
{
    (bits / 0x10_0000_0000_0000) % 2048 != 2047
}

fn pow2_u64(k: u64) -> (p: u64)
    requires
        k < 64,
    ensures
        p == pow2(k as nat),
{
    let mut p: u64 = 1;
    let mut i: u64 = 0;
    proof {
        lemma2_to64();
        lemma2_to64_rest();
    }
    while i < k
        invariant
            i <= k < 64,
            p == pow2(i as nat),
            pow2(63) == 0x8000_0000_0000_0000,
        decreases k - i,
    {
        proof {
            lemma_pow2_unfold((i + 1) as nat);
            if i < 63 {
                lemma_pow2_strictly_increases(i as nat, 63);
            }
        }
        p = p * 2;
        i = i + 1;
    }
    p
}

/// The truncated magnitude of a finite number whose exponent field lies in
/// `1023..=lim`, for `lim` at most 1086, with the bound it fits in.
fn truncated_magnitude_small(bits: u64, exponent: u64, fraction: u64) -> (m: u64)
    requires
        exponent == f64_exponent(bits),
        fraction == f64_fraction(bits),
        1023 <= exponent <= 1086,
    ensures
        m == f64_truncated_magnitude(bits),
        m < pow2((exponent - 1022) as nat),
{
    let significand: u64 = fraction + 0x10_0000_0000_0000;
    proof {
        lemma2_to64();
        lemma2_to64_rest();
        assert(pow2(52) == two52());
        assert(pow2(53) == 2 * two52());
    }
    if exponent >= 1075 {
        let k: u64 = exponent - 1075;
        let p = pow2_u64(k);
        proof {
            lemma_pow2_adds(53, k as nat);
            assert(53 + k == exponent - 1022);
            assert(significand < pow2(53));
            assert(significand * p < pow2(53) * p) by (nonlinear_arith)
                requires
                    significand < pow2(53),
                    p > 0,
            ;
            lemma_pow2_pos(k as nat);
            if exponent < 1086 {
                lemma_pow2_strictly_increases((exponent - 1022) as nat, 64);
            }
        }
        significand * p
    } else {
        let k: u64 = 1075 - exponent;
        let p = pow2_u64(k);
        proof {
            lemma_pow2_pos(k as nat);
            lemma_pow2_adds((exponent - 1022) as nat, k as nat);
            assert((exponent - 1022) + k == 53);
            let q = pow2((exponent - 1022) as nat);
            assert(significand / p < q) by (nonlinear_arith)
                requires
                    significand < q * p,
                    p > 0,
            ;
        }
        significand / p
    }
}

/// `f as i64` on the bits of `f`.
pub fn to_i64(bits: u64) -> (r: i64)
    ensures
        r == f64_to_i64(bits),
{
    let exponent: u64 = (bits / 0x10_0000_0000_0000) % 2048;
    let fraction: u64 = bits % 0x10_0000_0000_0000;
    let negative = bits >= 0x8000_0000_0000_0000;
    proof {
        lemma2_to64();
        lemma2_to64_rest();
    }
    if exponent == 2047 {
        if fraction != 0 {
            0
        } else if negative {
            i64::MIN
        } else {
            i64::MAX
        }
    } else if exponent < 1023 {
        proof {
            let e: nat = if exponent == 0 { 1 } else { exponent as nat };
            assert(f64_significand(bits) < pow2(53));
            lemma_pow2_strictly_increases(52, (1075 - e) as nat);
            assert(pow2(53) <= pow2((1075 - e) as nat)) by {
                if 1075 - e > 53 {
                    lemma_pow2_strictly_increases(53, (1075 - e) as nat);
                }
            }
            assert(f64_significand(bits) / pow2((1075 - e) as nat) == 0) by (nonlinear_arith)
                requires
                    f64_significand(bits) < pow2((1075 - e) as nat),
            ;
        }
        0
    } else if exponent >= 1086 {
        proof {
            let k = (exponent - 1075) as nat;
            lemma_pow2_adds(52, k);
            assert(pow2(52) * pow2(11) == pow2(63)) by {
                lemma_pow2_adds(52, 11);
            }
            if k > 11 {
                lemma_pow2_strictly_increases(11, k);
            }
            assert(f64_significand(bits) * pow2(k) >= pow2(52) * pow2(11)) by (nonlinear_arith)
                requires
                    f64_significand(bits) >= pow2(52),
                    pow2(k) >= pow2(11),
            ;
        }
        if negative {
            i64::MIN
        } else {
            i64::MAX
        }
    } else {
        let m = truncated_magnitude_small(bits, exponent, fraction);
        proof {
            if exponent < 1085 {
                lemma_pow2_strictly_increases((exponent - 1022) as nat, 63);
            }
        }
        if negative {
            -(m as i64)
        } else {
            m as i64
        }
    }
}

/// `f as u64` on the bits of `f`.
pub fn to_u64(bits: u64) -> (r: u64)
    ensures
        r == f64_to_u64(bits),
{
    let exponent: u64 = (bits / 0x10_0000_0000_0000) % 2048;
    let fraction: u64 = bits % 0x10_0000_0000_0000;
    let negative = bits >= 0x8000_0000_0000_0000;
    proof {
        lemma2_to64();
        lemma2_to64_rest();
    }
    if exponent == 2047 {
        if fraction != 0 || negative {
            0
        } else {
            u64::MAX
        }
    } else if negative {
        0
    } else if exponent < 1023 {
        proof {
            let e: nat = if exponent == 0 { 1 } else { exponent as nat };
            assert(pow2(53) <= pow2((1075 - e) as nat)) by {
                if 1075 - e > 53 {
                    lemma_pow2_strictly_increases(53, (1075 - e) as nat);
                }
            }
            assert(f64_significand(bits) / pow2((1075 - e) as nat) == 0) by (nonlinear_arith)
                requires
                    f64_significand(bits) < pow2((1075 - e) as nat),
            ;
        }
        0
    } else if exponent >= 1087 {
        proof {
            let k = (exponent - 1075) as nat;
            assert(pow2(52) * pow2(12) == pow2(64)) by {
                lemma_pow2_adds(52, 12);
            }
            if k > 12 {
                lemma_pow2_strictly_increases(12, k);
            }
            assert(f64_significand(bits) * pow2(k) >= pow2(52) * pow2(12)) by (nonlinear_arith)
                requires
                    f64_significand(bits) >= pow2(52),
                    pow2(k) >= pow2(12),
            ;
        }
        u64::MAX
    } else if exponent == 1086 {
        let significand: u64 = fraction + 0x10_0000_0000_0000;
        let p = pow2_u64(11);
        proof {
            assert(significand * p < pow2(53) * pow2(11)) by (nonlinear_arith)
                requires
                    significand < pow2(53),
                    p == pow2(11),
                    pow2(11) > 0,
            ;
            lemma_pow2_adds(53, 11);
        }
        significand * p
    } else {
        truncated_magnitude_small(bits, exponent, fraction)
    }
}

/// The bits of `u as f64` for `u` above `i64::MAX`: such a number lies in
/// `[2^63, 2^64)`, so its binary64 exponent field is 1086 and its 53-bit
/// significand is `u / 2^11`, rounded to nearest with ties to even; rounding
/// up to `2^53` carries into the next exponent (the value `2^64`).
pub open spec fn large_u64_to_f64(u: u64) -> u64 {
    let m = u as nat / 2048;
    let rest = u as nat % 2048;
    let up = rest > 1024 || (rest == 1024 && m % 2 == 1);
    let rounded: nat = if up { m + 1 } else { m };
    if rounded == 2 * two52() {
        (1087 * two52()) as u64
    } else {
        (1086 * two52() + (rounded - two52())) as u64
    }
}

/// `u as f64` on the bits of the result, for `u` above `i64::MAX`.
pub fn large_u64_to_f64_bits(u: u64) -> (r: u64)
    requires
        u > i64::MAX,
    ensures
        r == large_u64_to_f64(u),
{
    let m: u64 = u / 2048;
    let rest: u64 = u % 2048;
    let up = rest > 1024 || (rest == 1024 && m % 2 == 1);
    let rounded: u64 = if up { m + 1 } else { m };
    if rounded == 0x20_0000_0000_0000 {
        1087 * 0x10_0000_0000_0000
    } else {
        1086 * 0x10_0000_0000_0000 + (rounded - 0x10_0000_0000_0000)
    }
}

} // verus!
