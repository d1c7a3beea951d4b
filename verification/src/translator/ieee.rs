//! Single-precision numbers by their bits.
//!
//! An OSC number travels as the 32 bits of an IEEE-754 single: a sign, a
//! biased exponent of eight bits and a fraction of 23 bits. Such a number,
//! if it is finite, is exactly `significand * 2^(shift - 150)`, negated if
//! the sign is set. The functions here compare, divide and scale by that
//! value, in integers, and round as the arithmetic of singles does.

use vstd::arithmetic::power2::{
    lemma2_to64, lemma2_to64_rest, lemma_pow2_adds, lemma_pow2_pos,
    lemma_pow2_strictly_increases, lemma_pow2_unfold, pow2,
};
use vstd::prelude::*;

verus! {

/// The bits of 0.0.
pub const ZERO: u32 = 0;

/// The bits of 0.5.
pub const HALF: u32 = 0x3f00_0000;

/// The bits of 1.0.
pub const ONE: u32 = 0x3f80_0000;

/// Largest magnitude of a scaled number that is reported.
pub const SCALED_MAX: i32 = 65535;

/// Whether the sign bit is set.
pub open spec fn spec_negative(bits: u32) -> bool {
    bits >= 0x8000_0000
}

/// The biased exponent, 0 through 255.
pub open spec fn spec_exponent(bits: u32) -> int {
    (bits as int / 0x80_0000) % 256
}

/// The fraction, 23 bits.
pub open spec fn spec_fraction(bits: u32) -> int {
    bits as int % 0x80_0000
}

/// Whether the bits stand for no number.
pub open spec fn spec_is_nan(bits: u32) -> bool {
    spec_exponent(bits) == 255 && spec_fraction(bits) != 0
}

/// Whether the bits stand for a number that is not infinite.
pub open spec fn spec_is_finite(bits: u32) -> bool {
    spec_exponent(bits) != 255
}

/// The 24 bits of the number's digits: the fraction, with the leading one
/// that a normal number implies.
pub open spec fn spec_significand(bits: u32) -> int {
    if spec_exponent(bits) == 0 {
        spec_fraction(bits)
    } else {
        spec_fraction(bits) + 0x80_0000
    }
}

/// The power of two that the digits are multiplied by, plus 150.
pub open spec fn spec_shift(bits: u32) -> nat {
    if spec_exponent(bits) == 0 {
        1
    } else {
        spec_exponent(bits) as nat
    }
}

/// Whether the number is less than one half. Nothing compares with what is
/// no number; negative zero and negative infinity are less.
///
/// For the others, `significand * 2^(shift - 150) < 1/2`, both sides
/// multiplied by `2^150`.
pub open spec fn spec_below_half(bits: u32) -> bool {
    !spec_is_nan(bits) && (spec_negative(bits) || spec_significand(bits) * pow2(spec_shift(bits))
        < pow2(149))
}

/// `num / den` rounded to the nearest integer, halves upwards, for
/// `num >= 0` and `den > 0`.
pub open spec fn spec_round_div(num: int, den: int) -> int {
    (2 * num + den) / (2 * den)
}

/// How many binary digits `n` has beyond 24, counted from `d` on.
pub open spec fn spec_excess_from(n: int, d: nat) -> nat
    decreases 40 - d,
{
    if d >= 40 || n < pow2(24 + d) {
        d
    } else {
        spec_excess_from(n, d + 1)
    }
}

/// How many binary digits `n` has beyond the 24 that a single holds.
pub open spec fn spec_excess(n: int) -> nat {
    spec_excess_from(n, 0)
}

/// `n` without its last `d` binary digits, rounded to the nearest, and to
/// the even neighbour where two are equally near: the way a single keeps
/// the digits of a product.
pub open spec fn spec_round_even(n: int, d: nat) -> int {
    let p = pow2(d) as int;
    let q = n / p;
    let rest = n % p;
    if 2 * rest > p || (2 * rest == p && q % 2 == 1) {
        q + 1
    } else {
        q
    }
}

/// The magnitude of a finite single times `span`, as multiplication and
/// rounding of singles give it: the exact product is first rounded to 24
/// digits, ties to even, and then to the nearest integer, halves away from
/// zero.
pub open spec fn spec_scaled_magnitude(bits: u32, span: int) -> int {
    let mag = spec_significand(bits) * (if span < 0 { -span } else { span });
    let d = spec_excess(mag);
    let q = spec_round_even(mag, d);
    let e = spec_shift(bits) + d - 150;
    if e >= 0 {
        q * pow2(e as nat)
    } else {
        spec_round_div(q, pow2((-e) as nat) as int)
    }
}

/// A finite single times `span`, rounded as [`spec_scaled_magnitude`]
/// says, with the sign of the product.
pub open spec fn spec_scaled(bits: u32, span: int) -> int {
    if spec_negative(bits) != (span < 0) {
        -spec_scaled_magnitude(bits, span)
    } else {
        spec_scaled_magnitude(bits, span)
    }
}

/// The scaled number, unless it is not finite or its magnitude is above
/// [`SCALED_MAX`].
pub open spec fn spec_round_scaled(bits: u32, span: int) -> Option<i32> {
    if spec_is_finite(bits) && spec_scaled_magnitude(bits, span) <= 65535 {
        Some(spec_scaled(bits, span) as i32)
    } else {
        None
    }
}

/// Two to the power of `e`.
fn pow2_u64(e: u32) -> (r: u64)
    requires
        e <= 62,
    ensures
        r == pow2(e as nat),
{
    let mut r: u64 = 1;
    let mut i: u32 = 0;
    proof {
        lemma2_to64();
    }
    while i < e
        invariant
            i <= e <= 62,
            r == pow2(i as nat),
        decreases e - i,
    {
        proof {
            lemma_pow2_unfold((i + 1) as nat);
            lemma_pow2_strictly_increases((i + 1) as nat, 63);
            lemma2_to64_rest();
        }
        r = r * 2;
        i = i + 1;
    }
    r
}

/// Whether the number with these bits is less than one half.
pub fn below_half(bits: u32) -> (r: bool)
    ensures
        r == spec_below_half(bits),
{
    let exponent: u32 = (bits / 0x80_0000) % 256;
    let fraction: u32 = bits % 0x80_0000;
    let nan = exponent == 255 && fraction != 0;
    let r = !nan && (bits >= 0x8000_0000 || bits < HALF);
    proof {
        if !nan && bits < 0x8000_0000 {
            let sig = spec_significand(bits);
            let shift = spec_shift(bits);
            lemma2_to64();
            lemma_pow2_pos(shift);
            if exponent <= 125 {
                // sig < 2^24 and shift <= 125
                lemma_pow2_adds(24, shift);
                if shift < 125 {
                    lemma_pow2_strictly_increases(24 + shift, 149);
                }
                assert(sig * pow2(shift) < pow2(24) * pow2(shift)) by (nonlinear_arith)
                    requires
                        sig < pow2(24),
                        pow2(shift) > 0,
                ;
                assert(bits < HALF);
            } else {
                // sig >= 2^23 and shift >= 126
                lemma_pow2_adds(23, shift);
                if shift > 126 {
                    lemma_pow2_strictly_increases(149, 23 + shift);
                }
                assert(sig * pow2(shift) >= pow2(23) * pow2(shift)) by (nonlinear_arith)
                    requires
                        sig >= pow2(23),
                        pow2(shift) > 0,
                ;
                assert(bits >= HALF);
            }
        }
    }
    r
}

/// The number with these bits times `span`, rounded to the nearest
/// integer as the multiplication of singles and their rounding give it.
/// `None` if the number is not finite or the result is above
/// [`SCALED_MAX`] in magnitude.
pub(crate) fn round_scaled(bits: u32, span: i32) -> (r: Option<i32>)
    requires
        -65535 <= span <= 65535,
    ensures
        r == spec_round_scaled(bits, span as int),
        r matches Some(v) ==> -65535 <= v <= 65535 && v == spec_scaled(bits, span as int),
{
    let exponent: u32 = (bits / 0x80_0000) % 256;
    let fraction: u32 = bits % 0x80_0000;
    if exponent == 255 {
        return None;
    }
    let significand: u64 = if exponent == 0 {
        fraction as u64
    } else {
        fraction as u64 + 0x80_0000
    };
    let shift: u32 = if exponent == 0 {
        1
    } else {
        exponent
    };
    let width: u64 = if span < 0 {
        (-span) as u64
    } else {
        span as u64
    };
    assert(significand * width <= 0x100_0000 * 65535) by (nonlinear_arith)
        requires
            significand < 0x100_0000,
            width <= 65535,
    ;
    let mag: u64 = significand * width;
    let (q, d) = round_to_single(mag);
    let magnitude: u64 = if q == 0 {
        proof {
            lemma_round_div_zero(shift as int + d - 150);
        }
        0
    } else if shift + d >= 150 {
        proof {
            if d == 0 {
                assert(mag >= 0x80_0000) by (nonlinear_arith)
                    requires
                        mag == significand * width,
                        significand >= 0x80_0000,
                        mag != 0,
                ;
            }
            lemma_pow2_pos((shift + d - 150) as nat);
            assert(q * pow2((shift + d - 150) as nat) >= 0x80_0000) by (nonlinear_arith)
                requires
                    q >= 0x80_0000,
                    pow2((shift + d - 150) as nat) >= 1,
            ;
        }
        return None;
    } else if 150 - shift - d > 25 {
        proof {
            let e = (150 - shift - d) as nat;
            lemma2_to64();
            lemma_pow2_strictly_increases(25, e);
            let den = pow2(e) as int;
            assert((2 * q + den) / (2 * den) == 0) by (nonlinear_arith)
                requires
                    0 <= q,
                    2 * q < den,
            ;
        }
        0
    } else {
        let den: u64 = pow2_u64(150 - shift - d);
        proof {
            lemma2_to64();
            lemma_pow2_pos((150 - shift - d) as nat);
            if 150 - shift - d < 25 {
                lemma_pow2_strictly_increases((150 - shift - d) as nat, 25);
            }
        }
        (2 * q + den) / (2 * den)
    };
    assert(magnitude == spec_scaled_magnitude(bits, span as int));
    if magnitude > 65535 {
        return None;
    }
    let m: i32 = magnitude as i32;
    if (bits >= 0x8000_0000) != (span < 0) {
        Some(-m)
    } else {
        Some(m)
    }
}

/// Rounds `mag` to the 24 digits of a single. Returns the digits and the
/// number of digits dropped.
fn round_to_single(mag: u64) -> (r: (u64, u32))
    requires
        mag < 0x100_0000_0000,
    ensures
        r.1 == spec_excess(mag as int),
        r.0 == spec_round_even(mag as int, r.1 as nat),
        r.1 <= 16,
        r.0 <= 0x100_0000,
        r.1 == 0 ==> r.0 == mag,
        r.1 > 0 ==> r.0 >= 0x80_0000,
{
    let mut d: u32 = 0;
    proof {
        lemma2_to64();
        lemma2_to64_rest();
    }
    while d < 16 && mag >= pow2_u64(24 + d)
        invariant
            d <= 16,
            mag < 0x100_0000_0000,
            pow2(40) == 0x100_0000_0000,
            pow2(23) == 0x80_0000,
            spec_excess(mag as int) == spec_excess_from(mag as int, d as nat),
            d > 0 ==> mag >= pow2((23 + d) as nat),
        decreases 16 - d,
    {
        d = d + 1;
    }
    let p: u64 = pow2_u64(d);
    proof {
        lemma_pow2_pos(d as nat);
        lemma_pow2_adds(24, d as nat);
        lemma_pow2_adds(23, d as nat);
        lemma2_to64();
        if d < 16 {
            lemma_pow2_strictly_increases(d as nat, 16);
        }
        assert(mag < pow2((24 + d) as nat));
        assert(mag / p < 0x100_0000) by (nonlinear_arith)
            requires
                mag < 0x100_0000 * p,
                p > 0,
        ;
        if d > 0 {
            assert(mag / p >= 0x80_0000) by (nonlinear_arith)
                requires
                    mag >= 0x80_0000 * p,
                    p > 0,
            ;
        } else {
            assert(mag / 1 == mag && mag % 1 == 0);
        }
    }
    let q: u64 = mag / p;
    let rest: u64 = mag % p;
    if 2 * rest > p || (2 * rest == p && q % 2 == 1) {
        (q + 1, d)
    } else {
        (q, d)
    }
}

/// Nothing, divided by a power of two or multiplied by one, rounds to
/// nothing.
proof fn lemma_round_div_zero(e: int)
    ensures
        e >= 0 ==> 0 * pow2(e as nat) == 0,
        e < 0 ==> spec_round_div(0, pow2((-e) as nat) as int) == 0,
{
    if e < 0 {
        let den = pow2((-e) as nat) as int;
        lemma_pow2_pos((-e) as nat);
        assert((0 + den) / (2 * den) == 0) by (nonlinear_arith)
            requires
                den > 0,
        ;
    }
}

/// The least `k`, from `k` on, for which `a * 2^k` is at least
/// `b * 2^23`: by so many digits the quotient `a / b` has to be lifted to
/// show the 24 digits of a single.
pub open spec fn spec_lift_from(a: int, b: int, k: nat) -> nat
    decreases 40 - k,
{
    if k >= 40 || a * pow2(k) >= b * 0x80_0000 {
        k
    } else {
        spec_lift_from(a, b, k + 1)
    }
}

/// `n / b` rounded to the nearest integer, and to the even neighbour where
/// two are equally near.
pub open spec fn spec_div_even(n: int, b: int) -> int {
    let q = n / b;
    let rest = n % b;
    if 2 * rest > b || (2 * rest == b && q % 2 == 1) {
        q + 1
    } else {
        q
    }
}

/// The bits of the single that the division of the single `num` by the
/// single `den` gives, for integers `num` and `den` of at most sixteen
/// digits, `den` not zero: the single nearest to the quotient, ties to
/// even, with the sign of the quotient.
pub open spec fn spec_quotient(num: int, den: int) -> u32 {
    let a = if num < 0 { -num } else { num };
    let b = if den < 0 { -den } else { den };
    let sign: int = if (num < 0) != (den < 0) { 0x8000_0000 } else { 0 };
    if a == 0 {
        sign as u32
    } else {
        let k = spec_lift_from(a, b, 0);
        let q = spec_div_even(a * pow2(k), b);
        (sign + (150 - k) * 0x80_0000 + (q - 0x80_0000)) as u32
    }
}

/// Divides `num` by `den` as singles are divided, and returns the bits of
/// the quotient.
pub(crate) fn quotient(num: i32, den: i32) -> (r: u32)
    requires
        -65535 <= num <= 65535,
        -65535 <= den <= 65535,
        den != 0,
    ensures
        r == spec_quotient(num as int, den as int),
{
    let a: u64 = if num < 0 {
        (-num) as u64
    } else {
        num as u64
    };
    let b: u64 = if den < 0 {
        (-den) as u64
    } else {
        den as u64
    };
    let sign: u32 = if (num < 0) != (den < 0) {
        0x8000_0000
    } else {
        0
    };
    if a == 0 {
        return sign;
    }
    let mut n: u64 = a;
    let mut k: u32 = 0;
    proof {
        lemma2_to64();
        lemma2_to64_rest();
    }
    while k < 40 && n < b * 0x80_0000
        invariant
            1 <= a <= 65535,
            1 <= b <= 65535,
            k <= 40,
            n == a * pow2(k as nat),
            n < b * 0x100_0000,
            pow2(40) == 0x100_0000_0000,
            spec_lift_from(a as int, b as int, 0) == spec_lift_from(a as int, b as int, k as nat),
        decreases 40 - k,
    {
        proof {
            lemma_pow2_unfold((k + 1) as nat);
            assert(a * (2 * pow2(k as nat)) == 2 * (a * pow2(k as nat))) by (nonlinear_arith);
        }
        n = n * 2;
        k = k + 1;
    }
    proof {
        if k == 40 {
            assert(a * pow2(40) >= b * 0x80_0000) by (nonlinear_arith)
                requires
                    a >= 1,
                    b <= 65535,
                    pow2(40) == 0x100_0000_0000,
            ;
        }
        assert(n / b < 0x100_0000) by (nonlinear_arith)
            requires
                n < b * 0x100_0000,
                b > 0,
        ;
        assert(n / b >= 0x80_0000) by (nonlinear_arith)
            requires
                n >= b * 0x80_0000,
                b > 0,
        ;
    }
    let q0: u64 = n / b;
    let rest: u64 = n % b;
    let q: u64 = if 2 * rest > b || (2 * rest == b && q0 % 2 == 1) {
        q0 + 1
    } else {
        q0
    };
    sign + (150 - k) * 0x80_0000 + (q - 0x80_0000) as u32
}

} // verus!
