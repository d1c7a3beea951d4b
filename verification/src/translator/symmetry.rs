//! The two directions of a rule undo each other: the OSC number that a
//! rule makes of a control value leads back to the value.

use vstd::arithmetic::div_mod::{lemma_fundamental_div_mod, lemma_fundamental_div_mod_converse};
use vstd::arithmetic::power2::{
    lemma2_to64, lemma2_to64_rest, lemma_pow2_adds, lemma_pow2_pos,
    lemma_pow2_strictly_increases, lemma_pow2_unfold, pow2,
};
use vstd::prelude::*;

use crate::message::{ControlChange, MidiEvent, MidiEventView};
use crate::translator::ccx::{
    spec_bool_midi_to_osc, spec_bool_osc_to_midi, spec_cv_to_bool, spec_cv_to_normalized,
    spec_make_cc, spec_normalized_to_cv, spec_range_midi_to_osc, spec_range_osc_to_midi,
    spec_value_of_shape, BoolView, RangeView,
};
use crate::translator::ieee::{
    spec_below_half, spec_div_even, spec_excess_from, spec_exponent, spec_fraction,
    spec_is_finite, spec_lift_from, spec_negative, spec_quotient, spec_round_div,
    spec_round_even, spec_scaled, spec_scaled_magnitude, spec_shift, spec_significand,
};
use crate::translator::{spec_reaches, OscArg};

verus! {

/// The lift of a quotient brings it between `2^23` and `2^24`.
proof fn lemma_lift(a: int, b: int, j: nat)
    requires
        1 <= a <= 65535,
        1 <= b <= 65535,
        j <= 40,
        a * pow2(j) < b * 0x100_0000,
    ensures
        j <= spec_lift_from(a, b, j) < 40,
        a * pow2(spec_lift_from(a, b, j)) >= b * 0x80_0000,
        a * pow2(spec_lift_from(a, b, j)) < b * 0x100_0000,
    decreases 40 - j,
{
    lemma2_to64_rest();
    if j >= 40 {
        assert(a * pow2(40) >= b * 0x100_0000) by (nonlinear_arith)
            requires
                a >= 1,
                b <= 65535,
                pow2(40) == 0x100_0000_0000,
        ;
    } else if a * pow2(j) >= b * 0x80_0000 {
    } else {
        lemma_pow2_unfold(j + 1);
        assert(a * pow2(j + 1) == 2 * (a * pow2(j))) by (nonlinear_arith)
            requires
                pow2(j + 1) == 2 * pow2(j),
        ;
        lemma_lift(a, b, j + 1);
    }
}

/// Rounding a quotient to the nearest integer misses it by half a divisor
/// at most.
proof fn lemma_div_even_is_near(n: int, b: int)
    requires
        0 <= n,
        0 < b,
    ensures
        2 * (spec_div_even(n, b) * b - n) <= b,
        2 * (n - spec_div_even(n, b) * b) <= b,
        n / b <= spec_div_even(n, b) <= n / b + 1,
{
    lemma_fundamental_div_mod(n, b);
    let q = n / b;
    let rest = n % b;
    assert(0 <= rest < b) by (nonlinear_arith)
        requires
            0 <= n,
            0 < b,
            rest == n % b,
    ;
    assert((q + 1) * b == q * b + b) by (nonlinear_arith);
    assert(b * q == q * b) by (nonlinear_arith);
}

/// The digits that a number has beyond 24, for a number below `2^40`.
proof fn lemma_excess(n: int, j: nat)
    requires
        0 <= n < 0x100_0000_0000,
        j <= 16,
    ensures
        j <= spec_excess_from(n, j) <= 16,
        n < pow2(24 + spec_excess_from(n, j)),
    decreases 16 - j,
{
    lemma2_to64_rest();
    if n < pow2(24 + j) {
    } else {
        if j == 16 {
            assert(pow2(40) == 0x100_0000_0000);
        }
        lemma_excess(n, j + 1);
    }
}

/// The single that [`spec_quotient`] puts together holds the digits and
/// the power of two that it was put together from.
proof fn lemma_digits_of_quotient(k: nat, q: int)
    requires
        23 <= k < 40,
        0x80_0000 <= q <= 0x100_0000,
    ensures
        ({
            let bits = ((150 - k) * 0x80_0000 + (q - 0x80_0000)) as u32;
            &&& !spec_negative(bits)
            &&& spec_is_finite(bits)
            &&& q < 0x100_0000 ==> spec_significand(bits) == q && spec_shift(bits) == 150 - k
            &&& q == 0x100_0000 ==> spec_significand(bits) == 0x80_0000 && spec_shift(bits) == 151
                - k
        }),
{
}

/// A control value's position in a range, scaled by the width of the
/// range, is the value's distance from the start of the range: for
/// `0 < a <= b`, the single nearest to `a / b`, multiplied by `b` as
/// singles are and rounded, is `a`.
pub proof fn lemma_scales_back(a: int, b: int)
    requires
        1 <= a <= b <= 65535,
    ensures
        spec_is_finite(spec_quotient(a, b)),
        !spec_negative(spec_quotient(a, b)),
        spec_scaled_magnitude(spec_quotient(a, b), b) == a,
{
    lemma2_to64();
    lemma2_to64_rest();
    let k = spec_lift_from(a, b, 0);
    lemma_lift(a, b, 0);
    let p = pow2(k) as int;
    if k < 23 {
        lemma_pow2_strictly_increases(k, 23);
        assert(a * p < b * 0x80_0000) by (nonlinear_arith)
            requires
                p < 0x80_0000,
                1 <= a <= b,
        ;
    }
    let n = a * p;
    let q = spec_div_even(n, b);
    lemma_div_even_is_near(n, b);
    assert(n / b >= 0x80_0000) by (nonlinear_arith)
        requires
            n >= b * 0x80_0000,
            b > 0,
    ;
    assert(n / b < 0x100_0000) by (nonlinear_arith)
        requires
            n < b * 0x100_0000,
            b > 0,
    ;
    let bits = spec_quotient(a, b);
    assert(bits == ((150 - k) * 0x80_0000 + (q - 0x80_0000)) as u32);
    lemma_digits_of_quotient(k, q);
    let sig = spec_significand(bits);
    let t = (150 - spec_shift(bits)) as nat;
    let c: int = if q < 0x100_0000 { 1 } else { 2 };
    assert(sig * c == q);
    lemma_pow2_unfold(k);
    assert(p == c * pow2(t));
    let mag = sig * b;
    assert(0 <= mag < 0x100_0000_0000) by (nonlinear_arith)
        requires
            mag == sig * b,
            0 <= sig <= 0x100_0000 - 1,
            1 <= b <= 65535,
    ;
    let d = spec_excess_from(mag, 0);
    lemma_excess(mag, 0);
    let dd = pow2(d) as int;
    lemma_pow2_pos(d);
    if d < 16 {
        lemma_pow2_strictly_increases(d, 16);
    }
    let r = spec_round_even(mag, d);
    assert(r == spec_div_even(mag, dd));
    lemma_div_even_is_near(mag, dd);
    let m = pow2((t - d) as nat) as int;
    lemma_pow2_pos((t - d) as nat);
    lemma_pow2_adds((t - d) as nat, d);
    assert(m * dd == pow2(t));
    if t > 22 {
        lemma_pow2_strictly_increases(22, t);
    }
    assert(m * dd >= 0x40_0000);
    lemma_near_the_value(a, b, c, sig, q, mag, r, m, dd);
    lemma_fundamental_div_mod_converse(2 * r + m, 2 * m, a, 2 * r + m - 2 * a * m);
    assert(spec_round_div(r, m) == a);
    assert(spec_shift(bits) + d - 150 < 0);
}

/// The inequalities behind [`lemma_scales_back`]: two roundings, each by
/// half a unit at most, leave the scaled position within half of `a`.
proof fn lemma_near_the_value(
    a: int,
    b: int,
    c: int,
    sig: int,
    q: int,
    mag: int,
    r: int,
    m: int,
    dd: int,
)
    requires
        1 <= a,
        1 <= b <= 65535,
        1 <= c <= 2,
        sig * c == q,
        mag == sig * b,
        2 * (q * b - a * (c * (m * dd))) <= b,
        2 * (a * (c * (m * dd)) - q * b) <= b,
        2 * (r * dd - mag) <= dd,
        2 * (mag - r * dd) <= dd,
        1 <= dd <= 65536,
        1 <= m,
        m * dd >= 0x40_0000,
    ensures
        0 <= 2 * r + m - 2 * a * m < 2 * m,
        2 * r + m == a * (2 * m) + (2 * r + m - 2 * a * m),
{
    let x = mag - a * (m * dd);
    assert(q * b - a * (c * (m * dd)) == c * x) by (nonlinear_arith)
        requires
            sig * c == q,
            mag == sig * b,
            x == mag - a * (m * dd),
    ;
    assert(2 * x <= b && -2 * x <= b) by (nonlinear_arith)
        requires
            2 * (c * x) <= b,
            -2 * (c * x) <= b,
            1 <= c,
            0 <= b,
    ;
    let y = r - a * m;
    assert(r * dd - a * (m * dd) == y * dd) by (nonlinear_arith)
        requires
            y == r - a * m,
    ;
    assert(2 * (y * dd) <= b + dd && -2 * (y * dd) <= b + dd);
    assert(b + dd < m * dd);
    assert(2 * y < m && -2 * y < m) by (nonlinear_arith)
        requires
            2 * (y * dd) < m * dd,
            -2 * (y * dd) < m * dd,
            1 <= dd,
    ;
    assert(a * (2 * m) == 2 * a * m) by (nonlinear_arith);
    assert(2 * a * m == 2 * (a * m)) by (nonlinear_arith);
}

/// Nothing, scaled by any width, is nothing, whatever its sign.
proof fn lemma_zero_scales_to_zero(bits: u32, span: int)
    requires
        bits == 0 || bits == 0x8000_0000,
    ensures
        spec_is_finite(bits),
        spec_scaled_magnitude(bits, span) == 0,
{
    lemma2_to64();
    assert(spec_significand(bits) == 0);
    assert(spec_shift(bits) == 1);
    let w = if span < 0 { -span } else { span };
    assert(0 * w == 0);
    assert(spec_excess_from(0, 0) == 0);
    assert(spec_round_even(0, 0) == 0);
    lemma_pow2_pos(149);
    let den = pow2(149) as int;
    assert((0 + den) / (2 * den) == 0) by (nonlinear_arith)
        requires
            den > 0,
    ;
}

/// The position of a control value in a range leads back to the value:
/// for a range with a width and a value inside it, whichever end is the
/// larger, scaling the position by the width and adding the start gives
/// the value again.
pub proof fn lemma_position_leads_back(v: u16, low: u16, high: u16)
    requires
        low != high,
        low <= v <= high || high <= v <= low,
    ensures
        spec_cv_to_normalized(v, low, high) matches Some(bits) && spec_normalized_to_cv(
            bits,
            low,
            high,
        ) == Some(v as int),
{
    let num = v - low;
    let den = high - low;
    let bits = spec_quotient(num, den);
    if num == 0 {
        lemma_zero_scales_to_zero(bits, den);
    } else {
        let a = if num < 0 { -num } else { num };
        let b = if den < 0 { -den } else { den };
        lemma_scales_back(a, b);
        assert(spec_quotient(num, den) == spec_quotient(a, b));
        assert(spec_scaled_magnitude(bits, den) == spec_scaled_magnitude(bits, b));
    }
    assert(spec_scaled(bits, den) == num);
}

/// A range rule is symmetric: the OSC message that it makes of a change of
/// its control to a value inside its range, sent back to the rule's
/// address, gives that change again.
pub proof fn lemma_range_rule_is_symmetric(
    rule: RangeView,
    control: ControlChange,
    pattern: Seq<char>,
)
    requires
        rule.low != rule.high,
        control.control == rule.control,
        spec_value_of_shape(rule.shape, control) matches Some(v) && (rule.low <= v <= rule.high
            || rule.high <= v <= rule.low) && spec_make_cc(rule.control, rule.shape, v as int)
            is Some,
        spec_reaches(pattern, rule.address),
    ensures
        spec_range_midi_to_osc(
            rule,
            MidiEventView::ControlChange { channel: rule.channel, control },
        ) matches Some(m) && spec_range_osc_to_midi(rule, pattern, m.args) == Some(
            MidiEvent::ControlChange { channel: rule.channel, control },
        ),
{
    let v = spec_value_of_shape(rule.shape, control)->0;
    lemma_position_leads_back(v, rule.low, rule.high);
    let bits = spec_cv_to_normalized(v, rule.low, rule.high)->0;
    let args = seq![OscArg::Float(bits)];
    assert(args.len() == 1 && args[0] == OscArg::Float(bits));
}

/// Zero is less than one half, and one is not.
pub proof fn lemma_zero_and_one()
    ensures
        spec_below_half(0),
        !spec_below_half(0x3f80_0000),
{
    lemma_pow2_pos(149);
    assert(spec_significand(0) == 0 && spec_shift(0) == 1);
    assert(0 * pow2(1) == 0);
    assert(spec_exponent(0x3f80_0000) == 127 && spec_fraction(0x3f80_0000) == 0);
    lemma2_to64();
    lemma_pow2_adds(23, 127);
    lemma_pow2_strictly_increases(149, 150);
}

/// A switch rule is symmetric on its two values: the OSC message that it
/// makes of a change of its control to `off` or to `on`, sent back to the
/// rule's address, gives that change again.
pub proof fn lemma_switch_rule_is_symmetric(
    rule: BoolView,
    control: ControlChange,
    pattern: Seq<char>,
)
    requires
        control.control == rule.control,
        spec_value_of_shape(rule.shape, control) matches Some(v) && (v == rule.off || v == rule.on)
            && spec_make_cc(rule.control, rule.shape, v as int) is Some,
        spec_reaches(pattern, rule.address),
    ensures
        spec_bool_midi_to_osc(
            rule,
            MidiEventView::ControlChange { channel: rule.channel, control },
        ) matches Some(m) && spec_bool_osc_to_midi(rule, pattern, m.args) == Some(
            MidiEvent::ControlChange { channel: rule.channel, control },
        ),
{
    lemma_zero_and_one();
    let v = spec_value_of_shape(rule.shape, control)->0;
    let state = spec_cv_to_bool(rule.off, rule.on, v);
    let bits = if state { 0x3f80_0000u32 } else { 0u32 };
    let args = seq![OscArg::Float(bits)];
    assert(args.len() == 1 && args[0] == OscArg::Float(bits));
}

} // verus!
