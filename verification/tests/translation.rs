use bcr2kosc::message::{
    bool_from_cc, u16_from_cc, u8_from_cc, ControlChange, ControlValue, MidiEvent,
};
use bcr2kosc::translator::ccx::{
    cv_to_normalized_float, float_from_osc, make_cc, normalized_float_to_cv, value_of_shape,
    ControlChangeBoolTranslator, ControlChangeHighResRangeTranslator, ControlShape,
    TranslatorError,
};
use bcr2kosc::translator::ieee::below_half;
use bcr2kosc::translator::{
    OscArg, OscBundle, OscMessage, OscPacket, OscTime, ServerTranslationSet, TranslationRule,
    Translator,
};

fn cc(channel: u8, control: u8, value: ControlValue) -> MidiEvent {
    MidiEvent::ControlChange { channel, control: ControlChange { control, value } }
}

fn as_float(arg: &OscArg) -> f32 {
    match arg {
        OscArg::Float(bits) => f32::from_bits(*bits),
        OscArg::Other => panic!("no number"),
    }
}

fn message(addr: &str, args: Vec<OscArg>) -> OscPacket {
    OscPacket::Message(OscMessage { addr: addr.to_string(), args })
}

fn round_scaled(bits: u32, span: i32) -> Option<i32> {
    if span >= 0 {
        normalized_float_to_cv(bits, 0, span as u16)
    } else {
        normalized_float_to_cv(bits, (-span) as u16, 0).map(|v| v + span)
    }
}

/// The quotient of two differences of control values, where values with
/// these differences exist.
fn quotient(num: i32, den: i32) -> Option<u32> {
    let low = 0.max(-num).max(-den);
    let (v, high) = (low + num, low + den);
    if v <= 65535 && high <= 65535 {
        cv_to_normalized_float(v as u16, low as u16, high as u16)
    } else {
        None
    }
}

fn encoder_rule() -> ControlChangeHighResRangeTranslator {
    ControlChangeHighResRangeTranslator::with_shape(0, 1, ControlShape::Simple, 0, 127, "/encoder/1")
        .unwrap()
}

fn key_rule() -> ControlChangeBoolTranslator {
    ControlChangeBoolTranslator::new(0, 0x41, 0, 127, "/key/1").unwrap()
}

#[test]
fn range_rule_scales_both_ways() {
    let rule = encoder_rule();
    let out = rule.midi_to_osc(&cc(0, 1, ControlValue::Simple(64))).unwrap();
    match &out {
        OscPacket::Message(m) => {
            assert_eq!(m.addr, "/encoder/1");
            assert_eq!(m.args, vec![OscArg::Float((64.0f32 / 127.0f32).to_bits())]);
            assert!((as_float(&m.args[0]) - 0.504).abs() < 0.0005);
        }
        OscPacket::Bundle(_) => panic!("a rule gives a message"),
    }
    assert_eq!(
        rule.osc_to_midi("/encoder/1", &[OscArg::Float(0.5f32.to_bits())]),
        Some(cc(0, 1, ControlValue::Simple(64)))
    );
    assert_eq!(
        rule.osc_to_midi("/encoder/1", &[OscArg::Float(0.0f32.to_bits())]),
        Some(cc(0, 1, ControlValue::Simple(0)))
    );
    assert_eq!(
        rule.osc_to_midi("/encoder/1", &[OscArg::Float(1.0f32.to_bits())]),
        Some(cc(0, 1, ControlValue::Simple(127)))
    );
}

#[test]
fn range_rule_answers_only_its_own_control() {
    let rule = encoder_rule();
    assert_eq!(rule.midi_to_osc(&cc(1, 1, ControlValue::Simple(64))), None);
    assert_eq!(rule.midi_to_osc(&cc(0, 2, ControlValue::Simple(64))), None);
    assert_eq!(rule.midi_to_osc(&cc(0, 1, ControlValue::HighRes(64))), None);
    assert_eq!(rule.midi_to_osc(&cc(0, 1, ControlValue::Toggle(true))), None);
    assert_eq!(rule.midi_to_osc(&MidiEvent::Other), None);
    assert_eq!(rule.osc_to_midi("/encoder/2", &[OscArg::Float(0.5f32.to_bits())]), None);
    assert_eq!(rule.osc_to_midi("/key/1", &[OscArg::Float(0.5f32.to_bits())]), None);
}

#[test]
fn what_is_no_single_number_is_dropped() {
    let rule = encoder_rule();
    assert_eq!(rule.osc_to_midi("/encoder/1", &[]), None);
    assert_eq!(rule.osc_to_midi("/encoder/1", &[OscArg::Other]), None);
    let half = OscArg::Float(0.5f32.to_bits());
    assert_eq!(rule.osc_to_midi("/encoder/1", &[half, half]), None);
    assert_eq!(rule.osc_to_midi("/encoder/1", &[OscArg::Float(f32::NAN.to_bits())]), None);
    assert_eq!(rule.osc_to_midi("/encoder/1", &[OscArg::Float(f32::INFINITY.to_bits())]), None);
    assert_eq!(rule.osc_to_midi("/encoder/1", &[OscArg::Float(1.5f32.to_bits())]), None);
    assert_eq!(rule.osc_to_midi("/encoder/1", &[OscArg::Float((-0.5f32).to_bits())]), None);
    assert_eq!(float_from_osc(&[half]), Some(0.5f32.to_bits()));
    assert_eq!(float_from_osc(&[OscArg::Other]), None);
    assert_eq!(float_from_osc(&[]), None);
    assert_eq!(float_from_osc(&[half, OscArg::Other]), None);
}

#[test]
fn high_resolution_range() {
    let rule = ControlChangeHighResRangeTranslator::new(2, 7, 0, 16383, "/fader/3").unwrap();
    let out = rule.midi_to_osc(&cc(2, 7, ControlValue::HighRes(8192))).unwrap();
    assert_eq!(out, message("/fader/3", vec![OscArg::Float((8192.0f32 / 16383.0f32).to_bits())]));
    assert_eq!(rule.midi_to_osc(&cc(2, 7, ControlValue::Simple(64))), None);
    assert_eq!(
        rule.osc_to_midi("/fader/3", &[OscArg::Float(1.0f32.to_bits())]),
        Some(cc(2, 7, ControlValue::HighRes(16383)))
    );
    assert_eq!(
        rule.osc_to_midi("/fader/3", &[OscArg::Float(0.25f32.to_bits())]),
        Some(cc(2, 7, ControlValue::HighRes(4096)))
    );
}

#[test]
fn ranges_with_an_offset_and_reversed() {
    let rule =
        ControlChangeHighResRangeTranslator::with_shape(0, 9, ControlShape::Simple, 10, 110, "/a")
            .unwrap();
    assert_eq!(
        rule.midi_to_osc(&cc(0, 9, ControlValue::Simple(35))),
        Some(message("/a", vec![OscArg::Float((25.0f32 / 100.0f32).to_bits())]))
    );
    assert_eq!(
        rule.midi_to_osc(&cc(0, 9, ControlValue::Simple(5))),
        Some(message("/a", vec![OscArg::Float((-5.0f32 / 100.0f32).to_bits())]))
    );
    assert_eq!(
        rule.osc_to_midi("/a", &[OscArg::Float(0.25f32.to_bits())]),
        Some(cc(0, 9, ControlValue::Simple(35)))
    );
    let back =
        ControlChangeHighResRangeTranslator::with_shape(0, 9, ControlShape::Simple, 127, 0, "/a")
            .unwrap();
    assert_eq!(
        back.midi_to_osc(&cc(0, 9, ControlValue::Simple(0))),
        Some(message("/a", vec![OscArg::Float((-127.0f32 / -127.0f32).to_bits())]))
    );
    assert_eq!(
        back.osc_to_midi("/a", &[OscArg::Float(1.0f32.to_bits())]),
        Some(cc(0, 9, ControlValue::Simple(0)))
    );
    assert_eq!(
        back.osc_to_midi("/a", &[OscArg::Float(0.0f32.to_bits())]),
        Some(cc(0, 9, ControlValue::Simple(127)))
    );
    assert_eq!(cv_to_normalized_float(64, 0, 127), Some((64.0f32 / 127.0f32).to_bits()));
    assert_eq!(cv_to_normalized_float(64, 5, 5), None);
    assert_eq!(cv_to_normalized_float(0, 0, 127), Some(0));
    assert_eq!(cv_to_normalized_float(127, 0, 127), Some(1.0f32.to_bits()));
    assert_eq!(normalized_float_to_cv(0.5f32.to_bits(), 0, 127), Some(64));
    assert_eq!(normalized_float_to_cv(0.5f32.to_bits(), 127, 0), Some(63));
    assert_eq!(normalized_float_to_cv(2.0f32.to_bits(), 0, 127), Some(254));
    assert_eq!(normalized_float_to_cv(f32::NAN.to_bits(), 0, 127), None);
}

#[test]
fn switch_rule_shows_zero_or_one() {
    let rule = key_rule();
    let low = rule.midi_to_osc(&cc(0, 0x41, ControlValue::Simple(0))).unwrap();
    assert_eq!(low, message("/key/1", vec![OscArg::Float(0.0f32.to_bits())]));
    let high = rule.midi_to_osc(&cc(0, 0x41, ControlValue::Simple(127))).unwrap();
    assert_eq!(high, message("/key/1", vec![OscArg::Float(1.0f32.to_bits())]));
    assert_eq!(
        rule.midi_to_osc(&cc(0, 0x41, ControlValue::Simple(63))),
        Some(message("/key/1", vec![OscArg::Float(0.0f32.to_bits())]))
    );
    assert_eq!(
        rule.midi_to_osc(&cc(0, 0x41, ControlValue::Simple(64))),
        Some(message("/key/1", vec![OscArg::Float(1.0f32.to_bits())]))
    );
    assert_eq!(
        rule.midi_to_osc(&cc(0, 0x41, ControlValue::Toggle(true))),
        Some(message("/key/1", vec![OscArg::Float(1.0f32.to_bits())]))
    );
    assert_eq!(
        rule.midi_to_osc(&cc(0, 0x41, ControlValue::HighRes(9000))),
        Some(message("/key/1", vec![OscArg::Float(1.0f32.to_bits())]))
    );
    assert_eq!(rule.midi_to_osc(&cc(0, 0x40, ControlValue::Simple(127))), None);
    assert_eq!(rule.midi_to_osc(&cc(3, 0x41, ControlValue::Simple(127))), None);
}

#[test]
fn switch_rule_sends_off_or_on_and_nothing_between() {
    let rule = key_rule();
    for f in [-1.0f32, -0.0, 0.0, 0.1, 0.25, 0.49, 0.499_999_97, f32::NEG_INFINITY] {
        assert_eq!(
            rule.osc_to_midi("/key/1", &[OscArg::Float(f.to_bits())]),
            Some(cc(0, 0x41, ControlValue::Simple(0))),
            "{f}"
        );
        assert_eq!(rule.float_to_cv(f.to_bits()), 0);
    }
    for f in [0.5f32, 0.500_000_06, 0.75, 1.0, 100.0, f32::INFINITY, f32::NAN] {
        assert_eq!(
            rule.osc_to_midi("/key/1", &[OscArg::Float(f.to_bits())]),
            Some(cc(0, 0x41, ControlValue::Simple(127))),
            "{f}"
        );
        assert_eq!(rule.float_to_cv(f.to_bits()), 127);
    }
    let mut bits: u32 = 0;
    loop {
        let v = rule.float_to_cv(bits);
        assert!(v == 0 || v == 127);
        let f = f32::from_bits(bits);
        assert_eq!(v == 0, f < 0.5);
        match bits.checked_add(0x0001_0007) {
            Some(next) => bits = next,
            None => break,
        }
    }
}

#[test]
fn switch_midpoint_is_symmetric() {
    let up = ControlChangeBoolTranslator::new(0, 1, 0, 127, "/k").unwrap();
    let down = ControlChangeBoolTranslator::new(0, 1, 127, 0, "/k").unwrap();
    for cv in 0..=127u16 {
        assert_eq!(up.cv_to_bool(cv), cv >= 64);
        assert_eq!(down.cv_to_bool(cv), cv <= 63);
        assert_eq!(up.cv_to_bool(cv), !down.cv_to_bool(cv));
    }
    let offset = ControlChangeBoolTranslator::new(0, 1, 20, 40, "/k").unwrap();
    assert!(!offset.cv_to_bool(30));
    assert!(offset.cv_to_bool(31));
    assert_eq!(down.float_to_cv(0.2f32.to_bits()), 127);
    assert_eq!(down.float_to_cv(0.8f32.to_bits()), 0);
}

#[test]
fn addresses_are_checked_when_a_rule_is_made() {
    for bad in ["", "encoder/1", "/", "/encoder/", "/enc oder", "/a//b", "/a*", "/a/{b,c}", "/k\u{e4}"] {
        assert_eq!(
            ControlChangeHighResRangeTranslator::new(0, 1, 0, 127, bad),
            Err(TranslatorError::BadAddress),
            "{bad}"
        );
        assert_eq!(
            ControlChangeBoolTranslator::new(0, 1, 0, 127, bad),
            Err(TranslatorError::BadAddress),
            "{bad}"
        );
    }
    assert!(ControlChangeHighResRangeTranslator::new(0, 1, 0, 127, "/a/b-c_d.1").is_ok());
}

#[test]
fn patterns_reach_the_addresses_they_match() {
    let rule = encoder_rule();
    let half = [OscArg::Float(0.5f32.to_bits())];
    let hit = Some(cc(0, 1, ControlValue::Simple(64)));
    assert_eq!(rule.osc_to_midi("/encoder/*", &half), hit);
    assert_eq!(rule.osc_to_midi("/encoder/[0-9]", &half), hit);
    assert_eq!(rule.osc_to_midi("/{encoder,fader}/1", &half), hit);
    assert_eq!(rule.osc_to_midi("/encode?/1", &half), hit);
    assert_eq!(rule.osc_to_midi("/*/*", &half), hit);
    assert_eq!(rule.osc_to_midi("/encoder/[2-9]", &half), None);
    assert_eq!(rule.osc_to_midi("/encoder", &half), None);
    assert_eq!(rule.osc_to_midi("/encoder/1/x", &half), None);
    assert_eq!(rule.osc_to_midi("encoder/1", &half), None);
    assert_eq!(rule.osc_to_midi("", &half), None);
    assert_eq!(rule.osc_to_midi("/encoder/[", &half), None);
}

#[test]
fn control_values_by_shape() {
    let hi = ControlChange { control: 7, value: ControlValue::HighRes(300) };
    let lo = ControlChange { control: 7, value: ControlValue::Simple(30) };
    let sw = ControlChange { control: 7, value: ControlValue::Toggle(true) };
    assert_eq!(u16_from_cc(&hi), Some(300));
    assert_eq!(u16_from_cc(&lo), None);
    assert_eq!(u16_from_cc(&sw), None);
    assert_eq!(u8_from_cc(&lo), Some(30));
    assert_eq!(u8_from_cc(&hi), None);
    assert_eq!(bool_from_cc(&sw), Some(true));
    assert_eq!(bool_from_cc(&lo), None);
    assert_eq!(value_of_shape(ControlShape::HighRes, &hi), Some(300));
    assert_eq!(value_of_shape(ControlShape::Simple, &hi), None);
    assert_eq!(value_of_shape(ControlShape::Simple, &lo), Some(30));
    assert_eq!(value_of_shape(ControlShape::HighRes, &sw), None);
    assert_eq!(make_cc(7, ControlShape::HighRes, 300), Some(hi));
    assert_eq!(make_cc(7, ControlShape::Simple, 30), Some(lo));
    assert_eq!(make_cc(7, ControlShape::Simple, 128), None);
    assert_eq!(make_cc(7, ControlShape::HighRes, 16384), None);
    assert_eq!(make_cc(7, ControlShape::HighRes, -1), None);
    assert_eq!(make_cc(7, ControlShape::HighRes, 16383).map(|c| c.value), Some(ControlValue::HighRes(16383)));
}

#[test]
fn rounding_is_to_the_nearest_and_halves_go_away_from_zero() {
    assert_eq!(round_scaled(0.5f32.to_bits(), 127), Some(64));
    assert_eq!(round_scaled(0.5f32.to_bits(), -127), Some(-64));
    assert_eq!(round_scaled((-0.5f32).to_bits(), 127), Some(-64));
    assert_eq!(round_scaled((-0.5f32).to_bits(), -127), Some(64));
    assert_eq!(round_scaled(0.5f32.to_bits(), 1), Some(1));
    assert_eq!(round_scaled(0.499_999_97f32.to_bits(), 1), Some(0));
    assert_eq!(round_scaled(0.25f32.to_bits(), 2), Some(1));
    assert_eq!(round_scaled(1.0f32.to_bits(), 65535), Some(65535));
    assert_eq!(round_scaled(2.0f32.to_bits(), 65535), None);
    assert_eq!(round_scaled(1.0e30f32.to_bits(), 1), None);
    assert_eq!(round_scaled(1.0e30f32.to_bits(), 0), Some(0));
    assert_eq!(round_scaled(8_388_608.0f32.to_bits(), 1), None);
    assert_eq!(round_scaled(65535.0f32.to_bits(), 1), Some(65535));
    assert_eq!(round_scaled(65536.0f32.to_bits(), 1), None);
    assert_eq!(round_scaled(0.0f32.to_bits(), 127), Some(0));
    assert_eq!(round_scaled((-0.0f32).to_bits(), 127), Some(0));
    assert_eq!(round_scaled(1.0e-30f32.to_bits(), 65535), Some(0));
    assert_eq!(round_scaled(f32::MIN_POSITIVE.to_bits(), 65535), Some(0));
    assert_eq!(round_scaled(1u32, 65535), Some(0));
    assert_eq!(round_scaled(f32::NAN.to_bits(), 1), None);
    assert_eq!(round_scaled(f32::INFINITY.to_bits(), 1), None);
    assert_eq!(round_scaled(f32::NEG_INFINITY.to_bits(), 0), None);
    assert_eq!(round_scaled(0.3f32.to_bits(), 10), Some(3));
    assert_eq!(round_scaled(0.35f32.to_bits(), 10), Some(4));
    assert_eq!(round_scaled(0.349_999_9f32.to_bits(), 10), Some(3));
    assert_eq!(round_scaled(2.5f32.to_bits(), 1), Some(3));
    assert_eq!(round_scaled((-2.5f32).to_bits(), 1), Some(-3));
    assert_eq!(round_scaled(0.5f32.to_bits(), 65535), Some(32768));
}

fn expected_scaled(f: f32, span: i32) -> Option<i32> {
    let r = (f * span as f32).round();
    if r.is_finite() && r.abs() <= 65535.0 {
        Some(r as i32)
    } else {
        None
    }
}

#[test]
fn scaling_agrees_with_single_precision_arithmetic() {
    for span in [0i32, 1, 2, 3, 10, 100, 127, 1000, 16383, -1, -127, -16383, 65535, -65535] {
        for k in 0..=2000u32 {
            let f = k as f32 / 1600.0;
            assert_eq!(round_scaled(f.to_bits(), span), expected_scaled(f, span), "{f} * {span}");
            assert_eq!(round_scaled((-f).to_bits(), span), expected_scaled(-f, span), "-{f} * {span}");
        }
    }
    let mut x: u32 = 0x1234_5678;
    for _ in 0..200_000 {
        x ^= x << 13;
        x ^= x >> 17;
        x ^= x << 5;
        let bits = x;
        let mut y = x.wrapping_mul(0x9e37_79b9);
        y ^= y >> 15;
        let span = (y % 131_071) as i32 - 65535;
        let f = f32::from_bits(bits);
        assert_eq!(round_scaled(bits, span), expected_scaled(f, span), "{bits:#x} * {span}");
        let near_one = f32::from_bits(0x3f00_0000 + (bits % 0x0100_0000));
        assert_eq!(
            round_scaled(near_one.to_bits(), span),
            expected_scaled(near_one, span),
            "{near_one} * {span}"
        );
    }
}

#[test]
fn division_agrees_with_single_precision_arithmetic() {
    assert_eq!(quotient(64, 127), Some(0x3f01_0204));
    assert_eq!(quotient(1, 2), Some(0.5f32.to_bits()));
    assert_eq!(quotient(1, 3), Some((1.0f32 / 3.0).to_bits()));
    assert_eq!(quotient(0, 5), Some(0.0f32.to_bits()));
    assert_eq!(quotient(0, -5), Some((-0.0f32).to_bits()));
    assert_eq!(quotient(65535, 1), Some(65535.0f32.to_bits()));
    assert_eq!(quotient(1, 65535), Some((1.0f32 / 65535.0).to_bits()));
    assert_eq!(quotient(-3, 4), Some((-0.75f32).to_bits()));
    assert_eq!(quotient(-65535, -1), Some(65535.0f32.to_bits()));
    assert_eq!(quotient(5, 0), None);
    for num in -300..=300i32 {
        for den in -300..=300i32 {
            if den != 0 {
                let expected = (num as f32 / den as f32).to_bits();
                assert_eq!(quotient(num, den), Some(expected), "{num} / {den}");
            }
        }
    }
    let mut x: u32 = 0x2545_f491;
    let mut compared = 0;
    for _ in 0..300_000 {
        x ^= x << 13;
        x ^= x >> 17;
        x ^= x << 5;
        let num = (x % 131_071) as i32 - 65535;
        let den = ((x >> 11) % 131_071) as i32 - 65535;
        if den != 0 {
            if let Some(bits) = quotient(num, den) {
                assert_eq!(bits, (num as f32 / den as f32).to_bits(), "{num} / {den}");
                compared += 1;
            }
        }
    }
    assert!(compared > 100_000);
    for v in 0..=16383i32 {
        assert_eq!(quotient(v, 16383), Some((v as f32 / 16383.0).to_bits()));
    }
}

#[test]
fn a_range_of_no_width_gives_no_message() {
    let rule =
        ControlChangeHighResRangeTranslator::with_shape(0, 1, ControlShape::Simple, 9, 9, "/flat")
            .unwrap();
    assert_eq!(rule.midi_to_osc(&cc(0, 1, ControlValue::Simple(9))), None);
    assert_eq!(
        rule.osc_to_midi("/flat", &[OscArg::Float(0.7f32.to_bits())]),
        Some(cc(0, 1, ControlValue::Simple(9)))
    );
}

#[test]
fn every_seven_bit_value_comes_back_from_its_position() {
    let rule = encoder_rule();
    for v in 0..=127u8 {
        let out = rule.midi_to_osc(&cc(0, 1, ControlValue::Simple(v))).unwrap();
        let args = match out {
            OscPacket::Message(m) => m.args,
            OscPacket::Bundle(_) => panic!("a rule gives a message"),
        };
        assert_eq!(rule.osc_to_midi("/encoder/1", &args), Some(cc(0, 1, ControlValue::Simple(v))));
    }
}

#[test]
fn every_value_of_a_range_comes_back_from_its_position() {
    let ranges: [(u16, u16); 7] =
        [(0, 16383), (16383, 0), (0, 127), (100, 101), (5000, 9000), (65535, 0), (1, 65535)];
    for (low, high) in ranges {
        let (from, to) = (low.min(high), low.max(high));
        let step = ((to - from) / 5000).max(1);
        let mut v = from;
        loop {
            let bits = cv_to_normalized_float(v, low, high).unwrap();
            assert_eq!(normalized_float_to_cv(bits, low, high), Some(v as i32), "{v} in {low}..{high}");
            let f = f32::from_bits(bits);
            assert!((0.0..=1.0).contains(&f));
            if to - v < step {
                break;
            }
            v += step;
        }
        let end = cv_to_normalized_float(high, low, high).unwrap();
        assert_eq!(end, 1.0f32.to_bits());
        let start = if low < high { 0.0f32 } else { -0.0f32 };
        assert_eq!(cv_to_normalized_float(low, low, high), Some(start.to_bits()));
    }
    let rule = ControlChangeHighResRangeTranslator::new(0, 7, 0, 16383, "/fader").unwrap();
    for v in 0..=16383u16 {
        let ev = cc(0, 7, ControlValue::HighRes(v));
        let args = match rule.midi_to_osc(&ev).unwrap() {
            OscPacket::Message(m) => m.args,
            OscPacket::Bundle(_) => panic!("a rule gives a message"),
        };
        assert_eq!(rule.osc_to_midi("/fader", &args), Some(ev));
    }
}

#[test]
fn a_switch_comes_back_from_its_state() {
    for (off, on) in [(0u16, 127u16), (127, 0), (10, 20), (64, 64)] {
        let rule = ControlChangeBoolTranslator::new(3, 9, off, on, "/switch").unwrap();
        for v in [off, on] {
            let ev = cc(3, 9, ControlValue::Simple(v as u8));
            let args = match rule.midi_to_osc(&ev).unwrap() {
                OscPacket::Message(m) => m.args,
                OscPacket::Bundle(_) => panic!("a rule gives a message"),
            };
            assert_eq!(rule.osc_to_midi("/switch", &args), Some(ev));
        }
    }
}

#[test]
fn comparison_with_one_half() {
    assert!(below_half(0.0f32.to_bits()));
    assert!(below_half((-0.0f32).to_bits()));
    assert!(below_half(0.499_999_97f32.to_bits()));
    assert!(!below_half(0.5f32.to_bits()));
    assert!(!below_half(1.0f32.to_bits()));
    assert!(below_half((-3.0f32).to_bits()));
    assert!(below_half(f32::NEG_INFINITY.to_bits()));
    assert!(!below_half(f32::INFINITY.to_bits()));
    assert!(!below_half(f32::NAN.to_bits()));
    assert!(!below_half((-f32::NAN).to_bits()));
    assert!(below_half(1u32));
    assert!(below_half(f32::MIN_POSITIVE.to_bits()));
}

#[test]
fn the_example_surface() {
    let set = ServerTranslationSet::get_test_set().unwrap();
    assert_eq!(set.len(), 2);
    let out = set.midi_msg_to_osc(&cc(0, 1, ControlValue::Simple(64))).unwrap();
    match &out {
        OscPacket::Message(m) => {
            assert_eq!(m.addr, "/encoder/1");
            assert_eq!(m.args.len(), 1);
            assert!((as_float(&m.args[0]) - 0.504).abs() < 0.0005);
        }
        OscPacket::Bundle(_) => panic!("one rule answers"),
    }
    assert_eq!(
        set.midi_msg_to_osc(&cc(0, 65, ControlValue::Simple(127))),
        Some(message("/key/1", vec![OscArg::Float(1.0f32.to_bits())]))
    );
    assert_eq!(set.midi_msg_to_osc(&cc(0, 2, ControlValue::Simple(64))), None);
    assert_eq!(set.midi_msg_to_osc(&MidiEvent::Other), None);
    assert_eq!(
        set.osc_pkt_to_midi(&message("/key/1", vec![OscArg::Float(0.7f32.to_bits())])),
        vec![cc(0, 65, ControlValue::Simple(127))]
    );
    assert_eq!(
        set.osc_pkt_to_midi(&message("/*/1", vec![OscArg::Float(0.5f32.to_bits())])),
        vec![cc(0, 1, ControlValue::Simple(64)), cc(0, 65, ControlValue::Simple(127))]
    );
    assert_eq!(set.osc_pkt_to_midi(&message("/none", vec![OscArg::Float(0)])), vec![]);
    assert_eq!(set.osc_pkt_to_midi(&message("not an address", vec![OscArg::Float(0)])), vec![]);
}

#[test]
fn two_rules_for_one_message_give_a_bundle_in_their_order() {
    let first = ControlChangeHighResRangeTranslator::with_shape(
        0,
        1,
        ControlShape::Simple,
        0,
        127,
        "/first",
    )
    .unwrap();
    let second = ControlChangeBoolTranslator::new(0, 1, 0, 127, "/second").unwrap();
    let third = ControlChangeBoolTranslator::new(0, 2, 0, 127, "/third").unwrap();
    let set = ServerTranslationSet::new(vec![
        TranslationRule::Range(first.clone()),
        TranslationRule::Bool(third.clone()),
        TranslationRule::Bool(second.clone()),
    ]);
    assert_eq!(
        set.midi_msg_to_osc(&cc(0, 1, ControlValue::Simple(100))),
        Some(OscPacket::Bundle(OscBundle {
            timetag: OscTime { seconds: 0, fractional: 0 },
            content: vec![
                message("/first", vec![OscArg::Float((100.0f32 / 127.0f32).to_bits())]),
                message("/second", vec![OscArg::Float(1.0f32.to_bits())]),
            ],
        }))
    );
    let swapped = ServerTranslationSet::new(vec![
        TranslationRule::Bool(second),
        TranslationRule::Range(first),
    ]);
    assert_eq!(
        swapped.midi_msg_to_osc(&cc(0, 1, ControlValue::Simple(100))),
        Some(OscPacket::Bundle(OscBundle {
            timetag: OscTime { seconds: 0, fractional: 0 },
            content: vec![
                message("/second", vec![OscArg::Float(1.0f32.to_bits())]),
                message("/first", vec![OscArg::Float((100.0f32 / 127.0f32).to_bits())]),
            ],
        }))
    );
    let empty: ServerTranslationSet = ServerTranslationSet::new(vec![]);
    assert_eq!(empty.midi_msg_to_osc(&cc(0, 1, ControlValue::Simple(1))), None);
    assert_eq!(empty.osc_pkt_to_midi(&message("/first", vec![OscArg::Float(0)])), vec![]);
}

#[test]
fn bundles_are_translated_packet_by_packet() {
    let set = ServerTranslationSet::get_test_set().unwrap();
    let inner = OscPacket::Bundle(OscBundle {
        timetag: OscTime { seconds: 1, fractional: 2 },
        content: vec![
            message("/key/1", vec![OscArg::Float(0.0f32.to_bits())]),
            message("/nothing", vec![OscArg::Float(0.0f32.to_bits())]),
            message("/encoder/1", vec![OscArg::Float(1.0f32.to_bits())]),
        ],
    });
    let outer = OscPacket::Bundle(OscBundle {
        timetag: OscTime { seconds: 0, fractional: 0 },
        content: vec![
            message("/encoder/1", vec![OscArg::Float(0.0f32.to_bits())]),
            inner,
            OscPacket::Bundle(OscBundle { timetag: OscTime { seconds: 0, fractional: 0 }, content: vec![] }),
            message("/{key,encoder}/1", vec![OscArg::Float(1.0f32.to_bits())]),
            message("/key/1", vec![OscArg::Other]),
        ],
    });
    assert_eq!(
        set.osc_pkt_to_midi(&outer),
        vec![
            cc(0, 1, ControlValue::Simple(0)),
            cc(0, 65, ControlValue::Simple(0)),
            cc(0, 1, ControlValue::Simple(127)),
            cc(0, 1, ControlValue::Simple(127)),
            cc(0, 65, ControlValue::Simple(127)),
        ]
    );
    assert_eq!(
        set.osc_msg_to_midi("/key/1", &[OscArg::Float(1.0f32.to_bits())]),
        vec![cc(0, 65, ControlValue::Simple(127))]
    );
}

#[test]
fn a_set_of_rules_of_one_kind() {
    let set = ServerTranslationSet::new(vec![
        ControlChangeBoolTranslator::new(0, 1, 0, 127, "/a").unwrap(),
        ControlChangeBoolTranslator::new(0, 1, 127, 0, "/b").unwrap(),
    ]);
    assert_eq!(set.len(), 2);
    assert_eq!(
        set.midi_msg_to_osc(&cc(0, 1, ControlValue::Simple(127))),
        Some(OscPacket::Bundle(OscBundle {
            timetag: OscTime { seconds: 0, fractional: 0 },
            content: vec![
                message("/a", vec![OscArg::Float(1.0f32.to_bits())]),
                message("/b", vec![OscArg::Float(0.0f32.to_bits())]),
            ],
        }))
    );
    assert_eq!(
        set.osc_pkt_to_midi(&message("/?", vec![OscArg::Float(1.0f32.to_bits())])),
        vec![cc(0, 1, ControlValue::Simple(127)), cc(0, 1, ControlValue::Simple(0))]
    );
    let ranges = ServerTranslationSet::new(vec![encoder_rule()]);
    assert_eq!(
        Translator::midi_to_osc(&encoder_rule(), &cc(0, 1, ControlValue::Simple(127))),
        ranges.midi_msg_to_osc(&cc(0, 1, ControlValue::Simple(127)))
    );
    assert_eq!(
        Translator::osc_to_midi(&key_rule(), "/key/1", &[OscArg::Float(0)]),
        Some(cc(0, 65, ControlValue::Simple(0)))
    );
}

#[test]
fn rules_through_the_set_type() {
    let rule = TranslationRule::Range(encoder_rule());
    assert_eq!(
        rule.midi_to_osc(&cc(0, 1, ControlValue::Simple(127))),
        Some(message("/encoder/1", vec![OscArg::Float((127.0f32 / 127.0f32).to_bits())]))
    );
    assert_eq!(
        rule.osc_to_midi("/encoder/1", &[OscArg::Float(0.0f32.to_bits())]),
        Some(cc(0, 1, ControlValue::Simple(0)))
    );
    let rule = TranslationRule::Bool(key_rule());
    assert_eq!(
        rule.midi_to_osc(&cc(0, 65, ControlValue::Simple(1))),
        Some(message("/key/1", vec![OscArg::Float(0)]))
    );
    assert_eq!(
        rule.osc_to_midi("/key/1", &[OscArg::Float(1.0f32.to_bits())]),
        Some(cc(0, 65, ControlValue::Simple(127)))
    );
}
